//! The per-player touch diagnostics of the maimai runtime: three log lines
//! that show the links, the rates of touch frames, callbacks and keep-alives
//! since the last report, and the LED writes with the current touch bits.
use vstd::prelude::*;
use vstd::string::StringExecFns;
use crate::digits::{dec, dec_string, hex2_chars, hex2_string};

verus! {

/// The counters that a report shows.
#[derive(Clone, Copy)]
pub struct DiagCounters {
    pub touch_frames: u64,
    pub serial_frames: u64,
    pub touch_hid_frames: u64,
    pub callback_frames: u64,
    pub heartbeat_writes: u64,
    pub heartbeat_failures: u64,
    pub led_writes: u64,
    pub led_button_writes: u64,
    pub led_billboard_writes: u64,
    pub led_pwm_writes: u64,
    pub led_failures: u64,
    pub serial_reconnects: u64,
    pub vendor_reconnects: u64,
}

/// The state of a player's links that a report shows.
#[derive(Clone, Copy)]
pub struct DiagLink {
    pub buttons_hid: bool,
    pub vendor_hid: bool,
    pub touch_hid: bool,
    pub led_suspended: bool,
    /// When touch input last changed (0: never).
    pub last_update_ms: u64,
}

/// `a - b`, or 0 when `b` is larger.
pub open spec fn sat_sub(a: u64, b: u64) -> nat {
    if a >= b { (a - b) as nat } else { 0 }
}

/// A flag as the report shows it: 1 or 0.
pub open spec fn flag(b: bool) -> Seq<char> {
    dec(if b { 1nat } else { 0nat })
}

/// A counter with its growth since the last report: `{label}{cur} (+{delta})`.
pub open spec fn counter_text(label: Seq<char>, cur: u64, prev: u64) -> Seq<char> {
    label + dec(cur as nat) + " (+"@ + dec(sat_sub(cur, prev)) + ")"@
}

/// The first line: the links, the pause, the reconnect counts and the age of
/// the last touch update.
pub open spec fn diag_link_text(player: u8, cur: DiagCounters, link: DiagLink, now: u64) -> Seq<char> {
    "P"@ + dec(player as nat) + " diag link  buttons_hid="@ + flag(link.buttons_hid) + " vendor_hid="@ + flag(
        link.vendor_hid,
    ) + " touch_hid="@ + flag(link.touch_hid) + " suspend="@ + flag(link.led_suspended) + " reconn=s"@ + dec(
        cur.serial_reconnects as nat,
    ) + "/v"@ + dec(cur.vendor_reconnects as nat) + " last_update="@ + if link.last_update_ms == 0 {
        "never"@
    } else {
        dec(sat_sub(now, link.last_update_ms)) + "ms"@
    }
}

/// The second line: touch frames (all, serial, touch HID), callbacks and
/// keep-alives, each with its growth, and the keep-alive failures.
pub open spec fn diag_rate_text(player: u8, cur: DiagCounters, prev: DiagCounters) -> Seq<char> {
    "P"@ + dec(player as nat) + " diag rate  "@ + counter_text("touch="@, cur.touch_frames, prev.touch_frames) + " "@
        + counter_text("cdc="@, cur.serial_frames, prev.serial_frames) + " "@ + counter_text(
        "touch_hid="@,
        cur.touch_hid_frames,
        prev.touch_hid_frames,
    ) + " "@ + counter_text("cb="@, cur.callback_frames, prev.callback_frames) + " "@ + counter_text(
        "hb="@,
        cur.heartbeat_writes,
        prev.heartbeat_writes,
    ) + " hb_fail="@ + dec(cur.heartbeat_failures as nat)
}

/// The seven touch bytes, in hexadecimal, separated by spaces.
pub open spec fn touch_text(touch: [u8; 7]) -> Seq<char> {
    hex2_chars(touch[0]) + " "@ + hex2_chars(touch[1]) + " "@ + hex2_chars(touch[2]) + " "@ + hex2_chars(touch[3])
        + " "@ + hex2_chars(touch[4]) + " "@ + hex2_chars(touch[5]) + " "@ + hex2_chars(touch[6])
}

/// The third line: LED writes (all, buttons, billboard, cabinet lights), each
/// with its growth, the failures, and the current touch bytes.
pub open spec fn diag_led_text(player: u8, cur: DiagCounters, prev: DiagCounters, touch: [u8; 7]) -> Seq<char> {
    "P"@ + dec(player as nat) + " diag led   "@ + counter_text("set="@, cur.led_writes, prev.led_writes) + " "@
        + counter_text("btn="@, cur.led_button_writes, prev.led_button_writes) + " "@ + counter_text(
        "bb="@,
        cur.led_billboard_writes,
        prev.led_billboard_writes,
    ) + " "@ + counter_text("pwm="@, cur.led_pwm_writes, prev.led_pwm_writes) + " fail="@ + dec(
        cur.led_failures as nat,
    ) + " | touch="@ + touch_text(touch)
}

fn push_dec(out: &mut String, n: u64)
    ensures
        final(out)@ == old(out)@ + dec(n as nat),
{
    let d = dec_string(n);
    out.append(d.as_str());
}

fn push_flag(out: &mut String, b: bool)
    ensures
        final(out)@ == old(out)@ + flag(b),
{
    push_dec(out, if b { 1 } else { 0 });
}

fn push_counter(out: &mut String, label: &str, cur: u64, prev: u64)
    ensures
        final(out)@ == old(out)@ + counter_text(label@, cur, prev),
{
    out.append(label);
    push_dec(out, cur);
    out.append(" (+");
    push_dec(out, cur.saturating_sub(prev));
    out.append(")");
    assert(final(out)@ =~= old(out)@ + counter_text(label@, cur, prev));
}

/// The first diagnostics line; see `diag_link_text`.
pub fn diag_link_line(player: u8, cur: &DiagCounters, link: &DiagLink, now: u64) -> (line: String)
    ensures
        line@ == diag_link_text(player, *cur, *link, now),
{
    let mut out = String::new();
    out.append("P");
    push_dec(&mut out, player as u64);
    out.append(" diag link  buttons_hid=");
    push_flag(&mut out, link.buttons_hid);
    out.append(" vendor_hid=");
    push_flag(&mut out, link.vendor_hid);
    out.append(" touch_hid=");
    push_flag(&mut out, link.touch_hid);
    out.append(" suspend=");
    push_flag(&mut out, link.led_suspended);
    out.append(" reconn=s");
    push_dec(&mut out, cur.serial_reconnects);
    out.append("/v");
    push_dec(&mut out, cur.vendor_reconnects);
    out.append(" last_update=");
    if link.last_update_ms == 0 {
        out.append("never");
    } else {
        push_dec(&mut out, now.saturating_sub(link.last_update_ms));
        out.append("ms");
    }
    assert(out@ =~= diag_link_text(player, *cur, *link, now));
    out
}

/// The second diagnostics line; see `diag_rate_text`.
pub fn diag_rate_line(player: u8, cur: &DiagCounters, prev: &DiagCounters) -> (line: String)
    ensures
        line@ == diag_rate_text(player, *cur, *prev),
{
    let mut out = String::new();
    out.append("P");
    push_dec(&mut out, player as u64);
    out.append(" diag rate  ");
    push_counter(&mut out, "touch=", cur.touch_frames, prev.touch_frames);
    out.append(" ");
    push_counter(&mut out, "cdc=", cur.serial_frames, prev.serial_frames);
    out.append(" ");
    push_counter(&mut out, "touch_hid=", cur.touch_hid_frames, prev.touch_hid_frames);
    out.append(" ");
    push_counter(&mut out, "cb=", cur.callback_frames, prev.callback_frames);
    out.append(" ");
    push_counter(&mut out, "hb=", cur.heartbeat_writes, prev.heartbeat_writes);
    out.append(" hb_fail=");
    push_dec(&mut out, cur.heartbeat_failures);
    assert(out@ =~= diag_rate_text(player, *cur, *prev));
    out
}

fn push_hex2(out: &mut String, b: u8)
    ensures
        final(out)@ == old(out)@ + hex2_chars(b),
{
    let h = hex2_string(b);
    out.append(h.as_str());
}

/// The third diagnostics line; see `diag_led_text`.
pub fn diag_led_line(player: u8, cur: &DiagCounters, prev: &DiagCounters, touch: [u8; 7]) -> (line: String)
    ensures
        line@ == diag_led_text(player, *cur, *prev, touch),
{
    let mut out = String::new();
    out.append("P");
    push_dec(&mut out, player as u64);
    out.append(" diag led   ");
    push_counter(&mut out, "set=", cur.led_writes, prev.led_writes);
    out.append(" ");
    push_counter(&mut out, "btn=", cur.led_button_writes, prev.led_button_writes);
    out.append(" ");
    push_counter(&mut out, "bb=", cur.led_billboard_writes, prev.led_billboard_writes);
    out.append(" ");
    push_counter(&mut out, "pwm=", cur.led_pwm_writes, prev.led_pwm_writes);
    out.append(" fail=");
    push_dec(&mut out, cur.led_failures);
    out.append(" | touch=");
    let ghost start = out@;
    push_hex2(&mut out, touch[0]);
    out.append(" ");
    push_hex2(&mut out, touch[1]);
    out.append(" ");
    push_hex2(&mut out, touch[2]);
    out.append(" ");
    push_hex2(&mut out, touch[3]);
    out.append(" ");
    push_hex2(&mut out, touch[4]);
    out.append(" ");
    push_hex2(&mut out, touch[5]);
    out.append(" ");
    push_hex2(&mut out, touch[6]);
    assert(out@ =~= start + touch_text(touch));
    assert(out@ =~= diag_led_text(player, *cur, *prev, touch));
    out
}

} // verus!
