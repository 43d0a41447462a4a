//! The button LED probe: a diagnostic that reports each changed
//! `led_gs_update` request of a board (eight times red, green, blue, speed),
//! how long after the previous one it came, how many buttons jump and how
//! many fade, and, for a request that fades, the last request in which every
//! button jumped.
use vstd::prelude::*;
use vstd::string::StringExecFns;
use crate::digits::{dec, dec_padded, dec_string, zero_pad};
use crate::text::{ascii_chars, utf8_lossy};

verus! {

/// What the probe remembers of one board.
#[derive(Clone, Copy)]
pub struct LedProbeBoard {
    /// A request has been seen.
    pub has_last: bool,
    /// When the last changed request came.
    pub last_ms: u64,
    /// The last changed request.
    pub last_payload: [u8; 32],
    /// A request in which every button jumps has been seen.
    pub has_last_zero: bool,
    /// When the last such request came.
    pub last_zero_ms: u64,
    /// The last such request.
    pub last_zero_payload: [u8; 32],
    /// The number of requests reported.
    pub sequence: u64,
}

/// The hint that a report of a fading request carries.
#[derive(Clone, Copy)]
pub enum ZeroHint {
    /// The request does not fade: no hint.
    NoHint,
    /// No request in which every button jumps has been seen yet.
    NoneYet,
    /// The last request in which every button jumped, and how long ago.
    Last { dt_ms: u64, payload: [u8; 32] },
}

/// One probe report.
#[derive(Clone, Copy)]
pub struct ProbeReport {
    /// The report's number.
    pub sequence: u64,
    /// Time since the previous changed request, if there was one.
    pub dt_ms: Option<u64>,
    /// Buttons whose speed is 0 (they jump to their colour).
    pub zero: u8,
    /// Buttons whose speed is not 0 (they fade).
    pub fade: u8,
    /// See `ZeroHint`.
    pub hint: ZeroHint,
    /// The request.
    pub payload: [u8; 32],
}

/// The number of buttons among the first `k` whose speed byte is 0.
pub open spec fn zeros_upto(p: Seq<u8>, k: int) -> int
    decreases k,
{
    if k <= 0 {
        0
    } else {
        zeros_upto(p, k - 1) + if p[4 * (k - 1) + 3] == 0 { 1int } else { 0 }
    }
}

/// The number of buttons of request `p` whose speed byte is 0.
pub open spec fn zero_count(p: Seq<u8>) -> int {
    zeros_upto(p, 8)
}

/// What the probe does with request `p` arriving at `now`: a request equal
/// to the last one is not reported and changes nothing; any other is
/// reported with the next number, and becomes the last request (and the last
/// request in which every button jumps, if every button does).
pub open spec fn probe_step(b: LedProbeBoard, now: u64, p: [u8; 32]) -> (LedProbeBoard, Option<ProbeReport>) {
    if b.has_last && b.last_payload == p {
        (b, None)
    } else {
        let zero = zero_count(p@);
        let fade = 8 - zero;
        let sequence = vstd::wrapping::u64_specs::wrapping_add(b.sequence, 1);
        let hint = if fade > 0 {
            if b.has_last_zero {
                ZeroHint::Last {
                    dt_ms: if now >= b.last_zero_ms { (now - b.last_zero_ms) as u64 } else { 0 },
                    payload: b.last_zero_payload,
                }
            } else {
                ZeroHint::NoneYet
            }
        } else {
            ZeroHint::NoHint
        };
        let report = ProbeReport {
            sequence,
            dt_ms: if b.has_last { Some(if now >= b.last_ms { (now - b.last_ms) as u64 } else { 0 }) } else { None },
            zero: zero as u8,
            fade: fade as u8,
            hint,
            payload: p,
        };
        let b2 = LedProbeBoard {
            has_last: true,
            last_ms: now,
            last_payload: p,
            has_last_zero: b.has_last_zero || zero == 8,
            last_zero_ms: if zero == 8 { now } else { b.last_zero_ms },
            last_zero_payload: if zero == 8 { p } else { b.last_zero_payload },
            sequence,
        };
        (b2, Some(report))
    }
}

proof fn lemma_zeros_bounds(p: Seq<u8>, k: int)
    requires
        0 <= k,
    ensures
        0 <= zeros_upto(p, k) <= k,
    decreases k,
{
    if k > 0 {
        lemma_zeros_bounds(p, k - 1);
    }
}

impl LedProbeBoard {
    /// A board that has seen no request.
    pub fn new() -> (b: Self)
        ensures
            !b.has_last && !b.has_last_zero && b.last_ms == 0 && b.last_zero_ms == 0 && b.sequence == 0,
            b.last_payload@ == Seq::new(32, |i: int| 0u8),
            b.last_zero_payload@ == Seq::new(32, |i: int| 0u8),
    {
        let b = LedProbeBoard {
            has_last: false,
            last_ms: 0,
            last_payload: [0u8; 32],
            has_last_zero: false,
            last_zero_ms: 0,
            last_zero_payload: [0u8; 32],
            sequence: 0,
        };
        assert(b.last_payload@ =~= Seq::new(32, |i: int| 0u8));
        b
    }

    /// Takes request `payload` arriving at `now`; see `probe_step`.
    pub fn observe(&mut self, now: u64, payload: [u8; 32]) -> (report: Option<ProbeReport>)
        ensures
            (*final(self), report) == probe_step(*old(self), now, payload),
    {
        let mut same = self.has_last;
        let mut i: usize = 0;
        while i < 32
            invariant
                i <= 32,
                same == (self.has_last && forall|j: int| 0 <= j < i ==> self.last_payload@[j] == payload@[j]),
            decreases 32 - i,
        {
            if self.last_payload[i] != payload[i] {
                same = false;
            }
            i = i + 1;
        }
        if same {
            assert(self.last_payload@ =~= payload@);
            assert(self.last_payload == payload);
            return None;
        }
        assert(self.has_last ==> self.last_payload != payload) by {
            if self.has_last && self.last_payload == payload {
                assert(forall|j: int| 0 <= j < 32 ==> self.last_payload@[j] == payload@[j]);
            }
        }
        let mut zero: u8 = 0;
        let mut k: usize = 0;
        while k < 8
            invariant
                k <= 8,
                zero == zeros_upto(payload@, k as int),
                zero <= k,
            decreases 8 - k,
        {
            proof {
                lemma_zeros_bounds(payload@, k as int);
            }
            if payload[4 * k + 3] == 0 {
                zero = zero + 1;
            }
            k = k + 1;
        }
        let fade: u8 = 8 - zero;
        let sequence = self.sequence.wrapping_add(1);
        let hint = if fade > 0 {
            if self.has_last_zero {
                ZeroHint::Last { dt_ms: now.saturating_sub(self.last_zero_ms), payload: self.last_zero_payload }
            } else {
                ZeroHint::NoneYet
            }
        } else {
            ZeroHint::NoHint
        };
        let dt_ms = if self.has_last { Some(now.saturating_sub(self.last_ms)) } else { None };
        let report = ProbeReport { sequence, dt_ms, zero, fade, hint, payload };
        if zero == 8 {
            self.has_last_zero = true;
            self.last_zero_ms = now;
            self.last_zero_payload = payload;
        }
        self.has_last = true;
        self.last_ms = now;
        self.last_payload = payload;
        self.sequence = sequence;
        Some(report)
    }
}

/// A repeated request is reported once: right after a request is taken, the
/// same request again is not reported and leaves the board as it was.
pub proof fn repeated_request_reported_once(b: LedProbeBoard, now: u64, later: u64, p: [u8; 32])
    ensures
        probe_step(probe_step(b, now, p).0, later, p) == (probe_step(b, now, p).0, None::<ProbeReport>),
{
}

/// The jump and fade counts of a report add up to the eight buttons.
pub proof fn report_counts_all_buttons(b: LedProbeBoard, now: u64, p: [u8; 32])
    ensures
        probe_step(b, now, p).1 matches Some(r) ==> r.zero + r.fade == 8 && r.zero == zero_count(p@),
{
    lemma_zeros_bounds(p@, 8);
}


/// The upper-case hexadecimal digit of `n` (below 16), as an ASCII byte.
pub open spec fn hex_digit_byte(n: int) -> u8 {
    if n < 10 { (0x30 + n) as u8 } else { (0x41 + n - 10) as u8 }
}

/// Byte `b` as two upper-case hexadecimal digits, as `{:02X}` writes it.
pub open spec fn hex2(b: u8) -> Seq<u8> {
    seq![hex_digit_byte(b as int / 16), hex_digit_byte(b as int % 16)]
}

/// The text of button `i` of request `p`: its number, a colon, its colour as
/// six hexadecimal digits and, with `with_speed`, `/s` and its speed as two.
pub open spec fn probe_entry(p: Seq<u8>, i: int, with_speed: bool) -> Seq<u8> {
    seq![(0x30 + i) as u8, 0x3Au8] + hex2(p[4 * i]) + hex2(p[4 * i + 1]) + hex2(p[4 * i + 2]) + if with_speed {
        seq![0x2Fu8, 0x73u8] + hex2(p[4 * i + 3])
    } else {
        Seq::empty()
    }
}

/// The texts of the first `k` buttons of request `p`, separated by spaces.
pub open spec fn probe_entries(p: Seq<u8>, k: int, with_speed: bool) -> Seq<u8>
    decreases k,
{
    if k <= 0 {
        Seq::empty()
    } else {
        probe_entries(p, k - 1, with_speed) + (if k > 1 { seq![0x20u8] } else { Seq::empty() }) + probe_entry(
            p,
            k - 1,
            with_speed,
        )
    }
}

fn hex_digit(n: u8) -> (d: u8)
    requires
        n < 16,
    ensures
        d == hex_digit_byte(n as int),
        d < 0x80,
{
    if n < 10 { 0x30 + n } else { 0x41 + n - 10 }
}

fn push_hex2(out: &mut Vec<u8>, b: u8)
    ensures
        final(out)@ == old(out)@ + hex2(b),
{
    out.push(hex_digit(b / 16));
    out.push(hex_digit(b % 16));
    assert(final(out)@ =~= old(out)@ + hex2(b));
}

proof fn lemma_hex2_ascii(b: u8)
    ensures
        forall|j: int| 0 <= j < 2 ==> #[trigger] hex2(b)[j] < 0x80,
{
    assert(b as int / 16 < 16);
    assert(b as int % 16 < 16);
}

fn entry_bytes(payload: &[u8; 32], i: usize, with_speed: bool) -> (v: Vec<u8>)
    requires
        i < 8,
    ensures
        v@ == probe_entry(payload@, i as int, with_speed),
        forall|j: int| 0 <= j < v@.len() ==> v@[j] < 0x80,
{
    let mut v: Vec<u8> = Vec::new();
    v.push(0x30 + i as u8);
    v.push(0x3A);
    push_hex2(&mut v, payload[4 * i]);
    push_hex2(&mut v, payload[4 * i + 1]);
    push_hex2(&mut v, payload[4 * i + 2]);
    if with_speed {
        v.push(0x2F);
        v.push(0x73);
        push_hex2(&mut v, payload[4 * i + 3]);
    }
    proof {
        lemma_hex2_ascii(payload@[4 * i]);
        lemma_hex2_ascii(payload@[4 * i + 1]);
        lemma_hex2_ascii(payload@[4 * i + 2]);
        lemma_hex2_ascii(payload@[4 * i + 3]);
        assert(v@ =~= probe_entry(payload@, i as int, with_speed));
    }
    v
}

fn probe_colour_text(payload: &[u8; 32], with_speed: bool) -> (text: String)
    ensures
        text@ == ascii_chars(probe_entries(payload@, 8, with_speed)),
{
    let mut bytes: Vec<u8> = Vec::new();
    let mut i: usize = 0;
    while i < 8
        invariant
            i <= 8,
            bytes@ == probe_entries(payload@, i as int, with_speed),
            forall|j: int| 0 <= j < bytes@.len() ==> bytes@[j] < 0x80,
        decreases 8 - i,
    {
        let ghost before = bytes@;
        if i > 0 {
            bytes.push(0x20);
        }
        let ghost sep = bytes@;
        let mut entry = entry_bytes(payload, i, with_speed);
        let ghost e = entry@;
        bytes.append(&mut entry);
        proof {
            assert(bytes@ =~= sep + e);
            assert(sep =~= before + (if i + 1 > 1 { seq![0x20u8] } else { Seq::<u8>::empty() }));
            assert(bytes@ =~= probe_entries(payload@, i + 1, with_speed));
            assert forall|j: int| 0 <= j < bytes@.len() implies bytes@[j] < 0x80 by {
                if j >= sep.len() {
                    assert(bytes@[j] == e[j - sep.len()]);
                } else if j >= before.len() {
                    assert(bytes@[j] == 0x20);
                } else {
                    assert(bytes@[j] == before[j]);
                }
            }
        }
        i = i + 1;
    }
    utf8_lossy(bytes.as_slice())
}

/// Appends the colours and speeds of request `payload` to `out`, as the probe
/// line shows them: `0:RRGGBB/sSS 1:...` up to button 7; see
/// `probe_entries`.
pub fn format_led_probe_rgbs(out: &mut String, payload: &[u8; 32])
    ensures
        final(out)@ == old(out)@ + ascii_chars(probe_entries(payload@, 8, true)),
{
    let text = probe_colour_text(payload, true);
    out.append(text.as_str());
}

/// Appends the colours of request `payload` to `out`, without the speeds:
/// `0:RRGGBB 1:...` up to button 7; see `probe_entries`.
pub fn format_led_probe_rgb(out: &mut String, payload: &[u8; 32])
    ensures
        final(out)@ == old(out)@ + ascii_chars(probe_entries(payload@, 8, false)),
{
    let text = probe_colour_text(payload, false);
    out.append(text.as_str());
}


/// The time-since-last part of a probe line: `{dt}ms`, or `first`.
pub open spec fn probe_dt_text(dt_ms: Option<u64>) -> Seq<char> {
    match dt_ms {
        Some(dt) => dec(dt as nat) + "ms"@,
        None => "first"@,
    }
}

/// The hint at the end of a probe line.
pub open spec fn probe_hint_text(hint: ZeroHint) -> Seq<char> {
    match hint {
        ZeroHint::NoHint => Seq::empty(),
        ZeroHint::NoneYet => " last_zero=none"@,
        ZeroHint::Last { dt_ms, payload } => " last_zero_dt="@ + dec(dt_ms as nat) + "ms last_zero=["@ + ascii_chars(
            probe_entries(payload@, 8, false),
        ) + "]"@,
    }
}

/// The probe's log line for report `r` of player `player`:
/// `P{player} LedProbe#{sequence:06} dt={dt} zero={zero} fade={fade}
/// rgbs=[{colours}]{hint}`.
pub open spec fn probe_line_text(player: u8, r: ProbeReport) -> Seq<char> {
    "P"@ + dec(player as nat) + " LedProbe#"@ + zero_pad(dec(r.sequence as nat), 6) + " dt="@ + probe_dt_text(r.dt_ms)
        + " zero="@ + dec(r.zero as nat) + " fade="@ + dec(r.fade as nat) + " rgbs=["@ + ascii_chars(
        probe_entries(r.payload@, 8, true),
    ) + "]"@ + probe_hint_text(r.hint)
}

/// Builds the probe's log line for report `report` of player `player`; see
/// `probe_line_text`.
pub fn probe_line(player: u8, report: &ProbeReport) -> (line: String)
    ensures
        line@ == probe_line_text(player, *report),
{
    let mut out = String::new();
    out.append("P");
    out.append(dec_string(player as u64).as_str());
    out.append(" LedProbe#");
    out.append(dec_padded(report.sequence, 6).as_str());
    out.append(" dt=");
    match report.dt_ms {
        Some(dt) => {
            out.append(dec_string(dt).as_str());
            out.append("ms");
        },
        None => {
            out.append("first");
        },
    }
    out.append(" zero=");
    out.append(dec_string(report.zero as u64).as_str());
    out.append(" fade=");
    out.append(dec_string(report.fade as u64).as_str());
    out.append(" rgbs=[");
    format_led_probe_rgbs(&mut out, &report.payload);
    out.append("]");
    let ghost before_hint = out@;
    match report.hint {
        ZeroHint::NoHint => {
            assert(out@ =~= before_hint + probe_hint_text(report.hint));
        },
        ZeroHint::NoneYet => {
            out.append(" last_zero=none");
        },
        ZeroHint::Last { dt_ms, payload } => {
            out.append(" last_zero_dt=");
            out.append(dec_string(dt_ms).as_str());
            out.append("ms last_zero=[");
            format_led_probe_rgb(&mut out, &payload);
            out.append("]");
        },
    }
    assert(out@ =~= probe_line_text(player, *report));
    out
}

} // verus!
