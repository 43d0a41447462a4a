//! The decisions of the maimai device loops: how each source of input
//! updates a player's input page, when the loops send keep-alives, board
//! information requests and LED frames, and when a stalled touch stream
//! pauses LED output or forces a reconnect.
use vstd::prelude::*;
use crate::mai2::{button_rgb_payload, rgb_of_buttons, Mai2InputPage, Mai2OutputPage};
use crate::mai2_link::{AFFINE_CMD_SET_BILLBOARD, AFFINE_CMD_SET_BUTTON_LEDS, AFFINE_CMD_SET_PWM};

verus! {

/// Interval between keep-alives.
pub const AFFINE_HEARTBEAT_INTERVAL_MS: u64 = 100;
/// Delay before the first board information request.
pub const AFFINE_BOARD_INFO_DELAY_MS: u64 = 500;
/// Delay between board information requests.
pub const AFFINE_BOARD_INFO_TIMEOUT_MS: u64 = 1_000;
/// Time after which a board that never answered is reported as unknown.
pub const AFFINE_BOARD_INFO_GIVE_UP_MS: u64 = 3_000;
/// Touch silence after which LED output pauses.
pub const AFFINE_TOUCH_STALE_LED_PAUSE_MS: u64 = 300;
/// Touch silence after which the serial link is reopened.
pub const AFFINE_TOUCH_STALE_RECONNECT_MS: u64 = 1_000;
/// Time after connecting during which touch silence is tolerated.
pub const AFFINE_TOUCH_STALE_GRACE_MS: u64 = 3_000;

impl Mai2InputPage {
    /// A source is connected: counts an update.
    pub fn mark_connected(&mut self)
        ensures
            *final(self) == (Mai2InputPage {
                connected: 1,
                sequence: vstd::wrapping::u64_specs::wrapping_add(old(self).sequence, 1),
                ..*old(self)
            }),
    {
        self.connected = 1;
        self.sequence = self.sequence.wrapping_add(1);
    }

    /// A source reported input: stores what it reported and counts an
    /// update.
    pub fn apply_frame(&mut self, buttons0: Option<u8>, io_status: Option<u8>, touch: Option<[u8; 7]>)
        ensures
            final(self).connected == 1,
            final(self).buttons0 == match buttons0 { Some(b) => b, None => old(self).buttons0 },
            final(self).io_status == match io_status { Some(b) => b, None => old(self).io_status },
            final(self).touch == match touch { Some(t) => t, None => old(self).touch },
            final(self).sequence == vstd::wrapping::u64_specs::wrapping_add(old(self).sequence, 1),
    {
        self.connected = 1;
        if let Some(b) = buttons0 {
            self.buttons0 = b;
        }
        if let Some(s) = io_status {
            self.io_status = s;
        }
        if let Some(t) = touch {
            self.touch = t;
        }
        self.sequence = self.sequence.wrapping_add(1);
    }

    /// A source went away: clears the buttons (and status bits) when no
    /// button source is left, and the touch bits when no touch source is
    /// left, counting an update only when something was cleared.
    pub fn clear_dropped_inputs(&mut self, buttons_live: bool, touch_live: bool)
        ensures
            ({
                let clear_buttons = !buttons_live && (old(self).buttons0 != 0 || old(self).io_status != 0);
                let clear_touch = !touch_live && old(self).touch != [0u8, 0, 0, 0, 0, 0, 0];
                &&& final(self).connected == old(self).connected
                &&& final(self).buttons0 == if clear_buttons { 0 } else { old(self).buttons0 }
                &&& final(self).io_status == if clear_buttons { 0 } else { old(self).io_status }
                &&& final(self).touch == if clear_touch { [0u8, 0, 0, 0, 0, 0, 0] } else { old(self).touch }
                &&& final(self).sequence == if clear_buttons || clear_touch {
                    vstd::wrapping::u64_specs::wrapping_add(old(self).sequence, 1)
                } else {
                    old(self).sequence
                }
            }),
    {
        if buttons_live && touch_live {
            return;
        }
        let mut changed = false;
        if !buttons_live && (self.buttons0 != 0 || self.io_status != 0) {
            self.buttons0 = 0;
            self.io_status = 0;
            changed = true;
        }
        let t = self.touch;
        let all_zero = t[0] == 0 && t[1] == 0 && t[2] == 0 && t[3] == 0 && t[4] == 0 && t[5] == 0 && t[6] == 0;
        assert(all_zero <==> t =~= [0u8, 0, 0, 0, 0, 0, 0]);
        if !touch_live && !all_zero {
            self.touch = [0u8; 7];
            assert(self.touch =~= [0u8, 0, 0, 0, 0, 0, 0]);
            changed = true;
        }
        if changed {
            self.sequence = self.sequence.wrapping_add(1);
        }
    }

    /// The serial session closed: the page stays connected (counting an
    /// update) when another source is live, and is cleared otherwise.
    pub fn after_disconnect(&mut self, other_source_live: bool)
        ensures
            other_source_live ==> *final(self) == (Mai2InputPage {
                connected: 1,
                sequence: vstd::wrapping::u64_specs::wrapping_add(old(self).sequence, 1),
                ..*old(self)
            }),
            !other_source_live ==> *final(self) == Mai2InputPage::zero(),
    {
        if other_source_live {
            self.mark_connected();
        } else {
            *self = Mai2InputPage::new();
        }
    }
}

/// Where a touch frame came from.
#[derive(Clone, Copy, PartialEq, Eq)]
pub enum TouchSource {
    /// The board's serial link.
    Serial,
    /// The touch HID stream.
    TouchHid,
    /// Any other path (the vendor HID link, the button interface, injected
    /// input).
    Synthetic,
}

/// Counters of the touch frames a board delivered, by source, and when the
/// last one came.
#[derive(Clone, Copy)]
pub struct TouchCounters {
    pub frames: u64,
    pub serial_frames: u64,
    pub hid_frames: u64,
    pub last_update_ms: u64,
}

/// The counters after a device frame from `source` arrived at `now`: only a
/// frame that carries touch bits counts, once in the total and once for its
/// source (the serial link or the touch HID stream), and sets the time of
/// the last touch update.
pub open spec fn touch_counted(c: TouchCounters, touch_present: bool, source: TouchSource, now: u64) -> TouchCounters {
    if touch_present {
        TouchCounters {
            frames: vstd::wrapping::u64_specs::wrapping_add(c.frames, 1),
            serial_frames: if source == TouchSource::Serial {
                vstd::wrapping::u64_specs::wrapping_add(c.serial_frames, 1)
            } else {
                c.serial_frames
            },
            hid_frames: if source == TouchSource::TouchHid {
                vstd::wrapping::u64_specs::wrapping_add(c.hid_frames, 1)
            } else {
                c.hid_frames
            },
            last_update_ms: now,
        }
    } else {
        c
    }
}

impl TouchCounters {
    /// Nothing counted, no touch update yet.
    pub fn new() -> (c: Self)
        ensures
            c == (TouchCounters { frames: 0, serial_frames: 0, hid_frames: 0, last_update_ms: 0 }),
    {
        TouchCounters { frames: 0, serial_frames: 0, hid_frames: 0, last_update_ms: 0 }
    }
}

/// A device frame from `source` arrived at `now`: the input page takes what
/// it reports (see `Mai2InputPage::apply_frame`) and the touch counters count
/// it (see `touch_counted`).
pub fn apply_device_frame(
    page: &mut Mai2InputPage,
    counters: &mut TouchCounters,
    buttons0: Option<u8>,
    io_status: Option<u8>,
    touch: Option<[u8; 7]>,
    source: TouchSource,
    now: u64,
)
    ensures
        final(page).connected == 1,
        final(page).buttons0 == match buttons0 { Some(b) => b, None => old(page).buttons0 },
        final(page).io_status == match io_status { Some(b) => b, None => old(page).io_status },
        final(page).touch == match touch { Some(t) => t, None => old(page).touch },
        final(page).sequence == vstd::wrapping::u64_specs::wrapping_add(old(page).sequence, 1),
        *final(counters) == touch_counted(*old(counters), touch is Some, source, now),
{
    let touch_present = touch.is_some();
    page.apply_frame(buttons0, io_status, touch);
    if touch_present {
        counters.frames = counters.frames.wrapping_add(1);
        match source {
            TouchSource::Serial => {
                counters.serial_frames = counters.serial_frames.wrapping_add(1);
            },
            TouchSource::TouchHid => {
                counters.hid_frames = counters.hid_frames.wrapping_add(1);
            },
            TouchSource::Synthetic => {},
        }
        counters.last_update_ms = now;
    }
}

/// Interval between two touch diagnostics reports, in milliseconds.
pub const AFFINE_TOUCH_DIAG_INTERVAL_MS: u64 = 2_000;

/// Whether a touch diagnostics report is due at `now`, the last one having
/// gone out at `last`.
pub fn diag_due(now: u64, last: u64) -> (due: bool)
    ensures
        due == (now >= last + AFFINE_TOUCH_DIAG_INTERVAL_MS),
{
    now.saturating_sub(last) >= AFFINE_TOUCH_DIAG_INTERVAL_MS
}

/// The inputs that a touch frame from the serial or vendor link updates:
/// its touch bits always, its buttons and status bits only while the button
/// HID interface is not connected (that interface then owns the buttons).
pub fn frame_inputs(buttons0: Option<u8>, io_status: Option<u8>, touch: Option<[u8; 7]>, hid_connected: bool) -> (r: (
    Option<u8>,
    Option<u8>,
    Option<[u8; 7]>,
))
    ensures
        r == (if hid_connected { (None, None, touch) } else { (buttons0, io_status, touch) }),
{
    if hid_connected {
        (None, None, touch)
    } else {
        (buttons0, io_status, touch)
    }
}

/// The buttons and status bits of a button HID report, of which `read`
/// bytes came in. Reports shorter than two bytes carry nothing, and the same
/// interface also carries benchmark events (status byte 0xFF) and a
/// raw-debug stream (`0xA5, 0x5A`): a status byte above 0x3F, which has at
/// most six valid bits, is no button report.
pub fn button_report(report: &[u8], read: usize) -> (r: Option<(u8, u8)>)
    requires
        read <= report@.len(),
    ensures
        r == if read < 2 || report@[1] > 0x3F || (report@[0] == 0xA5 && report@[1] == 0x5A) {
            None::<(u8, u8)>
        } else {
            Some((report@[0], report@[1]))
        },
{
    if read < 2 {
        return None;
    }
    if report[1] > 0x3F || (report[0] == 0xA5 && report[1] == 0x5A) {
        return None;
    }
    Some((report[0], report[1]))
}

/// How long touch input has been silent: since the last touch update, or,
/// before any, since the link connected; `None` before either.
pub fn touch_serial_age_ms(last_update_ms: u64, now: u64, connected_since_ms: u64) -> (age: Option<u64>)
    ensures
        age == if last_update_ms != 0 {
            Some(if now >= last_update_ms { (now - last_update_ms) as u64 } else { 0 })
        } else if connected_since_ms != 0 {
            Some(if now >= connected_since_ms { (now - connected_since_ms) as u64 } else { 0 })
        } else {
            None::<u64>
        },
{
    if last_update_ms != 0 {
        return Some(now.saturating_sub(last_update_ms));
    }
    if connected_since_ms != 0 {
        return Some(now.saturating_sub(connected_since_ms));
    }
    None
}

/// What a stalled touch stream calls for.
#[derive(Clone, Copy)]
pub struct TouchGuard {
    /// Touch is enabled and the link has been up past the grace period.
    pub protect: bool,
    /// LED output should pause.
    pub stale: bool,
    /// The serial link should be reopened.
    pub reconnect: bool,
}

/// Whether touch silence of `age` pauses LED output or reopens the link:
/// only while touch is enabled and the link has been up for the grace
/// period; LEDs pause after `AFFINE_TOUCH_STALE_LED_PAUSE_MS`, the link is
/// reopened after `AFFINE_TOUCH_STALE_RECONNECT_MS`.
pub fn touch_guard(touch_enabled: u8, connected_since_ms: u64, now: u64, age: Option<u64>) -> (g: TouchGuard)
    ensures
        g.protect == (touch_enabled != 0 && connected_since_ms != 0
            && now >= connected_since_ms + AFFINE_TOUCH_STALE_GRACE_MS),
        g.stale == (g.protect && match age { Some(a) => a >= AFFINE_TOUCH_STALE_LED_PAUSE_MS, None => false }),
        g.reconnect == (g.protect && match age { Some(a) => a >= AFFINE_TOUCH_STALE_RECONNECT_MS, None => false }),
{
    let protect = touch_enabled != 0 && connected_since_ms != 0
        && now.saturating_sub(connected_since_ms) >= AFFINE_TOUCH_STALE_GRACE_MS;
    let stale = protect && match age {
        Some(a) => a >= AFFINE_TOUCH_STALE_LED_PAUSE_MS,
        None => false,
    };
    let reconnect = protect && match age {
        Some(a) => a >= AFFINE_TOUCH_STALE_RECONNECT_MS,
        None => false,
    };
    TouchGuard { protect, stale, reconnect }
}

/// What the LED watchdog of a serial session remembers: whether LED output
/// is paused, whether the pause has been logged, and the count of touch
/// frames seen at the last check.
#[derive(Clone, Copy)]
pub struct LedWatch {
    pub suspended: bool,
    pub stale_logged: bool,
    pub last_touch_frames: u64,
}

/// What the LED watchdog calls for at one check.
#[derive(Clone, Copy)]
pub struct WatchActions {
    /// Touch input came back while LED output was paused: log the recovery.
    pub recovered: bool,
    /// Touch input went stale: log the pause (once per pause).
    pub log_stale: bool,
    /// Touch input stalled long enough to reopen the serial link.
    pub reconnect: bool,
    /// LED frames may be written at this check.
    pub write_leds: bool,
}

/// One check of the LED watchdog, given the count of touch frames received
/// so far and what the touch guard says: new touch frames end a pause; a
/// stale stream pauses LED output (logged once); a stalled one reopens the
/// link; LED frames are written only while output is not paused and the
/// link is kept.
pub open spec fn watch_step(w: LedWatch, touch_frames: u64, guard: TouchGuard) -> (LedWatch, WatchActions) {
    let fresh = touch_frames != w.last_touch_frames;
    let w1 = if fresh { LedWatch { suspended: false, stale_logged: false, last_touch_frames: touch_frames } } else { w };
    let log_stale = guard.stale && !w1.stale_logged;
    let w2 = if guard.stale { LedWatch { suspended: true, stale_logged: true, ..w1 } } else { w1 };
    let recovered = fresh && w.suspended;
    if guard.reconnect {
        (w2, WatchActions { recovered, log_stale, reconnect: true, write_leds: false })
    } else if w2.suspended {
        (w2, WatchActions { recovered, log_stale, reconnect: false, write_leds: false })
    } else {
        (LedWatch { stale_logged: false, ..w2 }, WatchActions { recovered, log_stale, reconnect: false, write_leds: true })
    }
}

impl LedWatch {
    /// A watchdog that has seen `touch_frames` touch frames and paused
    /// nothing.
    pub fn new(touch_frames: u64) -> (w: Self)
        ensures
            w == (LedWatch { suspended: false, stale_logged: false, last_touch_frames: touch_frames }),
    {
        LedWatch { suspended: false, stale_logged: false, last_touch_frames: touch_frames }
    }

    /// One check; see `watch_step`.
    pub fn check(&mut self, touch_frames: u64, guard: TouchGuard) -> (actions: WatchActions)
        ensures
            (*final(self), actions) == watch_step(*old(self), touch_frames, guard),
    {
        let fresh = touch_frames != self.last_touch_frames;
        let recovered = fresh && self.suspended;
        if fresh {
            self.last_touch_frames = touch_frames;
            self.suspended = false;
            self.stale_logged = false;
        }
        let log_stale = guard.stale && !self.stale_logged;
        if guard.stale {
            self.suspended = true;
            self.stale_logged = true;
        }
        if guard.reconnect {
            return WatchActions { recovered, log_stale, reconnect: true, write_leds: false };
        }
        if self.suspended {
            return WatchActions { recovered, log_stale, reconnect: false, write_leds: false };
        }
        self.stale_logged = false;
        WatchActions { recovered, log_stale, reconnect: false, write_leds: true }
    }
}

/// LED output pauses while touch input is stale and resumes with the next
/// touch frame: a stale check writes no LED frames and logs the pause only
/// if it was not logged already; the next check that sees new touch frames,
/// with the stream no longer stale, logs the recovery and writes again.
pub proof fn led_pause_and_resume(w: LedWatch, f1: u64, stale: TouchGuard, f2: u64, fine: TouchGuard)
    requires
        stale.stale,
        !fine.stale && !fine.reconnect,
        f2 != f1,
    ensures
        !watch_step(w, f1, stale).1.write_leds,
        watch_step(w, f1, stale).1.log_stale == !(if f1 != w.last_touch_frames { false } else { w.stale_logged }),
        !watch_step(watch_step(w, f1, stale).0, f1, stale).1.log_stale,
        watch_step(watch_step(w, f1, stale).0, f2, fine).1.recovered,
        watch_step(watch_step(w, f1, stale).0, f2, fine).1.write_leds,
{
}

/// Which failures of a device scan have been logged: one flag for each
/// stage that can fail (for instance the device not being found, then its
/// port or interface failing to open), so that a failure is logged once for
/// as long as it repeats.
#[derive(Clone, Copy)]
pub struct ScanLog {
    pub logged: [bool; 3],
}

/// Whether a failure at stage `stage` is logged, given the flags, and the
/// flags afterwards: it is logged unless it is the failure logged last, and
/// then only that stage's failure stands logged.
pub open spec fn scan_fail(flags: [bool; 3], stage: int) -> (bool, [bool; 3]) {
    (!flags[stage], [stage == 0, stage == 1, stage == 2])
}

impl ScanLog {
    /// Nothing logged.
    pub fn new() -> (l: Self)
        ensures
            l.logged == [false, false, false],
    {
        ScanLog { logged: [false; 3] }
    }

    /// Stage `stage` failed: returns whether to log it, which is when it was
    /// not the failure logged last.
    pub fn failed(&mut self, stage: usize) -> (log: bool)
        requires
            stage < 3,
        ensures
            (log, final(self).logged) == scan_fail(old(self).logged, stage as int),
    {
        let log = !self.logged[stage];
        self.logged = [stage == 0, stage == 1, stage == 2];
        log
    }

    /// The scan got through (or was called off): the next failure is logged.
    pub fn passed(&mut self)
        ensures
            final(self).logged == [false, false, false],
    {
        self.logged = [false; 3];
    }
}

/// A failure is logged once for as long as it repeats: failing at the same
/// stage again logs nothing, while failing at another stage, or after the
/// scan got through, logs again.
pub proof fn scan_failure_logged_once(flags: [bool; 3], stage: int, other: int)
    requires
        0 <= stage < 3,
        0 <= other < 3,
        other != stage,
    ensures
        !scan_fail(scan_fail(flags, stage).1, stage).0,
        scan_fail(scan_fail(flags, stage).1, other).0,
        scan_fail([false, false, false], stage).0,
{
}

/// Whether a keep-alive is due at `now`, the last one having gone out at
/// `last`.
pub fn heartbeat_due(now: u64, last: u64) -> (due: bool)
    ensures
        due == (now >= last + AFFINE_HEARTBEAT_INTERVAL_MS),
{
    now.saturating_sub(last) >= AFFINE_HEARTBEAT_INTERVAL_MS
}

/// Where a link stands in asking the board for its firmware version.
#[derive(Clone, Copy)]
pub struct BoardInfoState {
    /// The version is still wanted.
    pub pending: bool,
    /// The version, or its absence, has been logged.
    pub logged: bool,
    /// When the link connected.
    pub start_ms: u64,
    /// When the last request went out (0: none yet).
    pub request_ms: u64,
}

/// Whether a board information request is due at `now`: while the version
/// is wanted, a first request once the link has been up for
/// `AFFINE_BOARD_INFO_DELAY_MS`, and another each
/// `AFFINE_BOARD_INFO_TIMEOUT_MS` after that.
pub open spec fn board_info_due(st: BoardInfoState, now: u64) -> bool {
    st.pending && (if st.request_ms == 0 {
        now >= st.start_ms + AFFINE_BOARD_INFO_DELAY_MS
    } else {
        now >= st.request_ms + AFFINE_BOARD_INFO_TIMEOUT_MS
    })
}

impl BoardInfoState {
    /// A link that just connected at `now`.
    pub fn new(now: u64) -> (st: Self)
        ensures
            st == (BoardInfoState { pending: true, logged: false, start_ms: now, request_ms: 0 }),
    {
        BoardInfoState { pending: true, logged: false, start_ms: now, request_ms: 0 }
    }

    /// Whether a request is due; see `board_info_due`.
    pub fn request_due(&self, now: u64) -> (due: bool)
        ensures
            due == board_info_due(*self, now),
    {
        if !self.pending {
            return false;
        }
        if self.request_ms == 0 {
            now.saturating_sub(self.start_ms) >= AFFINE_BOARD_INFO_DELAY_MS
        } else {
            now.saturating_sub(self.request_ms) >= AFFINE_BOARD_INFO_TIMEOUT_MS
        }
    }

    /// A due request went out at `now`. When it was a repeated request, the
    /// link has been up longer than `AFFINE_BOARD_INFO_GIVE_UP_MS` and
    /// nothing was logged yet, the version is given up on; returns whether
    /// it was (the caller then reports the firmware as unknown).
    pub fn request_sent(&mut self, now: u64) -> (gave_up: bool)
        requires
            board_info_due(*old(self), now),
        ensures
            gave_up == (old(self).request_ms != 0 && now > old(self).start_ms + AFFINE_BOARD_INFO_GIVE_UP_MS
                && !old(self).logged),
            final(self).request_ms == now,
            final(self).start_ms == old(self).start_ms,
            final(self).pending == (old(self).pending && !gave_up),
            final(self).logged == (old(self).logged || gave_up),
    {
        let retry = self.request_ms != 0;
        self.request_ms = now;
        if retry && now.saturating_sub(self.start_ms) > AFFINE_BOARD_INFO_GIVE_UP_MS && !self.logged {
            self.pending = false;
            self.logged = true;
            return true;
        }
        false
    }

    /// The board reported its version.
    pub fn answered(&mut self)
        ensures
            *final(self) == (BoardInfoState { pending: false, logged: true, ..*old(self) }),
    {
        self.pending = false;
        self.logged = true;
    }
}

/// The change counters of the LED output already sent to a board.
#[derive(Clone, Copy)]
pub struct LedSequences {
    pub buttons: u64,
    pub billboard: u64,
    pub pwm: u64,
}

/// Which LED output a frame carries.
#[derive(Clone, Copy, PartialEq, Eq)]
pub enum LedKind {
    Buttons,
    Billboard,
    Pwm,
}

/// The next LED frame to send, in the order buttons, billboard, cabinet
/// lights, for the first output whose change counter differs from the one
/// sent: its kind, command and payload. The serial link sends the buttons'
/// target colours; the vendor HID link sends the whole fades.
pub open spec fn led_frame_due(out: Mai2OutputPage, sent: LedSequences, serial: bool) -> Option<(LedKind, u8, Seq<u8>)> {
    if out.buttons_sequence != sent.buttons {
        Some((LedKind::Buttons, AFFINE_CMD_SET_BUTTON_LEDS, if serial { rgb_of_buttons(out.buttons@) } else { out.buttons@ }))
    } else if out.billboard_sequence != sent.billboard {
        Some((LedKind::Billboard, AFFINE_CMD_SET_BILLBOARD, out.billboard@))
    } else if out.pwm_sequence != sent.pwm {
        Some((LedKind::Pwm, AFFINE_CMD_SET_PWM, out.pwm@))
    } else {
        None
    }
}

impl LedSequences {
    /// Nothing sent yet on a new link.
    pub fn new() -> (s: Self)
        ensures
            s.buttons == 0 && s.billboard == 0 && s.pwm == 0,
    {
        LedSequences { buttons: 0, billboard: 0, pwm: 0 }
    }

    /// The next LED frame due; see `led_frame_due`.
    pub fn next_frame(&self, out: &Mai2OutputPage, serial: bool) -> (f: Option<(LedKind, u8, Vec<u8>)>)
        ensures
            match f {
                Some((kind, cmd, payload)) => led_frame_due(*out, *self, serial) == Some((kind, cmd, payload@)),
                None => led_frame_due(*out, *self, serial) is None,
            },
    {
        if out.buttons_sequence != self.buttons {
            let mut payload: Vec<u8> = Vec::new();
            if serial {
                let rgb = button_rgb_payload(&out.buttons);
                copy_into(&mut payload, &rgb);
            } else {
                copy_into(&mut payload, &out.buttons);
            }
            return Some((LedKind::Buttons, AFFINE_CMD_SET_BUTTON_LEDS, payload));
        }
        if out.billboard_sequence != self.billboard {
            let mut payload: Vec<u8> = Vec::new();
            copy_into(&mut payload, &out.billboard);
            return Some((LedKind::Billboard, AFFINE_CMD_SET_BILLBOARD, payload));
        }
        if out.pwm_sequence != self.pwm {
            let mut payload: Vec<u8> = Vec::new();
            copy_into(&mut payload, &out.pwm);
            return Some((LedKind::Pwm, AFFINE_CMD_SET_PWM, payload));
        }
        None
    }

    /// A frame of `kind` for `out` went out; see `led_mark`.
    pub fn mark_sent(&mut self, kind: LedKind, out: &Mai2OutputPage)
        ensures
            *final(self) == led_mark(*old(self), kind, *out),
    {
        match kind {
            LedKind::Buttons => self.buttons = out.buttons_sequence,
            LedKind::Billboard => self.billboard = out.billboard_sequence,
            LedKind::Pwm => self.pwm = out.pwm_sequence,
        }
    }
}

fn copy_into(dst: &mut Vec<u8>, src: &[u8])
    requires
        old(dst)@.len() == 0,
    ensures
        final(dst)@ == src@,
{
    let mut i: usize = 0;
    while i < src.len()
        invariant
            i <= src@.len(),
            dst@ =~= src@.take(i as int),
        decreases src@.len() - i,
    {
        dst.push(src[i]);
        i = i + 1;
    }
    assert(src@.take(i as int) =~= src@);
}

/// What the sent counters become once a frame of `kind` for `out` went out:
/// that output's counter is the page's.
pub open spec fn led_mark(sent: LedSequences, kind: LedKind, out: Mai2OutputPage) -> LedSequences {
    match kind {
        LedKind::Buttons => LedSequences { buttons: out.buttons_sequence, ..sent },
        LedKind::Billboard => LedSequences { billboard: out.billboard_sequence, ..sent },
        LedKind::Pwm => LedSequences { pwm: out.pwm_sequence, ..sent },
    }
}

/// The sent counters after the next due frame, if any, went out.
pub open spec fn led_send_next(out: Mai2OutputPage, sent: LedSequences, serial: bool) -> LedSequences {
    match led_frame_due(out, sent, serial) {
        Some((kind, _, _)) => led_mark(sent, kind, out),
        None => sent,
    }
}

/// Sending the due LED frames one after the other, and marking each sent,
/// brings a board up to date within three frames, whatever was sent before:
/// afterwards no frame is due until the page changes again.
pub proof fn led_frames_catch_up(out: Mai2OutputPage, sent: LedSequences, serial: bool)
    ensures
        led_frame_due(out, led_send_next(out, led_send_next(out, led_send_next(out, sent, serial), serial), serial), serial) is None,
{
}

/// Adds a received byte to the receive buffer, starting over when the
/// buffer is full.
pub fn rx_push(rx_buf: &mut [u8], rx_len: &mut usize, byte: u8)
    requires
        old(rx_buf)@.len() > 0,
        *old(rx_len) <= old(rx_buf)@.len(),
    ensures
        final(rx_buf)@.len() == old(rx_buf)@.len(),
        *old(rx_len) < old(rx_buf)@.len() ==> *final(rx_len) == *old(rx_len) + 1
            && final(rx_buf)@.take(*final(rx_len) as int) == old(rx_buf)@.take(*old(rx_len) as int).push(byte),
        *old(rx_len) == old(rx_buf)@.len() ==> *final(rx_len) == 1 && final(rx_buf)@.take(1) == seq![byte],
{
    if *rx_len >= rx_buf.len() {
        *rx_len = 0;
    }
    let ghost before = rx_buf@;
    rx_buf[*rx_len] = byte;
    *rx_len = *rx_len + 1;
    assert(rx_buf@.take(*rx_len as int) =~= before.take(*rx_len - 1).push(byte));
}


/// What a HID interface says of itself.
#[derive(Clone, Copy)]
pub struct HidInterfaceInfo {
    pub vendor_id: u16,
    pub product_id: u16,
    pub usage_page: u16,
    pub usage: u16,
}

/// Whether a HID interface is the one of device `vid`/`pid` with usage page
/// `usage_page` and usage `usage`.
pub fn hid_interface_matches(info: &HidInterfaceInfo, vid: u16, pid: u16, usage_page: u16, usage: u16) -> (m: bool)
    ensures
        m == (info.vendor_id == vid && info.product_id == pid && info.usage_page == usage_page && info.usage == usage),
{
    info.vendor_id == vid && info.product_id == pid && info.usage_page == usage_page && info.usage == usage
}

/// Usage page of the button HID interface.
pub const MAI2_BUTTON_HID_USAGE_PAGE: u16 = 0xFFCA;
/// Usage of the button HID interface.
pub const MAI2_BUTTON_HID_USAGE: u16 = 0x0001;
/// Usage page of the vendor command HID interface.
pub const MAI2_VENDOR_HID_USAGE_PAGE: u16 = 0xFFCA;
/// Usage of the vendor command HID interface.
pub const MAI2_VENDOR_HID_USAGE: u16 = 0x0002;
/// Usage page of the touch HID stream.
pub const MAI2_TOUCH_HID_USAGE_PAGE: u16 = 0xFF00;
/// Usage of the touch HID stream.
pub const MAI2_TOUCH_HID_USAGE: u16 = 0x0031;


/// A device frame counts once per touch frame: the total grows by one
/// exactly when the frame carries touch bits, the serial count exactly when
/// such a frame came over the serial link, the touch HID count exactly when
/// it came over the touch HID stream, and the last update time is then the
/// frame's time; a frame without touch bits changes no counter.
pub proof fn touch_frames_counted_by_source(c: TouchCounters, touch_present: bool, source: TouchSource, now: u64)
    ensures
        ({
            let d = touch_counted(c, touch_present, source, now);
            &&& d.frames as int == (c.frames as int + if touch_present { 1int } else { 0 }) % 0x1_0000_0000_0000_0000
            &&& d.serial_frames as int == (c.serial_frames as int + if touch_present && source == TouchSource::Serial {
                1int
            } else {
                0
            }) % 0x1_0000_0000_0000_0000
            &&& d.hid_frames as int == (c.hid_frames as int + if touch_present && source == TouchSource::TouchHid {
                1int
            } else {
                0
            }) % 0x1_0000_0000_0000_0000
            &&& d.last_update_ms == if touch_present { now } else { c.last_update_ms }
        }),
{
}

/// An LED frame is due exactly when one of the page's change counters differs
/// from the one sent, and the frame due is of an output whose counter
/// differs, carrying that output's command: buttons 0x14, billboard 0x15,
/// cabinet lights 0x16.
pub proof fn led_frame_due_iff_changed(out: Mai2OutputPage, sent: LedSequences, serial: bool)
    ensures
        (led_frame_due(out, sent, serial) is Some) == (out.buttons_sequence != sent.buttons || out.billboard_sequence
            != sent.billboard || out.pwm_sequence != sent.pwm),
        led_frame_due(out, sent, serial) matches Some((kind, cmd, _)) ==> match kind {
            LedKind::Buttons => out.buttons_sequence != sent.buttons && cmd == 0x14,
            LedKind::Billboard => out.billboard_sequence != sent.billboard && cmd == 0x15,
            LedKind::Pwm => out.pwm_sequence != sent.pwm && cmd == 0x16,
        },
        out.buttons_sequence != sent.buttons ==> led_frame_due(out, sent, serial) matches Some((LedKind::Buttons, _, _)),
{
}

} // verus!
