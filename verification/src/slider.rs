//! The slider link shared by the CHUNITHM slider and the Mercury touch panel:
//! frames `0xFF, cmd, len, payload.., checksum`, where the checksum makes the
//! whole frame sum to zero, and where the device escapes `0xFF` and `0xFD`
//! inside a frame as `0xFD, byte - 1`.
use vstd::prelude::*;
use crate::bytes::{checksum_sub, sum_sub};
use crate::util::should_log;

verus! {

/// Periodic touch report (pressure values, or packed touch cells).
pub const SLIDER_CMD_AUTO_SCAN: u8 = 0x01;
/// Sets the slider LEDs.
pub const SLIDER_CMD_SET_LED: u8 = 0x02;
/// Starts the periodic touch report.
pub const SLIDER_CMD_AUTO_SCAN_START: u8 = 0x03;
/// Stops the periodic touch report.
pub const SLIDER_CMD_AUTO_SCAN_STOP: u8 = 0x04;
/// Periodic air-sensor report.
pub const SLIDER_CMD_AUTO_AIR: u8 = 0x05;
/// Starts the periodic air-sensor report.
pub const SLIDER_CMD_AUTO_AIR_START: u8 = 0x06;
/// Sets the air-tower LEDs.
pub const SLIDER_CMD_SET_AIR_LED: u8 = 0x07;

/// Start-of-frame byte.
pub const SLIDER_SYNC: u8 = 0xFF;
/// Escape byte: the next byte is one less than the byte it stands for.
pub const SLIDER_ESCAPE: u8 = 0xFD;
/// Capacity of the receive buffer, the start byte included.
pub const SLIDER_BUF_LEN: usize = 128;

/// The header of a frame with command `cmd` and payload `payload`.
pub open spec fn slider_head(cmd: u8, payload: Seq<u8>) -> Seq<u8> {
    seq![SLIDER_SYNC, cmd, payload.len() as u8] + payload
}

/// The bytes that `send_slider_frame` writes for `cmd` and `payload`.
pub open spec fn slider_frame(cmd: u8, payload: Seq<u8>) -> Seq<u8> {
    slider_head(cmd, payload).push(sum_sub(slider_head(cmd, payload)))
}

/// Builds the frame for `cmd` and `payload`. The length byte is the payload's
/// length modulo 256.
pub fn encode_slider_frame(cmd: u8, payload: &[u8]) -> (frame: Vec<u8>)
    ensures
        frame@ == slider_frame(cmd, payload@),
{
    let mut frame: Vec<u8> = Vec::new();
    frame.push(SLIDER_SYNC);
    frame.push(cmd);
    let len_byte: u8 = #[verifier::truncate] (payload.len() as u8);
    frame.push(len_byte);
    let mut i: usize = 0;
    while i < payload.len()
        invariant
            i <= payload@.len(),
            frame@ == seq![SLIDER_SYNC, cmd, payload@.len() as u8] + payload@.take(i as int),
        decreases payload@.len() - i,
    {
        frame.push(payload[i]);
        i = i + 1;
        assert(frame@ == seq![SLIDER_SYNC, cmd, payload@.len() as u8] + payload@.take(i as int));
    }
    assert(payload@.take(i as int) =~= payload@);
    let n = frame.len();
    let checksum = checksum_sub(frame.as_slice(), n);
    assert(frame@.take(n as int) =~= frame@);
    frame.push(checksum);
    frame
}

/// Builds the frame for `cmd` and `payload` and hands it to `writer` once,
/// returning what the writer returned.
pub fn send_slider_frame<F>(writer: &mut F, cmd: u8, payload: &[u8]) -> (ok: bool)
    where
        F: FnMut(&[u8]) -> bool,
    requires
        forall|frame: &[u8]| call_requires(*old(writer), (frame,)),
    ensures
        exists|frame: &[u8]|
            frame@ == slider_frame(cmd, payload@) && call_ensures(*old(writer), (frame,), ok),
{
    let frame = encode_slider_frame(cmd, payload);
    writer(frame.as_slice())
}


/// Whether a repeated "device not found" line is due at time `now`; see
/// `should_log`.
pub fn should_log_scan(last_scan_log: &mut u64, now: u64) -> (due: bool)
    ensures
        (due, *final(last_scan_log)) == crate::util::log_step(*old(last_scan_log), now),
{
    should_log(last_scan_log, now)
}

/// Looks for the serial port of the first product id in `pids`, in order, for
/// which `find_port(vid, pid)` finds one, and returns that product id with the
/// port's path.
pub fn find_any<F>(vid: u16, pids: &[u16], find_port: F) -> (found: Option<(u16, String)>)
    where
        F: Fn(u16, u16) -> Option<String>,
    requires
        forall|v: u16, p: u16| call_requires(find_port, (v, p)),
    ensures
        match found {
            Some((pid, path)) => exists|i: int|
                0 <= i < pids@.len() && pids@[i] == pid
                    && call_ensures(find_port, (vid, pid), Some(path))
                    && forall|j: int| 0 <= j < i ==> call_ensures(find_port, (vid, pids@[j]), None::<String>),
            None => forall|j: int| 0 <= j < pids@.len() ==> call_ensures(find_port, (vid, pids@[j]), None::<String>),
        },
{
    let mut i: usize = 0;
    while i < pids.len()
        invariant
            i <= pids@.len(),
            forall|v: u16, p: u16| call_requires(find_port, (v, p)),
            forall|j: int| 0 <= j < i ==> call_ensures(find_port, (vid, pids@[j]), None::<String>),
        decreases pids@.len() - i,
    {
        let pid = pids[i];
        match find_port(vid, pid) {
            Some(path) => {
                return Some((pid, path));
            },
            None => {},
        }
        i = i + 1;
    }
    None
}

/// A frame as the receiver hands it on: its command and payload.
pub struct SliderPacket {
    pub cmd: u8,
    pub payload: Vec<u8>,
}

impl View for SliderPacket {
    type V = (u8, Seq<u8>);

    open spec fn view(&self) -> (u8, Seq<u8>) {
        (self.cmd, self.payload@)
    }
}

/// The view of what the receiver returned.
pub open spec fn packet_view(res: Option<SliderPacket>) -> Option<(u8, Seq<u8>)> {
    match res {
        Some(p) => Some(p@),
        None => None,
    }
}

/// The receiver's state: whether a frame is open, whether the last byte was
/// the escape byte, and the decoded bytes of the open frame (the start byte
/// first).
pub struct SliderState {
    pub active: bool,
    pub escaped: bool,
    pub data: Seq<u8>,
}

/// The state with no frame open.
pub open spec fn slider_idle() -> SliderState {
    SliderState { active: false, escaped: false, data: Seq::empty() }
}

/// The states that the receiver can be in.
pub open spec fn slider_state_wf(st: SliderState) -> bool {
    &&& st.data.len() <= SLIDER_BUF_LEN
    &&& st.active ==> st.data.len() >= 1 && st.data[0] == SLIDER_SYNC
    &&& st.active && st.data.len() >= 4 ==> st.data.len() < st.data[2] + 4
    &&& !st.active ==> st.data.len() == 0 && !st.escaped
}

/// What the receiver does with one byte: the next state, and the packet that
/// the byte completes, if any. A start byte always opens a new frame; outside
/// a frame other bytes are ignored; an escape byte makes the next byte stand
/// for itself plus one; a frame that would outgrow the buffer is dropped; a
/// frame is complete once its length byte, payload and checksum byte have
/// arrived (the checksum is not checked).
pub open spec fn slider_step(st: SliderState, byte: u8) -> (SliderState, Option<(u8, Seq<u8>)>) {
    if byte == SLIDER_SYNC {
        (SliderState { active: true, escaped: false, data: seq![SLIDER_SYNC] }, None)
    } else if !st.active {
        (st, None)
    } else if byte == SLIDER_ESCAPE {
        (SliderState { active: true, escaped: true, data: st.data }, None)
    } else {
        let decoded: u8 = if st.escaped { (byte + 1) as u8 } else { byte };
        if st.data.len() >= SLIDER_BUF_LEN {
            (slider_idle(), None)
        } else {
            let data = st.data.push(decoded);
            if data.len() < 4 || data.len() < data[2] + 4 {
                (SliderState { active: true, escaped: false, data }, None)
            } else {
                (slider_idle(), Some((data[1], data.subrange(3, 3 + data[2]))))
            }
        }
    }
}

/// The receiver of the slider link: feed it the bytes read from the port one
/// at a time.
pub struct SliderParser {
    buf: [u8; 128],
    len: usize,
    escaped: bool,
    active: bool,
}

impl View for SliderParser {
    type V = SliderState;

    closed spec fn view(&self) -> SliderState {
        SliderState {
            active: self.active,
            escaped: self.escaped,
            data: self.buf@.take(self.len as int),
        }
    }
}

impl SliderParser {
    /// The parser is in one of the receiver's states.
    pub closed spec fn wf(&self) -> bool {
        &&& self.len <= SLIDER_BUF_LEN
        &&& slider_state_wf(self@)
    }

    /// A receiver with no frame open.
    pub fn new() -> (p: Self)
        ensures
            p.wf(),
            p@ == slider_idle(),
    {
        let p = SliderParser { buf: [0u8; 128], len: 0, escaped: false, active: false };
        assert(p@.data =~= Seq::<u8>::empty());
        p
    }

    /// Feeds one byte; returns the packet that it completes, if any.
    pub fn push(&mut self, byte: u8) -> (res: Option<SliderPacket>)
        requires
            old(self).wf(),
        ensures
            final(self).wf(),
            (final(self)@, packet_view(res)) == slider_step(old(self)@, byte),
    {
        if byte == SLIDER_SYNC {
            self.active = true;
            self.escaped = false;
            self.len = 0;
            self.buf[0] = byte;
            self.len = 1;
            assert(self@.data =~= seq![SLIDER_SYNC]);
            return None;
        }
        if !self.active {
            return None;
        }
        if byte == SLIDER_ESCAPE {
            self.escaped = true;
            return None;
        }
        let decoded: u8 = if self.escaped {
            self.escaped = false;
            byte + 1
        } else {
            byte
        };
        if self.len >= SLIDER_BUF_LEN {
            self.active = false;
            self.len = 0;
            assert(self@.data =~= Seq::<u8>::empty());
            return None;
        }
        let ghost old_data = self@.data;
        self.buf[self.len] = decoded;
        self.len = self.len + 1;
        assert(self@.data =~= old_data.push(decoded));
        if self.len < 4 {
            return None;
        }
        let size = self.buf[2] as usize;
        let total = size + 4;
        if self.len < total {
            return None;
        }
        let mut payload: Vec<u8> = Vec::new();
        let mut i: usize = 0;
        while i < size
            invariant
                i <= size,
                3 + size < self.len <= SLIDER_BUF_LEN,
                payload@ =~= self.buf@.subrange(3, 3 + i),
            decreases size - i,
        {
            payload.push(self.buf[3 + i]);
            i = i + 1;
        }
        let packet = SliderPacket { cmd: self.buf[1], payload };
        self.active = false;
        self.len = 0;
        self.escaped = false;
        assert(self@.data =~= Seq::<u8>::empty());
        Some(packet)
    }
}


/// What the receiver does with a run of bytes, from state `st`: the final
/// state and the packets completed, in order.
pub open spec fn slider_run(st: SliderState, bytes: Seq<u8>) -> (SliderState, Seq<(u8, Seq<u8>)>)
    decreases bytes.len(),
{
    if bytes.len() == 0 {
        (st, Seq::empty())
    } else {
        let prev = slider_run(st, bytes.drop_last());
        let next = slider_step(prev.0, bytes.last());
        (next.0, match next.1 {
            Some(p) => prev.1.push(p),
            None => prev.1,
        })
    }
}

/// How the device sends one byte inside a frame.
pub open spec fn slider_escape_byte(b: u8) -> Seq<u8> {
    if b == SLIDER_SYNC || b == SLIDER_ESCAPE {
        seq![SLIDER_ESCAPE, (b - 1) as u8]
    } else {
        seq![b]
    }
}

/// How the device sends the bytes of a frame that follow the start byte.
pub open spec fn slider_escape(body: Seq<u8>) -> Seq<u8>
    decreases body.len(),
{
    if body.len() == 0 {
        Seq::empty()
    } else {
        slider_escape(body.drop_last()) + slider_escape_byte(body.last())
    }
}

/// The bytes of a frame after its start byte: command, length, payload and
/// checksum byte, with a length byte that matches the payload and a frame
/// that fits the receive buffer.
pub open spec fn slider_body_ok(body: Seq<u8>) -> bool {
    &&& body.len() >= 3
    &&& body[1] as int == body.len() - 3
    &&& body.len() - 3 <= SLIDER_BUF_LEN - 4
}

proof fn lemma_run_push(st: SliderState, xs: Seq<u8>, b: u8)
    ensures
        slider_run(st, xs.push(b)) == ({
            let prev = slider_run(st, xs);
            let next = slider_step(prev.0, b);
            (next.0, match next.1 {
                Some(p) => prev.1.push(p),
                None => prev.1,
            })
        }),
{
    assert(xs.push(b).drop_last() =~= xs);
}

proof fn lemma_escape_take(body: Seq<u8>, k: int)
    requires
        0 <= k < body.len(),
    ensures
        slider_escape(body.take(k + 1)) == slider_escape(body.take(k)) + slider_escape_byte(body[k]),
{
    assert(body.take(k + 1).drop_last() =~= body.take(k));
}

proof fn lemma_open_prefix(st: SliderState, body: Seq<u8>, k: int)
    requires
        slider_body_ok(body),
        0 <= k < body.len(),
    ensures
        slider_run(st, seq![SLIDER_SYNC] + slider_escape(body.take(k))) == (
            SliderState { active: true, escaped: false, data: seq![SLIDER_SYNC] + body.take(k) },
            Seq::<(u8, Seq<u8>)>::empty(),
        ),
    decreases k,
{
    if k == 0 {
        assert(body.take(0) =~= Seq::<u8>::empty());
        assert(seq![SLIDER_SYNC] + slider_escape(body.take(0)) =~= Seq::<u8>::empty().push(SLIDER_SYNC));
        lemma_run_push(st, Seq::<u8>::empty(), SLIDER_SYNC);
        assert(seq![SLIDER_SYNC] + body.take(0) =~= seq![SLIDER_SYNC]);
    } else {
        lemma_open_prefix(st, body, k - 1);
        lemma_escape_take(body, k - 1);
        let x = seq![SLIDER_SYNC] + slider_escape(body.take(k - 1));
        let b = body[k - 1];
        let data = seq![SLIDER_SYNC] + body.take(k - 1);
        assert(data.push(b) =~= seq![SLIDER_SYNC] + body.take(k));
        if b == SLIDER_SYNC || b == SLIDER_ESCAPE {
            assert(seq![SLIDER_SYNC] + slider_escape(body.take(k)) =~= x.push(SLIDER_ESCAPE).push((b - 1) as u8));
            lemma_run_push(st, x, SLIDER_ESCAPE);
            lemma_run_push(st, x.push(SLIDER_ESCAPE), (b - 1) as u8);
        } else {
            assert(seq![SLIDER_SYNC] + slider_escape(body.take(k)) =~= x.push(b));
            lemma_run_push(st, x, b);
        }
        let d2 = data.push(b);
        assert(d2.len() == k + 1);
        if d2.len() >= 4 {
            assert(d2[2] == body[1]);
        }
    }
}

/// A frame that the device sends, escaped, is received whole: whatever state
/// the receiver was in, it hands on exactly that frame's command and payload,
/// and is left with no frame open.
pub proof fn slider_receives_escaped_frame(st: SliderState, body: Seq<u8>)
    requires
        slider_body_ok(body),
    ensures
        slider_run(st, seq![SLIDER_SYNC] + slider_escape(body)) == (
            slider_idle(),
            seq![(body[0], body.subrange(2, body.len() - 1))],
        ),
{
    let k = body.len() - 1;
    lemma_open_prefix(st, body, k);
    lemma_escape_take(body, k);
    assert(body.take(k + 1) =~= body);
    let x = seq![SLIDER_SYNC] + slider_escape(body.take(k));
    let b = body[k];
    let data = (seq![SLIDER_SYNC] + body.take(k)).push(b);
    assert(data =~= seq![SLIDER_SYNC] + body);
    if b == SLIDER_SYNC || b == SLIDER_ESCAPE {
        assert(seq![SLIDER_SYNC] + slider_escape(body) =~= x.push(SLIDER_ESCAPE).push((b - 1) as u8));
        lemma_run_push(st, x, SLIDER_ESCAPE);
        lemma_run_push(st, x.push(SLIDER_ESCAPE), (b - 1) as u8);
    } else {
        assert(seq![SLIDER_SYNC] + slider_escape(body) =~= x.push(b));
        lemma_run_push(st, x, b);
    }
    assert(data[2] == body[1]);
    assert(data.subrange(3, 3 + data[2]) =~= body.subrange(2, body.len() - 1));
    assert(slider_idle().data =~= Seq::<u8>::empty());
    assert(Seq::<(u8, Seq<u8>)>::empty().push((body[0], body.subrange(2, body.len() - 1)))
        =~= seq![(body[0], body.subrange(2, body.len() - 1))]);
}

proof fn lemma_escape_plain(body: Seq<u8>)
    requires
        forall|i: int| 0 <= i < body.len() ==> body[i] != SLIDER_SYNC && body[i] != SLIDER_ESCAPE,
    ensures
        slider_escape(body) == body,
    decreases body.len(),
{
    if body.len() > 0 {
        lemma_escape_plain(body.drop_last());
        assert(body.drop_last().push(body.last()) =~= body);
    }
}

/// What `send_slider_frame` writes is received as the same command and
/// payload, from its last byte (no byte before it completes a packet),
/// whatever state the receiver was in, when the payload fits the
/// receive buffer and no byte after the start byte is `0xFF` or `0xFD` (the
/// sender does not escape).
pub proof fn slider_receives_sent_frame(st: SliderState, cmd: u8, payload: Seq<u8>)
    requires
        payload.len() <= SLIDER_BUF_LEN - 4,
        forall|i: int|
            1 <= i < slider_frame(cmd, payload).len() ==> slider_frame(cmd, payload)[i] != SLIDER_SYNC
                && slider_frame(cmd, payload)[i] != SLIDER_ESCAPE,
    ensures
        slider_run(st, slider_frame(cmd, payload)) == (slider_idle(), seq![(cmd, payload)]),
        forall|i: int|
            0 <= i < slider_frame(cmd, payload).len() ==> #[trigger] slider_run(st, slider_frame(cmd, payload).take(i)).1.len()
                == 0,
{
    let frame = slider_frame(cmd, payload);
    let body = frame.drop_first();
    assert(frame =~= seq![SLIDER_SYNC] + body);
    assert forall|i: int| 0 <= i < body.len() implies body[i] != SLIDER_SYNC && body[i] != SLIDER_ESCAPE by {
        assert(body[i] == frame[i + 1]);
    }
    lemma_escape_plain(body);
    assert(body[1] == frame[2]);
    slider_receives_escaped_frame(st, body);
    assert(body.subrange(2, body.len() - 1) =~= payload);
    assert forall|i: int| 0 <= i < frame.len() implies #[trigger] slider_run(st, frame.take(i)).1.len() == 0 by {
        if i == 0 {
            assert(frame.take(0) =~= Seq::<u8>::empty());
        } else {
            let bt = body.take(i - 1);
            assert forall|j: int| 0 <= j < bt.len() implies bt[j] != SLIDER_SYNC && bt[j] != SLIDER_ESCAPE by {
                assert(bt[j] == body[j]);
            }
            lemma_escape_plain(bt);
            assert(frame.take(i) =~= seq![SLIDER_SYNC] + bt);
            lemma_open_prefix(st, body, i - 1);
        }
    }
}

} // verus!
