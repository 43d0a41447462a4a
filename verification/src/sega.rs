//! The card reader's serial link: frames `0xE0, body.., checksum`, where the
//! body starts with its own length, the checksum is the sum of the body modulo
//! 256, and `0xE0` and `0xD0` after the start byte are sent as `0xD0, byte - 1`.
use vstd::prelude::*;
use crate::bytes::{checksum_add, sum_add};
use crate::types::{Hresult, E_FAIL};

verus! {

/// Start-of-frame byte.
pub const SEGA_SYNC: u8 = 0xE0;
/// Escape byte: the next byte is one less than the byte it stands for.
pub const SEGA_ESCAPE: u8 = 0xD0;

/// The body of a request: length, address 0, sequence number, command,
/// payload length, payload.
pub open spec fn request_body(seq: u8, cmd: u8, payload: Seq<u8>) -> Seq<u8> {
    seq![(5 + payload.len()) as u8, 0u8, seq, cmd, payload.len() as u8] + payload
}

/// How one byte after the start byte is sent.
pub open spec fn sega_escape_byte(b: u8) -> Seq<u8> {
    if b == SEGA_SYNC || b == SEGA_ESCAPE {
        seq![SEGA_ESCAPE, (b - 1) as u8]
    } else {
        seq![b]
    }
}

/// How the bytes after the start byte are sent.
pub open spec fn sega_escape(s: Seq<u8>) -> Seq<u8>
    decreases s.len(),
{
    if s.len() == 0 {
        Seq::empty()
    } else {
        sega_escape(s.drop_last()) + sega_escape_byte(s.last())
    }
}

/// The bytes of a request frame.
pub open spec fn request_frame(seq: u8, cmd: u8, payload: Seq<u8>) -> Seq<u8> {
    let body = request_body(seq, cmd, payload);
    seq![SEGA_SYNC] + sega_escape(body.push(sum_add(body)))
}

proof fn lemma_escape_push(s: Seq<u8>, b: u8)
    ensures
        sega_escape(s.push(b)) == sega_escape(s) + sega_escape_byte(b),
{
    assert(s.push(b).drop_last() =~= s);
}

/// Builds the request frame for sequence number `seq`, command `cmd` and
/// `payload`. The length bytes are taken modulo 256.
pub fn encode_frame(seq: u8, cmd: u8, payload: &[u8]) -> (frame: Vec<u8>)
    ensures
        frame@ == request_frame(seq, cmd, payload@),
{
    let mut body: Vec<u8> = Vec::new();
    let l: usize = payload.len();
    let plen: u8 = #[verifier::truncate] (l as u8);
    let total: u8 = plen.wrapping_add(5);
    assert(total == (5 + l) as u8) by (bit_vector)
        requires
            plen == l as u8,
            plen + 5 > 255 ==> total == (plen + 5 - 256) as u8,
            plen + 5 <= 255 ==> total == (plen + 5) as u8;
    body.push(total);
    body.push(0);
    body.push(seq);
    body.push(cmd);
    body.push(plen);
    let mut i: usize = 0;
    while i < payload.len()
        invariant
            i <= payload@.len(),
            body@ == seq![(5 + payload@.len()) as u8, 0u8, seq, cmd, payload@.len() as u8] + payload@.take(i as int),
        decreases payload@.len() - i,
    {
        body.push(payload[i]);
        i = i + 1;
        assert(body@ == seq![(5 + payload@.len()) as u8, 0u8, seq, cmd, payload@.len() as u8] + payload@.take(i as int));
    }
    assert(payload@.take(i as int) =~= payload@);
    let n = body.len();
    let checksum = checksum_add(body.as_slice(), n);
    assert(body@.take(n as int) =~= body@);
    body.push(checksum);
    let ghost full = body@;
    let mut encoded: Vec<u8> = Vec::new();
    encoded.push(SEGA_SYNC);
    let mut j: usize = 0;
    assert(full.take(0) =~= Seq::<u8>::empty());
    assert(encoded@ =~= seq![SEGA_SYNC] + sega_escape(full.take(0)));
    while j < body.len()
        invariant
            body@ == full,
            j <= full.len(),
            encoded@ == seq![SEGA_SYNC] + sega_escape(full.take(j as int)),
        decreases full.len() - j,
    {
        let byte = body[j];
        proof {
            assert(full.take(j + 1) =~= full.take(j as int).push(byte));
            lemma_escape_push(full.take(j as int), byte);
        }
        if byte == SEGA_ESCAPE || byte == SEGA_SYNC {
            encoded.push(SEGA_ESCAPE);
            encoded.push(byte - 1);
        } else {
            encoded.push(byte);
        }
        j = j + 1;
        assert(encoded@ =~= seq![SEGA_SYNC] + sega_escape(full.take(j as int)));
    }
    assert(full.take(j as int) =~= full);
    encoded
}


/// The decoder's state: whether a start byte has been seen, whether the last
/// byte was the escape byte, and the bytes decoded since the start byte.
pub struct SegaState {
    pub started: bool,
    pub escaped: bool,
    pub data: Seq<u8>,
}

/// What the decoder reports after one byte.
pub enum SegaOut {
    /// No frame is complete yet.
    Pending,
    /// A frame is complete and its checksum holds: its body.
    Frame(Seq<u8>),
    /// A frame is complete and its checksum does not hold.
    BadChecksum,
}

/// The state in which no start byte has been seen.
pub open spec fn sega_fresh() -> SegaState {
    SegaState { started: false, escaped: false, data: Seq::empty() }
}

/// The states that the decoder can be in.
pub open spec fn sega_state_wf(st: SegaState) -> bool {
    !st.started ==> !st.escaped && st.data.len() == 0
}

/// What the decoder does with one byte. Before a start byte every other byte
/// is ignored; a start byte discards what was decoded; an escape byte makes
/// the next byte stand for itself plus one (modulo 256). A frame is complete
/// when, with at least two bytes decoded, the count of decoded bytes is one
/// more than the first of them; its last byte is then the checksum, which
/// is compared with the sum of the others. After a complete frame the
/// decoder starts afresh.
pub open spec fn sega_step(st: SegaState, b: u8) -> (SegaState, SegaOut) {
    if !st.started {
        if b == SEGA_SYNC {
            (SegaState { started: true, escaped: false, data: Seq::empty() }, SegaOut::Pending)
        } else {
            (st, SegaOut::Pending)
        }
    } else if b == SEGA_SYNC {
        (SegaState { started: true, escaped: false, data: Seq::empty() }, SegaOut::Pending)
    } else if b == SEGA_ESCAPE {
        (SegaState { started: true, escaped: true, data: st.data }, SegaOut::Pending)
    } else {
        let value = if st.escaped { vstd::wrapping::u8_specs::wrapping_add(b, 1) } else { b };
        let data = st.data.push(value);
        if data.len() >= 2 && data.len() == data[0] + 1 {
            if sum_add(data.drop_last()) == data.last() {
                (sega_fresh(), SegaOut::Frame(data.drop_last()))
            } else {
                (sega_fresh(), SegaOut::BadChecksum)
            }
        } else {
            (SegaState { started: true, escaped: false, data }, SegaOut::Pending)
        }
    }
}

/// What the decoder does with a run of bytes from state `st`: the final state
/// and the reports other than `Pending`, in order.
pub open spec fn sega_run(st: SegaState, bytes: Seq<u8>) -> (SegaState, Seq<SegaOut>)
    decreases bytes.len(),
{
    if bytes.len() == 0 {
        (st, Seq::empty())
    } else {
        let prev = sega_run(st, bytes.drop_last());
        let next = sega_step(prev.0, bytes.last());
        (next.0, match next.1 {
            SegaOut::Pending => prev.1,
            out => prev.1.push(out),
        })
    }
}

/// What the decoder reports, as the caller sees it.
pub enum SegaEvent {
    Pending,
    Frame(Vec<u8>),
    BadChecksum,
}

impl View for SegaEvent {
    type V = SegaOut;

    open spec fn view(&self) -> SegaOut {
        match self {
            SegaEvent::Pending => SegaOut::Pending,
            SegaEvent::Frame(v) => SegaOut::Frame(v@),
            SegaEvent::BadChecksum => SegaOut::BadChecksum,
        }
    }
}

/// The decoder of the card reader's replies: feed it the bytes read from the
/// port one at a time until it reports a frame or a bad checksum.
pub struct SegaDecoder {
    started: bool,
    escaped: bool,
    decoded: Vec<u8>,
}

impl View for SegaDecoder {
    type V = SegaState;

    closed spec fn view(&self) -> SegaState {
        SegaState { started: self.started, escaped: self.escaped, data: self.decoded@ }
    }
}

impl SegaDecoder {
    /// The decoder is in one of its states.
    pub closed spec fn wf(&self) -> bool {
        sega_state_wf(self@)
    }

    /// A decoder that has seen no start byte.
    pub fn new() -> (d: Self)
        ensures
            d.wf(),
            d@ == sega_fresh(),
    {
        SegaDecoder { started: false, escaped: false, decoded: Vec::new() }
    }

    /// Feeds one byte.
    pub fn push(&mut self, byte: u8) -> (ev: SegaEvent)
        requires
            old(self).wf(),
        ensures
            final(self).wf(),
            (final(self)@, ev@) == sega_step(old(self)@, byte),
    {
        if !self.started {
            if byte == SEGA_SYNC {
                self.started = true;
                self.escaped = false;
                self.decoded = Vec::new();
            }
            return SegaEvent::Pending;
        }
        if byte == SEGA_SYNC {
            self.decoded = Vec::new();
            self.escaped = false;
            return SegaEvent::Pending;
        }
        if byte == SEGA_ESCAPE {
            self.escaped = true;
            return SegaEvent::Pending;
        }
        let value = if self.escaped {
            self.escaped = false;
            byte.wrapping_add(1)
        } else {
            byte
        };
        self.decoded.push(value);
        let n = self.decoded.len();
        if n >= 2 {
            let expected = self.decoded[0] as usize + 1;
            if n == expected {
                let checksum = checksum_add(self.decoded.as_slice(), n - 1);
                assert(self.decoded@.take(n - 1) =~= self.decoded@.drop_last());
                let last = self.decoded[n - 1];
                let mut frame = Vec::new();
                std::mem::swap(&mut frame, &mut self.decoded);
                self.started = false;
                self.escaped = false;
                if checksum != last {
                    return SegaEvent::BadChecksum;
                }
                frame.pop();
                return SegaEvent::Frame(frame);
            }
        }
        SegaEvent::Pending
    }
}

proof fn lemma_run_push(st: SegaState, xs: Seq<u8>, b: u8)
    ensures
        sega_run(st, xs.push(b)) == ({
            let prev = sega_run(st, xs);
            let next = sega_step(prev.0, b);
            (next.0, match next.1 {
                SegaOut::Pending => prev.1,
                out => prev.1.push(out),
            })
        }),
{
    assert(xs.push(b).drop_last() =~= xs);
}

proof fn lemma_open_prefix(st: SegaState, full: Seq<u8>, k: int)
    requires
        sega_state_wf(st),
        full.len() >= 2,
        full[0] as int == full.len() - 1,
        0 <= k < full.len(),
    ensures
        sega_run(st, seq![SEGA_SYNC] + sega_escape(full.take(k))) == (
            SegaState { started: true, escaped: false, data: full.take(k) },
            Seq::<SegaOut>::empty(),
        ),
    decreases k,
{
    if k == 0 {
        assert(full.take(0) =~= Seq::<u8>::empty());
        assert(seq![SEGA_SYNC] + sega_escape(full.take(0)) =~= Seq::<u8>::empty().push(SEGA_SYNC));
        lemma_run_push(st, Seq::<u8>::empty(), SEGA_SYNC);
    } else {
        lemma_open_prefix(st, full, k - 1);
        assert(full.take(k) =~= full.take(k - 1).push(full[k - 1]));
        lemma_escape_push(full.take(k - 1), full[k - 1]);
        let x = seq![SEGA_SYNC] + sega_escape(full.take(k - 1));
        let b = full[k - 1];
        if b == SEGA_SYNC || b == SEGA_ESCAPE {
            assert(seq![SEGA_SYNC] + sega_escape(full.take(k)) =~= x.push(SEGA_ESCAPE).push((b - 1) as u8));
            lemma_run_push(st, x, SEGA_ESCAPE);
            lemma_run_push(st, x.push(SEGA_ESCAPE), (b - 1) as u8);
        } else {
            assert(seq![SEGA_SYNC] + sega_escape(full.take(k)) =~= x.push(b));
            lemma_run_push(st, x, b);
        }
        if k >= 2 {
            assert(full.take(k)[0] == full[0]);
        }
    }
}

/// A frame sent with this link's framing is decoded whole: from any state,
/// the decoder reports exactly its body and starts afresh, provided the body
/// starts with its own length.
pub proof fn sega_decodes_frame(st: SegaState, body: Seq<u8>)
    requires
        sega_state_wf(st),
        body.len() >= 1,
        body[0] as int == body.len(),
    ensures
        sega_run(st, seq![SEGA_SYNC] + sega_escape(body.push(sum_add(body)))) == (
            sega_fresh(),
            seq![SegaOut::Frame(body)],
        ),
{
    let full = body.push(sum_add(body));
    let k = full.len() - 1;
    lemma_open_prefix(st, full, k);
    assert(full.take(k + 1) =~= full.take(k).push(full[k]));
    assert(full.take(k + 1) =~= full);
    lemma_escape_push(full.take(k), full[k]);
    let x = seq![SEGA_SYNC] + sega_escape(full.take(k));
    let b = full[k];
    if b == SEGA_SYNC || b == SEGA_ESCAPE {
        assert(seq![SEGA_SYNC] + sega_escape(full) =~= x.push(SEGA_ESCAPE).push((b - 1) as u8));
        lemma_run_push(st, x, SEGA_ESCAPE);
        lemma_run_push(st, x.push(SEGA_ESCAPE), (b - 1) as u8);
    } else {
        assert(seq![SEGA_SYNC] + sega_escape(full) =~= x.push(b));
        lemma_run_push(st, x, b);
    }
    assert(full.take(k).push(b) =~= full);
    assert(full.drop_last() =~= body);
    assert(sega_fresh().data =~= Seq::<u8>::empty());
    assert(Seq::<SegaOut>::empty().push(SegaOut::Frame(body)) =~= seq![SegaOut::Frame(body)]);
}

/// Every request that `encode_frame` builds, with a payload of at most 250
/// bytes, decodes back to its body, whatever state the decoder was in.
pub proof fn sega_request_roundtrip(st: SegaState, seq: u8, cmd: u8, payload: Seq<u8>)
    requires
        sega_state_wf(st),
        payload.len() <= 250,
    ensures
        sega_run(st, request_frame(seq, cmd, payload)) == (
            sega_fresh(),
            seq![SegaOut::Frame(request_body(seq, cmd, payload))],
        ),
{
    sega_decodes_frame(st, request_body(seq, cmd, payload));
}

proof fn lemma_run_concat(st: SegaState, a: Seq<u8>, b: Seq<u8>)
    ensures
        sega_run(st, a + b) == ({
            let first = sega_run(st, a);
            let second = sega_run(first.0, b);
            (second.0, first.1 + second.1)
        }),
    decreases b.len(),
{
    if b.len() == 0 {
        assert(a + b =~= a);
        assert(sega_run(st, a).1 + Seq::<SegaOut>::empty() =~= sega_run(st, a).1);
    } else {
        let b0 = b.drop_last();
        lemma_run_concat(st, a, b0);
        assert((a + b).drop_last() =~= a + b0);
        assert((a + b).last() == b.last());
        let first = sega_run(st, a);
        let mid = sega_run(first.0, b0);
        let next = sega_step(mid.0, b.last());
        match next.1 {
            SegaOut::Pending => {},
            out => {
                assert(first.1 + mid.1.push(out) =~= (first.1 + mid.1).push(out));
            },
        }
    }
}

proof fn lemma_noise_ignored(noise: Seq<u8>)
    requires
        forall|i: int| 0 <= i < noise.len() ==> noise[i] != SEGA_SYNC,
    ensures
        sega_run(sega_fresh(), noise) == (sega_fresh(), Seq::<SegaOut>::empty()),
    decreases noise.len(),
{
    if noise.len() > 0 {
        lemma_noise_ignored(noise.drop_last());
    }
}

/// The decoder's reports come in order: what it reports for the first `i`
/// bytes of a run is the start of what it reports for the whole run.
pub proof fn sega_reports_in_order(st: SegaState, bytes: Seq<u8>, i: int)
    requires
        0 <= i <= bytes.len(),
    ensures
        sega_run(st, bytes.take(i)).1.len() <= sega_run(st, bytes).1.len(),
        sega_run(st, bytes).1.take(sega_run(st, bytes.take(i)).1.len() as int) == sega_run(st, bytes.take(i)).1,
{
    lemma_run_concat(st, bytes.take(i), bytes.skip(i));
    assert(bytes.take(i) + bytes.skip(i) =~= bytes);
    let first = sega_run(st, bytes.take(i));
    let second = sega_run(first.0, bytes.skip(i));
    assert((first.1 + second.1).take(first.1.len() as int) =~= first.1);
}

/// A reply read from the port after line noise (bytes other than the start
/// byte) is decoded: a fresh decoder skips the noise and reports exactly the
/// reply's body, and nothing before it, so the first report is that body.
pub proof fn sega_reply_after_noise(noise: Seq<u8>, body: Seq<u8>)
    requires
        forall|i: int| 0 <= i < noise.len() ==> noise[i] != SEGA_SYNC,
        body.len() >= 1,
        body[0] as int == body.len(),
    ensures
        ({
            let bytes = noise + seq![SEGA_SYNC] + sega_escape(body.push(sum_add(body)));
            &&& sega_run(sega_fresh(), bytes) == (sega_fresh(), seq![SegaOut::Frame(body)])
            &&& forall|i: int|
                0 <= i <= bytes.len() ==> (#[trigger] sega_run(sega_fresh(), bytes.take(i))).1 == Seq::<SegaOut>::empty()
                    || sega_run(sega_fresh(), bytes.take(i)).1 == seq![SegaOut::Frame(body)]
        }),
{
    let frame = seq![SEGA_SYNC] + sega_escape(body.push(sum_add(body)));
    let bytes = noise + seq![SEGA_SYNC] + sega_escape(body.push(sum_add(body)));
    assert(bytes =~= noise + frame);
    lemma_noise_ignored(noise);
    lemma_run_concat(sega_fresh(), noise, frame);
    sega_decodes_frame(sega_fresh(), body);
    assert(Seq::<SegaOut>::empty() + seq![SegaOut::Frame(body)] =~= seq![SegaOut::Frame(body)]);
    assert forall|i: int| 0 <= i <= bytes.len() implies (#[trigger] sega_run(sega_fresh(), bytes.take(i))).1
        == Seq::<SegaOut>::empty() || sega_run(sega_fresh(), bytes.take(i)).1 == seq![SegaOut::Frame(body)] by {
        sega_reports_in_order(sega_fresh(), bytes, i);
        let r = sega_run(sega_fresh(), bytes.take(i)).1;
        if r.len() == 0 {
            assert(r =~= Seq::<SegaOut>::empty());
        } else {
            assert(r =~= seq![SegaOut::Frame(body)]);
        }
    }
}

/// A reply of the card reader: its status byte and payload.
pub struct ReaderResponse {
    pub status: u8,
    pub payload: Vec<u8>,
}

impl View for ReaderResponse {
    type V = (u8, Seq<u8>);

    open spec fn view(&self) -> (u8, Seq<u8>) {
        (self.status, self.payload@)
    }
}

/// The view of a reply or of the error in its place.
pub open spec fn reply_view(res: Result<ReaderResponse, Hresult>) -> Result<(u8, Seq<u8>), Hresult> {
    match res {
        Ok(r) => Ok(r@),
        Err(e) => Err(e),
    }
}

/// The reply in a decoded frame body (length, address, sequence, command,
/// status, payload length, payload), or `E_FAIL` when the body is shorter
/// than six bytes or than its payload length says.
pub open spec fn response_of(frame: Seq<u8>) -> Result<(u8, Seq<u8>), Hresult> {
    if frame.len() < 6 || frame.len() < 6 + frame[5] {
        Err(E_FAIL)
    } else {
        Ok((frame[4], frame.subrange(6, 6 + frame[5])))
    }
}

/// Reads the reply out of a decoded frame body; see `response_of`.
pub fn parse_response(frame: &[u8]) -> (res: Result<ReaderResponse, Hresult>)
    ensures
        reply_view(res) == response_of(frame@),
{
    if frame.len() < 6 {
        return Err(E_FAIL);
    }
    let status = frame[4];
    let payload_len = frame[5] as usize;
    if frame.len() < 6 + payload_len {
        return Err(E_FAIL);
    }
    let mut payload: Vec<u8> = Vec::new();
    let mut i: usize = 0;
    while i < payload_len
        invariant
            i <= payload_len,
            6 + payload_len <= frame.len(),
            payload@ =~= frame@.subrange(6, 6 + i),
        decreases payload_len - i,
    {
        payload.push(frame[6 + i]);
        i = i + 1;
    }
    Ok(ReaderResponse { status, payload })
}

} // verus!
