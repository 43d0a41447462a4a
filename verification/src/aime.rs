//! The card reader (Aime / FeliCa / MIFARE): what the runtime asks the reader,
//! how it reads the replies, and the card it remembers between polls.
use vstd::prelude::*;
use crate::sega::{encode_frame, parse_response, reply_view, request_frame, response_of, ReaderResponse};
use crate::types::{Hresult, E_FAIL, E_INVALIDARG, S_FALSE, S_OK};

verus! {

/// Vendor id of Affine devices.
pub const AFFINE_VID: u16 = 0xAFF1;
/// Product id of the Monica card reader.
pub const MONICA_PID: u16 = 0x5730;
/// Baud rate of the reader's port.
pub const READER_BAUD: u32 = 115_200;

pub const SG_CMD_GET_FW_VERSION: u8 = 0x30;
pub const SG_CMD_GET_HW_VERSION: u8 = 0x32;
pub const SG_CMD_RADIO_ON: u8 = 0x40;
pub const SG_CMD_RADIO_OFF: u8 = 0x41;
pub const SG_CMD_POLL: u8 = 0x42;
pub const SG_CMD_MIFARE_SELECT: u8 = 0x43;
pub const SG_CMD_MIFARE_SET_KEY_AIME: u8 = 0x50;
pub const SG_CMD_MIFARE_AUTH_AIME: u8 = 0x51;
pub const SG_CMD_MIFARE_READ_BLOCK: u8 = 0x52;
pub const SG_CMD_MIFARE_SET_KEY_BANA: u8 = 0x54;
pub const SG_CMD_MIFARE_AUTH_BANA: u8 = 0x55;
pub const SG_CMD_TO_UPDATE_MODE: u8 = 0x60;
pub const SG_CMD_SEND_HEX_DATA: u8 = 0x61;
pub const SG_CMD_FELICA_ENCAP: u8 = 0x71;
pub const SG_CMD_EXT_LED_RGB: u8 = 0x81;
pub const SG_CMD_EXT_BOARD_INFO: u8 = 0xF0;

/// The card seen by the last poll.
#[derive(Clone, Copy)]
pub enum CachedCard {
    Absent,
    Mifare { uid: [u8; 4] },
    Felica { idm: [u8; 8], pmm: [u8; 8] },
}

/// What one round trip over the reader's port gave.
pub enum LinkReply {
    /// The port is not open and could not be opened; nothing was sent.
    NotConnected,
    /// The request was not written, or no valid reply frame came back.
    Failed,
    /// The body of the reply frame.
    Reply(Vec<u8>),
}

/// The view of a `LinkReply`.
pub enum LinkOut {
    NotConnected,
    Failed,
    Reply(Seq<u8>),
}

impl View for LinkReply {
    type V = LinkOut;

    open spec fn view(&self) -> LinkOut {
        match self {
            LinkReply::NotConnected => LinkOut::NotConnected,
            LinkReply::Failed => LinkOut::Failed,
            LinkReply::Reply(v) => LinkOut::Reply(v@),
        }
    }
}

/// The reply, or the error in its place, that a round trip yields.
pub open spec fn transact_outcome(out: LinkOut) -> Result<(u8, Seq<u8>), Hresult> {
    match out {
        LinkOut::Reply(frame) => response_of(frame),
        _ => Err(E_FAIL),
    }
}

/// The sequence number after a round trip: it advances (modulo 256) whenever
/// a request was sent.
pub open spec fn seq_after(seq: u8, out: LinkOut) -> u8 {
    match out {
        LinkOut::NotConnected => seq,
        _ => vstd::wrapping::u8_specs::wrapping_add(seq, 1),
    }
}

/// `link`, handed the request `frame`, may answer `out`.
pub open spec fn link_answers<F: Fn(&[u8]) -> LinkReply>(link: F, frame: Seq<u8>, out: LinkOut) -> bool {
    exists|f: &[u8], r: LinkReply| f@ == frame && r@ == out && call_ensures(link, (f,), r)
}

/// The payload of a reply, when one came back.
pub open spec fn ok_payload(r: Result<(u8, Seq<u8>), Hresult>) -> Option<Seq<u8>> {
    match r {
        Ok((_, payload)) => Some(payload),
        Err(_) => None,
    }
}

/// The introduction of the reader, as three round trips over `link`
/// answering `o1`, `o2`, `o3`: the firmware version request with sequence
/// number `seq0`, then the hardware version request, then the board
/// information request, each with the sequence number that the one before
/// left; `seq3` is the sequence number after them, `fw` and `hw` the
/// payloads of the version replies that came back.
pub open spec fn init_trace<F: Fn(&[u8]) -> LinkReply>(
    link: F,
    seq0: u8,
    seq3: u8,
    fw: Option<Seq<u8>>,
    hw: Option<Seq<u8>>,
    o1: LinkOut,
    o2: LinkOut,
    o3: LinkOut,
) -> bool {
    let s1 = seq_after(seq0, o1);
    let s2 = seq_after(s1, o2);
    &&& link_answers(link, request_frame(seq0, SG_CMD_GET_FW_VERSION, Seq::empty()), o1)
    &&& link_answers(link, request_frame(s1, SG_CMD_GET_HW_VERSION, Seq::empty()), o2)
    &&& link_answers(link, request_frame(s2, SG_CMD_EXT_BOARD_INFO, Seq::empty()), o3)
    &&& seq3 == seq_after(s2, o3)
    &&& fw == ok_payload(transact_outcome(o1))
    &&& hw == ok_payload(transact_outcome(o2))
}

/// The view of optional bytes.
pub open spec fn bytes_view(v: Option<Vec<u8>>) -> Option<Seq<u8>> {
    match v {
        Some(b) => Some(b@),
        None => None,
    }
}

/// The result code of a command whose reply only carries a status: `S_OK`
/// for status 0, `S_FALSE` for any other status, the error otherwise.
pub open spec fn status_code(r: Result<(u8, Seq<u8>), Hresult>) -> Hresult {
    match r {
        Ok((status, _)) => if status == 0 { S_OK } else { S_FALSE },
        Err(e) => e,
    }
}

/// The card that a poll reply's payload announces, and the poll's result
/// code: no card (`S_FALSE`) for an empty payload, a zero count or an unknown
/// card type; a MIFARE card (type 0x10) by its four-byte uid, a FeliCa card
/// (type 0x20) by its IDm and PMm; `E_FAIL`, with no card, when the payload
/// is too short for what it announces.
pub open spec fn poll_outcome(payload: Seq<u8>) -> (CachedCard, Hresult) {
    if payload.len() == 0 || payload[0] == 0 {
        (CachedCard::Absent, S_FALSE)
    } else if payload.len() < 3 {
        (CachedCard::Absent, E_FAIL)
    } else if payload[1] == 0x10 {
        if payload.len() < 7 {
            (CachedCard::Absent, E_FAIL)
        } else {
            (CachedCard::Mifare { uid: [payload[3], payload[4], payload[5], payload[6]] }, S_OK)
        }
    } else if payload[1] == 0x20 {
        if payload.len() < 19 {
            (CachedCard::Absent, E_FAIL)
        } else {
            (CachedCard::Felica {
                idm: [payload[3], payload[4], payload[5], payload[6], payload[7], payload[8], payload[9], payload[10]],
                pmm: [payload[11], payload[12], payload[13], payload[14], payload[15], payload[16], payload[17], payload[18]],
            }, S_OK)
        }
    } else {
        (CachedCard::Absent, S_FALSE)
    }
}

/// The value of eight bytes read as a big-endian number.
pub open spec fn be_u64(b: Seq<u8>) -> int
    decreases b.len(),
{
    if b.len() == 0 {
        0
    } else {
        be_u64(b.drop_last()) * 256 + b.last()
    }
}

/// The card reader's side of the runtime: the next sequence number, whether
/// the reader has been introduced, and the card seen by the last poll.
pub struct ReaderState {
    pub seq: u8,
    pub initialized: bool,
    pub card: CachedCard,
}

impl ReaderState {
    /// A reader that has not been introduced and has seen no card.
    pub fn new() -> (r: Self)
        ensures
            r.seq == 0,
            !r.initialized,
            r.card == CachedCard::Absent,
    {
        ReaderState { seq: 0, initialized: false, card: CachedCard::Absent }
    }

    /// Records what a poll reply says: the card that it announces and the
    /// poll's result code (see `poll_outcome`); an error in place of the
    /// reply is returned as it is and leaves the remembered card unchanged.
    pub fn apply_poll(&mut self, res: Result<ReaderResponse, Hresult>) -> (code: Hresult)
        ensures
            final(self).seq == old(self).seq,
            final(self).initialized == old(self).initialized,
            match reply_view(res) {
                Ok((_, payload)) => (final(self).card, code) == poll_outcome(payload),
                Err(e) => code == e && final(self).card == old(self).card,
            },
    {
        let response = match res {
            Ok(response) => response,
            Err(err) => {
                return err;
            },
        };
        let p = &response.payload;
        if p.len() == 0 || p[0] == 0 {
            self.card = CachedCard::Absent;
            return S_FALSE;
        }
        if p.len() < 3 {
            self.card = CachedCard::Absent;
            return E_FAIL;
        }
        if p[1] == 0x10 {
            if p.len() < 7 {
                self.card = CachedCard::Absent;
                return E_FAIL;
            }
            self.card = CachedCard::Mifare { uid: [p[3], p[4], p[5], p[6]] };
            S_OK
        } else if p[1] == 0x20 {
            if p.len() < 19 {
                self.card = CachedCard::Absent;
                return E_FAIL;
            }
            self.card = CachedCard::Felica {
                idm: [p[3], p[4], p[5], p[6], p[7], p[8], p[9], p[10]],
                pmm: [p[11], p[12], p[13], p[14], p[15], p[16], p[17], p[18]],
            };
            S_OK
        } else {
            self.card = CachedCard::Absent;
            S_FALSE
        }
    }

    /// Sends `cmd` with `payload` over `link` and reads the reply.
    pub fn transact<F>(&mut self, link: &F, cmd: u8, payload: &[u8]) -> (res: Result<ReaderResponse, Hresult>)
        where
            F: Fn(&[u8]) -> LinkReply,
        requires
            forall|f: &[u8]| call_requires(*link, (f,)),
        ensures
            exists|out: LinkOut|
                link_answers(*link, request_frame(old(self).seq, cmd, payload@), out)
                    && reply_view(res) == transact_outcome(out)
                    && final(self).seq == seq_after(old(self).seq, out),
            final(self).initialized == old(self).initialized,
            final(self).card == old(self).card,
    {
        let frame = encode_frame(self.seq, cmd, payload);
        let reply = link(frame.as_slice());
        let ghost out = reply@;
        proof {
            assert(link_answers(*link, request_frame(old(self).seq, cmd, payload@), out));
        }
        match reply {
            LinkReply::NotConnected => {
                assert(transact_outcome(out) == Err::<(u8, Seq<u8>), Hresult>(E_FAIL));
                assert(seq_after(old(self).seq, out) == self.seq);
                Err(E_FAIL)
            },
            LinkReply::Failed => {
                self.seq = self.seq.wrapping_add(1);
                Err(E_FAIL)
            },
            LinkReply::Reply(body) => {
                self.seq = self.seq.wrapping_add(1);
                parse_response(body.as_slice())
            },
        }
    }
}


/// The command that stores a MIFARE key: the Aime key for key type 0, the
/// Bandai Namco key otherwise.
pub open spec fn set_key_cmd(key_type: u8) -> u8 {
    if key_type == 0 { SG_CMD_MIFARE_SET_KEY_AIME } else { SG_CMD_MIFARE_SET_KEY_BANA }
}

/// The command that authenticates with a MIFARE key: the Aime key for key
/// type 0, the Bandai Namco key otherwise.
pub open spec fn auth_cmd(key_type: u8) -> u8 {
    if key_type == 0 { SG_CMD_MIFARE_AUTH_AIME } else { SG_CMD_MIFARE_AUTH_BANA }
}

/// The value of a FeliCa IDm read as a big-endian number.
pub open spec fn idm_value(idm: [u8; 8]) -> int {
    idm[0] * 0x100_0000_0000_0000 + idm[1] * 0x1_0000_0000_0000 + idm[2] * 0x100_0000_0000
        + idm[3] * 0x1_0000_0000 + idm[4] * 0x100_0000 + idm[5] * 0x1_0000 + idm[6] * 0x100 + idm[7]
}

/// The request of a MIFARE block read: the card's uid, then the block number.
pub open spec fn read_block_request(uid: Seq<u8>, block_no: u8) -> Seq<u8> {
    uid.push(block_no)
}

impl ReaderState {
    fn simple<F>(&mut self, link: &F, unit_no: u8, cmd: u8, payload: &[u8]) -> (code: Hresult)
        where
            F: Fn(&[u8]) -> LinkReply,
        requires
            forall|f: &[u8]| call_requires(*link, (f,)),
        ensures
            final(self).initialized == old(self).initialized,
            final(self).card == old(self).card,
            unit_no != 0 ==> code == S_FALSE && final(self).seq == old(self).seq,
            unit_no == 0 ==> exists|out: LinkOut|
                link_answers(*link, request_frame(old(self).seq, cmd, payload@), out)
                    && final(self).seq == seq_after(old(self).seq, out)
                    && code == status_code(transact_outcome(out)),
    {
        if unit_no != 0 {
            return S_FALSE;
        }
        let r = self.transact(link, cmd, payload);
        match r {
            Ok(response) => if response.status == 0 { S_OK } else { S_FALSE },
            Err(err) => err,
        }
    }

    /// Introduces the reader once its port is open (`connected`): asks for
    /// its firmware version, hardware version and board information, in that
    /// order, and marks it introduced. Returns the result code with the
    /// payloads of the firmware and hardware version replies that came back.
    /// Fails with `E_FAIL` when the port is not open; does nothing more when
    /// the reader was already introduced.
    pub fn init<F>(&mut self, connected: bool, link: &F) -> (res: (Hresult, Option<Vec<u8>>, Option<Vec<u8>>))
        where
            F: Fn(&[u8]) -> LinkReply,
        requires
            forall|f: &[u8]| call_requires(*link, (f,)),
        ensures
            res.0 == if connected { S_OK } else { E_FAIL },
            final(self).initialized == (old(self).initialized || connected),
            final(self).card == old(self).card,
            !connected || old(self).initialized ==> final(self).seq == old(self).seq && res.1 is None && res.2 is None,
            connected && !old(self).initialized ==> exists|o1: LinkOut, o2: LinkOut, o3: LinkOut|
                #[trigger] init_trace(*link, old(self).seq, final(self).seq, bytes_view(res.1), bytes_view(res.2), o1, o2, o3),
    {
        if !connected {
            return (E_FAIL, None, None);
        }
        if self.initialized {
            return (S_OK, None, None);
        }
        let empty: [u8; 0] = [];
        assert(empty@ =~= Seq::<u8>::empty());
        let ghost seq0 = self.seq;
        let r1 = self.transact(link, SG_CMD_GET_FW_VERSION, &empty);
        let ghost o1 = choose|o: LinkOut|
            link_answers(*link, request_frame(seq0, SG_CMD_GET_FW_VERSION, empty@), o)
                && reply_view(r1) == transact_outcome(o) && self.seq == seq_after(seq0, o);
        let ghost seq1 = self.seq;
        let firmware = match r1 {
            Ok(response) => Some(response.payload),
            Err(_) => None,
        };
        let r2 = self.transact(link, SG_CMD_GET_HW_VERSION, &empty);
        let ghost o2 = choose|o: LinkOut|
            link_answers(*link, request_frame(seq1, SG_CMD_GET_HW_VERSION, empty@), o)
                && reply_view(r2) == transact_outcome(o) && self.seq == seq_after(seq1, o);
        let ghost seq2 = self.seq;
        let hardware = match r2 {
            Ok(response) => Some(response.payload),
            Err(_) => None,
        };
        let r3 = self.transact(link, SG_CMD_EXT_BOARD_INFO, &empty);
        let ghost o3 = choose|o: LinkOut|
            link_answers(*link, request_frame(seq2, SG_CMD_EXT_BOARD_INFO, empty@), o)
                && reply_view(r3) == transact_outcome(o) && self.seq == seq_after(seq2, o);
        self.initialized = true;
        assert(bytes_view(firmware) == ok_payload(transact_outcome(o1)));
        assert(bytes_view(hardware) == ok_payload(transact_outcome(o2)));
        assert(init_trace(*link, seq0, self.seq, bytes_view(firmware), bytes_view(hardware), o1, o2, o3));
        (S_OK, firmware, hardware)
    }

    /// Polls unit `unit_no` for a card; only unit 0 exists, others give
    /// `S_FALSE`. The reply is recorded as `apply_poll` says.
    pub fn poll<F>(&mut self, link: &F, unit_no: u8) -> (code: Hresult)
        where
            F: Fn(&[u8]) -> LinkReply,
        requires
            forall|f: &[u8]| call_requires(*link, (f,)),
        ensures
            final(self).initialized == old(self).initialized,
            unit_no != 0 ==> code == S_FALSE && *final(self) == *old(self),
            unit_no == 0 ==> exists|out: LinkOut|
                link_answers(*link, request_frame(old(self).seq, SG_CMD_POLL, Seq::empty()), out)
                    && final(self).seq == seq_after(old(self).seq, out)
                    && match transact_outcome(out) {
                        Ok((_, payload)) => (final(self).card, code) == poll_outcome(payload),
                        Err(e) => code == e && final(self).card == old(self).card,
                    },
    {
        if unit_no != 0 {
            return S_FALSE;
        }
        let empty: [u8; 0] = [];
        assert(empty@ =~= Seq::<u8>::empty());
        let r = self.transact(link, SG_CMD_POLL, &empty);
        self.apply_poll(r)
    }

    /// The FeliCa IDm of the card seen by the last poll, as a big-endian
    /// number, into `idm_out`: `S_OK`; `S_FALSE` when the card is not a
    /// FeliCa card or the unit is not 0.
    pub fn get_felica_id(&self, unit_no: u8, idm_out: &mut u64) -> (code: Hresult)
        ensures
            match (unit_no, self.card) {
                (0, CachedCard::Felica { idm, pmm: _ }) => code == S_OK && *final(idm_out) == idm_value(idm),
                _ => code == S_FALSE && *final(idm_out) == *old(idm_out),
            },
    {
        if unit_no != 0 {
            return S_FALSE;
        }
        match self.card {
            CachedCard::Felica { idm, pmm: _ } => {
                *idm_out = (idm[0] as u64) * 0x100_0000_0000_0000 + (idm[1] as u64) * 0x1_0000_0000_0000
                    + (idm[2] as u64) * 0x100_0000_0000 + (idm[3] as u64) * 0x1_0000_0000
                    + (idm[4] as u64) * 0x100_0000 + (idm[5] as u64) * 0x1_0000
                    + (idm[6] as u64) * 0x100 + (idm[7] as u64);
                S_OK
            },
            _ => S_FALSE,
        }
    }

    /// The uid of the MIFARE card seen by the last poll, into `uid_out`,
    /// which must hold four bytes (`E_INVALIDARG` otherwise): `S_OK`;
    /// `S_FALSE` when the card is not a MIFARE card or the unit is not 0.
    pub fn get_mifare_uid(&self, unit_no: u8, uid_out: &mut [u8]) -> (code: Hresult)
        ensures
            final(uid_out)@.len() == old(uid_out)@.len(),
            unit_no != 0 ==> code == S_FALSE,
            unit_no == 0 && old(uid_out)@.len() != 4 ==> code == E_INVALIDARG,
            unit_no == 0 && old(uid_out)@.len() == 4 ==> match self.card {
                CachedCard::Mifare { uid } => code == S_OK && final(uid_out)@ == uid@,
                _ => code == S_FALSE,
            },
            code != S_OK ==> final(uid_out)@ == old(uid_out)@,
    {
        if unit_no != 0 {
            return S_FALSE;
        }
        if uid_out.len() != 4 {
            return E_INVALIDARG;
        }
        match self.card {
            CachedCard::Mifare { uid } => {
                uid_out[0] = uid[0];
                uid_out[1] = uid[1];
                uid_out[2] = uid[2];
                uid_out[3] = uid[3];
                assert(uid_out@ =~= uid@);
                S_OK
            },
            _ => S_FALSE,
        }
    }
}


/// The block that a block-read reply carries: the first sixteen bytes of its
/// payload, when the status is 0 and the payload holds them.
pub open spec fn block_of(r: Result<(u8, Seq<u8>), Hresult>) -> Option<Seq<u8>> {
    match r {
        Ok((status, payload)) => if status == 0 && payload.len() >= 16 {
            Some(payload.take(16))
        } else {
            None
        },
        Err(_) => None,
    }
}

/// The result code of a block read, from its reply: `S_OK` when it carries a
/// block, the error in place of a reply, `S_FALSE` otherwise.
pub open spec fn block_code(r: Result<(u8, Seq<u8>), Hresult>) -> Hresult {
    match r {
        Err(e) => e,
        Ok(_) => if block_of(r) is Some { S_OK } else { S_FALSE },
    }
}

/// The bytes copied out of a FeliCa reply into a buffer of `cap` bytes.
pub open spec fn felica_copy(payload: Seq<u8>, cap: nat) -> Seq<u8> {
    payload.take(if payload.len() < cap { payload.len() as int } else { cap as int })
}

impl ReaderState {
    /// The access code of the MIFARE card seen by the last poll, into `luid`,
    /// which must hold ten bytes (`E_INVALIDARG` otherwise): reads block 2 of
    /// the card and copies bytes 6 to 15 of it. `S_FALSE`, sending nothing,
    /// when the card is not a MIFARE card or the unit is not 0; `S_FALSE` when
    /// the read is refused or short; the error when the reader cannot be
    /// reached.
    pub fn get_aime_id<F>(&mut self, link: &F, unit_no: u8, luid: &mut [u8]) -> (code: Hresult)
        where
            F: Fn(&[u8]) -> LinkReply,
        requires
            forall|f: &[u8]| call_requires(*link, (f,)),
        ensures
            final(self).initialized == old(self).initialized,
            final(self).card == old(self).card,
            final(luid)@.len() == old(luid)@.len(),
            unit_no != 0 ==> code == S_FALSE,
            unit_no == 0 && old(luid)@.len() != 10 ==> code == E_INVALIDARG,
            unit_no != 0 || old(luid)@.len() != 10 || !(old(self).card is Mifare) ==> final(self).seq == old(self).seq
                && final(luid)@ == old(luid)@,
            unit_no == 0 && old(luid)@.len() == 10 && !(old(self).card is Mifare) ==> code == S_FALSE,
            unit_no == 0 && old(luid)@.len() == 10 ==> match old(self).card {
                CachedCard::Mifare { uid } => exists|out: LinkOut|
                    link_answers(*link, request_frame(old(self).seq, SG_CMD_MIFARE_READ_BLOCK, read_block_request(uid@, 2)), out)
                        && final(self).seq == seq_after(old(self).seq, out)
                        && code == block_code(transact_outcome(out))
                        && match block_of(transact_outcome(out)) {
                            Some(block) => final(luid)@ == block.subrange(6, 16),
                            None => final(luid)@ == old(luid)@,
                        },
                _ => true,
            },
    {
        if unit_no != 0 {
            return S_FALSE;
        }
        if luid.len() != 10 {
            return E_INVALIDARG;
        }
        let uid = match self.card {
            CachedCard::Mifare { uid } => uid,
            _ => {
                return S_FALSE;
            },
        };
        let payload: [u8; 5] = [uid[0], uid[1], uid[2], uid[3], 2];
        assert(payload@ =~= read_block_request(uid@, 2));
        let r = self.transact(link, SG_CMD_MIFARE_READ_BLOCK, &payload);
        let response = match r {
            Ok(response) => response,
            Err(err) => {
                return err;
            },
        };
        if response.status != 0 || response.payload.len() < 16 {
            return S_FALSE;
        }
        let mut i: usize = 0;
        while i < 10
            invariant
                i <= 10,
                luid@.len() == 10,
                response.payload@.len() >= 16,
                forall|j: int| 0 <= j < i ==> luid@[j] == response.payload@[6 + j],
            decreases 10 - i,
        {
            luid[i] = response.payload[6 + i];
            i = i + 1;
        }
        assert(luid@ =~= response.payload@.take(16).subrange(6, 16));
        S_OK
    }

    /// Selects the MIFARE card with uid `uid` (four bytes, `E_INVALIDARG`
    /// otherwise). `S_OK` when the reader accepts, `S_FALSE` when it refuses
    /// or the unit is not 0, the error when it cannot be reached.
    pub fn mifare_select<F>(&mut self, link: &F, unit_no: u8, uid: &[u8]) -> (code: Hresult)
        where
            F: Fn(&[u8]) -> LinkReply,
        requires
            forall|f: &[u8]| call_requires(*link, (f,)),
        ensures
            final(self).initialized == old(self).initialized,
            final(self).card == old(self).card,
            unit_no != 0 ==> code == S_FALSE && final(self).seq == old(self).seq,
            unit_no == 0 && uid@.len() != 4 ==> code == E_INVALIDARG && final(self).seq == old(self).seq,
            unit_no == 0 && uid@.len() == 4 ==> exists|out: LinkOut|
                link_answers(*link, request_frame(old(self).seq, SG_CMD_MIFARE_SELECT, uid@), out)
                    && final(self).seq == seq_after(old(self).seq, out)
                    && code == status_code(transact_outcome(out)),
    {
        if unit_no != 0 {
            return S_FALSE;
        }
        if uid.len() != 4 {
            return E_INVALIDARG;
        }
        self.simple(link, unit_no, SG_CMD_MIFARE_SELECT, uid)
    }

    /// Stores a MIFARE key (six bytes, `E_INVALIDARG` otherwise) of type
    /// `key_type` in the reader; see `set_key_cmd`.
    pub fn mifare_set_key<F>(&mut self, link: &F, unit_no: u8, key_type: u8, key: &[u8]) -> (code: Hresult)
        where
            F: Fn(&[u8]) -> LinkReply,
        requires
            forall|f: &[u8]| call_requires(*link, (f,)),
        ensures
            final(self).initialized == old(self).initialized,
            final(self).card == old(self).card,
            unit_no != 0 ==> code == S_FALSE && final(self).seq == old(self).seq,
            unit_no == 0 && key@.len() != 6 ==> code == E_INVALIDARG && final(self).seq == old(self).seq,
            unit_no == 0 && key@.len() == 6 ==> exists|out: LinkOut|
                link_answers(*link, request_frame(old(self).seq, set_key_cmd(key_type), key@), out)
                    && final(self).seq == seq_after(old(self).seq, out)
                    && code == status_code(transact_outcome(out)),
    {
        if unit_no != 0 {
            return S_FALSE;
        }
        if key.len() != 6 {
            return E_INVALIDARG;
        }
        let cmd = if key_type == 0 { SG_CMD_MIFARE_SET_KEY_AIME } else { SG_CMD_MIFARE_SET_KEY_BANA };
        self.simple(link, unit_no, cmd, key)
    }

    /// Authenticates with the stored key of type `key_type`, sending
    /// `payload` as it is; see `auth_cmd`.
    pub fn mifare_authenticate<F>(&mut self, link: &F, unit_no: u8, key_type: u8, payload: &[u8]) -> (code: Hresult)
        where
            F: Fn(&[u8]) -> LinkReply,
        requires
            forall|f: &[u8]| call_requires(*link, (f,)),
        ensures
            final(self).initialized == old(self).initialized,
            final(self).card == old(self).card,
            unit_no != 0 ==> code == S_FALSE && final(self).seq == old(self).seq,
            unit_no == 0 ==> exists|out: LinkOut|
                link_answers(*link, request_frame(old(self).seq, auth_cmd(key_type), payload@), out)
                    && final(self).seq == seq_after(old(self).seq, out)
                    && code == status_code(transact_outcome(out)),
    {
        let cmd = if key_type == 0 { SG_CMD_MIFARE_AUTH_AIME } else { SG_CMD_MIFARE_AUTH_BANA };
        self.simple(link, unit_no, cmd, payload)
    }

    /// Reads block `block_no` of the MIFARE card with uid `uid` (four bytes)
    /// into `block` (sixteen bytes); `E_INVALIDARG` for other sizes. See
    /// `block_of` and `block_code`.
    pub fn mifare_read_block<F>(&mut self, link: &F, unit_no: u8, uid: &[u8], block_no: u8, block: &mut [u8]) -> (code: Hresult)
        where
            F: Fn(&[u8]) -> LinkReply,
        requires
            forall|f: &[u8]| call_requires(*link, (f,)),
        ensures
            final(self).initialized == old(self).initialized,
            final(self).card == old(self).card,
            final(block)@.len() == old(block)@.len(),
            unit_no != 0 ==> code == S_FALSE,
            unit_no == 0 && (uid@.len() != 4 || old(block)@.len() != 16) ==> code == E_INVALIDARG,
            unit_no != 0 || uid@.len() != 4 || old(block)@.len() != 16 ==> final(self).seq == old(self).seq
                && final(block)@ == old(block)@,
            unit_no == 0 && uid@.len() == 4 && old(block)@.len() == 16 ==> exists|out: LinkOut|
                link_answers(*link, request_frame(old(self).seq, SG_CMD_MIFARE_READ_BLOCK, read_block_request(uid@, block_no)), out)
                    && final(self).seq == seq_after(old(self).seq, out)
                    && code == block_code(transact_outcome(out))
                    && match block_of(transact_outcome(out)) {
                        Some(b) => final(block)@ == b,
                        None => final(block)@ == old(block)@,
                    },
    {
        if unit_no != 0 {
            return S_FALSE;
        }
        if uid.len() != 4 || block.len() != 16 {
            return E_INVALIDARG;
        }
        let payload: [u8; 5] = [uid[0], uid[1], uid[2], uid[3], block_no];
        assert(payload@ =~= read_block_request(uid@, block_no));
        let r = self.transact(link, SG_CMD_MIFARE_READ_BLOCK, &payload);
        let response = match r {
            Ok(response) => response,
            Err(err) => {
                return err;
            },
        };
        if response.status != 0 || response.payload.len() < 16 {
            return S_FALSE;
        }
        let mut i: usize = 0;
        while i < 16
            invariant
                i <= 16,
                block@.len() == 16,
                response.payload@.len() >= 16,
                forall|j: int| 0 <= j < i ==> block@[j] == response.payload@[j],
            decreases 16 - i,
        {
            block[i] = response.payload[i];
            i = i + 1;
        }
        assert(block@ =~= response.payload@.take(16));
        S_OK
    }

    /// Passes a FeliCa command `req` through to the card and copies as much
    /// of the reply payload as `res` holds into it, with the count copied in
    /// `res_size_written`: `S_OK`; `S_FALSE` when the reader refuses or the
    /// unit is not 0; the error when the reader cannot be reached.
    pub fn felica_transact<F>(&mut self, link: &F, unit_no: u8, req: &[u8], res: &mut [u8], res_size_written: &mut usize) -> (code: Hresult)
        where
            F: Fn(&[u8]) -> LinkReply,
        requires
            forall|f: &[u8]| call_requires(*link, (f,)),
        ensures
            final(self).initialized == old(self).initialized,
            final(self).card == old(self).card,
            final(res)@.len() == old(res)@.len(),
            unit_no != 0 ==> code == S_FALSE && final(self).seq == old(self).seq && final(res)@ == old(res)@
                && *final(res_size_written) == *old(res_size_written),
            unit_no == 0 ==> exists|out: LinkOut|
                link_answers(*link, request_frame(old(self).seq, SG_CMD_FELICA_ENCAP, req@), out)
                    && final(self).seq == seq_after(old(self).seq, out)
                    && code == status_code(transact_outcome(out))
                    && match transact_outcome(out) {
                        Ok((0, payload)) => {
                            let copied = felica_copy(payload, old(res)@.len());
                            &&& *final(res_size_written) == copied.len()
                            &&& final(res)@ == copied + old(res)@.skip(copied.len() as int)
                        },
                        _ => final(res)@ == old(res)@ && *final(res_size_written) == *old(res_size_written),
                    },
    {
        if unit_no != 0 {
            return S_FALSE;
        }
        let r = self.transact(link, SG_CMD_FELICA_ENCAP, req);
        let response = match r {
            Ok(response) => response,
            Err(err) => {
                return err;
            },
        };
        if response.status != 0 {
            return S_FALSE;
        }
        let copy_len = if response.payload.len() < res.len() { response.payload.len() } else { res.len() };
        let ghost old_res = res@;
        let mut i: usize = 0;
        while i < copy_len
            invariant
                i <= copy_len,
                copy_len <= res@.len(),
                copy_len <= response.payload@.len(),
                res@.len() == old_res.len(),
                forall|j: int| 0 <= j < i ==> res@[j] == response.payload@[j],
                forall|j: int| i <= j < res@.len() ==> res@[j] == old_res[j],
            decreases copy_len - i,
        {
            res[i] = response.payload[i];
            i = i + 1;
        }
        *res_size_written = copy_len;
        assert(res@ =~= felica_copy(response.payload@, old_res.len()) + old_res.skip(copy_len as int));
        S_OK
    }

    /// Turns the reader's radio on.
    pub fn radio_on<F>(&mut self, link: &F, unit_no: u8) -> (code: Hresult)
        where
            F: Fn(&[u8]) -> LinkReply,
        requires
            forall|f: &[u8]| call_requires(*link, (f,)),
        ensures
            final(self).initialized == old(self).initialized,
            final(self).card == old(self).card,
            unit_no != 0 ==> code == S_FALSE && final(self).seq == old(self).seq,
            unit_no == 0 ==> exists|out: LinkOut|
                link_answers(*link, request_frame(old(self).seq, SG_CMD_RADIO_ON, Seq::empty()), out)
                    && final(self).seq == seq_after(old(self).seq, out)
                    && code == status_code(transact_outcome(out)),
    {
        let empty: [u8; 0] = [];
        assert(empty@ =~= Seq::<u8>::empty());
        self.simple(link, unit_no, SG_CMD_RADIO_ON, &empty)
    }

    /// Turns the reader's radio off.
    pub fn radio_off<F>(&mut self, link: &F, unit_no: u8) -> (code: Hresult)
        where
            F: Fn(&[u8]) -> LinkReply,
        requires
            forall|f: &[u8]| call_requires(*link, (f,)),
        ensures
            final(self).initialized == old(self).initialized,
            final(self).card == old(self).card,
            unit_no != 0 ==> code == S_FALSE && final(self).seq == old(self).seq,
            unit_no == 0 ==> exists|out: LinkOut|
                link_answers(*link, request_frame(old(self).seq, SG_CMD_RADIO_OFF, Seq::empty()), out)
                    && final(self).seq == seq_after(old(self).seq, out)
                    && code == status_code(transact_outcome(out)),
    {
        let empty: [u8; 0] = [];
        assert(empty@ =~= Seq::<u8>::empty());
        self.simple(link, unit_no, SG_CMD_RADIO_OFF, &empty)
    }

    /// Puts the reader into firmware update mode.
    pub fn to_update_mode<F>(&mut self, link: &F, unit_no: u8) -> (code: Hresult)
        where
            F: Fn(&[u8]) -> LinkReply,
        requires
            forall|f: &[u8]| call_requires(*link, (f,)),
        ensures
            final(self).initialized == old(self).initialized,
            final(self).card == old(self).card,
            unit_no != 0 ==> code == S_FALSE && final(self).seq == old(self).seq,
            unit_no == 0 ==> exists|out: LinkOut|
                link_answers(*link, request_frame(old(self).seq, SG_CMD_TO_UPDATE_MODE, Seq::empty()), out)
                    && final(self).seq == seq_after(old(self).seq, out)
                    && code == status_code(transact_outcome(out)),
    {
        let empty: [u8; 0] = [];
        assert(empty@ =~= Seq::<u8>::empty());
        self.simple(link, unit_no, SG_CMD_TO_UPDATE_MODE, &empty)
    }

    /// Sends firmware data `payload` in update mode. Returns the result code
    /// (`S_OK` for status 0, `S_FALSE` otherwise or for a unit other than 0,
    /// the error when the reader cannot be reached) and the reply's status
    /// byte when a reply came back.
    pub fn send_hex_data<F>(&mut self, link: &F, unit_no: u8, payload: &[u8]) -> (res: (Hresult, Option<u8>))
        where
            F: Fn(&[u8]) -> LinkReply,
        requires
            forall|f: &[u8]| call_requires(*link, (f,)),
        ensures
            final(self).initialized == old(self).initialized,
            final(self).card == old(self).card,
            unit_no != 0 ==> res == (S_FALSE, None::<u8>) && final(self).seq == old(self).seq,
            unit_no == 0 ==> exists|out: LinkOut|
                link_answers(*link, request_frame(old(self).seq, SG_CMD_SEND_HEX_DATA, payload@), out)
                    && final(self).seq == seq_after(old(self).seq, out)
                    && res.0 == status_code(transact_outcome(out))
                    && res.1 == match transact_outcome(out) {
                        Ok((status, _)) => Some(status),
                        Err(_) => None,
                    },
    {
        if unit_no != 0 {
            return (S_FALSE, None);
        }
        match self.transact(link, SG_CMD_SEND_HEX_DATA, payload) {
            Ok(response) => (if response.status == 0 { S_OK } else { S_FALSE }, Some(response.status)),
            Err(err) => (err, None),
        }
    }

    /// Sets the colour of the reader's LED (unit 0 only; the reply is not
    /// looked at).
    pub fn led_set_color<F>(&mut self, link: &F, unit_no: u8, rgb: [u8; 3])
        where
            F: Fn(&[u8]) -> LinkReply,
        requires
            forall|f: &[u8]| call_requires(*link, (f,)),
        ensures
            final(self).initialized == old(self).initialized,
            final(self).card == old(self).card,
            unit_no != 0 ==> final(self).seq == old(self).seq,
            unit_no == 0 ==> exists|out: LinkOut|
                link_answers(*link, request_frame(old(self).seq, SG_CMD_EXT_LED_RGB, rgb@), out)
                    && final(self).seq == seq_after(old(self).seq, out),
    {
        if unit_no != 0 {
            return;
        }
        let _ = self.transact(link, SG_CMD_EXT_LED_RGB, &rgb);
    }
}

/// The reader has no display: setting its text does nothing.
pub fn vfd_set_text() {
}

/// The reader has no display: setting its state does nothing.
pub fn vfd_set_state() {
}

} // verus!
