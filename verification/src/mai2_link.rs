//! The maimai controller's board link, over serial or the vendor HID
//! interface: touch frames `0xFF, 0x01, 0x0A|0x00, b3..b12, checksum`
//! (checksum = sum of the first thirteen bytes), board-information frames
//! `0xFF, 0xF0, len, data.., checksum` (checksum not checked), legacy touch
//! frames `(, seven touch bytes, )`, and the frames the host sends:
//! `0xFF, cmd, len, payload.., checksum`.
use vstd::prelude::*;
use crate::bytes::{checksum_add, sum_add};
use crate::text::{lossy_utf8, utf8_lossy};

verus! {

/// Keep-alive command.
pub const AFFINE_CMD_HEARTBEAT: u8 = 0x11;
/// Button LED colours.
pub const AFFINE_CMD_SET_BUTTON_LEDS: u8 = 0x14;
/// Billboard LED colours.
pub const AFFINE_CMD_SET_BILLBOARD: u8 = 0x15;
/// Cabinet (FET) light levels.
pub const AFFINE_CMD_SET_PWM: u8 = 0x16;
/// Board information request and reply.
pub const AFFINE_CMD_GET_BOARD_INFO: u8 = 0xF0;
/// Length of a vendor HID report, its report id byte included.
pub const MAI2_VENDOR_HID_REPORT_LEN: usize = 65;
/// Room for a frame in a vendor HID report.
pub const MAI2_VENDOR_HID_FRAME_LEN: usize = 64;
/// Capacity of the receive buffers.
pub const AFFINE_SERIAL_RX_BUF_LEN: usize = 512;

/// A frame received from the board.
pub enum ParsedFrame {
    /// Input state: buttons, status bits and touch bits, each when the frame
    /// carries it.
    Touch { buttons0: Option<u8>, io_status: Option<u8>, touch: Option<[u8; 7]> },
    /// The board's firmware version.
    BoardInfo(String),
}

/// The view of a received frame.
pub enum FrameView {
    Touch { buttons0: Option<u8>, io_status: Option<u8>, touch: Option<[u8; 7]> },
    BoardInfo(Seq<char>),
}

impl View for ParsedFrame {
    type V = FrameView;

    open spec fn view(&self) -> FrameView {
        match self {
            ParsedFrame::Touch { buttons0, io_status, touch } => FrameView::Touch {
                buttons0: *buttons0,
                io_status: *io_status,
                touch: *touch,
            },
            ParsedFrame::BoardInfo(s) => FrameView::BoardInfo(s@),
        }
    }
}

/// The view of what the parser returned.
pub open spec fn frame_view(f: Option<ParsedFrame>) -> Option<FrameView> {
    match f {
        Some(p) => Some(p@),
        None => None,
    }
}

/// The version text of a board-information payload: a length byte and that
/// many bytes of text, or "unknown" when the length is 0 or runs past the
/// payload.
pub open spec fn board_info_text(data: Seq<u8>) -> Seq<char> {
    if data.len() == 0 || data[0] == 0 || data[0] + 1 > data.len() {
        "unknown"@
    } else {
        lossy_utf8(data.subrange(1, 1 + data[0]))
    }
}

/// Reads the version text out of a board-information payload; see
/// `board_info_text`.
pub fn parse_board_info(data: &[u8]) -> (s: String)
    ensures
        s@ == board_info_text(data@),
{
    if data.len() == 0 {
        return String::from_str("unknown");
    }
    let length = data[0] as usize;
    if length == 0 || length + 1 > data.len() {
        return String::from_str("unknown");
    }
    let mut text: Vec<u8> = Vec::new();
    let mut i: usize = 0;
    while i < length
        invariant
            i <= length,
            length + 1 <= data@.len(),
            text@ =~= data@.subrange(1, 1 + i as int),
        decreases length - i,
    {
        text.push(data[1 + i]);
        i = i + 1;
    }
    utf8_lossy(text.as_slice())
}

/// The first frame that the receive buffer `s` holds, after the bytes that
/// start no frame, and what is left of the buffer after it; `None`, with what
/// is left to wait on, when no frame is complete yet. `cap` is the buffer's
/// capacity: a board-information frame that could not fit it is taken for
/// noise.
pub open spec fn next_frame(s: Seq<u8>, cap: nat) -> (Option<FrameView>, Seq<u8>)
    decreases s.len(),
{
    if s.len() == 0 {
        (None, s)
    } else if s[0] == 0xFF {
        if s.len() < 3 {
            (None, s)
        } else if s[1] == 0x01 && (s[2] == 0x0A || s[2] == 0x00) {
            if s.len() < 14 {
                (None, s)
            } else if s[13] == sum_add(s.take(13)) {
                (Some(FrameView::Touch {
                    buttons0: Some(((s[3] & 0x0F) | (s[4] & 0xF0)) as u8),
                    io_status: Some((s[5] & 0x3F) as u8),
                    touch: Some([s[6], s[7], s[8], s[9], s[10], s[11], s[12]]),
                }), s.skip(14))
            } else {
                next_frame(s.skip(1), cap)
            }
        } else if s[1] == AFFINE_CMD_GET_BOARD_INFO {
            if 3 + s[2] + 1 > cap {
                next_frame(s.skip(1), cap)
            } else if s.len() < 3 + s[2] + 1 {
                (None, s)
            } else {
                (Some(FrameView::BoardInfo(board_info_text(s.subrange(3, 3 + s[2])))), s.skip(3 + s[2] + 1))
            }
        } else {
            next_frame(s.skip(1), cap)
        }
    } else if s[0] == 0x28 {
        if s.len() < 9 {
            (None, s)
        } else if s[8] == 0x29 {
            (Some(FrameView::Touch {
                buttons0: None,
                io_status: None,
                touch: Some([s[1], s[2], s[3], s[4], s[5], s[6], s[7]]),
            }), s.skip(9))
        } else {
            next_frame(s.skip(1), cap)
        }
    } else {
        next_frame(s.skip(1), cap)
    }
}

/// Drops the first `count` bytes of the `rx_len` bytes held in `rx_buf`,
/// moving the others to the front.
pub fn consume(rx_buf: &mut [u8], rx_len: &mut usize, count: usize)
    requires
        *old(rx_len) <= old(rx_buf)@.len(),
    ensures
        final(rx_buf)@.len() == old(rx_buf)@.len(),
        *final(rx_len) <= final(rx_buf)@.len(),
        count >= *old(rx_len) ==> *final(rx_len) == 0,
        count < *old(rx_len) ==> *final(rx_len) == *old(rx_len) - count,
        count < *old(rx_len) ==> final(rx_buf)@.take(*final(rx_len) as int) == old(rx_buf)@.subrange(count as int, *old(rx_len) as int),
        forall|i: int| *final(rx_len) <= i < final(rx_buf)@.len() ==> final(rx_buf)@[i] == old(rx_buf)@[i],
{
    if count >= *rx_len {
        *rx_len = 0;
        return;
    }
    let n = *rx_len - count;
    let ghost orig = rx_buf@;
    let mut i: usize = 0;
    while i < n
        invariant
            i <= n,
            n + count == *old(rx_len),
            *old(rx_len) <= orig.len(),
            rx_buf@.len() == orig.len(),
            forall|j: int| 0 <= j < i ==> rx_buf@[j] == orig[j + count],
            forall|j: int| i <= j < rx_buf@.len() ==> rx_buf@[j] == orig[j],
        decreases n - i,
    {
        let b = rx_buf[i + count];
        rx_buf[i] = b;
        i = i + 1;
    }
    *rx_len = n;
    assert(rx_buf@.take(n as int) =~= orig.subrange(count as int, *old(rx_len) as int));
}


fn copy_range(src: &[u8], start: usize, len: usize) -> (out: Vec<u8>)
    requires
        start + len <= src@.len(),
    ensures
        out@ == src@.subrange(start as int, start + len),
{
    let mut out: Vec<u8> = Vec::new();
    let mut i: usize = 0;
    while i < len
        invariant
            i <= len,
            start + len <= src.len(),
            out@ =~= src@.subrange(start as int, start + i),
        decreases len - i,
    {
        out.push(src[start + i]);
        i = i + 1;
    }
    out
}

/// Takes the next complete frame out of the `rx_len` bytes held in `rx_buf`,
/// dropping the bytes before it that start no frame; see `next_frame`. What
/// is left of the buffer stays at its front.
pub fn try_parse_frame(rx_buf: &mut [u8], rx_len: &mut usize) -> (res: Option<ParsedFrame>)
    requires
        *old(rx_len) <= old(rx_buf)@.len(),
    ensures
        final(rx_buf)@.len() == old(rx_buf)@.len(),
        *final(rx_len) <= final(rx_buf)@.len(),
        (frame_view(res), final(rx_buf)@.take(*final(rx_len) as int))
            == next_frame(old(rx_buf)@.take(*old(rx_len) as int), old(rx_buf)@.len()),
{
    let ghost cap = rx_buf@.len();
    let ghost goal = next_frame(rx_buf@.take(*rx_len as int), cap);
    loop
        invariant
            *rx_len <= rx_buf@.len(),
            rx_buf@.len() == cap,
            cap == old(rx_buf)@.len(),
            goal == next_frame(old(rx_buf)@.take(*old(rx_len) as int), old(rx_buf)@.len()),
            next_frame(rx_buf@.take(*rx_len as int), cap) == goal,
        decreases *rx_len,
    {
        let ghost cur = rx_buf@.take(*rx_len as int);
        if *rx_len == 0 {
            return None;
        }
        if rx_buf[0] == 0xFF {
            if *rx_len < 3 {
                return None;
            }
            if rx_buf[1] == 0x01 && (rx_buf[2] == 0x0A || rx_buf[2] == 0x00) {
                if *rx_len < 14 {
                    return None;
                }
                let checksum = checksum_add(rx_buf, 13);
                assert(rx_buf@.take(13) =~= cur.take(13));
                if rx_buf[13] == checksum {
                    let buttons0 = (rx_buf[3] & 0x0F) | (rx_buf[4] & 0xF0);
                    let io_status = rx_buf[5] & 0x3F;
                    let touch: [u8; 7] = [rx_buf[6], rx_buf[7], rx_buf[8], rx_buf[9], rx_buf[10], rx_buf[11], rx_buf[12]];
                    consume(rx_buf, rx_len, 14);
                    assert(rx_buf@.take(*rx_len as int) =~= cur.skip(14));
                    return Some(ParsedFrame::Touch {
                        buttons0: Some(buttons0),
                        io_status: Some(io_status),
                        touch: Some(touch),
                    });
                }
            } else if rx_buf[1] == AFFINE_CMD_GET_BOARD_INFO {
                let size = rx_buf[2] as usize;
                let total = 3 + size + 1;
                if total > rx_buf.len() {
                    consume(rx_buf, rx_len, 1);
                    assert(rx_buf@.take(*rx_len as int) =~= cur.skip(1));
                    continue;
                }
                if *rx_len < total {
                    return None;
                }
                let data = copy_range(rx_buf, 3, size);
                assert(data@ =~= cur.subrange(3, 3 + size));
                let version = parse_board_info(data.as_slice());
                consume(rx_buf, rx_len, total);
                assert(rx_buf@.take(*rx_len as int) =~= cur.skip(total as int));
                return Some(ParsedFrame::BoardInfo(version));
            }
            consume(rx_buf, rx_len, 1);
            assert(rx_buf@.take(*rx_len as int) =~= cur.skip(1));
            continue;
        }
        if rx_buf[0] == 0x28 {
            if *rx_len < 9 {
                return None;
            }
            if rx_buf[8] == 0x29 {
                let touch: [u8; 7] = [rx_buf[1], rx_buf[2], rx_buf[3], rx_buf[4], rx_buf[5], rx_buf[6], rx_buf[7]];
                consume(rx_buf, rx_len, 9);
                assert(rx_buf@.take(*rx_len as int) =~= cur.skip(9));
                return Some(ParsedFrame::Touch { buttons0: None, io_status: None, touch: Some(touch) });
            }
            consume(rx_buf, rx_len, 1);
            assert(rx_buf@.take(*rx_len as int) =~= cur.skip(1));
            continue;
        }
        consume(rx_buf, rx_len, 1);
        assert(rx_buf@.take(*rx_len as int) =~= cur.skip(1));
    }
}


/// The start of a frame that the host sends: start byte, command, payload
/// length (modulo 256), payload.
pub open spec fn affine_head(cmd: u8, payload: Seq<u8>) -> Seq<u8> {
    seq![0xFFu8, cmd, payload.len() as u8] + payload
}

/// A frame that the host sends: its head, then the sum of the head.
pub open spec fn affine_frame(cmd: u8, payload: Seq<u8>) -> Seq<u8> {
    affine_head(cmd, payload).push(sum_add(affine_head(cmd, payload)))
}

/// Builds the serial frame for `cmd` and `payload`.
pub fn encode_affine_frame(cmd: u8, payload: &[u8]) -> (frame: Vec<u8>)
    ensures
        frame@ == affine_frame(cmd, payload@),
{
    let mut frame: Vec<u8> = Vec::new();
    frame.push(0xFF);
    frame.push(cmd);
    let len_byte: u8 = #[verifier::truncate] (payload.len() as u8);
    frame.push(len_byte);
    let mut i: usize = 0;
    while i < payload.len()
        invariant
            i <= payload@.len(),
            frame@ == seq![0xFFu8, cmd, payload@.len() as u8] + payload@.take(i as int),
        decreases payload@.len() - i,
    {
        frame.push(payload[i]);
        i = i + 1;
        assert(frame@ == seq![0xFFu8, cmd, payload@.len() as u8] + payload@.take(i as int));
    }
    assert(payload@.take(i as int) =~= payload@);
    let n = frame.len();
    let checksum = checksum_add(frame.as_slice(), n);
    assert(frame@.take(n as int) =~= frame@);
    frame.push(checksum);
    frame
}

/// The vendor HID report that carries the frame for `cmd` and `payload`:
/// report id 0, the frame, then zeros up to the report's length.
pub open spec fn hid_report(cmd: u8, payload: Seq<u8>) -> Seq<u8> {
    let body = seq![0u8] + affine_frame(cmd, payload);
    body + Seq::new((MAI2_VENDOR_HID_REPORT_LEN - body.len()) as nat, |i: int| 0u8)
}

/// Builds the vendor HID report for `cmd` and `payload`; `None` when the
/// frame does not fit a report (more than 60 payload bytes).
pub fn encode_hid_report(cmd: u8, payload: &[u8]) -> (report: Option<[u8; 65]>)
    ensures
        payload@.len() + 4 > MAI2_VENDOR_HID_FRAME_LEN ==> report is None,
        payload@.len() + 4 <= MAI2_VENDOR_HID_FRAME_LEN ==> (report matches Some(r) && r@ == hid_report(cmd, payload@)),
{
    if payload.len() > MAI2_VENDOR_HID_FRAME_LEN - 4 {
        return None;
    }
    let frame = encode_affine_frame(cmd, payload);
    let mut report = [0u8; 65];
    let mut i: usize = 0;
    while i < frame.len()
        invariant
            frame@ == affine_frame(cmd, payload@),
            frame@.len() == payload@.len() + 4,
            payload@.len() + 4 <= MAI2_VENDOR_HID_FRAME_LEN,
            i <= frame@.len(),
            report@.len() == 65,
            report@[0] == 0,
            forall|j: int| 0 <= j < i ==> report@[j + 1] == frame@[j],
            forall|j: int| i + 1 <= j < 65 ==> report@[j] == 0,
        decreases frame@.len() - i,
    {
        report[i + 1] = frame[i];
        i = i + 1;
    }
    assert(report@ =~= hid_report(cmd, payload@));
    Some(report)
}

/// A touch frame from the board: start byte, command 1, a frame type (0x0A
/// or 0x00), ten data bytes, and the sum of the first thirteen bytes.
pub open spec fn is_touch_frame(f: Seq<u8>) -> bool {
    &&& f.len() == 14
    &&& f[0] == 0xFF
    &&& f[1] == 0x01
    &&& (f[2] == 0x0A || f[2] == 0x00)
    &&& f[13] == sum_add(f.take(13))
}

/// What a touch frame reports.
pub open spec fn touch_frame_view(f: Seq<u8>) -> FrameView {
    FrameView::Touch {
        buttons0: Some(((f[3] & 0x0F) | (f[4] & 0xF0)) as u8),
        io_status: Some((f[5] & 0x3F) as u8),
        touch: Some([f[6], f[7], f[8], f[9], f[10], f[11], f[12]]),
    }
}

/// Line noise before a touch frame is skipped and the frame is read whole,
/// leaving what follows it in the buffer, provided the noise holds no byte
/// that could start a frame (`0xFF` or `(`).
pub proof fn touch_frame_after_noise(noise: Seq<u8>, f: Seq<u8>, rest: Seq<u8>, cap: nat)
    requires
        is_touch_frame(f),
        forall|i: int| 0 <= i < noise.len() ==> noise[i] != 0xFF && noise[i] != 0x28,
    ensures
        next_frame(noise + f + rest, cap) == (Some(touch_frame_view(f)), rest),
    decreases noise.len(),
{
    let s = noise + f + rest;
    if noise.len() == 0 {
        assert(s =~= f + rest);
        assert(s.take(13) =~= f.take(13));
        assert(s.skip(14) =~= rest);
    } else {
        assert(s.skip(1) =~= noise.skip(1) + f + rest);
        touch_frame_after_noise(noise.skip(1), f, rest, cap);
    }
}

} // verus!
