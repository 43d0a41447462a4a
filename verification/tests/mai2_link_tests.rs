use affine_io::mai2_link::{
    consume, encode_affine_frame, encode_hid_report, parse_board_info, try_parse_frame, ParsedFrame,
    AFFINE_CMD_GET_BOARD_INFO, AFFINE_CMD_HEARTBEAT, AFFINE_CMD_SET_PWM, AFFINE_SERIAL_RX_BUF_LEN,
};

fn touch_frame(b3: u8, b4: u8, b5: u8, touch: [u8; 7]) -> Vec<u8> {
    let mut f = vec![0xFF, 0x01, 0x0A, b3, b4, b5];
    f.extend_from_slice(&touch);
    let sum = f.iter().fold(0u8, |a, &b| a.wrapping_add(b));
    f.push(sum);
    f
}

struct Rx {
    buf: [u8; AFFINE_SERIAL_RX_BUF_LEN],
    len: usize,
}

impl Rx {
    fn with(bytes: &[u8]) -> Rx {
        let mut buf = [0u8; AFFINE_SERIAL_RX_BUF_LEN];
        buf[..bytes.len()].copy_from_slice(bytes);
        Rx { buf, len: bytes.len() }
    }

    fn next(&mut self) -> Option<ParsedFrame> {
        try_parse_frame(&mut self.buf, &mut self.len)
    }

    fn rest(&self) -> Vec<u8> {
        self.buf[..self.len].to_vec()
    }
}

#[test]
fn affine_frame_bytes() {
    assert_eq!(encode_affine_frame(AFFINE_CMD_HEARTBEAT, &[]), vec![0xFF, 0x11, 0x00, 0x10]);
    assert_eq!(encode_affine_frame(AFFINE_CMD_SET_PWM, &[1, 2, 3]), vec![0xFF, 0x16, 0x03, 1, 2, 3, 0x1E]);
}

#[test]
fn hid_report_pads_frame() {
    let report = encode_hid_report(AFFINE_CMD_HEARTBEAT, &[]).expect("fits");
    assert_eq!(&report[..5], &[0x00, 0xFF, 0x11, 0x00, 0x10]);
    assert!(report[5..].iter().all(|&b| b == 0));
    assert_eq!(report.len(), 65);
    let full = encode_hid_report(0x14, &[1u8; 60]).expect("fits");
    assert_eq!(full[63], 1);
    assert_eq!(full[64], encode_affine_frame(0x14, &[1u8; 60])[63]);
    assert!(encode_hid_report(0x14, &[1u8; 61]).is_none());
}

#[test]
fn touch_frame_after_noise_is_read() {
    let frame = touch_frame(0x35, 0xA7, 0xC9, [1, 2, 3, 4, 5, 6, 7]);
    let mut bytes = vec![0x00, 0x13, 0x7F];
    bytes.extend(&frame);
    bytes.push(0x28);
    let mut rx = Rx::with(&bytes);
    match rx.next() {
        Some(ParsedFrame::Touch { buttons0, io_status, touch }) => {
            assert_eq!(buttons0, Some(0xA5));
            assert_eq!(io_status, Some(0x09));
            assert_eq!(touch, Some([1, 2, 3, 4, 5, 6, 7]));
        },
        _ => panic!("expected a touch frame"),
    }
    assert_eq!(rx.rest(), vec![0x28]);
    assert!(rx.next().is_none());
    assert_eq!(rx.rest(), vec![0x28]);
}

#[test]
fn touch_frame_type_zero_is_read() {
    let mut frame = touch_frame(0x01, 0x10, 0x3F, [0; 7]);
    frame[2] = 0x00;
    let sum = frame[..13].iter().fold(0u8, |a, &b| a.wrapping_add(b));
    frame[13] = sum;
    let mut rx = Rx::with(&frame);
    assert!(matches!(rx.next(), Some(ParsedFrame::Touch { buttons0: Some(0x11), io_status: Some(0x3F), .. })));
    assert_eq!(rx.len, 0);
}

#[test]
fn bad_checksum_frame_is_skipped() {
    let mut bad = touch_frame(1, 2, 3, [9; 7]);
    bad[13] = bad[13].wrapping_add(1);
    let good = touch_frame(4, 5, 6, [8; 7]);
    let mut bytes = bad.clone();
    bytes.extend(&good);
    let mut rx = Rx::with(&bytes);
    match rx.next() {
        Some(ParsedFrame::Touch { touch, .. }) => assert_eq!(touch, Some([8; 7])),
        _ => panic!("expected the good frame"),
    }
    assert_eq!(rx.len, 0);
}

#[test]
fn legacy_touch_frame() {
    let mut rx = Rx::with(&[0x28, 1, 2, 3, 4, 5, 6, 7, 0x29, 0x28, 0]);
    match rx.next() {
        Some(ParsedFrame::Touch { buttons0, io_status, touch }) => {
            assert_eq!(buttons0, None);
            assert_eq!(io_status, None);
            assert_eq!(touch, Some([1, 2, 3, 4, 5, 6, 7]));
        },
        _ => panic!("expected a legacy touch frame"),
    }
    assert_eq!(rx.rest(), vec![0x28, 0]);
    // An unterminated legacy frame is noise once complete.
    let mut rx = Rx::with(&[0x28, 1, 2, 3, 4, 5, 6, 7, 0x30]);
    assert!(rx.next().is_none());
    assert_eq!(rx.len, 0);
}

#[test]
fn board_info_frame() {
    let mut rx = Rx::with(&[0xFF, AFFINE_CMD_GET_BOARD_INFO, 6, 5, b'v', b'1', b'.', b'2', b'3', 0x00, 0xFF]);
    match rx.next() {
        Some(ParsedFrame::BoardInfo(text)) => assert_eq!(text, "v1.23"),
        _ => panic!("expected board information"),
    }
    assert_eq!(rx.rest(), vec![0xFF]);
}

#[test]
fn incomplete_frames_wait() {
    let frame = touch_frame(1, 2, 3, [4; 7]);
    let mut rx = Rx::with(&frame[..10]);
    assert!(rx.next().is_none());
    assert_eq!(rx.rest(), frame[..10].to_vec());
    let mut rx = Rx::with(&[0xFF, 0x01]);
    assert!(rx.next().is_none());
    assert_eq!(rx.len, 2);
    let mut rx = Rx::with(&[0xFF, AFFINE_CMD_GET_BOARD_INFO, 4, 3, b'a']);
    assert!(rx.next().is_none());
    assert_eq!(rx.len, 5);
}

#[test]
fn parse_board_info_text() {
    assert_eq!(parse_board_info(&[3, b'a', b'b', b'c', b'd']), "abc");
    assert_eq!(parse_board_info(&[]), "unknown");
    assert_eq!(parse_board_info(&[0, b'a']), "unknown");
    assert_eq!(parse_board_info(&[5, b'a']), "unknown");
    // Invalid UTF-8 is replaced, not rejected.
    assert_eq!(parse_board_info(&[2, b'a', 0xFF]), "a\u{FFFD}");
}

#[test]
fn consume_moves_rest_to_front() {
    let mut buf = [1u8, 2, 3, 4, 5, 9, 9];
    let mut len = 5usize;
    consume(&mut buf, &mut len, 2);
    assert_eq!(len, 3);
    assert_eq!(&buf[..3], &[3, 4, 5]);
    consume(&mut buf, &mut len, 10);
    assert_eq!(len, 0);
}
