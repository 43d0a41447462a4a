use affine_io::bytes::{checksum_add, checksum_sub};
use affine_io::sega::{encode_frame, parse_response, SegaDecoder, SegaEvent};
use affine_io::types::E_FAIL;

fn decode_all(bytes: &[u8]) -> Vec<Result<Vec<u8>, ()>> {
    let mut decoder = SegaDecoder::new();
    let mut out = Vec::new();
    for &b in bytes {
        match decoder.push(b) {
            SegaEvent::Pending => {}
            SegaEvent::Frame(body) => out.push(Ok(body)),
            SegaEvent::BadChecksum => out.push(Err(())),
        }
    }
    out
}

#[test]
fn checksums() {
    assert_eq!(checksum_add(&[1, 2, 3, 250], 4), 0);
    assert_eq!(checksum_add(&[1, 2, 3, 250], 3), 6);
    assert_eq!(checksum_sub(&[0xFF, 0x01, 0x03, 1, 2, 3], 6), 0xF7);
    assert_eq!(checksum_sub(&[], 0), 0);
}

#[test]
fn encode_poll_request() {
    assert_eq!(encode_frame(1, 0x42, &[]), vec![0xE0, 0x05, 0x00, 0x01, 0x42, 0x00, 0x48]);
}

#[test]
fn encode_escapes_sync_and_escape_bytes() {
    // Sequence number 0xD0 and a payload byte 0xE0 are escaped.
    let frame = encode_frame(0xD0, 0x30, &[0xE0]);
    // body: 6, 0, D0, 30, 1, E0; sum = 6 + 0xD0 + 0x30 + 1 + 0xE0 = 0x1E7 -> 0xE7
    assert_eq!(frame, vec![0xE0, 0x06, 0x00, 0xD0, 0xCF, 0x30, 0x01, 0xD0, 0xDF, 0xE7]);
}

#[test]
fn decoder_reads_back_request() {
    let frame = encode_frame(0xD0, 0x30, &[0xE0, 0x11]);
    let frames = decode_all(&frame);
    assert_eq!(frames, vec![Ok(vec![0x07, 0x00, 0xD0, 0x30, 0x02, 0xE0, 0x11])]);
}

#[test]
fn decoder_skips_noise_and_restarts_on_sync() {
    let mut stream = vec![0x12, 0x34, 0xE0, 0x05, 0x00];
    stream.extend(encode_frame(2, 0x41, &[]));
    let frames = decode_all(&stream);
    assert_eq!(frames, vec![Ok(vec![0x05, 0x00, 0x02, 0x41, 0x00])]);
}

#[test]
fn decoder_reports_bad_checksum() {
    let frames = decode_all(&[0xE0, 0x05, 0x00, 0x01, 0x42, 0x00, 0x00]);
    assert_eq!(frames, vec![Err(())]);
    // After a bad frame the next one is read normally.
    let mut stream = vec![0xE0, 0x05, 0x00, 0x01, 0x42, 0x00, 0x00];
    stream.extend(encode_frame(1, 0x42, &[]));
    assert_eq!(decode_all(&stream), vec![Err(()), Ok(vec![0x05, 0x00, 0x01, 0x42, 0x00])]);
}

#[test]
fn parse_response_reads_status_and_payload() {
    let r = parse_response(&[8, 0, 1, 0x42, 0, 2, 0xAA, 0xBB]).unwrap();
    assert_eq!(r.status, 0);
    assert_eq!(r.payload, vec![0xAA, 0xBB]);
    // Bytes after the payload are ignored.
    let r = parse_response(&[8, 0, 1, 0x42, 3, 1, 0xAA, 0xBB]).unwrap();
    assert_eq!(r.status, 3);
    assert_eq!(r.payload, vec![0xAA]);
}

#[test]
fn parse_response_rejects_short_bodies() {
    assert_eq!(parse_response(&[1, 2, 3]).err(), Some(E_FAIL));
    assert_eq!(parse_response(&[6, 0, 1, 0x42, 0, 3, 0xAA]).err(), Some(E_FAIL));
    assert!(parse_response(&[6, 0, 1, 0x42, 0, 0]).is_ok());
}

#[test]
fn reply_after_noise_is_first_report() {
    let mut stream = vec![0x00, 0xD0, 0x42, 0xFF];
    stream.extend(encode_frame(7, 0x42, &[0xE0]));
    stream.extend(encode_frame(8, 0x43, &[]));
    let frames = decode_all(&stream);
    assert_eq!(frames[0], Ok(vec![0x06, 0x00, 0x07, 0x42, 0x01, 0xE0]));
}
