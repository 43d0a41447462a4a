use std::cell::RefCell;

use affine_io::aime::{
    CachedCard, LinkReply, ReaderState, SG_CMD_EXT_BOARD_INFO, SG_CMD_EXT_LED_RGB, SG_CMD_FELICA_ENCAP,
    SG_CMD_GET_FW_VERSION, SG_CMD_GET_HW_VERSION, SG_CMD_MIFARE_AUTH_AIME, SG_CMD_MIFARE_AUTH_BANA,
    SG_CMD_MIFARE_READ_BLOCK, SG_CMD_MIFARE_SELECT, SG_CMD_MIFARE_SET_KEY_AIME, SG_CMD_MIFARE_SET_KEY_BANA,
    SG_CMD_POLL, SG_CMD_RADIO_OFF, SG_CMD_RADIO_ON, SG_CMD_SEND_HEX_DATA, SG_CMD_TO_UPDATE_MODE,
};
use affine_io::sega::{encode_frame, SegaDecoder, SegaEvent};
use affine_io::types::{E_FAIL, E_INVALIDARG, S_FALSE, S_OK};

/// The body of a reply frame: length, address, sequence, command, status,
/// payload length, payload.
fn reply(cmd: u8, status: u8, payload: &[u8]) -> Vec<u8> {
    let mut body = vec![(6 + payload.len()) as u8, 0, 0, cmd, status, payload.len() as u8];
    body.extend_from_slice(payload);
    body
}

/// Decodes a request frame back into its body.
fn request_body(frame: &[u8]) -> Vec<u8> {
    let mut decoder = SegaDecoder::new();
    for &b in frame {
        if let SegaEvent::Frame(body) = decoder.push(b) {
            return body;
        }
    }
    panic!("no frame in request");
}

/// A fake reader: answers each request with the reply the script gives for
/// its command, and records the requests.
struct FakeReader {
    sent: RefCell<Vec<Vec<u8>>>,
}

impl FakeReader {
    fn new() -> Self {
        FakeReader { sent: RefCell::new(Vec::new()) }
    }

    fn link<'a>(&'a self, script: &'a dyn Fn(u8, &[u8]) -> LinkReply) -> impl Fn(&[u8]) -> LinkReply + 'a {
        move |frame: &[u8]| {
            self.sent.borrow_mut().push(frame.to_vec());
            let body = request_body(frame);
            script(body[3], &body[5..])
        }
    }

    fn sent(&self) -> Vec<Vec<u8>> {
        self.sent.borrow().clone()
    }
}

fn mifare_poll_payload(uid: [u8; 4]) -> Vec<u8> {
    vec![1, 0x10, 4, uid[0], uid[1], uid[2], uid[3]]
}

fn felica_poll_payload(idm: [u8; 8], pmm: [u8; 8]) -> Vec<u8> {
    let mut p = vec![1, 0x20, 16];
    p.extend_from_slice(&idm);
    p.extend_from_slice(&pmm);
    p
}

#[test]
fn init_fails_when_not_connected() {
    let fake = FakeReader::new();
    let script = |_cmd: u8, _p: &[u8]| LinkReply::Failed;
    let link = fake.link(&script);
    let mut reader = ReaderState::new();
    let (code, fw, hw) = reader.init(false, &link);
    assert_eq!(code, E_FAIL);
    assert!(fw.is_none() && hw.is_none());
    assert!(!reader.initialized);
    assert_eq!(reader.seq, 0);
    assert!(fake.sent().is_empty());
}

#[test]
fn init_asks_versions_and_board_info_in_order() {
    let fake = FakeReader::new();
    let script = |cmd: u8, _p: &[u8]| match cmd {
        SG_CMD_GET_FW_VERSION => LinkReply::Reply(reply(cmd, 0, b"TN32MSEC003S F/W Ver1.2")),
        SG_CMD_GET_HW_VERSION => LinkReply::Reply(reply(cmd, 0, b"TN32MSEC003S H/W Ver3.0")),
        _ => LinkReply::Reply(reply(cmd, 0, &[])),
    };
    let link = fake.link(&script);
    let mut reader = ReaderState::new();
    let (code, fw, hw) = reader.init(true, &link);
    assert_eq!(code, S_OK);
    assert_eq!(fw, Some(b"TN32MSEC003S F/W Ver1.2".to_vec()));
    assert_eq!(hw, Some(b"TN32MSEC003S H/W Ver3.0".to_vec()));
    assert!(reader.initialized);
    assert_eq!(reader.seq, 3);
    let sent = fake.sent();
    assert_eq!(sent.len(), 3);
    assert_eq!(sent[0], encode_frame(0, SG_CMD_GET_FW_VERSION, &[]));
    assert_eq!(sent[1], encode_frame(1, SG_CMD_GET_HW_VERSION, &[]));
    assert_eq!(sent[2], encode_frame(2, SG_CMD_EXT_BOARD_INFO, &[]));

    // A second introduction sends nothing.
    let (code, fw, hw) = reader.init(true, &link);
    assert_eq!(code, S_OK);
    assert!(fw.is_none() && hw.is_none());
    assert_eq!(reader.seq, 3);
    assert_eq!(fake.sent().len(), 3);
}

#[test]
fn init_succeeds_even_when_replies_fail() {
    let fake = FakeReader::new();
    let script = |_cmd: u8, _p: &[u8]| LinkReply::Failed;
    let link = fake.link(&script);
    let mut reader = ReaderState::new();
    let (code, fw, hw) = reader.init(true, &link);
    assert_eq!(code, S_OK);
    assert!(fw.is_none() && hw.is_none());
    assert!(reader.initialized);
    assert_eq!(reader.seq, 3);
}

#[test]
fn poll_mifare_card_then_read_uid() {
    let fake = FakeReader::new();
    let script = |cmd: u8, _p: &[u8]| LinkReply::Reply(reply(cmd, 0, &mifare_poll_payload([0xDE, 0xAD, 0xBE, 0xEF])));
    let link = fake.link(&script);
    let mut reader = ReaderState::new();
    assert_eq!(reader.poll(&link, 0), S_OK);
    assert!(matches!(reader.card, CachedCard::Mifare { uid: [0xDE, 0xAD, 0xBE, 0xEF] }));
    assert_eq!(fake.sent()[0], encode_frame(0, SG_CMD_POLL, &[]));

    let mut uid = [0u8; 4];
    assert_eq!(reader.get_mifare_uid(0, &mut uid), S_OK);
    assert_eq!(uid, [0xDE, 0xAD, 0xBE, 0xEF]);

    let mut idm = 7u64;
    assert_eq!(reader.get_felica_id(0, &mut idm), S_FALSE);
    assert_eq!(idm, 7);

    let mut short = [0u8; 3];
    assert_eq!(reader.get_mifare_uid(0, &mut short), E_INVALIDARG);
    assert_eq!(short, [0, 0, 0]);
    assert_eq!(reader.get_mifare_uid(1, &mut uid), S_FALSE);
}

#[test]
fn poll_felica_card_gives_big_endian_idm() {
    let fake = FakeReader::new();
    let idm = [0x01, 0x2E, 0x45, 0x67, 0x89, 0xAB, 0xCD, 0xEF];
    let pmm = [0x10, 0x0B, 0x4B, 0x42, 0x84, 0x85, 0xD0, 0xFF];
    let script = move |cmd: u8, _p: &[u8]| LinkReply::Reply(reply(cmd, 0, &felica_poll_payload(idm, pmm)));
    let link = fake.link(&script);
    let mut reader = ReaderState::new();
    assert_eq!(reader.poll(&link, 0), S_OK);
    assert!(matches!(reader.card, CachedCard::Felica { .. }));
    let mut value = 0u64;
    assert_eq!(reader.get_felica_id(0, &mut value), S_OK);
    assert_eq!(value, 0x012E_4567_89AB_CDEF);
    let mut uid = [9u8; 4];
    assert_eq!(reader.get_mifare_uid(0, &mut uid), S_FALSE);
    assert_eq!(uid, [9, 9, 9, 9]);
    assert_eq!(reader.get_felica_id(1, &mut value), S_FALSE);
}

#[test]
fn poll_without_card() {
    let fake = FakeReader::new();
    let script = |cmd: u8, _p: &[u8]| LinkReply::Reply(reply(cmd, 0, &[0]));
    let link = fake.link(&script);
    let mut reader = ReaderState::new();
    reader.card = CachedCard::Mifare { uid: [1, 2, 3, 4] };
    assert_eq!(reader.poll(&link, 0), S_FALSE);
    assert!(matches!(reader.card, CachedCard::Absent));
}

#[test]
fn poll_unknown_card_type_is_no_card() {
    let fake = FakeReader::new();
    let script = |cmd: u8, _p: &[u8]| LinkReply::Reply(reply(cmd, 0, &[1, 0x30, 4, 1, 2, 3, 4]));
    let link = fake.link(&script);
    let mut reader = ReaderState::new();
    assert_eq!(reader.poll(&link, 0), S_FALSE);
    assert!(matches!(reader.card, CachedCard::Absent));
}

#[test]
fn poll_truncated_card_is_failure() {
    let fake = FakeReader::new();
    let script = |cmd: u8, _p: &[u8]| LinkReply::Reply(reply(cmd, 0, &[1, 0x10, 4, 1, 2]));
    let link = fake.link(&script);
    let mut reader = ReaderState::new();
    assert_eq!(reader.poll(&link, 0), E_FAIL);
    assert!(matches!(reader.card, CachedCard::Absent));

    let script = |cmd: u8, _p: &[u8]| LinkReply::Reply(reply(cmd, 0, &[1, 0x20, 16, 1, 2, 3]));
    let link = fake.link(&script);
    assert_eq!(reader.poll(&link, 0), E_FAIL);

    let script = |cmd: u8, _p: &[u8]| LinkReply::Reply(reply(cmd, 0, &[1, 0x10]));
    let link = fake.link(&script);
    assert_eq!(reader.poll(&link, 0), E_FAIL);
}

#[test]
fn poll_link_failures_keep_card() {
    let fake = FakeReader::new();
    let failed = |_cmd: u8, _p: &[u8]| LinkReply::Failed;
    let link = fake.link(&failed);
    let mut reader = ReaderState::new();
    reader.card = CachedCard::Mifare { uid: [1, 2, 3, 4] };
    assert_eq!(reader.poll(&link, 0), E_FAIL);
    assert!(matches!(reader.card, CachedCard::Mifare { uid: [1, 2, 3, 4] }));
    assert_eq!(reader.seq, 1);

    let absent = |_cmd: u8, _p: &[u8]| LinkReply::NotConnected;
    let link = fake.link(&absent);
    assert_eq!(reader.poll(&link, 0), E_FAIL);
    assert_eq!(reader.seq, 1);
    assert!(matches!(reader.card, CachedCard::Mifare { .. }));

    // A reply too short to hold a status.
    let short = |_cmd: u8, _p: &[u8]| LinkReply::Reply(vec![5, 0, 0, SG_CMD_POLL]);
    let link = fake.link(&short);
    assert_eq!(reader.poll(&link, 0), E_FAIL);
    assert_eq!(reader.seq, 2);
}

#[test]
fn other_units_do_nothing() {
    let fake = FakeReader::new();
    let script = |cmd: u8, _p: &[u8]| LinkReply::Reply(reply(cmd, 0, &[]));
    let link = fake.link(&script);
    let mut reader = ReaderState::new();
    assert_eq!(reader.poll(&link, 1), S_FALSE);
    assert_eq!(reader.radio_on(&link, 1), S_FALSE);
    assert_eq!(reader.radio_off(&link, 2), S_FALSE);
    assert_eq!(reader.mifare_select(&link, 1, &[1, 2, 3, 4]), S_FALSE);
    assert_eq!(reader.send_hex_data(&link, 1, &[1]), (S_FALSE, None));
    reader.led_set_color(&link, 1, [1, 2, 3]);
    assert_eq!(reader.seq, 0);
    assert!(fake.sent().is_empty());
}

#[test]
fn seq_wraps_after_255() {
    let fake = FakeReader::new();
    let script = |cmd: u8, _p: &[u8]| LinkReply::Reply(reply(cmd, 0, &[]));
    let link = fake.link(&script);
    let mut reader = ReaderState::new();
    reader.seq = 255;
    assert_eq!(reader.radio_on(&link, 0), S_OK);
    assert_eq!(reader.seq, 0);
    assert_eq!(fake.sent()[0], encode_frame(255, SG_CMD_RADIO_ON, &[]));
}

#[test]
fn get_aime_id_reads_block_two() {
    let fake = FakeReader::new();
    let block: Vec<u8> = (0u8..16).map(|i| 0x30 + i).collect();
    let block2 = block.clone();
    let script = move |cmd: u8, _p: &[u8]| LinkReply::Reply(reply(cmd, 0, &block2));
    let link = fake.link(&script);
    let mut reader = ReaderState::new();
    reader.card = CachedCard::Mifare { uid: [0x11, 0x22, 0x33, 0x44] };
    let mut luid = [0u8; 10];
    assert_eq!(reader.get_aime_id(&link, 0, &mut luid), S_OK);
    assert_eq!(&luid[..], &block[6..16]);
    assert_eq!(fake.sent()[0], encode_frame(0, SG_CMD_MIFARE_READ_BLOCK, &[0x11, 0x22, 0x33, 0x44, 2]));

    let mut wrong = [0u8; 9];
    assert_eq!(reader.get_aime_id(&link, 0, &mut wrong), E_INVALIDARG);

    reader.card = CachedCard::Absent;
    let mut untouched = [5u8; 10];
    assert_eq!(reader.get_aime_id(&link, 0, &mut untouched), S_FALSE);
    assert_eq!(untouched, [5u8; 10]);
    assert_eq!(fake.sent().len(), 1);
}

#[test]
fn get_aime_id_refused_or_short() {
    let fake = FakeReader::new();
    let refused = |cmd: u8, _p: &[u8]| LinkReply::Reply(reply(cmd, 1, &[0u8; 16]));
    let link = fake.link(&refused);
    let mut reader = ReaderState::new();
    reader.card = CachedCard::Mifare { uid: [1, 2, 3, 4] };
    let mut luid = [7u8; 10];
    assert_eq!(reader.get_aime_id(&link, 0, &mut luid), S_FALSE);
    assert_eq!(luid, [7u8; 10]);

    let short = |cmd: u8, _p: &[u8]| LinkReply::Reply(reply(cmd, 0, &[0u8; 15]));
    let link = fake.link(&short);
    assert_eq!(reader.get_aime_id(&link, 0, &mut luid), S_FALSE);

    let failed = |_cmd: u8, _p: &[u8]| LinkReply::Failed;
    let link = fake.link(&failed);
    assert_eq!(reader.get_aime_id(&link, 0, &mut luid), E_FAIL);
    assert_eq!(luid, [7u8; 10]);
}

#[test]
fn mifare_commands() {
    let fake = FakeReader::new();
    let script = |cmd: u8, _p: &[u8]| {
        let status = if cmd == SG_CMD_MIFARE_AUTH_BANA { 3 } else { 0 };
        LinkReply::Reply(reply(cmd, status, &[]))
    };
    let link = fake.link(&script);
    let mut reader = ReaderState::new();
    assert_eq!(reader.mifare_select(&link, 0, &[1, 2, 3]), E_INVALIDARG);
    assert_eq!(reader.mifare_select(&link, 0, &[1, 2, 3, 4]), S_OK);
    assert_eq!(reader.mifare_set_key(&link, 0, 0, &[1, 2, 3, 4, 5]), E_INVALIDARG);
    assert_eq!(reader.mifare_set_key(&link, 0, 0, &[1, 2, 3, 4, 5, 6]), S_OK);
    assert_eq!(reader.mifare_set_key(&link, 0, 1, &[1, 2, 3, 4, 5, 6]), S_OK);
    assert_eq!(reader.mifare_authenticate(&link, 0, 0, &[9, 9]), S_OK);
    assert_eq!(reader.mifare_authenticate(&link, 0, 1, &[9, 9]), S_FALSE);
    let sent = fake.sent();
    assert_eq!(sent.len(), 5);
    assert_eq!(sent[0], encode_frame(0, SG_CMD_MIFARE_SELECT, &[1, 2, 3, 4]));
    assert_eq!(sent[1], encode_frame(1, SG_CMD_MIFARE_SET_KEY_AIME, &[1, 2, 3, 4, 5, 6]));
    assert_eq!(sent[2], encode_frame(2, SG_CMD_MIFARE_SET_KEY_BANA, &[1, 2, 3, 4, 5, 6]));
    assert_eq!(sent[3], encode_frame(3, SG_CMD_MIFARE_AUTH_AIME, &[9, 9]));
    assert_eq!(sent[4], encode_frame(4, SG_CMD_MIFARE_AUTH_BANA, &[9, 9]));
}

#[test]
fn mifare_read_block_copies_sixteen_bytes() {
    let fake = FakeReader::new();
    let data: Vec<u8> = (100u8..120).collect();
    let data2 = data.clone();
    let script = move |cmd: u8, _p: &[u8]| LinkReply::Reply(reply(cmd, 0, &data2));
    let link = fake.link(&script);
    let mut reader = ReaderState::new();
    let mut block = [0u8; 16];
    assert_eq!(reader.mifare_read_block(&link, 0, &[1, 2, 3, 4], 1, &mut block), S_OK);
    assert_eq!(&block[..], &data[..16]);
    assert_eq!(fake.sent()[0], encode_frame(0, SG_CMD_MIFARE_READ_BLOCK, &[1, 2, 3, 4, 1]));
    let mut small = [0u8; 15];
    assert_eq!(reader.mifare_read_block(&link, 0, &[1, 2, 3, 4], 1, &mut small), E_INVALIDARG);
    assert_eq!(reader.mifare_read_block(&link, 0, &[1, 2, 3], 1, &mut block), E_INVALIDARG);
    assert_eq!(reader.mifare_read_block(&link, 1, &[1, 2, 3, 4], 1, &mut block), S_FALSE);
}

#[test]
fn felica_transact_copies_what_fits() {
    let fake = FakeReader::new();
    let script = |cmd: u8, p: &[u8]| {
        let mut answer = p.to_vec();
        answer.reverse();
        LinkReply::Reply(reply(cmd, 0, &answer))
    };
    let link = fake.link(&script);
    let mut reader = ReaderState::new();
    let mut res = [0xAAu8; 3];
    let mut written = 99usize;
    assert_eq!(reader.felica_transact(&link, 0, &[1, 2, 3, 4, 5], &mut res, &mut written), S_OK);
    assert_eq!(written, 3);
    assert_eq!(res, [5, 4, 3]);
    assert_eq!(fake.sent()[0], encode_frame(0, SG_CMD_FELICA_ENCAP, &[1, 2, 3, 4, 5]));

    let mut big = [0xAAu8; 6];
    assert_eq!(reader.felica_transact(&link, 0, &[1, 2], &mut big, &mut written), S_OK);
    assert_eq!(written, 2);
    assert_eq!(big, [2, 1, 0xAA, 0xAA, 0xAA, 0xAA]);

    let refused = |cmd: u8, _p: &[u8]| LinkReply::Reply(reply(cmd, 1, &[1, 2, 3]));
    let link = fake.link(&refused);
    let mut out = [0u8; 4];
    let mut n = 42usize;
    assert_eq!(reader.felica_transact(&link, 0, &[1], &mut out, &mut n), S_FALSE);
    assert_eq!(n, 42);
    assert_eq!(out, [0u8; 4]);
}

#[test]
fn radio_update_mode_hex_data_and_led() {
    let fake = FakeReader::new();
    let script = |cmd: u8, _p: &[u8]| {
        let status = if cmd == SG_CMD_SEND_HEX_DATA { 0x20 } else { 0 };
        LinkReply::Reply(reply(cmd, status, &[]))
    };
    let link = fake.link(&script);
    let mut reader = ReaderState::new();
    assert_eq!(reader.radio_on(&link, 0), S_OK);
    assert_eq!(reader.radio_off(&link, 0), S_OK);
    assert_eq!(reader.to_update_mode(&link, 0), S_OK);
    assert_eq!(reader.send_hex_data(&link, 0, &[0x3A, 0x31]), (S_FALSE, Some(0x20)));
    reader.led_set_color(&link, 0, [10, 20, 30]);
    let sent = fake.sent();
    assert_eq!(sent[0], encode_frame(0, SG_CMD_RADIO_ON, &[]));
    assert_eq!(sent[1], encode_frame(1, SG_CMD_RADIO_OFF, &[]));
    assert_eq!(sent[2], encode_frame(2, SG_CMD_TO_UPDATE_MODE, &[]));
    assert_eq!(sent[3], encode_frame(3, SG_CMD_SEND_HEX_DATA, &[0x3A, 0x31]));
    assert_eq!(sent[4], encode_frame(4, SG_CMD_EXT_LED_RGB, &[10, 20, 30]));
    assert_eq!(reader.seq, 5);

    let failed = |_cmd: u8, _p: &[u8]| LinkReply::Failed;
    let link = fake.link(&failed);
    assert_eq!(reader.send_hex_data(&link, 0, &[1]), (E_FAIL, None));
    assert_eq!(reader.radio_on(&link, 0), E_FAIL);
}

#[test]
fn apply_poll_passes_errors_through() {
    let mut reader = ReaderState::new();
    reader.card = CachedCard::Mifare { uid: [4, 3, 2, 1] };
    assert_eq!(reader.apply_poll(Err(E_FAIL)), E_FAIL);
    assert!(matches!(reader.card, CachedCard::Mifare { uid: [4, 3, 2, 1] }));
}
