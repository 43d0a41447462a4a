use affine_io::mai2::{
    billboard_payload, button_rgb_payload, led_billboard_set, led_board, led_gs_payload, led_gs_update, map_buttons,
    poll_update, same_bytes, KeyState, KeyboardConfig, Mai2InputPage, Mai2OutputPage, Mai2PollPage,
    MAI2_IO_OPBTN_COIN, MAI2_IO_OPBTN_SERVICE, MAI2_IO_OPBTN_TEST, VK_F1, VK_F2, VK_F3,
};

fn poll_page() -> Mai2PollPage {
    Mai2PollPage { opbtn: 0, player1_btn: 0, player2_btn: 0, affine_coin: 0, sequence: 0 }
}

fn no_keys() -> KeyState {
    KeyState { test: false, service: false, coin: false }
}

fn board(buttons0: u8, io_status: u8) -> Mai2InputPage {
    let mut p = Mai2InputPage::new();
    p.connected = 1;
    p.buttons0 = buttons0;
    p.io_status = io_status;
    p
}

#[test]
fn map_buttons_adds_select_from_status_bit0() {
    assert_eq!(map_buttons(0xAB, 0x01), 0x1AB);
    assert_eq!(map_buttons(0x12, 0x3E), 0x12);
    assert_eq!(map_buttons(0xFF, 0xFF), 0x1FF);
    assert_eq!(map_buttons(0, 0), 0);
}

#[test]
fn coin_counts_once_per_press() {
    let mut poll = poll_page();
    let p2 = Mai2InputPage::new();
    let pressed = board(0, 0x08);
    poll_update(&mut poll, &pressed, &p2, no_keys());
    assert_eq!(poll.opbtn, MAI2_IO_OPBTN_COIN);
    assert_eq!(poll.affine_coin, 1);
    poll_update(&mut poll, &pressed, &p2, no_keys());
    assert_eq!(poll.opbtn, 0);
    assert_eq!(poll.affine_coin, 1);
    let released = board(0, 0);
    poll_update(&mut poll, &released, &p2, no_keys());
    assert_eq!(poll.opbtn, 0);
    assert_eq!(poll.affine_coin, 0);
    // The coin key counts the same way.
    let keys = KeyState { test: false, service: false, coin: true };
    poll_update(&mut poll, &released, &p2, keys);
    assert_eq!(poll.opbtn, MAI2_IO_OPBTN_COIN);
    poll_update(&mut poll, &released, &p2, keys);
    assert_eq!(poll.opbtn, 0);
    assert_eq!(poll.sequence, 5);
}

#[test]
fn test_and_service_from_either_board_or_keys() {
    let mut poll = poll_page();
    let p1 = board(0, 0x02);
    let p2 = board(0, 0x04);
    poll_update(&mut poll, &p1, &p2, no_keys());
    assert_eq!(poll.opbtn, MAI2_IO_OPBTN_TEST | MAI2_IO_OPBTN_SERVICE);
    // Player 2's coin bit does not count.
    let p2_coin = board(0, 0x08);
    let idle = board(0, 0);
    poll_update(&mut poll, &idle, &p2_coin, no_keys());
    assert_eq!(poll.opbtn, 0);
    let keys = KeyState { test: true, service: true, coin: false };
    poll_update(&mut poll, &idle, &idle, keys);
    assert_eq!(poll.opbtn, MAI2_IO_OPBTN_TEST | MAI2_IO_OPBTN_SERVICE);
    // A disconnected board's status bits are ignored.
    let mut gone = board(0x55, 0x0F);
    gone.connected = 0;
    poll_update(&mut poll, &gone, &gone, no_keys());
    assert_eq!(poll.opbtn, 0);
    assert_eq!(poll.player1_btn, 0);
    assert_eq!(poll.player2_btn, 0);
}

#[test]
fn players_buttons_are_mapped() {
    let mut poll = poll_page();
    let p1 = board(0x81, 0x01);
    let p2 = board(0x7E, 0x00);
    poll_update(&mut poll, &p1, &p2, no_keys());
    assert_eq!(poll.player1_btn, 0x181);
    assert_eq!(poll.player2_btn, 0x07E);
}

#[test]
fn keyboard_config() {
    let k = KeyboardConfig::new();
    assert_eq!((k.vk_test, k.vk_service, k.vk_coin), (VK_F1, VK_F2, VK_F3));
    assert_eq!((VK_F1, VK_F2, VK_F3), (0x70, 0x71, 0x72));
    let k = KeyboardConfig::from_config(0x1_0031, 0x32, 0x33);
    assert_eq!((k.vk_test, k.vk_service, k.vk_coin), (0x31, 0x32, 0x33));
}

fn gs_request() -> Vec<u8> {
    let mut rgb = vec![0u8; 32];
    rgb[0..4].copy_from_slice(&[10, 20, 30, 0]);
    rgb[4..8].copy_from_slice(&[40, 50, 60, 5]);
    rgb
}

#[test]
fn led_gs_payload_fades_from_previous_target() {
    let mut latch = [0u8; 24];
    latch[3..6].copy_from_slice(&[1, 2, 3]);
    let payload = led_gs_payload(&mut latch, &gs_request());
    assert_eq!(&payload[0..7], &[10, 20, 30, 10, 20, 30, 0]);
    assert_eq!(&payload[7..14], &[1, 2, 3, 40, 50, 60, 5]);
    assert_eq!(&payload[14..21], &[0, 0, 0, 0, 0, 0, 0]);
    assert_eq!(&latch[0..6], &[10, 20, 30, 40, 50, 60]);
    assert_eq!(&latch[6..], &[0u8; 18]);
    let targets = button_rgb_payload(&payload);
    assert_eq!(targets, latch);
}

#[test]
fn led_gs_update_counts_changes_only() {
    let mut latch = [0u8; 24];
    let mut page = Mai2OutputPage::new(true);
    let rgb = gs_request();
    led_gs_update(&mut latch, &mut page, &rgb);
    assert_eq!(page.buttons_sequence, 1);
    assert_eq!(&page.buttons[7..14], &[0, 0, 0, 40, 50, 60, 5]);
    // The second time button 1 fades from its previous target.
    led_gs_update(&mut latch, &mut page, &rgb);
    assert_eq!(page.buttons_sequence, 2);
    assert_eq!(&page.buttons[7..14], &[40, 50, 60, 40, 50, 60, 5]);
    // Now nothing changes.
    led_gs_update(&mut latch, &mut page, &rgb);
    assert_eq!(page.buttons_sequence, 2);
    // Short requests are ignored.
    let before = page.buttons;
    led_gs_update(&mut latch, &mut page, &rgb[..31]);
    assert_eq!(page.buttons, before);
    assert_eq!(page.buttons_sequence, 2);
    assert_eq!(page.billboard_sequence, 0);
    assert_eq!(page.touch_enabled, 1);
}

#[test]
fn billboard_takes_first_colour() {
    let payload = billboard_payload(&[7, 8, 9, 100, 100, 100]);
    for i in 0..8 {
        assert_eq!(&payload[3 * i..3 * i + 3], &[7, 8, 9]);
    }
    let mut page = Mai2OutputPage::new(false);
    led_billboard_set(&mut page, &[7, 8, 9]);
    assert_eq!(page.billboard, payload);
    assert_eq!(page.billboard_sequence, 1);
    led_billboard_set(&mut page, &[7, 8, 9, 1]);
    assert_eq!(page.billboard_sequence, 1);
    led_billboard_set(&mut page, &[7, 8]);
    assert_eq!(page.billboard_sequence, 1);
    assert_eq!(page.touch_enabled, 0);
}

#[test]
fn output_page_setters() {
    let mut page = Mai2OutputPage::new(true);
    page.set_pwm([1, 2, 3]);
    assert_eq!(page.pwm, [1, 2, 3]);
    assert_eq!(page.pwm_sequence, 1);
    page.set_pwm([1, 2, 3]);
    assert_eq!(page.pwm_sequence, 1);
    page.set_touch_enabled(false);
    assert_eq!(page.touch_enabled, 0);
    page.set_buttons([0u8; 56]);
    assert_eq!(page.buttons_sequence, 0);
    page.set_billboard([1u8; 24]);
    assert_eq!(page.billboard_sequence, 1);
}

#[test]
fn led_board_and_same_bytes() {
    assert_eq!(led_board(0, 32, 32), Some(0));
    assert_eq!(led_board(1, 100, 32), Some(1));
    assert_eq!(led_board(2, 100, 32), None);
    assert_eq!(led_board(1, 31, 32), None);
    assert!(same_bytes(&[1, 2, 3], &[1, 2, 3]));
    assert!(!same_bytes(&[1, 2, 3], &[1, 2, 4]));
    assert!(!same_bytes(&[1, 2], &[1, 2, 3]));
    assert!(same_bytes(&[], &[]));
}

use affine_io::led_probe::{LedProbeBoard, ZeroHint};

#[test]
fn led_probe_reports_changed_requests() {
    let mut probe = LedProbeBoard::new();
    let mut fading = [0u8; 32];
    fading[4..8].copy_from_slice(&[1, 2, 3, 5]);
    let r = probe.observe(100, fading).expect("first request is reported");
    assert_eq!((r.sequence, r.dt_ms, r.zero, r.fade), (1, None, 7, 1));
    assert!(matches!(r.hint, ZeroHint::NoneYet));
    assert!(probe.observe(150, fading).is_none());
    assert_eq!(probe.last_ms, 100);

    let mut jump = [0u8; 32];
    jump[0..3].copy_from_slice(&[9, 9, 9]);
    let r = probe.observe(200, jump).expect("changed request is reported");
    assert_eq!((r.sequence, r.dt_ms, r.zero, r.fade), (2, Some(100), 8, 0));
    assert!(matches!(r.hint, ZeroHint::NoHint));

    let r = probe.observe(260, fading).expect("changed request is reported");
    assert_eq!((r.sequence, r.dt_ms), (3, Some(60)));
    match r.hint {
        ZeroHint::Last { dt_ms, payload } => {
            assert_eq!(dt_ms, 60);
            assert_eq!(payload, jump);
        },
        _ => panic!("expected the last all-jump request"),
    }
    assert_eq!(r.payload, fading);
}

use affine_io::led_probe::{format_led_probe_rgb, format_led_probe_rgbs};

#[test]
fn led_probe_colour_text() {
    let mut payload = [0u8; 32];
    payload[0..4].copy_from_slice(&[0xAB, 0x01, 0xFF, 0x10]);
    payload[28..32].copy_from_slice(&[1, 2, 3, 4]);
    let mut out = String::from("rgbs=[");
    format_led_probe_rgbs(&mut out, &payload);
    assert_eq!(
        out,
        "rgbs=[0:AB01FF/s10 1:000000/s00 2:000000/s00 3:000000/s00 4:000000/s00 5:000000/s00 6:000000/s00 7:010203/s04"
    );
    let mut plain = String::new();
    format_led_probe_rgb(&mut plain, &payload);
    assert_eq!(plain, "0:AB01FF 1:000000 2:000000 3:000000 4:000000 5:000000 6:000000 7:010203");
}

use affine_io::digits::{dec_padded, dec_string, hex2_string};
use affine_io::led_probe::probe_line;
use affine_io::mercury::MercuryStatePage;
use affine_io::slider::{SliderPacket, SLIDER_CMD_AUTO_SCAN};
use affine_io::touch_diag::{diag_led_line, diag_link_line, diag_rate_line, DiagCounters, DiagLink};

#[test]
fn number_text() {
    assert_eq!(dec_string(0), "0");
    assert_eq!(dec_string(1234567890), "1234567890");
    assert_eq!(dec_string(u64::MAX), u64::MAX.to_string());
    assert_eq!(dec_padded(42, 6), "000042");
    assert_eq!(dec_padded(1234567, 6), "1234567");
    assert_eq!(hex2_string(0x0A), "0A");
    assert_eq!(hex2_string(0xF1), "F1");
}

#[test]
fn led_probe_line_text() {
    let mut probe = LedProbeBoard::new();
    let mut fading = [0u8; 32];
    fading[4..8].copy_from_slice(&[1, 2, 3, 5]);
    let r = probe.observe(100, fading).unwrap();
    assert_eq!(
        probe_line(1, &r),
        "P1 LedProbe#000001 dt=first zero=7 fade=1 rgbs=[0:000000/s00 1:010203/s05 2:000000/s00 3:000000/s00 4:000000/s00 5:000000/s00 6:000000/s00 7:000000/s00] last_zero=none"
    );
    let jump = [0u8; 32];
    let r = probe.observe(200, jump).unwrap();
    assert_eq!(
        probe_line(2, &r),
        "P2 LedProbe#000002 dt=100ms zero=8 fade=0 rgbs=[0:000000/s00 1:000000/s00 2:000000/s00 3:000000/s00 4:000000/s00 5:000000/s00 6:000000/s00 7:000000/s00]"
    );
    let r = probe.observe(260, fading).unwrap();
    assert!(probe_line(1, &r).ends_with(
        " last_zero_dt=60ms last_zero=[0:000000 1:000000 2:000000 3:000000 4:000000 5:000000 6:000000 7:000000]"
    ));
}

fn counters(base: u64) -> DiagCounters {
    DiagCounters {
        touch_frames: base + 1,
        serial_frames: base + 2,
        touch_hid_frames: base + 3,
        callback_frames: base + 4,
        heartbeat_writes: base + 5,
        heartbeat_failures: base + 6,
        led_writes: base + 7,
        led_button_writes: base + 8,
        led_billboard_writes: base + 9,
        led_pwm_writes: base + 10,
        led_failures: base + 11,
        serial_reconnects: base + 12,
        vendor_reconnects: base + 13,
    }
}

#[test]
fn touch_diag_lines() {
    let prev = counters(0);
    let cur = counters(100);
    let link = DiagLink { buttons_hid: true, vendor_hid: false, touch_hid: true, led_suspended: false, last_update_ms: 900 };
    assert_eq!(
        diag_link_line(1, &cur, &link, 1_000),
        "P1 diag link  buttons_hid=1 vendor_hid=0 touch_hid=1 suspend=0 reconn=s112/v113 last_update=100ms"
    );
    let never = DiagLink { last_update_ms: 0, ..link };
    assert!(diag_link_line(2, &cur, &never, 1_000).ends_with("last_update=never"));
    assert_eq!(
        diag_rate_line(2, &cur, &prev),
        "P2 diag rate  touch=101 (+100) cdc=102 (+100) touch_hid=103 (+100) cb=104 (+100) hb=105 (+100) hb_fail=106"
    );
    assert_eq!(
        diag_led_line(1, &cur, &prev, [0x00, 0x1F, 0xA0, 1, 2, 3, 0xFF]),
        "P1 diag led   set=107 (+100) btn=108 (+100) bb=109 (+100) pwm=110 (+100) fail=111 | touch=00 1F A0 01 02 03 FF"
    );
    // A counter that went backwards shows no growth.
    assert!(diag_rate_line(1, &prev, &cur).contains("touch=1 (+0)"));
}

#[test]
fn mercury_scan_keeps_buttons() {
    let mut state = MercuryStatePage::new();
    state.opbtn = 3;
    state.gamebtn = 5;
    assert!(state.handle_packet(&SliderPacket { cmd: SLIDER_CMD_AUTO_SCAN, payload: vec![0xFF; 30] }).is_some());
    assert_eq!((state.opbtn, state.gamebtn), (3, 5));
}
