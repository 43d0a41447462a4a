use affine_io::mai2::{Mai2InputPage, Mai2OutputPage};
use affine_io::mai2_device::{
    button_report, frame_inputs, heartbeat_due, hid_interface_matches, rx_push, touch_guard, touch_serial_age_ms,
    apply_device_frame, diag_due, BoardInfoState, HidInterfaceInfo, LedKind, TouchCounters, TouchSource, LedSequences, LedWatch, ScanLog, TouchGuard, MAI2_BUTTON_HID_USAGE, MAI2_BUTTON_HID_USAGE_PAGE,
    MAI2_VENDOR_HID_USAGE,
};
use affine_io::mai2_link::{AFFINE_CMD_SET_BILLBOARD, AFFINE_CMD_SET_BUTTON_LEDS, AFFINE_CMD_SET_PWM};
use affine_io::touch_hid::{pack_legacy_touch_bits, parse_touch_hid_part, TouchHidAssembler, TouchHidPart};

fn touch_report(seq: u8, index: u8, count: u8, contacts: u8, flags: u8, bits: [u8; 5]) -> Vec<u8> {
    let mut r = vec![0u8; 64];
    r[0] = 0x31;
    r[1] = 1;
    r[2] = 1;
    r[3] = seq;
    r[4] = index;
    r[5] = count;
    r[7] = contacts;
    r[12] = flags;
    r[50..55].copy_from_slice(&bits);
    r
}

fn part(seq: u8, index: u8, bits: [u8; 5]) -> TouchHidPart {
    TouchHidPart { stream_seq: seq, part_index: index, part_count: 2, touch_bits: bits }
}

#[test]
fn touch_report_parsing() {
    let r = touch_report(9, 1, 2, 3, 0x04, [1, 2, 3, 4, 5]);
    let p = parse_touch_hid_part(&r).expect("valid part");
    assert_eq!((p.stream_seq, p.part_index, p.part_count, p.touch_bits), (9, 1, 2, [1, 2, 3, 4, 5]));
    // With a leading byte before the report id.
    let mut lead = vec![0u8];
    lead.extend(&r);
    let p = parse_touch_hid_part(&lead).expect("valid part");
    assert_eq!(p.touch_bits, [1, 2, 3, 4, 5]);
    // Too short, wrong format, not a two-part frame, bad index, no contacts,
    // too many contacts, touch not valid.
    assert!(parse_touch_hid_part(&r[..63]).is_none());
    let mut bad = r.clone();
    bad[1] = 2;
    assert!(parse_touch_hid_part(&bad).is_none());
    assert!(parse_touch_hid_part(&touch_report(9, 0, 3, 3, 0x04, [0; 5])).is_none());
    assert!(parse_touch_hid_part(&touch_report(9, 2, 2, 3, 0x04, [0; 5])).is_none());
    assert!(parse_touch_hid_part(&touch_report(9, 0, 2, 0, 0x04, [0; 5])).is_none());
    assert!(parse_touch_hid_part(&touch_report(9, 0, 2, 18, 0x04, [0; 5])).is_none());
    assert!(parse_touch_hid_part(&touch_report(9, 0, 2, 17, 0xFB, [0; 5])).is_none());
    assert!(parse_touch_hid_part(&[0x30; 64]).is_none());
}

#[test]
fn legacy_touch_layout() {
    assert_eq!(pack_legacy_touch_bits(&[0xFF, 0xFF, 0xFF, 0xFF, 0x03]), [0x1F, 0x1F, 0x1F, 0x1F, 0x1F, 0x1F, 0x0F]);
    assert_eq!(pack_legacy_touch_bits(&[0x01, 0, 0, 0, 0]), [0x01, 0, 0, 0, 0, 0, 0]);
    assert_eq!(pack_legacy_touch_bits(&[0x20, 0, 0, 0, 0]), [0, 0x01, 0, 0, 0, 0, 0]);
    assert_eq!(pack_legacy_touch_bits(&[0, 0x01, 0, 0, 0]), [0, 0x08, 0, 0, 0, 0, 0]);
    assert_eq!(pack_legacy_touch_bits(&[0, 0, 0, 0, 0x02]), [0, 0, 0, 0, 0, 0, 0x08]);
    // Bits past the 34th sensor are dropped.
    assert_eq!(pack_legacy_touch_bits(&[0, 0, 0, 0, 0xFC]), [0; 7]);
}

#[test]
fn assembler_delivers_frame_once() {
    let mut a = TouchHidAssembler::new();
    assert!(a.push(part(7, 0, [1, 0, 0, 0, 0])).is_none());
    assert_eq!(a.push(part(7, 1, [0x20, 0, 0, 0, 0])), Some([0, 1, 0, 0, 0, 0, 0]));
    assert_eq!(a.part_mask, 0);
    // Parts in the other order.
    assert!(a.push(part(8, 1, [0, 0, 0, 0, 0])).is_none());
    assert_eq!(a.push(part(8, 0, [1, 0, 0, 0, 0])), Some([1, 0, 0, 0, 0, 0, 0]));
}

#[test]
fn assembler_restarts_on_new_stream_seq() {
    let mut a = TouchHidAssembler::new();
    assert!(a.push(part(7, 0, [0; 5])).is_none());
    assert!(a.push(part(8, 1, [0; 5])).is_none());
    assert_eq!(a.push(part(8, 0, [0xFF; 5])), Some([0x1F, 0x1F, 0x1F, 0x1F, 0x1F, 0x1F, 0x0F]));
    // The same part twice does not complete a frame.
    assert!(a.push(part(9, 0, [0; 5])).is_none());
    assert!(a.push(part(9, 0, [0; 5])).is_none());
    assert!(a.push(part(9, 1, [0; 5])).is_some());
    // Parts of frames that are not two-part are ignored.
    let odd = TouchHidPart { stream_seq: 10, part_index: 0, part_count: 3, touch_bits: [0; 5] };
    assert!(a.push(odd).is_none());
    assert_eq!(a.stream_seq, 9);
}

#[test]
fn input_page_updates() {
    let mut page = Mai2InputPage::new();
    page.apply_frame(Some(0x12), None, Some([1; 7]));
    assert_eq!((page.connected, page.buttons0, page.io_status, page.touch, page.sequence), (1, 0x12, 0, [1; 7], 1));
    page.apply_frame(None, Some(0x08), None);
    assert_eq!((page.buttons0, page.io_status, page.touch, page.sequence), (0x12, 0x08, [1; 7], 2));
    page.clear_dropped_inputs(true, true);
    assert_eq!(page.sequence, 2);
    page.clear_dropped_inputs(false, true);
    assert_eq!((page.buttons0, page.io_status, page.touch, page.sequence), (0, 0, [1; 7], 3));
    page.clear_dropped_inputs(false, true);
    assert_eq!(page.sequence, 3);
    page.clear_dropped_inputs(true, false);
    assert_eq!((page.touch, page.sequence), ([0; 7], 4));
    page.after_disconnect(true);
    assert_eq!((page.connected, page.sequence), (1, 5));
    page.after_disconnect(false);
    assert_eq!((page.connected, page.buttons0, page.sequence), (0, 0, 0));
    page.mark_connected();
    assert_eq!((page.connected, page.sequence), (1, 1));
}

#[test]
fn frame_inputs_leave_buttons_to_hid() {
    assert_eq!(frame_inputs(Some(1), Some(2), Some([3; 7]), false), (Some(1), Some(2), Some([3; 7])));
    assert_eq!(frame_inputs(Some(1), Some(2), Some([3; 7]), true), (None, None, Some([3; 7])));
}

#[test]
fn button_reports() {
    assert_eq!(button_report(&[0x81, 0x09, 0, 0], 2), Some((0x81, 0x09)));
    assert_eq!(button_report(&[0x81, 0x09], 1), None);
    assert_eq!(button_report(&[0x00, 0xFF], 2), None);
    assert_eq!(button_report(&[0xA5, 0x5A], 2), None);
    assert_eq!(button_report(&[0xA5, 0x3F], 2), Some((0xA5, 0x3F)));
}

#[test]
fn touch_staleness() {
    assert_eq!(touch_serial_age_ms(1_000, 1_250, 500), Some(250));
    assert_eq!(touch_serial_age_ms(0, 1_250, 500), Some(750));
    assert_eq!(touch_serial_age_ms(0, 1_250, 0), None);
    assert_eq!(touch_serial_age_ms(2_000, 1_000, 0), Some(0));

    let g = touch_guard(1, 1_000, 3_999, Some(5_000));
    assert!(!g.protect && !g.stale && !g.reconnect);
    let g = touch_guard(1, 1_000, 4_000, Some(300));
    assert!(g.protect && g.stale && !g.reconnect);
    let g = touch_guard(1, 1_000, 4_000, Some(1_000));
    assert!(g.protect && g.stale && g.reconnect);
    let g = touch_guard(1, 1_000, 4_000, Some(299));
    assert!(g.protect && !g.stale && !g.reconnect);
    let g = touch_guard(0, 1_000, 9_000, Some(9_000));
    assert!(!g.protect && !g.stale && !g.reconnect);
    let g = touch_guard(1, 0, 9_000, Some(9_000));
    assert!(!g.protect);
    let g = touch_guard(1, 1_000, 9_000, None);
    assert!(g.protect && !g.stale && !g.reconnect);
}

#[test]
fn heartbeat_timing() {
    assert!(!heartbeat_due(1_099, 1_000));
    assert!(heartbeat_due(1_100, 1_000));
    assert!(!heartbeat_due(5, 1_000));
}

#[test]
fn board_info_requests() {
    let mut st = BoardInfoState::new(1_000);
    assert!(!st.request_due(1_499));
    assert!(st.request_due(1_500));
    assert!(!st.request_sent(1_500));
    assert_eq!(st.request_ms, 1_500);
    assert!(!st.request_due(2_499));
    assert!(st.request_due(2_500));
    assert!(!st.request_sent(2_500));
    assert!(st.request_due(3_500));
    assert!(!st.request_sent(3_500));
    assert!(st.request_due(4_500));
    // Past the give-up time the version is reported as unknown, once.
    assert!(st.request_sent(4_500));
    assert!(!st.pending && st.logged);
    assert!(!st.request_due(10_000));

    let mut st = BoardInfoState::new(0);
    st.answered();
    assert!(!st.pending && st.logged);
    assert!(!st.request_due(100_000));
}

#[test]
fn led_frames_in_order() {
    let mut out = Mai2OutputPage::new(true);
    let mut sent = LedSequences::new();
    assert!(sent.next_frame(&out, true).is_none());
    let mut buttons = [0u8; 56];
    buttons[3..6].copy_from_slice(&[7, 8, 9]);
    out.set_buttons(buttons);
    out.set_pwm([1, 2, 3]);
    out.set_billboard([5u8; 24]);

    let (kind, cmd, payload) = sent.next_frame(&out, true).expect("buttons due");
    assert!(kind == LedKind::Buttons);
    assert_eq!(cmd, AFFINE_CMD_SET_BUTTON_LEDS);
    assert_eq!(payload.len(), 24);
    assert_eq!(&payload[..6], &[7, 8, 9, 0, 0, 0]);
    // The vendor HID link sends the whole fades.
    let (_, _, whole) = sent.next_frame(&out, false).expect("buttons due");
    assert_eq!(whole, buttons.to_vec());
    sent.mark_sent(kind, &out);

    let (kind, cmd, payload) = sent.next_frame(&out, true).expect("billboard due");
    assert!(kind == LedKind::Billboard);
    assert_eq!(cmd, AFFINE_CMD_SET_BILLBOARD);
    assert_eq!(payload, vec![5u8; 24]);
    sent.mark_sent(kind, &out);

    let (kind, cmd, payload) = sent.next_frame(&out, true).expect("pwm due");
    assert!(kind == LedKind::Pwm);
    assert_eq!(cmd, AFFINE_CMD_SET_PWM);
    assert_eq!(payload, vec![1, 2, 3]);
    sent.mark_sent(kind, &out);
    assert!(sent.next_frame(&out, true).is_none());
}

#[test]
fn rx_push_wraps_when_full() {
    let mut buf = [0u8; 3];
    let mut len = 0usize;
    rx_push(&mut buf, &mut len, 1);
    rx_push(&mut buf, &mut len, 2);
    rx_push(&mut buf, &mut len, 3);
    assert_eq!((len, buf), (3, [1, 2, 3]));
    rx_push(&mut buf, &mut len, 4);
    assert_eq!(len, 1);
    assert_eq!(buf[0], 4);
}

#[test]
fn hid_interface_selection() {
    let info = HidInterfaceInfo { vendor_id: 0xAFF1, product_id: 0x52A5, usage_page: 0xFFCA, usage: 1 };
    assert!(hid_interface_matches(&info, 0xAFF1, 0x52A5, MAI2_BUTTON_HID_USAGE_PAGE, MAI2_BUTTON_HID_USAGE));
    assert!(!hid_interface_matches(&info, 0xAFF1, 0x52A5, MAI2_BUTTON_HID_USAGE_PAGE, MAI2_VENDOR_HID_USAGE));
    assert!(!hid_interface_matches(&info, 0xAFF1, 0x52A6, MAI2_BUTTON_HID_USAGE_PAGE, MAI2_BUTTON_HID_USAGE));
}

fn guard(stale: bool, reconnect: bool) -> TouchGuard {
    TouchGuard { protect: stale || reconnect, stale, reconnect }
}

#[test]
fn led_watch_pauses_and_resumes() {
    let mut w = LedWatch::new(10);
    let a = w.check(10, guard(false, false));
    assert!(a.write_leds && !a.recovered && !a.log_stale && !a.reconnect);
    // Touch goes stale: LEDs pause, logged once.
    let a = w.check(10, guard(true, false));
    assert!(!a.write_leds && a.log_stale && !a.recovered);
    assert!(w.suspended);
    let a = w.check(10, guard(true, false));
    assert!(!a.write_leds && !a.log_stale);
    // The guard clears but no touch frame came: still paused.
    let a = w.check(10, guard(false, false));
    assert!(!a.write_leds && !a.recovered);
    // A touch frame arrives: recovery is logged and LEDs are written again.
    let a = w.check(11, guard(false, false));
    assert!(a.write_leds && a.recovered);
    assert!(!w.suspended);
    // A stall calls for a reconnect.
    let a = w.check(11, guard(true, true));
    assert!(a.reconnect && !a.write_leds && a.log_stale);
}

#[test]
fn scan_failures_logged_once() {
    let mut log = ScanLog::new();
    assert!(log.failed(0));
    assert!(!log.failed(0));
    assert!(log.failed(1));
    assert!(!log.failed(1));
    assert!(log.failed(0));
    log.passed();
    assert!(log.failed(0));
    assert_eq!(log.logged, [true, false, false]);
    assert!(log.failed(2));
    assert_eq!(log.logged, [false, false, true]);
}

#[test]
fn device_frames_count_touch_by_source() {
    let mut page = Mai2InputPage::new();
    let mut c = TouchCounters::new();
    apply_device_frame(&mut page, &mut c, Some(1), Some(2), Some([3; 7]), TouchSource::Serial, 100);
    assert_eq!((c.frames, c.serial_frames, c.hid_frames, c.last_update_ms), (1, 1, 0, 100));
    assert_eq!((page.buttons0, page.io_status, page.touch, page.sequence), (1, 2, [3; 7], 1));
    apply_device_frame(&mut page, &mut c, None, None, Some([4; 7]), TouchSource::TouchHid, 150);
    assert_eq!((c.frames, c.serial_frames, c.hid_frames, c.last_update_ms), (2, 1, 1, 150));
    apply_device_frame(&mut page, &mut c, None, None, Some([5; 7]), TouchSource::Synthetic, 170);
    assert_eq!((c.frames, c.serial_frames, c.hid_frames, c.last_update_ms), (3, 1, 1, 170));
    // A frame without touch bits counts nothing.
    apply_device_frame(&mut page, &mut c, Some(9), None, None, TouchSource::Serial, 200);
    assert_eq!((c.frames, c.serial_frames, c.hid_frames, c.last_update_ms), (3, 1, 1, 170));
    assert_eq!((page.buttons0, page.touch, page.sequence), (9, [5; 7], 4));
}

#[test]
fn diag_timing() {
    assert!(!diag_due(2_999, 1_000));
    assert!(diag_due(3_000, 1_000));
    assert!(!diag_due(10, 1_000));
}
