use affine_io::chuni::{chuni_pid_list, ChuniControlPage, ChuniLinkState, ChuniStatePage};
use affine_io::mercury::{mercury_pid_list, unpack_cells, MercuryControlPage, MercuryLinkState, MercuryStatePage};
use affine_io::slider::{
    encode_slider_frame, SliderPacket, SLIDER_CMD_AUTO_AIR, SLIDER_CMD_AUTO_AIR_START, SLIDER_CMD_AUTO_SCAN,
    SLIDER_CMD_AUTO_SCAN_START, SLIDER_CMD_AUTO_SCAN_STOP, SLIDER_CMD_SET_AIR_LED, SLIDER_CMD_SET_LED,
};
use affine_io::types::MercuryLedData;

#[test]
fn product_ids() {
    assert_eq!(chuni_pid_list(), vec![0x52A4, 0x52A7]);
    assert_eq!(mercury_pid_list(), vec![0x52A5]);
}

#[test]
fn chuni_touch_report_updates_pressure_and_beams() {
    let mut state = ChuniStatePage::new();
    let mut payload: Vec<u8> = (0u8..32).collect();
    payload.push(0x15);
    let got = state.handle_packet(&SliderPacket { cmd: SLIDER_CMD_AUTO_SCAN, payload });
    let expected: Vec<u8> = (0u8..32).collect();
    assert_eq!(got.map(|p| p.to_vec()), Some(expected.clone()));
    assert_eq!(state.pressure.to_vec(), expected);
    assert_eq!((state.beams, state.connected, state.sequence), (0x15, 1, 1));
    // A report without the beams byte keeps the beams.
    let got = state.handle_packet(&SliderPacket { cmd: SLIDER_CMD_AUTO_SCAN, payload: vec![9; 32] });
    assert_eq!(got, Some([9; 32]));
    assert_eq!((state.beams, state.sequence), (0x15, 2));
    assert_eq!(state.jvs_poll(), (0, 0x15));
    assert_eq!(state.coin_counter(), 0);
}

#[test]
fn chuni_air_report_and_ignored_packets() {
    let mut state = ChuniStatePage::new();
    assert_eq!(state.handle_packet(&SliderPacket { cmd: SLIDER_CMD_AUTO_AIR, payload: vec![0x3F, 1] }), None);
    assert_eq!((state.beams, state.connected, state.sequence), (0x3F, 1, 1));
    assert_eq!(state.handle_packet(&SliderPacket { cmd: SLIDER_CMD_AUTO_SCAN, payload: vec![1; 31] }), None);
    assert_eq!(state.handle_packet(&SliderPacket { cmd: SLIDER_CMD_AUTO_AIR, payload: vec![] }), None);
    assert_eq!(state.handle_packet(&SliderPacket { cmd: 0x09, payload: vec![1; 40] }), None);
    assert_eq!((state.beams, state.sequence), (0x3F, 1));
    state.mark_connected();
    assert_eq!(state.sequence, 2);
}

#[test]
fn chuni_control_and_frames() {
    let mut control = ChuniControlPage::new();
    let mut link = ChuniLinkState { last_active: false, last_slider_leds_sequence: 0, last_air_leds_sequence: 0 };
    assert!(link.frames(&control).is_empty());

    control.set_active(true);
    assert_eq!(
        link.frames(&control),
        vec![encode_slider_frame(SLIDER_CMD_AUTO_AIR_START, &[]), encode_slider_frame(SLIDER_CMD_AUTO_SCAN_START, &[])]
    );
    assert!(link.frames(&control).is_empty());

    let rgb: Vec<u8> = (0..200).map(|i| i as u8).collect();
    control.set_leds(&rgb[..95]);
    assert_eq!(control.slider_leds_sequence, 0);
    control.set_leds(&rgb);
    assert_eq!(control.slider_leds_sequence, 1);
    control.set_air_leds_from_colors(1, &rgb);
    control.set_air_leds_from_colors(0, &rgb[..152]);
    assert_eq!(control.air_leds_sequence, 0);
    control.set_air_leds_from_colors(0, &rgb);
    assert_eq!(control.air_leds, [152, 150, 151]);
    assert_eq!(
        link.frames(&control),
        vec![encode_slider_frame(SLIDER_CMD_SET_LED, &rgb[..96]), encode_slider_frame(SLIDER_CMD_SET_AIR_LED, &[152, 150, 151])]
    );

    control.set_active(false);
    assert_eq!(link.frames(&control), vec![encode_slider_frame(SLIDER_CMD_AUTO_SCAN_STOP, &[])]);

    // After a reconnect scanning is started again.
    control.set_active(true);
    link.frames(&control);
    link.connected();
    assert_eq!(link.frames(&control).len(), 2);
}

#[test]
fn mercury_cells() {
    let mut payload = vec![0u8; 30];
    payload[0] = 0b0000_0101;
    payload[29] = 0x80;
    let cells = unpack_cells(&payload);
    let set: Vec<usize> = (0..240).filter(|&k| cells[k]).collect();
    assert_eq!(set, vec![0, 2, 239]);

    let mut state = MercuryStatePage::new();
    let got = state.handle_packet(&SliderPacket { cmd: SLIDER_CMD_AUTO_SCAN, payload: payload.clone() });
    assert_eq!(got.map(|c| c.to_vec()), Some(cells.to_vec()));
    assert_eq!((state.cells[0], state.cells[1], state.cells[2], state.cells[239]), (1, 0, 1, 1));
    assert_eq!((state.connected, state.sequence), (1, 1));
    assert!(state.handle_packet(&SliderPacket { cmd: SLIDER_CMD_AUTO_SCAN, payload: vec![0xFF; 29] }).is_none());
    assert!(state.handle_packet(&SliderPacket { cmd: SLIDER_CMD_AUTO_AIR, payload: vec![0xFF; 30] }).is_none());
    assert_eq!(state.sequence, 1);
    assert_eq!((state.opbtns(), state.gamebtns()), (0, 0));
}

#[test]
fn mercury_control_and_frame() {
    let mut control = MercuryControlPage::new();
    let mut link = MercuryLinkState { last_active: false, last_leds_sequence: 0 };
    assert!(link.frame(&control).is_none());
    control.start();
    assert_eq!(link.frame(&control), Some(encode_slider_frame(SLIDER_CMD_AUTO_SCAN_START, &[])));
    assert!(link.frame(&control).is_none());
    let mut leds = MercuryLedData::new();
    leds.rgba[0] = 0xFF;
    control.set_leds(leds);
    assert_eq!(control.leds_sequence, 1);
    assert!(link.frame(&control).is_none());
    assert_eq!(link.last_leds_sequence, 1);
    link.connected();
    assert!(link.frame(&control).is_some());
}
