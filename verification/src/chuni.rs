//! The CHUNITHM slider runtime's state: what the slider reports (the state
//! page) and what the game asks of it (the control page), and what the
//! slider loop sends and does with each packet.
use vstd::prelude::*;
use crate::slider::{
    encode_slider_frame, slider_frame, SliderPacket, SLIDER_CMD_AUTO_AIR, SLIDER_CMD_AUTO_AIR_START,
    SLIDER_CMD_AUTO_SCAN, SLIDER_CMD_AUTO_SCAN_START, SLIDER_CMD_AUTO_SCAN_STOP, SLIDER_CMD_SET_AIR_LED,
    SLIDER_CMD_SET_LED,
};

verus! {

/// Vendor id of Affine devices.
pub const AFFINE_VID: u16 = 0xAFF1;

/// Product ids of the slider, in the order they are looked for.
pub open spec fn chuni_pids() -> Seq<u16> {
    seq![0x52A4u16, 0x52A7u16]
}

/// Product ids of the slider, in the order they are looked for.
pub fn chuni_pid_list() -> (pids: Vec<u16>)
    ensures
        pids@ == chuni_pids(),
{
    let mut v: Vec<u16> = Vec::new();
    v.push(0x52A4);
    v.push(0x52A7);
    assert(v@ =~= chuni_pids());
    v
}

/// What the slider reports: operator buttons, air-sensor beams, whether it
/// is connected, the coin counter, the 32 pressure values, and a counter of
/// updates.
#[derive(Clone, Copy)]
pub struct ChuniStatePage {
    pub opbtn: u8,
    pub beams: u8,
    pub connected: u8,
    pub coin_counter: u16,
    pub pressure: [u8; 32],
    pub sequence: u64,
}

/// What the game asks of the slider: whether it is scanning, the slider LED
/// colours and the air-tower LED colour, each with a counter of changes.
#[derive(Clone, Copy)]
pub struct ChuniControlPage {
    pub active: u8,
    pub slider_leds_sequence: u64,
    pub slider_leds: [u8; 96],
    pub air_leds_sequence: u64,
    pub air_leds: [u8; 3],
}

impl ChuniStatePage {
    /// The page of a slider that is not connected.
    pub fn new() -> (p: Self)
        ensures
            p.opbtn == 0 && p.beams == 0 && p.connected == 0 && p.coin_counter == 0 && p.sequence == 0,
            p.pressure@ == Seq::new(32, |i: int| 0u8),
    {
        let p = ChuniStatePage { opbtn: 0, beams: 0, connected: 0, coin_counter: 0, pressure: [0u8; 32], sequence: 0 };
        assert(p.pressure@ =~= Seq::new(32, |i: int| 0u8));
        p
    }

    /// The operator buttons and the beams, as the game polls them.
    pub fn jvs_poll(&self) -> (r: (u8, u8))
        ensures
            r == (self.opbtn, self.beams),
    {
        (self.opbtn, self.beams)
    }

    /// The coin counter.
    pub fn coin_counter(&self) -> (c: u16)
        ensures
            c == self.coin_counter,
    {
        self.coin_counter
    }

    /// The slider connected: counts an update.
    pub fn mark_connected(&mut self)
        ensures
            *final(self) == (ChuniStatePage {
                connected: 1,
                sequence: vstd::wrapping::u64_specs::wrapping_add(old(self).sequence, 1),
                ..*old(self)
            }),
    {
        self.connected = 1;
        self.sequence = self.sequence.wrapping_add(1);
    }

    /// A touch report: stores the pressure values and, when the report
    /// carries them, the beams; returns the pressure values for the game's
    /// callback.
    pub fn apply_scan_frame(&mut self, pressure: [u8; 32], beams: Option<u8>) -> (r: [u8; 32])
        ensures
            r == pressure,
            *final(self) == (ChuniStatePage {
                connected: 1,
                pressure: pressure,
                beams: match beams { Some(b) => b, None => old(self).beams },
                sequence: vstd::wrapping::u64_specs::wrapping_add(old(self).sequence, 1),
                ..*old(self)
            }),
    {
        self.connected = 1;
        self.pressure = pressure;
        if let Some(b) = beams {
            self.beams = b;
        }
        self.sequence = self.sequence.wrapping_add(1);
        self.pressure
    }

    /// An air-sensor report: stores the beams.
    pub fn apply_air(&mut self, beams: u8)
        ensures
            *final(self) == (ChuniStatePage {
                connected: 1,
                beams: beams,
                sequence: vstd::wrapping::u64_specs::wrapping_add(old(self).sequence, 1),
                ..*old(self)
            }),
    {
        self.beams = beams;
        self.connected = 1;
        self.sequence = self.sequence.wrapping_add(1);
    }

    /// Handles a packet from the slider: a touch report with at least 32
    /// pressure values (and the beams in byte 32, when present), or an
    /// air-sensor report with at least one byte; anything else is ignored.
    /// Returns the pressure values to hand the game's callback, for a touch
    /// report.
    pub fn handle_packet(&mut self, packet: &SliderPacket) -> (r: Option<[u8; 32]>)
        ensures
            packet.cmd == SLIDER_CMD_AUTO_SCAN && packet.payload@.len() >= 32 ==> ({
                let pressure = packet.payload@.take(32);
                let beams = if packet.payload@.len() > 32 { packet.payload@[32] } else { old(self).beams };
                &&& r matches Some(p) && p@ == pressure
                &&& final(self).pressure@ == pressure
                &&& final(self).beams == beams
                &&& final(self).connected == 1
                &&& final(self).sequence == vstd::wrapping::u64_specs::wrapping_add(old(self).sequence, 1)
                &&& final(self).opbtn == old(self).opbtn && final(self).coin_counter == old(self).coin_counter
            }),
            packet.cmd == SLIDER_CMD_AUTO_AIR && packet.payload@.len() >= 1 ==> r is None && *final(self)
                == (ChuniStatePage {
                connected: 1,
                beams: packet.payload@[0],
                sequence: vstd::wrapping::u64_specs::wrapping_add(old(self).sequence, 1),
                ..*old(self)
            }),
            !(packet.cmd == SLIDER_CMD_AUTO_SCAN && packet.payload@.len() >= 32) && !(packet.cmd
                == SLIDER_CMD_AUTO_AIR && packet.payload@.len() >= 1) ==> r is None && *final(self) == *old(self),
    {
        if packet.cmd == SLIDER_CMD_AUTO_SCAN {
            if packet.payload.len() >= 32 {
                let mut pressure = [0u8; 32];
                let mut i: usize = 0;
                while i < 32
                    invariant
                        i <= 32,
                        packet.payload@.len() >= 32,
                        forall|j: int| 0 <= j < i ==> pressure@[j] == packet.payload@[j],
                    decreases 32 - i,
                {
                    pressure[i] = packet.payload[i];
                    i = i + 1;
                }
                assert(pressure@ =~= packet.payload@.take(32));
                let beams = if packet.payload.len() > 32 { Some(packet.payload[32]) } else { None };
                return Some(self.apply_scan_frame(pressure, beams));
            }
            return None;
        }
        if packet.cmd == SLIDER_CMD_AUTO_AIR {
            if packet.payload.len() >= 1 {
                self.apply_air(packet.payload[0]);
            }
        }
        None
    }
}

impl ChuniControlPage {
    /// The page before the game asks for anything.
    pub fn new() -> (p: Self)
        ensures
            p.active == 0 && p.slider_leds_sequence == 0 && p.air_leds_sequence == 0,
            p.slider_leds@ == Seq::new(96, |i: int| 0u8),
            p.air_leds@ == seq![0u8, 0u8, 0u8],
    {
        let p = ChuniControlPage {
            active: 0,
            slider_leds_sequence: 0,
            slider_leds: [0u8; 96],
            air_leds_sequence: 0,
            air_leds: [0u8; 3],
        };
        assert(p.slider_leds@ =~= Seq::new(96, |i: int| 0u8));
        assert(p.air_leds@ =~= seq![0u8, 0u8, 0u8]);
        p
    }

    /// Starts or stops scanning.
    pub fn set_active(&mut self, active: bool)
        ensures
            *final(self) == (ChuniControlPage { active: if active { 1u8 } else { 0u8 }, ..*old(self) }),
    {
        self.active = if active { 1 } else { 0 };
    }

    /// Stores the slider LED colours, the first 96 bytes of `rgb`; requests
    /// with fewer bytes are ignored. Every stored request counts as a change.
    pub fn set_leds(&mut self, rgb: &[u8])
        ensures
            rgb@.len() < 96 ==> *final(self) == *old(self),
            rgb@.len() >= 96 ==> final(self).slider_leds@ == rgb@.take(96)
                && final(self).slider_leds_sequence == vstd::wrapping::u64_specs::wrapping_add(old(self).slider_leds_sequence, 1)
                && final(self).active == old(self).active && final(self).air_leds == old(self).air_leds
                && final(self).air_leds_sequence == old(self).air_leds_sequence,
    {
        if rgb.len() < 96 {
            return;
        }
        let mut i: usize = 0;
        while i < 96
            invariant
                i <= 96,
                rgb@.len() >= 96,
                self.active == old(self).active,
                self.air_leds == old(self).air_leds,
                self.air_leds_sequence == old(self).air_leds_sequence,
                self.slider_leds_sequence == old(self).slider_leds_sequence,
                forall|j: int| 0 <= j < i ==> self.slider_leds@[j] == rgb@[j],
            decreases 96 - i,
        {
            self.slider_leds[i] = rgb[i];
            i = i + 1;
        }
        assert(self.slider_leds@ =~= rgb@.take(96));
        self.slider_leds_sequence = self.slider_leds_sequence.wrapping_add(1);
    }

    /// Stores the air-tower LED colour from the colours of board 0 (at least
    /// 153 bytes): bytes 152, 150 and 151, in that order. Other boards and
    /// shorter requests are ignored.
    pub fn set_air_leds_from_colors(&mut self, board: u8, rgb: &[u8])
        ensures
            board != 0 || rgb@.len() < 153 ==> *final(self) == *old(self),
            board == 0 && rgb@.len() >= 153 ==> *final(self) == (ChuniControlPage {
                air_leds: [rgb@[152], rgb@[150], rgb@[151]],
                air_leds_sequence: vstd::wrapping::u64_specs::wrapping_add(old(self).air_leds_sequence, 1),
                ..*old(self)
            }),
    {
        if board != 0 || rgb.len() < 153 {
            return;
        }
        self.air_leds = [rgb[152], rgb[150], rgb[151]];
        self.air_leds_sequence = self.air_leds_sequence.wrapping_add(1);
    }
}

/// What the slider loop last sent: whether scanning was on, and the change
/// counters of the LED colours.
#[derive(Clone, Copy)]
pub struct ChuniLinkState {
    pub last_active: bool,
    pub last_slider_leds_sequence: u64,
    pub last_air_leds_sequence: u64,
}

/// The frames that bring the slider up to date with `control`: the scan
/// start (air sensors, then touch) or stop when scanning changed, then the
/// slider LED colours and the air-tower colour when they changed.
pub open spec fn chuni_frames(link: ChuniLinkState, control: ChuniControlPage) -> Seq<Seq<u8>> {
    let active = control.active != 0;
    let start_stop = if active == link.last_active {
        Seq::<Seq<u8>>::empty()
    } else if active {
        seq![slider_frame(SLIDER_CMD_AUTO_AIR_START, Seq::empty()), slider_frame(SLIDER_CMD_AUTO_SCAN_START, Seq::empty())]
    } else {
        seq![slider_frame(SLIDER_CMD_AUTO_SCAN_STOP, Seq::empty())]
    };
    let leds = if control.slider_leds_sequence != link.last_slider_leds_sequence {
        seq![slider_frame(SLIDER_CMD_SET_LED, control.slider_leds@)]
    } else {
        Seq::empty()
    };
    let air = if control.air_leds_sequence != link.last_air_leds_sequence {
        seq![slider_frame(SLIDER_CMD_SET_AIR_LED, control.air_leds@)]
    } else {
        Seq::empty()
    };
    start_stop + leds + air
}

impl ChuniLinkState {
    /// A link that just connected: scanning is taken to be off.
    pub fn connected(&mut self)
        ensures
            *final(self) == (ChuniLinkState { last_active: false, ..*old(self) }),
    {
        self.last_active = false;
    }

    /// The frames to send for `control` (see `chuni_frames`), marking them
    /// as sent.
    pub fn frames(&mut self, control: &ChuniControlPage) -> (frames: Vec<Vec<u8>>)
        ensures
            frames@.len() == chuni_frames(*old(self), *control).len(),
            forall|i: int| 0 <= i < frames@.len() ==> #[trigger] frames@[i]@ == chuni_frames(*old(self), *control)[i],
            *final(self) == (ChuniLinkState {
                last_active: control.active != 0,
                last_slider_leds_sequence: control.slider_leds_sequence,
                last_air_leds_sequence: control.air_leds_sequence,
            }),
    {
        let ghost expected = chuni_frames(*self, *control);
        let ghost empty = Seq::<u8>::empty();
        let no_payload: [u8; 0] = [];
        assert(no_payload@ =~= empty);
        let mut frames: Vec<Vec<u8>> = Vec::new();
        let ghost mut views: Seq<Seq<u8>> = Seq::empty();
        let active = control.active != 0;
        if active != self.last_active {
            if active {
                frames.push(encode_slider_frame(SLIDER_CMD_AUTO_AIR_START, &no_payload));
                frames.push(encode_slider_frame(SLIDER_CMD_AUTO_SCAN_START, &no_payload));
                proof {
                    views = seq![slider_frame(SLIDER_CMD_AUTO_AIR_START, empty), slider_frame(SLIDER_CMD_AUTO_SCAN_START, empty)];
                }
            } else {
                frames.push(encode_slider_frame(SLIDER_CMD_AUTO_SCAN_STOP, &no_payload));
                proof {
                    views = seq![slider_frame(SLIDER_CMD_AUTO_SCAN_STOP, empty)];
                }
            }
            self.last_active = active;
        }
        let ghost n1 = views.len();
        assert(forall|i: int| 0 <= i < frames@.len() ==> #[trigger] frames@[i]@ == views[i]);
        if control.slider_leds_sequence != self.last_slider_leds_sequence {
            frames.push(encode_slider_frame(SLIDER_CMD_SET_LED, &control.slider_leds));
            proof {
                views = views.push(slider_frame(SLIDER_CMD_SET_LED, control.slider_leds@));
            }
            self.last_slider_leds_sequence = control.slider_leds_sequence;
        }
        assert(forall|i: int| 0 <= i < frames@.len() ==> #[trigger] frames@[i]@ == views[i]);
        if control.air_leds_sequence != self.last_air_leds_sequence {
            frames.push(encode_slider_frame(SLIDER_CMD_SET_AIR_LED, &control.air_leds));
            proof {
                views = views.push(slider_frame(SLIDER_CMD_SET_AIR_LED, control.air_leds@));
            }
            self.last_air_leds_sequence = control.air_leds_sequence;
        }
        assert(forall|i: int| 0 <= i < frames@.len() ==> #[trigger] frames@[i]@ == views[i]);
        assert(views =~= expected);
        frames
    }
}


/// The slider is brought up to date in one round: once the frames for a
/// control page have been sent, the same page calls for no more frames.
pub proof fn chuni_frames_catch_up(control: ChuniControlPage)
    ensures
        chuni_frames(
            ChuniLinkState {
                last_active: control.active != 0,
                last_slider_leds_sequence: control.slider_leds_sequence,
                last_air_leds_sequence: control.air_leds_sequence,
            },
            control,
        ).len() == 0,
{
}


/// The frames for a control page carry every change, scanning or not: a
/// changed slider LED colour (its change counter differs from the one sent)
/// is sent with the page's colours, a changed air-tower colour likewise,
/// turning scanning on sends the air and touch scan starts, turning it off
/// sends the scan stop; and nothing else is sent.
pub proof fn chuni_frames_send_every_change(link: ChuniLinkState, control: ChuniControlPage)
    ensures
        ({
            let f = chuni_frames(link, control);
            let on = control.active != 0;
            let scan_changed = on != link.last_active;
            let leds_changed = control.slider_leds_sequence != link.last_slider_leds_sequence;
            let air_changed = control.air_leds_sequence != link.last_air_leds_sequence;
            &&& leds_changed ==> f.contains(slider_frame(SLIDER_CMD_SET_LED, control.slider_leds@))
            &&& air_changed ==> f.contains(slider_frame(SLIDER_CMD_SET_AIR_LED, control.air_leds@))
            &&& scan_changed && on ==> f.contains(slider_frame(SLIDER_CMD_AUTO_AIR_START, Seq::empty())) && f.contains(
                slider_frame(SLIDER_CMD_AUTO_SCAN_START, Seq::empty()),
            )
            &&& scan_changed && !on ==> f.contains(slider_frame(SLIDER_CMD_AUTO_SCAN_STOP, Seq::empty()))
            &&& f.len() == (if scan_changed { if on { 2int } else { 1int } } else { 0int }) + (if leds_changed {
                1int
            } else {
                0int
            }) + (if air_changed { 1int } else { 0int })
        }),
{
    let f = chuni_frames(link, control);
    let on = control.active != 0;
    let n0: int = if on == link.last_active { 0 } else if on { 2 } else { 1 };
    let n1: int = if link.last_slider_leds_sequence == control.slider_leds_sequence { 0 } else { 1 };
    if n1 > 0 {
        assert(f[n0] == slider_frame(SLIDER_CMD_SET_LED, control.slider_leds@));
    }
    if link.last_air_leds_sequence != control.air_leds_sequence {
        assert(f[n0 + n1] == slider_frame(SLIDER_CMD_SET_AIR_LED, control.air_leds@));
    }
    if n0 == 2 {
        assert(f[0] == slider_frame(SLIDER_CMD_AUTO_AIR_START, Seq::empty()));
        assert(f[1] == slider_frame(SLIDER_CMD_AUTO_SCAN_START, Seq::empty()));
    }
    if n0 == 1 {
        assert(f[0] == slider_frame(SLIDER_CMD_AUTO_SCAN_STOP, Seq::empty()));
    }
}

} // verus!
