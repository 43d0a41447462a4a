//! The Mercury (wacca) touch runtime's state: the touch cells that the panel
//! reports, and what the touch loop sends and does with each packet.
use vstd::prelude::*;
use crate::slider::{encode_slider_frame, slider_frame, SliderPacket, SLIDER_CMD_AUTO_SCAN, SLIDER_CMD_AUTO_SCAN_START};
use crate::types::MercuryLedData;

verus! {

/// Product ids of the touch panel, in the order they are looked for.
pub open spec fn mercury_pids() -> Seq<u16> {
    seq![0x52A5u16]
}

/// Product ids of the touch panel, in the order they are looked for.
pub fn mercury_pid_list() -> (pids: Vec<u16>)
    ensures
        pids@ == mercury_pids(),
{
    let mut v: Vec<u16> = Vec::new();
    v.push(0x52A5);
    assert(v@ =~= mercury_pids());
    v
}

/// Number of touch cells.
pub const MERCURY_CELLS: usize = 240;

/// What the panel reports: operator and game buttons, whether it is
/// connected, the 240 touch cells (0 or 1), and a counter of updates.
#[derive(Clone, Copy)]
pub struct MercuryStatePage {
    pub opbtn: u8,
    pub gamebtn: u8,
    pub connected: u8,
    pub cells: [u8; 240],
    pub sequence: u64,
}

/// What the game asks of the panel: whether it is scanning, and the LED
/// colours with a counter of changes.
#[derive(Clone, Copy)]
pub struct MercuryControlPage {
    pub active: u8,
    pub leds_sequence: u64,
    pub leds: MercuryLedData,
}

/// Whether touch cell `k` is set in a touch report's payload: bit `k % 8` of
/// byte `k / 8`.
pub open spec fn cell_bit(payload: Seq<u8>, k: int) -> bool {
    payload[k / 8] & (1u8 << (k % 8) as u8) != 0
}

/// The touch cells of a touch report's payload (30 bytes, eight cells each).
pub open spec fn cells_of(payload: Seq<u8>) -> Seq<bool> {
    Seq::new(240, |k: int| cell_bit(payload, k))
}

/// Reads the touch cells out of a touch report's payload; see `cells_of`.
pub fn unpack_cells(payload: &[u8]) -> (cells: [bool; 240])
    requires
        payload@.len() >= 30,
    ensures
        cells@ == cells_of(payload@),
{
    let mut cells = [false; 240];
    let mut index: usize = 0;
    while index < 30
        invariant
            index <= 30,
            payload@.len() >= 30,
            forall|k: int| 0 <= k < 8 * index ==> cells@[k] == cell_bit(payload@, k),
        decreases 30 - index,
    {
        let value = payload[index];
        let mut bit: usize = 0;
        while bit < 8
            invariant
                index < 30,
                bit <= 8,
                payload@.len() >= 30,
                value == payload@[index as int],
                forall|k: int| 0 <= k < 8 * index + bit ==> cells@[k] == cell_bit(payload@, k),
            decreases 8 - bit,
        {
            let shift: u8 = bit as u8;
            cells[index * 8 + bit] = value & (1u8 << shift) != 0;
            proof {
                let k = 8 * index + bit;
                assert(k / 8 == index as int && k % 8 == bit as int) by (nonlinear_arith)
                    requires k == 8 * index + bit, bit < 8;
            }
            bit = bit + 1;
        }
        index = index + 1;
    }
    assert(cells@ =~= cells_of(payload@));
    cells
}

impl MercuryStatePage {
    /// The page of a panel that is not connected.
    pub fn new() -> (p: Self)
        ensures
            p.opbtn == 0 && p.gamebtn == 0 && p.connected == 0 && p.sequence == 0,
            p.cells@ == Seq::new(240, |i: int| 0u8),
    {
        let p = MercuryStatePage { opbtn: 0, gamebtn: 0, connected: 0, cells: [0u8; 240], sequence: 0 };
        assert(p.cells@ =~= Seq::new(240, |i: int| 0u8));
        p
    }

    /// The operator buttons.
    pub fn opbtns(&self) -> (b: u8)
        ensures
            b == self.opbtn,
    {
        self.opbtn
    }

    /// The game buttons.
    pub fn gamebtns(&self) -> (b: u8)
        ensures
            b == self.gamebtn,
    {
        self.gamebtn
    }

    /// The panel connected: counts an update.
    pub fn mark_connected(&mut self)
        ensures
            *final(self) == (MercuryStatePage {
                connected: 1,
                sequence: vstd::wrapping::u64_specs::wrapping_add(old(self).sequence, 1),
                ..*old(self)
            }),
    {
        self.connected = 1;
        self.sequence = self.sequence.wrapping_add(1);
    }

    /// Stores touch cells (as 0 or 1) and returns them as the page now holds
    /// them, for the game's callback.
    pub fn apply_cells_frame(&mut self, cells: [bool; 240]) -> (snapshot: [bool; 240])
        ensures
            snapshot == cells,
            forall|k: int| 0 <= k < 240 ==> final(self).cells@[k] == if cells@[k] { 1u8 } else { 0u8 },
            final(self).connected == 1,
            final(self).opbtn == old(self).opbtn && final(self).gamebtn == old(self).gamebtn,
            final(self).sequence == vstd::wrapping::u64_specs::wrapping_add(old(self).sequence, 1),
    {
        self.connected = 1;
        let mut i: usize = 0;
        while i < MERCURY_CELLS
            invariant
                i <= 240,
                self.connected == 1,
                self.opbtn == old(self).opbtn && self.gamebtn == old(self).gamebtn,
                self.sequence == old(self).sequence,
                forall|k: int| 0 <= k < i ==> self.cells@[k] == if cells@[k] { 1u8 } else { 0u8 },
            decreases 240 - i,
        {
            self.cells[i] = if cells[i] { 1 } else { 0 };
            i = i + 1;
        }
        self.sequence = self.sequence.wrapping_add(1);
        let mut snapshot = [false; 240];
        let mut j: usize = 0;
        while j < MERCURY_CELLS
            invariant
                j <= 240,
                forall|k: int| 0 <= k < 240 ==> self.cells@[k] == if cells@[k] { 1u8 } else { 0u8 },
                forall|k: int| 0 <= k < j ==> snapshot@[k] == cells@[k],
            decreases 240 - j,
        {
            snapshot[j] = self.cells[j] != 0;
            j = j + 1;
        }
        assert(snapshot =~= cells);
        snapshot
    }

    /// Handles a packet from the panel: a touch report with at least 30
    /// bytes updates the cells (see `cells_of`); anything else is ignored.
    /// Returns the cells to hand the game's callback.
    pub fn handle_packet(&mut self, packet: &SliderPacket) -> (r: Option<[bool; 240]>)
        ensures
            packet.cmd == SLIDER_CMD_AUTO_SCAN && packet.payload@.len() >= 30 ==> ({
                &&& r matches Some(c) && c@ == cells_of(packet.payload@)
                &&& forall|k: int| 0 <= k < 240 ==> final(self).cells@[k] == if cell_bit(packet.payload@, k) { 1u8 } else { 0u8 }
                &&& final(self).connected == 1
                &&& final(self).sequence == vstd::wrapping::u64_specs::wrapping_add(old(self).sequence, 1)
                &&& final(self).opbtn == old(self).opbtn && final(self).gamebtn == old(self).gamebtn
            }),
            !(packet.cmd == SLIDER_CMD_AUTO_SCAN && packet.payload@.len() >= 30) ==> r is None && *final(self) == *old(self),
    {
        if packet.cmd == SLIDER_CMD_AUTO_SCAN && packet.payload.len() >= 30 {
            let cells = unpack_cells(packet.payload.as_slice());
            let snapshot = self.apply_cells_frame(cells);
            assert forall|k: int| 0 <= k < 240 implies final(self).cells@[k] == if cell_bit(packet.payload@, k) { 1u8 } else { 0u8 } by {
                assert(cells@[k] == cells_of(packet.payload@)[k]);
            }
            return Some(snapshot);
        }
        None
    }
}

impl MercuryControlPage {
    /// The page before the game asks for anything.
    pub fn new() -> (p: Self)
        ensures
            p.active == 0 && p.leds_sequence == 0 && p.leds.unitCount == 0,
            p.leds.rgba@ == Seq::new(1920, |i: int| 0u8),
    {
        MercuryControlPage { active: 0, leds_sequence: 0, leds: MercuryLedData::new() }
    }

    /// Starts scanning.
    pub fn start(&mut self)
        ensures
            *final(self) == (MercuryControlPage { active: 1, ..*old(self) }),
    {
        self.active = 1;
    }

    /// Stores LED colours; every request counts as a change.
    pub fn set_leds(&mut self, data: MercuryLedData)
        ensures
            *final(self) == (MercuryControlPage {
                leds: data,
                leds_sequence: vstd::wrapping::u64_specs::wrapping_add(old(self).leds_sequence, 1),
                ..*old(self)
            }),
    {
        self.leds = data;
        self.leds_sequence = self.leds_sequence.wrapping_add(1);
    }
}

/// What the touch loop last saw of the control page.
#[derive(Clone, Copy)]
pub struct MercuryLinkState {
    pub last_active: bool,
    pub last_leds_sequence: u64,
}

/// The frame that brings the panel up to date with `control`: the scan
/// start when scanning has just been turned on, nothing otherwise.
pub open spec fn mercury_frame(link: MercuryLinkState, control: MercuryControlPage) -> Option<Seq<u8>> {
    if control.active != 0 && !link.last_active {
        Some(slider_frame(SLIDER_CMD_AUTO_SCAN_START, Seq::empty()))
    } else {
        None
    }
}

impl MercuryLinkState {
    /// A link that just connected: scanning is taken to be off.
    pub fn connected(&mut self)
        ensures
            *final(self) == (MercuryLinkState { last_active: false, ..*old(self) }),
    {
        self.last_active = false;
    }

    /// The frame to send for `control`: the scan start when scanning has
    /// just been turned on (see `mercury_frame`). The LED colours are taken
    /// note of but not sent.
    pub fn frame(&mut self, control: &MercuryControlPage) -> (f: Option<Vec<u8>>)
        ensures
            match f {
                Some(v) => mercury_frame(*old(self), *control) == Some(v@),
                None => mercury_frame(*old(self), *control) is None,
            },
            *final(self) == (MercuryLinkState { last_active: control.active != 0, last_leds_sequence: control.leds_sequence }),
    {
        let active = control.active != 0;
        let f = if active && !self.last_active {
            let no_payload: [u8; 0] = [];
            assert(no_payload@ =~= Seq::<u8>::empty());
            Some(encode_slider_frame(SLIDER_CMD_AUTO_SCAN_START, &no_payload))
        } else {
            None
        };
        self.last_active = active;
        self.last_leds_sequence = control.leds_sequence;
        f
    }
}


/// The panel is brought up to date in one round: once the frame for a
/// control page has been sent, the same page calls for no more.
pub proof fn mercury_frame_catch_up(control: MercuryControlPage)
    ensures
        mercury_frame(
            MercuryLinkState { last_active: control.active != 0, last_leds_sequence: control.leds_sequence },
            control,
        ) is None,
{
}


/// The panel is sent the scan start exactly when scanning has been turned on
/// since the last round, and nothing else.
pub proof fn mercury_frame_only_on_start(link: MercuryLinkState, control: MercuryControlPage)
    ensures
        (mercury_frame(link, control) is Some) == (control.active != 0 && !link.last_active),
        mercury_frame(link, control) is Some ==> mercury_frame(link, control) == Some(
            slider_frame(SLIDER_CMD_AUTO_SCAN_START, Seq::empty()),
        ),
{
}

} // verus!
