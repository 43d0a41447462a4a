//! Result codes and plain data shared with the game.
use vstd::prelude::*;

verus! {

/// A COM-style result code as the game's IO interface uses it.
pub type Hresult = i32;

/// Success.
pub const S_OK: Hresult = 0;

/// Success, with nothing to report (no card, another unit, a refused command).
pub const S_FALSE: Hresult = 1;

/// Unspecified failure (the device could not be reached).
pub const E_FAIL: Hresult = -2147467259i32;

/// An argument had the wrong size.
pub const E_INVALIDARG: Hresult = -2147024809i32;


/// The state that the game hands the reader's display (unused by the
/// reader, which has none).
#[derive(Clone, Copy)]
pub struct AimeIoVfdState {
    pub encoding: u8,
    pub text_speed: u8,
    pub scroll_enabled: u8,
    pub h_scroll: u16,
    pub cursor_x: u16,
    pub cursor_y: u8,
    pub wnd_x0: u16,
    pub wnd_y0: u8,
    pub wnd_x1: u16,
    pub wnd_y1: u8,
    pub rotate: u8,
    pub brightness: u8,
    pub screen_on: u8,
    pub clear_seq: u32,
}

impl AimeIoVfdState {
    /// All fields zero.
    pub fn new() -> (s: Self)
        ensures
            s == (AimeIoVfdState {
                encoding: 0,
                text_speed: 0,
                scroll_enabled: 0,
                h_scroll: 0,
                cursor_x: 0,
                cursor_y: 0,
                wnd_x0: 0,
                wnd_y0: 0,
                wnd_x1: 0,
                wnd_y1: 0,
                rotate: 0,
                brightness: 0,
                screen_on: 0,
                clear_seq: 0,
            }),
    {
        AimeIoVfdState {
            encoding: 0,
            text_speed: 0,
            scroll_enabled: 0,
            h_scroll: 0,
            cursor_x: 0,
            cursor_y: 0,
            wnd_x0: 0,
            wnd_y0: 0,
            wnd_x1: 0,
            wnd_y1: 0,
            rotate: 0,
            brightness: 0,
            screen_on: 0,
            clear_seq: 0,
        }
    }
}

/// Number of bytes of LED colour data that the Mercury game hands over
/// (480 units, four bytes each).
pub const MERCURY_LED_BYTES: usize = 1920;

/// LED colours that the Mercury game hands over: a count of units and their
/// RGBA values.
#[allow(non_snake_case)]
#[derive(Clone, Copy)]
pub struct MercuryLedData {
    pub unitCount: u32,
    pub rgba: [u8; 1920],
}

impl MercuryLedData {
    /// No units, all colours zero.
    pub fn new() -> (d: Self)
        ensures
            d.unitCount == 0,
            d.rgba@ == Seq::new(1920, |i: int| 0u8),
    {
        let d = MercuryLedData { unitCount: 0, rgba: [0u8; 1920] };
        assert(d.rgba@ =~= Seq::new(1920, |i: int| 0u8));
        d
    }
}

} // verus!
