//! Protocol logic of the Affine IO controller runtimes: frame encoders and
//! decoders for the slider, touch, button and card-reader links, the input and
//! output state that the runtimes share with the game, and the configuration
//! parsing that selects their behaviour.
pub mod aime;
pub mod chuni;
pub mod digits;
pub mod bytes;
pub mod hwid;
pub mod ini;
pub mod led_probe;
pub mod log;
pub mod mai2;
pub mod mai2_device;
pub mod mai2_link;
pub mod mercury;
pub mod sega;
pub mod slider;
pub mod text;
pub mod touch_diag;
pub mod touch_hid;
pub mod types;
pub mod util;
