//! The "Doom fire" effect: a grid of intensity levels that decays and drifts
//! upward one step at a time, rendered through a fixed 37-color palette.

pub mod fire;
pub mod palette;

pub use fire::{DoomFire, DrawError, FirePixel, FIRE_HEIGHT, FIRE_WIDTH};
pub use palette::MAX_LEVEL;
