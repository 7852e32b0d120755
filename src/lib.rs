//! Deterministic identicon rendering: a byte string becomes a mirrored
//! five-by-five pattern painted in a colour derived from the bytes.
pub mod canvas;
pub mod color;
pub mod identicon;
pub mod nibbles;
pub mod theorems;

pub use canvas::Canvas;
pub use color::{RgbColor, HSL};
pub use identicon::{Identicon, BACKGROUND_LEVEL, CANVAS_SIZE, MARGIN, PIXEL_SIZE};
pub use nibbles::Nibbler;
