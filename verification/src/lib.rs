//! Rendering of boolean pixel bitmaps as strings of block or braille glyphs.
//!
//! A bitmap is split into cells of a strategy-specific size; each cell's
//! pixels are packed into an integer code, optionally bit-reordered, and
//! mapped to one Unicode character.

pub mod bits;
pub mod block;
pub mod braille;
pub mod engine;
pub mod strategy;

use vstd::prelude::*;

verus! {

pub use crate::block::BlockElements;
pub use crate::braille::BraillePatterns;
pub use crate::engine::draw;
pub use crate::engine::draw_from_vec;
pub use crate::strategy::ConsoleBitmap;

} // verus!
