//! The display boundary: a renderer reads the 64x32 bitmap the core
//! produces whenever the draw flag is set.

pub use crate::state::DISPLAY_HEIGHT;
pub use crate::state::DISPLAY_WIDTH;

use vstd::prelude::*;

verus! {

/// A rendering collaborator: shows the core's display buffer on some
/// physical output.
pub trait Display {
    fn draw(&mut self, pixels: &[[u8; 64]; 32]);
}

} // verus!
