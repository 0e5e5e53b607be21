//! Flat diffuse colors: three independent 8-bit channels with value
//! semantics.

use vstd::prelude::*;

verus! {

/// An RGB color.  A primitive's diffuse color is returned as-is on a
/// hit; no lighting model is applied.
#[derive(Clone, Copy, PartialEq, Eq, Structural, Debug)]
pub struct Color {
    pub r: u8,
    pub g: u8,
    pub b: u8,
}

/// The color the tracer returns when a ray hits nothing: black.
pub open spec fn background_color() -> Color {
    Color { r: 0, g: 0, b: 0 }
}

} // verus!
