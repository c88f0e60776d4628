//! One physical key's render state: identity, position encodings, color and
//! blend mode.  Positions are fixed-point thousandths of a key-grid unit.

use vstd::prelude::*;

use crate::color::{quantize_channel, quantize_spec, Color, ColorBlendTypes};

verus! {

/// A 2-D vector in fixed-point thousandths.
#[derive(Clone, Copy, Debug, PartialEq, Eq, Structural)]
pub struct Vec2 {
    pub x: i32,
    pub y: i32,
}

/// One keyboard key's render state.
#[derive(Clone, Copy, Debug)]
pub struct Key {
    /// Identity: (row, column) in the key matrix.
    pub key: (u8, u8),
    /// Physical key position in thousandths of a grid unit,
    /// from (0, 0) to (14000, 4000).
    pub physical_position: Vec2,
    /// Normalized position based on `physical_position`, roughly centred
    /// on the board: thousandths, about -450..=550 on x.
    pub pos_norm: Vec2,
    /// Normalized and aspect-ratio corrected position of this key.
    pub pos_norm_aspect: Vec2,
    pub color: Color,
    pub color_blend_type: ColorBlendTypes,
}

impl Key {
    /// The key's color quantized to 8-bit channels for hardware transfer.
    pub fn colors(&self) -> (r: (u8, u8, u8))
        ensures
            r.0 == quantize_spec(self.color.red as int),
            r.1 == quantize_spec(self.color.green as int),
            r.2 == quantize_spec(self.color.blue as int),
    {
        (
            quantize_channel(self.color.red),
            quantize_channel(self.color.green),
            quantize_channel(self.color.blue),
        )
    }
}

} // verus!
