//! Main trait for all kinds of effects.

use vstd::prelude::*;

use crate::color::Color;
use crate::key::Vec2;

verus! {

/// Main trait for all kinds of effects.
/// Mostly stateless since this doesn't allow mutation.
/// However with some extra state-updating functions an implementor can
/// have state, like a ripple effect.
pub trait Effect {
    /// Get color of the point based on space (fixed-point normalized
    /// position) and time (microseconds).
    fn color(&self, time_us: u64, pos_norm: Vec2) -> Color;
}

/// Placeholder effect that returns always black.
#[derive(Debug, Default)]
pub struct PlaceholderEffect {}

impl Effect for PlaceholderEffect {
    fn color(&self, _time_us: u64, _pos_norm: Vec2) -> Color {
        Color { red: 0, green: 0, blue: 0 }
    }
}

} // verus!
