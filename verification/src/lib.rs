//! Per-key RGB runtime for analog keyboards: a layered compositor with a
//! cooperative timer/tween scheduler, and an analog sampling state machine
//! that turns raw per-key pressure readings into smoothed, edge-detected
//! press state.
//!
//! Colors and key positions are fixed-point integers (thousandths), so the
//! blend rules and the sampling arithmetic carry exact contracts.

pub mod arith;
pub mod bounds;
pub mod color;
pub mod effect;
pub mod effects;
pub mod key;
pub mod keyboard;
pub mod process;
pub mod timer;
pub mod tween;

pub use effect::Effect;
pub use effect::PlaceholderEffect;
pub use process::{Process, Runtime};
