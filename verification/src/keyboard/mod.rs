//! All core keyboard communication components: the key matrix and the
//! analog sampling state machine.

pub mod key_delta;
pub mod matrix;
pub mod ring;

pub use key_delta::KeyDelta;
pub use matrix::{get_matrix, KeyboardMatrix};
