//! Small building blocks shared by the game and the network layer.

pub mod scalar;
pub mod state;
pub mod typeset;

pub use state::State;
pub use typeset::{Component, TypeSet};
