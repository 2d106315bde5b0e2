//! Run a [`crate::node::line::LineRoutine`] with [`crate::Workable`] scheduling.
pub mod bridge;
pub mod node;

pub use bridge::{from_pull, Bridge};
pub use node::{make_line, Line, LineTrait};
