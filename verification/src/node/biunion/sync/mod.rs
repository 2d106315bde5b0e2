//! Worked two-input nodes that drop repeated signals.
pub mod builder;
pub mod node;

pub use builder::{make_biunion, AddWorker, GetInput, GraphBuilder, Input, Workers};
pub use node::{Biunion, BiunionTrait, LeftSource, RightSource};
