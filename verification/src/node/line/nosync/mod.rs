//! Pulled chains whose root reads an edge: each node owns its parent, and
//! the node at the root reads the messages pushed into its own edge.
pub mod builder;
pub mod node;

pub use builder::{make_pull, Connect, Root};
pub use node::Line;
pub use crate::node::line::pull::reader::read_until;
