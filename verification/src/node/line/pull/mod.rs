//! Run a [`crate::LineRoutine`] with [`crate::Pullable`] scheduling: each
//! node owns its parent and pulls it for input.
pub mod buffer;
pub mod distribute;
pub mod builder;
pub mod node;
pub mod reader;

pub use buffer::SourceBuffer;
pub use distribute::{DistributedConsumer, DistributorBuilder};
pub use builder::{make_pull, Connect};
pub use node::Line;
pub use reader::read_until;
