//! A worked line node that forwards each signal at most once between two
//! data outputs, so signals arriving along several paths leave it once.
pub mod bridge;
pub mod builder;
pub mod node;

pub use bridge::{bridge_nosync, Bridge};
pub use builder::{make_line, GraphBuilder};
pub use node::{Line, LineTrait};
