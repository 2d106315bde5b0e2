//! Run a [`crate::node::biunion::BiunionRoutine`] with [`crate::Workable`] scheduling.
pub mod builder;
pub mod node;

pub use builder::make_biunion;
pub use node::{Biunion, BiunionTrait, Input, Worker};
