//! Run a [`crate::node::bifurcation::BifurcationRoutine`] with [`crate::Workable`] scheduling.
pub mod builder;
pub mod node;

pub use builder::make_bifurcation;
pub use node::{Bifurcation, BifurcationTrait, Pushes};
