//! Run an asynchronous biunion routine with [`crate::Poll`] scheduling.
//!
//! The node has four phases: a left and a right input, work and output.
//! A flush from either input moves the node to flushing (the first flush
//! wins); the other input waits until the flush is forwarded.
pub mod builder;
pub mod factory;
pub mod node;
pub mod routine;

pub use factory::{BiunionInputs, BiunionRoutineFactory, BiunionWakers};
pub use node::{new_phases, Inputs, Phase, Phases};
pub use routine::BiunionRoutine;
