//! Run an asynchronous line routine with [`crate::Poll`] scheduling.
//!
//! The node has three phases, polled separately by the scheduler: input
//! drains the input edge into the routine, work polls the routine, output
//! drains the routine into the output edge and forwards signals.
pub mod builder;
pub mod factory;
pub mod linked;
pub mod node;
pub mod routine;

pub use factory::{LineRoutineFactory, LineWakers};
pub use node::{new_phases, LineNode};
pub use routine::LineRoutine;
