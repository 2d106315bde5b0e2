//! The nodes of a graph. A node schedules a routine.
pub mod bifurcation;
pub mod biunion;
pub mod layout;
pub mod line;
pub mod routine;
pub mod state;
pub mod work;
