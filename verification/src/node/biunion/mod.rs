//! Nodes with two inputs and one output.
pub mod io;
pub mod marker;
pub mod poll;
pub mod reader;
pub mod routine;
pub mod sync;
pub mod work;

pub use io::BiunionIo;
pub use marker::{Left, Right, Side};
pub use reader::BiunionReader;
pub use routine::BiunionRoutine;
