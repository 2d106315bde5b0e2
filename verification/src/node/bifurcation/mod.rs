//! Nodes with one input and two outputs.
pub mod io;
pub mod marker;
pub mod reader;
pub mod routine;
pub mod sync;
pub mod work;

pub use marker::{Left, Right};
pub use routine::BifurcationRoutine;
pub use io::BifurcationIo;
pub use reader::BifurcationReader;
