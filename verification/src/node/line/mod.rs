//! Nodes with one input and one output.
pub mod io;
pub mod nosync;
pub mod poll;
pub mod pull;
pub mod reader;
pub mod routine;
pub mod sync;
pub mod work;

pub use routine::{AsyncLineRoutine, LineRoutine};
pub use io::LineIo;
pub use reader::LineReader;
