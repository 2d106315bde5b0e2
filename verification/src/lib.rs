//! A strongly typed runtime for streaming graphs.
//!
//! Nodes run routines; edges carry [`Message`]s between them. Data is
//! transformed by the routines, while the signals [`Message::Flush`] and
//! [`Message::Marker`] travel through the graph behind the data that was
//! produced before them.
pub mod connect;
pub mod edge;
pub mod endpoint;
pub mod error;
pub mod graph;
pub mod marker;
pub mod message;
pub mod node;
pub mod signal;

pub use edge::{Edge, EdgeSender};
pub use error::{Error, ErrorKind};
pub use graph::{Closeable, Pullable, Pushable, Workable};
pub use marker::{Multiplicity, Unary};
pub use message::Message;
pub use node::line::LineRoutine;
pub use node::routine::{Call, Flush, Name, Next, Poll, Readiness, Send};
pub use signal::{Comparable, Origin};
pub use endpoint::{Sink, Source, TeeSink};
pub use connect::{make_bidi, make_push, Connect};
