//! The routine of polled line nodes.
use crate::node::routine::{Flush, Name, Next, Poll, Send};
use vstd::prelude::*;

verus! {

/// An asynchronous line routine.
///
/// - Output produced must be made known to the output phase; it is not
///   polled on its own.
/// - After [`Flush`], [`Poll`] reports ready, at once or later; the node
///   waits for it.
/// - Reporting ready outside a flush is a fatal error, and so is reporting
///   [`crate::ErrorKind::Closed`]: routines do not manage their own lifecycle.
pub trait LineRoutine<In, Out>: Send<In> + Next<Out> + Flush + Poll + Name {}

} // verus!
