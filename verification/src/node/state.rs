//! The lifecycle shared by the polled nodes.
//!
//! - `Running`: inputs drain, work polls the routine, output drains.
//! - `Flushing`: work polls the routine until it is ready, then `FlushReady`.
//! - `FlushReady`: output drains what is left and forwards the flush; back to `Running`.
//! - `MarkerReady`: work polls the routine once, output drains and forwards
//!   the marker; back to `Running`.
//! - `CloseReady`: output drains what is buffered and closes; `Closed`.
//! - `Closed`: every phase reports `Closed`.
use crate::error::{Error, ErrorKind};
use crate::node::routine::Readiness;
use vstd::prelude::*;

verus! {

/// Where a polled node is in its lifecycle.
#[derive(Debug, Clone, PartialEq, Eq)]
pub enum NodeState<S> {
    Running,
    Flushing(S),
    FlushReady(S),
    MarkerReady(S),
    CloseReady,
    Closed,
}

impl<S> NodeState<S> {
    /// The node is shutting down or shut down.
    pub open spec fn closing(&self) -> bool {
        self is CloseReady || self is Closed
    }

    /// Whether the node is shutting down or shut down.
    pub fn is_closing(&self) -> (r: bool)
        ensures
            r == (self is CloseReady || self is Closed),
    {
        match self {
            NodeState::CloseReady | NodeState::Closed => true,
            _ => false,
        }
    }

    /// Whether the node is running with no signal in flight.
    pub fn is_running(&self) -> (r: bool)
        ensures
            r == (self is Running),
    {
        match self {
            NodeState::Running => true,
            _ => false,
        }
    }
}

/// What the work phase concludes from the routine's answer to a poll.
pub enum WorkOutcome {
    /// Keep the state; report pending.
    Pending,
    /// A flush finished: move to `FlushReady` with its signal and wake output.
    FlushDone,
    /// The routine got its poll before a marker: wake output.
    MarkerPolled,
    /// The routine broke its contract or failed.
    Fail(Error),
}

/// The work phase's decision after polling the routine in `state`.
///
/// A routine may be ready only when a flush is pending; reporting ready
/// otherwise is fatal. A routine never reports `Closed`: that is fatal too.
pub fn work_outcome<S>(state: &NodeState<S>, polled: Result<Readiness, Error>) -> (o: WorkOutcome)
    ensures
        polled matches Err(e) ==> (e.kind == ErrorKind::Closed ==> (o matches WorkOutcome::Fail(f) && f.kind == ErrorKind::Fatal))
            && (e.kind != ErrorKind::Closed ==> o == WorkOutcome::Fail(e)),
        polled == Ok::<Readiness, Error>(Readiness::Ready) ==> (*state is Flushing ==> o is FlushDone)
            && (!(*state is Flushing) ==> (o matches WorkOutcome::Fail(f) && f.kind == ErrorKind::Fatal)),
        polled == Ok::<Readiness, Error>(Readiness::Pending) ==> (*state is MarkerReady ==> o is MarkerPolled)
            && (!(*state is MarkerReady) ==> o is Pending),
        o matches WorkOutcome::Fail(f) ==> f.kind != ErrorKind::Closed,
        o is FlushDone ==> *state is Flushing,
        o is MarkerPolled ==> *state is MarkerReady,
        *state is MarkerReady ==> o is MarkerPolled || o is Fail,
        o is Pending ==> !(*state is MarkerReady),
{
    match polled {
        Err(e) => {
            if e.is_closed() {
                WorkOutcome::Fail(Error::fatal("routine returned Closed: routines must handle close, not propagate it"))
            } else {
                WorkOutcome::Fail(e)
            }
        },
        Ok(Readiness::Ready) => match state {
            NodeState::Flushing(_) => WorkOutcome::FlushDone,
            _ => WorkOutcome::Fail(Error::fatal("routine returned Ready without a pending flush")),
        },
        Ok(Readiness::Pending) => match state {
            NodeState::MarkerReady(_) => WorkOutcome::MarkerPolled,
            _ => WorkOutcome::Pending,
        },
    }
}

/// The state after a finished flush: `Flushing(s)` becomes `FlushReady(s)`.
pub fn flush_done<S>(state: NodeState<S>) -> (r: NodeState<S>)
    requires
        state is Flushing,
    ensures
        state matches NodeState::Flushing(s) && r == NodeState::FlushReady(s),
{
    match state {
        NodeState::Flushing(s) => NodeState::FlushReady(s),
        other => other,
    }
}

} // verus!
