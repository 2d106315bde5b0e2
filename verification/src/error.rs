//! Errors raised while moving messages through a graph.
use vstd::prelude::*;

verus! {

/// What went wrong.
#[derive(Debug, Clone, Copy, PartialEq, Eq, Structural)]
pub enum ErrorKind {
    /// An edge or a node was shut down; no more messages will flow through it.
    Closed,
    /// A contract of the runtime was broken; the graph cannot continue.
    Fatal,
}

/// An error together with a short human readable reason.
#[derive(Debug, Clone)]
pub struct Error {
    pub kind: ErrorKind,
    pub reason: &'static str,
}

impl Error {
    /// The error reported when an edge or node has been closed.
    pub fn closed() -> (e: Error)
        ensures
            e.kind == ErrorKind::Closed,
    {
        Error { kind: ErrorKind::Closed, reason: "closed" }
    }

    /// A fatal error with the given reason.
    pub fn fatal(reason: &'static str) -> (e: Error)
        ensures
            e.kind == ErrorKind::Fatal,
            e.reason == reason,
    {
        Error { kind: ErrorKind::Fatal, reason }
    }

    /// Whether this error reports a shutdown.
    pub fn is_closed(&self) -> (r: bool)
        ensures
            r == (self.kind == ErrorKind::Closed),
    {
        match self.kind {
            ErrorKind::Closed => true,
            ErrorKind::Fatal => false,
        }
    }
}

/// Whether a result failed because something was closed.
pub open spec fn is_closed_err<T>(r: Result<T, Error>) -> bool {
    r matches Err(e) && e.kind == ErrorKind::Closed
}

} // verus!
