//! [`LineRoutine`]: the routine of all line nodes.
use crate::node::routine::{Flush, Name, Next, Poll, Send};
use vstd::prelude::*;

verus! {

/// A flushable coroutine that accepts a stream of `In` through [`Send`] and
/// produces a stream of `Out` through [`Next`].
///
/// - After [`Send`], [`Next`] is invoked until it yields `None`; then
///   [`Send`] may be invoked again.
/// - [`Flush`] asks the routine to make every output it can available to
///   later [`Next`] calls and to reset the rest of its state. A flush only
///   ever adds output; it never removes any.
/// - [`Next`] yields `None` only when more input is needed.
pub trait LineRoutine<In, Out>: Send<In> + Next<Out> + Flush + Name {}

/// The asynchronous counterpart of [`LineRoutine`]: after a [`Flush`] the
/// node polls the routine until it reports ready.
pub trait AsyncLineRoutine<In, Out>: Send<In> + Next<Out> + Flush + Poll + Name {}

} // verus!
