//! The routine of polled biunion nodes.
use crate::node::biunion::marker::{Left, Right};
use crate::node::routine::{Flush, Name, Next, Poll, Send};
use vstd::prelude::*;

verus! {

/// An asynchronous biunion routine; the contract of
/// [`crate::node::line::poll::LineRoutine`] applies to it.
pub trait BiunionRoutine<LeftType, RightType, Out>:
    Send<LeftType, Left> + Send<RightType, Right> + Next<Out> + Flush + Poll + Name {}

} // verus!
