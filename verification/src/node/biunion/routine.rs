//! [`BiunionRoutine`]: a left and a right input, one output.
use crate::node::biunion::marker::{Left, Right};
use crate::node::routine::{Flush, Name, Next, Send};
use vstd::prelude::*;

verus! {

/// A routine with two inputs, each sent separately, and one output.
pub trait BiunionRoutine<LeftType, RightType, Out>:
    Send<LeftType, Left> + Send<RightType, Right> + Next<Out> + Flush + Name {}

} // verus!
