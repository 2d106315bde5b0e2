//! [`BifurcationRoutine`]: one input, a left and a right output.
use crate::node::bifurcation::marker::{Left, Right};
use crate::node::routine::{Flush, Name, Next, Send};
use vstd::prelude::*;

verus! {

/// A routine with one input and two outputs, each drained separately.
pub trait BifurcationRoutine<In, LeftType, RightType>:
    Send<In> + Next<LeftType, Left> + Next<RightType, Right> + Flush + Name {}

} // verus!
