//! Building bifurcation nodes.
use crate::node::bifurcation::routine::BifurcationRoutine;
use crate::node::bifurcation::work::node::Bifurcation;
use vstd::prelude::*;

verus! {

/// A boxed [`Bifurcation`] running `worker`, ready to be connected.
pub fn make_bifurcation<In, L: Clone, R: Clone, S: Clone, W: BifurcationRoutine<In, L, R>>(
    worker: W,
) -> (b: Box<Bifurcation<In, L, R, S, W>>)
    ensures
        b.routine == worker,
        b.workers@.len() == 0,
        b.pushes.left@.len() == 0,
        b.pushes.right@.len() == 0,
        !b.input.closed(),
{
    Box::new(Bifurcation::of(worker))
}

} // verus!
