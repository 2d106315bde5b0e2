//! Building biunion nodes.
use crate::node::biunion::routine::BiunionRoutine;
use crate::node::biunion::work::node::Biunion;
use vstd::prelude::*;

verus! {

/// A boxed [`Biunion`] running `worker`, ready to be connected.
pub fn make_biunion<L, R, Out: Clone, S: Clone, W: BiunionRoutine<L, R, Out>>(
    worker: W,
) -> (b: Box<Biunion<L, R, Out, S, W>>)
    ensures
        b.routine == worker,
        b.worker.left@.len() == 0,
        b.worker.right@.len() == 0,
        b.pushes@.len() == 0,
        !b.input.left.closed(),
        !b.input.right.closed(),
{
    Box::new(Biunion::of(worker))
}

} // verus!
