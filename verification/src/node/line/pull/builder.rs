//! Building pulled connections.
use crate::graph::Pullable;
use crate::node::line::pull::node::Line;
use crate::node::line::routine::LineRoutine;
use vstd::prelude::*;

verus! {

/// A [`Line`] running `worker` that owns and pulls `pullable`. No edges,
/// no synchronisation and no dynamic dispatch are involved.
pub fn make_pull<In, Out, S, R: LineRoutine<In, Out>, P: Pullable<DataType = In, SignalType = S>>(
    pullable: P,
    worker: R,
) -> (l: Line<In, Out, S, R, P>)
    ensures
        l.worker == worker,
        l.pullable == pullable,
        l.buffer@.len() == 0,
        l.yielded@.len() == 0,
{
    Line::new(worker, pullable)
}

/// Type hints for [`make_pull`].
pub struct Connect<D, S> {
    pub data: core::marker::PhantomData<(D, S)>,
}

impl<D, S> Connect<D, S> {
    /// The same as [`make_pull`].
    pub fn pull<Out, R: LineRoutine<D, Out>, P: Pullable<DataType = D, SignalType = S>>(
        pullable: P,
        worker: R,
    ) -> (l: Line<D, Out, S, R, P>)
        ensures
            l.worker == worker,
            l.pullable == pullable,
            l.buffer@.len() == 0,
            l.yielded@.len() == 0,
    {
        make_pull(pullable, worker)
    }
}

} // verus!
