//! [`Bridge`]: feed a worked node from a pulled chain.
use crate::error::Error;
use crate::graph::{Pullable, Pushable, Workable};
use crate::node::line::routine::LineRoutine;
use crate::node::line::work::node::Line;
use vstd::prelude::*;

verus! {

/// Pulls its parent when worked and pushes what it got into its child's edge.
pub struct Bridge<P, Q> {
    pub pullable: P,
    pub pushable: Q,
}

impl<P: Pullable, Q: Pushable<P::DataType, P::SignalType>> Bridge<P, Q> {
    /// A bridge from `pullable` into `pushable`.
    pub fn new(pullable: P, pushable: Q) -> (b: Self)
        ensures
            b.pullable == pullable,
            b.pushable == pushable,
    {
        Bridge { pullable, pushable }
    }

    /// What one step promises of the node before it (`before`) and after it
    /// (`after`) when it returned `r`.
    pub open spec fn stepped(before: Self, after: Self, r: Result<(), Error>) -> bool {
        &&& r is Ok ==> after.pushable.sent().len() == before.pushable.sent().len() + 1
            && after.pushable.sent().drop_last() == before.pushable.sent()
            && (before.pullable.keeps_record() ==> after.pullable.yielded() == before.pullable.yielded().push(after.pushable.sent().last()))
        &&& r is Err ==> after.pushable.sent() == before.pushable.sent()
    }

    /// Pull one message and push it on.
    pub fn step(&mut self) -> (r: Result<(), Error>)
        ensures
            Self::stepped(*old(self), *final(self), r),
    {
        let message = self.pullable.pull()?;
        let r = self.pushable.push(message);
        proof {
            if r is Ok {
                assert(self.pushable.sent().drop_last() =~= old(self).pushable.sent());
            }
        }
        r
    }
}

impl<P: Pullable, Q: Pushable<P::DataType, P::SignalType>> Workable for Bridge<P, Q> {
    fn work(&mut self) -> (r: Result<(), Error>)
        ensures
            Self::stepped(*old(self), *final(self), r),
    {
        self.step()
    }
}

/// A worked [`Line`] running `worker`, fed by the pulled chain `pullable`,
/// which it owns and works through a [`Bridge`].
pub fn from_pull<In: 'static, Out: Clone, S: Clone + 'static, R: LineRoutine<In, Out>, P: Pullable<DataType = In, SignalType = S> + 'static>(
    pullable: P,
    worker: R,
) -> (l: Box<Line<In, Out, S, R>>)
    ensures
        l.worker == worker,
        l.workers@.len() == 1,
        l.pushes@.len() == 0,
        !l.input.closed(),
{
    let mut line = Line::of(worker);
    let bridge = Bridge::new(pullable, line.input.sender());
    line.add_worker(Box::new(bridge));
    Box::new(line)
}

} // verus!
