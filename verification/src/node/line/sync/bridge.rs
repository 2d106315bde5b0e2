//! Feeding a deduplicating line node from a pulled chain.
use crate::error::Error;
use crate::graph::Pullable;
use crate::node::line::routine::LineRoutine;
use crate::node::line::sync::builder::GraphBuilder;
use crate::node::line::sync::node::Line;
use crate::message::lemma_push;
use crate::signal::Origin;
use vstd::prelude::*;

pub use crate::node::line::work::bridge::Bridge;

verus! {

/// A builder around a new [`Line`] running the routine in `maybe_worker`,
/// fed by `pullable` through a [`Bridge`]; the error when there is no routine.
pub fn bridge_nosync<In: 'static, Out: Clone, S: Origin + 'static, R: LineRoutine<In, Out>, P: Pullable<DataType = In, SignalType = S> + 'static>(
    pullable: P,
    maybe_worker: Result<R, Error>,
) -> (r: Result<GraphBuilder<Line<In, Out, S, R>>, Error>)
    ensures
        maybe_worker is Err <==> r is Err,
        r matches Ok(b) ==> maybe_worker == Ok::<R, Error>(b.line.worker) && b.line.workers@.len() == 1
            && b.line.pushes@.len() == 0,
{
    let worker = maybe_worker?;
    let mut line = Line::of(worker);
    let bridge = Bridge::new(pullable, line.input.sender());
    let parent: Box<dyn crate::graph::Workable> = Box::new(bridge);
    proof {
        lemma_push(line.workers@, parent);
    }
    line.workers.push(parent);
    Ok(GraphBuilder::new(line))
}

} // verus!
