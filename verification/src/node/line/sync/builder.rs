//! Building deduplicating line nodes.
use crate::error::Error;
use crate::graph::Pullable;
use crate::node::line::routine::LineRoutine;
use crate::node::line::sync::bridge::Bridge;
use crate::node::line::sync::node::Line;
use crate::signal::Origin;
use vstd::prelude::*;

verus! {

/// Holds a node while it is being connected.
pub struct GraphBuilder<L> {
    pub line: L,
}

impl<L> GraphBuilder<L> {
    /// A builder around `line`.
    pub fn new(line: L) -> (b: Self)
        ensures
            b.line == line,
    {
        GraphBuilder { line }
    }

    /// The node, to add parents to.
    pub fn workers(&mut self) -> (l: &mut L)
        ensures
            *l == old(self).line,
            final(self).line == *final(l),
    {
        &mut self.line
    }

    /// The node, to take its input from.
    pub fn input(&mut self) -> (l: &mut L)
        ensures
            *l == old(self).line,
            final(self).line == *final(l),
    {
        &mut self.line
    }

    /// The node, to add outputs to.
    pub fn output(&mut self) -> (l: &mut L)
        ensures
            *l == old(self).line,
            final(self).line == *final(l),
    {
        &mut self.line
    }

    /// The finished node, ready to be worked.
    pub fn workable(self) -> (l: L)
        ensures
            l == self.line,
    {
        self.line
    }
}

/// A builder around a new [`Line`] running the routine in `maybe_worker`;
/// the error when there is none.
pub fn make_line<In, Out: Clone, S: Origin, R: LineRoutine<In, Out>>(
    maybe_worker: Result<R, Error>,
) -> (r: Result<GraphBuilder<Line<In, Out, S, R>>, Error>)
    ensures
        maybe_worker is Err <==> r is Err,
        maybe_worker matches Err(e) ==> r == Err::<GraphBuilder<Line<In, Out, S, R>>, Error>(e),
        r matches Ok(b) ==> maybe_worker == Ok::<R, Error>(b.line.worker) && b.line.workers@.len() == 0
            && b.line.pushes@.len() == 0,
{
    let worker = maybe_worker?;
    Ok(GraphBuilder::new(Line::of(worker)))
}

} // verus!
