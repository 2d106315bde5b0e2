//! Building bifurcation nodes, with the outputs of each side collected
//! before the node is finished.
use crate::error::Error;
use crate::graph::{Closeable, OutputSide};
use crate::node::bifurcation::marker::{Left, Right};
use crate::node::bifurcation::routine::BifurcationRoutine;
use crate::node::bifurcation::work::node::Bifurcation;
use crate::message::lemma_push;
use vstd::prelude::*;

verus! {

/// Output edges collected for one side (`K` names which) of a node being built.
#[verifier::reject_recursive_types(D)]
#[verifier::reject_recursive_types(S)]
pub struct AddOutput<K, D, S> {
    pub pushes: Vec<Box<dyn Closeable<D, S>>>,
    pub side: core::marker::PhantomData<K>,
}

impl<K, D, S> AddOutput<K, D, S> {
    /// No output edges yet.
    pub fn new() -> (a: Self)
        ensures
            a.pushes@.len() == 0,
    {
        AddOutput { pushes: Vec::new(), side: core::marker::PhantomData }
    }
}

impl<K, D, S> OutputSide<D, S> for AddOutput<K, D, S> {
    open spec fn takes_every_output(&self) -> bool {
        true
    }

    open spec fn output_count(&self) -> nat {
        self.pushes@.len()
    }

    fn add_output(&mut self, output: Box<dyn Closeable<D, S>>) -> (r: Result<(), Error>)
        ensures
            r is Ok,
            final(self).pushes@ == old(self).pushes@.push(output),
    {
        proof {
            lemma_push(self.pushes@, output);
        }
        self.pushes.push(output);
        Ok(())
    }
}

/// Output edges collected for both sides of a node being built.
#[verifier::reject_recursive_types(L)]
#[verifier::reject_recursive_types(R)]
#[verifier::reject_recursive_types(S)]
pub struct Output<L, R, S> {
    pub left: AddOutput<Left, L, S>,
    pub right: AddOutput<Right, R, S>,
}

/// Holds a bifurcation while it is being connected, with the output edges
/// collected for each of its sides.
#[verifier::reject_recursive_types(L)]
#[verifier::reject_recursive_types(R)]
#[verifier::reject_recursive_types(S)]
pub struct GraphBuilder<B, L, R, S> {
    pub bifurcation: B,
    pub output: Output<L, R, S>,
}

impl<In, L: Clone, R: Clone, S: Clone, W: BifurcationRoutine<In, L, R>> GraphBuilder<Bifurcation<In, L, R, S, W>, L, R, S> {
    /// A builder around `bifurcation`, with no outputs collected.
    pub fn new(bifurcation: Bifurcation<In, L, R, S, W>) -> (b: Self)
        ensures
            b.bifurcation == bifurcation,
            b.output.left.pushes@.len() == 0,
            b.output.right.pushes@.len() == 0,
    {
        GraphBuilder { bifurcation, output: Output { left: AddOutput::new(), right: AddOutput::new() } }
    }

    /// The node, to add parents to.
    pub fn workers(&mut self) -> (b: &mut Bifurcation<In, L, R, S, W>)
        ensures
            *b == old(self).bifurcation,
            final(self).bifurcation == *final(b),
            final(self).output == old(self).output,
    {
        &mut self.bifurcation
    }

    /// The output edges collected for each side, to add to.
    pub fn output(&mut self) -> (o: &mut Output<L, R, S>)
        ensures
            *o == old(self).output,
            final(self).output == *final(o),
            final(self).bifurcation == old(self).bifurcation,
    {
        &mut self.output
    }

    /// The node, to take its input from.
    pub fn input(&self) -> (b: &Bifurcation<In, L, R, S, W>)
        ensures
            *b == self.bifurcation,
    {
        &self.bifurcation
    }

    /// The finished node, with the collected outputs after those it had.
    pub fn workable(self) -> (b: Bifurcation<In, L, R, S, W>)
        ensures
            b.pushes.left@ == self.bifurcation.pushes.left@ + self.output.left.pushes@,
            b.pushes.right@ == self.bifurcation.pushes.right@ + self.output.right.pushes@,
            b.routine == self.bifurcation.routine,
            b.workers == self.bifurcation.workers,
            b.input == self.bifurcation.input,
    {
        let mut bifurcation = self.bifurcation;
        let mut output = self.output;
        bifurcation.pushes.left.append(&mut output.left.pushes);
        bifurcation.pushes.right.append(&mut output.right.pushes);
        bifurcation
    }
}

/// A builder around a new [`Bifurcation`] running the routine in
/// `maybe_worker`; the error when there is none.
pub fn make_bifurcation<In, L: Clone, R: Clone, S: Clone, W: BifurcationRoutine<In, L, R>>(
    maybe_worker: Result<W, Error>,
) -> (r: Result<GraphBuilder<Bifurcation<In, L, R, S, W>, L, R, S>, Error>)
    ensures
        maybe_worker is Err <==> r is Err,
        maybe_worker matches Err(e) ==> r == Err::<GraphBuilder<Bifurcation<In, L, R, S, W>, L, R, S>, Error>(e),
        r matches Ok(b) ==> {
            &&& maybe_worker == Ok::<W, Error>(b.bifurcation.routine)
            &&& b.bifurcation.workers@.len() == 0
            &&& b.bifurcation.pushes.left@.len() == 0
            &&& b.bifurcation.pushes.right@.len() == 0
            &&& b.output.left.pushes@.len() == 0
            &&& b.output.right.pushes@.len() == 0
        },
{
    let worker = maybe_worker?;
    Ok(GraphBuilder::new(Bifurcation::of(worker)))
}

} // verus!
