//! Building deduplicating two-input nodes.
use crate::edge::EdgeSender;
use crate::error::Error;
use crate::graph::{InputSide, ParentSide, Pushable, Workable};
use crate::node::biunion::marker::{Left, Right};
use crate::node::biunion::routine::BiunionRoutine;
use crate::node::biunion::sync::node::Biunion;
use crate::signal::Origin;
use crate::message::lemma_push;
use vstd::prelude::*;

verus! {

/// A handle on one input edge (`K` names which) of a node being built.
#[verifier::reject_recursive_types(D)]
#[verifier::reject_recursive_types(S)]
pub struct GetInput<K, D, S> {
    pub sender: EdgeSender<D, S>,
    pub side: core::marker::PhantomData<K>,
}

impl<K, D, S> InputSide<D, S> for GetInput<K, D, S> {
    fn input_sender(&self) -> EdgeSender<D, S> {
        self.sender.handle()
    }
}

/// Handles on both input edges of a node being built.
#[verifier::reject_recursive_types(L)]
#[verifier::reject_recursive_types(R)]
#[verifier::reject_recursive_types(S)]
pub struct Input<L, R, S> {
    pub left: GetInput<Left, L, S>,
    pub right: GetInput<Right, R, S>,
}

/// Parents collected for one input (`K` names which) of a node being built.
pub struct AddWorker<K> {
    pub parents: Vec<Box<dyn Workable>>,
    pub side: core::marker::PhantomData<K>,
}

impl<K> AddWorker<K> {
    /// No parents yet.
    pub fn new() -> (a: Self)
        ensures
            a.parents@.len() == 0,
    {
        AddWorker { parents: Vec::new(), side: core::marker::PhantomData }
    }
}

impl<K> ParentSide for AddWorker<K> {
    open spec fn takes_every_parent(&self) -> bool {
        true
    }

    open spec fn parent_count(&self) -> nat {
        self.parents@.len()
    }

    fn add_workable(&mut self, workable: Box<dyn Workable>) -> (r: Result<(), Error>)
        ensures
            r is Ok,
            final(self).parents@ == old(self).parents@.push(workable),
    {
        proof {
            lemma_push(self.parents@, workable);
        }
        self.parents.push(workable);
        Ok(())
    }
}

/// Parents collected for both inputs of a node being built.
pub struct Workers {
    pub left: AddWorker<Left>,
    pub right: AddWorker<Right>,
}

/// Holds a two-input node while it is being connected, with the parents
/// collected for each of its inputs.
pub struct GraphBuilder<B> {
    pub biunion: B,
    pub workers: Workers,
}

impl<L, R, Out: Clone, S: Origin, W: BiunionRoutine<L, R, Out>> GraphBuilder<Biunion<L, R, Out, S, W>> {
    /// A builder around `biunion`, with no parents collected.
    pub fn new(biunion: Biunion<L, R, Out, S, W>) -> (b: Self)
        ensures
            b.biunion == biunion,
            b.workers.left.parents@.len() == 0,
            b.workers.right.parents@.len() == 0,
    {
        GraphBuilder { biunion, workers: Workers { left: AddWorker::new(), right: AddWorker::new() } }
    }

    /// Handles on the node's two input edges.
    pub fn input(&self) -> (i: Input<L, R, S>)
        ensures
            !i.left.sender.is_closed(),
            !i.right.sender.is_closed(),
    {
        Input {
            left: GetInput { sender: self.biunion.left_input.sender(), side: core::marker::PhantomData },
            right: GetInput { sender: self.biunion.right_input.sender(), side: core::marker::PhantomData },
        }
    }

    /// The parents collected for each input, to add to.
    pub fn workers(&mut self) -> (w: &mut Workers)
        ensures
            *w == old(self).workers,
            final(self).workers == *final(w),
            final(self).biunion == old(self).biunion,
    {
        &mut self.workers
    }

    /// The node, to add outputs to.
    pub fn output(&mut self) -> (b: &mut Biunion<L, R, Out, S, W>)
        ensures
            *b == old(self).biunion,
            final(self).biunion == *final(b),
            final(self).workers == old(self).workers,
    {
        &mut self.biunion
    }

    /// The finished node, with the collected parents after those it had.
    pub fn workable(self) -> (b: Biunion<L, R, Out, S, W>)
        ensures
            b.left_workers@ == self.biunion.left_workers@ + self.workers.left.parents@,
            b.right_workers@ == self.biunion.right_workers@ + self.workers.right.parents@,
            b.worker == self.biunion.worker,
            b.pushes == self.biunion.pushes,
            b.left_input == self.biunion.left_input,
            b.right_input == self.biunion.right_input,
    {
        let mut biunion = self.biunion;
        let mut workers = self.workers;
        biunion.left_workers.append(&mut workers.left.parents);
        biunion.right_workers.append(&mut workers.right.parents);
        biunion
    }
}

/// A builder around a new [`Biunion`] running the routine in
/// `maybe_worker`; the error when there is none.
pub fn make_biunion<L, R, Out: Clone, S: Origin, W: BiunionRoutine<L, R, Out>>(
    maybe_worker: Result<W, Error>,
) -> (r: Result<GraphBuilder<Biunion<L, R, Out, S, W>>, Error>)
    ensures
        maybe_worker is Err <==> r is Err,
        maybe_worker matches Err(e) ==> r == Err::<GraphBuilder<Biunion<L, R, Out, S, W>>, Error>(e),
        r matches Ok(b) ==> {
            &&& maybe_worker == Ok::<W, Error>(b.biunion.worker)
            &&& b.biunion.left_workers@.len() == 0
            &&& b.biunion.right_workers@.len() == 0
            &&& b.biunion.pushes@.len() == 0
            &&& b.workers.left.parents@.len() == 0
            &&& b.workers.right.parents@.len() == 0
        },
{
    let worker = maybe_worker?;
    Ok(GraphBuilder::new(Biunion::of(worker)))
}

} // verus!
