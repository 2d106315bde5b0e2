//! Polled line nodes under ids of their own, linked parent to child:
//!
//! - [`TerminalNode`]: fed through its edge, pushing into edges added to it;
//! - [`ParentNode`]: fed through its edge, pushing into the edge of the
//!   child that links it;
//! - [`LinkedNode`]: fed by its parents, pushing into its child's edge;
//! - [`ChildNode`]: fed by its parents, pushing into edges added to it.
//!
//! Linking hands every node of a chain to the caller, parents first, each
//! with its id and ready to be polled.
use crate::edge::{Edge, EdgeSender};
use crate::error::Error;
use crate::graph::{Closeable, InputSide, OutputSide};
use crate::message::lemma_push;
use crate::node::layout::{Outputs, Pollable};
use crate::node::line::poll::node::{new_phases, LineNode};
use crate::node::line::poll::routine::LineRoutine;
use crate::node::state::NodeState;
use vstd::prelude::*;

verus! {

/// A node that can be linked as the parent of another: its output goes
/// into the edge it is given, and it hands back its nodes with their ids.
pub trait Linkable<D, S> {
    fn link(&mut self, edge: EdgeSender<D, S>) -> Result<Vec<(u64, Box<dyn Pollable>)>, Error>;
}

/// Link each of `parents` to a new handle on `input`, collecting their
/// nodes in order into `nodes`.
fn link_parents<D, S>(
    parents: &mut Vec<Box<dyn Linkable<D, S>>>,
    input: &Edge<D, S>,
    nodes: &mut Vec<(u64, Box<dyn Pollable>)>,
) -> (r: Result<(), Error>)
    ensures
        final(nodes)@.len() >= old(nodes)@.len(),
        forall|k: int| 0 <= k < old(nodes)@.len() ==> (#[trigger] final(nodes)@[k]) == old(nodes)@[k],
        old(parents)@.len() == 0 ==> r is Ok && final(nodes)@ == old(nodes)@,
{
    let n = parents.len();
    let mut i: usize = 0;
    while i < n
        invariant
            n == parents@.len(),
            n == old(parents)@.len(),
            i <= n,
            nodes@.len() >= old(nodes)@.len(),
            forall|k: int| 0 <= k < old(nodes)@.len() ==> (#[trigger] nodes@[k]) == old(nodes)@[k],
            i == 0 ==> nodes@ == old(nodes)@,
        decreases n - i,
    {
        let mut linked = parents[i].link(input.sender())?;
        let ghost before = nodes@;
        let ghost added = linked@;
        nodes.append(&mut linked);
        proof {
            crate::node::layout::lemma_append_len(before, added);
            assert forall|k: int| 0 <= k < old(nodes)@.len() implies (#[trigger] nodes@[k]) == old(nodes)@[k] by {
                assert(nodes@[k] == (before + added)[k]);
            }
        }
        i = i + 1;
    }
    Ok(())
}

/// A node fed through its own edge that pushes into the edges added to it.
#[verifier::reject_recursive_types(In)]
#[verifier::reject_recursive_types(Out)]
#[verifier::reject_recursive_types(S)]
pub struct TerminalNode<In, Out, S, R> {
    pub routine: R,
    pub input: Edge<In, S>,
    pub outputs: Outputs<Out, S>,
}

impl<In, Out: Clone, S: Clone, R: LineRoutine<In, Out>> TerminalNode<In, Out, S, R> {
    /// A node running `routine`, with an open input edge and no output.
    pub fn new(routine: R) -> (n: Self)
        ensures
            n.routine == routine,
            !n.input.closed(),
            n.outputs.edges@.len() == 0,
    {
        TerminalNode { routine, input: Edge::new(), outputs: Outputs::new() }
    }

    /// The polled node.
    pub fn build(self) -> (n: LineNode<In, Out, S, R, Outputs<Out, S>>)
        ensures
            n.worker == self.routine,
            n.input == self.input,
            n.output == self.outputs,
            n.state == NodeState::<S>::Running,
    {
        new_phases(self.routine, self.input, self.outputs)
    }
}

impl<In, Out, S, R> InputSide<In, S> for TerminalNode<In, Out, S, R> {
    fn input_sender(&self) -> EdgeSender<In, S> {
        self.input.sender()
    }
}

impl<In, Out, S, R> OutputSide<Out, S> for TerminalNode<In, Out, S, R> {
    open spec fn takes_every_output(&self) -> bool {
        true
    }

    open spec fn output_count(&self) -> nat {
        self.outputs.edges@.len()
    }

    fn add_output(&mut self, output: Box<dyn Closeable<Out, S>>) -> (r: Result<(), Error>)
        ensures
            r is Ok,
            final(self).outputs.edges@ == old(self).outputs.edges@.push(output),
    {
        proof {
            lemma_push(self.outputs.edges@, output);
        }
        self.outputs.edges.push(output);
        Ok(())
    }
}

/// A node fed through its own edge whose output goes into the edge of the
/// child that links it.
#[verifier::reject_recursive_types(In)]
#[verifier::reject_recursive_types(S)]
pub struct ParentNode<In, Out, S, R> {
    pub node_id: u64,
    pub routine: Option<R>,
    pub input: Edge<In, S>,
    pub phantom: core::marker::PhantomData<Out>,
}

impl<In, Out, S, R> ParentNode<In, Out, S, R> {
    /// A node with id `node_id` running `routine`.
    pub fn new(node_id: u64, routine: R) -> (n: Self)
        ensures
            n.node_id == node_id,
            n.routine == Some(routine),
            !n.input.closed(),
    {
        ParentNode { node_id, routine: Some(routine), input: Edge::new(), phantom: core::marker::PhantomData }
    }
}

impl<In: 'static, Out: Clone + 'static, S: Clone + 'static, R: LineRoutine<In, Out> + 'static> Linkable<Out, S> for ParentNode<In, Out, S, R> {
    /// This node alone, pushing into `edge`; an error when it was linked before.
    fn link(&mut self, edge: EdgeSender<Out, S>) -> (r: Result<Vec<(u64, Box<dyn Pollable>)>, Error>)
        ensures
            r is Ok <==> old(self).routine is Some,
            r matches Ok(v) ==> v@.len() == 1 && v@[0].0 == old(self).node_id,
            final(self).routine is None,
            final(self).node_id == old(self).node_id,
    {
        let routine = match self.routine.take() {
            Some(r) => r,
            None => return Err(Error::fatal("node already linked")),
        };
        let mut outputs = Outputs::new();
        outputs.add(Box::new(edge));
        let mut input = Edge::new();
        std::mem::swap(&mut input, &mut self.input);
        let node: Box<dyn Pollable> = Box::new(new_phases(routine, input, outputs));
        let mut nodes: Vec<(u64, Box<dyn Pollable>)> = Vec::new();
        proof {
            lemma_push(nodes@, (self.node_id, node));
        }
        nodes.push((self.node_id, node));
        Ok(nodes)
    }
}

impl<In, Out, S, R> InputSide<In, S> for ParentNode<In, Out, S, R> {
    fn input_sender(&self) -> EdgeSender<In, S> {
        self.input.sender()
    }
}

/// A node fed by its parents whose output goes into the edge of the child
/// that links it.
#[verifier::reject_recursive_types(In)]
#[verifier::reject_recursive_types(S)]
pub struct LinkedNode<In, Out, S, R> {
    pub node_id: u64,
    pub routine: Option<R>,
    pub input: Edge<In, S>,
    pub parents: Vec<Box<dyn Linkable<In, S>>>,
    pub phantom: core::marker::PhantomData<Out>,
}

impl<In, Out, S, R> LinkedNode<In, Out, S, R> {
    /// A node with id `node_id` running `routine`, fed by `parent`.
    pub fn new(node_id: u64, routine: R, parent: Box<dyn Linkable<In, S>>) -> (n: Self)
        ensures
            n.node_id == node_id,
            n.routine == Some(routine),
            n.parents@ == Seq::<Box<dyn Linkable<In, S>>>::empty().push(parent),
    {
        let mut parents: Vec<Box<dyn Linkable<In, S>>> = Vec::new();
        parents.push(parent);
        LinkedNode { node_id, routine: Some(routine), input: Edge::new(), parents, phantom: core::marker::PhantomData }
    }

    /// One more parent feeding the same input.
    pub fn merge(self, parent: Box<dyn Linkable<In, S>>) -> (n: Self)
        ensures
            n.node_id == self.node_id,
            n.routine == self.routine,
            n.parents@ == self.parents@.push(parent),
    {
        let mut node = self;
        node.parents.push(parent);
        node
    }
}

impl<In: 'static, Out: Clone + 'static, S: Clone + 'static, R: LineRoutine<In, Out> + 'static> Linkable<Out, S> for LinkedNode<In, Out, S, R> {
    /// The parents' nodes, then this node, pushing into `edge`; an error
    /// when it was linked before.
    fn link(&mut self, edge: EdgeSender<Out, S>) -> (r: Result<Vec<(u64, Box<dyn Pollable>)>, Error>)
        ensures
            old(self).routine is None ==> r is Err,
            old(self).routine is Some && old(self).parents@.len() == 0 ==> r is Ok,
            r matches Ok(v) ==> v@.len() >= 1 && v@.last().0 == old(self).node_id,
            old(self).parents@.len() == 0 ==> (r matches Ok(v) ==> v@.len() == 1),
            final(self).routine is None,
            final(self).node_id == old(self).node_id,
    {
        let routine = match self.routine.take() {
            Some(r) => r,
            None => return Err(Error::fatal("node already linked")),
        };
        let mut nodes: Vec<(u64, Box<dyn Pollable>)> = Vec::new();
        link_parents(&mut self.parents, &self.input, &mut nodes)?;
        let mut outputs = Outputs::new();
        outputs.add(Box::new(edge));
        let mut input = Edge::new();
        std::mem::swap(&mut input, &mut self.input);
        let node: Box<dyn Pollable> = Box::new(new_phases(routine, input, outputs));
        proof {
            lemma_push(nodes@, (self.node_id, node));
        }
        nodes.push((self.node_id, node));
        Ok(nodes)
    }
}

/// A node fed by its parents that pushes into the edges added to it.
#[verifier::reject_recursive_types(In)]
#[verifier::reject_recursive_types(Out)]
#[verifier::reject_recursive_types(S)]
pub struct ChildNode<In, Out, S, R> {
    pub node_id: u64,
    pub routine: R,
    pub input: Edge<In, S>,
    pub outputs: Outputs<Out, S>,
    pub parents: Vec<Box<dyn Linkable<In, S>>>,
}

impl<In: 'static, Out: Clone + 'static, S: Clone + 'static, R: LineRoutine<In, Out> + 'static> ChildNode<In, Out, S, R> {
    /// A node with id `node_id` running `routine`, fed by `parent`.
    pub fn new(node_id: u64, routine: R, parent: Box<dyn Linkable<In, S>>) -> (n: Self)
        ensures
            n.node_id == node_id,
            n.routine == routine,
            n.parents@ == Seq::<Box<dyn Linkable<In, S>>>::empty().push(parent),
            n.outputs.edges@.len() == 0,
    {
        let mut parents: Vec<Box<dyn Linkable<In, S>>> = Vec::new();
        parents.push(parent);
        ChildNode { node_id, routine, input: Edge::new(), outputs: Outputs::new(), parents }
    }

    /// One more parent feeding the same input.
    pub fn merge(self, parent: Box<dyn Linkable<In, S>>) -> (n: Self)
        ensures
            n.node_id == self.node_id,
            n.routine == self.routine,
            n.parents@ == self.parents@.push(parent),
    {
        let mut node = self;
        node.parents.push(parent);
        node
    }

    /// Link every parent, then this node: every node of the chain with its
    /// id, parents first and this node last.
    pub fn spawn(self) -> (r: Result<Vec<(u64, Box<dyn Pollable>)>, Error>)
        ensures
            r matches Ok(v) ==> v@.len() >= 1 && v@.last().0 == self.node_id,
            self.parents@.len() == 0 ==> (r matches Ok(v) && v@.len() == 1),
    {
        let mut node = self;
        let mut nodes: Vec<(u64, Box<dyn Pollable>)> = Vec::new();
        link_parents(&mut node.parents, &node.input, &mut nodes)?;
        let id = node.node_id;
        let line: Box<dyn Pollable> = Box::new(new_phases(node.routine, node.input, node.outputs));
        let ghost before = nodes@;
        proof {
            lemma_push(before, (id, line));
        }
        nodes.push((id, line));
        Ok(nodes)
    }
}

impl<In, Out, S, R> OutputSide<Out, S> for ChildNode<In, Out, S, R> {
    open spec fn takes_every_output(&self) -> bool {
        true
    }

    open spec fn output_count(&self) -> nat {
        self.outputs.edges@.len()
    }

    fn add_output(&mut self, output: Box<dyn Closeable<Out, S>>) -> (r: Result<(), Error>)
        ensures
            r is Ok,
            final(self).outputs.edges@ == old(self).outputs.edges@.push(output),
    {
        proof {
            lemma_push(self.outputs.edges@, output);
        }
        self.outputs.edges.push(output);
        Ok(())
    }
}

} // verus!
