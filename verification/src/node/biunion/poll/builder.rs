//! Building polled biunion nodes: each of the two inputs is settled as
//! `Sync` or fed by parents (`Async`), the output as `Sync` or left
//! `Deferred`; then the node is laid out as a graph of phases.
use crate::edge::{Edge, EdgeSender};
use crate::error::Error;
use crate::graph::{Closeable, InputSide, OutputSide};
use crate::node::biunion::marker::{Left, Right, Side};
use crate::node::biunion::poll::factory::{BiunionRoutineFactory, BiunionWakers};
use crate::node::biunion::poll::node::{new_phases, Inputs, Phase};
use crate::node::biunion::poll::routine::BiunionRoutine;
use crate::node::layout::{
    added_nodes, all_track, build_parents, feed_into, ids_within, laid_total, AsyncParent, Graph, GraphNode, IdAllocator, Outputs, PhaseKind,
};
use crate::node::line::poll::builder::EdgeKind;
use crate::message::lemma_push;
use vstd::prelude::*;

verus! {

/// A parent for one of the two inputs.
#[verifier::reject_recursive_types(L)]
#[verifier::reject_recursive_types(R)]
#[verifier::reject_recursive_types(S)]
pub enum Parent<L, R, S> {
    Left(Box<dyn AsyncParent<L, S>>),
    Right(Box<dyn AsyncParent<R, S>>),
}

/// The two inputs of a biunion node being built.
#[verifier::reject_recursive_types(L)]
#[verifier::reject_recursive_types(R)]
#[verifier::reject_recursive_types(S)]
pub struct BuilderInput<L, R, S> {
    pub left_kind: EdgeKind,
    pub right_kind: EdgeKind,
    pub left: Edge<L, S>,
    pub right: Edge<R, S>,
    pub left_parents: Vec<Box<dyn AsyncParent<L, S>>>,
    pub right_parents: Vec<Box<dyn AsyncParent<R, S>>>,
}

/// A polled biunion node being built.
#[verifier::reject_recursive_types(L)]
#[verifier::reject_recursive_types(R)]
#[verifier::reject_recursive_types(Out)]
#[verifier::reject_recursive_types(S)]
pub struct Node<L, R, Out, S, F> {
    pub factory: Option<F>,
    pub input: BuilderInput<L, R, S>,
    pub output_kind: EdgeKind,
    pub outputs: Outputs<Out, S>,
    /// How many phases the node's layout held, once it is laid out.
    pub laid: Ghost<nat>,
    /// The channel the node's output was laid out to push into, when it
    /// was laid out as a parent.
    pub feeds: Ghost<int>,
}

/// How many phases the parents of an input held, where they were laid out:
/// none for an input that takes no parents.
pub open spec fn side_total<D, S>(kind: EdgeKind, parents: Seq<Box<dyn AsyncParent<D, S>>>) -> nat {
    if kind == EdgeKind::Async { laid_total(parents) } else { 0 }
}

/// The parents of an input that takes parents all keep the record of
/// their layout.
pub open spec fn side_tracks<D, S>(kind: EdgeKind, parents: Seq<Box<dyn AsyncParent<D, S>>>) -> bool {
    kind == EdgeKind::Async ==> all_track(parents)
}

/// The kind of the input `left` selects.
pub open spec fn kind_of<L, R, S>(input: BuilderInput<L, R, S>, left: bool) -> EdgeKind {
    if left { input.left_kind } else { input.right_kind }
}

impl<L: 'static, R: 'static, Out: Clone + 'static, S: Clone + 'static, F: BiunionRoutineFactory> Node<L, R, Out, S, F>
    where F::Routine: BiunionRoutine<L, R, Out> + 'static,
{
    /// A node whose routine `factory` will create, with every edge unsettled.
    pub fn deferred(factory: F) -> (n: Self)
        ensures
            n.factory == Some(factory),
            n.input.left_kind == EdgeKind::Deferred,
            n.input.right_kind == EdgeKind::Deferred,
            n.output_kind == EdgeKind::Deferred,
            n.input.left_parents@.len() == 0,
            n.input.right_parents@.len() == 0,
    {
        Node {
            factory: Some(factory),
            input: BuilderInput {
                left_kind: EdgeKind::Deferred,
                right_kind: EdgeKind::Deferred,
                left: Edge::new(),
                right: Edge::new(),
                left_parents: Vec::new(),
                right_parents: Vec::new(),
            },
            output_kind: EdgeKind::Deferred,
            outputs: Outputs::new(),
            laid: Ghost(0),
            feeds: Ghost(0),
        }
    }

    /// Settle input `K` as `Sync`; an error when it is already settled.
    pub fn input<K: Side>(self) -> (r: Result<Self, Error>)
        ensures
            kind_of(self.input, K::left()) == EdgeKind::Deferred <==> r is Ok,
            r matches Ok(n) ==> kind_of(n.input, K::left()) == EdgeKind::Sync
                && kind_of(n.input, !K::left()) == kind_of(self.input, !K::left())
                && n.output_kind == self.output_kind && n.factory == self.factory && n.outputs == self.outputs
                && n.input.left == self.input.left && n.input.right == self.input.right
                && n.input.left_parents == self.input.left_parents && n.input.right_parents == self.input.right_parents,
    {
        let mut node = self;
        if K::is_left() {
            if node.input.left_kind != EdgeKind::Deferred {
                return Err(Error::fatal("left input edge already settled"));
            }
            node.input.left_kind = EdgeKind::Sync;
        } else {
            if node.input.right_kind != EdgeKind::Deferred {
                return Err(Error::fatal("right input edge already settled"));
            }
            node.input.right_kind = EdgeKind::Sync;
        }
        Ok(node)
    }

    /// Add a parent to one of the inputs, which makes that input `Async`;
    /// an error when that input is `Sync`.
    pub fn parent(self, parent: Parent<L, R, S>) -> (r: Result<Self, Error>)
        ensures
            kind_of(self.input, parent is Left) != EdgeKind::Sync <==> r is Ok,
            r matches Ok(n) ==> kind_of(n.input, parent is Left) == EdgeKind::Async
                && kind_of(n.input, !(parent is Left)) == kind_of(self.input, !(parent is Left))
                && n.output_kind == self.output_kind && n.factory == self.factory && n.outputs == self.outputs
                && n.input.left == self.input.left && n.input.right == self.input.right
                && (parent matches Parent::Left(p) ==> n.input.left_parents@ == self.input.left_parents@.push(p)
                    && n.input.right_parents == self.input.right_parents)
                && (parent matches Parent::Right(p) ==> n.input.right_parents@ == self.input.right_parents@.push(p)
                    && n.input.left_parents == self.input.left_parents),
    {
        let mut node = self;
        match parent {
            Parent::Left(p) => {
                if node.input.left_kind == EdgeKind::Sync {
                    return Err(Error::fatal("a sync input edge takes no parent"));
                }
                node.input.left_kind = EdgeKind::Async;
                node.input.left_parents.push(p);
            },
            Parent::Right(p) => {
                if node.input.right_kind == EdgeKind::Sync {
                    return Err(Error::fatal("a sync input edge takes no parent"));
                }
                node.input.right_kind = EdgeKind::Async;
                node.input.right_parents.push(p);
            },
        }
        Ok(node)
    }

    /// Settle the output edge as `Sync`; an error when it is already settled.
    pub fn output(self) -> (r: Result<Self, Error>)
        ensures
            self.output_kind == EdgeKind::Deferred <==> r is Ok,
            r matches Ok(n) ==> n.output_kind == EdgeKind::Sync && n.input == self.input && n.factory == self.factory
                && n.outputs == self.outputs,
    {
        if self.output_kind != EdgeKind::Deferred {
            return Err(Error::fatal("output edge already settled"));
        }
        let mut node = self;
        node.output_kind = EdgeKind::Sync;
        Ok(node)
    }

    /// Lay the node out, its output going into `output`: the left parents'
    /// phases, the right parents' phases, then this node's left input,
    /// right input, work and output phases.
    fn lay_out(&mut self, output: Outputs<Out, S>, allocator: IdAllocator) -> (r: Result<Graph, Error>)
        ensures
            r is Ok ==> final(self).factory is None,
            final(self).feeds == old(self).feeds,
            r is Ok && old(self).input.left_kind == EdgeKind::Async ==> feed_into(old(self).input.left_parents@,
                final(self).input.left_parents@, old(self).input.left.channel()),
            r is Ok && old(self).input.right_kind == EdgeKind::Async ==> feed_into(old(self).input.right_parents@,
                final(self).input.right_parents@, old(self).input.right.channel()),
            r is Ok && old(self).input.left_kind == EdgeKind::Async ==> forall|i: int| 0 <= i < final(self).input.left_parents@.len()
                && (#[trigger] old(self).input.left_parents@[i]).tracks_layout() ==> final(self).input.left_parents@[i].laid_out(),
            r is Ok && old(self).input.right_kind == EdgeKind::Async ==> forall|i: int| 0 <= i < final(self).input.right_parents@.len()
                && (#[trigger] old(self).input.right_parents@[i]).tracks_layout() ==> final(self).input.right_parents@[i].laid_out(),
            r is Ok ==> old(self).factory is Some && old(self).input.left_kind != EdgeKind::Deferred
                && old(self).input.right_kind != EdgeKind::Deferred,
            old(self).factory is Some && old(self).input.left_kind == EdgeKind::Sync
                && old(self).input.right_kind == EdgeKind::Sync && allocator.next + 4 <= u64::MAX ==> r is Ok,
            r matches Ok(g) ==> {
                &&& g.wf()
                &&& g.allocator.next >= allocator.next
                &&& ids_within(g.nodes@, allocator.next as int, g.allocator.next as int)
                &&& g.nodes@.len() >= 4
                &&& old(self).input.left_kind == EdgeKind::Sync && old(self).input.right_kind == EdgeKind::Sync
                    ==> g.nodes@.len() == 4
                &&& final(self).laid@ == g.nodes@.len()
                &&& side_tracks(old(self).input.left_kind, old(self).input.left_parents@)
                    && side_tracks(old(self).input.right_kind, old(self).input.right_parents@)
                    ==> g.nodes@.len() == 4 + side_total(old(self).input.left_kind, final(self).input.left_parents@)
                        + side_total(old(self).input.right_kind, final(self).input.right_parents@)
            },
            final(self).input.left_parents@.len() == old(self).input.left_parents@.len(),
            final(self).input.right_parents@.len() == old(self).input.right_parents@.len(),
    {
        if self.input.left_kind == EdgeKind::Deferred || self.input.right_kind == EdgeKind::Deferred {
            return Err(Error::fatal("input edge not settled"));
        }
        let factory = match self.factory.take() {
            Some(f) => f,
            None => return Err(Error::fatal("node already built")),
        };
        let mut graph = Graph::empty(allocator);
        let left_id = graph.allocator.allocate()?;
        let ghost a1 = graph.allocator.next;
        if self.input.left_kind == EdgeKind::Async {
            build_parents(&mut self.input.left_parents, &self.input.left, &mut graph)?;
        }
        assert(ids_within(graph.nodes@, a1 as int, graph.allocator.next as int)) by {
            assert(graph.nodes@ =~= added_nodes(graph.nodes@, Seq::<GraphNode>::empty()));
        }
        let right_id = graph.allocator.allocate()?;
        let ghost a2 = graph.allocator.next;
        let ghost mid = graph.nodes@;
        if self.input.right_kind == EdgeKind::Async {
            build_parents(&mut self.input.right_parents, &self.input.right, &mut graph)?;
        }
        assert(ids_within(graph.nodes@, a1 as int, graph.allocator.next as int)) by {
            assert forall|k: int| 0 <= k < graph.nodes@.len() implies a1 <= (#[trigger] graph.nodes@[k]).id
                < graph.allocator.next by {
                if k < mid.len() {
                    assert(graph.nodes@[k] == mid[k]);
                } else {
                    assert(added_nodes(graph.nodes@, mid)[k - mid.len()] == graph.nodes@[k]);
                }
            }
        }
        assert(forall|k: int| 0 <= k < graph.nodes@.len() ==> (#[trigger] graph.nodes@[k]).id != right_id) by {
            assert forall|k: int| 0 <= k < graph.nodes@.len() implies (#[trigger] graph.nodes@[k]).id != right_id by {
                if k < mid.len() {
                    assert(graph.nodes@[k] == mid[k]);
                    assert(mid[k].id < a2 - 1);
                } else {
                    assert(added_nodes(graph.nodes@, mid)[k - mid.len()] == graph.nodes@[k]);
                }
            }
        }
        let work_id = graph.allocator.allocate()?;
        let output_id = graph.allocator.allocate()?;
        let routine = factory.create(BiunionWakers::new());
        let mut left = Edge::new();
        std::mem::swap(&mut left, &mut self.input.left);
        let mut right = Edge::new();
        std::mem::swap(&mut right, &mut self.input.right);
        let phases_node = new_phases(
            Inputs { left: Phase { target: left, woken: false }, right: Phase { target: right, woken: false } },
            Phase { target: routine, woken: false },
            Phase { target: output, woken: false },
        );
        let phases = vec![
            (left_id, PhaseKind::LeftInput),
            (right_id, PhaseKind::RightInput),
            (work_id, PhaseKind::Work),
            (output_id, PhaseKind::Output),
        ];
        let ghost parents_len = graph.nodes@.len();
        graph.add_node(Box::new(phases_node), &phases);
        assert(ids_within(graph.nodes@, allocator.next as int, graph.allocator.next as int)) by {
            assert forall|k: int| 0 <= k < graph.nodes@.len() implies allocator.next <= (#[trigger] graph.nodes@[k]).id
                < graph.allocator.next by {
                if k >= parents_len {
                    assert(graph.nodes@[k].id == phases@[k - parents_len].0);
                }
            }
        }
        self.laid = Ghost(graph.nodes@.len());
        Ok(graph)
    }

    /// Lay the node out into a graph of its own, allocating from
    /// `allocator`; a node with a `Deferred` output is a sink.
    pub fn build(self, allocator: IdAllocator) -> (r: Result<Graph, Error>)
        ensures
            self.factory is Some && self.input.left_kind == EdgeKind::Sync && self.input.right_kind == EdgeKind::Sync
                && allocator.next + 4 <= u64::MAX ==> r is Ok,
            r is Ok ==> self.input.left_kind != EdgeKind::Deferred && self.input.right_kind != EdgeKind::Deferred,
            r matches Ok(g) ==> {
                &&& g.wf()
                &&& ids_within(g.nodes@, allocator.next as int, g.allocator.next as int)
                &&& g.nodes@.len() >= 4
                &&& self.input.left_kind == EdgeKind::Sync && self.input.right_kind == EdgeKind::Sync
                    ==> g.nodes@.len() == 4
                &&& side_tracks(self.input.left_kind, self.input.left_parents@)
                    && side_tracks(self.input.right_kind, self.input.right_parents@)
                    ==> exists|left: Seq<Box<dyn AsyncParent<L, S>>>, right: Seq<Box<dyn AsyncParent<R, S>>>|
                    left.len() == self.input.left_parents@.len() && right.len() == self.input.right_parents@.len()
                    && (self.input.left_kind == EdgeKind::Async ==> forall|i: int| 0 <= i < left.len() ==> (#[trigger] left[i]).laid_out())
                    && (self.input.right_kind == EdgeKind::Async ==> forall|i: int| 0 <= i < right.len() ==> (#[trigger] right[i]).laid_out())
                    && g.nodes@.len() == 4 + #[trigger] side_total(self.input.left_kind, left) + #[trigger] side_total(self.input.right_kind, right)
            },
    {
        let mut node = self;
        let mut outputs = Outputs::new();
        std::mem::swap(&mut outputs, &mut node.outputs);
        let r = node.lay_out(outputs, allocator);
        proof {
            if r is Ok && side_tracks(self.input.left_kind, self.input.left_parents@)
                && side_tracks(self.input.right_kind, self.input.right_parents@) {
                let left = node.input.left_parents@;
                let right = node.input.right_parents@;
                if self.input.left_kind == EdgeKind::Async {
                    assert forall|i: int| 0 <= i < left.len() implies (#[trigger] left[i]).laid_out() by {
                        assert(self.input.left_parents@[i].tracks_layout());
                    }
                }
                if self.input.right_kind == EdgeKind::Async {
                    assert forall|i: int| 0 <= i < right.len() implies (#[trigger] right[i]).laid_out() by {
                        assert(self.input.right_parents@[i].tracks_layout());
                    }
                }
                assert(r->Ok_0.nodes@.len() == 4 + side_total(self.input.left_kind, left) + side_total(self.input.right_kind, right));
            }
        }
        r
    }
}

impl<L: 'static, R: 'static, Out: Clone + 'static, S: Clone + 'static, F: BiunionRoutineFactory> AsyncParent<Out, S> for Node<L, R, Out, S, F>
    where F::Routine: BiunionRoutine<L, R, Out> + 'static,
{
    open spec fn tracks_layout(&self) -> bool {
        true
    }

    /// Building takes the factory: a node is laid out once.
    open spec fn laid_out(&self) -> bool {
        self.factory is None
    }

    open spec fn laid_size(&self) -> nat {
        self.laid@
    }

    open spec fn output_channel(&self) -> int {
        self.feeds@
    }

    /// Lay the node out as the parent of another: its output goes into `output`.
    fn build(&mut self, output: EdgeSender<Out, S>, allocator: IdAllocator) -> (r: Result<Graph, Error>)
        ensures
            old(self).output_kind != EdgeKind::Deferred ==> r is Err,
            r is Ok ==> old(self).factory is Some && old(self).input.left_kind != EdgeKind::Deferred
                && old(self).input.right_kind != EdgeKind::Deferred,
            old(self).output_kind == EdgeKind::Deferred && old(self).factory is Some
                && old(self).input.left_kind == EdgeKind::Sync && old(self).input.right_kind == EdgeKind::Sync
                && allocator.next + 4 <= u64::MAX ==> (r matches Ok(g) && g.nodes@.len() == 4),
            r matches Ok(g) ==> g.nodes@.len() >= 4,
            r matches Ok(g) ==> (side_tracks(old(self).input.left_kind, old(self).input.left_parents@)
                && side_tracks(old(self).input.right_kind, old(self).input.right_parents@)
                ==> g.nodes@.len() == 4 + side_total(old(self).input.left_kind, final(self).input.left_parents@)
                    + side_total(old(self).input.right_kind, final(self).input.right_parents@)),
    {
        if self.output_kind != EdgeKind::Deferred {
            return Err(Error::fatal("a parent's output edge is settled by its child"));
        }
        self.feeds = Ghost(output.channel());
        let mut outputs = Outputs::new();
        outputs.add(Box::new(output));
        self.lay_out(outputs, allocator)
    }
}

impl<L, R, Out, S, F> InputSide<L, S, Left> for Node<L, R, Out, S, F> {
    fn input_sender(&self) -> EdgeSender<L, S> {
        self.input.left.sender()
    }
}

impl<L, R, Out, S, F> InputSide<R, S, Right> for Node<L, R, Out, S, F> {
    fn input_sender(&self) -> EdgeSender<R, S> {
        self.input.right.sender()
    }
}

impl<L, R, Out, S, F> OutputSide<Out, S> for Node<L, R, Out, S, F> {
    /// Output edges are taken while the output edge is `Sync`.
    open spec fn takes_every_output(&self) -> bool {
        self.output_kind == EdgeKind::Sync
    }

    open spec fn output_count(&self) -> nat {
        self.outputs.edges@.len()
    }

    /// Add an output edge; an error unless the output edge is `Sync`.
    fn add_output(&mut self, output: Box<dyn Closeable<Out, S>>) -> (r: Result<(), Error>)
        ensures
            r is Ok <==> old(self).output_kind == EdgeKind::Sync,
            r is Ok ==> final(self).outputs.edges@ == old(self).outputs.edges@.push(output),
            final(self).output_kind == old(self).output_kind,
    {
        if self.output_kind != EdgeKind::Sync {
            return Err(Error::fatal("output edges go on a sync output"));
        }
        proof {
            lemma_push(self.outputs.edges@, output);
        }
        self.outputs.edges.push(output);
        Ok(())
    }
}

} // verus!
