//! Building polled line nodes: the kind of each edge is settled first, then
//! the node is laid out as a graph of phases with fresh ids.
//!
//! - an input edge is `Sync` (fed from outside through its edge) or `Async`
//!   (fed by parents built into the same graph);
//! - an output edge is `Sync` (pushing into edges added to the node) or stays
//!   `Deferred`: the node is then a sink, or the parent of another node,
//!   which hands it the edge to push into when it is built.
use crate::edge::{Edge, EdgeSender};
use crate::error::Error;
use crate::graph::{Closeable, InputSide, OutputSide};
use crate::node::layout::{
    added_nodes, all_track, build_parents, feed_into, ids_distinct, ids_within, laid_total, AsyncParent, Graph, IdAllocator, Outputs, PhaseKind,
};
use crate::node::line::poll::factory::{LineRoutineFactory, LineWakers};
use crate::node::line::poll::node::new_phases;
use crate::node::line::poll::routine::LineRoutine;
use crate::message::lemma_push;
use vstd::prelude::*;

verus! {

/// How an edge of a node being built is fed.
#[derive(Debug, Clone, Copy, PartialEq, Eq, Structural)]
pub enum EdgeKind {
    /// Not settled yet.
    Deferred,
    /// Crosses threads through an edge of its own.
    Sync,
    /// Links to nodes built into the same graph.
    Async,
}

/// A polled line node being built: its routine's factory, how its edges are
/// fed, its input edge, its parents and its output edges.
#[verifier::reject_recursive_types(In)]
#[verifier::reject_recursive_types(Out)]
#[verifier::reject_recursive_types(S)]
pub struct Node<In, Out, S, F> {
    pub factory: Option<F>,
    pub input_kind: EdgeKind,
    pub output_kind: EdgeKind,
    pub input: Edge<In, S>,
    pub parents: Vec<Box<dyn AsyncParent<In, S>>>,
    pub outputs: Outputs<Out, S>,
    /// How many phases the node's layout held, once it is laid out.
    pub laid: Ghost<nat>,
    /// The channel the node's output was laid out to push into, when it
    /// was laid out as a parent.
    pub feeds: Ghost<int>,
}

/// The last three phases of `g` are the input, work and output phases of
/// its last node, laid out after the phases of every other node.
pub open spec fn own_phases_last(g: Graph) -> bool {
    let n = g.nodes@.len();
    let last = g.pollables@.len() - 1;
    &&& n >= 3
    &&& g.pollables@.len() >= 1
    &&& g.nodes@[n - 3].phase == PhaseKind::Input && g.nodes@[n - 3].node == last
    &&& g.nodes@[n - 2].phase == PhaseKind::Work && g.nodes@[n - 2].node == last
    &&& g.nodes@[n - 1].phase == PhaseKind::Output && g.nodes@[n - 1].node == last
    &&& forall|k: int| 0 <= k < n - 3 ==> (#[trigger] g.nodes@[k]).node < last
}

impl<In: 'static, Out: Clone + 'static, S: Clone + 'static, F: LineRoutineFactory> Node<In, Out, S, F>
    where F::Routine: LineRoutine<In, Out> + 'static,
{
    /// A node whose routine `factory` will create, with both edges unsettled.
    pub fn deferred(factory: F) -> (n: Self)
        ensures
            n.factory == Some(factory),
            n.input_kind == EdgeKind::Deferred,
            n.output_kind == EdgeKind::Deferred,
            n.parents@.len() == 0,
            n.outputs.edges@.len() == 0,
            !n.input.closed(),
    {
        Node {
            factory: Some(factory),
            input_kind: EdgeKind::Deferred,
            output_kind: EdgeKind::Deferred,
            input: Edge::new(),
            parents: Vec::new(),
            outputs: Outputs::new(),
            laid: Ghost(0),
            feeds: Ghost(0),
        }
    }

    /// Settle the input edge as `Sync`; an error when it is already settled.
    pub fn input(self) -> (r: Result<Self, Error>)
        ensures
            self.input_kind == EdgeKind::Deferred <==> r is Ok,
            r matches Ok(n) ==> n.input_kind == EdgeKind::Sync && n.output_kind == self.output_kind
                && n.parents == self.parents && n.factory == self.factory && n.input == self.input
                && n.outputs == self.outputs,
    {
        if self.input_kind != EdgeKind::Deferred {
            return Err(Error::fatal("input edge already settled"));
        }
        let mut node = self;
        node.input_kind = EdgeKind::Sync;
        Ok(node)
    }

    /// Settle the output edge as `Sync`; an error when it is already settled.
    pub fn output(self) -> (r: Result<Self, Error>)
        ensures
            self.output_kind == EdgeKind::Deferred <==> r is Ok,
            r matches Ok(n) ==> n.output_kind == EdgeKind::Sync && n.input_kind == self.input_kind
                && n.parents == self.parents && n.factory == self.factory && n.input == self.input
                && n.outputs == self.outputs,
    {
        if self.output_kind != EdgeKind::Deferred {
            return Err(Error::fatal("output edge already settled"));
        }
        let mut node = self;
        node.output_kind = EdgeKind::Sync;
        Ok(node)
    }

    /// Add a parent, which makes the input edge `Async`; an error when the
    /// input edge is `Sync`.
    pub fn parent(self, parent: Box<dyn AsyncParent<In, S>>) -> (r: Result<Self, Error>)
        ensures
            self.input_kind != EdgeKind::Sync <==> r is Ok,
            r matches Ok(n) ==> n.input_kind == EdgeKind::Async && n.output_kind == self.output_kind
                && n.parents@ == self.parents@.push(parent) && n.factory == self.factory && n.input == self.input
                && n.outputs == self.outputs,
    {
        if self.input_kind == EdgeKind::Sync {
            return Err(Error::fatal("a sync input edge takes no parent"));
        }
        let mut node = self;
        node.input_kind = EdgeKind::Async;
        node.parents.push(parent);
        Ok(node)
    }

    /// Lay the node out into a graph, its output going into `output`: the
    /// parents' phases first, then this node's input, work and output phases.
    fn lay_out(&mut self, output: Outputs<Out, S>, allocator: IdAllocator) -> (r: Result<Graph, Error>)
        ensures
            r is Ok ==> final(self).factory is None,
            final(self).feeds == old(self).feeds,
            r is Ok && old(self).input_kind == EdgeKind::Async ==> feed_into(old(self).parents@, final(self).parents@,
                old(self).input.channel()),
            final(self).parents@.len() == old(self).parents@.len(),
            r is Ok && old(self).input_kind == EdgeKind::Async ==> forall|i: int| 0 <= i < final(self).parents@.len()
                && (#[trigger] old(self).parents@[i]).tracks_layout() ==> final(self).parents@[i].laid_out(),
            r is Ok ==> old(self).factory is Some && old(self).input_kind != EdgeKind::Deferred,
            old(self).factory is Some && old(self).input_kind == EdgeKind::Sync && allocator.next + 3 <= u64::MAX ==> r is Ok,
            r matches Ok(g) ==> {
                &&& g.wf()
                &&& g.allocator.next >= allocator.next
                &&& ids_within(g.nodes@, allocator.next as int, g.allocator.next as int)
                &&& g.nodes@.len() >= 3
                &&& old(self).input_kind == EdgeKind::Sync ==> g.nodes@.len() == 3
                &&& own_phases_last(g)
                &&& final(self).laid@ == g.nodes@.len()
                &&& old(self).input_kind == EdgeKind::Async && all_track(old(self).parents@)
                    ==> g.nodes@.len() == 3 + laid_total(final(self).parents@)
            },
    {
        if self.input_kind == EdgeKind::Deferred {
            return Err(Error::fatal("input edge not settled"));
        }
        let factory = match self.factory.take() {
            Some(f) => f,
            None => return Err(Error::fatal("node already built")),
        };
        let mut graph = Graph::empty(allocator);
        let input_id = graph.allocator.allocate()?;
        let ghost start = graph.allocator.next;
        if self.input_kind == EdgeKind::Async {
            build_parents(&mut self.parents, &self.input, &mut graph)?;
        }
        assert(ids_within(graph.nodes@, start as int, graph.allocator.next as int)) by {
            assert(graph.nodes@ =~= added_nodes(graph.nodes@, Seq::<crate::node::layout::GraphNode>::empty()));
        }
        let work_id = graph.allocator.allocate()?;
        let output_id = graph.allocator.allocate()?;
        let routine = factory.create(LineWakers::new());
        let mut input = Edge::new();
        std::mem::swap(&mut input, &mut self.input);
        let node = new_phases(routine, input, output);
        let phases = vec![(input_id, PhaseKind::Input), (work_id, PhaseKind::Work), (output_id, PhaseKind::Output)];
        let ghost parents_len = graph.nodes@.len();
        let ghost parents_pollables = graph.pollables@.len();
        let ghost before_add = graph.nodes@;
        assert(forall|k: int| 0 <= k < before_add.len() ==> (#[trigger] before_add[k]).node < parents_pollables);
        graph.add_node(Box::new(node), &phases);
        proof {
            let n = graph.nodes@.len();
            assert(graph.nodes@[n - 3].phase == phases@[0].1);
            assert(graph.nodes@[n - 2].phase == phases@[1].1);
            assert(graph.nodes@[n - 1].phase == phases@[2].1);
            assert(graph.pollables@.len() - 1 == parents_pollables);
            assert(graph.pollables.len() == graph.pollables@.len());
            assert(parents_pollables < usize::MAX);
            assert(graph.nodes@[n - 3].node == parents_pollables);
            assert(graph.nodes@[n - 2].node == parents_pollables);
            assert(graph.nodes@[n - 1].node == parents_pollables);
            assert forall|k: int| 0 <= k < n - 3 implies (#[trigger] graph.nodes@[k]).node < parents_pollables by {
                assert(graph.nodes@[k] == before_add[k]);
            }
        }
        assert(ids_within(graph.nodes@, allocator.next as int, graph.allocator.next as int)) by {
            assert forall|k: int| 0 <= k < graph.nodes@.len() implies allocator.next <= (#[trigger] graph.nodes@[k]).id
                < graph.allocator.next by {
                if k >= parents_len {
                    assert(graph.nodes@[k].id == phases@[k - parents_len].0);
                }
            }
        }
        self.laid = Ghost(graph.nodes@.len());
        Ok(graph)
    }

    /// Lay the node out into a graph of its own, allocating from
    /// `allocator`; a node with a `Deferred` output is a sink.
    pub fn build(self, allocator: IdAllocator) -> (r: Result<Graph, Error>)
        ensures
            self.factory is Some && self.input_kind != EdgeKind::Deferred && allocator.next + 3 <= u64::MAX
                && self.input_kind == EdgeKind::Sync ==> r is Ok,
            r is Ok ==> self.input_kind != EdgeKind::Deferred,
            r matches Ok(g) ==> {
                &&& g.wf()
                &&& ids_distinct(g.nodes@)
                &&& ids_within(g.nodes@, allocator.next as int, g.allocator.next as int)
                &&& self.input_kind == EdgeKind::Sync ==> g.nodes@.len() == 3
                &&& g.nodes@.len() >= 3
                &&& own_phases_last(g)
                &&& self.input_kind == EdgeKind::Async && all_track(self.parents@) ==> exists|built: Seq<Box<dyn AsyncParent<In, S>>>|
                    built.len() == self.parents@.len() && (forall|i: int| 0 <= i < built.len() ==> (#[trigger] built[i]).laid_out())
                    && #[trigger] laid_total(built) + 3 == g.nodes@.len()
            },
    {
        let mut node = self;
        let mut outputs = Outputs::new();
        std::mem::swap(&mut outputs, &mut node.outputs);
        let r = node.lay_out(outputs, allocator);
        proof {
            if r is Ok && self.input_kind == EdgeKind::Async && all_track(self.parents@) {
                let built = node.parents@;
                assert forall|i: int| 0 <= i < built.len() implies (#[trigger] built[i]).laid_out() by {
                    assert(self.parents@[i].tracks_layout());
                }
                assert(laid_total(built) + 3 == r->Ok_0.nodes@.len());
            }
        }
        r
    }
}

impl<In: 'static, Out: Clone + 'static, S: Clone + 'static, F: LineRoutineFactory> AsyncParent<Out, S> for Node<In, Out, S, F>
    where F::Routine: LineRoutine<In, Out> + 'static,
{
    open spec fn tracks_layout(&self) -> bool {
        true
    }

    /// Building takes the factory: a node is laid out once.
    open spec fn laid_out(&self) -> bool {
        self.factory is None
    }

    open spec fn laid_size(&self) -> nat {
        self.laid@
    }

    open spec fn output_channel(&self) -> int {
        self.feeds@
    }

    /// Lay the node out as the parent of another: its output goes into `output`.
    fn build(&mut self, output: EdgeSender<Out, S>, allocator: IdAllocator) -> (r: Result<Graph, Error>)
        ensures
            old(self).output_kind != EdgeKind::Deferred ==> r is Err,
            r is Ok ==> old(self).factory is Some && old(self).input_kind != EdgeKind::Deferred,
            old(self).output_kind == EdgeKind::Deferred && old(self).factory is Some && old(self).input_kind == EdgeKind::Sync
                && allocator.next + 3 <= u64::MAX ==> (r matches Ok(g) && g.nodes@.len() == 3),
            r matches Ok(g) ==> g.nodes@.len() >= 3,
            r matches Ok(g) ==> (old(self).input_kind == EdgeKind::Async && all_track(old(self).parents@)
                ==> g.nodes@.len() == 3 + laid_total(final(self).parents@)),
    {
        if self.output_kind != EdgeKind::Deferred {
            return Err(Error::fatal("a parent's output edge is settled by its child"));
        }
        self.feeds = Ghost(output.channel());
        let mut outputs = Outputs::new();
        outputs.add(Box::new(output));
        self.lay_out(outputs, allocator)
    }
}

impl<In, Out, S, F> InputSide<In, S> for Node<In, Out, S, F> {
    fn input_sender(&self) -> EdgeSender<In, S> {
        self.input.sender()
    }
}

impl<In, Out, S, F> OutputSide<Out, S> for Node<In, Out, S, F> {
    /// Output edges are taken while the output edge is `Sync`.
    open spec fn takes_every_output(&self) -> bool {
        self.output_kind == EdgeKind::Sync
    }

    open spec fn output_count(&self) -> nat {
        self.outputs.edges@.len()
    }

    /// Add an output edge; an error unless the output edge is `Sync`.
    fn add_output(&mut self, output: Box<dyn Closeable<Out, S>>) -> (r: Result<(), Error>)
        ensures
            r is Ok <==> old(self).output_kind == EdgeKind::Sync,
            r is Ok ==> final(self).outputs.edges@ == old(self).outputs.edges@.push(output),
            final(self).output_kind == old(self).output_kind,
    {
        if self.output_kind != EdgeKind::Sync {
            return Err(Error::fatal("output edges go on a sync output"));
        }
        proof {
            lemma_push(self.outputs.edges@, output);
        }
        self.outputs.edges.push(output);
        Ok(())
    }
}

} // verus!
