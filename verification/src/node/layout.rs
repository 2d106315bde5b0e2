//! Laying polled nodes out as a graph of phases, each phase under an id of
//! its own, ready for a scheduler that polls a phase when its id is woken.
use crate::edge::EdgeSender;
use crate::error::Error;
use crate::graph::{Closeable, Pushable};
use crate::message::{lemma_push, Message};
use crate::node::routine::Readiness;
use vstd::prelude::*;

verus! {

/// Hands out ids in increasing order.
pub struct IdAllocator {
    pub next: u64,
}

impl IdAllocator {
    /// An allocator whose first id is 0.
    pub fn new() -> (a: Self)
        ensures
            a.next == 0,
    {
        IdAllocator { next: 0 }
    }

    /// The next id; a fatal error once every id has been handed out.
    pub fn allocate(&mut self) -> (r: Result<u64, Error>)
        ensures
            old(self).next < u64::MAX <==> r is Ok,
            r matches Ok(id) ==> id == old(self).next && final(self).next == old(self).next + 1,
            r is Err ==> final(self).next == old(self).next,
    {
        if self.next == u64::MAX {
            return Err(Error::fatal("no id left"));
        }
        let id = self.next;
        self.next = self.next + 1;
        Ok(id)
    }
}

/// The phase of a node that an id stands for.
#[derive(Debug, Clone, Copy, PartialEq, Eq, Structural)]
pub enum PhaseKind {
    Input,
    LeftInput,
    RightInput,
    Work,
    Output,
}

/// A node that is polled one phase at a time.
pub trait Pollable {
    fn poll_phase(&mut self, phase: PhaseKind) -> Result<Readiness, Error>;
}

/// One phase in a graph: its id, which phase it is, and the index of the
/// node it belongs to among the graph's pollables.
#[derive(Debug, Clone, Copy, PartialEq, Eq, Structural)]
pub struct GraphNode {
    pub id: u64,
    pub phase: PhaseKind,
    pub node: usize,
}

/// No two phases share an id.
pub open spec fn ids_distinct(nodes: Seq<GraphNode>) -> bool {
    forall|i: int, j: int| 0 <= i < j < nodes.len() ==> (#[trigger] nodes[i]).id != (#[trigger] nodes[j]).id
}

/// Every id lies in `lo .. hi`.
pub open spec fn ids_within(nodes: Seq<GraphNode>, lo: int, hi: int) -> bool {
    forall|i: int| 0 <= i < nodes.len() ==> lo <= (#[trigger] nodes[i]).id < hi
}

/// The phases of a set of polled nodes and the allocator their ids came from.
pub struct Graph {
    pub allocator: IdAllocator,
    pub nodes: Vec<GraphNode>,
    pub pollables: Vec<Box<dyn Pollable>>,
}

impl Graph {
    /// Ids are distinct and were all handed out by the allocator, and every
    /// phase names one of the graph's nodes.
    pub open spec fn wf(&self) -> bool {
        &&& ids_distinct(self.nodes@)
        &&& ids_within(self.nodes@, 0, self.allocator.next as int)
        &&& forall|i: int| 0 <= i < self.nodes@.len() ==> (#[trigger] self.nodes@[i]).node < self.pollables@.len()
    }

    /// A graph with no nodes that goes on allocating from `allocator`.
    pub fn empty(allocator: IdAllocator) -> (g: Self)
        ensures
            g.wf(),
            g.allocator == allocator,
            g.nodes@.len() == 0,
            g.pollables@.len() == 0,
    {
        Graph { allocator, nodes: Vec::new(), pollables: Vec::new() }
    }

    /// Add `pollable` with its phases, under the ids in `ids`, in order.
    pub fn add_node(&mut self, pollable: Box<dyn Pollable>, phases: &Vec<(u64, PhaseKind)>)
        requires
            old(self).wf(),
            forall|i: int| 0 <= i < phases@.len() ==> (#[trigger] phases@[i]).0 < old(self).allocator.next,
            forall|i: int, j: int| 0 <= i < j < phases@.len() ==> (#[trigger] phases@[i]).0 != (#[trigger] phases@[j]).0,
            forall|i: int, k: int| 0 <= i < phases@.len() && 0 <= k < old(self).nodes@.len()
                ==> (#[trigger] phases@[i]).0 != (#[trigger] old(self).nodes@[k]).id,
        ensures
            final(self).wf(),
            final(self).allocator == old(self).allocator,
            final(self).pollables@.len() == old(self).pollables@.len() + 1,
            final(self).nodes@.len() == old(self).nodes@.len() + phases@.len(),
            forall|k: int| 0 <= k < old(self).nodes@.len() ==> (#[trigger] final(self).nodes@[k]) == old(self).nodes@[k],
            forall|k: int| old(self).nodes@.len() <= k < final(self).nodes@.len() ==> (#[trigger] final(self).nodes@[k]) == (GraphNode {
                id: phases@[k - old(self).nodes@.len()].0,
                phase: phases@[k - old(self).nodes@.len()].1,
                node: old(self).pollables@.len() as usize,
            }),
    {
        let index = self.pollables.len();
        proof {
            lemma_push(self.pollables@, pollable);
        }
        self.pollables.push(pollable);
        let mut i: usize = 0;
        while i < phases.len()
            invariant
                i <= phases@.len(),
                index == old(self).pollables@.len(),
                self.pollables@.len() == index + 1,
                self.allocator == old(self).allocator,
                self.nodes@.len() == old(self).nodes@.len() + i,
                forall|k: int| 0 <= k < old(self).nodes@.len() ==> (#[trigger] self.nodes@[k]) == old(self).nodes@[k],
                forall|k: int| old(self).nodes@.len() <= k < self.nodes@.len() ==> (#[trigger] self.nodes@[k]) == (GraphNode {
                    id: phases@[k - old(self).nodes@.len()].0,
                    phase: phases@[k - old(self).nodes@.len()].1,
                    node: index,
                }),
                ids_distinct(old(self).nodes@),
                ids_within(old(self).nodes@, 0, old(self).allocator.next as int),
                forall|k: int| 0 <= k < old(self).nodes@.len() ==> (#[trigger] old(self).nodes@[k]).node < index,
                forall|k: int| 0 <= k < phases@.len() ==> (#[trigger] phases@[k]).0 < old(self).allocator.next,
                forall|a: int, b: int| 0 <= a < b < phases@.len() ==> (#[trigger] phases@[a]).0 != (#[trigger] phases@[b]).0,
                forall|a: int, k: int| 0 <= a < phases@.len() && 0 <= k < old(self).nodes@.len()
                    ==> (#[trigger] phases@[a]).0 != (#[trigger] old(self).nodes@[k]).id,
            decreases phases@.len() - i,
        {
            let (id, phase) = phases[i];
            self.nodes.push(GraphNode { id, phase, node: index });
            i = i + 1;
        }
        let ghost n = old(self).nodes@.len();
        assert forall|a: int, b: int| 0 <= a < b < self.nodes@.len() implies (#[trigger] self.nodes@[a]).id
            != (#[trigger] self.nodes@[b]).id by {
            if b >= n && a >= n {
                assert(phases@[a - n].0 != phases@[b - n].0);
            } else if b >= n {
                assert(phases@[b - n].0 != old(self).nodes@[a].id);
            } else {
                assert(self.nodes@[a] == old(self).nodes@[a]);
                assert(self.nodes@[b] == old(self).nodes@[b]);
            }
        }
        assert forall|a: int| 0 <= a < self.nodes@.len() implies 0 <= (#[trigger] self.nodes@[a]).id < self.allocator.next
            && self.nodes@[a].node < self.pollables@.len() by {
            if a >= n {
                assert(phases@[a - n].0 < self.allocator.next);
            } else {
                assert(self.nodes@[a] == old(self).nodes@[a]);
            }
        }
    }

    /// Take over the nodes of `other`, which went on allocating after this
    /// graph: its ids are fresh here, and its allocator becomes this one's.
    pub fn merge(&mut self, other: Graph)
        requires
            old(self).wf(),
            other.wf(),
            other.allocator.next >= old(self).allocator.next,
            ids_within(other.nodes@, old(self).allocator.next as int, other.allocator.next as int),
            old(self).pollables@.len() + other.pollables@.len() <= usize::MAX,
        ensures
            merged(*old(self), other, *final(self)),
    {
        let mut other = other;
        let offset = self.pollables.len();
        let ghost old_nodes = self.nodes@;
        let ghost other_nodes = other.nodes@;
        let ghost other_count = other.pollables@.len();
        let mut i: usize = 0;
        while i < other.nodes.len()
            invariant
                i <= other.nodes@.len(),
                other.nodes@ == other_nodes,
                offset == old(self).pollables@.len(),
                self.pollables == old(self).pollables,
                self.allocator == old(self).allocator,
                self.nodes@.len() == old_nodes.len() + i,
                forall|k: int| 0 <= k < old_nodes.len() ==> (#[trigger] self.nodes@[k]) == old_nodes[k],
                forall|k: int| old_nodes.len() <= k < self.nodes@.len() ==> (#[trigger] self.nodes@[k]).id == other_nodes[k - old_nodes.len()].id
                    && self.nodes@[k].node == other_nodes[k - old_nodes.len()].node + offset
                    && self.nodes@[k].phase == other_nodes[k - old_nodes.len()].phase,
                old_nodes == old(self).nodes@,
                other.wf(),
                old(self).wf(),
                other_count == other.pollables@.len(),
                offset + other_count <= usize::MAX,
            decreases other.nodes@.len() - i,
        {
            let n = other.nodes[i];
            self.nodes.push(GraphNode { id: n.id, phase: n.phase, node: n.node + offset });
            i = i + 1;
        }
        let ghost before = self.pollables@;
        let ghost moved = other.pollables@;
        self.pollables.append(&mut other.pollables);
        proof {
            lemma_append_len(before, moved);
        }
        self.allocator = other.allocator;
        let ghost m = old_nodes.len();
        assert forall|a: int, b: int| 0 <= a < b < self.nodes@.len() implies (#[trigger] self.nodes@[a]).id
            != (#[trigger] self.nodes@[b]).id by {
            if a >= m {
                assert(other_nodes[a - m].id != other_nodes[b - m].id);
            } else if b >= m {
                assert(old(self).allocator.next <= other_nodes[b - m].id);
                assert(self.nodes@[a] == old_nodes[a]);
            } else {
                assert(self.nodes@[a] == old_nodes[a]);
                assert(self.nodes@[b] == old_nodes[b]);
            }
        }
        assert forall|a: int| 0 <= a < self.nodes@.len() implies 0 <= (#[trigger] self.nodes@[a]).id < self.allocator.next
            && self.nodes@[a].node < self.pollables@.len() by {
            if a >= m {
                assert(other_nodes[a - m].id < other.allocator.next);
                assert(other_nodes[a - m].node < other_count);
            } else {
                assert(self.nodes@[a] == old_nodes[a]);
            }
        }
        assert forall|a: int| 0 <= a < added_nodes(self.nodes@, old_nodes).len() implies old(self).allocator.next
            <= (#[trigger] added_nodes(self.nodes@, old_nodes)[a]).id < other.allocator.next by {
            assert(added_nodes(self.nodes@, old_nodes)[a] == self.nodes@[a + m]);
            assert(other_nodes[a].id >= old(self).allocator.next);
        }
        proof {
            reveal(phases_carried);
        }
    }
}

/// The phases of `after` past those of `before` are those of `other`, in
/// order, each with its id and phase kind and its node index moved past
/// `before`'s pollables.
#[verifier::opaque]
pub open spec fn phases_carried(before: Graph, other: Graph, after: Graph) -> bool {
    forall|j: int| before.nodes@.len() <= j < after.nodes@.len() ==> {
        let o = other.nodes@[j - before.nodes@.len()];
        &&& (#[trigger] after.nodes@[j]).id == o.id
        &&& after.nodes@[j].phase == o.phase
        &&& after.nodes@[j].node == o.node + before.pollables@.len()
    }
}

/// What [`Graph::merge`] makes of `before` and `other`: a well-formed
/// graph with `other`'s allocator whose phases are those of `before`,
/// unchanged, followed by those of `other` in order, each with its id
/// and phase and its node index moved past `before`'s pollables.
pub open spec fn merged(before: Graph, other: Graph, after: Graph) -> bool {
    &&& after.wf()
    &&& after.allocator == other.allocator
    &&& after.nodes@.len() == before.nodes@.len() + other.nodes@.len()
    &&& after.pollables@.len() == before.pollables@.len() + other.pollables@.len()
    &&& forall|k: int| 0 <= k < before.nodes@.len() ==> (#[trigger] after.nodes@[k]) == before.nodes@[k]
    &&& ids_within(added_nodes(after.nodes@, before.nodes@), before.allocator.next as int, other.allocator.next as int)
    &&& phases_carried(before, other, after)
}

/// The phase of `other` at `k` is carried to `after` right past the phases
/// of `before`.
proof fn lemma_carried_at(before: Graph, other: Graph, after: Graph, k: int)
    requires
        phases_carried(before, other, after),
        after.nodes@.len() == before.nodes@.len() + other.nodes@.len(),
        0 <= k < other.nodes@.len(),
    ensures
        after.nodes@[before.nodes@.len() + k].id == other.nodes@[k].id,
        after.nodes@[before.nodes@.len() + k].phase == other.nodes@[k].phase,
        after.nodes@[before.nodes@.len() + k].node == other.nodes@[k].node + before.pollables@.len(),
{
    reveal(phases_carried);
    let j = before.nodes@.len() + k;
    assert(j - before.nodes@.len() == k);
    assert(after.nodes@[j].id == other.nodes@[j - before.nodes@.len()].id);
}

/// Merging carries every phase over as it was: each phase of `other`
/// is found in the merged graph under its own id, with its own phase
/// kind, on its own node moved past `before`'s nodes; and whatever the
/// merged graph holds under an id of `other` is that phase.
pub proof fn merge_keeps_phases(before: Graph, other: Graph, after: Graph)
    requires
        phases_carried(before, other, after),
        after.nodes@.len() == before.nodes@.len() + other.nodes@.len(),
        ids_distinct(after.nodes@),
    ensures
        forall|k: int| 0 <= k < other.nodes@.len() ==> exists|j: int| 0 <= j < after.nodes@.len()
            && (#[trigger] after.nodes@[j]).id == (#[trigger] other.nodes@[k]).id
            && after.nodes@[j].phase == other.nodes@[k].phase
            && after.nodes@[j].node == other.nodes@[k].node + before.pollables@.len(),
        forall|j: int, k: int| 0 <= j < after.nodes@.len() && 0 <= k < other.nodes@.len()
            && (#[trigger] after.nodes@[j]).id == (#[trigger] other.nodes@[k]).id ==> after.nodes@[j].phase == other.nodes@[k].phase,
{
    let m = before.nodes@.len();
    assert forall|k: int| 0 <= k < other.nodes@.len() implies exists|j: int| 0 <= j < after.nodes@.len()
        && (#[trigger] after.nodes@[j]).id == (#[trigger] other.nodes@[k]).id
        && after.nodes@[j].phase == other.nodes@[k].phase
        && after.nodes@[j].node == other.nodes@[k].node + before.pollables@.len() by {
        lemma_carried_at(before, other, after, k);
        let w = m + k;
        assert(0 <= w < after.nodes@.len());
    }
    assert forall|j: int, k: int| 0 <= j < after.nodes@.len() && 0 <= k < other.nodes@.len()
        && (#[trigger] after.nodes@[j]).id == (#[trigger] other.nodes@[k]).id implies after.nodes@[j].phase == other.nodes@[k].phase by {
        lemma_carried_at(before, other, after, k);
        let w = m + k;
        if j < w {
            assert(after.nodes@[j].id != after.nodes@[w].id);
        } else if j > w {
            assert(after.nodes@[w].id != after.nodes@[j].id);
        }
    }
}

/// The phases `new` holds beyond its prefix `old`.
pub open spec fn added_nodes(new: Seq<GraphNode>, old: Seq<GraphNode>) -> Seq<GraphNode> {
    new.subrange(old.len() as int, new.len() as int)
}

/// Appending sequences adds their lengths, whatever the element type.
pub proof fn lemma_append_len<A>(a: Seq<A>, b: Seq<A>)
    ensures
        (a + b).len() == a.len() + b.len(),
{
}

/// A parent that can be built into a graph feeding a child's input edge.
pub trait AsyncParent<D, S> {
    /// Whether this parent keeps the record below; one that keeps none
    /// promises nothing through it.
    open spec fn tracks_layout(&self) -> bool {
        false
    }

    /// Whether this parent has been laid out into a graph.
    open spec fn laid_out(&self) -> bool {
        false
    }

    /// How many phases this parent's last layout held.
    open spec fn laid_size(&self) -> nat {
        0
    }

    /// The channel this parent's output was last laid out to push into.
    open spec fn output_channel(&self) -> int {
        0
    }

    /// Lay this parent out, its output going into `output`, allocating from
    /// `allocator` on; the graph it returns holds only ids allocated here.
    fn build(&mut self, output: EdgeSender<D, S>, allocator: IdAllocator) -> (r: Result<Graph, Error>)
        ensures
            old(self).tracks_layout() ==> final(self).tracks_layout() && (r is Ok ==> final(self).laid_out()),
            old(self).tracks_layout() ==> (r matches Ok(g) ==> final(self).laid_size() == g.nodes@.len()),
            old(self).tracks_layout() ==> (r is Ok ==> final(self).output_channel() == output.channel()),
            r matches Ok(g) ==> {
                &&& g.wf()
                &&& g.allocator.next >= allocator.next
                &&& ids_within(g.nodes@, allocator.next as int, g.allocator.next as int)
            },
    ;
}

/// Every parent in `parents` keeps the record of its layout.
pub open spec fn all_track<D, S>(parents: Seq<Box<dyn AsyncParent<D, S>>>) -> bool {
    forall|i: int| 0 <= i < parents.len() ==> (#[trigger] parents[i]).tracks_layout()
}

/// How many phases the layouts of `parents` held together.
pub open spec fn laid_total<D, S>(parents: Seq<Box<dyn AsyncParent<D, S>>>) -> nat
    decreases parents.len(),
{
    if parents.len() == 0 {
        0
    } else {
        laid_total(parents.drop_last()) + parents.last().laid_size()
    }
}

/// Each parent in `before` that keeps the record of its layout was laid out
/// to push into `channel` (it is `after` at the same place).
pub open spec fn feed_into<D, S>(
    before: Seq<Box<dyn AsyncParent<D, S>>>,
    after: Seq<Box<dyn AsyncParent<D, S>>>,
    channel: int,
) -> bool {
    forall|i: int| 0 <= i < after.len() && (#[trigger] before[i]).tracks_layout() ==> after[i].output_channel() == channel
}

/// Parents feed their child's input: after `build_parents` built `before`
/// into `after` for the child's input edge `input`, every parent that keeps
/// the record of its layout pushes into the very channel `input` reads, the
/// channel of any sender made from `input`; so all of them feed one edge.
pub proof fn parents_feed_the_input<D, S>(
    before: Seq<Box<dyn AsyncParent<D, S>>>,
    after: Seq<Box<dyn AsyncParent<D, S>>>,
    input: crate::edge::Edge<D, S>,
    sender: crate::edge::EdgeSender<D, S>,
)
    requires
        feed_into(before, after, input.channel()),
        after.len() == before.len(),
        sender.channel() == input.channel(),
    ensures
        forall|i: int| 0 <= i < after.len() && (#[trigger] before[i]).tracks_layout() ==> after[i].output_channel() == sender.channel(),
        forall|i: int, j: int| 0 <= i < after.len() && 0 <= j < after.len() && (#[trigger] before[i]).tracks_layout()
            && (#[trigger] before[j]).tracks_layout() ==> after[i].output_channel() == after[j].output_channel(),
{
}

/// Build each of `parents` in turn into `graph`, each feeding `input`.
pub fn build_parents<D, S>(
    parents: &mut Vec<Box<dyn AsyncParent<D, S>>>,
    input: &crate::edge::Edge<D, S>,
    graph: &mut Graph,
) -> (r: Result<(), Error>)
    requires
        old(graph).wf(),
    ensures
        final(graph).wf(),
        final(graph).allocator.next >= old(graph).allocator.next,
        forall|k: int| 0 <= k < old(graph).nodes@.len() ==> (#[trigger] final(graph).nodes@[k]) == old(graph).nodes@[k],
        final(graph).nodes@.len() >= old(graph).nodes@.len(),
        ids_within(added_nodes(final(graph).nodes@, old(graph).nodes@), old(graph).allocator.next as int, final(graph).allocator.next as int),
        old(parents)@.len() == 0 ==> r is Ok && *final(graph) == *old(graph),
        final(parents)@.len() == old(parents)@.len(),
        r is Ok ==> forall|i: int| 0 <= i < final(parents)@.len() && (#[trigger] old(parents)@[i]).tracks_layout()
            ==> final(parents)@[i].laid_out(),
        r is Ok && all_track(old(parents)@) ==> final(graph).nodes@.len() == old(graph).nodes@.len()
            + laid_total(final(parents)@),
        r is Ok ==> feed_into(old(parents)@, final(parents)@, input.channel()),
{
    let n = parents.len();
    let mut i: usize = 0;
    while i < n
        invariant
            n == parents@.len(),
            n == old(parents)@.len(),
            i <= n,
            i == 0 ==> *graph == *old(graph),
            forall|j: int| 0 <= j < i && (#[trigger] old(parents)@[j]).tracks_layout() ==> parents@[j].laid_out()
                && parents@[j].output_channel() == input.channel(),
            forall|j: int| i <= j < n ==> (#[trigger] parents@[j]) == old(parents)@[j],
            graph.wf(),
            graph.allocator.next >= old(graph).allocator.next,
            graph.nodes@.len() >= old(graph).nodes@.len(),
            forall|k: int| 0 <= k < old(graph).nodes@.len() ==> (#[trigger] graph.nodes@[k]) == old(graph).nodes@[k],
            ids_within(added_nodes(graph.nodes@, old(graph).nodes@), old(graph).allocator.next as int, graph.allocator.next as int),
            all_track(old(parents)@) ==> graph.nodes@.len() == old(graph).nodes@.len() + laid_total(parents@.take(i as int)),
        decreases n - i,
    {
        let allocator = IdAllocator { next: graph.allocator.next };
        let ghost parents_before = parents@;
        let sender = input.sender();
        let slot = &mut parents[i];
        let built = slot.build(sender, allocator);
        let part = built?;
        proof {
            assert(parents@.len() == parents_before.len());
            assert(forall|j: int| 0 <= j < i ==> parents@[j] == #[trigger] parents_before[j]);
            assert(forall|j: int| i < j < n ==> parents@[j] == #[trigger] parents_before[j]);
            let ii = i as int;
            let a = parents@.take(ii + 1);
            let b = parents_before.take(ii);
            assert(a.len() == b.len() + 1);
            assert forall|k: int| 0 <= k < b.len() implies a[k] == b[k] by {
                assert(a[k] == parents@[k]);
                assert(b[k] == parents_before[k]);
            }
            assert(a.drop_last() =~= b);
            assert(a.last() == parents@[ii]);
            if all_track(old(parents)@) {
                assert(old(parents)@[i as int].tracks_layout());
            }
        }
        if graph.pollables.len() > usize::MAX - part.pollables.len() {
            return Err(Error::fatal("too many nodes"));
        }
        let ghost before = graph.nodes@;
        let ghost start = graph.allocator.next;
        graph.merge(part);
        proof {
            let old_len = old(graph).nodes@.len();
            assert forall|a: int| 0 <= a < added_nodes(graph.nodes@, old(graph).nodes@).len() implies old(graph).allocator.next
                <= (#[trigger] added_nodes(graph.nodes@, old(graph).nodes@)[a]).id < graph.allocator.next by {
                let k = a + old_len;
                assert(added_nodes(graph.nodes@, old(graph).nodes@)[a] == graph.nodes@[k]);
                if k < before.len() {
                    assert(graph.nodes@[k] == before[k]);
                    assert(added_nodes(before, old(graph).nodes@)[a] == before[k]);
                } else {
                    assert(added_nodes(graph.nodes@, before)[k - before.len()] == graph.nodes@[k]);
                }
            }
        }
        i = i + 1;
    }
    proof {
        assert(parents@.take(n as int) =~= parents@);
    }
    Ok(())
}

/// Several output edges fed as one: a message goes to each of them in
/// turn, and closing closes them all.
#[verifier::reject_recursive_types(D)]
#[verifier::reject_recursive_types(S)]
pub struct Outputs<D, S> {
    pub edges: Vec<Box<dyn Closeable<D, S>>>,
    pub sent: Ghost<Seq<Message<D, S>>>,
    pub closed: bool,
}

impl<D, S> Outputs<D, S> {
    /// No output edge yet.
    pub fn new() -> (o: Self)
        ensures
            o.edges@.len() == 0,
            o.sent@.len() == 0,
            !o.closed,
    {
        Outputs { edges: Vec::new(), sent: Ghost(Seq::empty()), closed: false }
    }

    /// One more output edge.
    pub fn add(&mut self, edge: Box<dyn Closeable<D, S>>)
        ensures
            final(self).edges@ == old(self).edges@.push(edge),
            final(self).edges@.len() == old(self).edges@.len() + 1,
            final(self).sent == old(self).sent,
            final(self).closed == old(self).closed,
    {
        proof {
            lemma_push(self.edges@, edge);
        }
        self.edges.push(edge);
    }
}

impl<D: Clone, S: Clone> Pushable<D, S> for Outputs<D, S> {
    open spec fn sent(&self) -> Seq<Message<D, S>> {
        self.sent@
    }

    open spec fn is_closed(&self) -> bool {
        self.closed
    }

    fn push(&mut self, message: Message<D, S>) -> (r: Result<(), Error>)
        ensures
            old(self).edges@.len() == 0 ==> r is Ok,
            final(self).edges@.len() == old(self).edges@.len(),
    {
        let n = self.edges.len();
        let mut i: usize = 0;
        while i < n
            invariant
                n == self.edges@.len(),
                n == old(self).edges@.len(),
                i <= n,
                self.sent == old(self).sent,
                self.closed == old(self).closed,
            decreases n - i,
        {
            self.edges[i].push(message.clone())?;
            i = i + 1;
        }
        self.sent = Ghost(self.sent@.push(message));
        Ok(())
    }
}

impl<D: Clone, S: Clone> Closeable<D, S> for Outputs<D, S> {
    fn close(&mut self) -> (r: Result<(), Error>) {
        self.closed = true;
        let n = self.edges.len();
        let mut i: usize = 0;
        let mut result: Result<(), Error> = Ok(());
        while i < n
            invariant
                n == self.edges@.len(),
                i <= n,
                self.sent == old(self).sent,
                self.closed,
            decreases n - i,
        {
            if let Err(e) = self.edges[i].close() {
                result = Err(e);
            }
            i = i + 1;
        }
        result
    }
}

} // verus!
