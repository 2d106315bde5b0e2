use areamy::node::biunion::marker::{Left, Right};
use areamy::node::biunion::poll::builder::{Node as BiunionNode, Parent};
use areamy::node::biunion::poll::routine::BiunionRoutine;
use areamy::node::biunion::poll::{BiunionRoutineFactory, BiunionWakers};
use areamy::node::layout::{AsyncParent, Graph, IdAllocator, PhaseKind, Pollable};
use areamy::node::line::poll::builder::Node;
use areamy::node::line::poll::linked::{ChildNode, LinkedNode, ParentNode, TerminalNode};
use areamy::node::line::poll::routine::LineRoutine;
use areamy::node::line::poll::{LineRoutineFactory, LineWakers};
use areamy::graph::{InputSide, OutputSide};
use areamy::{Edge, EdgeSender, Error, Flush, Message, Name, Next, Poll, Pushable, Readiness, Send, Unary};
use std::collections::VecDeque;

struct MockLine {
    state: usize,
    output: VecDeque<usize>,
    poll_count: usize,
    flushed: bool,
}

impl MockLine {
    fn new() -> Self {
        MockLine { state: 0, output: VecDeque::new(), poll_count: 0, flushed: false }
    }
}

impl Send<usize> for MockLine {
    fn send(&mut self, message: usize) -> Result<(), Error> {
        self.state += message;
        self.output.push_back(self.state * 2);
        Ok(())
    }
}

impl Next<usize> for MockLine {
    fn next(&mut self) -> Result<Option<usize>, Error> {
        Ok(self.output.pop_front())
    }
}

impl Flush for MockLine {
    fn flush(&mut self) -> Result<(), Error> {
        self.state = 0;
        self.flushed = true;
        Ok(())
    }
}

impl Poll for MockLine {
    fn poll(&mut self) -> Result<Readiness, Error> {
        self.poll_count += 1;
        if self.flushed {
            self.flushed = false;
            return Ok(Readiness::Ready);
        }
        Ok(Readiness::Pending)
    }
}

impl Name for MockLine {}
impl LineRoutine<usize, usize> for MockLine {}

struct MockFactory;

impl LineRoutineFactory for MockFactory {
    type Routine = MockLine;

    fn create(self, _wakers: LineWakers) -> MockLine {
        MockLine::new()
    }
}

struct MockBiunion {
    output: VecDeque<usize>,
}

impl Send<usize, Left> for MockBiunion {
    fn send(&mut self, message: usize) -> Result<(), Error> {
        self.output.push_back(message * 2);
        Ok(())
    }
}

impl Send<usize, Right> for MockBiunion {
    fn send(&mut self, message: usize) -> Result<(), Error> {
        self.output.push_back(message * 3);
        Ok(())
    }
}

impl Next<usize> for MockBiunion {
    fn next(&mut self) -> Result<Option<usize>, Error> {
        Ok(self.output.pop_front())
    }
}

impl Flush for MockBiunion {
    fn flush(&mut self) -> Result<(), Error> {
        Ok(())
    }
}

impl Poll for MockBiunion {
    fn poll(&mut self) -> Result<Readiness, Error> {
        Ok(Readiness::Pending)
    }
}

impl Name for MockBiunion {}
impl BiunionRoutine<usize, usize, usize> for MockBiunion {}

struct MockBiunionFactory;

impl BiunionRoutineFactory for MockBiunionFactory {
    type Routine = MockBiunion;

    fn create(self, _wakers: BiunionWakers) -> MockBiunion {
        MockBiunion { output: VecDeque::new() }
    }
}

/// A parent that lays out no node of its own.
struct MockParent;

impl AsyncParent<usize, &'static str> for MockParent {
    fn build(&mut self, _edge: EdgeSender<usize, &'static str>, allocator: IdAllocator) -> Result<Graph, Error> {
        Ok(Graph::empty(allocator))
    }
}

type LineBuilder = Node<usize, usize, &'static str, MockFactory>;
type Biunion = BiunionNode<usize, usize, usize, &'static str, MockBiunionFactory>;

fn deferred() -> LineBuilder {
    Node::deferred(MockFactory)
}

fn biunion() -> Biunion {
    BiunionNode::deferred(MockBiunionFactory)
}

fn parent_edge() -> EdgeSender<usize, &'static str> {
    Edge::new().sender()
}

#[test]
fn input_sync_output_sync() {
    let node = deferred().input().unwrap().output().unwrap();
    let graph = node.build(IdAllocator::new()).unwrap();
    assert_eq!(graph.nodes.len(), 3);
}

#[test]
fn input_sync_deferred_sink() {
    let node = deferred().input().unwrap();
    let graph = node.build(IdAllocator::new()).unwrap();
    assert_eq!(graph.nodes.len(), 3);
}

#[test]
fn output_sync_input_sync() {
    let node = deferred().output().unwrap().input().unwrap();
    let graph = node.build(IdAllocator::new()).unwrap();
    assert_eq!(graph.nodes.len(), 3);
}

#[test]
fn output_sync_then_parent() {
    let node = deferred().output().unwrap().parent(Box::new(MockParent)).unwrap();
    let graph = node.build(IdAllocator::new()).unwrap();
    assert_eq!(graph.nodes.len(), 3);
}

#[test]
fn parent_output_sync() {
    let node = deferred().parent(Box::new(MockParent)).unwrap().output().unwrap();
    let graph = node.build(IdAllocator::new()).unwrap();
    assert_eq!(graph.nodes.len(), 3);
}

#[test]
fn parent_deferred_sink() {
    let node = deferred().parent(Box::new(MockParent)).unwrap();
    let graph = node.build(IdAllocator::new()).unwrap();
    assert_eq!(graph.nodes.len(), 3);
}

#[test]
fn multiple_parents_output_sync() {
    let node = deferred()
        .parent(Box::new(MockParent))
        .unwrap()
        .parent(Box::new(MockParent))
        .unwrap()
        .output()
        .unwrap();
    let graph = node.build(IdAllocator::new()).unwrap();
    assert_eq!(graph.nodes.len(), 3);
}

#[test]
fn sync_deferred_as_parent() {
    let mut node = deferred().input().unwrap();
    let graph = AsyncParent::build(&mut node, parent_edge(), IdAllocator::new()).unwrap();
    assert_eq!(graph.nodes.len(), 3);
}

#[test]
fn async_deferred_as_parent() {
    let mut node = deferred().parent(Box::new(MockParent)).unwrap();
    let graph = AsyncParent::build(&mut node, parent_edge(), IdAllocator::new()).unwrap();
    assert_eq!(graph.nodes.len(), 3);
}

#[test]
fn tests_node_ids_are_unique() {
    let node = deferred().input().unwrap().output().unwrap();
    let graph = node.build(IdAllocator::new()).unwrap();
    let mut ids: Vec<_> = graph.nodes.iter().map(|n| n.id).collect();
    ids.sort();
    ids.dedup();
    assert_eq!(ids.len(), 3);
}

#[test]
fn biunion_node_ids_are_unique() {
    let node = biunion().input::<Left>().unwrap().input::<Right>().unwrap().output().unwrap();
    let graph = node.build(IdAllocator::new()).unwrap();
    let mut ids: Vec<_> = graph.nodes.iter().map(|n| n.id).collect();
    ids.sort();
    ids.dedup();
    assert_eq!(ids.len(), 4);
}

#[test]
fn chained_line_nodes_share_the_allocator() {
    // A line node fed by a biunion fed by a line node: 3 + 4 + 3 phases.
    let grandparent = deferred().input().unwrap();
    let parent = biunion().parent(Parent::Left(Box::new(grandparent))).unwrap().input::<Right>().unwrap();
    let child = deferred().parent(Box::new(parent)).unwrap().output().unwrap();
    let graph = child.build(IdAllocator { next: 7 }).unwrap();
    assert_eq!(graph.nodes.len(), 10);
    assert_eq!(graph.pollables.len(), 3);
    let mut ids: Vec<_> = graph.nodes.iter().map(|n| n.id).collect();
    ids.sort();
    ids.dedup();
    assert_eq!(ids.len(), 10);
    assert!(ids.iter().all(|id| *id >= 7 && *id < graph.allocator.next));
    // Parents come first; the child's input, work and output come last.
    let last: Vec<_> = graph.nodes[7..].iter().map(|n| n.phase).collect();
    assert_eq!(last, vec![PhaseKind::Input, PhaseKind::Work, PhaseKind::Output]);
}

#[test]
fn built_graph_moves_data() {
    let node = deferred().input().unwrap().output().unwrap();
    let mut input = InputSide::<usize, &'static str, Unary>::input_sender(&node);
    let mut out = Edge::<usize, &'static str>::new();
    let mut node = node;
    OutputSide::<usize, &'static str, Unary>::add_output(&mut node, Box::new(out.sender())).unwrap();
    let mut graph = node.build(IdAllocator::new()).unwrap();
    input.push(Message::Data(3)).unwrap();
    for i in 0..graph.nodes.len() {
        let n = graph.nodes[i];
        let _ = graph.pollables[n.node].poll_phase(n.phase).unwrap();
    }
    assert_eq!(out.poll().unwrap(), Some(Message::Data(6)));
}

#[test]
fn unsettled_input_cannot_be_built() {
    assert!(deferred().build(IdAllocator::new()).is_err());
    assert!(deferred().input().unwrap().input().is_err());
    assert!(deferred().input().unwrap().parent(Box::new(MockParent)).is_err());
    assert!(biunion().input::<Left>().unwrap().build(IdAllocator::new()).is_err());
}

#[test]
fn sync_sync_sync_builds_four_nodes() {
    let node = biunion().input::<Left>().unwrap().input::<Right>().unwrap().output().unwrap();
    let graph = node.build(IdAllocator::new()).unwrap();
    assert_eq!(graph.nodes.len(), 4);
}

#[test]
fn sync_sync_deferred_builds_four_nodes() {
    let node = biunion().input::<Left>().unwrap().input::<Right>().unwrap();
    let graph = node.build(IdAllocator::new()).unwrap();
    assert_eq!(graph.nodes.len(), 4);
}

#[test]
fn async_left_sync_right_sync_output() {
    let node = biunion().parent(Parent::Left(Box::new(MockParent))).unwrap().input::<Right>().unwrap().output().unwrap();
    let graph = node.build(IdAllocator::new()).unwrap();
    assert_eq!(graph.nodes.len(), 4);
}

#[test]
fn sync_left_async_right_sync_output() {
    let node = biunion().input::<Left>().unwrap().parent(Parent::Right(Box::new(MockParent))).unwrap().output().unwrap();
    let graph = node.build(IdAllocator::new()).unwrap();
    assert_eq!(graph.nodes.len(), 4);
}

#[test]
fn async_async_sync_output() {
    let node = biunion()
        .parent(Parent::Left(Box::new(MockParent)))
        .unwrap()
        .parent(Parent::Right(Box::new(MockParent)))
        .unwrap()
        .output()
        .unwrap();
    let graph = node.build(IdAllocator::new()).unwrap();
    assert_eq!(graph.nodes.len(), 4);
}

#[test]
fn sync_sync_deferred_as_parent() {
    let mut node = biunion().input::<Left>().unwrap().input::<Right>().unwrap();
    let graph = AsyncParent::build(&mut node, parent_edge(), IdAllocator::new()).unwrap();
    assert_eq!(graph.nodes.len(), 4);
}

#[test]
fn async_async_deferred_as_parent() {
    let mut node =
        biunion().parent(Parent::Left(Box::new(MockParent))).unwrap().parent(Parent::Right(Box::new(MockParent))).unwrap();
    let graph = AsyncParent::build(&mut node, parent_edge(), IdAllocator::new()).unwrap();
    assert_eq!(graph.nodes.len(), 4);
}

#[test]
fn right_async_then_left_sync() {
    let node = biunion().parent(Parent::Right(Box::new(MockParent))).unwrap().input::<Left>().unwrap().output().unwrap();
    let graph = node.build(IdAllocator::new()).unwrap();
    assert_eq!(graph.nodes.len(), 4);
}

#[test]
fn right_async_then_left_async() {
    let node = biunion()
        .parent(Parent::Right(Box::new(MockParent)))
        .unwrap()
        .parent(Parent::Left(Box::new(MockParent)))
        .unwrap()
        .output()
        .unwrap();
    let graph = node.build(IdAllocator::new()).unwrap();
    assert_eq!(graph.nodes.len(), 4);
}

#[test]
fn async_left_sync_right_deferred_sink() {
    let node = biunion().parent(Parent::Left(Box::new(MockParent))).unwrap().input::<Right>().unwrap();
    let graph = node.build(IdAllocator::new()).unwrap();
    assert_eq!(graph.nodes.len(), 4);
}

#[test]
fn sync_left_async_right_deferred_sink() {
    let node = biunion().input::<Left>().unwrap().parent(Parent::Right(Box::new(MockParent))).unwrap();
    let graph = node.build(IdAllocator::new()).unwrap();
    assert_eq!(graph.nodes.len(), 4);
}

#[test]
fn async_async_deferred_sink() {
    let node =
        biunion().parent(Parent::Left(Box::new(MockParent))).unwrap().parent(Parent::Right(Box::new(MockParent))).unwrap();
    let graph = node.build(IdAllocator::new()).unwrap();
    assert_eq!(graph.nodes.len(), 4);
}

#[test]
fn async_left_sync_right_as_parent() {
    let mut node = biunion().parent(Parent::Left(Box::new(MockParent))).unwrap().input::<Right>().unwrap();
    let graph = AsyncParent::build(&mut node, parent_edge(), IdAllocator::new()).unwrap();
    assert_eq!(graph.nodes.len(), 4);
}

#[test]
fn sync_left_async_right_as_parent() {
    let mut node = biunion().input::<Left>().unwrap().parent(Parent::Right(Box::new(MockParent))).unwrap();
    let graph = AsyncParent::build(&mut node, parent_edge(), IdAllocator::new()).unwrap();
    assert_eq!(graph.nodes.len(), 4);
}

#[test]
fn build_produces_pollable_node() {
    let builder = TerminalNode::<usize, usize, &'static str, _>::new(MockLine::new());

    let mut node = builder.build();

    let _ = node.poll_all().unwrap();
    assert_eq!(node.worker.poll_count, 1);
}

#[test]
fn sync_input_output_works() {
    let builder = TerminalNode::<usize, usize, &'static str, _>::new(MockLine::new());

    let mut input = InputSide::<usize, &'static str, Unary>::input_sender(&builder);

    let mut node = builder.build();

    input.push(Message::Data(2)).unwrap();

    let _ = node.poll_all().unwrap();
}

#[test]
fn sync_output_receives_data() {
    let mut output = Edge::<usize, &'static str>::new();

    let mut builder = TerminalNode::<usize, usize, &'static str, _>::new(MockLine::new());

    let mut input = InputSide::<usize, &'static str, Unary>::input_sender(&builder);

    OutputSide::<usize, &'static str, Unary>::add_output(&mut builder, Box::new(output.sender())).unwrap();

    let mut node = builder.build();

    input.push(Message::Data(2)).unwrap();

    let _ = node.poll_all().unwrap();

    assert_eq!(output.poll().unwrap(), Some(Message::Data(4)));
}

#[test]
fn linked_chain_spawns_parents_first() {
    let parent = ParentNode::<usize, usize, &'static str, _>::new(1, MockLine::new());
    let mut input = InputSide::<usize, &'static str, Unary>::input_sender(&parent);
    let linked = LinkedNode::<usize, usize, &'static str, _>::new(2, MockLine::new(), Box::new(parent));
    let mut child = ChildNode::<usize, usize, &'static str, _>::new(3, MockLine::new(), Box::new(linked));
    let mut output = Edge::<usize, &'static str>::new();
    OutputSide::<usize, &'static str, Unary>::add_output(&mut child, Box::new(output.sender())).unwrap();

    let mut nodes = child.spawn().unwrap();
    let ids: Vec<u64> = nodes.iter().map(|(id, _)| *id).collect();
    assert_eq!(ids, vec![1, 2, 3]);

    input.push(Message::Data(1)).unwrap();
    for (_, node) in nodes.iter_mut() {
        for phase in [PhaseKind::Input, PhaseKind::Work, PhaseKind::Output] {
            let _ = node.poll_phase(phase).unwrap();
        }
    }
    // 1 -> 2 -> 4 -> 8
    assert_eq!(output.poll().unwrap(), Some(Message::Data(8)));
}

