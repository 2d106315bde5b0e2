use areamy::node::biunion::marker::{Left, Right};
use areamy::node::biunion::poll::routine::BiunionRoutine;
use areamy::node::biunion::poll::{new_phases as biunion_phases, Inputs, Phase, Phases};
use areamy::node::line::poll::routine::LineRoutine;
use areamy::node::line::poll::{new_phases, LineNode};
use areamy::{Closeable, Edge, EdgeSender, Error, ErrorKind, Flush, Message, Name, Next, Poll, Pushable, Readiness, Send};
use std::collections::VecDeque;

struct MockLine {
    state: usize,
    output: VecDeque<usize>,
    poll_count: usize,
    flushed: bool,
}

impl MockLine {
    fn new() -> Self {
        MockLine { state: 0, output: VecDeque::new(), poll_count: 0, flushed: false }
    }
}

impl Send<usize> for MockLine {
    fn send(&mut self, message: usize) -> Result<(), Error> {
        self.state += message;
        self.output.push_back(self.state * 2);
        Ok(())
    }
}

impl Next<usize> for MockLine {
    fn next(&mut self) -> Result<Option<usize>, Error> {
        Ok(self.output.pop_front())
    }
}

impl Flush for MockLine {
    fn flush(&mut self) -> Result<(), Error> {
        self.state = 0;
        self.flushed = true;
        Ok(())
    }
}

impl Poll for MockLine {
    fn poll(&mut self) -> Result<Readiness, Error> {
        self.poll_count += 1;
        if self.flushed {
            self.flushed = false;
            return Ok(Readiness::Ready);
        }
        Ok(Readiness::Pending)
    }
}

impl Name for MockLine {}
impl LineRoutine<usize, usize> for MockLine {}

struct ClosedErrorRoutine;

impl Send<usize> for ClosedErrorRoutine {
    fn send(&mut self, _: usize) -> Result<(), Error> {
        Ok(())
    }
}

impl Next<usize> for ClosedErrorRoutine {
    fn next(&mut self) -> Result<Option<usize>, Error> {
        Ok(None)
    }
}

impl Flush for ClosedErrorRoutine {
    fn flush(&mut self) -> Result<(), Error> {
        Ok(())
    }
}

impl Poll for ClosedErrorRoutine {
    fn poll(&mut self) -> Result<Readiness, Error> {
        Err(Error::closed())
    }
}

impl Name for ClosedErrorRoutine {}
impl LineRoutine<usize, usize> for ClosedErrorRoutine {}

type Line<R> = LineNode<usize, usize, &'static str, R, EdgeSender<usize, &'static str>>;

/// A polled line node over `routine`, the sender into its input edge and
/// the edge its output goes to.
fn line_node<R: LineRoutine<usize, usize>>(
    routine: R,
) -> (EdgeSender<usize, &'static str>, Edge<usize, &'static str>, Line<R>) {
    let input_edge = Edge::new();
    let input = input_edge.sender();
    let output = Edge::new();
    let node = new_phases(routine, input_edge, output.sender());
    (input, output, node)
}

#[test]
fn poll_processes_input_and_produces_output() {
    let (mut input, mut output, mut node) = line_node(MockLine::new());

    input.push(Message::Data(2)).unwrap();

    assert!(matches!(node.poll_input().unwrap(), Readiness::Pending));
    assert!(matches!(node.poll_work().unwrap(), Readiness::Pending));
    assert!(matches!(node.poll_output().unwrap(), Readiness::Pending));

    assert_eq!(output.poll().unwrap(), Some(Message::Data(4)));
}

#[test]
fn poll_returns_closed_on_closed_input() {
    let (mut input, _output, mut node) = line_node(MockLine::new());

    input.close().unwrap();

    let result = node.poll_input();
    assert!(matches!(result.unwrap_err().kind, ErrorKind::Closed));

    let result = node.poll_output();
    assert!(matches!(result.unwrap_err().kind, ErrorKind::Closed));
}

#[test]
fn poll_calls_routine_poll() {
    let (_input, _output, mut node) = line_node(MockLine::new());

    let _ = node.poll_work().unwrap();
    assert_eq!(node.worker.poll_count, 1);

    let _ = node.poll_work().unwrap();
    assert_eq!(node.worker.poll_count, 2);
}

#[test]
fn routine_returning_closed_becomes_fatal() {
    let (_input, _output, mut node) = line_node(ClosedErrorRoutine);

    let err = node.poll_work().unwrap_err();
    assert!(matches!(err.kind, ErrorKind::Fatal), "expected Fatal, got {:?}", err.kind);
}

#[test]
fn routine_returning_closed_during_flush_becomes_fatal() {
    let (mut input, _output, mut node) = line_node(ClosedErrorRoutine);

    input.push(Message::Flush("s1")).unwrap();

    let _ = node.poll_input();

    let err = node.poll_work().unwrap_err();
    assert!(matches!(err.kind, ErrorKind::Fatal), "expected Fatal, got {:?}", err.kind);
}

#[test]
fn poll_drains_multiple_inputs() {
    let (mut input, mut output, mut node) = line_node(MockLine::new());

    input.push(Message::Data(1)).unwrap();
    input.push(Message::Data(2)).unwrap();

    let _ = node.poll_input().unwrap();
    let _ = node.poll_work().unwrap();
    let _ = node.poll_output().unwrap();

    assert_eq!(output.poll().unwrap(), Some(Message::Data(2)));
    assert_eq!(output.poll().unwrap(), Some(Message::Data(6)));
}

#[test]
fn marker_preserves_ordering_with_data() {
    let (mut input, mut output, mut node) = line_node(MockLine::new());

    input.push(Message::Data(1)).unwrap();
    input.push(Message::Marker("m1")).unwrap();
    input.push(Message::Data(2)).unwrap();

    let _ = node.poll_input().unwrap();

    let _ = node.poll_input().unwrap();
    let _ = node.poll_input().unwrap();

    let _ = node.poll_work().unwrap();

    let _ = node.poll_output().unwrap();

    assert_eq!(output.poll().unwrap(), Some(Message::Data(2)));
    assert_eq!(output.poll().unwrap(), Some(Message::Marker("m1")));
    assert_eq!(output.poll().unwrap(), None);

    let _ = node.poll_input().unwrap();
    let _ = node.poll_work().unwrap();
    let _ = node.poll_output().unwrap();

    assert_eq!(output.poll().unwrap(), Some(Message::Data(6)));
}

#[test]
fn flush_wakes_input_for_remaining_data() {
    let (mut input, _output, mut node) = line_node(MockLine::new());

    input.push(Message::Data(1)).unwrap();
    input.push(Message::Flush("s1")).unwrap();
    input.push(Message::Data(2)).unwrap();

    let _ = node.poll_input().unwrap();
    let _ = node.poll_work().unwrap();

    assert!(!node.wakers.input);

    let _ = node.poll_output().unwrap();

    assert!(node.wakers.input, "Output must wake Input after flush so remaining data is drained");
}

#[test]
fn flush_waits_for_routine_before_forwarding() {
    let (mut input, mut output, mut node) = line_node(MockLine::new());

    input.push(Message::Data(3)).unwrap();
    input.push(Message::Flush("s1")).unwrap();

    let _ = node.poll_input().unwrap();
    // Output before the routine reported the flush finished: data only.
    let _ = node.poll_output().unwrap();
    assert_eq!(output.poll().unwrap(), Some(Message::Data(6)));
    assert_eq!(output.poll().unwrap(), None);

    let _ = node.poll_work().unwrap();
    let _ = node.poll_output().unwrap();
    assert_eq!(output.poll().unwrap(), Some(Message::Flush("s1")));
}

#[test]
fn closed_node_stays_closed() {
    let (mut input, mut output, mut node) = line_node(MockLine::new());
    input.close().unwrap();
    assert!(matches!(node.poll_input().unwrap_err().kind, ErrorKind::Closed));
    assert!(matches!(node.poll_output().unwrap_err().kind, ErrorKind::Closed));
    assert!(matches!(node.poll_output().unwrap_err().kind, ErrorKind::Closed));
    assert!(matches!(node.poll_work().unwrap_err().kind, ErrorKind::Closed));
    assert!(matches!(node.poll_input().unwrap_err().kind, ErrorKind::Closed));
    assert!(matches!(output.poll().unwrap_err().kind, ErrorKind::Closed));
}

struct MockBiunion {
    output: VecDeque<usize>,
    poll_count: usize,
    flushed: bool,
}

impl MockBiunion {
    fn new() -> Self {
        MockBiunion { output: VecDeque::new(), poll_count: 0, flushed: false }
    }
}

impl Send<usize, Left> for MockBiunion {
    fn send(&mut self, message: usize) -> Result<(), Error> {
        self.output.push_back(message * 2);
        Ok(())
    }
}

impl Send<usize, Right> for MockBiunion {
    fn send(&mut self, message: usize) -> Result<(), Error> {
        self.output.push_back(message * 3);
        Ok(())
    }
}

impl Next<usize> for MockBiunion {
    fn next(&mut self) -> Result<Option<usize>, Error> {
        Ok(self.output.pop_front())
    }
}

impl Flush for MockBiunion {
    fn flush(&mut self) -> Result<(), Error> {
        self.flushed = true;
        Ok(())
    }
}

impl Poll for MockBiunion {
    fn poll(&mut self) -> Result<Readiness, Error> {
        self.poll_count += 1;
        if self.flushed {
            self.flushed = false;
            return Ok(Readiness::Ready);
        }
        Ok(Readiness::Pending)
    }
}

impl Name for MockBiunion {}
impl BiunionRoutine<usize, usize, usize> for MockBiunion {}

struct Harness {
    left_edge: EdgeSender<usize, &'static str>,
    right_edge: EdgeSender<usize, &'static str>,
    output_edge: Edge<usize, &'static str>,
    phases: Phases<usize, usize, usize, &'static str, MockBiunion, EdgeSender<usize, &'static str>>,
}

impl Harness {
    fn new() -> Self {
        let left_recv = Edge::new();
        let left_edge = left_recv.sender();
        let right_recv = Edge::new();
        let right_edge = right_recv.sender();
        let output_edge = Edge::new();
        let output_sender = output_edge.sender();

        let phases = biunion_phases(
            Inputs {
                left: Phase { target: left_recv, woken: false },
                right: Phase { target: right_recv, woken: false },
            },
            Phase { target: MockBiunion::new(), woken: false },
            Phase { target: output_sender, woken: false },
        );

        Harness { left_edge, right_edge, output_edge, phases }
    }

    fn reset_woken(&mut self) {
        self.phases.reset_woken();
    }

    fn poll_left(&mut self) -> Result<Readiness, Error> {
        self.phases.poll_left()
    }

    fn poll_right(&mut self) -> Result<Readiness, Error> {
        self.phases.poll_right()
    }

    fn poll_work(&mut self) -> Result<Readiness, Error> {
        self.phases.poll_work()
    }

    fn poll_output(&mut self) -> Result<Readiness, Error> {
        self.phases.poll_output()
    }

    fn read_output(&mut self) -> Option<Message<usize, &'static str>> {
        self.output_edge.poll().unwrap()
    }

    fn left_woken(&self) -> bool {
        self.phases.inputs.left.woken
    }

    fn right_woken(&self) -> bool {
        self.phases.inputs.right.woken
    }

    fn work_woken(&self) -> bool {
        self.phases.work.woken
    }

    fn output_woken(&self) -> bool {
        self.phases.output.woken
    }
}

#[test]
fn left_input_processes_data() {
    let mut h = Harness::new();
    h.left_edge.push(Message::Data(5)).unwrap();
    let _ = h.poll_left().unwrap();
    let _ = h.poll_work().unwrap();
    let _ = h.poll_output().unwrap();
    assert_eq!(h.read_output(), Some(Message::Data(10)));
}

#[test]
fn right_input_processes_data() {
    let mut h = Harness::new();
    h.right_edge.push(Message::Data(5)).unwrap();
    let _ = h.poll_right().unwrap();
    let _ = h.poll_work().unwrap();
    let _ = h.poll_output().unwrap();
    assert_eq!(h.read_output(), Some(Message::Data(15)));
}

#[test]
fn both_inputs_process_data() {
    let mut h = Harness::new();
    h.left_edge.push(Message::Data(2)).unwrap();
    h.right_edge.push(Message::Data(3)).unwrap();
    let _ = h.poll_left().unwrap();
    let _ = h.poll_right().unwrap();
    let _ = h.poll_work().unwrap();
    let _ = h.poll_output().unwrap();
    assert_eq!(h.read_output(), Some(Message::Data(4)));
    assert_eq!(h.read_output(), Some(Message::Data(9)));
}

#[test]
fn flush_from_left_forwards() {
    let mut h = Harness::new();
    h.left_edge.push(Message::Flush("s1")).unwrap();
    let _ = h.poll_left().unwrap();
    let _ = h.poll_work().unwrap();
    let _ = h.poll_output().unwrap();
    assert_eq!(h.read_output(), Some(Message::Flush("s1")));
}

#[test]
fn flush_from_right_forwards() {
    let mut h = Harness::new();
    h.right_edge.push(Message::Flush("s1")).unwrap();
    let _ = h.poll_right().unwrap();
    let _ = h.poll_work().unwrap();
    let _ = h.poll_output().unwrap();
    assert_eq!(h.read_output(), Some(Message::Flush("s1")));
}

#[test]
fn marker_from_left_forwards() {
    let mut h = Harness::new();
    h.left_edge.push(Message::Marker("m1")).unwrap();
    let _ = h.poll_left().unwrap();
    let _ = h.poll_work().unwrap();
    let _ = h.poll_output().unwrap();
    assert_eq!(h.read_output(), Some(Message::Marker("m1")));
}

#[test]
fn marker_from_right_forwards() {
    let mut h = Harness::new();
    h.right_edge.push(Message::Marker("m1")).unwrap();
    let _ = h.poll_right().unwrap();
    let _ = h.poll_work().unwrap();
    let _ = h.poll_output().unwrap();
    assert_eq!(h.read_output(), Some(Message::Marker("m1")));
}

#[test]
fn close_from_left_propagates() {
    let mut h = Harness::new();
    h.left_edge.close().unwrap();
    let _ = h.poll_left();
    assert!(matches!(h.poll_right().unwrap_err().kind, ErrorKind::Closed));
    let _ = h.poll_work();
    assert!(matches!(h.poll_output().unwrap_err().kind, ErrorKind::Closed));
}

#[test]
fn data_then_close_drains_before_closing() {
    let mut h = Harness::new();
    h.left_edge.push(Message::Data(7)).unwrap();
    let _ = h.poll_left().unwrap();
    let _ = h.poll_work().unwrap();
    let _ = h.poll_output().unwrap();
    assert_eq!(h.read_output(), Some(Message::Data(14)));

    h.left_edge.close().unwrap();
    let _ = h.poll_left();
    let _ = h.poll_work();
    assert!(matches!(h.poll_output().unwrap_err().kind, ErrorKind::Closed));
}

#[test]
fn close_from_left_wakes_right() {
    let mut h = Harness::new();
    h.reset_woken();
    h.left_edge.close().unwrap();
    let _ = h.poll_left();
    assert!(h.right_woken(), "closing left must wake right input");
}

#[test]
fn close_from_right_wakes_left() {
    let mut h = Harness::new();
    h.reset_woken();
    h.right_edge.close().unwrap();
    let _ = h.poll_right();
    assert!(h.left_woken(), "closing right must wake left input");
}

#[test]
fn close_from_left_wakes_work() {
    let mut h = Harness::new();
    h.reset_woken();
    h.left_edge.close().unwrap();
    let _ = h.poll_left();
    assert!(h.work_woken(), "closing left must wake work phase");
}

#[test]
fn close_from_right_wakes_work() {
    let mut h = Harness::new();
    h.reset_woken();
    h.right_edge.close().unwrap();
    let _ = h.poll_right();
    assert!(h.work_woken(), "closing right must wake work phase");
}

#[test]
fn flush_from_left_wakes_work() {
    let mut h = Harness::new();
    h.reset_woken();
    h.left_edge.push(Message::Flush("s1")).unwrap();
    let _ = h.poll_left().unwrap();
    assert!(h.work_woken(), "flush from left must wake work phase");
}

#[test]
fn flush_from_right_wakes_work() {
    let mut h = Harness::new();
    h.reset_woken();
    h.right_edge.push(Message::Flush("s1")).unwrap();
    let _ = h.poll_right().unwrap();
    assert!(h.work_woken(), "flush from right must wake work phase");
}

#[test]
fn marker_from_left_wakes_work() {
    let mut h = Harness::new();
    h.reset_woken();
    h.left_edge.push(Message::Marker("m1")).unwrap();
    let _ = h.poll_left().unwrap();
    assert!(h.work_woken(), "marker from left must wake work phase");
}

#[test]
fn marker_from_right_wakes_work() {
    let mut h = Harness::new();
    h.reset_woken();
    h.right_edge.push(Message::Marker("m1")).unwrap();
    let _ = h.poll_right().unwrap();
    assert!(h.work_woken(), "marker from right must wake work phase");
}

#[test]
fn flush_ready_wakes_output() {
    let mut h = Harness::new();
    h.left_edge.push(Message::Flush("s1")).unwrap();
    let _ = h.poll_left().unwrap();
    h.reset_woken();
    let _ = h.poll_work().unwrap();
    assert!(h.output_woken(), "work must wake output when flush ready");
}

#[test]
fn close_wakes_output_directly() {
    let mut h = Harness::new();
    h.left_edge.close().unwrap();
    h.reset_woken();
    let _ = h.poll_left();
    assert!(h.output_woken(), "drain_left must wake output on close");
}

#[test]
fn marker_ready_wakes_output() {
    let mut h = Harness::new();
    h.left_edge.push(Message::Marker("m1")).unwrap();
    let _ = h.poll_left().unwrap();
    h.reset_woken();
    let _ = h.poll_work().unwrap();
    assert!(h.output_woken(), "work must wake output when marker ready");
}

#[test]
fn flush_forwarded_wakes_both_inputs() {
    let mut h = Harness::new();
    h.left_edge.push(Message::Flush("s1")).unwrap();
    let _ = h.poll_left().unwrap();
    let _ = h.poll_work().unwrap();
    h.reset_woken();
    let _ = h.poll_output().unwrap();
    assert!(h.left_woken(), "output must wake left after flush forwarded");
    assert!(h.right_woken(), "output must wake right after flush forwarded");
}

#[test]
fn marker_forwarded_wakes_both_inputs() {
    let mut h = Harness::new();
    h.left_edge.push(Message::Marker("m1")).unwrap();
    let _ = h.poll_left().unwrap();
    let _ = h.poll_work().unwrap();
    h.reset_woken();
    let _ = h.poll_output().unwrap();
    assert!(h.left_woken(), "output must wake left after marker forwarded");
    assert!(h.right_woken(), "output must wake right after marker forwarded");
}

#[test]
fn biunion_routine_poll_counted() {
    let mut h = Harness::new();
    let _ = h.poll_work().unwrap();
    let _ = h.poll_work().unwrap();
    assert_eq!(h.phases.work.target.poll_count, 2);
}

