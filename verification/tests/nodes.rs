use areamy::node::bifurcation::marker::{Left as BLeft, Right as BRight};
use areamy::node::bifurcation::work::{make_bifurcation, Bifurcation};
use areamy::node::bifurcation::BifurcationRoutine;
use areamy::node::biunion::marker::{Left, Right};
use areamy::node::biunion::work::{make_biunion, Biunion};
use areamy::node::biunion::BiunionRoutine;
use areamy::node::line::sync::make_line as make_sync_line;
use areamy::node::work::work_each;
use areamy::graph::{OutputSide, ParentSide};
use areamy::{Edge, Error, ErrorKind, Flush, LineRoutine, Message, Name, Next, Send, Sink, Source, TeeSink, Unary, Workable};
use std::collections::VecDeque;

struct MockBifurcation {
    shared_state: usize,
    left_out: VecDeque<usize>,
    right_out: VecDeque<usize>,
}

impl MockBifurcation {
    fn new() -> Self {
        MockBifurcation { shared_state: 0, left_out: VecDeque::new(), right_out: VecDeque::new() }
    }
}

impl Send<usize> for MockBifurcation {
    fn send(&mut self, message: usize) -> Result<(), Error> {
        self.left_out.push_back(message * 2 + self.shared_state);
        self.right_out.push_back(message * 3 + self.shared_state);
        self.shared_state += 1;
        Ok(())
    }
}

impl Next<usize, BRight> for MockBifurcation {
    fn next(&mut self) -> Result<Option<usize>, Error> {
        Ok(self.right_out.pop_front())
    }
}

impl Next<usize, BLeft> for MockBifurcation {
    fn next(&mut self) -> Result<Option<usize>, Error> {
        Ok(self.left_out.pop_front())
    }
}

impl Flush for MockBifurcation {
    fn flush(&mut self) -> Result<(), Error> {
        self.shared_state = 0;
        Ok(())
    }
}

impl Name for MockBifurcation {
    fn name(&self) -> &str {
        "MockBifurcation"
    }
}

impl BifurcationRoutine<usize, usize, usize> for MockBifurcation {}

struct MockBiunion {
    shared_state: usize,
    output: VecDeque<usize>,
}

impl MockBiunion {
    fn new() -> Self {
        MockBiunion { shared_state: 0, output: VecDeque::new() }
    }
}

impl Send<usize, Left> for MockBiunion {
    fn send(&mut self, message: usize) -> Result<(), Error> {
        self.output.push_back(message * 2 + self.shared_state);
        self.shared_state += 1;
        Ok(())
    }
}

impl Send<usize, Right> for MockBiunion {
    fn send(&mut self, message: usize) -> Result<(), Error> {
        self.output.push_back(message * 3 + self.shared_state);
        self.shared_state += 1;
        Ok(())
    }
}

impl Next<usize> for MockBiunion {
    fn next(&mut self) -> Result<Option<usize>, Error> {
        Ok(self.output.pop_front())
    }
}

impl Flush for MockBiunion {
    fn flush(&mut self) -> Result<(), Error> {
        self.shared_state = 0;
        Ok(())
    }
}

impl Name for MockBiunion {
    fn name(&self) -> &str {
        "MockBiunion"
    }
}

impl BiunionRoutine<usize, usize, usize> for MockBiunion {}

struct MockLine {
    state: usize,
    out: VecDeque<usize>,
}

impl MockLine {
    fn new() -> Self {
        MockLine { state: 0, out: VecDeque::new() }
    }
}

impl Send<usize> for MockLine {
    fn send(&mut self, message: usize) -> Result<(), Error> {
        self.state += message;
        self.out.push_back(self.state * 2);
        Ok(())
    }
}

impl Next<usize> for MockLine {
    fn next(&mut self) -> Result<Option<usize>, Error> {
        Ok(self.out.pop_front())
    }
}

impl Flush for MockLine {
    fn flush(&mut self) -> Result<(), Error> {
        self.state = 0;
        Ok(())
    }
}

impl Name for MockLine {}
impl LineRoutine<usize, usize> for MockLine {}

struct ClosingWorkable;

impl Workable for ClosingWorkable {
    fn work(&mut self) -> Result<(), Error> {
        Err(Error::closed())
    }
}

struct FailingWorkable;

impl Workable for FailingWorkable {
    fn work(&mut self) -> Result<(), Error> {
        Err(Error::fatal("broken"))
    }
}

struct CountingWorkable {
    count: usize,
}

impl Workable for CountingWorkable {
    fn work(&mut self) -> Result<(), Error> {
        self.count += 1;
        Ok(())
    }
}

#[test]
fn run_bifurcation() {
    let mut bifur = make_bifurcation::<usize, usize, usize, &'static str, _>(MockBifurcation::new());

    let mut source = Source::new::<Unary, _>(&*bifur).unwrap();

    let mut left_sink = TeeSink::new::<BLeft, _>(&mut *bifur).unwrap();
    let mut right_sink = TeeSink::new::<BRight, _>(&mut *bifur).unwrap();

    let mut workable: Box<dyn Workable> = bifur;

    source.push(Message::Data(1)).unwrap();
    source.push(Message::Data(2)).unwrap();

    workable.work().unwrap();
    workable.work().unwrap();

    assert_eq!(left_sink.read().unwrap(), Message::Data(2));
    assert_eq!(left_sink.read().unwrap(), Message::Data(5));

    source.push(Message::Flush("hi")).unwrap();
    workable.work().unwrap();

    assert_eq!(right_sink.read().unwrap(), Message::Data(3));
    assert_eq!(right_sink.read().unwrap(), Message::Data(7));

    match right_sink.read().unwrap() {
        Message::Flush(_) => assert!(true),
        _ => assert!(false),
    }

    match left_sink.read().unwrap() {
        Message::Flush(_) => assert!(true),
        _ => assert!(false),
    }

    source.push(Message::Data(2)).unwrap();
    workable.work().unwrap();

    assert_eq!(left_sink.read().unwrap(), Message::Data(4));
    assert_eq!(right_sink.read().unwrap(), Message::Data(6));
}

#[test]
fn bifurcation_close_propagates_through_push_when_input_closed() {
    let mut bifur = Bifurcation::<usize, usize, usize, &'static str, _>::new(MockBifurcation::new());

    let mut left_output = Edge::<usize, &'static str>::new();
    let mut right_output = Edge::<usize, &'static str>::new();

    OutputSide::<usize, &'static str, BLeft>::add_output(&mut bifur, Box::new(left_output.sender())).unwrap();
    OutputSide::<usize, &'static str, BRight>::add_output(&mut bifur, Box::new(right_output.sender())).unwrap();

    bifur.input.close().unwrap();

    let result = bifur.work();
    assert!(matches!(result.unwrap_err().kind, ErrorKind::Closed));

    assert!(matches!(left_output.poll().unwrap_err().kind, ErrorKind::Closed));
    assert!(matches!(right_output.poll().unwrap_err().kind, ErrorKind::Closed));
}

#[test]
fn bifurcation_close_propagates_through_work_chain() {
    let mut bifur = Bifurcation::<usize, usize, usize, &'static str, _>::new(MockBifurcation::new());

    ParentSide::<Unary>::add_workable(&mut bifur, Box::new(ClosingWorkable)).unwrap();

    let mut left_output = Edge::<usize, &'static str>::new();
    let mut right_output = Edge::<usize, &'static str>::new();

    OutputSide::<usize, &'static str, BLeft>::add_output(&mut bifur, Box::new(left_output.sender())).unwrap();
    OutputSide::<usize, &'static str, BRight>::add_output(&mut bifur, Box::new(right_output.sender())).unwrap();

    let result = bifur.work();
    assert!(matches!(result.unwrap_err().kind, ErrorKind::Closed));

    assert!(matches!(left_output.poll().unwrap_err().kind, ErrorKind::Closed));
    assert!(matches!(right_output.poll().unwrap_err().kind, ErrorKind::Closed));
}

#[test]
fn node_run_biunion() {
    let biun = make_biunion::<usize, usize, usize, &'static str, _>(MockBiunion::new());

    let mut left_writer = Source::new::<Left, _>(&*biun).unwrap();
    let mut right_writer = Source::new::<Right, _>(&*biun).unwrap();

    let mut reader = Sink::new(biun).unwrap();

    left_writer.push(Message::Data(1)).unwrap();
    right_writer.push(Message::Data(2)).unwrap();

    assert_eq!(reader.read().unwrap(), Message::Data(2));
    assert_eq!(reader.read().unwrap(), Message::Data(7));

    left_writer.push(Message::Flush("left")).unwrap();
    right_writer.push(Message::Flush("right")).unwrap();

    assert_eq!(reader.read().unwrap(), Message::Flush("left"));
    assert_eq!(reader.read().unwrap(), Message::Flush("right"));

    left_writer.push(Message::Data(2)).unwrap();
    right_writer.push(Message::Data(1)).unwrap();

    assert_eq!(reader.read().unwrap(), Message::Data(4));
    assert_eq!(reader.read().unwrap(), Message::Data(4));
}

#[test]
fn close_propagates_through_push_when_left_input_closed() {
    let mut biun = Biunion::<usize, usize, usize, &'static str, _>::new(MockBiunion::new());

    let mut output_edge = Edge::<usize, &'static str>::new();
    OutputSide::<usize, &'static str, Unary>::add_output(&mut biun, Box::new(output_edge.sender())).unwrap();

    biun.input.left.close().unwrap();

    let result = biun.work();
    assert!(matches!(result.unwrap_err().kind, ErrorKind::Closed));

    assert!(matches!(output_edge.poll().unwrap_err().kind, ErrorKind::Closed));
}

#[test]
fn close_propagates_through_push_when_right_input_closed() {
    let mut biun = Biunion::<usize, usize, usize, &'static str, _>::new(MockBiunion::new());

    let mut output_edge = Edge::<usize, &'static str>::new();
    OutputSide::<usize, &'static str, Unary>::add_output(&mut biun, Box::new(output_edge.sender())).unwrap();

    biun.input.right.close().unwrap();

    let result = biun.work();
    assert!(matches!(result.unwrap_err().kind, ErrorKind::Closed));

    assert!(matches!(output_edge.poll().unwrap_err().kind, ErrorKind::Closed));
}

#[test]
fn biunion_close_propagates_through_work_chain() {
    let mut biun = Biunion::<usize, usize, usize, &'static str, _>::new(MockBiunion::new());

    ParentSide::<Left>::add_workable(&mut biun, Box::new(ClosingWorkable)).unwrap();

    let mut output_edge = Edge::<usize, &'static str>::new();
    OutputSide::<usize, &'static str, Unary>::add_output(&mut biun, Box::new(output_edge.sender())).unwrap();

    let result = biun.work();
    assert!(matches!(result.unwrap_err().kind, ErrorKind::Closed));

    assert!(matches!(output_edge.poll().unwrap_err().kind, ErrorKind::Closed));
}

#[test]
fn sync_biunion_run() {
    let builder =
        areamy::node::biunion::sync::make_biunion::<usize, usize, usize, &'static str, _>(Ok(MockBiunion::new())).unwrap();

    let input = builder.input();
    let mut left_source = Source::new::<Unary, _>(&input.left).unwrap();
    let mut right_source = Source::new::<Unary, _>(&input.right).unwrap();

    let mut sink = Sink::new(Box::new(builder.workable())).unwrap();

    left_source.push(Message::Data(1)).unwrap();
    right_source.push(Message::Data(2)).unwrap();

    assert_eq!(sink.read().unwrap(), Message::Data(2));
    assert_eq!(sink.read().unwrap(), Message::Data(7));

    left_source.push(Message::Flush("left")).unwrap();
    right_source.push(Message::Flush("right")).unwrap();

    assert_eq!(sink.read().unwrap(), Message::Flush("left"));
    assert_eq!(sink.read().unwrap(), Message::Flush("right"));

    left_source.push(Message::Data(2)).unwrap();
    right_source.push(Message::Data(1)).unwrap();

    assert_eq!(sink.read().unwrap(), Message::Data(4));
    assert_eq!(sink.read().unwrap(), Message::Data(4));
}

#[test]
fn sync_biunion_drops_a_repeated_signal_from_one_input() {
    let builder =
        areamy::node::biunion::sync::make_biunion::<usize, usize, usize, &'static str, _>(Ok(MockBiunion::new())).unwrap();
    let input = builder.input();
    let mut left_a = Source::new::<Unary, _>(&input.left).unwrap();
    let mut left_b = Source::new::<Unary, _>(&input.left).unwrap();
    let mut right = Source::new::<Unary, _>(&input.right).unwrap();
    let mut sink = Sink::new(Box::new(builder.workable())).unwrap();

    left_a.push(Message::Marker("m")).unwrap();
    left_b.push(Message::Marker("m")).unwrap();
    right.push(Message::Marker("m")).unwrap();
    right.push(Message::Data(1)).unwrap();

    // The left input forwards "m" once; the right input keeps its own record.
    assert_eq!(sink.read().unwrap(), Message::Marker("m"));
    assert_eq!(sink.read().unwrap(), Message::Marker("m"));
    assert_eq!(sink.read().unwrap(), Message::Data(3));
}

#[test]
fn sync_line_drops_a_repeated_signal() {
    let mut builder = make_sync_line::<usize, usize, &'static str, _>(Ok(MockLine::new())).unwrap();
    let mut source_1 = Source::new::<Unary, _>(&*builder.input()).unwrap();
    let mut source_2 = Source::new::<Unary, _>(&*builder.input()).unwrap();
    let mut sink = Sink::new(Box::new(builder.workable())).unwrap();

    source_1.push(Message::Flush("f")).unwrap();
    source_2.push(Message::Flush("f")).unwrap();
    source_1.push(Message::Data(1)).unwrap();

    assert_eq!(sink.read().unwrap(), Message::Flush("f"));
    // The second flush with the same origin is dropped.
    assert_eq!(sink.read().unwrap(), Message::Data(2));

    // After data, the same origin is forwarded again.
    source_2.push(Message::Flush("f")).unwrap();
    assert_eq!(sink.read().unwrap(), Message::Flush("f"));
}

#[test]
fn sync_make_line_passes_the_error_on() {
    let r = make_sync_line::<usize, usize, &'static str, MockLine>(Err(Error::fatal("no routine")));
    assert!(matches!(r, Err(e) if e.kind == ErrorKind::Fatal));
}

#[test]
fn work_each_drops_closed_and_keeps_others() {
    let mut workables: Vec<Box<dyn Workable>> =
        vec![Box::new(CountingWorkable { count: 0 }), Box::new(ClosingWorkable), Box::new(CountingWorkable { count: 0 })];
    work_each(&mut workables).unwrap();
    assert_eq!(workables.len(), 2);
    work_each(&mut workables).unwrap();
    assert_eq!(workables.len(), 2);
}

#[test]
fn work_each_returns_other_errors() {
    let mut workables: Vec<Box<dyn Workable>> = vec![Box::new(FailingWorkable), Box::new(ClosingWorkable)];
    let r = work_each(&mut workables);
    assert!(matches!(r.unwrap_err().kind, ErrorKind::Fatal));
    assert_eq!(workables.len(), 2);
}

