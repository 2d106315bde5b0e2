use areamy::node::line::work::{make_line, Line};
use areamy::{make_bidi, Connect, Error, ErrorKind, Flush, LineRoutine, Message, Name, Next, Send, Sink, Source, TeeSink, Workable};
use std::collections::VecDeque;

struct MockLine {
    state: usize,
    out: VecDeque<usize>,
}

impl MockLine {
    fn new() -> Self {
        MockLine { state: 0, out: VecDeque::new() }
    }
}

impl Send<usize> for MockLine {
    fn send(&mut self, message: usize) -> Result<(), Error> {
        self.state += message;
        self.out.push_back(self.state * 2);
        Ok(())
    }
}

impl Next<usize> for MockLine {
    fn next(&mut self) -> Result<Option<usize>, Error> {
        Ok(self.out.pop_front())
    }
}

impl Flush for MockLine {
    fn flush(&mut self) -> Result<(), Error> {
        self.state = 0;
        Ok(())
    }
}

impl Name for MockLine {}
impl LineRoutine<usize, usize> for MockLine {}

struct AccMockLine {
    num: Vec<usize>,
    out: VecDeque<Vec<usize>>,
}

impl AccMockLine {
    fn new() -> Self {
        AccMockLine { num: Vec::new(), out: VecDeque::new() }
    }
}

impl Send<usize> for AccMockLine {
    fn send(&mut self, message: usize) -> Result<(), Error> {
        self.num.push(message);
        if self.num.len() == 2 {
            self.out.push_back(self.num.clone());
            self.num.clear();
        }
        Ok(())
    }
}

impl Next<Vec<usize>> for AccMockLine {
    fn next(&mut self) -> Result<Option<Vec<usize>>, Error> {
        Ok(self.out.pop_front())
    }
}

impl Flush for AccMockLine {
    fn flush(&mut self) -> Result<(), Error> {
        self.num.clear();
        Ok(())
    }
}

impl Name for AccMockLine {}
impl LineRoutine<usize, Vec<usize>> for AccMockLine {}

struct MockWaitLine {
    out: VecDeque<usize>,
    release: bool,
    wait: usize,
}

impl MockWaitLine {
    fn new(wait: usize) -> Self {
        MockWaitLine { out: VecDeque::new(), release: false, wait }
    }
}

impl Send<usize> for MockWaitLine {
    fn send(&mut self, message: usize) -> Result<(), Error> {
        self.out.push_back(message);
        self.release = self.out.len() >= self.wait;
        Ok(())
    }
}

impl Next<usize> for MockWaitLine {
    fn next(&mut self) -> Result<Option<usize>, Error> {
        if self.release {
            Ok(self.out.pop_front())
        } else {
            Ok(None)
        }
    }
}

impl Flush for MockWaitLine {
    fn flush(&mut self) -> Result<(), Error> {
        self.release = true;
        Ok(())
    }
}

impl Name for MockWaitLine {}
impl LineRoutine<usize, usize> for MockWaitLine {}

#[test]
fn node_line_accumulating_node_works() {
    let line = make_line::<usize, Vec<usize>, &'static str, _>(AccMockLine::new());
    let mut source = Source::new(line.as_ref()).unwrap();
    let mut sink = Sink::new(line).unwrap();

    source.push(Message::Data(1)).unwrap();
    source.push(Message::Data(2)).unwrap();

    assert_eq!(sink.read().unwrap(), Message::Data(vec![1, 2]));
}

#[test]
fn node_line_wait_node_mark_waits() {
    let line = make_line(MockWaitLine::new(4));
    let mut source = Source::new(line.as_ref()).unwrap();
    let mut sink = Sink::new(line).unwrap();

    source.push(Message::Data(1)).unwrap();
    source.push(Message::Data(2)).unwrap();
    source.push(Message::Data(3)).unwrap();

    source.push(Message::Marker("no_output")).unwrap();
    assert_eq!(sink.read().unwrap(), Message::Marker("no_output"));

    source.push(Message::Data(4)).unwrap();
    source.push(Message::Marker("output!")).unwrap();

    assert_eq!(sink.read().unwrap(), Message::Data(1));
    assert_eq!(sink.read().unwrap(), Message::Data(2));
    assert_eq!(sink.read().unwrap(), Message::Data(3));
    assert_eq!(sink.read().unwrap(), Message::Data(4));
    assert_eq!(sink.read().unwrap(), Message::Marker("output!"));
}

#[test]
fn node_line_wait_node_flush_waits() {
    let line = make_line(MockWaitLine::new(4));
    let mut source = Source::new(line.as_ref()).unwrap();
    let mut sink = Sink::new(line).unwrap();

    source.push(Message::Data(1)).unwrap();
    source.push(Message::Data(2)).unwrap();
    source.push(Message::Data(3)).unwrap();
    source.push(Message::Flush("force_output")).unwrap();

    assert_eq!(sink.read().unwrap(), Message::Data(1));
    assert_eq!(sink.read().unwrap(), Message::Data(2));
    assert_eq!(sink.read().unwrap(), Message::Data(3));
    assert_eq!(sink.read().unwrap(), Message::Flush("force_output"));
}

#[test]
fn node_line_basic_run() {
    let line = make_line(MockLine::new());
    let mut source = Source::new(line.as_ref()).unwrap();
    let mut sink = Sink::new(line).unwrap();

    source.push(Message::Data(1)).unwrap();
    source.push(Message::Data(2)).unwrap();

    assert_eq!(sink.read().unwrap(), Message::Data(2));
    assert_eq!(sink.read().unwrap(), Message::Data(6));

    source.push(Message::Flush("hi")).unwrap();
    assert_eq!(sink.read().unwrap(), Message::Flush("hi"));

    source.push(Message::Data(2)).unwrap();
    assert_eq!(sink.read().unwrap(), Message::Data(4));
}

#[test]
fn node_line_can_mark() {
    let line = make_line(MockLine::new());
    let mut source = Source::new(line.as_ref()).unwrap();
    let mut sink = Sink::new(line).unwrap();

    source.push(Message::Data(1)).unwrap();
    source.push(Message::Marker("hi")).unwrap();

    assert_eq!(sink.read().unwrap(), Message::Data(2));
    assert_eq!(sink.read().unwrap(), Message::Marker("hi"));
}

#[test]
fn node_line_can_flush() {
    let line = make_line(MockLine::new());
    let mut source = Source::new(line.as_ref()).unwrap();
    let mut sink = Sink::new(line).unwrap();

    source.push(Message::Data(1)).unwrap();
    source.push(Message::Flush("hi")).unwrap();

    assert_eq!(sink.read().unwrap(), Message::Data(2));
    assert_eq!(sink.read().unwrap(), Message::Flush("hi"));
}

#[test]
fn node_line_can_be_stacked() {
    let line_1 = make_line(MockLine::new());
    let mut line_2 = make_line(MockLine::new());

    let mut source = Source::new(line_1.as_ref()).unwrap();
    make_bidi(line_1, line_2.as_mut()).unwrap();

    let mut sink = Sink::new(line_2).unwrap();

    source.push(Message::Data(1)).unwrap();
    source.push(Message::Data(2)).unwrap();

    assert_eq!(sink.read().unwrap(), Message::Data(4));
    assert_eq!(sink.read().unwrap(), Message::Data(16));

    source.push(Message::Flush("hi")).unwrap();
    assert_eq!(sink.read().unwrap(), Message::Flush("hi"));

    source.push(Message::Data(2)).unwrap();
    assert_eq!(sink.read().unwrap(), Message::Data(8));
}

#[test]
fn node_line_can_be_stacked_with_type_hints() {
    let line_1 = make_line(MockLine::new());
    let mut line_2 = make_line(MockLine::new());

    let mut source = Source::new(line_1.as_ref()).unwrap();

    Connect::<usize, &'static str>::bidi(line_1, line_2.as_mut()).unwrap();

    let mut sink = Sink::<usize, &'static str>::new(line_2).unwrap();

    source.push(Message::Data(1)).unwrap();
    source.push(Message::Data(2)).unwrap();

    assert_eq!(sink.read().unwrap(), Message::Data(4));
    assert_eq!(sink.read().unwrap(), Message::Data(16));

    source.push(Message::Flush("hi")).unwrap();
    assert_eq!(sink.read().unwrap(), Message::Flush("hi"));

    source.push(Message::Data(2)).unwrap();
    assert_eq!(sink.read().unwrap(), Message::Data(8));
}

#[test]
fn node_line_can_tee() {
    let mut line = make_line(MockLine::new());

    let mut source = Source::new(line.as_ref()).unwrap();
    let mut sink_1 = TeeSink::new(line.as_mut()).unwrap();
    let mut sink_2 = TeeSink::new(line.as_mut()).unwrap();

    let mut workable: Box<dyn Workable> = line;

    source.push(Message::Data(1)).unwrap();
    source.push(Message::Data(2)).unwrap();

    workable.work().unwrap();
    workable.work().unwrap();

    assert_eq!(sink_1.read().unwrap(), Message::Data(2));
    assert_eq!(sink_1.read().unwrap(), Message::Data(6));

    assert_eq!(sink_2.read().unwrap(), Message::Data(2));
    assert_eq!(sink_2.read().unwrap(), Message::Data(6));

    source.push(Message::Flush("hi")).unwrap();
    workable.work().unwrap();
    assert_eq!(sink_1.read().unwrap(), Message::Flush("hi"));
    assert_eq!(sink_2.read().unwrap(), Message::Flush("hi"));

    source.push(Message::Data(2)).unwrap();
    workable.work().unwrap();
    assert_eq!(sink_1.read().unwrap(), Message::Data(4));
    assert_eq!(sink_2.read().unwrap(), Message::Data(4));
}

#[test]
fn node_line_can_merge() {
    let line = make_line(MockLine::new());

    let mut source_1 = Source::new(line.as_ref()).unwrap();
    let mut source_2 = Source::new(line.as_ref()).unwrap();
    let mut sink = Sink::new(line).unwrap();

    source_1.push(Message::Data(1)).unwrap();
    source_2.push(Message::Data(2)).unwrap();

    assert_eq!(sink.read().unwrap(), Message::Data(2));
    assert_eq!(sink.read().unwrap(), Message::Data(6));

    source_2.push(Message::Marker("source_2")).unwrap();
    source_1.push(Message::Flush("source_1")).unwrap();

    assert_eq!(sink.read().unwrap(), Message::Marker("source_2"));
    assert_eq!(sink.read().unwrap(), Message::Flush("source_1"));

    source_1.push(Message::Data(2)).unwrap();
    source_2.push(Message::Data(1)).unwrap();

    assert_eq!(sink.read().unwrap(), Message::Data(4));
    assert_eq!(sink.read().unwrap(), Message::Data(6));
}

#[test]
fn node_close_propagates_through_push_when_input_closed() {
    let line = make_line::<usize, usize, &'static str, _>(MockLine::new());
    let mut source = Source::new(line.as_ref()).unwrap();
    let mut sink = Sink::new(line).unwrap();

    source.push(Message::Data(1)).unwrap();
    assert_eq!(sink.read().unwrap(), Message::Data(2));

    source.close().unwrap();

    let result = sink.read();
    assert!(result.is_err());
    assert!(matches!(result.unwrap_err().kind, ErrorKind::Closed));
}

#[test]
fn node_close_propagates_through_work_chain() {
    let line_1 = make_line(MockLine::new());
    let mut line_2 = make_line(MockLine::new());

    let mut source = Source::new(line_1.as_ref()).unwrap();
    make_bidi(line_1, line_2.as_mut()).unwrap();
    let mut sink = Sink::<usize, &'static str>::new(line_2).unwrap();

    source.push(Message::Data(1)).unwrap();
    assert_eq!(sink.read().unwrap(), Message::Data(4));

    source.close().unwrap();

    let result = sink.read();
    assert!(result.is_err());
    assert!(matches!(result.unwrap_err().kind, ErrorKind::Closed));
}

#[test]
fn line_new_starts_empty() {
    let line: Line<usize, usize, usize, MockLine> = Line::new(MockLine::new());
    assert_eq!(line.workers.len(), 0);
    assert_eq!(line.pushes.len(), 0);
    assert!(!line.input.is_closed());
}

