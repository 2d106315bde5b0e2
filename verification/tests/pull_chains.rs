use areamy::node::line::nosync::{self, Root};
use areamy::node::line::pull::{make_pull, read_until, Connect, SourceBuffer};
use areamy::node::line::sync::bridge_nosync;
use areamy::node::line::work::from_pull;
use areamy::{Error, ErrorKind, Flush, LineRoutine, Message, Name, Next, Pullable, Send, Sink, Source, Unary};
use std::collections::VecDeque;

struct MockLine {
    state: usize,
    out: VecDeque<usize>,
}

impl MockLine {
    fn new() -> Self {
        MockLine { state: 0, out: VecDeque::new() }
    }
}

impl Send<usize> for MockLine {
    fn send(&mut self, message: usize) -> Result<(), Error> {
        self.state += message;
        self.out.push_back(self.state * 2);
        Ok(())
    }
}

impl Next<usize> for MockLine {
    fn next(&mut self) -> Result<Option<usize>, Error> {
        Ok(self.out.pop_front())
    }
}

impl Flush for MockLine {
    fn flush(&mut self) -> Result<(), Error> {
        self.state = 0;
        Ok(())
    }
}

impl Name for MockLine {}
impl LineRoutine<usize, usize> for MockLine {}

struct AccMockLine {
    num: Vec<usize>,
    out: VecDeque<Vec<usize>>,
}

impl AccMockLine {
    fn new() -> Self {
        AccMockLine { num: Vec::new(), out: VecDeque::new() }
    }
}

impl Send<usize> for AccMockLine {
    fn send(&mut self, message: usize) -> Result<(), Error> {
        self.num.push(message);
        if self.num.len() == 2 {
            self.out.push_back(self.num.clone());
            self.num.clear();
        }
        Ok(())
    }
}

impl Next<Vec<usize>> for AccMockLine {
    fn next(&mut self) -> Result<Option<Vec<usize>>, Error> {
        Ok(self.out.pop_front())
    }
}

impl Flush for AccMockLine {
    fn flush(&mut self) -> Result<(), Error> {
        self.num.clear();
        Ok(())
    }
}

impl Name for AccMockLine {}
impl LineRoutine<usize, Vec<usize>> for AccMockLine {}

struct MockWaitLine {
    out: VecDeque<usize>,
    release: bool,
    wait: usize,
}

impl MockWaitLine {
    fn new(wait: usize) -> Self {
        MockWaitLine { out: VecDeque::new(), release: false, wait }
    }
}

impl Send<usize> for MockWaitLine {
    fn send(&mut self, message: usize) -> Result<(), Error> {
        self.out.push_back(message);
        self.release = self.out.len() >= self.wait;
        Ok(())
    }
}

impl Next<usize> for MockWaitLine {
    fn next(&mut self) -> Result<Option<usize>, Error> {
        if self.release {
            Ok(self.out.pop_front())
        } else {
            Ok(None)
        }
    }
}

impl Flush for MockWaitLine {
    fn flush(&mut self) -> Result<(), Error> {
        self.release = true;
        Ok(())
    }
}

impl Name for MockWaitLine {}
impl LineRoutine<usize, usize> for MockWaitLine {}

struct Identity {
    output: VecDeque<usize>,
}

impl Identity {
    fn new() -> Self {
        Identity { output: VecDeque::new() }
    }
}

impl Send<usize> for Identity {
    fn send(&mut self, message: usize) -> Result<(), Error> {
        self.output.push_back(message);
        Ok(())
    }
}

impl Next<usize> for Identity {
    fn next(&mut self) -> Result<Option<usize>, Error> {
        Ok(self.output.pop_front())
    }
}

impl Flush for Identity {
    fn flush(&mut self) -> Result<(), Error> {
        Ok(())
    }
}

impl Name for Identity {}
impl LineRoutine<usize, usize> for Identity {}

#[test]
fn pull_line_accumulating_node_works() {
    let buffer = SourceBuffer::<usize, &'static str>::new();
    let mut writer = Source::new::<Unary, _>(&buffer).unwrap();
    let mut line = make_pull(buffer, AccMockLine::new());

    writer.push(Message::Data(1)).unwrap();
    writer.push(Message::Data(2)).unwrap();

    assert_eq!(line.pull().unwrap(), Message::Data(vec![1, 2]));
}

#[test]
fn node_line_nosync_basic_run() {
    let buffer = SourceBuffer::<usize, &'static str>::new();
    let mut writer = Source::new::<Unary, _>(&buffer).unwrap();

    let mut line = make_pull(buffer, MockLine::new());

    writer.push(Message::Data(1)).unwrap();
    writer.push(Message::Data(2)).unwrap();

    assert_eq!(line.pull().unwrap(), Message::Data(2));
    assert_eq!(line.pull().unwrap(), Message::Data(6));

    writer.push(Message::Flush("hi")).unwrap();
    assert_eq!(line.pull().unwrap(), Message::Flush("hi"));

    writer.push(Message::Data(2)).unwrap();
    assert_eq!(line.pull().unwrap(), Message::Data(4));
}

#[test]
fn pull_line_wait_node_mark_waits() {
    let buffer = SourceBuffer::<usize, &'static str>::new();
    let mut writer = Source::new::<Unary, _>(&buffer).unwrap();

    let mut line = make_pull(buffer, MockWaitLine::new(4));

    writer.push(Message::Data(1)).unwrap();
    writer.push(Message::Data(2)).unwrap();
    writer.push(Message::Data(3)).unwrap();

    writer.push(Message::Marker("no_output")).unwrap();
    assert_eq!(line.pull().unwrap(), Message::Marker("no_output"));

    writer.push(Message::Data(4)).unwrap();

    writer.push(Message::Marker("output!")).unwrap();

    assert_eq!(line.pull().unwrap(), Message::Data(1));
    assert_eq!(line.pull().unwrap(), Message::Data(2));
    assert_eq!(line.pull().unwrap(), Message::Data(3));
    assert_eq!(line.pull().unwrap(), Message::Data(4));
    assert_eq!(line.pull().unwrap(), Message::Marker("output!"));
}

#[test]
fn pull_line_wait_node_flush_waits() {
    let buffer = SourceBuffer::<usize, &'static str>::new();
    let mut writer = Source::new::<Unary, _>(&buffer).unwrap();

    let mut line = make_pull(buffer, MockWaitLine::new(4));

    writer.push(Message::Data(1)).unwrap();
    writer.push(Message::Data(2)).unwrap();
    writer.push(Message::Data(3)).unwrap();
    writer.push(Message::Flush("force_output")).unwrap();

    assert_eq!(line.pull().unwrap(), Message::Data(1));
    assert_eq!(line.pull().unwrap(), Message::Data(2));
    assert_eq!(line.pull().unwrap(), Message::Data(3));
    assert_eq!(line.pull().unwrap(), Message::Flush("force_output"));
}

#[test]
fn node_line_nosync_basic_stacked() {
    let buffer = SourceBuffer::<usize, &'static str>::new();
    let mut writer = Source::new::<Unary, _>(&buffer).unwrap();

    let line1 = make_pull(buffer, MockLine::new());
    let mut line2 = make_pull(line1, MockLine::new());

    writer.push(Message::Data(1)).unwrap();
    writer.push(Message::Data(2)).unwrap();

    assert_eq!(line2.pull().unwrap(), Message::Data(4));
    assert_eq!(line2.pull().unwrap(), Message::Data(16));

    writer.push(Message::Flush("hi")).unwrap();
    assert_eq!(line2.pull().unwrap(), Message::Flush("hi"));

    writer.push(Message::Data(2)).unwrap();

    assert_eq!(line2.pull().unwrap(), Message::Data(8));
}

#[test]
fn node_line_nosync_respects_signal_ordering() {
    let buffer = SourceBuffer::<usize, usize>::new();
    let mut writer = Source::of(&buffer.edge.sender()).unwrap();

    let line1 = make_pull(buffer, MockLine::new());
    let mut line2 = make_pull(line1, MockLine::new());

    writer.push(Message::Data(1)).unwrap();
    writer.push(Message::Flush(1)).unwrap();
    writer.push(Message::Data(2)).unwrap();
    writer.push(Message::Flush(2)).unwrap();
    writer.push(Message::Data(3)).unwrap();
    writer.push(Message::Marker(3)).unwrap();
    writer.push(Message::Data(4)).unwrap();
    writer.push(Message::Flush(4)).unwrap();

    assert_eq!(line2.pull().unwrap(), Message::Data(4));
    assert_eq!(line2.pull().unwrap(), Message::Flush(1));
    assert_eq!(line2.pull().unwrap(), Message::Data(8));
    assert_eq!(line2.pull().unwrap(), Message::Flush(2));
    assert_eq!(line2.pull().unwrap(), Message::Data(12));
    assert_eq!(line2.pull().unwrap(), Message::Marker(3));
    assert_eq!(line2.pull().unwrap(), Message::Data(40));
    assert_eq!(line2.pull().unwrap(), Message::Flush(4));
}

#[test]
fn line_builder_reading_source_buffer() {
    let mut buffer = SourceBuffer::<usize, usize>::new();
    let mut source = Source::of(&buffer.edge.sender()).unwrap();

    source.push(Message::Data(5)).unwrap();
    source.push(Message::Data(6)).unwrap();

    assert_eq!(buffer.pull().unwrap(), Message::Data(5));
    assert_eq!(buffer.pull().unwrap(), Message::Data(6));
}

#[test]
fn builder_line_builder_make_pull() {
    let buffer = SourceBuffer::<usize, usize>::new();
    let mut source = Source::of(&buffer.edge.sender()).unwrap();

    let mut line = make_pull(buffer, MockLine::new());

    source.push(Message::Data(1)).unwrap();
    source.push(Message::Data(2)).unwrap();

    assert_eq!(line.pull().unwrap(), Message::Data(2));
    assert_eq!(line.pull().unwrap(), Message::Data(6));
}

#[test]
fn pull_connect_hints_types() {
    let buffer = SourceBuffer::<usize, usize>::new();
    let mut source = Source::of(&buffer.edge.sender()).unwrap();
    let mut line = Connect::<usize, usize>::pull(buffer, MockLine::new());
    source.push(Message::Data(3)).unwrap();
    assert_eq!(line.pull().unwrap(), Message::Data(6));
}

#[test]
fn empty_source_buffer_is_fatal_and_closed_is_closed() {
    let mut buffer = SourceBuffer::<usize, usize>::new();
    assert!(matches!(buffer.pull().unwrap_err().kind, ErrorKind::Fatal));
    let mut source = Source::of(&buffer.edge.sender()).unwrap();
    source.push(Message::Data(1)).unwrap();
    source.close().unwrap();
    assert_eq!(buffer.pull().unwrap(), Message::Data(1));
    assert!(matches!(buffer.pull().unwrap_err().kind, ErrorKind::Closed));
    assert!(matches!(buffer.pull().unwrap_err().kind, ErrorKind::Closed));
}

#[test]
fn line_nosync_readers_basic() {
    let buffer = SourceBuffer::<usize, usize>::new();
    let mut writer = Source::of(&buffer.edge.sender()).unwrap();

    let mut line = make_pull(buffer, Identity::new());

    writer.push(Message::Data(1)).unwrap();
    writer.push(Message::Data(2)).unwrap();
    writer.push(Message::Data(3)).unwrap();
    writer.push(Message::Data(4)).unwrap();
    writer.push(Message::Marker(0)).unwrap();
    writer.push(Message::Data(5)).unwrap();
    writer.push(Message::Data(6)).unwrap();
    writer.push(Message::Marker(0)).unwrap();

    assert_eq!(
        read_until(&mut line, Message::Marker(0)).unwrap(),
        vec![Message::Data(1), Message::Data(2), Message::Data(3), Message::Data(4)]
    );

    assert_eq!(read_until(&mut line, Message::Marker(0)).unwrap(), vec![Message::Data(5), Message::Data(6),]);
}

#[test]
fn line_builder_reading_root() {
    let mut root = Root::<usize, usize>::new();
    let mut source = Source::of(&root.input.sender()).unwrap();

    source.push(Message::Data(5)).unwrap();
    source.push(Message::Data(6)).unwrap();

    assert_eq!(root.pull().unwrap(), Message::Data(5));
    assert_eq!(root.pull().unwrap(), Message::Data(6));
}

#[test]
fn nosync_make_pull_over_root() {
    let root = Root::<usize, &'static str>::new();
    let mut source = Source::new::<Unary, _>(&root).unwrap();

    let mut line = nosync::make_pull(root, Ok(MockLine::new())).unwrap();

    source.push(Message::Data(1)).unwrap();
    source.push(Message::Data(2)).unwrap();

    assert_eq!(line.pull().unwrap(), Message::Data(2));
    assert_eq!(line.pull().unwrap(), Message::Data(6));
}

#[test]
fn nosync_make_pull_passes_the_error_on() {
    let root = Root::<usize, &'static str>::new();
    let r = nosync::make_pull::<usize, usize, &'static str, MockLine, _>(root, Err(Error::fatal("no routine")));
    assert!(matches!(r, Err(e) if e.kind == ErrorKind::Fatal));
}

#[test]
fn nosync_root_line_stacked_respects_signal_ordering() {
    let root = nosync::Line::<usize, usize, usize, MockLine, Root<usize, usize>>::root(MockLine::new());
    let mut source = Source::new::<Unary, _>(&root).unwrap();

    let line1 = nosync::make_pull(root, Ok(MockLine::new())).unwrap();
    let mut line2 = nosync::Connect::<usize, usize>::pull(line1, Ok(MockLine::new())).unwrap();

    source.push(Message::Data(1)).unwrap();
    source.push(Message::Flush(1)).unwrap();
    source.push(Message::Data(2)).unwrap();
    source.push(Message::Flush(2)).unwrap();
    source.push(Message::Data(3)).unwrap();
    source.push(Message::Marker(3)).unwrap();
    source.push(Message::Data(4)).unwrap();
    source.push(Message::Flush(4)).unwrap();

    assert_eq!(line2.pull().unwrap(), Message::Data(8));
    assert_eq!(line2.pull().unwrap(), Message::Flush(1));
    assert_eq!(line2.pull().unwrap(), Message::Data(16));
    assert_eq!(line2.pull().unwrap(), Message::Flush(2));
    assert_eq!(line2.pull().unwrap(), Message::Data(24));
    assert_eq!(line2.pull().unwrap(), Message::Marker(3));
    assert_eq!(line2.pull().unwrap(), Message::Data(104));
    assert_eq!(line2.pull().unwrap(), Message::Flush(4));
}

#[test]
fn nosync_root_line_basic_run() {
    let line = nosync::Line::<usize, usize, &'static str, MockLine, Root<usize, &'static str>>::root(MockLine::new());
    let mut source = Source::new::<Unary, _>(&line).unwrap();
    let mut line = line;

    source.push(Message::Data(1)).unwrap();
    source.push(Message::Data(2)).unwrap();

    assert_eq!(line.pull().unwrap(), Message::Data(2));
    assert_eq!(line.pull().unwrap(), Message::Data(6));

    source.push(Message::Flush("hi")).unwrap();
    assert_eq!(line.pull().unwrap(), Message::Flush("hi"));

    source.push(Message::Data(2)).unwrap();
    assert_eq!(line.pull().unwrap(), Message::Data(4));

}

#[test]
fn bridge_line_basic_bridge() {
    let buffer = SourceBuffer::<usize, &'static str>::new();
    let mut source = Source::new::<Unary, _>(&buffer).unwrap();

    let line = from_pull(buffer, MockLine::new());
    let mut sink = Sink::new(line).unwrap();

    source.push(Message::Data(1)).unwrap();
    source.push(Message::Data(2)).unwrap();

    assert_eq!(sink.read().unwrap(), Message::Data(2));
    assert_eq!(sink.read().unwrap(), Message::Data(6));

    source.push(Message::Flush("hi")).unwrap();
    assert_eq!(sink.read().unwrap(), Message::Flush("hi"));

    source.push(Message::Data(2)).unwrap();
    assert_eq!(sink.read().unwrap(), Message::Data(4));
}

#[test]
fn sync_bridge_nosync_over_root() {
    let root = Root::<usize, &'static str>::new();
    let mut source = Source::new::<Unary, _>(&root).unwrap();

    let builder = bridge_nosync(root, Ok(MockLine::new())).unwrap();
    let mut sink = Sink::new(Box::new(builder.workable())).unwrap();

    source.push(Message::Data(1)).unwrap();
    source.push(Message::Data(2)).unwrap();

    assert_eq!(sink.read().unwrap(), Message::Data(2));
    assert_eq!(sink.read().unwrap(), Message::Data(6));

    source.push(Message::Flush("hi")).unwrap();
    assert_eq!(sink.read().unwrap(), Message::Flush("hi"));

    source.push(Message::Data(2)).unwrap();
    assert_eq!(sink.read().unwrap(), Message::Data(4));
}

