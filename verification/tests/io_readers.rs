use areamy::node::bifurcation::marker::{Left as BLeft, Right as BRight};
use areamy::node::bifurcation::work::make_bifurcation;
use areamy::node::bifurcation::{BifurcationIo, BifurcationReader, BifurcationRoutine};
use areamy::node::biunion::marker::{Left, Right};
use areamy::node::biunion::work::make_biunion;
use areamy::node::biunion::{BiunionIo, BiunionReader, BiunionRoutine};
use areamy::node::line::work::make_line;
use areamy::node::line::{LineIo, LineReader};
use areamy::{Error, Flush, LineRoutine, Message, Name, Next, Send, Sink, Source, TeeSink, Unary};
use std::collections::VecDeque;

struct MockLine {
    state: usize,
    out: VecDeque<usize>,
}

impl MockLine {
    fn new() -> Self {
        MockLine { state: 0, out: VecDeque::new() }
    }
}

impl Send<usize> for MockLine {
    fn send(&mut self, message: usize) -> Result<(), Error> {
        self.state += message;
        self.out.push_back(self.state * 2);
        Ok(())
    }
}

impl Next<usize> for MockLine {
    fn next(&mut self) -> Result<Option<usize>, Error> {
        Ok(self.out.pop_front())
    }
}

impl Flush for MockLine {
    fn flush(&mut self) -> Result<(), Error> {
        self.state = 0;
        Ok(())
    }
}

impl Name for MockLine {}
impl LineRoutine<usize, usize> for MockLine {}

struct MockBifurcation {
    shared_state: usize,
    left_out: VecDeque<usize>,
    right_out: VecDeque<usize>,
}

impl MockBifurcation {
    fn new() -> Self {
        MockBifurcation { shared_state: 0, left_out: VecDeque::new(), right_out: VecDeque::new() }
    }
}

impl Send<usize> for MockBifurcation {
    fn send(&mut self, message: usize) -> Result<(), Error> {
        self.left_out.push_back(message * 2 + self.shared_state);
        self.right_out.push_back(message * 3 + self.shared_state);
        self.shared_state += 1;
        Ok(())
    }
}

impl Next<usize, BRight> for MockBifurcation {
    fn next(&mut self) -> Result<Option<usize>, Error> {
        Ok(self.right_out.pop_front())
    }
}

impl Next<usize, BLeft> for MockBifurcation {
    fn next(&mut self) -> Result<Option<usize>, Error> {
        Ok(self.left_out.pop_front())
    }
}

impl Flush for MockBifurcation {
    fn flush(&mut self) -> Result<(), Error> {
        self.shared_state = 0;
        Ok(())
    }
}

impl Name for MockBifurcation {
    fn name(&self) -> &str {
        "MockBifurcation"
    }
}

impl BifurcationRoutine<usize, usize, usize> for MockBifurcation {}

struct MockBiunion {
    shared_state: usize,
    output: VecDeque<usize>,
}

impl MockBiunion {
    fn new() -> Self {
        MockBiunion { shared_state: 0, output: VecDeque::new() }
    }
}

impl Send<usize, Left> for MockBiunion {
    fn send(&mut self, message: usize) -> Result<(), Error> {
        self.output.push_back(message * 2 + self.shared_state);
        self.shared_state += 1;
        Ok(())
    }
}

impl Send<usize, Right> for MockBiunion {
    fn send(&mut self, message: usize) -> Result<(), Error> {
        self.output.push_back(message * 3 + self.shared_state);
        self.shared_state += 1;
        Ok(())
    }
}

impl Next<usize> for MockBiunion {
    fn next(&mut self) -> Result<Option<usize>, Error> {
        Ok(self.output.pop_front())
    }
}

impl Flush for MockBiunion {
    fn flush(&mut self) -> Result<(), Error> {
        self.shared_state = 0;
        Ok(())
    }
}

impl Name for MockBiunion {
    fn name(&self) -> &str {
        "MockBiunion"
    }
}

impl BiunionRoutine<usize, usize, usize> for MockBiunion {}

#[test]
fn io_readers_line_objects() {
    let line = make_line::<usize, usize, &'static str, _>(MockLine::new());
    let writer = Source::new::<Unary, _>(&*line).unwrap();
    let reader = Sink::new(line).unwrap();

    let mut io = LineIo::new(writer, reader);

    io.push(Message::Data(1)).unwrap();
    io.push(Message::Data(2)).unwrap();

    assert_eq!(io.read().unwrap(), Message::Data(2));
    assert_eq!(io.read().unwrap(), Message::Data(6));

    io.push(Message::Flush("hi")).unwrap();
    io.read().unwrap();

    io.push(Message::Data(2)).unwrap();
    assert_eq!(io.read().unwrap(), Message::Data(4));
}

#[test]
fn io_readers_line_mread() {
    let line = make_line::<usize, usize, &'static str, _>(MockLine::new());
    let writer = Source::new::<Unary, _>(&*line).unwrap();
    let reader = Sink::new(line).unwrap();

    let mut io = LineIo::new(writer, reader);

    io.push(Message::Data(1)).unwrap();
    io.push(Message::Data(2)).unwrap();

    let res: Vec<usize> = io.mark("unknown").unwrap();

    assert_eq!(res, vec![2, 6]);
}

#[test]
fn io_line_flush_collects_data() {
    let line = make_line::<usize, usize, &'static str, _>(MockLine::new());
    let writer = Source::new::<Unary, _>(&*line).unwrap();
    let reader = Sink::new(line).unwrap();

    let mut io = LineIo::new(writer, reader);

    io.push(Message::Data(1)).unwrap();
    io.push(Message::Data(2)).unwrap();
    let res: Vec<usize> = io.flush("f").unwrap();
    assert_eq!(res, vec![2, 6]);

    // The flush reset the routine.
    io.push(Message::Data(5)).unwrap();
    assert_eq!(io.read().unwrap(), Message::Data(10));
}

#[test]
fn reader_readers_line_objects() {
    let mut builder = areamy::node::line::sync::make_line::<usize, usize, &'static str, _>(Ok(MockLine::new())).unwrap();
    let source = Source::new::<Unary, _>(&*builder.input()).unwrap();
    let sink = Sink::new(Box::new(builder.workable())).unwrap();

    let mut reader = LineReader::new(source, sink);

    reader.push(Message::Data(1)).unwrap();
    reader.push(Message::Data(2)).unwrap();

    assert_eq!(reader.read().unwrap(), Message::Data(2));
    assert_eq!(reader.read().unwrap(), Message::Data(6));

    reader.push(Message::Flush("hi")).unwrap();
    reader.read().unwrap();

    reader.push(Message::Data(2)).unwrap();
    assert_eq!(reader.read().unwrap(), Message::Data(4));
}

#[test]
fn reader_readers_line_mread() {
    let mut builder = areamy::node::line::sync::make_line::<usize, usize, &'static str, _>(Ok(MockLine::new())).unwrap();
    let source = Source::new::<Unary, _>(&*builder.input()).unwrap();
    let sink = Sink::new(Box::new(builder.workable())).unwrap();

    let mut reader = LineReader::new(source, sink);

    reader.push(Message::Data(1)).unwrap();
    reader.push(Message::Data(2)).unwrap();

    let res: Vec<usize> = reader.mark("unknown").unwrap();

    assert_eq!(res, vec![2, 6]);
}

#[test]
fn io_readers_bifurcation_read() {
    let mut bifur = make_bifurcation::<usize, usize, usize, &'static str, _>(MockBifurcation::new());

    let writer = Source::new::<Unary, _>(&*bifur).unwrap();

    let left_reader = TeeSink::new::<BLeft, _>(&mut *bifur).unwrap();
    let right_reader = TeeSink::new::<BRight, _>(&mut *bifur).unwrap();

    let mut reader = BifurcationIo::new(writer, left_reader, right_reader, bifur);

    reader.push(Message::Data(1)).unwrap();
    reader.push(Message::Data(2)).unwrap();

    assert_eq!(reader.left_read().unwrap(), Message::Data(2));
    assert_eq!(reader.left_read().unwrap(), Message::Data(5));

    reader.push(Message::Flush("hi")).unwrap();

    assert_eq!(reader.right_read().unwrap(), Message::Data(3));
    assert_eq!(reader.right_read().unwrap(), Message::Data(7));

    assert_eq!(reader.right_read().unwrap(), Message::Flush("hi"));
    assert_eq!(reader.left_read().unwrap(), Message::Flush("hi"));

    reader.push(Message::Data(2)).unwrap();

    assert_eq!(reader.left_read().unwrap(), Message::Data(4));
    assert_eq!(reader.right_read().unwrap(), Message::Data(6));
}

#[test]
fn io_bifurcation_marks() {
    let mut bifur = make_bifurcation::<usize, usize, usize, &'static str, _>(MockBifurcation::new());
    let writer = Source::new::<Unary, _>(&*bifur).unwrap();
    let left_reader = TeeSink::new::<BLeft, _>(&mut *bifur).unwrap();
    let right_reader = TeeSink::new::<BRight, _>(&mut *bifur).unwrap();
    let mut io = BifurcationIo::new(writer, left_reader, right_reader, bifur);

    io.push(Message::Data(1)).unwrap();
    io.push(Message::Data(2)).unwrap();
    let left: Vec<usize> = io.left_mark("m").unwrap();
    assert_eq!(left, vec![2, 5]);
    let right: Vec<usize> = io.right_mark("n").unwrap();
    assert_eq!(right, vec![3, 7]);
}

#[test]
fn reader_readers_bifurcation_read() {
    let mut builder =
        areamy::node::bifurcation::sync::make_bifurcation::<usize, usize, usize, &'static str, _>(Ok(MockBifurcation::new()))
            .unwrap();

    let source = Source::new::<Unary, _>(builder.input()).unwrap();

    let left_sink = TeeSink::new::<Unary, _>(&mut builder.output().left).unwrap();
    let right_sink = TeeSink::new::<Unary, _>(&mut builder.output().right).unwrap();

    let mut reader = BifurcationReader::new(source, left_sink, right_sink, Box::new(builder.workable()));

    reader.push(Message::Data(1)).unwrap();
    reader.push(Message::Data(2)).unwrap();

    assert_eq!(reader.left_read().unwrap(), Message::Data(2));
    assert_eq!(reader.left_read().unwrap(), Message::Data(5));

    reader.push(Message::Flush("hi")).unwrap();

    assert_eq!(reader.right_read().unwrap(), Message::Data(3));
    assert_eq!(reader.right_read().unwrap(), Message::Data(7));

    assert_eq!(reader.right_read().unwrap(), Message::Flush("hi"));
    assert_eq!(reader.left_read().unwrap(), Message::Flush("hi"));

    reader.push(Message::Data(2)).unwrap();

    assert_eq!(reader.left_read().unwrap(), Message::Data(4));
    assert_eq!(reader.right_read().unwrap(), Message::Data(6));
}

#[test]
fn io_readers_biunion_read() {
    let biun = make_biunion::<usize, usize, usize, &'static str, _>(MockBiunion::new());

    let left_writer = Source::new::<Left, _>(&*biun).unwrap();
    let right_writer = Source::new::<Right, _>(&*biun).unwrap();

    let output = Sink::new(biun).unwrap();

    let mut reader = BiunionIo::new(left_writer, right_writer, output);

    reader.left_push(Message::Data(1)).unwrap();
    reader.right_push(Message::Data(2)).unwrap();

    assert_eq!(reader.read().unwrap(), Message::Data(2));
    assert_eq!(reader.read().unwrap(), Message::Data(7));

    reader.left_push(Message::Flush("left")).unwrap();
    reader.right_push(Message::Flush("right")).unwrap();

    assert_eq!(reader.read().unwrap(), Message::Flush("left"));
    assert_eq!(reader.read().unwrap(), Message::Flush("right"));

    reader.left_push(Message::Data(2)).unwrap();
    reader.right_push(Message::Data(1)).unwrap();

    assert_eq!(reader.read().unwrap(), Message::Data(4));
    assert_eq!(reader.read().unwrap(), Message::Data(4));
}

#[test]
fn io_biunion_marks() {
    let biun = make_biunion::<usize, usize, usize, &'static str, _>(MockBiunion::new());
    let left_writer = Source::new::<Left, _>(&*biun).unwrap();
    let right_writer = Source::new::<Right, _>(&*biun).unwrap();
    let output = Sink::new(biun).unwrap();
    let mut io = BiunionIo::new(left_writer, right_writer, output);

    io.left_push(Message::Data(1)).unwrap();
    let res: Vec<usize> = io.left_mark("l").unwrap();
    assert_eq!(res, vec![2]);
    io.right_push(Message::Data(1)).unwrap();
    let res: Vec<usize> = io.right_mark("r").unwrap();
    assert_eq!(res, vec![4]);
}

#[test]
fn reader_readers_biunion_read() {
    let builder = areamy::node::biunion::sync::make_biunion::<usize, usize, usize, &'static str, _>(Ok(MockBiunion::new())).unwrap();

    let input = builder.input();
    let left_source = Source::new::<Unary, _>(&input.left).unwrap();
    let right_source = Source::new::<Unary, _>(&input.right).unwrap();

    let sink = Sink::new(Box::new(builder.workable())).unwrap();

    let mut reader = BiunionReader::new(left_source, right_source, sink);

    reader.left_push(Message::Data(1)).unwrap();
    reader.right_push(Message::Data(2)).unwrap();

    assert_eq!(reader.read().unwrap(), Message::Data(2));
    assert_eq!(reader.read().unwrap(), Message::Data(7));

    reader.left_push(Message::Flush("left")).unwrap();
    reader.right_push(Message::Flush("right")).unwrap();

    assert_eq!(reader.read().unwrap(), Message::Flush("left"));
    assert_eq!(reader.read().unwrap(), Message::Flush("right"));

    reader.left_push(Message::Data(2)).unwrap();
    reader.right_push(Message::Data(1)).unwrap();

    assert_eq!(reader.read().unwrap(), Message::Data(4));
    assert_eq!(reader.read().unwrap(), Message::Data(4));
}

