use areamy::node::line::poll::routine::LineRoutine as PollLineRoutine;
use areamy::node::line::AsyncLineRoutine;
use areamy::{Error, Flush, LineRoutine, Multiplicity, Name, Next, Poll, Readiness, Send};
use std::collections::VecDeque;

trait MockRoutine: Send<usize> + Next<usize> + Flush {}

struct AddOne {
    out: VecDeque<usize>,
}

impl MockRoutine for AddOne {}

impl Next<usize> for AddOne {
    fn next(&mut self) -> Result<Option<usize>, Error> {
        Ok(self.out.pop_front())
    }
}

impl Send<usize> for AddOne {
    fn send(&mut self, message: usize) -> Result<(), Error> {
        self.out.push_back(message + 1);
        Ok(())
    }
}

impl Flush for AddOne {
    fn flush(&mut self) -> Result<(), Error> {
        Ok(())
    }
}

struct LeftSide;
struct RightSide;

impl Multiplicity for LeftSide {}
impl Multiplicity for RightSide {}

trait MockCrossRoutine:
    Send<usize, RightSide> + Send<usize, LeftSide> + Next<usize, LeftSide> + Next<usize, RightSide> + Flush
{
}

struct CrossAdder {
    left: VecDeque<usize>,
    right: VecDeque<usize>,
}

impl MockCrossRoutine for CrossAdder {}

impl Send<usize, LeftSide> for CrossAdder {
    fn send(&mut self, message: usize) -> Result<(), Error> {
        self.right.push_back(message + 1);
        Ok(())
    }
}

impl Send<usize, RightSide> for CrossAdder {
    fn send(&mut self, message: usize) -> Result<(), Error> {
        self.left.push_back(message + 1);
        Ok(())
    }
}

impl Next<usize, RightSide> for CrossAdder {
    fn next(&mut self) -> Result<Option<usize>, Error> {
        Ok(self.right.pop_front())
    }
}

impl Next<usize, LeftSide> for CrossAdder {
    fn next(&mut self) -> Result<Option<usize>, Error> {
        Ok(self.left.pop_front())
    }
}

impl Flush for CrossAdder {
    fn flush(&mut self) -> Result<(), Error> {
        Ok(())
    }
}

#[test]
fn add_one_works() {
    let mut routine: Box<dyn MockRoutine> = Box::new(AddOne { out: VecDeque::new() });

    routine.send(5).unwrap();

    assert_eq!(routine.next().unwrap(), Some(6));
    assert_eq!(routine.next().unwrap(), None);

    routine.flush().unwrap();

    routine.send(6).unwrap();
    assert_eq!(routine.next().unwrap(), Some(7));
}

#[test]
fn add_cross_works() {
    let mut routine: Box<dyn MockCrossRoutine> = Box::new(CrossAdder { left: VecDeque::new(), right: VecDeque::new() });

    Send::<usize, LeftSide>::send(routine.as_mut(), 5).unwrap();

    assert_eq!(Next::<usize, LeftSide>::next(routine.as_mut()).unwrap(), None);
    assert_eq!(Next::<usize, RightSide>::next(routine.as_mut()).unwrap(), Some(6));

    Send::<usize, RightSide>::send(routine.as_mut(), 5).unwrap();

    assert_eq!(Next::<usize, LeftSide>::next(routine.as_mut()).unwrap(), Some(6));
    assert_eq!(Next::<usize, RightSide>::next(routine.as_mut()).unwrap(), None);

    routine.flush().unwrap();
}

struct MockLine {
    state: usize,
    out: VecDeque<usize>,
}

impl MockLine {
    fn new() -> Self {
        MockLine { state: 0, out: VecDeque::new() }
    }
}

impl Send<usize> for MockLine {
    fn send(&mut self, message: usize) -> Result<(), Error> {
        self.state += message;
        self.out.push_back(self.state * 2);
        Ok(())
    }
}

impl Next<usize> for MockLine {
    fn next(&mut self) -> Result<Option<usize>, Error> {
        Ok(self.out.pop_front())
    }
}

impl Flush for MockLine {
    fn flush(&mut self) -> Result<(), Error> {
        self.state = 0;
        Ok(())
    }
}

impl Name for MockLine {}
impl LineRoutine<usize, usize> for MockLine {}

struct AccMockLine {
    num: Vec<usize>,
    out: VecDeque<Vec<usize>>,
}

impl Name for AccMockLine {}

impl AccMockLine {
    fn new() -> Self {
        AccMockLine { num: Vec::new(), out: VecDeque::new() }
    }
}

impl Send<usize> for AccMockLine {
    fn send(&mut self, message: usize) -> Result<(), Error> {
        self.num.push(message);
        if self.num.len() == 2 {
            self.out.push_back(self.num.clone());
            self.num.clear();
        }
        Ok(())
    }
}

impl Next<Vec<usize>> for AccMockLine {
    fn next(&mut self) -> Result<Option<Vec<usize>>, Error> {
        Ok(self.out.pop_front())
    }
}

impl Flush for AccMockLine {
    fn flush(&mut self) -> Result<(), Error> {
        self.num.clear();
        Ok(())
    }
}

impl LineRoutine<usize, Vec<usize>> for AccMockLine {}

struct MockWaitLine {
    out: VecDeque<usize>,
    release: bool,
    wait: usize,
}

impl MockWaitLine {
    fn new(wait: usize) -> Self {
        MockWaitLine { out: VecDeque::new(), release: false, wait }
    }
}

impl Send<usize> for MockWaitLine {
    fn send(&mut self, message: usize) -> Result<(), Error> {
        self.out.push_back(message);
        self.release = self.out.len() >= self.wait;
        Ok(())
    }
}

impl Next<usize> for MockWaitLine {
    fn next(&mut self) -> Result<Option<usize>, Error> {
        if self.release {
            Ok(self.out.pop_front())
        } else {
            Ok(None)
        }
    }
}

impl Flush for MockWaitLine {
    fn flush(&mut self) -> Result<(), Error> {
        self.release = true;
        Ok(())
    }
}

impl Name for MockWaitLine {}
impl LineRoutine<usize, usize> for MockWaitLine {}

#[test]
fn line_basic_work() {
    let mut line = MockLine::new();
    line.send(2).unwrap();

    assert_eq!(line.next().unwrap(), Some(4));
}

#[test]
fn line_basic_acc_work() {
    let mut line = AccMockLine::new();
    line.send(2).unwrap();
    assert_eq!(line.next().unwrap(), None);
    line.send(3).unwrap();

    assert_eq!(line.next().unwrap(), Some(vec![2, 3]));
}

#[test]
fn line_basic_wait_work() {
    let mut line = MockWaitLine::new(4);
    line.send(2).unwrap();
    line.send(3).unwrap();
    line.send(4).unwrap();

    assert_eq!(line.next().unwrap(), None);
    line.send(5).unwrap();
    assert_eq!(line.next().unwrap(), Some(2));
    assert_eq!(line.next().unwrap(), Some(3));
    assert_eq!(line.next().unwrap(), Some(4));
    assert_eq!(line.next().unwrap(), Some(5));
}

/// A polled routine like `MockLine` that counts its polls and reports a
/// flush finished on the first poll after it.
struct AsyncMockLine {
    state: usize,
    output: VecDeque<usize>,
    poll_count: usize,
    flushed: bool,
}

impl AsyncMockLine {
    fn new() -> Self {
        AsyncMockLine { state: 0, output: VecDeque::new(), poll_count: 0, flushed: false }
    }
}

impl Send<usize> for AsyncMockLine {
    fn send(&mut self, message: usize) -> Result<(), Error> {
        self.state += message;
        self.output.push_back(self.state * 2);
        Ok(())
    }
}

impl Next<usize> for AsyncMockLine {
    fn next(&mut self) -> Result<Option<usize>, Error> {
        Ok(self.output.pop_front())
    }
}

impl Flush for AsyncMockLine {
    fn flush(&mut self) -> Result<(), Error> {
        self.state = 0;
        self.flushed = true;
        Ok(())
    }
}

impl Poll for AsyncMockLine {
    fn poll(&mut self) -> Result<Readiness, Error> {
        self.poll_count += 1;
        if self.flushed {
            self.flushed = false;
            return Ok(Readiness::Ready);
        }
        Ok(Readiness::Pending)
    }
}

impl Name for AsyncMockLine {}
impl AsyncLineRoutine<usize, usize> for AsyncMockLine {}
impl PollLineRoutine<usize, usize> for AsyncMockLine {}

#[test]
fn async_line_send_next_works() {
    let mut line = AsyncMockLine::new();
    line.send(2).unwrap();
    assert_eq!(line.next().unwrap(), Some(4));
}

#[test]
fn async_line_poll_increments_count() {
    let mut line = AsyncMockLine::new();

    assert_eq!(line.poll_count, 0);
    assert!(matches!(Poll::poll(&mut line).unwrap(), Readiness::Pending));
    assert_eq!(line.poll_count, 1);
}

#[test]
fn poll_line_send_next_works() {
    let mut line = AsyncMockLine::new();
    line.send(2).unwrap();
    assert_eq!(line.next().unwrap(), Some(4));
}

#[test]
fn poll_line_poll_increments_count() {
    let mut line = AsyncMockLine::new();

    assert_eq!(line.poll_count, 0);
    assert!(matches!(Poll::poll(&mut line).unwrap(), Readiness::Pending));
    assert_eq!(line.poll_count, 1);
}

#[test]
fn poll_line_flush_then_ready() {
    let mut line = AsyncMockLine::new();
    line.flush().unwrap();
    assert!(matches!(Poll::poll(&mut line).unwrap(), Readiness::Ready));
    assert!(matches!(Poll::poll(&mut line).unwrap(), Readiness::Pending));
    assert_eq!(line.poll_count, 2);
}

