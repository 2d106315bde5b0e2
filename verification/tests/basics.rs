use areamy::node::layout::{IdAllocator, Outputs};
use areamy::node::state::{work_outcome, NodeState, WorkOutcome};
use areamy::signal::Visitors;
use areamy::{Closeable, Comparable, Edge, Error, ErrorKind, Message, Origin, Pushable, Readiness, Source};

#[test]
fn errors_say_what_went_wrong() {
    let closed = Error::closed();
    assert_eq!(closed.kind, ErrorKind::Closed);
    assert!(closed.is_closed());
    let fatal = Error::fatal("broken");
    assert_eq!(fatal.kind, ErrorKind::Fatal);
    assert_eq!(fatal.reason, "broken");
    assert!(!fatal.is_closed());
}

#[test]
fn origins_compare_by_value() {
    assert!("a".same(&"a"));
    assert!(!"a".same(&"b"));
    assert!(!"ab".same(&"a"));
    assert!(3usize.same(&3));
    assert!(!3usize.same(&4));
    assert!(String::from("x").same(&String::from("x")));
    assert_eq!("s".duplicate(), "s");
}

#[test]
fn messages_compare_variant_and_payload() {
    let a: Message<usize, &'static str> = Message::Data(1);
    assert!(a.same(&Message::Data(1)));
    assert!(!a.same(&Message::Data(2)));
    assert!(!a.same(&Message::Marker("x")));
    assert!(Message::<usize, &'static str>::Flush("f").same(&Message::Flush("f")));
    assert!(!Message::<usize, &'static str>::Flush("f").same(&Message::Marker("f")));
    assert!(a.is_data());
    assert!(!Message::<usize, &'static str>::Marker("m").is_data());
}

#[test]
fn visitors_remember_until_cleared() {
    let mut v = Visitors::<&'static str>::new();
    assert!(!v.contains(&"a"));
    v.insert("a");
    v.insert("b");
    assert!(v.contains(&"a"));
    assert!(v.contains(&"b"));
    assert!(!v.contains(&"c"));
    v.clear();
    assert!(!v.contains(&"a"));
}

#[test]
fn ids_are_handed_out_in_order() {
    let mut a = IdAllocator::new();
    assert_eq!(a.allocate().unwrap(), 0);
    assert_eq!(a.allocate().unwrap(), 1);
    let mut full = IdAllocator { next: u64::MAX };
    assert!(matches!(full.allocate().unwrap_err().kind, ErrorKind::Fatal));
    assert_eq!(full.next, u64::MAX);
}

#[test]
fn outputs_fan_out_and_close_together() {
    let mut left = Edge::<usize, &'static str>::new();
    let mut right = Edge::<usize, &'static str>::new();
    let mut outputs = Outputs::new();
    outputs.add(Box::new(left.sender()));
    outputs.add(Box::new(right.sender()));
    outputs.push(Message::Data(7)).unwrap();
    outputs.close().unwrap();
    assert_eq!(left.poll().unwrap(), Some(Message::Data(7)));
    assert_eq!(right.poll().unwrap(), Some(Message::Data(7)));
    assert!(matches!(left.poll().unwrap_err().kind, ErrorKind::Closed));
    assert!(matches!(right.poll().unwrap_err().kind, ErrorKind::Closed));
}

#[test]
fn edges_deliver_in_order_then_close() {
    let mut edge = Edge::<usize, usize>::new();
    let mut source = Source::of(&edge.sender()).unwrap();
    assert_eq!(edge.poll().unwrap(), None);
    source.push(Message::Data(1)).unwrap();
    source.push(Message::Marker(9)).unwrap();
    source.close().unwrap();
    assert_eq!(edge.poll().unwrap(), Some(Message::Data(1)));
    assert_eq!(edge.poll().unwrap(), Some(Message::Marker(9)));
    assert!(matches!(edge.poll().unwrap_err().kind, ErrorKind::Closed));
    assert!(edge.is_closed());
    // Closed stays closed.
    assert!(matches!(edge.poll().unwrap_err().kind, ErrorKind::Closed));
}

#[test]
fn closing_the_reading_end_closes_the_edge() {
    let mut edge = Edge::<usize, usize>::new();
    let mut sender = edge.sender();
    sender.push(Message::Data(1)).unwrap();
    edge.close().unwrap();
    assert!(matches!(edge.poll().unwrap_err().kind, ErrorKind::Closed));
}

#[test]
fn work_outcomes_follow_the_state() {
    // Ready outside a flush is a broken routine contract.
    let r = work_outcome(&NodeState::<usize>::Running, Ok(Readiness::Ready));
    assert!(matches!(r, WorkOutcome::Fail(e) if e.kind == ErrorKind::Fatal));
    // Ready during a flush finishes it.
    let r = work_outcome(&NodeState::<usize>::Flushing(1), Ok(Readiness::Ready));
    assert!(matches!(r, WorkOutcome::FlushDone));
    // Pending keeps waiting.
    let r = work_outcome(&NodeState::<usize>::Flushing(1), Ok(Readiness::Pending));
    assert!(matches!(r, WorkOutcome::Pending));
    // A marker is polled once and then forwarded.
    let r = work_outcome(&NodeState::<usize>::MarkerReady(1), Ok(Readiness::Pending));
    assert!(matches!(r, WorkOutcome::MarkerPolled));
    // A routine never reports Closed; doing so is fatal.
    let r = work_outcome(&NodeState::<usize>::Running, Err(Error::closed()));
    assert!(matches!(r, WorkOutcome::Fail(e) if e.kind == ErrorKind::Fatal));
}
