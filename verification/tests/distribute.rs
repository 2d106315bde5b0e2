use areamy::node::line::pull::distribute::{consumers_of, open_channels, run_producer, Dispatcher, DistributorBuilder, Route};
use areamy::{Error, Message, Pullable};
use std::sync::atomic::AtomicBool;
use std::sync::Arc;

/// Produces 0, 1, 2, ... up to `max_count` messages, then fails.
struct TestProducer {
    counter: usize,
    max_count: usize,
}

impl TestProducer {
    fn new(max_count: usize) -> Self {
        TestProducer { counter: 0, max_count }
    }
}

impl Pullable for TestProducer {
    type DataType = usize;
    type SignalType = usize;

    fn pull(&mut self) -> Result<Message<usize, usize>, Error> {
        let current = self.counter;
        self.counter += 1;
        if current < self.max_count {
            Ok(Message::Data(current))
        } else {
            Err(Error::fatal("Producer exhausted"))
        }
    }
}

struct SignalProducer {
    counter: usize,
}

impl Pullable for SignalProducer {
    type DataType = usize;
    type SignalType = usize;

    fn pull(&mut self) -> Result<Message<usize, usize>, Error> {
        let current = self.counter;
        self.counter += 1;
        match current {
            0 => Ok(Message::Data(1)),
            1 => Ok(Message::Flush(100)),
            2 => Ok(Message::Data(2)),
            3 => Ok(Message::Marker(200)),
            _ => Err(Error::fatal("Producer exhausted")),
        }
    }
}

/// Run `producer` to its end on this thread and collect what each consumer got.
fn distribute_all<P: Pullable<DataType = usize, SignalType = usize>>(
    mut producer: P,
    consumers: usize,
) -> (Result<(), Error>, Vec<Vec<Message<usize, usize>>>) {
    let (mut senders, receivers) = open_channels(consumers, 100);
    let running = Arc::new(AtomicBool::new(true));
    let result = run_producer(&mut producer, &mut senders, running);
    drop(senders);
    let mut consumers = consumers_of(receivers);
    let mut got = Vec::new();
    for consumer in consumers.iter_mut() {
        let mut messages = Vec::new();
        while let Ok(message) = consumer.pull() {
            messages.push(message);
        }
        got.push(messages);
    }
    (result, got)
}

#[test]
fn test_basic_distribution() {
    let (result, got) = distribute_all(TestProducer::new(10), 3);
    assert!(result.is_err());
    let mut received_values: Vec<usize> = got
        .into_iter()
        .flatten()
        .filter_map(|m| match m {
            Message::Data(v) => Some(v),
            _ => None,
        })
        .collect();
    assert_eq!(received_values.len(), 10);
    received_values.sort();
    assert_eq!(received_values, (0..10).collect::<Vec<_>>());
}

#[test]
fn test_round_robin_distribution() {
    let (_, got) = distribute_all(TestProducer::new(6), 3);
    for (i, values) in got.iter().enumerate() {
        assert_eq!(values.len(), 2, "Consumer {} should receive exactly 2 messages", i);
        assert_eq!(values[0], Message::Data(i));
        assert_eq!(values[1], Message::Data(i + 3));
    }
}

#[test]
fn test_empty_consumer() {
    let (mut senders, receivers) = open_channels::<usize, usize>(2, 100);
    let running = Arc::new(AtomicBool::new(true));
    let _ = run_producer(&mut TestProducer::new(0), &mut senders, running);
    drop(senders);
    for consumer in consumers_of(receivers).iter_mut() {
        match consumer.pull() {
            Err(ref e) if e.reason.contains("Producer disconnected") => {}
            other => panic!("Expected error, got: {:?}", other),
        }
    }
}

#[test]
fn test_builder_pattern() {
    let builder = DistributorBuilder::new().consumer_count(3).buffer_size(50);
    assert_eq!(builder.consumer_count, 3);
    assert_eq!(builder.buffer_size_per_consumer, 50);
    let (mut senders, receivers) = open_channels::<usize, usize>(builder.consumer_count, builder.buffer_size_per_consumer);
    assert_eq!(senders.len(), 3);
    let running = Arc::new(AtomicBool::new(true));
    let _ = run_producer(&mut TestProducer::new(5), &mut senders, running);
    drop(senders);
    let mut consumers = consumers_of(receivers);
    assert_eq!(consumers.len(), 3);
    let mut total_received = 0;
    for consumer in consumers.iter_mut() {
        while let Ok(Message::Data(_)) = consumer.pull() {
            total_received += 1;
        }
    }
    assert_eq!(total_received, 5);
}

#[test]
fn test_signal_broadcasting() {
    let (_, got) = distribute_all(SignalProducer { counter: 0 }, 3);

    assert_eq!(got[0].len(), 3);
    assert!(got[0].contains(&Message::Data(1)));
    assert!(got[0].contains(&Message::Flush(100)));
    assert!(got[0].contains(&Message::Marker(200)));

    assert_eq!(got[1].len(), 3);
    assert!(got[1].contains(&Message::Data(2)));
    assert!(got[1].contains(&Message::Flush(100)));
    assert!(got[1].contains(&Message::Marker(200)));

    assert_eq!(got[2].len(), 2);
    assert!(got[2].contains(&Message::Flush(100)));
    assert!(got[2].contains(&Message::Marker(200)));
}

#[test]
fn builder_defaults() {
    let builder = DistributorBuilder::new();
    assert_eq!(builder.consumer_count, 1);
    assert_eq!(builder.buffer_size_per_consumer, 100);
    let builder: DistributorBuilder = Default::default();
    assert_eq!(builder.consumer_count, 1);
    assert_eq!(builder.buffer_size_per_consumer, 100);
}

#[test]
fn dispatcher_routes_data_round_robin_and_signals_to_all() {
    let mut d = Dispatcher::<usize, usize>::new(3);
    assert_eq!(d.dispatch(&Message::Data(0)), Route::One(0));
    assert_eq!(d.dispatch(&Message::Flush(9)), Route::All);
    assert_eq!(d.dispatch(&Message::Data(1)), Route::One(1));
    assert_eq!(d.dispatch(&Message::Data(2)), Route::One(2));
    assert_eq!(d.dispatch(&Message::Marker(9)), Route::All);
    assert_eq!(d.dispatch(&Message::Data(3)), Route::One(0));

    let mut none = Dispatcher::<usize, usize>::new(0);
    assert_eq!(none.dispatch(&Message::Data(0)), Route::Nowhere);
    assert_eq!(none.dispatch(&Message::Flush(0)), Route::All);
}

#[test]
fn no_consumer_for_data_is_an_error() {
    let (result, got) = distribute_all(TestProducer::new(3), 0);
    assert!(got.is_empty());
    assert_eq!(result.unwrap_err().reason, "no consumer to take data");
}
