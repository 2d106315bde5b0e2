//! Fanning one pulled stream out to several consumers on their own
//! threads: data goes round-robin, signals go to every consumer.
use crate::edge::channel_recv;
use crate::error::{Error, ErrorKind};
use crate::graph::{Pullable, ROUND_LIMIT};
use crate::message::{added, extends, Message};
use std::sync::atomic::AtomicBool;
use std::sync::Arc;
use vstd::prelude::*;

verus! {

/// The largest buffer asked of a bounded channel. `crossbeam::channel::bounded`
/// panics once twice the power of two above a capacity no longer fits the
/// channel's index type, which is at least as wide as `usize`; a quarter of
/// the `usize` range is below that limit.
pub const MAX_BUFFER_SIZE: usize = usize::MAX / 4;

/// What a send with a timeout came back with.
pub enum SendOutcome<T> {
    Sent,
    TimedOut(T),
    Disconnected(T),
}

/// A new bounded channel with `crossbeam::channel::bounded`. The two
/// handles share the channel, which Verus cannot see; nothing more is stated.
#[verifier::external_body]
fn channel_bounded<T>(cap: usize) -> (crossbeam::channel::Sender<T>, crossbeam::channel::Receiver<T>)
    requires
        cap <= MAX_BUFFER_SIZE,
{
    crossbeam::channel::bounded(cap)
}

/// Sends with `crossbeam::channel::Sender::send_timeout`, waiting at most
/// `millis` milliseconds. Whether it was sent depends on the other handles
/// of the channel; when it was not, the message comes back unchanged.
#[verifier::external_body]
fn channel_send_timeout<T>(sender: &crossbeam::channel::Sender<T>, value: T, millis: u64) -> (r: SendOutcome<T>)
    ensures
        r matches SendOutcome::TimedOut(v) ==> v == value,
        r matches SendOutcome::Disconnected(v) ==> v == value,
{
    match sender.send_timeout(value, std::time::Duration::from_millis(millis)) {
        Ok(()) => SendOutcome::Sent,
        Err(crossbeam::channel::SendTimeoutError::Timeout(v)) => SendOutcome::TimedOut(v),
        Err(crossbeam::channel::SendTimeoutError::Disconnected(v)) => SendOutcome::Disconnected(v),
    }
}

/// How many of `s` carry data.
pub open spec fn data_count<D, S>(s: Seq<Message<D, S>>) -> nat
    decreases s.len(),
{
    if s.len() == 0 {
        0
    } else {
        data_count(s.drop_last()) + if s.last() is Data { 1nat } else { 0nat }
    }
}

/// Whether any of `s` carries data.
pub open spec fn has_data<D, S>(s: Seq<Message<D, S>>) -> bool {
    exists|i: int| 0 <= i < s.len() && (#[trigger] s[i]) is Data
}

/// Where a message goes.
#[derive(Debug, Clone, Copy, PartialEq, Eq, Structural)]
pub enum Route {
    /// To the consumer with this index.
    One(usize),
    /// To every consumer.
    All,
    /// Nowhere: data arrived but there is no consumer.
    Nowhere,
}

/// Decides where each message of a stream goes among `count` consumers.
pub struct Dispatcher<D, S> {
    pub current: usize,
    pub count: usize,
    /// Every message routed so far, oldest first.
    pub routed: Ghost<Seq<Message<D, S>>>,
}

impl<D, S> Dispatcher<D, S> {
    /// The next consumer is the one the number of data messages routed so
    /// far points at, taken round the consumers.
    pub open spec fn wf(&self) -> bool {
        self.count > 0 ==> self.current < self.count && self.current == data_count(self.routed@) % (self.count as nat)
    }

    /// A dispatcher over `count` consumers that has routed nothing.
    pub fn new(count: usize) -> (d: Self)
        ensures
            d.wf(),
            d.count == count,
            d.current == 0,
            d.routed@.len() == 0,
    {
        let d = Dispatcher { current: 0, count, routed: Ghost(Seq::empty()) };
        assert(data_count(d.routed@) == 0);
        d
    }

    /// Route `message`: data goes to one consumer, round-robin over the
    /// consumers in the order data arrives; a signal goes to all.
    pub fn dispatch(&mut self, message: &Message<D, S>) -> (r: Route)
        requires
            old(self).wf(),
        ensures
            final(self).wf(),
            final(self).count == old(self).count,
            final(self).routed@ == old(self).routed@.push(*message),
            message is Data && old(self).count > 0 ==> r == Route::One(
                (data_count(old(self).routed@) % (old(self).count as nat)) as usize,
            ),
            message is Data && old(self).count == 0 ==> r == Route::Nowhere,
            !(message is Data) ==> r == Route::All,
    {
        let ghost before = self.routed@;
        self.routed = Ghost(self.routed@.push(*message));
        assert(self.routed@.drop_last() =~= before);
        if message.is_data() {
            if self.count == 0 {
                return Route::Nowhere;
            }
            let chosen = self.current;
            self.current = if self.current + 1 == self.count { 0 } else { self.current + 1 };
            proof {
                let n: int = data_count(before) as int;
                let c: int = self.count as int;
                assert(data_count(self.routed@) == n + 1);
                assert(chosen == n % c);
                assert((n + 1) % c == if n % c + 1 == c { 0 } else { n % c + 1 }) by (nonlinear_arith)
                    requires
                        c > 0,
                        n >= 0,
                ;
            }
            Route::One(chosen)
        } else {
            assert(data_count(self.routed@) == data_count(before));
            Route::All
        }
    }
}

/// The sending end of one consumer's channel, with the positions, in the
/// producer's stream, of the messages handed to it.
#[verifier::reject_recursive_types(D)]
#[verifier::reject_recursive_types(S)]
pub struct ConsumerSender<D, S> {
    pub tx: crossbeam::channel::Sender<Message<D, S>>,
    /// Positions of the messages the channel took, oldest first.
    pub delivered: Ghost<Seq<int>>,
}

/// The positions in `s` of the messages that go to consumer `i` of `n`:
/// every signal, and the data whose count among the data before it is `i`
/// taken round the consumers.
pub open spec fn routed_to<D, S>(s: Seq<Message<D, S>>, n: nat, i: nat) -> Seq<int>
    decreases s.len(),
{
    if s.len() == 0 {
        Seq::empty()
    } else {
        let prev = routed_to(s.drop_last(), n, i);
        if !(s.last() is Data) || data_count(s.drop_last()) % n == i {
            prev.push(s.len() - 1)
        } else {
            prev
        }
    }
}

/// One more message extends only the routes it takes.
proof fn lemma_routed_to_push<D, S>(s: Seq<Message<D, S>>, m: Message<D, S>, n: nat, i: nat)
    ensures
        routed_to(s.push(m), n, i) == if !(m is Data) || data_count(s) % n == i {
            routed_to(s, n, i).push(s.len() as int)
        } else {
            routed_to(s, n, i)
        },
{
    assert(s.push(m).drop_last() =~= s);
}

/// Whether the flag that keeps a distribution going is still set.
fn still_running(running: &Arc<AtomicBool>) -> bool {
    running.load(std::sync::atomic::Ordering::Relaxed)
}

/// Send `message` on `sender`, retrying after each timeout while `running`
/// is set; `true` once it was sent, and then its position is recorded.
fn send_with_timeout_check<D, S>(
    sender: &mut ConsumerSender<D, S>,
    message: Message<D, S>,
    position: Ghost<int>,
    running: &Arc<AtomicBool>,
) -> (r: bool)
    ensures
        r ==> final(sender).delivered@ == old(sender).delivered@.push(position@),
        !r ==> final(sender).delivered@ == old(sender).delivered@,
{
    let mut message = message;
    let mut rounds: u64 = 0;
    while rounds < ROUND_LIMIT
        invariant
            sender.delivered == old(sender).delivered,
        decreases ROUND_LIMIT - rounds,
    {
        rounds = rounds + 1;
        if !still_running(running) {
            return false;
        }
        match channel_send_timeout(&sender.tx, message, 100) {
            SendOutcome::Sent => {
                sender.delivered = Ghost(sender.delivered@.push(position@));
                return true;
            },
            SendOutcome::TimedOut(m) => {
                message = m;
            },
            SendOutcome::Disconnected(_) => return false,
        }
    }
    false
}

/// What each consumer's channel took during a run over the pulled stream
/// `pulled`: a prefix of what the routing gives it, and everything the
/// routing gives it of the messages before the last one.
pub open spec fn delivered_as_routed<D, S>(
    before: Seq<ConsumerSender<D, S>>,
    after: Seq<ConsumerSender<D, S>>,
    pulled: Seq<Message<D, S>>,
) -> bool {
    &&& after.len() == before.len()
    &&& forall|i: int|
        #![trigger after[i]]
        0 <= i < after.len() ==> {
            let log = added(after[i].delivered@, before[i].delivered@);
            &&& extends(after[i].delivered@, before[i].delivered@)
            &&& log.is_prefix_of(routed_to(pulled, after.len(), i as nat))
            &&& pulled.len() > 0 ==> routed_to(pulled.drop_last(), after.len(), i as nat).is_prefix_of(log)
        }
}

/// Channels that took everything routed to them took it as routed.
proof fn lemma_fully_delivered<D, S>(
    before: Seq<ConsumerSender<D, S>>,
    after: Seq<ConsumerSender<D, S>>,
    pulled: Seq<Message<D, S>>,
)
    requires
        after.len() == before.len(),
        forall|i: int| 0 <= i < after.len() ==> (#[trigger] after[i]).delivered@ == before[i].delivered@
            + routed_to(pulled, after.len(), i as nat),
    ensures
        delivered_as_routed(before, after, pulled),
{
    lemma_partly_delivered(before, after, pulled);
}

/// Channels that took either everything routed to them or all but the last
/// message took what they took as routed.
proof fn lemma_partly_delivered<D, S>(
    before: Seq<ConsumerSender<D, S>>,
    after: Seq<ConsumerSender<D, S>>,
    pulled: Seq<Message<D, S>>,
)
    requires
        after.len() == before.len(),
        forall|i: int| 0 <= i < after.len() ==> {
            ||| (#[trigger] after[i]).delivered@ == before[i].delivered@ + routed_to(pulled, after.len(), i as nat)
            ||| pulled.len() > 0 && after[i].delivered@ == before[i].delivered@
                + routed_to(pulled.drop_last(), after.len(), i as nat)
        },
    ensures
        delivered_as_routed(before, after, pulled),
{
    assert forall|i: int| #![trigger after[i]] 0 <= i < after.len() implies {
        let log = added(after[i].delivered@, before[i].delivered@);
        &&& extends(after[i].delivered@, before[i].delivered@)
        &&& log.is_prefix_of(routed_to(pulled, after.len(), i as nat))
        &&& pulled.len() > 0 ==> routed_to(pulled.drop_last(), after.len(), i as nat).is_prefix_of(log)
    } by {
        let whole = routed_to(pulled, after.len(), i as nat);
        let log = added(after[i].delivered@, before[i].delivered@);
        let b = before[i].delivered@;
        if after[i].delivered@ == b + whole {
            assert(log =~= whole);
        } else {
            let part = routed_to(pulled.drop_last(), after.len(), i as nat);
            assert(log =~= part);
        }
        if pulled.len() > 0 {
            let part = routed_to(pulled.drop_last(), after.len(), i as nat);
            assert(part.is_prefix_of(whole));
        }
    }
}

/// Pull `producer` while `running` is set and hand each message to the
/// consumers as a [`Dispatcher`] routes it: the `k`-th data message to
/// consumer `k` taken round the consumers, each signal to all of them. Stops
/// when a consumer can no longer take a message; an error from the producer
/// is returned, and so is data that finds no consumer.
pub fn run_producer<P: Pullable>(
    producer: &mut P,
    senders: &mut Vec<ConsumerSender<P::DataType, P::SignalType>>,
    running: Arc<AtomicBool>,
) -> (r: Result<(), Error>)
    where P::DataType: Clone, P::SignalType: Clone,
    ensures
        exists|pulled: Seq<Message<P::DataType, P::SignalType>>| #[trigger] delivered_as_routed(old(senders)@, final(senders)@, pulled)
            && (old(senders)@.len() == 0 && r is Ok ==> !has_data(pulled))
            && (old(producer).keeps_record() ==> final(producer).keeps_record()
                && extends(final(producer).yielded(), old(producer).yielded())
                && pulled == added(final(producer).yielded(), old(producer).yielded())),
{
    let n = senders.len();
    let mut dispatcher: Dispatcher<P::DataType, P::SignalType> = Dispatcher::new(n);
    assert(added(producer.yielded(), old(producer).yielded()) =~= Seq::<Message<P::DataType, P::SignalType>>::empty());
    assert(dispatcher.routed@ =~= Seq::<Message<P::DataType, P::SignalType>>::empty());
    proof {
        assert forall|i: int| 0 <= i < n implies senders@[i].delivered@ =~= old(senders)@[i].delivered@
            + routed_to(dispatcher.routed@, n as nat, i as nat) by {}
    }
    let mut rounds: u64 = 0;
    while rounds < ROUND_LIMIT
        invariant
            dispatcher.wf(),
            dispatcher.count == n,
            n == senders@.len(),
            n == old(senders)@.len(),
            old(producer).keeps_record() ==> producer.keeps_record() && extends(producer.yielded(), old(producer).yielded())
                && dispatcher.routed@ == added(producer.yielded(), old(producer).yielded()),
            n == 0 ==> !has_data(dispatcher.routed@),
            forall|i: int| 0 <= i < n ==> (#[trigger] senders@[i]).delivered@ == old(senders)@[i].delivered@
                + routed_to(dispatcher.routed@, n as nat, i as nat),
        decreases ROUND_LIMIT - rounds,
    {
        rounds = rounds + 1;
        if !still_running(&running) {
            proof { lemma_fully_delivered(old(senders)@, senders@, dispatcher.routed@); }
            return Ok(());
        }
        let ghost before = producer.yielded();
        let ghost prev = dispatcher.routed@;
        let message = producer.pull();
        if message.is_err() {
            proof { lemma_fully_delivered(old(senders)@, senders@, dispatcher.routed@); }
        }
        let message = message?;
        proof {
            if old(producer).keeps_record() {
                assert(added(producer.yielded(), old(producer).yielded()) =~= added(before, old(producer).yielded()).push(message));
            }
        }
        let ghost position = prev.len() as int;
        let route = dispatcher.dispatch(&message);
        proof {
            assert forall|i: int| 0 <= i < n implies #[trigger] routed_to(dispatcher.routed@, n as nat, i as nat) == (if !(message is Data)
                || data_count(prev) % (n as nat) == i { routed_to(prev, n as nat, i as nat).push(position) } else {
                routed_to(prev, n as nat, i as nat) }) by {
                lemma_routed_to_push(prev, message, n as nat, i as nat);
            }
        }
        let delivered = match route {
            Route::One(c) => send_with_timeout_check(&mut senders[c], message, Ghost(position), &running),
            Route::All => {
                let mut all = true;
                let mut k: usize = 0;
                while k < n
                    invariant_except_break
                        all,
                        forall|i: int| 0 <= i < k ==> (#[trigger] senders@[i]).delivered@ == old(senders)@[i].delivered@
                            + routed_to(prev, n as nat, i as nat).push(position),
                        forall|i: int| k <= i < n ==> (#[trigger] senders@[i]).delivered@ == old(senders)@[i].delivered@
                            + routed_to(prev, n as nat, i as nat),
                    invariant
                        k <= n,
                        n == senders@.len(),
                        n == old(senders)@.len(),
                    ensures
                        n == senders@.len(),
                        all ==> forall|i: int| 0 <= i < n ==> (#[trigger] senders@[i]).delivered@
                            == old(senders)@[i].delivered@ + routed_to(prev, n as nat, i as nat).push(position),
                        forall|i: int| 0 <= i < n ==> {
                            ||| (#[trigger] senders@[i]).delivered@ == old(senders)@[i].delivered@
                                + routed_to(prev, n as nat, i as nat).push(position)
                            ||| senders@[i].delivered@ == old(senders)@[i].delivered@ + routed_to(prev, n as nat, i as nat)
                        },
                    decreases n - k,
                {
                    let sent = send_with_timeout_check(&mut senders[k], message.clone(), Ghost(position), &running);
                    if !sent {
                        all = false;
                        break;
                    }
                    k = k + 1;
                }
                all
            },
            Route::Nowhere => {
                proof { lemma_fully_delivered(old(senders)@, senders@, dispatcher.routed@); }
                return Err(Error::fatal("no consumer to take data"));
            },
        };
        assert(n == 0 ==> !(message is Data));
        proof {
            assert(dispatcher.routed@.drop_last() =~= prev);
        }
        if !delivered {
            proof { lemma_partly_delivered(old(senders)@, senders@, dispatcher.routed@); }
            return Ok(());
        }
    }
    proof { lemma_fully_delivered(old(senders)@, senders@, dispatcher.routed@); }
    Ok(())
}

/// The channels of a distribution over `consumer_count` consumers, each
/// holding at most `buffer_size_per_consumer` messages: the sending ends
/// for the producer's thread and the receiving ends for the consumers.
pub fn open_channels<D, S>(consumer_count: usize, buffer_size_per_consumer: usize) -> (r: (
    Vec<ConsumerSender<D, S>>,
    Vec<crossbeam::channel::Receiver<Message<D, S>>>,
))
    requires
        buffer_size_per_consumer <= MAX_BUFFER_SIZE,
    ensures
        r.0@.len() == consumer_count,
        r.1@.len() == consumer_count,
        forall|i: int| 0 <= i < consumer_count ==> (#[trigger] r.0@[i]).delivered@.len() == 0,
{
    let mut senders: Vec<ConsumerSender<D, S>> = Vec::new();
    let mut receivers: Vec<crossbeam::channel::Receiver<Message<D, S>>> = Vec::new();
    let mut i: usize = 0;
    while i < consumer_count
        invariant
            i <= consumer_count,
            senders@.len() == i,
            receivers@.len() == i,
            forall|j: int| 0 <= j < i ==> (#[trigger] senders@[j]).delivered@.len() == 0,
            buffer_size_per_consumer <= MAX_BUFFER_SIZE,
        decreases consumer_count - i,
    {
        let (tx, rx) = channel_bounded(buffer_size_per_consumer);
        senders.push(ConsumerSender { tx, delivered: Ghost(Seq::empty()) });
        receivers.push(rx);
        i = i + 1;
    }
    (senders, receivers)
}

/// One consumer per receiving end, in order, none of which has pulled yet.
pub fn consumers_of<D, S>(receivers: Vec<crossbeam::channel::Receiver<Message<D, S>>>) -> (r: Vec<DistributedConsumer<D, S>>)
    ensures
        r@.len() == receivers@.len(),
        forall|i: int| 0 <= i < r@.len() ==> (#[trigger] r@[i]).yielded@.len() == 0,
{
    let mut receivers = receivers;
    let ghost n = receivers@.len();
    let mut consumers: Vec<DistributedConsumer<D, S>> = Vec::new();
    while receivers.len() > 0
        invariant
            consumers@.len() + receivers@.len() == n,
            forall|i: int| 0 <= i < consumers@.len() ==> (#[trigger] consumers@[i]).yielded@.len() == 0,
        decreases receivers@.len(),
    {
        let receiver = receivers.remove(0);
        consumers.push(DistributedConsumer { receiver, yielded: Ghost(Seq::empty()) });
    }
    consumers
}

/// One consumer of a distribution: pulling it waits for the next message
/// the producer's thread hands to it.
#[verifier::reject_recursive_types(D)]
#[verifier::reject_recursive_types(S)]
pub struct DistributedConsumer<D, S> {
    pub receiver: crossbeam::channel::Receiver<Message<D, S>>,
    /// Every message pulled so far, oldest first.
    pub yielded: Ghost<Seq<Message<D, S>>>,
}

impl<D, S> Pullable for DistributedConsumer<D, S> {
    type DataType = D;
    type SignalType = S;

    open spec fn keeps_record(&self) -> bool {
        true
    }

    open spec fn yielded(&self) -> Seq<Message<D, S>> {
        self.yielded@
    }

    /// The next message; a fatal error once the producer's thread has ended
    /// and nothing is left.
    fn pull(&mut self) -> (r: Result<Message<D, S>, Error>)
        ensures
            r matches Err(e) ==> e.kind == ErrorKind::Fatal,
    {
        match channel_recv(&self.receiver) {
            Some(message) => {
                self.yielded = Ghost(self.yielded@.push(message));
                Ok(message)
            },
            None => Err(Error::fatal("Producer disconnected")),
        }
    }
}

/// Settings for a distribution: how many consumers, and how many messages
/// each consumer's channel holds.
pub struct DistributorBuilder {
    pub consumer_count: usize,
    pub buffer_size_per_consumer: usize,
}

impl Default for DistributorBuilder {
    fn default() -> (b: Self)
        ensures
            b.consumer_count == 1,
            b.buffer_size_per_consumer == 100,
    {
        DistributorBuilder { consumer_count: 1, buffer_size_per_consumer: 100 }
    }
}

impl DistributorBuilder {
    /// One consumer with room for a hundred messages.
    pub fn new() -> (b: Self)
        ensures
            b.consumer_count == 1,
            b.buffer_size_per_consumer == 100,
    {
        DistributorBuilder { consumer_count: 1, buffer_size_per_consumer: 100 }
    }

    /// The same settings with `count` consumers.
    pub fn consumer_count(self, count: usize) -> (b: Self)
        ensures
            b.consumer_count == count,
            b.buffer_size_per_consumer == self.buffer_size_per_consumer,
    {
        DistributorBuilder { consumer_count: count, buffer_size_per_consumer: self.buffer_size_per_consumer }
    }

    /// The same settings with room for `size` messages per consumer.
    pub fn buffer_size(self, size: usize) -> (b: Self)
        ensures
            b.consumer_count == self.consumer_count,
            b.buffer_size_per_consumer == size,
    {
        DistributorBuilder { consumer_count: self.consumer_count, buffer_size_per_consumer: size }
    }
}

} // verus!
