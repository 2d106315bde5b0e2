//! Edges between nodes, built on unbounded `crossbeam` channels.
//!
//! An edge is owned by the node that reads from it ([`Edge`]).
//! Any number of [`EdgeSender`] handles push into it. Closing is signalled in
//! band: a closing sender enqueues a close packet, and the receiver reports
//! [`ErrorKind::Closed`] once it reaches that packet.
use crate::error::{Error, ErrorKind};
use crate::graph::{Closeable, Pushable};
use crate::message::Message;
use vstd::prelude::*;

verus! {

#[verifier::external_type_specification]
#[verifier::external_body]
#[verifier::reject_recursive_types(T)]
pub struct ExChannelSender<T>(crossbeam::channel::Sender<T>);

#[verifier::external_type_specification]
#[verifier::external_body]
#[verifier::reject_recursive_types(T)]
pub struct ExChannelReceiver<T>(crossbeam::channel::Receiver<T>);

/// Makes a new unbounded channel with `crossbeam::channel::unbounded`.
/// Nothing is stated of the two handles: they share the channel, which
/// Verus cannot see.
#[verifier::external_body]
fn channel_new<T>() -> (crossbeam::channel::Sender<T>, crossbeam::channel::Receiver<T>) {
    crossbeam::channel::unbounded()
}

/// Sends with `crossbeam::channel::Sender::send`; `true` when the channel
/// took the value. Whether it did depends on the other handles of the
/// channel, so nothing is stated of the result.
#[verifier::external_body]
fn channel_send<T>(sender: &crossbeam::channel::Sender<T>, value: T) -> bool {
    sender.send(value).is_ok()
}

/// Takes the next value with `crossbeam::channel::Receiver::try_recv`,
/// `None` when the channel is empty or disconnected. What comes back
/// depends on the other handles of the channel, so nothing is stated.
#[verifier::external_body]
fn channel_try_recv<T>(receiver: &crossbeam::channel::Receiver<T>) -> Option<T> {
    receiver.try_recv().ok()
}

/// Waits for the next value with `crossbeam::channel::Receiver::recv`;
/// `None` once the channel is empty and every sender is gone. What comes
/// back depends on the other handles of the channel, so nothing is stated.
#[verifier::external_body]
pub(crate) fn channel_recv<T>(receiver: &crossbeam::channel::Receiver<T>) -> Option<T> {
    receiver.recv().ok()
}

/// Another handle on the same channel, with `Sender`'s `Clone`.
#[verifier::external_body]
fn channel_sender_clone<T>(sender: &crossbeam::channel::Sender<T>) -> crossbeam::channel::Sender<T> {
    sender.clone()
}

/// What travels on a channel: a message, or the notice that the edge closed.
pub enum Packet<D, S> {
    Message(Message<D, S>),
    Close,
}

/// What a receiver does with what it took from its channel: a pure step.
///
/// - nothing: `Ok(None)`, the receiver stays open;
/// - a message: it is handed out, the receiver stays open;
/// - a close packet: the receiver is closed from now on and reports `Closed`.
pub fn receive_step<D, S>(packet: Option<Packet<D, S>>) -> (r: (bool, Result<Option<Message<D, S>>, Error>))
    ensures
        packet is None ==> r.0 == false && r.1 == Ok::<Option<Message<D, S>>, Error>(None),
        packet matches Some(Packet::Message(m)) ==> r.0 == false && r.1 == Ok::<Option<Message<D, S>>, Error>(Some(m)),
        packet matches Some(Packet::Close) ==> r.0 == true && (r.1 matches Err(e) && e.kind == ErrorKind::Closed),
{
    match packet {
        None => (false, Ok(None)),
        Some(Packet::Message(m)) => (false, Ok(Some(m))),
        Some(Packet::Close) => (true, Err(Error::closed())),
    }
}

/// The reading end of an edge.
#[verifier::reject_recursive_types(D)]
#[verifier::reject_recursive_types(S)]
pub struct Edge<D, S> {
    rx: crossbeam::channel::Receiver<Packet<D, S>>,
    tx: crossbeam::channel::Sender<Packet<D, S>>,
    closed: bool,
    received: Ghost<Seq<Message<D, S>>>,
    empty_polls: Ghost<nat>,
    channel: Ghost<int>,
}

impl<D, S> Edge<D, S> {
    /// The name of the channel under this edge: every sender made from the
    /// edge pushes into that channel and carries the same name.
    pub closed spec fn channel(&self) -> int {
        self.channel@
    }

    /// How many times [`Edge::poll`] found nothing waiting.
    pub closed spec fn empty_polls(&self) -> nat {
        self.empty_polls@
    }

    /// Once closed an edge stays closed and reports [`ErrorKind::Closed`].
    pub closed spec fn closed(&self) -> bool {
        self.closed
    }

    /// Every message this edge has handed out, oldest first.
    pub closed spec fn received(&self) -> Seq<Message<D, S>> {
        self.received@
    }

    /// A new, open edge with nothing received yet.
    pub fn new() -> (r: Self)
        ensures
            !r.closed(),
            r.received() == Seq::<Message<D, S>>::empty(),
            r.empty_polls() == 0,
    {
        let (tx, rx) = channel_new();
        Edge { rx, tx, closed: false, received: Ghost(Seq::empty()), empty_polls: Ghost(0), channel: Ghost(arbitrary()) }
    }

    /// A handle that pushes into this edge.
    pub fn sender(&self) -> (s: EdgeSender<D, S>)
        ensures
            !s.is_closed(),
            s.sent() == Seq::<Message<D, S>>::empty(),
            s.channel() == self.channel(),
    {
        EdgeSender { tx: channel_sender_clone(&self.tx), closed: false, sent: Ghost(Seq::empty()), channel: self.channel }
    }

    /// Take the next message if there is one.
    ///
    /// `Ok(None)` when nothing is waiting; `Err` with kind `Closed` once the
    /// edge has been closed, from either end.
    pub fn poll(&mut self) -> (r: Result<Option<Message<D, S>>, Error>)
        ensures
            old(self).closed() ==> final(self).closed() && (r matches Err(e) && e.kind == ErrorKind::Closed),
            r is Err ==> final(self).closed() && (r matches Err(e) && e.kind == ErrorKind::Closed),
            r is Ok ==> !final(self).closed(),
            r matches Ok(Some(m)) ==> final(self).received() == old(self).received().push(m),
            !(r matches Ok(Some(_))) ==> final(self).received() == old(self).received(),
            final(self).empty_polls() == old(self).empty_polls() + if r matches Ok(None) { 1nat } else { 0nat },
    {
        if self.closed {
            return Err(Error::closed());
        }
        let packet = channel_try_recv(&self.rx);
        let (closed, result) = receive_step(packet);
        self.closed = closed;
        if let Ok(Some(m)) = &result {
            self.received = Ghost(self.received@.push(*m));
        }
        if let Ok(None) = &result {
            self.empty_polls = Ghost(self.empty_polls@ + 1);
        }
        result
    }

    /// Wait until a message or the close arrives, then take it.
    ///
    /// Blocks while the edge is open and empty; `Err` with kind `Closed` once
    /// the edge has been closed, from either end.
    pub fn wait(&mut self) -> (r: Result<Message<D, S>, Error>)
        ensures
            old(self).closed() ==> final(self).closed() && (r matches Err(e) && e.kind == ErrorKind::Closed),
            r is Err ==> final(self).closed() && (r matches Err(e) && e.kind == ErrorKind::Closed),
            r is Ok ==> !final(self).closed(),
            r matches Ok(m) ==> final(self).received() == old(self).received().push(m),
            r is Err ==> final(self).received() == old(self).received(),
            final(self).empty_polls() == old(self).empty_polls(),
    {
        if self.closed {
            return Err(Error::closed());
        }
        match channel_recv(&self.rx) {
            Some(Packet::Message(m)) => {
                self.received = Ghost(self.received@.push(m));
                Ok(m)
            },
            Some(Packet::Close) | None => {
                self.closed = true;
                Err(Error::closed())
            },
        }
    }

    /// Close this edge from the reading end.
    pub fn close(&mut self) -> (r: Result<(), Error>)
        ensures
            final(self).closed(),
            final(self).received() == old(self).received(),
            final(self).empty_polls() == old(self).empty_polls(),
            r is Ok,
    {
        self.closed = true;
        Ok(())
    }

    /// Whether the edge is closed.
    pub fn is_closed(&self) -> (r: bool)
        ensures
            r == self.closed(),
    {
        self.closed
    }
}

/// A handle that pushes into an edge.
#[verifier::reject_recursive_types(D)]
#[verifier::reject_recursive_types(S)]
pub struct EdgeSender<D, S> {
    tx: crossbeam::channel::Sender<Packet<D, S>>,
    closed: bool,
    sent: Ghost<Seq<Message<D, S>>>,
    channel: Ghost<int>,
}

impl<D, S> EdgeSender<D, S> {
    /// The name of the channel this sender pushes into; see [`Edge::channel`].
    pub closed spec fn channel(&self) -> int {
        self.channel@
    }

    /// Another handle on the same edge.
    pub fn handle(&self) -> (s: EdgeSender<D, S>)
        ensures
            !s.is_closed(),
            s.sent() == Seq::<Message<D, S>>::empty(),
            s.channel() == self.channel(),
    {
        EdgeSender { tx: channel_sender_clone(&self.tx), closed: false, sent: Ghost(Seq::empty()), channel: self.channel }
    }
}

impl<D, S> Pushable<D, S> for EdgeSender<D, S> {
    closed spec fn sent(&self) -> Seq<Message<D, S>> {
        self.sent@
    }

    closed spec fn is_closed(&self) -> bool {
        self.closed
    }

    /// Refused with [`ErrorKind::Closed`] once the edge can no longer be read.
    fn push(&mut self, message: Message<D, S>) -> (r: Result<(), Error>)
        ensures
            r matches Err(e) ==> e.kind == ErrorKind::Closed,
    {
        let ghost m = message;
        if channel_send(&self.tx, Packet::Message(message)) {
            self.sent = Ghost(self.sent@.push(m));
            Ok(())
        } else {
            Err(Error::closed())
        }
    }
}

impl<D, S> Closeable<D, S> for EdgeSender<D, S> {
    fn close(&mut self) -> (r: Result<(), Error>) {
        self.closed = true;
        if channel_send(&self.tx, Packet::Close) {
            Ok(())
        } else {
            Err(Error::closed())
        }
    }
}

} // verus!
