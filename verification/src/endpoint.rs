//! The ends of a graph: [`Source`] pushes messages in, [`Sink`] and
//! [`TeeSink`] read them out.
use crate::edge::{Edge, EdgeSender};
use crate::error::{Error, ErrorKind};
use crate::graph::{Closeable, InputSide, OutputSide, Pushable, Reader, Workable};
use crate::marker::Multiplicity;
use crate::message::Message;
use vstd::prelude::*;

verus! {

/// Pushes messages into the input edge of a node.
#[verifier::reject_recursive_types(D)]
#[verifier::reject_recursive_types(S)]
pub struct Source<D, S> {
    pub sender: EdgeSender<D, S>,
}

impl<D, S> Source<D, S> {
    /// A source feeding input `K` of `node`.
    pub fn new<K: Multiplicity, N: InputSide<D, S, K>>(node: &N) -> (r: Result<Self, Error>)
        ensures
            r matches Ok(s) && !s.sender.is_closed() && s.sender.sent().len() == 0,
    {
        Ok(Source { sender: node.input_sender() })
    }

    /// A source feeding an edge through one of its senders.
    pub fn of(sender: &EdgeSender<D, S>) -> (r: Result<Self, Error>)
        ensures
            r matches Ok(s) && !s.sender.is_closed() && s.sender.sent().len() == 0,
    {
        Ok(Source { sender: sender.handle() })
    }

    /// Push a message into the edge.
    pub fn push(&mut self, message: Message<D, S>) -> (r: Result<(), Error>)
        ensures
            r is Ok ==> final(self).sender.sent() == old(self).sender.sent().push(message),
            r is Err ==> final(self).sender.sent() == old(self).sender.sent(),
            final(self).sender.is_closed() == old(self).sender.is_closed(),
    {
        self.sender.push(message)
    }

    /// Close the edge: once the node has read everything pushed before, it
    /// sees its input closed.
    pub fn close(&mut self) -> (r: Result<(), Error>)
        ensures
            final(self).sender.is_closed(),
            final(self).sender.sent() == old(self).sender.sent(),
    {
        self.sender.close()
    }
}

/// Owns the last node of a graph and reads its output, working the node
/// whenever no output is waiting.
#[verifier::reject_recursive_types(D)]
#[verifier::reject_recursive_types(S)]
pub struct Sink<D, S> {
    pub edge: Edge<D, S>,
    pub node: Box<dyn Workable>,
}

impl<D: 'static, S: 'static> Sink<D, S> {
    /// A sink reading the output of `node`, which it takes over.
    pub fn new<N: Workable + OutputSide<D, S> + 'static>(node: Box<N>) -> (r: Result<Self, Error>)
        ensures
            r matches Ok(s) ==> !s.edge.closed() && s.edge.received().len() == 0,
            node.takes_every_output() ==> r is Ok,
    {
        let edge = Edge::new();
        let mut node = node;
        node.add_output(Box::new(edge.sender()))?;
        Ok(Sink { edge, node })
    }

    /// The next message: one already waiting, or else the first the node
    /// emits when worked once.
    pub fn read(&mut self) -> (r: Result<Message<D, S>, Error>)
        ensures
            r matches Ok(m) ==> final(self).edge.received() == old(self).edge.received().push(m),
            r is Err ==> final(self).edge.received() == old(self).edge.received(),
    {
        if let Some(message) = self.edge.poll()? {
            return Ok(message);
        }
        self.node.work()?;
        match self.edge.poll()? {
            Some(message) => Ok(message),
            None => Err(Error::fatal("work did not yield a new message")),
        }
    }
}

/// Reads one output edge of a node it does not own; whoever owns the node
/// works it.
#[verifier::reject_recursive_types(D)]
#[verifier::reject_recursive_types(S)]
pub struct TeeSink<D, S> {
    pub edge: Edge<D, S>,
}

impl<D: 'static, S: 'static> TeeSink<D, S> {
    /// A sink on a new output edge of `node` (output `K` where it has several).
    pub fn new<K: Multiplicity, N: OutputSide<D, S, K>>(node: &mut N) -> (r: Result<Self, Error>)
        ensures
            r matches Ok(s) ==> !s.edge.closed() && s.edge.received().len() == 0,
            r is Ok ==> final(node).output_count() == old(node).output_count() + 1,
            r is Err ==> final(node).output_count() == old(node).output_count(),
            old(node).takes_every_output() ==> r is Ok,
    {
        let edge = Edge::new();
        node.add_output(Box::new(edge.sender()))?;
        Ok(TeeSink { edge })
    }

    /// The next waiting message; a fatal error when there is none.
    pub fn read(&mut self) -> (r: Result<Message<D, S>, Error>)
        ensures
            r matches Ok(m) ==> final(self).edge.received() == old(self).edge.received().push(m),
            r is Err ==> final(self).edge.received() == old(self).edge.received(),
            r matches Err(e) && !old(self).edge.closed() && e.kind == ErrorKind::Fatal ==> !final(self).edge.closed(),
    {
        match self.edge.poll()? {
            Some(message) => Ok(message),
            None => Err(Error::fatal("no message waiting")),
        }
    }
}

impl<D, S> Pushable<D, S> for Source<D, S> {
    closed spec fn sent(&self) -> Seq<Message<D, S>> {
        self.sender.sent()
    }

    closed spec fn is_closed(&self) -> bool {
        self.sender.is_closed()
    }

    fn push(&mut self, message: Message<D, S>) -> (r: Result<(), Error>) {
        Source::push(self, message)
    }
}

impl<D, S> Closeable<D, S> for Source<D, S> {
    fn close(&mut self) -> (r: Result<(), Error>) {
        Source::close(self)
    }
}

impl<D: 'static, S: 'static> Reader<D, S> for Sink<D, S> {
    closed spec fn read_log(&self) -> Seq<Message<D, S>> {
        self.edge.received()
    }

    fn poll(&mut self) -> (r: Result<Option<Message<D, S>>, Error>) {
        self.edge.poll()
    }

    fn read(&mut self) -> (r: Result<Message<D, S>, Error>) {
        Sink::read(self)
    }
}

impl<D: 'static, S: 'static> Reader<D, S> for TeeSink<D, S> {
    closed spec fn read_log(&self) -> Seq<Message<D, S>> {
        self.edge.received()
    }

    fn poll(&mut self) -> (r: Result<Option<Message<D, S>>, Error>) {
        self.edge.poll()
    }

    fn read(&mut self) -> (r: Result<Message<D, S>, Error>) {
        TeeSink::read(self)
    }
}

} // verus!
