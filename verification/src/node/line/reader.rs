//! [`LineReader`]: a source and a sink of a linear graph in one place.
use crate::error::Error;
use crate::graph::{Closeable, Pushable, Reader};
use crate::message::{added, data_of, extends, Message, is_flush_of, is_marker_of};
use crate::node::line::io::{ends_at_flush, ends_at_marker, signal_and_collect};
use crate::signal::Origin;
use vstd::prelude::*;

verus! {

/// Combines the source feeding a linear graph with the sink at its end.
pub struct LineReader<P, K> {
    pub source: P,
    pub sink: K,
}

impl<P, K> LineReader<P, K> {
    /// Combine `source` and `sink`.
    pub fn new(source: P, sink: K) -> (r: Self)
        ensures
            r.source == source,
            r.sink == sink,
    {
        LineReader { source, sink }
    }

    /// Read the next message from the sink.
    pub fn read<Out, S>(&mut self) -> (r: Result<Message<Out, S>, Error>)
        where K: Reader<Out, S>,
        ensures
            r matches Ok(m) ==> final(self).sink.read_log() == old(self).sink.read_log().push(m),
            r is Err ==> final(self).sink.read_log() == old(self).sink.read_log(),
            final(self).source == old(self).source,
    {
        self.sink.read()
    }

    /// Push a message into the source.
    pub fn push<In, S>(&mut self, object: Message<In, S>) -> (r: Result<(), Error>)
        where P: Pushable<In, S>,
        ensures
            r is Ok ==> final(self).source.sent() == old(self).source.sent().push(object),
            r is Err ==> final(self).source.sent() == old(self).source.sent(),
            final(self).sink == old(self).sink,
    {
        self.source.push(object)
    }

    /// Push a flush with `origin` and read until it reaches the sink;
    /// returns the data read before it.
    pub fn flush<In, Out, S: Origin>(&mut self, origin: S) -> (r: Result<Vec<Out>, Error>)
        where P: Closeable<In, S>, K: Reader<Out, S>,
        ensures
            extends(final(self).sink.read_log(), old(self).sink.read_log()),
            r matches Ok(v) ==> {
                let new = added(final(self).sink.read_log(), old(self).sink.read_log());
                ends_at_flush(new, origin) && v@ == data_of(new.drop_last())
            },
            r is Ok ==> final(self).source.sent().len() == old(self).source.sent().len() + 1
                && is_flush_of(final(self).source.sent().last(), origin),
    {
        signal_and_collect(&mut self.source, &mut self.sink, origin, true)
    }

    /// Push a marker with `origin` and read until it reaches the sink;
    /// returns the data read before it.
    pub fn mark<In, Out, S: Origin>(&mut self, origin: S) -> (r: Result<Vec<Out>, Error>)
        where P: Closeable<In, S>, K: Reader<Out, S>,
        ensures
            extends(final(self).sink.read_log(), old(self).sink.read_log()),
            r matches Ok(v) ==> {
                let new = added(final(self).sink.read_log(), old(self).sink.read_log());
                ends_at_marker(new, origin) && v@ == data_of(new.drop_last())
            },
            r is Ok ==> final(self).source.sent().len() == old(self).source.sent().len() + 1
                && is_marker_of(final(self).source.sent().last(), origin),
    {
        signal_and_collect(&mut self.source, &mut self.sink, origin, false)
    }
}

} // verus!
