//! [`BiunionIo`]: both inputs and the output of a biunion in one place.
use crate::error::Error;
use crate::graph::{Closeable, Pushable, Reader};
use crate::message::{added, data_of, extends, Message, is_marker_of};
use crate::node::line::io::{collect_until, ends_at_marker};
use crate::signal::Origin;
use vstd::prelude::*;

verus! {

/// Writers feeding both inputs of a biunion and the reader at its output.
pub struct BiunionIo<LW, RW, R> {
    pub left: LW,
    pub right: RW,
    pub output: R,
}

impl<LW, RW, R> BiunionIo<LW, RW, R> {
    /// Combine the two writers and the reader.
    pub fn new(left: LW, right: RW, output: R) -> (io: Self)
        ensures
            io.left == left,
            io.right == right,
            io.output == output,
    {
        BiunionIo { left, right, output }
    }

    /// The next message at the output.
    pub fn read<Out, S>(&mut self) -> (r: Result<Message<Out, S>, Error>)
        where R: Reader<Out, S>,
        ensures
            r matches Ok(m) ==> final(self).output.read_log() == old(self).output.read_log().push(m),
            r is Err ==> final(self).output.read_log() == old(self).output.read_log(),
    {
        self.output.read()
    }

    /// Push a message into the left input.
    pub fn left_push<L, S>(&mut self, msg: Message<L, S>) -> (r: Result<(), Error>)
        where LW: Pushable<L, S>,
        ensures
            r is Ok ==> final(self).left.sent() == old(self).left.sent().push(msg),
            r is Err ==> final(self).left.sent() == old(self).left.sent(),
            final(self).right == old(self).right,
    {
        self.left.push(msg)
    }

    /// Push a message into the right input.
    pub fn right_push<Rt, S>(&mut self, msg: Message<Rt, S>) -> (r: Result<(), Error>)
        where RW: Pushable<Rt, S>,
        ensures
            r is Ok ==> final(self).right.sent() == old(self).right.sent().push(msg),
            r is Err ==> final(self).right.sent() == old(self).right.sent(),
            final(self).left == old(self).left,
    {
        self.right.push(msg)
    }

    /// Close both writers, the left one first.
    pub fn close<L, Rt, S>(&mut self) -> (r: Result<(), Error>)
        where LW: Closeable<L, S>, RW: Closeable<Rt, S>,
        ensures
            final(self).left.is_closed(),
            final(self).left.sent() == old(self).left.sent(),
            r is Ok ==> final(self).right.is_closed(),
            final(self).right == old(self).right || (final(self).right.is_closed()
                && final(self).right.sent() == old(self).right.sent()),
            final(self).output == old(self).output,
    {
        self.left.close()?;
        self.right.close()
    }

    /// Read the output until the marker with `origin` arrives; returns the
    /// data read before it.
    pub fn mark<Out, S: Origin>(&mut self, origin: S) -> (r: Result<Vec<Out>, Error>)
        where R: Reader<Out, S>,
        ensures
            extends(final(self).output.read_log(), old(self).output.read_log()),
            r matches Ok(v) ==> {
                let new = added(final(self).output.read_log(), old(self).output.read_log());
                ends_at_marker(new, origin) && v@ == data_of(new.drop_last())
            },
    {
        collect_until(&mut self.output, &origin, false)
    }

    /// Push a marker with `origin` into the right input and read the output
    /// until it arrives; returns the data read before it.
    pub fn right_mark<Rt, Out, S: Origin>(&mut self, origin: S) -> (r: Result<Vec<Out>, Error>)
        where RW: Pushable<Rt, S>, R: Reader<Out, S>,
        ensures
            r is Ok ==> final(self).right.sent().len() == old(self).right.sent().len() + 1
                && is_marker_of(final(self).right.sent().last(), origin),
            extends(final(self).output.read_log(), old(self).output.read_log()),
            r matches Ok(v) ==> {
                let new = added(final(self).output.read_log(), old(self).output.read_log());
                ends_at_marker(new, origin) && v@ == data_of(new.drop_last())
            },
    {
        self.right.push(Message::Marker(origin.duplicate()))?;
        collect_until(&mut self.output, &origin, false)
    }

    /// Push a marker with `origin` into the left input and read the output
    /// until it arrives; returns the data read before it.
    pub fn left_mark<L, Out, S: Origin>(&mut self, origin: S) -> (r: Result<Vec<Out>, Error>)
        where LW: Pushable<L, S>, R: Reader<Out, S>,
        ensures
            r is Ok ==> final(self).left.sent().len() == old(self).left.sent().len() + 1
                && is_marker_of(final(self).left.sent().last(), origin),
            extends(final(self).output.read_log(), old(self).output.read_log()),
            r matches Ok(v) ==> {
                let new = added(final(self).output.read_log(), old(self).output.read_log());
                ends_at_marker(new, origin) && v@ == data_of(new.drop_last())
            },
    {
        self.left.push(Message::Marker(origin.duplicate()))?;
        collect_until(&mut self.output, &origin, false)
    }
}

} // verus!
