//! [`BifurcationReader`]: the source and both sinks of a bifurcation in one place.
use crate::error::Error;
use crate::graph::{Pushable, Reader, Workable};
use crate::message::{added, data_of, extends, Message, is_marker_of};
use crate::node::bifurcation::io::{collect_marker_polling, read_polling};
use crate::node::line::io::ends_at_marker;
use crate::signal::Origin;
use vstd::prelude::*;

verus! {

/// The source feeding a bifurcation, readers on both its outputs, and the
/// node itself, which is worked whenever a reader finds nothing waiting.
pub struct BifurcationReader<W, LR, RR> {
    pub input: W,
    pub left: LR,
    pub right: RR,
    pub workable: Box<dyn Workable>,
}

impl<W, LR, RR> BifurcationReader<W, LR, RR> {
    /// Combine the writer, the two readers and the node.
    pub fn new(input: W, left: LR, right: RR, workable: Box<dyn Workable>) -> (io: Self)
        ensures
            io.input == input,
            io.left == left,
            io.right == right,
    {
        BifurcationReader { input, left, right, workable }
    }

    /// The next message on the left output.
    pub fn left_read<L, S>(&mut self) -> (r: Result<Message<L, S>, Error>)
        where LR: Reader<L, S>,
        ensures
            r matches Ok(m) ==> final(self).left.read_log() == old(self).left.read_log().push(m),
            r is Err ==> final(self).left.read_log() == old(self).left.read_log(),
    {
        read_polling(&mut self.left, &mut self.workable)
    }

    /// The next message on the right output.
    pub fn right_read<R, S>(&mut self) -> (r: Result<Message<R, S>, Error>)
        where RR: Reader<R, S>,
        ensures
            r matches Ok(m) ==> final(self).right.read_log() == old(self).right.read_log().push(m),
            r is Err ==> final(self).right.read_log() == old(self).right.read_log(),
    {
        read_polling(&mut self.right, &mut self.workable)
    }

    /// Push a message into the input.
    pub fn push<In, S>(&mut self, object: Message<In, S>) -> (r: Result<(), Error>)
        where W: Pushable<In, S>,
        ensures
            r is Ok ==> final(self).input.sent() == old(self).input.sent().push(object),
            r is Err ==> final(self).input.sent() == old(self).input.sent(),
    {
        self.input.push(object)
    }

    /// Push a marker with `origin` and read the left output until it
    /// arrives; returns the data read before it.
    pub fn left_mark<In, L, S: Origin>(&mut self, origin: S) -> (r: Result<Vec<L>, Error>)
        where W: Pushable<In, S>, LR: Reader<L, S>,
        ensures
            r is Ok ==> final(self).input.sent().len() == old(self).input.sent().len() + 1
                && is_marker_of(final(self).input.sent().last(), origin),
            extends(final(self).left.read_log(), old(self).left.read_log()),
            r matches Ok(v) ==> {
                let new = added(final(self).left.read_log(), old(self).left.read_log());
                ends_at_marker(new, origin) && v@ == data_of(new.drop_last())
            },
    {
        self.input.push(Message::Marker(origin.duplicate()))?;
        collect_marker_polling(&mut self.left, &mut self.workable, &origin)
    }

    /// Push a marker with `origin` and read the right output until it
    /// arrives; returns the data read before it.
    pub fn right_mark<In, R, S: Origin>(&mut self, origin: S) -> (r: Result<Vec<R>, Error>)
        where W: Pushable<In, S>, RR: Reader<R, S>,
        ensures
            r is Ok ==> final(self).input.sent().len() == old(self).input.sent().len() + 1
                && is_marker_of(final(self).input.sent().last(), origin),
            extends(final(self).right.read_log(), old(self).right.read_log()),
            r matches Ok(v) ==> {
                let new = added(final(self).right.read_log(), old(self).right.read_log());
                ends_at_marker(new, origin) && v@ == data_of(new.drop_last())
            },
    {
        self.input.push(Message::Marker(origin.duplicate()))?;
        collect_marker_polling(&mut self.right, &mut self.workable, &origin)
    }
}

} // verus!
