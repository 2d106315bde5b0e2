//! The traits that connect nodes into a graph.
use crate::edge::EdgeSender;
use crate::error::Error;
use crate::marker::{Multiplicity, Unary};
use crate::message::Message;
use vstd::prelude::*;

verus! {

/// How many rounds a node spends waiting for its parents to produce input
/// before it gives up with a fatal error.
pub const ROUND_LIMIT: u64 = 0xffff_ffff_ffff_ffff;

/// A node that can be scheduled: working it moves messages downstream.
pub trait Workable {
    fn work(&mut self) -> (r: Result<(), Error>);
}

/// A node that yields its next message when pulled.
pub trait Pullable {
    type DataType;
    type SignalType;

    /// Whether this producer keeps the record [`Pullable::yielded`]; the
    /// nodes of this crate do, and others are not held to it.
    open spec fn keeps_record(&self) -> bool {
        false
    }

    /// Every message pulled so far, oldest first, where the record is kept.
    open spec fn yielded(&self) -> Seq<Message<Self::DataType, Self::SignalType>> {
        Seq::empty()
    }

    fn pull(&mut self) -> (r: Result<Message<Self::DataType, Self::SignalType>, Error>)
        ensures
            old(self).keeps_record() ==> final(self).keeps_record(),
            old(self).keeps_record() ==> (r matches Ok(m) ==> final(self).yielded() == old(self).yielded().push(m)),
            old(self).keeps_record() && r is Err ==> final(self).yielded() == old(self).yielded(),
    ;
}

/// Something messages can be pushed into.
pub trait Pushable<D, S> {
    /// Every message pushed so far, oldest first.
    spec fn sent(&self) -> Seq<Message<D, S>>;

    /// Whether the receiving end has been told that no more will come.
    spec fn is_closed(&self) -> bool;

    fn push(&mut self, message: Message<D, S>) -> (r: Result<(), Error>)
        ensures
            r is Ok ==> final(self).sent() == old(self).sent().push(message),
            r is Err ==> final(self).sent() == old(self).sent(),
            final(self).is_closed() == old(self).is_closed(),
    ;
}

/// A [`Pushable`] that can also be closed, which tells the reading end
/// that no more messages will come.
pub trait Closeable<D, S>: Pushable<D, S> {
    fn close(&mut self) -> (r: Result<(), Error>)
        ensures
            final(self).is_closed(),
            final(self).sent() == old(self).sent(),
    ;
}

/// A node whose input edge (selected by `K` where it has several) can be
/// pushed into from outside.
pub trait InputSide<D, S, K: Multiplicity = Unary> {
    /// A new handle on the input edge, open and with nothing sent yet.
    fn input_sender(&self) -> (r: EdgeSender<D, S>)
        ensures
            !r.is_closed(),
            r.sent().len() == 0,
    ;
}

/// A node that accepts another output edge (selected by `K` where it has
/// several outputs).
pub trait OutputSide<D, S, K: Multiplicity = Unary> {
    /// How many output edges (on output `K`) the node has.
    spec fn output_count(&self) -> nat;

    /// The node takes every output edge it is offered.
    open spec fn takes_every_output(&self) -> bool {
        false
    }

    /// Add an output edge; when it is refused the node is unchanged.
    fn add_output(&mut self, output: Box<dyn Closeable<D, S>>) -> (r: Result<(), Error>)
        ensures
            old(self).takes_every_output() ==> r is Ok,
            r is Ok ==> final(self).output_count() == old(self).output_count() + 1,
            r is Err ==> final(self).output_count() == old(self).output_count(),
    ;
}

/// A node that accepts another parent to schedule (on input `K`).
pub trait ParentSide<K: Multiplicity = Unary> {
    /// How many parents (on input `K`) the node schedules.
    spec fn parent_count(&self) -> nat;

    /// The node takes every parent it is offered.
    open spec fn takes_every_parent(&self) -> bool {
        false
    }

    /// Add a parent; when it is refused the node is unchanged.
    fn add_workable(&mut self, workable: Box<dyn Workable>) -> (r: Result<(), Error>)
        ensures
            old(self).takes_every_parent() ==> r is Ok,
            r is Ok ==> final(self).parent_count() == old(self).parent_count() + 1,
            r is Err ==> final(self).parent_count() == old(self).parent_count(),
    ;
}

/// Every output edge in `pushes` is closed.
pub open spec fn all_closed<D, S>(pushes: Seq<Box<dyn Closeable<D, S>>>) -> bool {
    forall|i: int| 0 <= i < pushes.len() ==> (#[trigger] pushes[i]).is_closed()
}

} // verus!

verus! {

/// The reading end of a graph.
pub trait Reader<D, S> {
    /// Every message read so far, oldest first.
    spec fn read_log(&self) -> Seq<Message<D, S>>;

    /// The next message if one is waiting.
    fn poll(&mut self) -> (r: Result<Option<Message<D, S>>, Error>)
        ensures
            r matches Ok(Some(m)) ==> final(self).read_log() == old(self).read_log().push(m),
            !(r matches Ok(Some(_))) ==> final(self).read_log() == old(self).read_log(),
    ;

    /// The next message, producing it first if need be.
    fn read(&mut self) -> (r: Result<Message<D, S>, Error>)
        ensures
            r matches Ok(m) ==> final(self).read_log() == old(self).read_log().push(m),
            r is Err ==> final(self).read_log() == old(self).read_log(),
    ;
}

} // verus!
