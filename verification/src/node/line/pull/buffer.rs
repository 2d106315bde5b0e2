//! [`SourceBuffer`]: the root of a pulled chain.
use crate::edge::{Edge, EdgeSender};
use crate::error::{Error, ErrorKind};
use crate::graph::{InputSide, Pullable};
use crate::message::Message;
use vstd::prelude::*;

verus! {

/// The root of a chain of pulled nodes: it hands out what was pushed into
/// its edge, in order.
#[verifier::reject_recursive_types(D)]
#[verifier::reject_recursive_types(S)]
pub struct SourceBuffer<D, S> {
    pub edge: Edge<D, S>,
    pub yielded: Ghost<Seq<Message<D, S>>>,
}

impl<D, S> SourceBuffer<D, S> {
    /// An empty, open buffer.
    pub fn new() -> (b: Self)
        ensures
            !b.edge.closed(),
            b.yielded@.len() == 0,
    {
        SourceBuffer { edge: Edge::new(), yielded: Ghost(Seq::empty()) }
    }
}

impl<D, S> Pullable for SourceBuffer<D, S> {
    type DataType = D;
    type SignalType = S;

    open spec fn keeps_record(&self) -> bool {
        true
    }

    open spec fn yielded(&self) -> Seq<Message<D, S>> {
        self.yielded@
    }

    /// The next message pushed into the buffer; a fatal error when none is
    /// waiting, `Closed` once the buffer's edge is closed.
    fn pull(&mut self) -> (r: Result<Message<D, S>, Error>)
        ensures
            r matches Ok(m) ==> final(self).edge.received() == old(self).edge.received().push(m),
            r matches Err(e) && e.kind == ErrorKind::Closed ==> final(self).edge.closed(),
    {
        match self.edge.poll()? {
            Some(message) => {
                self.yielded = Ghost(self.yielded@.push(message));
                Ok(message)
            },
            None => Err(Error::fatal("nothing to pull")),
        }
    }
}

impl<D, S> InputSide<D, S> for SourceBuffer<D, S> {
    fn input_sender(&self) -> EdgeSender<D, S> {
        self.edge.sender()
    }
}

} // verus!
