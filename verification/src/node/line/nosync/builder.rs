//! Building pulled chains that start at an edge.
use crate::edge::{Edge, EdgeSender};
use crate::error::{Error, ErrorKind};
use crate::graph::{InputSide, Pullable};
use crate::message::Message;
use crate::node::line::nosync::node::Line;
use crate::node::line::routine::LineRoutine;
use crate::signal::Origin;
use vstd::prelude::*;

verus! {

/// The root of a pulled chain: it hands out what was pushed into its edge,
/// in order.
#[verifier::reject_recursive_types(D)]
#[verifier::reject_recursive_types(S)]
pub struct Root<D, S> {
    pub input: Edge<D, S>,
    pub yielded: Ghost<Seq<Message<D, S>>>,
}

impl<D, S> Root<D, S> {
    /// An empty, open root.
    pub fn new() -> (r: Self)
        ensures
            !r.input.closed(),
            r.input.received().len() == 0,
            r.yielded@.len() == 0,
    {
        Root { input: Edge::new(), yielded: Ghost(Seq::empty()) }
    }
}

impl<D, S> Pullable for Root<D, S> {
    type DataType = D;
    type SignalType = S;

    open spec fn keeps_record(&self) -> bool {
        true
    }

    open spec fn yielded(&self) -> Seq<Message<D, S>> {
        self.yielded@
    }

    /// The next message pushed into the root; a fatal error when none is
    /// waiting, `Closed` once its edge is closed.
    fn pull(&mut self) -> (r: Result<Message<D, S>, Error>)
        ensures
            r matches Ok(m) ==> final(self).input.received() == old(self).input.received().push(m),
            r matches Err(e) && e.kind == ErrorKind::Closed ==> final(self).input.closed(),
    {
        match self.input.poll()? {
            Some(message) => {
                self.yielded = Ghost(self.yielded@.push(message));
                Ok(message)
            },
            None => Err(Error::fatal("nothing to pull")),
        }
    }
}

impl<D, S> InputSide<D, S> for Root<D, S> {
    fn input_sender(&self) -> EdgeSender<D, S> {
        self.input.sender()
    }
}

/// A [`Line`] running the routine in `maybe_worker` that owns and pulls
/// `pullable`; the routine's error when there is none.
pub fn make_pull<In, Out, S: Origin, R: LineRoutine<In, Out>, P: Pullable<DataType = In, SignalType = S>>(
    pullable: P,
    maybe_worker: Result<R, Error>,
) -> (r: Result<Line<In, Out, S, R, P>, Error>)
    ensures
        maybe_worker is Err <==> r is Err,
        maybe_worker matches Err(e) ==> r == Err::<Line<In, Out, S, R, P>, Error>(e),
        r matches Ok(l) ==> {
            &&& maybe_worker == Ok::<R, Error>(l.worker)
            &&& l.pullable == Some(pullable)
            &&& l.buffer@.len() == 0
            &&& l.yielded@.len() == 0
        },
{
    let worker = maybe_worker?;
    Ok(Line::new(worker, Some(pullable)))
}

/// Type hints for [`make_pull`].
pub struct Connect<D, S> {
    pub data: core::marker::PhantomData<(D, S)>,
}

impl<D, S: Origin> Connect<D, S> {
    /// The same as [`make_pull`].
    pub fn pull<Out, R: LineRoutine<D, Out>, P: Pullable<DataType = D, SignalType = S>>(
        pullable: P,
        maybe_worker: Result<R, Error>,
    ) -> (r: Result<Line<D, Out, S, R, P>, Error>)
        ensures
            maybe_worker is Err <==> r is Err,
            maybe_worker matches Err(e) ==> r == Err::<Line<D, Out, S, R, P>, Error>(e),
            r matches Ok(l) ==> {
                &&& maybe_worker == Ok::<R, Error>(l.worker)
                &&& l.pullable == Some(pullable)
                &&& l.buffer@.len() == 0
                &&& l.yielded@.len() == 0
            },
    {
        make_pull(pullable, maybe_worker)
    }
}

} // verus!
