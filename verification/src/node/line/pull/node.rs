//! [`Line`]: a pulled node that runs a [`LineRoutine`].
use crate::error::Error;
use crate::graph::{Pullable, ROUND_LIMIT};
use crate::message::{added, data_of, extends, flushes_in, lemma_data_of_push, origin_of, same_signal, Message};
use crate::node::routine::{fed_of, flushes_of, lemma_call_push, outputs_of, Call, Flush, Next, Send};
use crate::node::line::work::node::asked_as_data;
use crate::node::line::routine::LineRoutine;
use std::collections::VecDeque;
use vstd::prelude::*;

verus! {

/// A node that owns its parent and pulls it until its routine produces
/// output. Routine output comes first, then signals held back in its buffer.
/// A flush is held back while the routine still has output after it, so it
/// always leaves the node behind that output.
pub struct Line<In, Out, S, R, P> {
    /// The routine that transforms the data.
    pub worker: R,
    /// The parent this node pulls for input.
    pub pullable: P,
    /// Signals waiting to be forwarded once the routine's output is out.
    pub buffer: VecDeque<Message<Out, S>>,
    /// Every message this node handed out, oldest first.
    pub yielded: Ghost<Seq<Message<Out, S>>>,
    /// Every message this node pulled from its parent, oldest first.
    pub pulled: Ghost<Seq<Message<In, S>>>,
    /// Every call this node made on its routine, oldest first.
    pub calls: Ghost<Seq<Call<In, Out>>>,
    pub phantom: core::marker::PhantomData<In>,
}

/// Every message held back in `buffer` is a signal.
pub open spec fn only_signals<D, S>(buffer: Seq<Message<D, S>>) -> bool {
    forall|i: int| 0 <= i < buffer.len() ==> !((#[trigger] buffer[i]) is Data)
}

impl<In, Out, S, R: LineRoutine<In, Out>, P: Pullable<DataType = In, SignalType = S>> Line<In, Out, S, R, P> {
    /// A node running `worker` that pulls `pullable`.
    pub fn new(worker: R, pullable: P) -> (l: Self)
        ensures
            l.worker == worker,
            l.pullable == pullable,
            l.buffer@.len() == 0,
            l.yielded@.len() == 0,
            l.pulled@.len() == 0,
            l.calls@.len() == 0,
    {
        Line {
            worker,
            pullable,
            buffer: VecDeque::new(),
            yielded: Ghost(Seq::empty()),
            pulled: Ghost(Seq::empty()),
            calls: Ghost(Seq::empty()),
            phantom: core::marker::PhantomData,
        }
    }

    /// The routine's next output as data, else the oldest held back signal.
    fn next_output(&mut self) -> (r: Result<Option<Message<Out, S>>, Error>)
        ensures
            final(self).pullable == old(self).pullable,
            final(self).yielded == old(self).yielded,
            final(self).pulled == old(self).pulled,
            final(self).calls@.len() == old(self).calls@.len() + 1,
            final(self).calls@.drop_last() == old(self).calls@,
            final(self).calls@.last() matches Call::Asked(_),
            r matches Ok(Some(m)) ==> (m is Data ==> final(self).buffer@ == old(self).buffer@
                && final(self).calls@.last() == asked_as_data::<In, Out, S>(r)) && (!(m is Data)
                ==> old(self).buffer@.len() > 0 && m == old(self).buffer@[0] && final(self).buffer@ == old(self).buffer@.drop_first()
                && final(self).calls@.last() == Call::<In, Out>::Asked(Ok(None))),
            !(r matches Ok(Some(_))) ==> final(self).buffer@ == old(self).buffer@,
            r matches Ok(None) ==> old(self).buffer@.len() == 0 && final(self).calls@.last() == Call::<In, Out>::Asked(Ok(None)),
    {
        let answer = self.worker.next();
        self.calls = Ghost(self.calls@.push(Call::Asked(answer)));
        proof {
            assert(self.calls@.drop_last() =~= old(self).calls@);
        }
        if let Some(data) = answer? {
            return Ok(Some(Message::Data(data)));
        }
        match self.buffer.pop_front() {
            Some(next) => {
                if next.is_data() {
                    // Only signals are held back; data never reaches the buffer.
                    self.buffer.push_front(next);
                    return Err(Error::fatal("data held back in the signal buffer"));
                }
                Ok(Some(next))
            },
            None => Ok(None),
        }
    }
}

impl<In, Out, S, R: LineRoutine<In, Out>, P: Pullable<DataType = In, SignalType = S>> Pullable for Line<In, Out, S, R, P> {
    type DataType = Out;
    type SignalType = S;

    open spec fn keeps_record(&self) -> bool {
        true
    }

    open spec fn yielded(&self) -> Seq<Message<Out, S>> {
        self.yielded@
    }

    /// The next message: buffered output first, else the result of pulling
    /// the parent until the routine produces output or a signal arrives.
    ///
    /// Every data message pulled goes to the routine and every flush flushes
    /// it. A data result is the one output the routine handed out during the
    /// call. A flush pulled from the parent comes out at once only when the
    /// flushed routine answers that it has no output; when it answers with
    /// output, that output comes out and the flush is held back behind it.
    fn pull(&mut self) -> (r: Result<Message<Out, S>, Error>)
        ensures
            only_signals(old(self).buffer@) ==> only_signals(final(self).buffer@),
            extends(final(self).pulled@, old(self).pulled@),
            extends(final(self).calls@, old(self).calls@),
            ({
                let got = added(final(self).pulled@, old(self).pulled@);
                let nc = added(final(self).calls@, old(self).calls@);
                &&& fed_of(nc) == data_of(got)
                &&& flushes_of(nc) == flushes_in(got)
                &&& r matches Ok(Message::Data(x)) ==> outputs_of(nc) == seq![x]
                &&& (r matches Ok(m) && !(m is Data)) ==> outputs_of(nc) == Seq::<Out>::empty()
                    && ((old(self).buffer@.len() > 0 && r->Ok_0 == old(self).buffer@[0] && got.len() == 0)
                    || (got.len() > 0 && same_signal(r->Ok_0, got.last())))
                &&& r is Ok && got.len() > 0 && got.last() is Flush ==> {
                    &&& old(self).buffer@.len() == 0
                    &&& nc.len() >= 2
                    &&& nc[nc.len() - 2] == Call::<In, Out>::Flushed(Ok(()))
                    &&& nc.last() == Call::<In, Out>::Asked(Ok(None)) ==> (r->Ok_0 is Flush && same_signal(r->Ok_0, got.last()))
                        && final(self).buffer@ == old(self).buffer@
                    &&& nc.last() matches Call::Asked(Ok(Some(x))) ==> r == Ok::<Message<Out, S>, Error>(Message::Data(x))
                        && final(self).buffer@ == seq![Message::<Out, S>::Flush(origin_of(got.last()))]
                }
            }),
    {
        let first = self.next_output();
        proof {
            assert(added(self.pulled@, old(self).pulled@) =~= Seq::<Message<In, S>>::empty());
            let c = self.calls@.last();
            assert(added(self.calls@, old(self).calls@) =~= seq![c]);
            assert(seq![c] =~= Seq::<Call<In, Out>>::empty().push(c));
            lemma_call_push(Seq::<Call<In, Out>>::empty(), c);
        }
        if let Some(message) = first? {
            self.yielded = Ghost(self.yielded@.push(message));
            return Ok(message);
        }
        let mut rounds: u64 = 0;
        loop
            invariant
                only_signals(old(self).buffer@) ==> only_signals(self.buffer@),
                self.buffer@.len() == 0,
                old(self).buffer@.len() == 0,
                self.yielded == old(self).yielded,
                extends(self.pulled@, old(self).pulled@),
                extends(self.calls@, old(self).calls@),
                ({
                    let got = added(self.pulled@, old(self).pulled@);
                    let nc = added(self.calls@, old(self).calls@);
                    &&& fed_of(nc) == data_of(got)
                    &&& flushes_of(nc) == flushes_in(got)
                    &&& outputs_of(nc) == Seq::<Out>::empty()
                    &&& got.len() == 0 || got.last() is Data
                }),
            decreases ROUND_LIMIT - rounds,
        {
            if rounds == ROUND_LIMIT {
                return Err(Error::fatal("parent never produced output"));
            }
            rounds = rounds + 1;
            let pulled = self.pullable.pull()?;
            let ghost got_before = self.pulled@;
            self.pulled = Ghost(self.pulled@.push(pulled));
            proof {
                lemma_data_of_push(added(got_before, old(self).pulled@), pulled);
                assert(added(self.pulled@, old(self).pulled@) =~= added(got_before, old(self).pulled@).push(pulled));
            }
            let ghost calls_before = self.calls@;
            match pulled {
                Message::Data(data) => {
                    let ghost d = data;
                    let sent = self.worker.send(data);
                    self.calls = Ghost(self.calls@.push(Call::Sent(d, sent)));
                    proof {
                        let c = Call::<In, Out>::Sent(d, sent);
                        lemma_call_push(added(calls_before, old(self).calls@), c);
                        assert(added(self.calls@, old(self).calls@) =~= added(calls_before, old(self).calls@).push(c));
                    }
                    sent?;
                    let ghost calls_mid = self.calls@;
                    let next = self.next_output();
                    proof {
                        let c = self.calls@.last();
                        assert(self.calls@ =~= calls_mid.push(c));
                        lemma_call_push(added(calls_mid, old(self).calls@), c);
                        assert(added(self.calls@, old(self).calls@) =~= added(calls_mid, old(self).calls@).push(c));
                    }
                    if let Some(message) = next? {
                        self.yielded = Ghost(self.yielded@.push(message));
                        return Ok(message);
                    }
                },
                Message::Flush(origin) => {
                    let flushed = self.worker.flush();
                    self.calls = Ghost(self.calls@.push(Call::Flushed(flushed)));
                    proof {
                        let c = Call::<In, Out>::Flushed(flushed);
                        lemma_call_push(added(calls_before, old(self).calls@), c);
                        assert(added(self.calls@, old(self).calls@) =~= added(calls_before, old(self).calls@).push(c));
                    }
                    flushed?;
                    let ghost calls_mid = self.calls@;
                    let next = self.next_output();
                    proof {
                        let c = self.calls@.last();
                        assert(self.calls@ =~= calls_mid.push(c));
                        lemma_call_push(added(calls_mid, old(self).calls@), c);
                        let nc = added(self.calls@, old(self).calls@);
                        assert(nc =~= added(calls_mid, old(self).calls@).push(c));
                        assert(nc[nc.len() - 2] == Call::<In, Out>::Flushed(Ok(())));
                    }
                    match next? {
                        Some(message) => {
                            // Forward the flush once the routine's output is out.
                            self.buffer.push_back(Message::Flush(origin));
                            proof {
                                assert(self.buffer@ =~= seq![Message::<Out, S>::Flush(origin)]);
                            }
                            self.yielded = Ghost(self.yielded@.push(message));
                            return Ok(message);
                        },
                        None => {
                            let m = Message::Flush(origin);
                            self.yielded = Ghost(self.yielded@.push(m));
                            return Ok(m);
                        },
                    }
                },
                Message::Marker(origin) => {
                    let m = Message::Marker(origin);
                    self.yielded = Ghost(self.yielded@.push(m));
                    return Ok(m);
                },
            }
        }
    }
}

} // verus!
