//! [`Line`]: a node that runs a [`LineRoutine`] when it is worked.
use crate::edge::{Edge, EdgeSender};
use crate::error::{is_closed_err, Error};
use crate::graph::{all_closed, OutputSide, ParentSide, Closeable, InputSide, Workable, ROUND_LIMIT};
use crate::message::{
    added, all_data, data_of, ends_with, extends, flushes_in, lemma_data_extends, lemma_data_of_push, lemma_data_then,
    lemma_push, same_signal, signal_last, Message,
};
use crate::node::routine::{
    drained_after_flush, fed_of, flushes_of, lemma_call_push, lemma_calls_concat, outputs_of, Call, Flush, Next, Send,
};
use crate::node::line::routine::LineRoutine;
use vstd::prelude::*;

verus! {

/// A worked node with one input and one output stream.
pub trait LineTrait: Workable {
    type In;
    type Out;
    type Signal;
}

/// A node with one input edge and any number of output edges.
///
/// When worked it emits the next output of its routine. If there is none it
/// takes input: data goes to the routine, a flush flushes the routine,
/// emits everything the routine then has and is forwarded last, and a marker
/// is forwarded at once. With no input waiting it works its parents.
#[verifier::reject_recursive_types(In)]
#[verifier::reject_recursive_types(Out)]
#[verifier::reject_recursive_types(S)]
pub struct Line<In, Out, S, R> {
    /// The routine that transforms the data.
    pub worker: R,
    /// Parents scheduled to produce input.
    pub workers: Vec<Box<dyn Workable>>,
    /// Output edges; every message emitted goes to each of them.
    pub pushes: Vec<Box<dyn Closeable<Out, S>>>,
    /// The input edge parents push into.
    pub input: Edge<In, S>,
    /// Every message this node emitted, oldest first.
    pub emitted: Ghost<Seq<Message<Out, S>>>,
    /// Every call this node made on its routine, oldest first.
    pub calls: Ghost<Seq<Call<In, Out>>>,
    /// What each parent's work returned, oldest first.
    pub reports: Ghost<Seq<Result<(), Error>>>,
}

/// The call a node logs for an answer of [`Next::next`] that it passed on as
/// `r`, with outputs wrapped as data.
pub open spec fn asked_as_data<In, Out, S>(r: Result<Option<Message<Out, S>>, Error>) -> Call<In, Out> {
    match r {
        Ok(Some(Message::Data(x))) => Call::Asked(Ok(Some(x))),
        Ok(_) => Call::Asked(Ok(None)),
        Err(e) => Call::Asked(Err(e)),
    }
}

/// Every report in `reports` is a success.
pub open spec fn all_ok(reports: Seq<Result<(), Error>>) -> bool {
    forall|i: int| 0 <= i < reports.len() ==> (#[trigger] reports[i]) is Ok
}

/// Some report in `reports` is a `Closed` error.
pub open spec fn heard_closed(reports: Seq<Result<(), Error>>) -> bool {
    exists|i: int| 0 <= i < reports.len() && is_closed_err(#[trigger] reports[i])
}

/// Every call in `calls` asked for output and was handed some.
pub open spec fn all_outputs<In, Out>(calls: Seq<Call<In, Out>>) -> bool {
    forall|j: int| 0 <= j < calls.len() ==> (#[trigger] calls[j]) matches Call::Asked(Ok(Some(_)))
}

impl<In, Out: Clone, S: Clone, R: LineRoutine<In, Out>> Line<In, Out, S, R> {
    /// A node running `worker`, with no parents and no outputs yet.
    pub fn new(worker: R) -> (l: Self)
        ensures
            l.worker == worker,
            l.workers@.len() == 0,
            l.pushes@.len() == 0,
            !l.input.closed(),
            l.input.received().len() == 0,
            l.emitted@.len() == 0,
            l.calls@.len() == 0,
            l.reports@.len() == 0,
    {
        Line {
            worker,
            workers: Vec::new(),
            pushes: Vec::new(),
            input: Edge::new(),
            emitted: Ghost(Seq::empty()),
            calls: Ghost(Seq::empty()),
            reports: Ghost(Seq::empty()),
        }
    }

    /// The same as [`Line::new`].
    pub fn of(worker: R) -> (l: Self)
        ensures
            l.worker == worker,
            l.workers@.len() == 0,
            l.pushes@.len() == 0,
            !l.input.closed(),
            l.input.received().len() == 0,
            l.emitted@.len() == 0,
            l.calls@.len() == 0,
            l.reports@.len() == 0,
    {
        Line::new(worker)
    }

    /// The next output of the routine, as data.
    fn next_output(&mut self) -> (r: Result<Option<Message<Out, S>>, Error>)
        ensures
            r matches Ok(Some(m)) ==> m is Data,
            final(self).calls@ == old(self).calls@.push(asked_as_data(r)),
            final(self).reports == old(self).reports,
            final(self).input == old(self).input,
            final(self).pushes == old(self).pushes,
            final(self).emitted == old(self).emitted,
            final(self).workers == old(self).workers,
    {
        let answer = self.worker.next();
        self.calls = Ghost(self.calls@.push(Call::Asked(answer)));
        match answer? {
            Some(next_message) => Ok(Some(Message::Data(next_message))),
            None => Ok(None),
        }
    }

    /// Hand `data` to the routine.
    fn feed(&mut self, data: In) -> (r: Result<(), Error>)
        ensures
            final(self).calls@ == old(self).calls@.push(Call::Sent(data, r)),
            final(self).reports == old(self).reports,
            final(self).input == old(self).input,
            final(self).pushes == old(self).pushes,
            final(self).emitted == old(self).emitted,
            final(self).workers == old(self).workers,
    {
        let ghost d = data;
        let r = self.worker.send(data);
        self.calls = Ghost(self.calls@.push(Call::Sent(d, r)));
        r
    }

    /// Flush the routine.
    fn flush_worker(&mut self) -> (r: Result<(), Error>)
        ensures
            final(self).calls@ == old(self).calls@.push(Call::Flushed(r)),
            final(self).reports == old(self).reports,
            final(self).input == old(self).input,
            final(self).pushes == old(self).pushes,
            final(self).emitted == old(self).emitted,
            final(self).workers == old(self).workers,
    {
        let r = self.worker.flush();
        self.calls = Ghost(self.calls@.push(Call::Flushed(r)));
        r
    }

    /// Push `obj` into every output edge.
    fn push(&mut self, obj: Message<Out, S>) -> (r: Result<(), Error>)
        ensures
            old(self).pushes@.len() == 0 ==> r is Ok,
            r is Ok ==> final(self).emitted@ == old(self).emitted@.push(obj),
            r is Err ==> final(self).emitted@ == old(self).emitted@,
            final(self).pushes@.len() == old(self).pushes@.len(),
            final(self).input == old(self).input,
            final(self).worker == old(self).worker,
            final(self).workers == old(self).workers,
            final(self).calls == old(self).calls,
            final(self).reports == old(self).reports,
    {
        let n = self.pushes.len();
        let mut i: usize = 0;
        while i < n
            invariant
                n == self.pushes@.len(),
                n == old(self).pushes@.len(),
                i <= n,
                self.input == old(self).input,
                self.emitted == old(self).emitted,
                self.worker == old(self).worker,
                self.workers == old(self).workers,
                self.calls == old(self).calls,
                self.reports == old(self).reports,
            decreases n - i,
        {
            self.pushes[i].push(obj.clone())?;
            i = i + 1;
        }
        self.emitted = Ghost(self.emitted@.push(obj));
        Ok(())
    }

    /// Emit every output the routine has ready, until it answers that it
    /// has no more.
    fn drain_output(&mut self) -> (r: Result<(), Error>)
        ensures
            extends(final(self).emitted@, old(self).emitted@),
            all_data(added(final(self).emitted@, old(self).emitted@)),
            final(self).pushes@.len() == old(self).pushes@.len(),
            final(self).input == old(self).input,
            final(self).workers == old(self).workers,
            final(self).reports == old(self).reports,
            extends(final(self).calls@, old(self).calls@),
            ({
                let nc = added(final(self).calls@, old(self).calls@);
                &&& fed_of(nc) == Seq::<In>::empty()
                &&& flushes_of(nc) == 0
                &&& r is Ok ==> nc.len() > 0 && nc.last() == Call::<In, Out>::Asked(Ok(None))
                    && all_outputs(nc.drop_last())
                    && outputs_of(nc) == data_of(added(final(self).emitted@, old(self).emitted@))
            }),
    {
        proof {
            assert(added(self.emitted@, old(self).emitted@) =~= Seq::<Message<Out, S>>::empty());
            assert(added(self.calls@, old(self).calls@) =~= Seq::<Call<In, Out>>::empty());
        }
        let mut rounds: u64 = 0;
        loop
            invariant
                extends(self.emitted@, old(self).emitted@),
                all_data(added(self.emitted@, old(self).emitted@)),
                self.pushes@.len() == old(self).pushes@.len(),
                self.input == old(self).input,
                self.workers == old(self).workers,
                self.reports == old(self).reports,
                extends(self.calls@, old(self).calls@),
                ({
                    let nc = added(self.calls@, old(self).calls@);
                    &&& fed_of(nc) == Seq::<In>::empty()
                    &&& flushes_of(nc) == 0
                    &&& all_outputs(nc)
                    &&& outputs_of(nc) == data_of(added(self.emitted@, old(self).emitted@))
                }),
            decreases ROUND_LIMIT - rounds,
        {
            if rounds == ROUND_LIMIT {
                return Err(Error::fatal("routine never ran out of output"));
            }
            rounds = rounds + 1;
            let ghost before = self.emitted@;
            let ghost calls_before = self.calls@;
            let next = self.next_output();
            proof {
                let c = asked_as_data::<In, Out, S>(next);
                lemma_call_push(added(calls_before, old(self).calls@), c);
                assert(added(self.calls@, old(self).calls@) =~= added(calls_before, old(self).calls@).push(c));
                assert(added(self.calls@, old(self).calls@).drop_last() =~= added(calls_before, old(self).calls@));
            }
            match next? {
                Some(message) => {
                    self.push(message)?;
                    proof {
                        lemma_data_then(old(self).emitted@, before, message);
                        lemma_data_of_push(added(before, old(self).emitted@), message);
                        assert(added(self.emitted@, old(self).emitted@) =~= added(before, old(self).emitted@).push(message));
                    }
                },
                None => return Ok(()),
            }
        }
    }

    /// Close every output edge, telling the children no more will come.
    fn close_pushes(&mut self)
        ensures
            all_closed(final(self).pushes@),
            final(self).pushes@.len() == old(self).pushes@.len(),
            final(self).input == old(self).input,
            final(self).emitted == old(self).emitted,
            final(self).workers == old(self).workers,
            final(self).worker == old(self).worker,
            final(self).calls == old(self).calls,
            final(self).reports == old(self).reports,
    {
        let n = self.pushes.len();
        let mut i: usize = 0;
        while i < n
            invariant
                n == self.pushes@.len(),
                n == old(self).pushes@.len(),
                i <= n,
                forall|j: int| 0 <= j < i ==> (#[trigger] self.pushes@[j]).is_closed(),
                self.input == old(self).input,
                self.emitted == old(self).emitted,
                self.workers == old(self).workers,
                self.worker == old(self).worker,
                self.calls == old(self).calls,
                self.reports == old(self).reports,
            decreases n - i,
        {
            let _ = self.pushes[i].close();
            i = i + 1;
        }
    }

    /// Pass `result` through unchanged, first closing every output edge when
    /// it reports a shutdown.
    fn propagate_if_closed<T>(&mut self, result: Result<T, Error>) -> (r: Result<T, Error>)
        ensures
            r == result,
            is_closed_err(result) ==> all_closed(final(self).pushes@),
            final(self).pushes@.len() == old(self).pushes@.len(),
            final(self).input == old(self).input,
            final(self).emitted == old(self).emitted,
            final(self).workers == old(self).workers,
            final(self).worker == old(self).worker,
            final(self).calls == old(self).calls,
            final(self).reports == old(self).reports,
    {
        match result {
            Err(e) => {
                if e.is_closed() {
                    self.close_pushes();
                }
                Err(e)
            },
            Ok(v) => Ok(v),
        }
    }

    /// Work every parent once, stopping at the first error.
    fn work_parents(&mut self) -> (r: Result<(), Error>)
        ensures
            old(self).workers@.len() == 0 ==> r is Ok,
            is_closed_err(r) ==> all_closed(final(self).pushes@),
            final(self).pushes@.len() == old(self).pushes@.len(),
            final(self).input == old(self).input,
            final(self).emitted == old(self).emitted,
            final(self).worker == old(self).worker,
            final(self).calls == old(self).calls,
            extends(final(self).reports@, old(self).reports@),
            ({
                let nr = added(final(self).reports@, old(self).reports@);
                &&& r is Ok ==> all_ok(nr)
                &&& r is Err ==> nr.len() > 0 && nr.last() == r && all_ok(nr.drop_last())
            }),
    {
        proof {
            assert(added(self.reports@, old(self).reports@) =~= Seq::<Result<(), Error>>::empty());
        }
        let n = self.workers.len();
        let mut i: usize = 0;
        while i < n
            invariant
                n == self.workers@.len(),
                n == old(self).workers@.len(),
                i <= n,
                self.pushes@.len() == old(self).pushes@.len(),
                self.input == old(self).input,
                self.emitted == old(self).emitted,
                self.worker == old(self).worker,
                self.calls == old(self).calls,
                extends(self.reports@, old(self).reports@),
                all_ok(added(self.reports@, old(self).reports@)),
            decreases n - i,
        {
            let ghost reports_before = self.reports@;
            let result = self.workers[i].work();
            self.reports = Ghost(self.reports@.push(result));
            proof {
                assert(added(self.reports@, old(self).reports@) =~= added(reports_before, old(self).reports@).push(result));
                assert(added(self.reports@, old(self).reports@).drop_last() =~= added(reports_before, old(self).reports@));
            }
            self.propagate_if_closed(result)?;
            i = i + 1;
        }
        Ok(())
    }

    /// What one step promises of the node before it (`before`) and after it
    /// (`after`) when it returned `r`:
    ///
    /// - it emitted a run of data, optionally closed by the signal it took
    ///   from its input last, and something when it succeeded;
    /// - the routine was sent every data message taken from the input and
    ///   flushed once for every flush taken; when the step succeeded, what it
    ///   emitted as data is exactly what the routine handed out during it;
    /// - a flush was forwarded only after the routine, flushed, was asked for
    ///   output until it answered that it had no more;
    /// - when the input was closed before the step and the routine had
    ///   nothing to hand out, or a parent reported `Closed`, the step closed
    ///   every output, emitted nothing and reported `Closed`; when the input
    ///   closed during the step, it closed every output and reported `Closed`.
    pub open spec fn stepped(before: Self, after: Self, r: Result<(), Error>) -> bool {
        let new = added(after.emitted@, before.emitted@);
        let got = added(after.input.received(), before.input.received());
        let nc = added(after.calls@, before.calls@);
        let nr = added(after.reports@, before.reports@);
        &&& extends(after.emitted@, before.emitted@)
        &&& signal_last(new)
        &&& r is Ok ==> new.len() > 0
        &&& new.len() > 0 && !(new.last() is Data) ==> after.input.received().len() > 0
            && same_signal(new.last(), after.input.received().last())
        &&& after.input.closed() && !before.input.closed() ==> is_closed_err(r) && all_closed(after.pushes@)
        &&& after.pushes@.len() == before.pushes@.len()
        &&& extends(after.input.received(), before.input.received())
        &&& extends(after.calls@, before.calls@)
        &&& extends(after.reports@, before.reports@)
        &&& fed_of(nc) == data_of(got)
        &&& flushes_of(nc) == flushes_in(got)
        &&& r is Ok ==> data_of(new) == outputs_of(nc)
        &&& r is Ok && new.len() > 0 && new.last() is Flush ==> drained_after_flush(nc)
        &&& before.input.closed() && nc.len() > 0 && nc[0] == Call::<In, Out>::Asked(Ok(None)) ==> is_closed_err(r)
            && all_closed(after.pushes@) && new.len() == 0
        &&& heard_closed(nr) ==> is_closed_err(r) && all_closed(after.pushes@) && new.len() == 0
    }

    /// Work this node once; see [`Line`] and [`Workable::work`].
    pub fn step(&mut self) -> (r: Result<(), Error>)
        ensures
            Self::stepped(*old(self), *final(self), r),
    {
        proof {
            assert(added(self.input.received(), old(self).input.received()) =~= Seq::<Message<In, S>>::empty());
            assert(added(self.reports@, old(self).reports@) =~= Seq::<Result<(), Error>>::empty());
        }
        // Emit the routine's buffered output first.
        let first = self.next_output();
        proof {
            let c = asked_as_data::<In, Out, S>(first);
            assert(added(self.calls@, old(self).calls@) =~= seq![c]);
            lemma_call_push(Seq::<Call<In, Out>>::empty(), c);
            assert(seq![c] =~= Seq::<Call<In, Out>>::empty().push(c));
        }
        if let Some(message) = first? {
            let ghost before = self.emitted@;
            proof {
                lemma_data_then(old(self).emitted@, before, message);
                lemma_data_of_push(added(before, old(self).emitted@), message);
                assert(added(before, old(self).emitted@) =~= Seq::<Message<Out, S>>::empty());
                assert(self.input.received() =~= old(self).input.received());
            }
            let pushed = self.push(message);
            proof {
                if pushed is Ok {
                    assert(added(self.emitted@, old(self).emitted@) =~= seq![message]);
                }
            }
            return pushed;
        }
        let mut rounds: u64 = 0;
        loop
            invariant
                self.emitted@ == old(self).emitted@,
                self.pushes@.len() == old(self).pushes@.len(),
                self.input.closed() == old(self).input.closed(),
                old(self).input.closed() ==> rounds == 0,
                extends(self.input.received(), old(self).input.received()),
                extends(self.calls@, old(self).calls@),
                extends(self.reports@, old(self).reports@),
                all_ok(added(self.reports@, old(self).reports@)),
                ({
                    let nc = added(self.calls@, old(self).calls@);
                    let got = added(self.input.received(), old(self).input.received());
                    &&& nc.len() > 0
                    &&& nc[0] == Call::<In, Out>::Asked(Ok(None))
                    &&& fed_of(nc) == data_of(got)
                    &&& flushes_of(nc) == flushes_in(got)
                    &&& outputs_of(nc) == Seq::<Out>::empty()
                }),
            decreases ROUND_LIMIT - rounds,
        {
            if rounds == ROUND_LIMIT {
                return Err(Error::fatal("parents never produced input"));
            }
            rounds = rounds + 1;
            let ghost got_before = self.input.received();
            let ghost reports_before = self.reports@;
            let polled = self.input.poll();
            let message = match self.propagate_if_closed(polled)? {
                Some(message) => Some(message),
                None => {
                    if self.workers.len() == 0 {
                        // Nobody else can produce input: wait for it.
                        let waited = self.input.wait();
                        Some(self.propagate_if_closed(waited)?)
                    } else {
                        let worked = self.work_parents();
                        proof {
                            let nr0 = added(reports_before, old(self).reports@);
                            let nr1 = added(self.reports@, reports_before);
                            let nr = added(self.reports@, old(self).reports@);
                            assert forall|i: int| 0 <= i < nr.len() - nr1.len() implies nr[i] == nr0[i] by {}
                            assert forall|i: int| nr.len() - nr1.len() <= i < nr.len() implies nr[i] == nr1[i - (nr.len() - nr1.len())] by {}
                            if worked is Ok {
                                assert(all_ok(nr));
                            } else {
                                if heard_closed(nr) {
                                    let i = choose|i: int| 0 <= i < nr.len() && is_closed_err(#[trigger] nr[i]);
                                    if i < nr.len() - 1 {
                                        assert(nr1.drop_last()[i - (nr.len() - nr1.len())] == nr[i]);
                                    }
                                }
                            }
                        }
                        worked?;
                        None
                    }
                },
            };
            let ghost taken_message = message;
            let ghost calls_before = self.calls@;
            proof {
                if let Some(m) = taken_message {
                    lemma_data_of_push(added(got_before, old(self).input.received()), m);
                    assert(added(self.input.received(), old(self).input.received())
                        =~= added(got_before, old(self).input.received()).push(m));
                } else {
                    assert(self.input.received() == got_before);
                }
            }
            match message {
                Some(Message::Data(data)) => {
                    let sent = self.feed(data);
                    proof {
                        let c = Call::<In, Out>::Sent(data, sent);
                        lemma_call_push(added(calls_before, old(self).calls@), c);
                        assert(added(self.calls@, old(self).calls@) =~= added(calls_before, old(self).calls@).push(c));
                    }
                    sent?;
                    let ghost calls_mid = self.calls@;
                    let next = self.next_output();
                    proof {
                        let c = asked_as_data::<In, Out, S>(next);
                        lemma_call_push(added(calls_mid, old(self).calls@), c);
                        assert(added(self.calls@, old(self).calls@) =~= added(calls_mid, old(self).calls@).push(c));
                    }
                    if let Some(message) = next? {
                        let ghost before = self.emitted@;
                        proof {
                            lemma_data_then(old(self).emitted@, before, message);
                            lemma_data_of_push(added(before, old(self).emitted@), message);
                            assert(added(before, old(self).emitted@) =~= Seq::<Message<Out, S>>::empty());
                        }
                        let pushed = self.push(message);
                        proof {
                            if pushed is Ok {
                                assert(added(self.emitted@, old(self).emitted@) =~= seq![message]);
                            }
                        }
                        return pushed;
                    }
                },
                Some(Message::Flush(origin)) => {
                    let flushed = self.flush_worker();
                    proof {
                        let c = Call::<In, Out>::Flushed(flushed);
                        lemma_call_push(added(calls_before, old(self).calls@), c);
                        assert(added(self.calls@, old(self).calls@) =~= added(calls_before, old(self).calls@).push(c));
                    }
                    flushed?;
                    let ghost before_drain = self.emitted@;
                    let ghost calls_mid = self.calls@;
                    let drained = self.drain_output();
                    proof {
                        lemma_data_extends(old(self).emitted@, before_drain, self.emitted@);
                        let pre = added(calls_mid, old(self).calls@);
                        let dc = added(self.calls@, calls_mid);
                        let nc = added(self.calls@, old(self).calls@);
                        assert(nc =~= pre + dc);
                        lemma_calls_concat(pre, dc);
                        assert(added(self.emitted@, old(self).emitted@) =~= added(self.emitted@, before_drain));
                        if drained is Ok {
                            let k = pre.len() - 1;
                            assert(nc[k] == Call::<In, Out>::Flushed(Ok(())));
                            assert forall|j: int| k < j < nc.len() - 1 implies (#[trigger] nc[j]) matches Call::Asked(Ok(Some(_))) by {
                                assert(nc[j] == dc.drop_last()[j - pre.len()]);
                            }
                            assert(nc.last() == dc.last());
                            assert(drained_after_flush(nc));
                        }
                    }
                    drained?;
                    let ghost before = self.emitted@;
                    proof {
                        lemma_data_then(old(self).emitted@, before, Message::Flush(origin));
                        lemma_data_of_push(added(before, old(self).emitted@), Message::Flush(origin));
                    }
                    let pushed = self.push(Message::Flush(origin));
                    proof {
                        if pushed is Ok {
                            assert(added(self.emitted@, old(self).emitted@) =~= added(before, old(self).emitted@).push(Message::Flush(origin)));
                        }
                    }
                    return pushed;
                },
                Some(Message::Marker(origin)) => {
                    let ghost before = self.emitted@;
                    proof {
                        lemma_data_then(old(self).emitted@, before, Message::Marker(origin));
                        lemma_data_of_push(added(before, old(self).emitted@), Message::Marker(origin));
                        assert(added(before, old(self).emitted@) =~= Seq::<Message<Out, S>>::empty());
                    }
                    let pushed = self.push(Message::Marker(origin));
                    proof {
                        if pushed is Ok {
                            assert(added(self.emitted@, old(self).emitted@) =~= seq![Message::Marker(origin)]);
                        }
                    }
                    return pushed;
                },
                None => {},
            }
        }
    }

    /// Add a parent for this node to schedule.
    pub fn add_worker(&mut self, workable: Box<dyn Workable>)
        ensures
            final(self).workers@ == old(self).workers@.push(workable),
            final(self).workers@.len() == old(self).workers@.len() + 1,
            final(self).worker == old(self).worker,
            final(self).pushes == old(self).pushes,
            final(self).input == old(self).input,
    {
        proof {
            lemma_push(self.workers@, workable);
        }
        self.workers.push(workable);
    }

    /// Add an output edge.
    pub fn add_push(&mut self, output: Box<dyn Closeable<Out, S>>)
        ensures
            final(self).pushes@ == old(self).pushes@.push(output),
            final(self).pushes@.len() == old(self).pushes@.len() + 1,
            final(self).workers == old(self).workers,
            final(self).input == old(self).input,
    {
        proof {
            lemma_push(self.pushes@, output);
        }
        self.pushes.push(output);
    }
}

impl<In, Out: Clone, S: Clone, R: LineRoutine<In, Out>> Workable for Line<In, Out, S, R> {
    fn work(&mut self) -> (r: Result<(), Error>)
        ensures
            Self::stepped(*old(self), *final(self), r),
    {
        self.step()
    }
}

impl<In, Out: Clone, S: Clone, R: LineRoutine<In, Out>> InputSide<In, S> for Line<In, Out, S, R> {
    fn input_sender(&self) -> EdgeSender<In, S> {
        self.input.sender()
    }
}

impl<In, Out: Clone, S: Clone, R: LineRoutine<In, Out>> OutputSide<Out, S> for Line<In, Out, S, R> {
    open spec fn takes_every_output(&self) -> bool {
        true
    }

    open spec fn output_count(&self) -> nat {
        self.pushes@.len()
    }

    fn add_output(&mut self, output: Box<dyn Closeable<Out, S>>) -> (r: Result<(), Error>)
        ensures
            r is Ok,
            final(self).pushes@ == old(self).pushes@.push(output),
            final(self).workers == old(self).workers,
    {
        proof {
            lemma_push(self.pushes@, output);
        }
        self.pushes.push(output);
        Ok(())
    }
}

impl<In, Out: Clone, S: Clone, R: LineRoutine<In, Out>> ParentSide for Line<In, Out, S, R> {
    open spec fn takes_every_parent(&self) -> bool {
        true
    }

    open spec fn parent_count(&self) -> nat {
        self.workers@.len()
    }

    fn add_workable(&mut self, workable: Box<dyn Workable>) -> (r: Result<(), Error>)
        ensures
            r is Ok,
            final(self).workers@ == old(self).workers@.push(workable),
            final(self).pushes == old(self).pushes,
    {
        proof {
            lemma_push(self.workers@, workable);
        }
        self.workers.push(workable);
        Ok(())
    }
}

impl<In, Out: Clone, S: Clone, R: LineRoutine<In, Out>> LineTrait for Line<In, Out, S, R> {
    type In = In;
    type Out = Out;
    type Signal = S;
}

/// A boxed [`Line`] running `worker`, ready to be connected to other nodes.
pub fn make_line<In, Out: Clone, S: Clone, R: LineRoutine<In, Out>>(worker: R) -> (l: Box<Line<In, Out, S, R>>)
    ensures
        l.worker == worker,
        l.workers@.len() == 0,
        l.pushes@.len() == 0,
        !l.input.closed(),
        l.input.received().len() == 0,
        l.emitted@.len() == 0,
        l.calls@.len() == 0,
        l.reports@.len() == 0,
{
    Box::new(Line::of(worker))
}

} // verus!
