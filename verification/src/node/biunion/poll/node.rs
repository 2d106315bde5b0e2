//! A polled biunion node, split into left input, right input, work and
//! output phases that share one state.
use crate::edge::Edge;
use crate::error::{Error, ErrorKind};
use crate::graph::{Closeable, ROUND_LIMIT};
use crate::message::{
    added, all_data, data_of, ends_with, extends, flushes_in, lemma_data_of_push, lemma_data_then, same_signal, signal_last, Message,
};
use crate::node::biunion::marker::{Left, Right};
use crate::node::layout::{PhaseKind, Pollable};
use crate::node::biunion::poll::routine::BiunionRoutine;
use crate::node::routine::{fed_of, flushes_of, lemma_call_push, outputs_of, Call, Flush, Next, Poll, Readiness, Send};
use crate::node::line::work::node::all_outputs;
use crate::node::line::poll::node::{asked_until_none, only_inputs};
use crate::node::state::{flush_done, work_outcome, NodeState, WorkOutcome};
use vstd::prelude::*;

verus! {

/// A phase: what it works on, and whether it has been woken.
pub struct Phase<T> {
    pub target: T,
    pub woken: bool,
}

/// Both input phases.
pub struct Inputs<LI, RI> {
    pub left: Phase<LI>,
    pub right: Phase<RI>,
}

/// The four phases of a polled biunion node and their shared state.
#[verifier::reject_recursive_types(L)]
#[verifier::reject_recursive_types(R)]
#[verifier::reject_recursive_types(S)]
pub struct Phases<L, R, Out, S, W, O> {
    pub inputs: Inputs<Edge<L, S>, Edge<R, S>>,
    pub work: Phase<W>,
    pub output: Phase<O>,
    pub state: NodeState<S>,
    /// Every call this node made on its routine, oldest first.
    pub calls: Ghost<Seq<Call<Sided<L, R>, Out>>>,
    pub phantom: core::marker::PhantomData<Out>,
}

/// An input of a two-input routine, with the side it went to.
pub enum Sided<L, R> {
    Left(L),
    Right(R),
}

/// `data`, each sent to the left input.
pub open spec fn to_left<L, R>(data: Seq<L>) -> Seq<Sided<L, R>> {
    data.map_values(|x: L| Sided::<L, R>::Left(x))
}

/// `data`, each sent to the right input.
pub open spec fn to_right<L, R>(data: Seq<R>) -> Seq<Sided<L, R>> {
    data.map_values(|x: R| Sided::<L, R>::Right(x))
}

/// The phases of a polled biunion node over the given inputs, routine and output.
pub fn new_phases<L, R, Out, S, W: BiunionRoutine<L, R, Out>, O: Closeable<Out, S>>(
    input: Inputs<Edge<L, S>, Edge<R, S>>,
    work: Phase<W>,
    output: Phase<O>,
) -> (p: Phases<L, R, Out, S, W, O>)
    ensures
        p.inputs == input,
        p.work == work,
        p.output == output,
        p.state == NodeState::<S>::Running,
        p.calls@.len() == 0,
{
    Phases { inputs: input, work, output, state: NodeState::Running, calls: Ghost(Seq::empty()), phantom: core::marker::PhantomData }
}

impl<L, R, Out, S, W: BiunionRoutine<L, R, Out>, O: Closeable<Out, S>> Phases<L, R, Out, S, W, O> {
    /// Forget every wake.
    pub fn reset_woken(&mut self)
        ensures
            !final(self).inputs.left.woken && !final(self).inputs.right.woken,
            !final(self).work.woken && !final(self).output.woken,
            final(self).state == old(self).state,
            final(self).inputs.left.target == old(self).inputs.left.target,
            final(self).inputs.right.target == old(self).inputs.right.target,
            final(self).output.target == old(self).output.target,
    {
        self.inputs.left.woken = false;
        self.inputs.right.woken = false;
        self.work.woken = false;
        self.output.woken = false;
    }

    /// What the left input phase promises of the node before it (`before`)
    /// and after it (`after`) when it returned `r`.
    pub open spec fn left_polled(before: Self, after: Self, r: Result<Readiness, Error>) -> bool {
        let received = after.inputs.left.target.received();
        &&& after.output.target == before.output.target
        &&& after.inputs.right.target == before.inputs.right.target
        &&& before.state.closing() ==> (r matches Err(e) && e.kind == ErrorKind::Closed)
            && after.state == before.state
        &&& !(before.state is Running) && !before.state.closing() ==> r == Ok::<Readiness, Error>(Readiness::Pending)
            && after.state == before.state && after.inputs == before.inputs
        &&& before.state is Running ==> {
            &&& extends(received, before.inputs.left.target.received())
            &&& after.state is CloseReady ==> (r matches Err(e) && e.kind == ErrorKind::Closed)
                && after.work.woken && after.output.woken && after.inputs.right.woken
            &&& r is Ok ==> r == Ok::<Readiness, Error>(Readiness::Pending)
            &&& after.state matches NodeState::Flushing(s) ==> after.work.woken && received.len() > 0
                && received.last() == Message::<L, S>::Flush(s)
            &&& after.state matches NodeState::MarkerReady(s) ==> after.work.woken && received.len() > 0
                && received.last() == Message::<L, S>::Marker(s)
            &&& extends(after.calls@, before.calls@)
            &&& ({
                let got = added(received, before.inputs.left.target.received());
                let nc = added(after.calls@, before.calls@);
                &&& only_inputs(nc)
                &&& fed_of(nc) == to_left::<L, R>(data_of(got))
                &&& flushes_of(nc) == flushes_in(got)
            })
            &&& after.state is Running && r is Ok ==> after.inputs.left.target.empty_polls()
                == before.inputs.left.target.empty_polls() + 1
            &&& after.inputs.left.target.closed() <==> after.state is CloseReady
        }
        &&& !(before.state is Running) ==> after.calls == before.calls
    }

    /// What the right input phase promises of the node before it (`before`)
    /// and after it (`after`) when it returned `r`.
    pub open spec fn right_polled(before: Self, after: Self, r: Result<Readiness, Error>) -> bool {
        let received = after.inputs.right.target.received();
        &&& after.output.target == before.output.target
        &&& after.inputs.left.target == before.inputs.left.target
        &&& before.state.closing() ==> (r matches Err(e) && e.kind == ErrorKind::Closed)
            && after.state == before.state
        &&& !(before.state is Running) && !before.state.closing() ==> r == Ok::<Readiness, Error>(Readiness::Pending)
            && after.state == before.state && after.inputs == before.inputs
        &&& before.state is Running ==> {
            &&& extends(received, before.inputs.right.target.received())
            &&& after.state is CloseReady ==> (r matches Err(e) && e.kind == ErrorKind::Closed)
                && after.work.woken && after.output.woken && after.inputs.left.woken
            &&& r is Ok ==> r == Ok::<Readiness, Error>(Readiness::Pending)
            &&& after.state matches NodeState::Flushing(s) ==> after.work.woken && received.len() > 0
                && received.last() == Message::<R, S>::Flush(s)
            &&& after.state matches NodeState::MarkerReady(s) ==> after.work.woken && received.len() > 0
                && received.last() == Message::<R, S>::Marker(s)
            &&& extends(after.calls@, before.calls@)
            &&& ({
                let got = added(received, before.inputs.right.target.received());
                let nc = added(after.calls@, before.calls@);
                &&& only_inputs(nc)
                &&& fed_of(nc) == to_right::<L, R>(data_of(got))
                &&& flushes_of(nc) == flushes_in(got)
            })
            &&& after.state is Running && r is Ok ==> after.inputs.right.target.empty_polls()
                == before.inputs.right.target.empty_polls() + 1
            &&& after.inputs.right.target.closed() <==> after.state is CloseReady
        }
        &&& !(before.state is Running) ==> after.calls == before.calls
    }

    /// What the work phase promises of the node before it (`before`) and
    /// after it (`after`) when it returned `r`.
    pub open spec fn work_polled(before: Self, after: Self, r: Result<Readiness, Error>) -> bool {
        &&& after.output.target == before.output.target
        &&& after.inputs.left.target == before.inputs.left.target
        &&& after.inputs.right.target == before.inputs.right.target
        &&& before.state.closing() ==> (r matches Err(e) && e.kind == ErrorKind::Closed)
            && after.state == before.state
        &&& before.state is FlushReady ==> r == Ok::<Readiness, Error>(Readiness::Pending)
            && after.state == before.state
        &&& !before.state.closing() ==> (r matches Err(e) ==> e.kind != ErrorKind::Closed)
        &&& !before.state.closing() && r is Ok ==> r == Ok::<Readiness, Error>(Readiness::Pending)
        &&& before.state is Running && r is Ok ==> after.state == before.state
        &&& before.state is MarkerReady && r is Ok ==> after.state == before.state && after.output.woken
        &&& before.state matches NodeState::Flushing(s) ==> (r is Ok ==> after.state == before.state
            || (after.state == NodeState::FlushReady(s) && after.output.woken))
        &&& r is Err ==> after.state == before.state
        &&& before.state.closing() || before.state is FlushReady ==> after.work.target == before.work.target
            && after.calls == before.calls
        &&& !before.state.closing() && !(before.state is FlushReady) ==> {
            &&& after.calls@.len() == before.calls@.len() + 1
            &&& after.calls@.drop_last() == before.calls@
            &&& after.calls@.last() is Polled
            &&& match after.calls@.last()->Polled_0 {
                Err(e) => if e.kind == ErrorKind::Closed {
                    r matches Err(f) && f.kind == ErrorKind::Fatal
                } else {
                    r == Err::<Readiness, Error>(e)
                },
                Ok(Readiness::Ready) => if before.state is Flushing {
                    r is Ok
                } else {
                    r matches Err(f) && f.kind == ErrorKind::Fatal
                },
                Ok(Readiness::Pending) => r == Ok::<Readiness, Error>(Readiness::Pending),
            }
        }
    }

    /// What the output phase promises of the node before it (`before`) and
    /// after it (`after`) when it returned `r`.
    pub open spec fn output_polled(before: Self, after: Self, r: Result<Readiness, Error>) -> bool {
        let new = added(after.output.target.sent(), before.output.target.sent());
        let nc = added(after.calls@, before.calls@);
        &&& after.inputs.left.target == before.inputs.left.target
        &&& after.inputs.right.target == before.inputs.right.target
        &&& extends(after.output.target.sent(), before.output.target.sent())
        &&& extends(after.calls@, before.calls@)
        &&& before.state is Closed ==> (r matches Err(e) && e.kind == ErrorKind::Closed)
            && after.state == before.state && after.output.target.sent() == before.output.target.sent() && nc.len() == 0
        &&& before.state is CloseReady ==> {
            &&& r is Err && all_data(new)
            &&& nc.len() > 0
            &&& after.state is Closed || after.state == before.state
            &&& Self::output_drained(before, after) ==> after.output.target.is_closed()
            &&& after.state is Closed ==> after.output.target.is_closed() && Self::output_drained(before, after)
                && (r matches Err(e) && e.kind == ErrorKind::Closed)
            &&& nc.last() matches Call::Asked(Err(e)) ==> r == Err::<Readiness, Error>(e)
        }
        &&& before.state is Running || before.state is Flushing ==> after.state == before.state && all_data(new)
            && (r is Ok ==> Self::output_drained(before, after))
        &&& before.state matches NodeState::FlushReady(s) ==> (r is Ok ==> {
            &&& new.len() > 0 && new.last() == Message::<Out, S>::Flush(s)
            &&& all_data(new.drop_last())
            &&& after.state is Running
            &&& after.inputs.left.woken && after.inputs.right.woken
            &&& Self::output_drained(before, after)
        })
        &&& before.state matches NodeState::MarkerReady(s) ==> (r is Ok ==> {
            &&& new.len() > 0 && new.last() == Message::<Out, S>::Marker(s)
            &&& all_data(new.drop_last())
            &&& after.state is Running
            &&& after.inputs.left.woken && after.inputs.right.woken
            &&& Self::output_drained(before, after)
        })
        &&& r is Ok ==> r == Ok::<Readiness, Error>(Readiness::Pending)
    }

    /// Between `before` and `after` the routine was asked for output until
    /// it had none, and each output it handed out was pushed, in order, into
    /// the output edge.
    pub open spec fn output_drained(before: Self, after: Self) -> bool {
        asked_until_none(added(after.calls@, before.calls@), data_of(added(after.output.target.sent(), before.output.target.sent())))
    }

    /// A signal passes through: when an input phase of a running node takes
    /// a flush or a marker (the left one when `from_left`), the work phase
    /// then finds the routine ready for it, and the output phase succeeds,
    /// the output edge receives data and then that very signal, and the node
    /// is running again.
    pub proof fn signal_passes_through(
        a: Self,
        b: Self,
        c: Self,
        d: Self,
        from_left: bool,
        r_input: Result<Readiness, Error>,
        r_work: Result<Readiness, Error>,
        r_output: Result<Readiness, Error>,
    )
        requires
            from_left ==> Self::left_polled(a, b, r_input),
            !from_left ==> Self::right_polled(a, b, r_input),
            Self::work_polled(b, c, r_work),
            Self::output_polled(c, d, r_output),
            a.state is Running,
            b.state is Flushing || b.state is MarkerReady,
            c.state is FlushReady || c.state is MarkerReady,
            r_output is Ok,
        ensures
            ({
                let new = added(d.output.target.sent(), c.output.target.sent());
                &&& new.len() > 0
                &&& all_data(new.drop_last())
                &&& from_left ==> b.inputs.left.target.received().len() > 0
                    && same_signal(new.last(), b.inputs.left.target.received().last())
                &&& !from_left ==> b.inputs.right.target.received().len() > 0
                    && same_signal(new.last(), b.inputs.right.target.received().last())
            }),
            d.state is Running,
    {
    }

    /// Drain the left edge into the routine.
    fn drain_left(&mut self) -> (r: Result<(), Error>)
        requires
            old(self).state is Running,
        ensures
            old(self).inputs.left.target.closed() ==> r is Ok && final(self).state is CloseReady,
            final(self).output.target == old(self).output.target,
            final(self).inputs.right.target == old(self).inputs.right.target,
            extends(final(self).inputs.left.target.received(), old(self).inputs.left.target.received()),
            final(self).state is Running || final(self).state is Flushing || final(self).state is MarkerReady
                || final(self).state is CloseReady,
            final(self).state matches NodeState::Flushing(s) ==> final(self).work.woken
                && final(self).inputs.left.target.received().len() > 0
                && final(self).inputs.left.target.received().last() == Message::<L, S>::Flush(s),
            final(self).state matches NodeState::MarkerReady(s) ==> final(self).work.woken
                && final(self).inputs.left.target.received().len() > 0
                && final(self).inputs.left.target.received().last() == Message::<L, S>::Marker(s),
            final(self).state is CloseReady ==> final(self).inputs.left.target.closed() && final(self).work.woken
                && final(self).output.woken && final(self).inputs.right.woken,
            !(final(self).state is CloseReady) ==> !final(self).inputs.left.target.closed(),
            final(self).inputs.left.woken == old(self).inputs.left.woken,
            extends(final(self).calls@, old(self).calls@),
            ({
                let got = added(final(self).inputs.left.target.received(), old(self).inputs.left.target.received());
                let nc = added(final(self).calls@, old(self).calls@);
                &&& only_inputs(nc)
                &&& fed_of(nc) == to_left::<L, R>(data_of(got))
                &&& flushes_of(nc) == flushes_in(got)
                &&& final(self).state is Running && r is Ok ==> final(self).inputs.left.target.empty_polls()
                    == old(self).inputs.left.target.empty_polls() + 1
                &&& signal_last(got)
                &&& final(self).state is Running && r is Ok ==> all_data(got)
                &&& final(self).state is Flushing || final(self).state is MarkerReady ==> got.len() > 0
            }),
    {
        proof {
            assert(added(self.inputs.left.target.received(), old(self).inputs.left.target.received())
                =~= Seq::<Message<L, S>>::empty());
            assert(added(self.calls@, old(self).calls@) =~= Seq::<Call<Sided<L, R>, Out>>::empty());
            assert(to_left::<L, R>(Seq::<L>::empty()) =~= Seq::<Sided<L, R>>::empty());
        }
        let mut rounds: u64 = 0;
        while rounds < ROUND_LIMIT
            invariant
                self.state is Running,
                self.output == old(self).output,
                self.inputs.left.woken == old(self).inputs.left.woken,
                self.inputs.right.woken == old(self).inputs.right.woken,
                self.inputs.right.target == old(self).inputs.right.target,
                extends(self.inputs.left.target.received(), old(self).inputs.left.target.received()),
                rounds == 0 ==> self.inputs.left.target == old(self).inputs.left.target,
                old(self).inputs.left.target.closed() ==> rounds == 0,
                all_data(added(self.inputs.left.target.received(), old(self).inputs.left.target.received())),
                rounds > 0 ==> !self.inputs.left.target.closed(),
                self.inputs.left.target.empty_polls() == old(self).inputs.left.target.empty_polls(),
                extends(self.calls@, old(self).calls@),
                ({
                    let got = added(self.inputs.left.target.received(), old(self).inputs.left.target.received());
                    let nc = added(self.calls@, old(self).calls@);
                    &&& only_inputs(nc)
                    &&& fed_of(nc) == to_left::<L, R>(data_of(got))
                    &&& flushes_of(nc) == flushes_in(got)
                }),
            decreases ROUND_LIMIT - rounds,
        {
            rounds = rounds + 1;
            let ghost got_before = self.inputs.left.target.received();
            let ghost calls_before = self.calls@;
            let polled = self.inputs.left.target.poll();
            let ghost polled_message = polled;
            proof {
                if let Ok(Some(m)) = polled_message {
                    lemma_data_of_push(added(got_before, old(self).inputs.left.target.received()), m);
                    assert(added(self.inputs.left.target.received(), old(self).inputs.left.target.received())
                        =~= added(got_before, old(self).inputs.left.target.received()).push(m));
                    lemma_data_then(old(self).inputs.left.target.received(), got_before, m);
                } else {
                    assert(self.inputs.left.target.received() == got_before);
                }
            }
            match polled {
                Ok(Some(Message::Data(data))) => {
                    let ghost d = data;
                    let sent = crate::node::routine::Send::<L, Left>::send(&mut self.work.target, data);
                    self.calls = Ghost(self.calls@.push(Call::Sent(Sided::Left(d), sent)));
                    proof {
                        let c = Call::<Sided<L, R>, Out>::Sent(Sided::Left(d), sent);
                        let got0 = data_of(added(got_before, old(self).inputs.left.target.received()));
                        lemma_call_push(added(calls_before, old(self).calls@), c);
                        assert(added(self.calls@, old(self).calls@) =~= added(calls_before, old(self).calls@).push(c));
                        assert(to_left::<L, R>(got0.push(d)) =~= to_left::<L, R>(got0).push(Sided::Left(d)));
                    }
                    sent?;
                },
                Ok(Some(Message::Flush(signal))) => {
                    let flushed = self.work.target.flush();
                    self.calls = Ghost(self.calls@.push(Call::Flushed(flushed)));
                    proof {
                        let c = Call::<Sided<L, R>, Out>::Flushed(flushed);
                        lemma_call_push(added(calls_before, old(self).calls@), c);
                        assert(added(self.calls@, old(self).calls@) =~= added(calls_before, old(self).calls@).push(c));
                    }
                    flushed?;
                    self.state = NodeState::Flushing(signal);
                    self.work.woken = true;
                    return Ok(());
                },
                Ok(Some(Message::Marker(signal))) => {
                    self.state = NodeState::MarkerReady(signal);
                    self.work.woken = true;
                    return Ok(());
                },
                Ok(None) => return Ok(()),
                Err(_) => {
                    // Fast close; wake the other input so it sees the close.
                    self.state = NodeState::CloseReady;
                    self.work.woken = true;
                    self.output.woken = true;
                    self.inputs.right.woken = true;
                    return Ok(());
                },
            }
        }
        Err(Error::fatal("input never ran dry"))
    }

    /// Drain the right edge into the routine.
    fn drain_right(&mut self) -> (r: Result<(), Error>)
        requires
            old(self).state is Running,
        ensures
            old(self).inputs.right.target.closed() ==> r is Ok && final(self).state is CloseReady,
            final(self).output.target == old(self).output.target,
            final(self).inputs.left.target == old(self).inputs.left.target,
            extends(final(self).inputs.right.target.received(), old(self).inputs.right.target.received()),
            final(self).state is Running || final(self).state is Flushing || final(self).state is MarkerReady
                || final(self).state is CloseReady,
            final(self).state matches NodeState::Flushing(s) ==> final(self).work.woken
                && final(self).inputs.right.target.received().len() > 0
                && final(self).inputs.right.target.received().last() == Message::<R, S>::Flush(s),
            final(self).state matches NodeState::MarkerReady(s) ==> final(self).work.woken
                && final(self).inputs.right.target.received().len() > 0
                && final(self).inputs.right.target.received().last() == Message::<R, S>::Marker(s),
            final(self).state is CloseReady ==> final(self).inputs.right.target.closed() && final(self).work.woken
                && final(self).output.woken && final(self).inputs.left.woken,
            !(final(self).state is CloseReady) ==> !final(self).inputs.right.target.closed(),
            final(self).inputs.right.woken == old(self).inputs.right.woken,
            extends(final(self).calls@, old(self).calls@),
            ({
                let got = added(final(self).inputs.right.target.received(), old(self).inputs.right.target.received());
                let nc = added(final(self).calls@, old(self).calls@);
                &&& only_inputs(nc)
                &&& fed_of(nc) == to_right::<L, R>(data_of(got))
                &&& flushes_of(nc) == flushes_in(got)
                &&& final(self).state is Running && r is Ok ==> final(self).inputs.right.target.empty_polls()
                    == old(self).inputs.right.target.empty_polls() + 1
                &&& signal_last(got)
                &&& final(self).state is Running && r is Ok ==> all_data(got)
                &&& final(self).state is Flushing || final(self).state is MarkerReady ==> got.len() > 0
            }),
    {
        proof {
            assert(added(self.inputs.right.target.received(), old(self).inputs.right.target.received())
                =~= Seq::<Message<R, S>>::empty());
            assert(added(self.calls@, old(self).calls@) =~= Seq::<Call<Sided<L, R>, Out>>::empty());
            assert(to_right::<L, R>(Seq::<R>::empty()) =~= Seq::<Sided<L, R>>::empty());
        }
        let mut rounds: u64 = 0;
        while rounds < ROUND_LIMIT
            invariant
                self.state is Running,
                self.output == old(self).output,
                self.inputs.left.woken == old(self).inputs.left.woken,
                self.inputs.right.woken == old(self).inputs.right.woken,
                self.inputs.left.target == old(self).inputs.left.target,
                extends(self.inputs.right.target.received(), old(self).inputs.right.target.received()),
                rounds == 0 ==> self.inputs.right.target == old(self).inputs.right.target,
                old(self).inputs.right.target.closed() ==> rounds == 0,
                all_data(added(self.inputs.right.target.received(), old(self).inputs.right.target.received())),
                rounds > 0 ==> !self.inputs.right.target.closed(),
                self.inputs.right.target.empty_polls() == old(self).inputs.right.target.empty_polls(),
                extends(self.calls@, old(self).calls@),
                ({
                    let got = added(self.inputs.right.target.received(), old(self).inputs.right.target.received());
                    let nc = added(self.calls@, old(self).calls@);
                    &&& only_inputs(nc)
                    &&& fed_of(nc) == to_right::<L, R>(data_of(got))
                    &&& flushes_of(nc) == flushes_in(got)
                }),
            decreases ROUND_LIMIT - rounds,
        {
            rounds = rounds + 1;
            let ghost got_before = self.inputs.right.target.received();
            let ghost calls_before = self.calls@;
            let polled = self.inputs.right.target.poll();
            let ghost polled_message = polled;
            proof {
                if let Ok(Some(m)) = polled_message {
                    lemma_data_of_push(added(got_before, old(self).inputs.right.target.received()), m);
                    assert(added(self.inputs.right.target.received(), old(self).inputs.right.target.received())
                        =~= added(got_before, old(self).inputs.right.target.received()).push(m));
                    lemma_data_then(old(self).inputs.right.target.received(), got_before, m);
                } else {
                    assert(self.inputs.right.target.received() == got_before);
                }
            }
            match polled {
                Ok(Some(Message::Data(data))) => {
                    let ghost d = data;
                    let sent = crate::node::routine::Send::<R, Right>::send(&mut self.work.target, data);
                    self.calls = Ghost(self.calls@.push(Call::Sent(Sided::Right(d), sent)));
                    proof {
                        let c = Call::<Sided<L, R>, Out>::Sent(Sided::Right(d), sent);
                        let got0 = data_of(added(got_before, old(self).inputs.right.target.received()));
                        lemma_call_push(added(calls_before, old(self).calls@), c);
                        assert(added(self.calls@, old(self).calls@) =~= added(calls_before, old(self).calls@).push(c));
                        assert(to_right::<L, R>(got0.push(d)) =~= to_right::<L, R>(got0).push(Sided::Right(d)));
                    }
                    sent?;
                },
                Ok(Some(Message::Flush(signal))) => {
                    let flushed = self.work.target.flush();
                    self.calls = Ghost(self.calls@.push(Call::Flushed(flushed)));
                    proof {
                        let c = Call::<Sided<L, R>, Out>::Flushed(flushed);
                        lemma_call_push(added(calls_before, old(self).calls@), c);
                        assert(added(self.calls@, old(self).calls@) =~= added(calls_before, old(self).calls@).push(c));
                    }
                    flushed?;
                    self.state = NodeState::Flushing(signal);
                    self.work.woken = true;
                    return Ok(());
                },
                Ok(Some(Message::Marker(signal))) => {
                    self.state = NodeState::MarkerReady(signal);
                    self.work.woken = true;
                    return Ok(());
                },
                Ok(None) => return Ok(()),
                Err(_) => {
                    // Fast close; wake the other input so it sees the close.
                    self.state = NodeState::CloseReady;
                    self.work.woken = true;
                    self.output.woken = true;
                    self.inputs.left.woken = true;
                    return Ok(());
                },
            }
        }
        Err(Error::fatal("input never ran dry"))
    }

    /// The left input phase.
    pub fn poll_left(&mut self) -> (r: Result<Readiness, Error>)
        ensures
            Self::left_polled(*old(self), *final(self), r),
    {
        if self.state.is_closing() {
            return Err(Error::closed());
        }
        if !self.state.is_running() {
            return Ok(Readiness::Pending);
        }
        let drained = self.drain_left();
        if self.state.is_closing() {
            return Err(Error::closed());
        }
        drained?;
        Ok(Readiness::Pending)
    }

    /// The right input phase.
    pub fn poll_right(&mut self) -> (r: Result<Readiness, Error>)
        ensures
            Self::right_polled(*old(self), *final(self), r),
    {
        if self.state.is_closing() {
            return Err(Error::closed());
        }
        if !self.state.is_running() {
            return Ok(Readiness::Pending);
        }
        let drained = self.drain_right();
        if self.state.is_closing() {
            return Err(Error::closed());
        }
        drained?;
        Ok(Readiness::Pending)
    }

    /// The work phase.
    pub fn poll_work(&mut self) -> (r: Result<Readiness, Error>)
        ensures
            Self::work_polled(*old(self), *final(self), r),
    {
        if self.state.is_closing() {
            return Err(Error::closed());
        }
        if let NodeState::FlushReady(_) = &self.state {
            return Ok(Readiness::Pending);
        }
        let polled = self.work.target.poll();
        self.calls = Ghost(self.calls@.push(Call::Polled(polled)));
        proof {
            assert(self.calls@.drop_last() =~= old(self).calls@);
        }
        match work_outcome(&self.state, polled) {
            WorkOutcome::Pending => Ok(Readiness::Pending),
            WorkOutcome::FlushDone => {
                let mut state = NodeState::Running;
                std::mem::swap(&mut state, &mut self.state);
                self.state = flush_done(state);
                self.output.woken = true;
                Ok(Readiness::Pending)
            },
            WorkOutcome::MarkerPolled => {
                self.output.woken = true;
                Ok(Readiness::Pending)
            },
            WorkOutcome::Fail(e) => Err(e),
        }
    }

    /// Push everything the routine has into the output edge.
    fn drain_output(&mut self) -> (r: Result<(), Error>)
        ensures
            extends(final(self).output.target.sent(), old(self).output.target.sent()),
            all_data(added(final(self).output.target.sent(), old(self).output.target.sent())),
            final(self).output.target.is_closed() == old(self).output.target.is_closed(),
            final(self).output.woken == old(self).output.woken,
            final(self).state == old(self).state,
            final(self).inputs == old(self).inputs,
            extends(final(self).calls@, old(self).calls@),
            r is Ok <==> Self::output_drained(*old(self), *final(self)),
            added(final(self).calls@, old(self).calls@).len() > 0,
            ({
                let nc = added(final(self).calls@, old(self).calls@);
                nc.last() matches Call::Asked(Err(e)) ==> r == Err::<(), Error>(e)
            }),
    {
        proof {
            assert(added(self.output.target.sent(), old(self).output.target.sent()) =~= Seq::<Message<Out, S>>::empty());
            assert(added(self.calls@, old(self).calls@) =~= Seq::<Call<Sided<L, R>, Out>>::empty());
        }
        let mut rounds: u64 = 0;
        loop
            invariant
                extends(self.output.target.sent(), old(self).output.target.sent()),
                all_data(added(self.output.target.sent(), old(self).output.target.sent())),
                self.output.target.is_closed() == old(self).output.target.is_closed(),
                self.output.woken == old(self).output.woken,
                self.state == old(self).state,
                self.inputs == old(self).inputs,
                extends(self.calls@, old(self).calls@),
                all_outputs(added(self.calls@, old(self).calls@)),
                outputs_of(added(self.calls@, old(self).calls@)) == data_of(added(self.output.target.sent(), old(self).output.target.sent())),
                rounds > 0 ==> added(self.calls@, old(self).calls@).len() > 0,
            decreases ROUND_LIMIT - rounds,
        {
            if rounds == ROUND_LIMIT {
                return Err(Error::fatal("routine never ran out of output"));
            }
            rounds = rounds + 1;
            let ghost sent_before = self.output.target.sent();
            let ghost calls_before = self.calls@;
            let answer = self.work.target.next();
            self.calls = Ghost(self.calls@.push(Call::Asked(answer)));
            proof {
                let c = Call::<Sided<L, R>, Out>::Asked(answer);
                lemma_call_push(added(calls_before, old(self).calls@), c);
                assert(added(self.calls@, old(self).calls@) =~= added(calls_before, old(self).calls@).push(c));
                assert(added(self.calls@, old(self).calls@).drop_last() =~= added(calls_before, old(self).calls@));
            }
            match answer {
                Ok(Some(out)) => {
                    let ghost before = self.output.target.sent();
                    proof {
                        lemma_data_then(old(self).output.target.sent(), before, Message::<Out, S>::Data(out));
                    }
                    self.output.target.push(Message::Data(out))?;
                    proof {
                        let new0 = added(sent_before, old(self).output.target.sent());
                        lemma_data_of_push(new0, Message::<Out, S>::Data(out));
                        assert(added(self.output.target.sent(), old(self).output.target.sent()) =~= new0.push(Message::<Out, S>::Data(out)));
                    }
                },
                Ok(None) => return Ok(()),
                Err(e) => return Err(e),
            }
        }
    }

    /// The output phase.
    pub fn poll_output(&mut self) -> (r: Result<Readiness, Error>)
        ensures
            Self::output_polled(*old(self), *final(self), r),
    {
        match &self.state {
            NodeState::Closed => return Err(Error::closed()),
            NodeState::CloseReady => {
                self.drain_output()?;
                self.output.target.close()?;
                self.state = NodeState::Closed;
                return Err(Error::closed());
            },
            NodeState::FlushReady(_) | NodeState::MarkerReady(_) => {},
            _ => {
                self.drain_output()?;
                return Ok(Readiness::Pending);
            },
        }
        self.drain_output()?;
        let ghost before = self.output.target.sent();
        let mut state = NodeState::Running;
        std::mem::swap(&mut state, &mut self.state);
        let signal = match state {
            NodeState::FlushReady(s) => Message::Flush(s),
            NodeState::MarkerReady(s) => Message::Marker(s),
            _ => {
                self.state = state;
                return Err(Error::fatal("expected a pending signal"));
            },
        };
        proof {
            lemma_data_then(old(self).output.target.sent(), before, signal);
            assert(added(before.push(signal), old(self).output.target.sent()).drop_last() =~= added(before, old(self).output.target.sent()));
        }
        self.output.target.push(signal)?;
        // Signal forwarded: back to Running, both inputs can resume.
        self.inputs.left.woken = true;
        self.inputs.right.woken = true;
        Ok(Readiness::Pending)
    }
}

impl<L, R, Out, S, W: BiunionRoutine<L, R, Out>, O: Closeable<Out, S>> Pollable for Phases<L, R, Out, S, W, O> {
    /// The left input, right input, work or output phase; a biunion node
    /// has no other.
    fn poll_phase(&mut self, phase: PhaseKind) -> (r: Result<Readiness, Error>)
        ensures
            phase == PhaseKind::LeftInput ==> Self::left_polled(*old(self), *final(self), r),
            phase == PhaseKind::RightInput ==> Self::right_polled(*old(self), *final(self), r),
            phase == PhaseKind::Work ==> Self::work_polled(*old(self), *final(self), r),
            phase == PhaseKind::Output ==> Self::output_polled(*old(self), *final(self), r),
            phase == PhaseKind::Input ==> (r matches Err(e) && e.kind == ErrorKind::Fatal) && *final(self) == *old(self),
    {
        match phase {
            PhaseKind::LeftInput => self.poll_left(),
            PhaseKind::RightInput => self.poll_right(),
            PhaseKind::Work => self.poll_work(),
            PhaseKind::Output => self.poll_output(),
            PhaseKind::Input => Err(Error::fatal("a biunion node has no such phase")),
        }
    }
}

} // verus!
