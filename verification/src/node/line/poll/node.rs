//! [`LineNode`]: a polled line node, split into input, work and output phases.
use crate::edge::Edge;
use crate::error::{Error, ErrorKind};
use crate::graph::{Closeable, ROUND_LIMIT};
use crate::message::{
    added, all_data, data_of, ends_with, extends, flushes_in, lemma_data_of_push, lemma_data_then, same_signal, signal_last, Message,
};
use crate::node::layout::{PhaseKind, Pollable};
use crate::node::line::poll::factory::LineWakers;
use crate::node::line::poll::routine::LineRoutine;
use crate::node::routine::{fed_of, flushes_of, lemma_call_push, outputs_of, Call, Flush, Next, Poll, Readiness, Send};
use crate::node::line::work::node::all_outputs;
use crate::node::state::{flush_done, work_outcome, NodeState, WorkOutcome};
use vstd::prelude::*;

verus! {

/// A polled line node. The three phases share its state:
///
/// - input drains the input edge into the routine while `Running`; it stops
///   at a flush (flushing the routine), a marker or a close;
/// - work polls the routine; a finished flush makes the node `FlushReady`;
/// - output drains the routine and forwards a pending flush or marker, or
///   closes the output edge after a close.
///
/// A close is a fast path: no flush, no poll of the routine; output drains
/// what is buffered and closes the edge.
#[verifier::reject_recursive_types(In)]
#[verifier::reject_recursive_types(S)]
pub struct LineNode<In, Out, S, R, O> {
    pub worker: R,
    pub input: Edge<In, S>,
    pub output: O,
    pub state: NodeState<S>,
    pub wakers: LineWakers,
    /// Every call this node made on its routine, oldest first.
    pub calls: Ghost<Seq<Call<In, Out>>>,
    pub phantom: core::marker::PhantomData<Out>,
}

/// Every call in `calls` handed input to the routine or flushed it.
pub open spec fn only_inputs<In, Out>(calls: Seq<Call<In, Out>>) -> bool {
    forall|j: int| 0 <= j < calls.len() ==> (#[trigger] calls[j]) is Sent || calls[j] is Flushed
}

/// `calls` asked the routine for output until it answered that it had no
/// more, and the outputs it handed out are `data`, in order.
pub open spec fn asked_until_none<In, Out>(calls: Seq<Call<In, Out>>, data: Seq<Out>) -> bool {
    &&& calls.len() > 0
    &&& calls.last() == Call::<In, Out>::Asked(Ok(None))
    &&& all_outputs(calls.drop_last())
    &&& outputs_of(calls) == data
}

/// The three phases of a polled line node over `worker`, `input` and `output`.
pub fn new_phases<In, Out, S, R: LineRoutine<In, Out>, O: Closeable<Out, S>>(
    worker: R,
    input: Edge<In, S>,
    output: O,
) -> (n: LineNode<In, Out, S, R, O>)
    ensures
        n.worker == worker,
        n.input == input,
        n.output == output,
        n.state == NodeState::<S>::Running,
        !n.wakers.input && !n.wakers.work && !n.wakers.output,
        n.calls@.len() == 0,
{
    LineNode {
        worker,
        input,
        output,
        state: NodeState::Running,
        wakers: LineWakers::new(),
        calls: Ghost(Seq::empty()),
        phantom: core::marker::PhantomData,
    }
}

impl<In, Out, S, R: LineRoutine<In, Out>, O: Closeable<Out, S>> LineNode<In, Out, S, R, O> {
    /// What the input phase promises of the node before it (`before`) and
    /// after it (`after`) when it returned `r`.
    pub open spec fn input_polled(before: Self, after: Self, r: Result<Readiness, Error>) -> bool {
        &&& after.output == before.output
        &&& before.state.closing() ==> (r matches Err(e) && e.kind == ErrorKind::Closed)
            && after.state == before.state && after.input == before.input
        &&& (before.state is Flushing || before.state is FlushReady || before.state is MarkerReady)
            ==> r == Ok::<Readiness, Error>(Readiness::Pending) && after.state == before.state
            && after.input == before.input
        &&& !(before.state is Running) ==> after.calls == before.calls
        &&& before.state is Running ==> {
            &&& extends(after.input.received(), before.input.received())
            &&& after.state is CloseReady ==> (r matches Err(e) && e.kind == ErrorKind::Closed)
            &&& r is Ok ==> r == Ok::<Readiness, Error>(Readiness::Pending)
            &&& after.state matches NodeState::Flushing(s) ==> after.wakers.work
                && after.input.received().len() > 0
                && after.input.received().last() == Message::<In, S>::Flush(s)
            &&& after.state matches NodeState::MarkerReady(s) ==> after.wakers.work
                && after.input.received().len() > 0
                && after.input.received().last() == Message::<In, S>::Marker(s)
            &&& after.state is CloseReady ==> after.wakers.work && after.wakers.output
            &&& signal_last(added(after.input.received(), before.input.received()))
            &&& after.state is Flushing || after.state is MarkerReady
                ==> added(after.input.received(), before.input.received()).len() > 0
            &&& extends(after.calls@, before.calls@)
            &&& ({
                let got = added(after.input.received(), before.input.received());
                let nc = added(after.calls@, before.calls@);
                &&& only_inputs(nc)
                &&& fed_of(nc) == data_of(got)
                &&& flushes_of(nc) == flushes_in(got)
            })
            &&& after.state is Running && r is Ok ==> after.input.empty_polls() == before.input.empty_polls() + 1
            &&& after.input.closed() <==> after.state is CloseReady
        }
    }

    /// What the work phase promises of the node before it (`before`) and
    /// after it (`after`) when it returned `r`.
    pub open spec fn work_polled(before: Self, after: Self, r: Result<Readiness, Error>) -> bool {
        &&& after.output == before.output
        &&& after.input == before.input
        &&& before.state.closing() ==> (r matches Err(e) && e.kind == ErrorKind::Closed)
            && after.state == before.state
        &&& before.state is FlushReady ==> r == Ok::<Readiness, Error>(Readiness::Pending)
            && after.state == before.state
        &&& !before.state.closing() ==> (r matches Err(e) ==> e.kind != ErrorKind::Closed)
        &&& !before.state.closing() && r is Ok ==> r == Ok::<Readiness, Error>(Readiness::Pending)
        &&& before.state is Running && r is Ok ==> after.state == before.state
        &&& before.state is MarkerReady && r is Ok ==> after.state == before.state && after.wakers.output
        &&& before.state matches NodeState::Flushing(s) ==> (r is Ok ==> after.state == before.state
            || (after.state == NodeState::FlushReady(s) && after.wakers.output))
        &&& r is Err ==> after.state == before.state
        &&& before.state.closing() || before.state is FlushReady ==> after.worker == before.worker
            && after.calls == before.calls
        &&& !before.state.closing() && !(before.state is FlushReady) ==> {
            &&& after.calls@.len() == before.calls@.len() + 1
            &&& after.calls@.drop_last() == before.calls@
            &&& after.calls@.last() is Polled
            &&& match after.calls@.last()->Polled_0 {
                Err(e) => if e.kind == ErrorKind::Closed {
                    r matches Err(f) && f.kind == ErrorKind::Fatal
                } else {
                    r == Err::<Readiness, Error>(e)
                },
                Ok(Readiness::Ready) => if before.state is Flushing {
                    r is Ok
                } else {
                    r matches Err(f) && f.kind == ErrorKind::Fatal
                },
                Ok(Readiness::Pending) => r == Ok::<Readiness, Error>(Readiness::Pending),
            }
        }
    }

    /// What the output phase promises of the node before it (`before`) and
    /// after it (`after`) when it returned `r`.
    pub open spec fn output_polled(before: Self, after: Self, r: Result<Readiness, Error>) -> bool {
        let new = added(after.output.sent(), before.output.sent());
        let nc = added(after.calls@, before.calls@);
        &&& after.input == before.input
        &&& extends(after.output.sent(), before.output.sent())
        &&& extends(after.calls@, before.calls@)
        &&& before.state is Closed ==> (r matches Err(e) && e.kind == ErrorKind::Closed)
            && after.state == before.state && after.output.sent() == before.output.sent() && nc.len() == 0
        &&& before.state is CloseReady ==> {
            &&& r is Err && all_data(new)
            &&& nc.len() > 0
            &&& after.state is Closed || after.state == before.state
            &&& Self::output_drained(before, after) ==> after.output.is_closed()
            &&& after.state is Closed ==> after.output.is_closed() && Self::output_drained(before, after)
                && (r matches Err(e) && e.kind == ErrorKind::Closed)
            &&& nc.last() matches Call::Asked(Err(e)) ==> r == Err::<Readiness, Error>(e)
        }
        &&& before.state is Running || before.state is Flushing ==> after.state == before.state && all_data(new)
            && (r is Ok ==> Self::output_drained(before, after))
        &&& before.state matches NodeState::FlushReady(s) ==> (r is Ok ==> {
            &&& new.len() > 0 && new.last() == Message::<Out, S>::Flush(s)
            &&& all_data(new.drop_last())
            &&& after.state is Running
            &&& after.wakers.input
            &&& Self::output_drained(before, after)
        })
        &&& before.state matches NodeState::MarkerReady(s) ==> (r is Ok ==> {
            &&& new.len() > 0 && new.last() == Message::<Out, S>::Marker(s)
            &&& all_data(new.drop_last())
            &&& after.state is Running
            &&& after.wakers.input
            &&& Self::output_drained(before, after)
        })
        &&& r is Ok ==> r == Ok::<Readiness, Error>(Readiness::Pending)
    }

    /// Between `before` and `after` the routine was asked for output until
    /// it had none, and each output it handed out was pushed, in order, into
    /// the output edge.
    pub open spec fn output_drained(before: Self, after: Self) -> bool {
        asked_until_none(added(after.calls@, before.calls@), data_of(added(after.output.sent(), before.output.sent())))
    }

    /// A signal passes through: when the input phase of a running node takes
    /// a flush or a marker, the work phase then finds the routine ready for
    /// it, and the output phase succeeds, the output edge receives data and
    /// then that very signal, and the node is running again.
    pub proof fn signal_passes_through(
        a: Self,
        b: Self,
        c: Self,
        d: Self,
        r_input: Result<Readiness, Error>,
        r_work: Result<Readiness, Error>,
        r_output: Result<Readiness, Error>,
    )
        requires
            Self::input_polled(a, b, r_input),
            Self::work_polled(b, c, r_work),
            Self::output_polled(c, d, r_output),
            a.state is Running,
            b.state is Flushing || b.state is MarkerReady,
            c.state is FlushReady || c.state is MarkerReady,
            r_output is Ok,
        ensures
            ({
                let new = added(d.output.sent(), c.output.sent());
                &&& new.len() > 0
                &&& all_data(new.drop_last())
                &&& same_signal(new.last(), b.input.received().last())
                &&& b.input.received().len() > 0
            }),
            c.input == b.input,
            d.state is Running,
    {
    }

    /// What draining the input promises of a running node before it
    /// (`before`) and after it (`after`) when it returned `r`: it took a run
    /// of data, optionally closed by one signal; the routine was sent each
    /// data message and flushed for a flush, and nothing else; the node
    /// leaves `Running` for a signal only when it took one, and stays
    /// `Running` with success only once the edge had nothing more waiting;
    /// and the drain fails only with the routine's error.
    pub open spec fn drained(before: Self, after: Self, r: Result<(), Error>) -> bool {
        let got = added(after.input.received(), before.input.received());
        let nc = added(after.calls@, before.calls@);
        &&& signal_last(got)
        &&& after.state is Running && r is Ok ==> all_data(got)
            && after.input.empty_polls() == before.input.empty_polls() + 1
        &&& after.state is Flushing || after.state is MarkerReady ==> got.len() > 0
        &&& extends(after.calls@, before.calls@)
        &&& only_inputs(nc)
        &&& fed_of(nc) == data_of(got)
        &&& flushes_of(nc) == flushes_in(got)
        &&& r is Err ==> (nc.len() > 0 && ((nc.last() matches Call::Sent(_, Err(e)) && r == Err::<(), Error>(e))
            || (nc.last() matches Call::Flushed(Err(e)) && r == Err::<(), Error>(e))))
            || (r matches Err(e) && e.kind == ErrorKind::Fatal)
    }

    /// Drain the input edge into the routine until it is empty or a signal
    /// or a close stops the drain.
    fn drain_input(&mut self) -> (r: Result<(), Error>)
        requires
            old(self).state is Running,
        ensures
            final(self).output == old(self).output,
            extends(final(self).input.received(), old(self).input.received()),
            final(self).wakers.input == old(self).wakers.input,
            old(self).wakers.output ==> final(self).wakers.output,
            final(self).state is Running || final(self).state is Flushing || final(self).state is MarkerReady
                || final(self).state is CloseReady,
            final(self).state matches NodeState::Flushing(s) ==> final(self).wakers.work
                && final(self).input.received().len() > 0 && final(self).input.received().last() == Message::<In, S>::Flush(s),
            final(self).state matches NodeState::MarkerReady(s) ==> final(self).wakers.work
                && final(self).input.received().len() > 0 && final(self).input.received().last() == Message::<In, S>::Marker(s),
            final(self).state is CloseReady ==> final(self).input.closed() && final(self).wakers.work && final(self).wakers.output,
            !(final(self).state is CloseReady) ==> !final(self).input.closed(),
            Self::drained(*old(self), *final(self), r),
    {
        proof {
            assert(added(self.input.received(), old(self).input.received()) =~= Seq::<Message<In, S>>::empty());
            assert(added(self.calls@, old(self).calls@) =~= Seq::<Call<In, Out>>::empty());
        }
        let mut rounds: u64 = 0;
        while rounds < ROUND_LIMIT
            invariant
                self.state is Running,
                self.output == old(self).output,
                extends(self.input.received(), old(self).input.received()),
                self.input.empty_polls() == old(self).input.empty_polls(),
                self.wakers == old(self).wakers,
                rounds > 0 ==> !self.input.closed(),
                all_data(added(self.input.received(), old(self).input.received())),
                extends(self.calls@, old(self).calls@),
                ({
                    let got = added(self.input.received(), old(self).input.received());
                    let nc = added(self.calls@, old(self).calls@);
                    &&& only_inputs(nc)
                    &&& fed_of(nc) == data_of(got)
                    &&& flushes_of(nc) == flushes_in(got)
                }),
            decreases ROUND_LIMIT - rounds,
        {
            rounds = rounds + 1;
            let ghost got_before = self.input.received();
            let ghost calls_before = self.calls@;
            let polled = self.input.poll();
            let ghost polled_message = polled;
            proof {
                if let Ok(Some(m)) = polled_message {
                    lemma_data_of_push(added(got_before, old(self).input.received()), m);
                    assert(added(self.input.received(), old(self).input.received())
                        =~= added(got_before, old(self).input.received()).push(m));
                    lemma_data_then(old(self).input.received(), got_before, m);
                } else {
                    assert(self.input.received() == got_before);
                }
            }
            match polled {
                Ok(Some(Message::Data(data))) => {
                    let ghost d = data;
                    let sent = self.worker.send(data);
                    self.calls = Ghost(self.calls@.push(Call::Sent(d, sent)));
                    proof {
                        let c = Call::<In, Out>::Sent(d, sent);
                        lemma_call_push(added(calls_before, old(self).calls@), c);
                        assert(added(self.calls@, old(self).calls@) =~= added(calls_before, old(self).calls@).push(c));
                    }
                    sent?;
                },
                Ok(Some(Message::Flush(signal))) => {
                    let flushed = self.worker.flush();
                    self.calls = Ghost(self.calls@.push(Call::Flushed(flushed)));
                    proof {
                        let c = Call::<In, Out>::Flushed(flushed);
                        lemma_call_push(added(calls_before, old(self).calls@), c);
                        assert(added(self.calls@, old(self).calls@) =~= added(calls_before, old(self).calls@).push(c));
                    }
                    flushed?;
                    self.state = NodeState::Flushing(signal);
                    self.wakers.work = true;
                    return Ok(());
                },
                Ok(Some(Message::Marker(signal))) => {
                    self.state = NodeState::MarkerReady(signal);
                    self.wakers.work = true;
                    return Ok(());
                },
                Ok(None) => return Ok(()),
                Err(e) => {
                    // Fast close: output drains what is buffered and closes.
                    self.state = NodeState::CloseReady;
                    self.wakers.work = true;
                    self.wakers.output = true;
                    return Ok(());
                },
            }
        }
        Err(Error::fatal("input never ran dry"))
    }

    /// The input phase.
    pub fn poll_input(&mut self) -> (r: Result<Readiness, Error>)
        ensures
            Self::input_polled(*old(self), *final(self), r),
    {
        if self.state.is_closing() {
            return Err(Error::closed());
        }
        if !self.state.is_running() {
            return Ok(Readiness::Pending);
        }
        let drained = self.drain_input();
        if self.state.is_closing() {
            return Err(Error::closed());
        }
        drained?;
        Ok(Readiness::Pending)
    }

    /// The work phase.
    pub fn poll_work(&mut self) -> (r: Result<Readiness, Error>)
        ensures
            Self::work_polled(*old(self), *final(self), r),
    {
        if self.state.is_closing() {
            return Err(Error::closed());
        }
        if let NodeState::FlushReady(_) = &self.state {
            return Ok(Readiness::Pending);
        }
        let polled = self.worker.poll();
        self.calls = Ghost(self.calls@.push(Call::Polled(polled)));
        proof {
            assert(self.calls@.drop_last() =~= old(self).calls@);
        }
        match work_outcome(&self.state, polled) {
            WorkOutcome::Pending => Ok(Readiness::Pending),
            WorkOutcome::FlushDone => {
                let mut state = NodeState::Running;
                std::mem::swap(&mut state, &mut self.state);
                self.state = flush_done(state);
                self.wakers.output = true;
                Ok(Readiness::Pending)
            },
            WorkOutcome::MarkerPolled => {
                self.wakers.output = true;
                Ok(Readiness::Pending)
            },
            WorkOutcome::Fail(e) => Err(e),
        }
    }

    /// Push everything the routine has into the output edge.
    fn drain_output(&mut self) -> (r: Result<(), Error>)
        ensures
            extends(final(self).output.sent(), old(self).output.sent()),
            all_data(added(final(self).output.sent(), old(self).output.sent())),
            final(self).output.is_closed() == old(self).output.is_closed(),
            final(self).state == old(self).state,
            final(self).input == old(self).input,
            final(self).wakers == old(self).wakers,
            extends(final(self).calls@, old(self).calls@),
            r is Ok <==> Self::output_drained(*old(self), *final(self)),
            added(final(self).calls@, old(self).calls@).len() > 0,
            ({
                let nc = added(final(self).calls@, old(self).calls@);
                nc.last() matches Call::Asked(Err(e)) ==> r == Err::<(), Error>(e)
            }),
    {
        proof {
            assert(added(self.output.sent(), old(self).output.sent()) =~= Seq::<Message<Out, S>>::empty());
            assert(added(self.calls@, old(self).calls@) =~= Seq::<Call<In, Out>>::empty());
        }
        let mut rounds: u64 = 0;
        loop
            invariant
                extends(self.output.sent(), old(self).output.sent()),
                all_data(added(self.output.sent(), old(self).output.sent())),
                self.output.is_closed() == old(self).output.is_closed(),
                self.state == old(self).state,
                self.input == old(self).input,
                self.wakers == old(self).wakers,
                extends(self.calls@, old(self).calls@),
                all_outputs(added(self.calls@, old(self).calls@)),
                outputs_of(added(self.calls@, old(self).calls@)) == data_of(added(self.output.sent(), old(self).output.sent())),
                rounds > 0 ==> added(self.calls@, old(self).calls@).len() > 0,
            decreases ROUND_LIMIT - rounds,
        {
            if rounds == ROUND_LIMIT {
                return Err(Error::fatal("routine never ran out of output"));
            }
            rounds = rounds + 1;
            let ghost sent_before = self.output.sent();
            let ghost calls_before = self.calls@;
            let answer = self.worker.next();
            self.calls = Ghost(self.calls@.push(Call::Asked(answer)));
            proof {
                let c = Call::<In, Out>::Asked(answer);
                lemma_call_push(added(calls_before, old(self).calls@), c);
                assert(added(self.calls@, old(self).calls@) =~= added(calls_before, old(self).calls@).push(c));
                assert(added(self.calls@, old(self).calls@).drop_last() =~= added(calls_before, old(self).calls@));
            }
            match answer {
                Ok(Some(out)) => {
                    let ghost before = self.output.sent();
                    proof {
                        lemma_data_then(old(self).output.sent(), before, Message::<Out, S>::Data(out));
                    }
                    self.output.push(Message::Data(out))?;
                    proof {
                        let new0 = added(sent_before, old(self).output.sent());
                        lemma_data_of_push(new0, Message::<Out, S>::Data(out));
                        assert(added(self.output.sent(), old(self).output.sent()) =~= new0.push(Message::<Out, S>::Data(out)));
                    }
                },
                Ok(None) => return Ok(()),
                Err(e) => return Err(e),
            }
        }
    }

    /// The output phase.
    pub fn poll_output(&mut self) -> (r: Result<Readiness, Error>)
        ensures
            Self::output_polled(*old(self), *final(self), r),
    {
        match &self.state {
            NodeState::Closed => return Err(Error::closed()),
            NodeState::CloseReady => {
                self.drain_output()?;
                self.output.close()?;
                self.state = NodeState::Closed;
                return Err(Error::closed());
            },
            NodeState::FlushReady(_) | NodeState::MarkerReady(_) => {},
            _ => {
                self.drain_output()?;
                return Ok(Readiness::Pending);
            },
        }
        self.drain_output()?;
        let ghost before = self.output.sent();
        let mut state = NodeState::Running;
        std::mem::swap(&mut state, &mut self.state);
        let signal = match state {
            NodeState::FlushReady(s) => Message::Flush(s),
            NodeState::MarkerReady(s) => Message::Marker(s),
            _ => {
                self.state = state;
                return Err(Error::fatal("expected a pending signal"));
            },
        };
        proof {
            lemma_data_then(old(self).output.sent(), before, signal);
            assert(added(before.push(signal), old(self).output.sent()).drop_last() =~= added(before, old(self).output.sent()));
        }
        self.output.push(signal)?;
        // Signal forwarded: back to Running, the input can resume.
        self.wakers.input = true;
        Ok(Readiness::Pending)
    }
}

impl<In, Out, S, R: LineRoutine<In, Out>, O: Closeable<Out, S>> LineNode<In, Out, S, R, O> {
    /// Poll the three phases once each, in order: input, work, output.
    pub fn poll_all(&mut self) -> (r: Result<Readiness, Error>)
        ensures
            r is Ok ==> r == Ok::<Readiness, Error>(Readiness::Pending),
            old(self).state is Running && r is Ok ==> extends(final(self).input.received(), old(self).input.received()),
    {
        self.poll_input()?;
        self.poll_work()?;
        self.poll_output()
    }
}

impl<In, Out, S, R: LineRoutine<In, Out>, O: Closeable<Out, S>> Pollable for LineNode<In, Out, S, R, O> {
    /// The input, work or output phase; a line node has no other.
    fn poll_phase(&mut self, phase: PhaseKind) -> (r: Result<Readiness, Error>)
        ensures
            phase == PhaseKind::Input ==> Self::input_polled(*old(self), *final(self), r),
            phase == PhaseKind::Work ==> Self::work_polled(*old(self), *final(self), r),
            phase == PhaseKind::Output ==> Self::output_polled(*old(self), *final(self), r),
            phase == PhaseKind::LeftInput || phase == PhaseKind::RightInput ==> (r matches Err(e)
                && e.kind == ErrorKind::Fatal) && *final(self) == *old(self),
    {
        match phase {
            PhaseKind::Input => self.poll_input(),
            PhaseKind::Work => self.poll_work(),
            PhaseKind::Output => self.poll_output(),
            _ => Err(Error::fatal("a line node has no such phase")),
        }
    }
}

} // verus!
