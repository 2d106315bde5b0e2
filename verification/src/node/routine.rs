//! Traits for implementing routines.
//!
//! Routines are streaming state machines that map a stream of inputs to a
//! stream of outputs. A node schedules its routine: it hands it input with
//! [`Send`], drains its output with [`Next`] and passes on graph signals with
//! [`Flush`].
use crate::error::Error;
use crate::message::Message;
use crate::marker::{Multiplicity, Unary};
use vstd::prelude::*;

verus! {

/// One call a node made on its routine, with the routine's answer.
///
/// The nodes keep a log of these calls, through which they state what they
/// hand to their routine and what they do with its answers.
pub enum Call<In, Out> {
    /// [`Send::send`] with this input.
    Sent(In, Result<(), Error>),
    /// [`Flush::flush`].
    Flushed(Result<(), Error>),
    /// [`Next::next`].
    Asked(Result<Option<Out>, Error>),
    /// [`Poll::poll`].
    Polled(Result<Readiness, Error>),
}

/// The inputs handed to the routine in `calls`, in order.
pub open spec fn fed_of<In, Out>(calls: Seq<Call<In, Out>>) -> Seq<In>
    decreases calls.len(),
{
    if calls.len() == 0 {
        Seq::empty()
    } else {
        let rest = fed_of(calls.drop_last());
        match calls.last() {
            Call::Sent(x, _) => rest.push(x),
            _ => rest,
        }
    }
}

/// How many flushes `calls` holds.
pub open spec fn flushes_of<In, Out>(calls: Seq<Call<In, Out>>) -> nat
    decreases calls.len(),
{
    if calls.len() == 0 {
        0
    } else {
        flushes_of(calls.drop_last()) + if calls.last() is Flushed { 1nat } else { 0nat }
    }
}

/// The outputs the routine handed out in `calls`, in order.
pub open spec fn outputs_of<In, Out>(calls: Seq<Call<In, Out>>) -> Seq<Out>
    decreases calls.len(),
{
    if calls.len() == 0 {
        Seq::empty()
    } else {
        let rest = outputs_of(calls.drop_last());
        match calls.last() {
            Call::Asked(Ok(Some(x))) => rest.push(x),
            _ => rest,
        }
    }
}

/// `calls` ends with a flush that succeeded, followed only by outputs and
/// then by the routine's answer that it had no more.
pub open spec fn drained_after_flush<In, Out>(calls: Seq<Call<In, Out>>) -> bool {
    &&& calls.len() >= 2
    &&& calls.last() == Call::<In, Out>::Asked(Ok(None))
    &&& exists|k: int| #![trigger calls[k]] 0 <= k < calls.len() - 1 && calls[k] == Call::<In, Out>::Flushed(Ok(()))
        && forall|j: int| k < j < calls.len() - 1 ==> (#[trigger] calls[j]) matches Call::Asked(Ok(Some(_)))
}

/// `new`, what a step emitted, is the forwarded flush preceded by the answer
/// the routine gave when asked right after being flushed for it: that
/// output as data, or nothing when it had none. The flush is the last one
/// made, and that answer is the last one given.
pub open spec fn flush_behind_its_output<Out, S>(asked: Seq<Option<Out>>, marks: Seq<nat>, new: Seq<Message<Out, S>>) -> bool {
    &&& marks.len() > 0
    &&& asked.len() == marks.last() + 1
    &&& match asked.last() {
        Some(x) => new == seq![Message::<Out, S>::Data(x), new.last()],
        None => new == seq![new.last()],
    }
}

/// What the summaries above make of one more call.
pub proof fn lemma_call_push<In, Out>(calls: Seq<Call<In, Out>>, c: Call<In, Out>)
    ensures
        fed_of(calls.push(c)) == (match c {
            Call::Sent(x, _) => fed_of(calls).push(x),
            _ => fed_of(calls),
        }),
        flushes_of(calls.push(c)) == flushes_of(calls) + if c is Flushed { 1nat } else { 0nat },
        outputs_of(calls.push(c)) == (match c {
            Call::Asked(Ok(Some(x))) => outputs_of(calls).push(x),
            _ => outputs_of(calls),
        }),
{
    assert(calls.push(c).drop_last() =~= calls);
}

/// The summaries of two runs of calls, one after the other.
pub proof fn lemma_calls_concat<In, Out>(a: Seq<Call<In, Out>>, b: Seq<Call<In, Out>>)
    ensures
        fed_of(a + b) == fed_of(a) + fed_of(b),
        flushes_of(a + b) == flushes_of(a) + flushes_of(b),
        outputs_of(a + b) == outputs_of(a) + outputs_of(b),
    decreases b.len(),
{
    if b.len() == 0 {
        assert(a + b =~= a);
        assert(fed_of(a) + fed_of(b) =~= fed_of(a));
        assert(outputs_of(a) + outputs_of(b) =~= outputs_of(a));
    } else {
        let c = b.last();
        lemma_calls_concat(a, b.drop_last());
        assert(a + b =~= (a + b.drop_last()).push(c));
        assert(b =~= b.drop_last().push(c));
        lemma_call_push(a + b.drop_last(), c);
        lemma_call_push(b.drop_last(), c);
        assert(fed_of(a) + fed_of(b.drop_last()).push(c->Sent_0) =~= (fed_of(a) + fed_of(b.drop_last())).push(c->Sent_0));
        if let Call::Asked(Ok(Some(x))) = c {
            assert(outputs_of(a) + outputs_of(b.drop_last()).push(x) =~= (outputs_of(a) + outputs_of(b.drop_last())).push(x));
        }
    }
}

/// An input of a routine. Generic over [`Multiplicity`] so that a routine
/// can have several inputs of the same message type.
pub trait Send<Message, MultiplicityType: Multiplicity = Unary> {
    fn send(&mut self, message: Message) -> Result<(), Error>;
}

/// An output of a routine: the next available output, or `None` when the
/// routine needs more input before it can produce any.
pub trait Next<Message, MultiplicityType: Multiplicity = Unary> {
    fn next(&mut self) -> Result<Option<Message>, Error>;
}

/// Handling of the graph's flush signal: the routine prepares to emit
/// everything it can on later [`Next`] calls and resets the rest of its state.
pub trait Flush {
    fn flush(&mut self) -> Result<(), Error>;
}

/// A name for logging.
pub trait Name {
    fn name(&self) -> (r: &str)
        default_ensures
            r@ == "unknown"@,
    {
        "unknown"
    }
}

/// Whether an asynchronous routine has finished a flush.
#[derive(Debug, Clone, Copy, PartialEq, Eq, Structural)]
pub enum Readiness {
    Ready,
    Pending,
}

/// Progress on the asynchronous work of a routine.
pub trait Poll {
    fn poll(&mut self) -> Result<Readiness, Error>;
}

} // verus!
