//! [`Biunion`]: a node that merges a left and a right input into one output.
use crate::edge::{Edge, EdgeSender};
use crate::error::{is_closed_err, Error};
use crate::graph::{all_closed, Closeable, InputSide, OutputSide, ParentSide, Workable, ROUND_LIMIT};
use crate::message::{
    added, all_data, data_of, extends, flushes_in, lemma_data_extends, lemma_data_of_push, lemma_data_then, lemma_push, same_signal,
    signal_last, Message,
};
use crate::node::routine::{flush_behind_its_output, Flush, Next, Send};
use crate::node::line::work::node::{all_ok, heard_closed};
use crate::node::biunion::marker::{Left, Right};
use crate::node::biunion::routine::BiunionRoutine;
use vstd::prelude::*;

verus! {

/// A node with two inputs and one output.
pub trait BiunionTrait: Workable {
    type Left;
    type Right;
    type Out;
    type Signal;
}

/// Parents grouped by the input they feed.
pub struct Worker {
    pub left: Vec<Box<dyn Workable>>,
    pub right: Vec<Box<dyn Workable>>,
}

impl Worker {
    /// No parents on either side.
    pub fn new() -> (w: Self)
        ensures
            w.left@.len() == 0,
            w.right@.len() == 0,
    {
        Worker { left: Vec::new(), right: Vec::new() }
    }
}

/// The two input edges.
#[verifier::reject_recursive_types(L)]
#[verifier::reject_recursive_types(R)]
#[verifier::reject_recursive_types(S)]
pub struct Input<L, R, S> {
    pub left: Edge<L, S>,
    pub right: Edge<R, S>,
}

impl<L, R, S> Input<L, R, S> {
    /// Two open, empty edges.
    pub fn new() -> (i: Self)
        ensures
            !i.left.closed(),
            !i.right.closed(),
            i.left.received().len() == 0,
            i.right.received().len() == 0,
    {
        Input { left: Edge::new(), right: Edge::new() }
    }
}

/// Whether `m`, the last message emitted, is a signal that was the last
/// message taken from one of the two inputs.
pub open spec fn signal_from_input<L, R, Out, S>(m: Message<Out, S>, input: Input<L, R, S>) -> bool {
    (input.left.received().len() > 0 && same_signal(m, input.left.received().last()))
        || (input.right.received().len() > 0 && same_signal(m, input.right.received().last()))
}

/// When worked it emits the next output of its routine; otherwise it takes
/// input, the left edge first: data goes to the routine, a flush flushes the
/// routine, emits one more output and is forwarded, and a marker is forwarded
/// at once. With no input waiting it works its parents, left ones first.
#[verifier::reject_recursive_types(L)]
#[verifier::reject_recursive_types(R)]
#[verifier::reject_recursive_types(Out)]
#[verifier::reject_recursive_types(S)]
pub struct Biunion<L, R, Out, S, W> {
    pub routine: W,
    pub worker: Worker,
    pub pushes: Vec<Box<dyn Closeable<Out, S>>>,
    pub input: Input<L, R, S>,
    /// Every message emitted, oldest first.
    pub emitted: Ghost<Seq<Message<Out, S>>>,
    /// What this node handed to its routine and took from it.
    pub log: Ghost<MergeLog<L, R, Out>>,
    /// What each parent's work returned, oldest first.
    pub reports: Ghost<Seq<Result<(), Error>>>,
}

/// What a node with two inputs and one output handed to its routine and
/// took from it.
pub struct MergeLog<L, R, Out> {
    /// Every left input sent to the routine, oldest first.
    pub left: Seq<L>,
    /// Every right input sent to the routine, oldest first.
    pub right: Seq<R>,
    /// How many times the routine was flushed.
    pub flushed: nat,
    /// Every output the routine handed out, oldest first.
    pub taken: Seq<Out>,
    /// How many calls on the routine returned an error.
    pub faults: nat,
    /// What the routine answered each time it was asked for output and did
    /// not fail, oldest first: an output, or that it had none.
    pub asked: Seq<Option<Out>>,
    /// For each flush, how many answers `asked` held when it was made.
    pub flush_marks: Seq<nat>,
}

/// A log of no calls.
pub open spec fn empty_merge_log<L, R, Out>() -> MergeLog<L, R, Out> {
    MergeLog {
        left: Seq::empty(),
        right: Seq::empty(),
        flushed: 0,
        taken: Seq::empty(),
        faults: 0,
        asked: Seq::empty(),
        flush_marks: Seq::empty(),
    }
}


impl<L, R, Out: Clone, S: Clone, W: BiunionRoutine<L, R, Out>> Biunion<L, R, Out, S, W> {
    /// A node running `routine`, with no parents and no outputs yet.
    pub fn new(routine: W) -> (b: Self)
        ensures
            b.routine == routine,
            b.worker.left@.len() == 0,
            b.worker.right@.len() == 0,
            b.pushes@.len() == 0,
            !b.input.left.closed(),
            !b.input.right.closed(),
            b.input.left.received().len() == 0,
            b.input.right.received().len() == 0,
            b.emitted@.len() == 0,
            b.log@ == empty_merge_log::<L, R, Out>(),
            b.reports@.len() == 0,
    {
        Biunion {
            routine,
            worker: Worker::new(),
            pushes: Vec::new(),
            input: Input::new(),
            emitted: Ghost(Seq::empty()),
            log: Ghost(empty_merge_log()),
            reports: Ghost(Seq::empty()),
        }
    }

    /// The same as [`Biunion::new`].
    pub fn of(routine: W) -> (b: Self)
        ensures
            b.routine == routine,
            b.worker.left@.len() == 0,
            b.worker.right@.len() == 0,
            b.pushes@.len() == 0,
            !b.input.left.closed(),
            !b.input.right.closed(),
            b.input.left.received().len() == 0,
            b.input.right.received().len() == 0,
            b.emitted@.len() == 0,
            b.log@ == empty_merge_log::<L, R, Out>(),
            b.reports@.len() == 0,
    {
        Biunion::new(routine)
    }

    /// Push `obj` into every output edge.
    fn push(&mut self, obj: Message<Out, S>) -> (r: Result<(), Error>)
        ensures
            old(self).pushes@.len() == 0 ==> r is Ok,
            r is Ok ==> final(self).emitted@ == old(self).emitted@.push(obj),
            r is Err ==> final(self).emitted@ == old(self).emitted@,
            final(self).pushes@.len() == old(self).pushes@.len(),
            final(self).input == old(self).input,
            final(self).routine == old(self).routine,
            final(self).log == old(self).log,
            final(self).reports == old(self).reports,
            final(self).worker == old(self).worker,
    {
        let n = self.pushes.len();
        let mut i: usize = 0;
        while i < n
            invariant
                n == self.pushes@.len(),
                n == old(self).pushes@.len(),
                i <= n,
                self.input == old(self).input,
                self.routine == old(self).routine,
                self.log == old(self).log,
                self.reports == old(self).reports,
                self.worker == old(self).worker,
                self.emitted == old(self).emitted,
            decreases n - i,
        {
            self.pushes[i].push(obj.clone())?;
            i = i + 1;
        }
        self.emitted = Ghost(self.emitted@.push(obj));
        Ok(())
    }

    /// Emit the routine's next output, if any; `true` when one was emitted.
    fn try_push(&mut self) -> (r: Result<bool, Error>)
        ensures
            extends(final(self).emitted@, old(self).emitted@),
            all_data(added(final(self).emitted@, old(self).emitted@)),
            r == Ok::<bool, Error>(true) ==> final(self).emitted@.len() == old(self).emitted@.len() + 1,
            r != Ok::<bool, Error>(true) ==> final(self).emitted@ == old(self).emitted@,
            final(self).pushes@.len() == old(self).pushes@.len(),
            final(self).input == old(self).input,
            final(self).worker == old(self).worker,
            final(self).reports == old(self).reports,
            final(self).log@.left == old(self).log@.left,
            final(self).log@.right == old(self).log@.right,
            final(self).log@.flushed == old(self).log@.flushed,
            final(self).log@.flush_marks == old(self).log@.flush_marks,
            extends(final(self).log@.taken, old(self).log@.taken),
            extends(final(self).log@.asked, old(self).log@.asked),
            final(self).log@.faults >= old(self).log@.faults,
            r is Ok ==> final(self).log@.faults == old(self).log@.faults
                && added(final(self).log@.taken, old(self).log@.taken) == data_of(added(final(self).emitted@, old(self).emitted@)),
            r == Ok::<bool, Error>(true) ==> final(self).log@.asked == old(self).log@.asked.push(Some(final(self).log@.taken.last()))
                && final(self).log@.taken.len() == old(self).log@.taken.len() + 1
                && added(final(self).emitted@, old(self).emitted@) == seq![Message::<Out, S>::Data(final(self).log@.taken.last())],
            r == Ok::<bool, Error>(false) ==> final(self).log@.asked == old(self).log@.asked.push(None)
                && final(self).log@.taken == old(self).log@.taken && final(self).log@.faults == old(self).log@.faults,
            final(self).log@.faults == old(self).log@.faults && final(self).log@.taken == old(self).log@.taken
                ==> r == Ok::<bool, Error>(false),
    {
        let answer = self.routine.next();
        let ghost log0 = self.log@;
        match answer {
            Ok(Some(message)) => {
                self.log = Ghost(MergeLog { taken: log0.taken.push(message), asked: log0.asked.push(Some(message)), ..log0 });
                let ghost before = self.emitted@;
                self.push(Message::Data(message))?;
                proof {
                    lemma_data_then(before, before, Message::<Out, S>::Data(message));
                    lemma_data_of_push(Seq::<Message<Out, S>>::empty(), Message::<Out, S>::Data(message));
                    assert(added(self.emitted@, old(self).emitted@) =~= seq![Message::<Out, S>::Data(message)]);
                    assert(added(self.log@.taken, old(self).log@.taken) =~= seq![message]);
                    assert(Seq::<Message<Out, S>>::empty().push(Message::<Out, S>::Data(message)) =~= seq![Message::<Out, S>::Data(message)]);
                }
                Ok(true)
            },
            Ok(None) => {
                self.log = Ghost(MergeLog { asked: log0.asked.push(None), ..log0 });
                proof {
                    assert(added(self.log@.taken, old(self).log@.taken) =~= Seq::<Out>::empty());
                    assert(added(self.emitted@, old(self).emitted@) =~= Seq::<Message<Out, S>>::empty());
                }
                Ok(false)
            },
            Err(e) => {
                self.log = Ghost(MergeLog { faults: log0.faults + 1, ..log0 });
                Err(e)
            },
        }
    }

    /// Hand `data` to the routine's left input.
    fn feed_left(&mut self, data: L) -> (r: Result<(), Error>)
        ensures
            final(self).log@ == (MergeLog {
                left: old(self).log@.left.push(data),
                faults: old(self).log@.faults + if r is Err { 1nat } else { 0nat },
                ..old(self).log@
            }),
            final(self).reports == old(self).reports,
            final(self).input == old(self).input,
            final(self).pushes == old(self).pushes,
            final(self).emitted == old(self).emitted,
            final(self).worker == old(self).worker,
    {
        let ghost d = data;
        let ghost log0 = self.log@;
        let r = crate::node::routine::Send::<L, Left>::send(&mut self.routine, data);
        self.log = Ghost(MergeLog { left: log0.left.push(d), faults: log0.faults + if r is Err { 1nat } else { 0nat }, ..log0 });
        r
    }

    /// Hand `data` to the routine's right input.
    fn feed_right(&mut self, data: R) -> (r: Result<(), Error>)
        ensures
            final(self).log@ == (MergeLog {
                right: old(self).log@.right.push(data),
                faults: old(self).log@.faults + if r is Err { 1nat } else { 0nat },
                ..old(self).log@
            }),
            final(self).reports == old(self).reports,
            final(self).input == old(self).input,
            final(self).pushes == old(self).pushes,
            final(self).emitted == old(self).emitted,
            final(self).worker == old(self).worker,
    {
        let ghost d = data;
        let ghost log0 = self.log@;
        let r = crate::node::routine::Send::<R, Right>::send(&mut self.routine, data);
        self.log = Ghost(MergeLog { right: log0.right.push(d), faults: log0.faults + if r is Err { 1nat } else { 0nat }, ..log0 });
        r
    }

    /// Handle a signal from either input: a flush flushes the routine and
    /// emits one more output first; the signal is then forwarded.
    fn forward(&mut self, signal: Message<Out, S>) -> (r: Result<bool, Error>)
        requires
            !(signal is Data),
        ensures
            signal is Marker && old(self).pushes@.len() == 0 ==> r is Ok,
            extends(final(self).emitted@, old(self).emitted@),
            signal_last(added(final(self).emitted@, old(self).emitted@)),
            r is Ok ==> r == Ok::<bool, Error>(true) && added(final(self).emitted@, old(self).emitted@).len() > 0
                && added(final(self).emitted@, old(self).emitted@).last() == signal,
            r is Err ==> all_data(added(final(self).emitted@, old(self).emitted@)),
            final(self).pushes@.len() == old(self).pushes@.len(),
            final(self).input == old(self).input,
            final(self).worker == old(self).worker,
            final(self).reports == old(self).reports,
            final(self).log@.left == old(self).log@.left,
            final(self).log@.right == old(self).log@.right,
            final(self).log@.flushed == old(self).log@.flushed + if signal is Flush { 1nat } else { 0nat },
            extends(final(self).log@.taken, old(self).log@.taken),
            extends(final(self).log@.asked, old(self).log@.asked),
            r is Ok ==> added(final(self).log@.taken, old(self).log@.taken) == data_of(added(final(self).emitted@, old(self).emitted@)),
            r is Ok && signal is Flush ==> final(self).log@.flush_marks == old(self).log@.flush_marks.push(old(self).log@.asked.len())
                && flush_behind_its_output(final(self).log@.asked, final(self).log@.flush_marks,
                    added(final(self).emitted@, old(self).emitted@)),
            signal is Marker ==> final(self).log == old(self).log,
    {
        let ghost log0 = self.log@;
        if let Message::Flush(_) = &signal {
            let r = self.routine.flush();
            self.log = Ghost(MergeLog {
                flushed: log0.flushed + 1,
                faults: log0.faults + if r is Err { 1nat } else { 0nat },
                flush_marks: log0.flush_marks.push(log0.asked.len()),
                ..log0
            });
            r?;
            self.try_push()?;
        }
        proof {
            assert(added(self.log@.taken, old(self).log@.taken) =~= added(self.log@.taken, log0.taken));
        }
        let ghost before = self.emitted@;
        proof {
            lemma_data_then(old(self).emitted@, before, signal);
            lemma_data_of_push(added(before, old(self).emitted@), signal);
            assert(added(before.push(signal), old(self).emitted@) =~= added(before, old(self).emitted@).push(signal));
        }
        self.push(signal)?;
        proof {
            let new = added(self.emitted@, old(self).emitted@);
            assert(new =~= added(before, old(self).emitted@).push(signal));
            if signal is Flush {
                match self.log@.asked.last() {
                    Some(x) => {
                        assert(added(before, old(self).emitted@) =~= seq![Message::<Out, S>::Data(x)]);
                        assert(new =~= seq![Message::<Out, S>::Data(x), signal]);
                    },
                    None => {
                        assert(added(before, old(self).emitted@) =~= Seq::<Message<Out, S>>::empty());
                        assert(new =~= seq![signal]);
                    },
                }
            }
        }
        Ok(true)
    }

    /// Close every output edge.
    fn close_pushes(&mut self)
        ensures
            all_closed(final(self).pushes@),
            final(self).pushes@.len() == old(self).pushes@.len(),
            final(self).input == old(self).input,
            final(self).routine == old(self).routine,
            final(self).log == old(self).log,
            final(self).reports == old(self).reports,
            final(self).emitted == old(self).emitted,
            final(self).worker == old(self).worker,
    {
        let n = self.pushes.len();
        let mut i: usize = 0;
        while i < n
            invariant
                n == self.pushes@.len(),
                n == old(self).pushes@.len(),
                i <= n,
                forall|j: int| 0 <= j < i ==> (#[trigger] self.pushes@[j]).is_closed(),
                self.input == old(self).input,
                self.routine == old(self).routine,
                self.log == old(self).log,
                self.reports == old(self).reports,
                self.emitted == old(self).emitted,
                self.worker == old(self).worker,
            decreases n - i,
        {
            let _ = self.pushes[i].close();
            i = i + 1;
        }
    }

    /// Pass `result` through, closing every output edge when it reports a shutdown.
    fn propagate_if_closed<T>(&mut self, result: Result<T, Error>) -> (r: Result<T, Error>)
        ensures
            r == result,
            is_closed_err(result) ==> all_closed(final(self).pushes@),
            final(self).pushes@.len() == old(self).pushes@.len(),
            final(self).input == old(self).input,
            final(self).routine == old(self).routine,
            final(self).log == old(self).log,
            final(self).reports == old(self).reports,
            final(self).emitted == old(self).emitted,
            final(self).worker == old(self).worker,
    {
        match result {
            Err(e) => {
                if e.is_closed() {
                    self.close_pushes();
                }
                Err(e)
            },
            Ok(v) => Ok(v),
        }
    }

    /// Work every parent once, left ones first, stopping at the first error.
    fn work_parents(&mut self) -> (r: Result<(), Error>)
        ensures
            old(self).worker.left@.len() == 0 && old(self).worker.right@.len() == 0 ==> r is Ok,
            is_closed_err(r) ==> all_closed(final(self).pushes@),
            final(self).pushes@.len() == old(self).pushes@.len(),
            final(self).input == old(self).input,
            final(self).routine == old(self).routine,
            final(self).log == old(self).log,
            final(self).emitted == old(self).emitted,
            extends(final(self).reports@, old(self).reports@),
            ({
                let nr = added(final(self).reports@, old(self).reports@);
                &&& r is Ok ==> all_ok(nr)
                &&& r is Err ==> nr.len() > 0 && nr.last() == r && all_ok(nr.drop_last())
            }),
    {
        proof {
            assert(added(self.reports@, old(self).reports@) =~= Seq::<Result<(), Error>>::empty());
        }
        let n = self.worker.left.len();
        let mut i: usize = 0;
        while i < n
            invariant
                n == self.worker.left@.len(),
                n == old(self).worker.left@.len(),
                self.worker.right@.len() == old(self).worker.right@.len(),
                i <= n,
                self.pushes@.len() == old(self).pushes@.len(),
                self.input == old(self).input,
                self.routine == old(self).routine,
                self.log == old(self).log,
                self.emitted == old(self).emitted,
                extends(self.reports@, old(self).reports@),
                all_ok(added(self.reports@, old(self).reports@)),
            decreases n - i,
        {
            let ghost reports_before = self.reports@;
            let result = self.worker.left[i].work();
            self.reports = Ghost(self.reports@.push(result));
            proof {
                assert(added(self.reports@, old(self).reports@) =~= added(reports_before, old(self).reports@).push(result));
                assert(added(self.reports@, old(self).reports@).drop_last() =~= added(reports_before, old(self).reports@));
            }
            self.propagate_if_closed(result)?;
            i = i + 1;
        }
        let m = self.worker.right.len();
        let mut k: usize = 0;
        while k < m
            invariant
                m == self.worker.right@.len(),
                m == old(self).worker.right@.len(),
                n == 0 ==> i == 0,
                k <= m,
                self.pushes@.len() == old(self).pushes@.len(),
                self.input == old(self).input,
                self.routine == old(self).routine,
                self.log == old(self).log,
                self.emitted == old(self).emitted,
                extends(self.reports@, old(self).reports@),
                all_ok(added(self.reports@, old(self).reports@)),
            decreases m - k,
        {
            let ghost reports_before = self.reports@;
            let result = self.worker.right[k].work();
            self.reports = Ghost(self.reports@.push(result));
            proof {
                assert(added(self.reports@, old(self).reports@) =~= added(reports_before, old(self).reports@).push(result));
                assert(added(self.reports@, old(self).reports@).drop_last() =~= added(reports_before, old(self).reports@));
            }
            self.propagate_if_closed(result)?;
            k = k + 1;
        }
        Ok(())
    }

    /// What one step promises of the node before it (`before`) and after it
    /// (`after`) when it returned `r`:
    ///
    /// - it emitted a run of data, optionally closed by a signal it took from
    ///   one of its inputs last, and something when it succeeded;
    /// - the routine was sent every data message taken from each input, on
    ///   that input, and flushed once for every flush taken; when the step
    ///   succeeded, what it emitted as data is exactly what the routine handed
    ///   out during it;
    /// - when the left input, or the right input with nothing taken on the
    ///   left, was closed before the step and the routine had nothing to hand
    ///   out, or a parent reported `Closed`, the step closed every output,
    ///   emitted nothing and reported `Closed`; when an input closed during
    ///   the step, it closed every output and reported `Closed`.
    pub open spec fn stepped(before: Self, after: Self, r: Result<(), Error>) -> bool {
        let new = added(after.emitted@, before.emitted@);
        let left = added(after.input.left.received(), before.input.left.received());
        let right = added(after.input.right.received(), before.input.right.received());
        let nr = added(after.reports@, before.reports@);
        &&& extends(after.emitted@, before.emitted@)
        &&& signal_last(new)
        &&& r is Ok ==> new.len() > 0
        &&& new.len() > 0 && !(new.last() is Data) ==> signal_from_input(new.last(), after.input)
        &&& (after.input.left.closed() && !before.input.left.closed())
            || (after.input.right.closed() && !before.input.right.closed())
            ==> is_closed_err(r) && all_closed(after.pushes@)
        &&& extends(after.input.left.received(), before.input.left.received())
        &&& extends(after.input.right.received(), before.input.right.received())
        &&& extends(after.log@.taken, before.log@.taken)
        &&& extends(after.reports@, before.reports@)
        &&& after.log@.left == before.log@.left + data_of(left)
        &&& after.log@.right == before.log@.right + data_of(right)
        &&& after.log@.flushed == before.log@.flushed + flushes_in(left) + flushes_in(right)
        &&& r is Ok ==> added(after.log@.taken, before.log@.taken) == data_of(new)
        &&& (before.input.left.closed() || (before.input.right.closed() && left.len() == 0))
            && after.log@.faults == before.log@.faults && after.log@.taken == before.log@.taken
            ==> is_closed_err(r) && all_closed(after.pushes@) && after.emitted == before.emitted
        &&& heard_closed(nr) ==> is_closed_err(r) && all_closed(after.pushes@) && after.emitted == before.emitted
        &&& extends(after.log@.asked, before.log@.asked)
        &&& r is Ok && new.len() > 0 && new.last() is Flush ==> after.log@.flush_marks.len() == before.log@.flush_marks.len() + 1
            && after.log@.flush_marks.last() >= before.log@.asked.len()
            && flush_behind_its_output(after.log@.asked, after.log@.flush_marks, new)
    }

    /// A flush leaves behind the output it released: when a step succeeds
    /// by forwarding a flush, the routine was flushed during the step and
    /// asked for output exactly once after that flush, and its answer is
    /// what the step emitted ahead of the flush: that output as data, or
    /// nothing when it had none.
    pub proof fn flush_follows_released_output(before: Self, after: Self, r: Result<(), Error>)
        requires
            Self::stepped(before, after, r),
            r is Ok,
            added(after.emitted@, before.emitted@).last() is Flush,
        ensures
            ({
                let new = added(after.emitted@, before.emitted@);
                let marks = after.log@.flush_marks;
                let asked = after.log@.asked;
                &&& marks.len() > before.log@.flush_marks.len()
                &&& before.log@.asked.len() <= marks.last() < asked.len()
                &&& asked.len() == marks.last() + 1
                &&& asked.last() matches Some(x) ==> new.len() == 2 && new[0] == Message::<Out, S>::Data(x)
                &&& asked.last() is None ==> new.len() == 1
            }),
    {
        let new = added(after.emitted@, before.emitted@);
        if let Some(x) = after.log@.asked.last() {
            assert(new[0] == seq![Message::<Out, S>::Data(x), new.last()][0]);
        }
    }

    /// Work this node once; see [`Biunion`].
    pub fn step(&mut self) -> (r: Result<(), Error>)
        ensures
            Self::stepped(*old(self), *final(self), r),
    {
        proof {
            assert(added(self.input.left.received(), old(self).input.left.received()) =~= Seq::<Message<L, S>>::empty());
            assert(added(self.input.right.received(), old(self).input.right.received()) =~= Seq::<Message<R, S>>::empty());
            assert(added(self.reports@, old(self).reports@) =~= Seq::<Result<(), Error>>::empty());
            assert(old(self).log@.left + data_of(Seq::<Message<L, S>>::empty()) =~= old(self).log@.left);
            assert(old(self).log@.right + data_of(Seq::<Message<R, S>>::empty()) =~= old(self).log@.right);
        }
        if self.try_push()? {
            return Ok(());
        }
        let mut rounds: u64 = 0;
        loop
            invariant
                self.emitted == old(self).emitted,
                self.pushes@.len() == old(self).pushes@.len(),
                self.input.left.closed() == old(self).input.left.closed(),
                self.input.right.closed() == old(self).input.right.closed(),
                extends(self.input.left.received(), old(self).input.left.received()),
                extends(self.input.right.received(), old(self).input.right.received()),
                old(self).input.left.closed() ==> rounds == 0,
                old(self).input.right.closed() && added(self.input.left.received(), old(self).input.left.received()).len() == 0
                    ==> rounds == 0,
                extends(self.reports@, old(self).reports@),
                all_ok(added(self.reports@, old(self).reports@)),
                self.log@.taken == old(self).log@.taken,
                self.log@.faults == old(self).log@.faults,
                self.log@.flush_marks == old(self).log@.flush_marks,
                extends(self.log@.asked, old(self).log@.asked),
                ({
                    let left = added(self.input.left.received(), old(self).input.left.received());
                    let right = added(self.input.right.received(), old(self).input.right.received());
                    &&& self.log@.left == old(self).log@.left + data_of(left)
                    &&& self.log@.right == old(self).log@.right + data_of(right)
                    &&& self.log@.flushed == old(self).log@.flushed + flushes_in(left) + flushes_in(right)
                }),
            decreases ROUND_LIMIT - rounds,
        {
            if rounds == ROUND_LIMIT {
                return Err(Error::fatal("parents never produced input"));
            }
            rounds = rounds + 1;
            let ghost before = self.emitted@;
            let ghost left_before = self.input.left.received();
            let ghost right_before = self.input.right.received();
            let ghost reports_before = self.reports@;
            let left_poll = self.input.left.poll();
            let left_message = self.propagate_if_closed(left_poll)?;
            let ghost left_taken = left_message;
            proof {
                if let Some(m) = left_taken {
                    lemma_data_of_push(added(left_before, old(self).input.left.received()), m);
                    assert(added(self.input.left.received(), old(self).input.left.received())
                        =~= added(left_before, old(self).input.left.received()).push(m));
                } else {
                    assert(self.input.left.received() == left_before);
                }
            }
            match left_message {
                Some(Message::Data(data)) => {
                    self.feed_left(data)?;
                    proof {
                        assert(self.log@.left =~= old(self).log@.left + data_of(added(self.input.left.received(), old(self).input.left.received())));
                    }
                    if self.try_push()? {
                        return Ok(());
                    }
                },
                Some(Message::Flush(origin)) => {
                    let r = self.forward(Message::Flush(origin));
                    return match r { Ok(_) => Ok(()), Err(e) => Err(e) };
                },
                Some(Message::Marker(origin)) => {
                    let r = self.forward(Message::Marker(origin));
                    return match r { Ok(_) => Ok(()), Err(e) => Err(e) };
                },
                None => {
                    let right_poll = self.input.right.poll();
                    let right_message = self.propagate_if_closed(right_poll)?;
                    let ghost right_taken = right_message;
                    proof {
                        if let Some(m) = right_taken {
                            lemma_data_of_push(added(right_before, old(self).input.right.received()), m);
                            assert(added(self.input.right.received(), old(self).input.right.received())
                                =~= added(right_before, old(self).input.right.received()).push(m));
                        } else {
                            assert(self.input.right.received() == right_before);
                        }
                    }
                    match right_message {
                        Some(Message::Data(data)) => {
                            self.feed_right(data)?;
                            proof {
                                assert(self.log@.right =~= old(self).log@.right + data_of(added(self.input.right.received(), old(self).input.right.received())));
                            }
                            if self.try_push()? {
                                return Ok(());
                            }
                        },
                        Some(Message::Flush(origin)) => {
                            let r = self.forward(Message::Flush(origin));
                            return match r { Ok(_) => Ok(()), Err(e) => Err(e) };
                        },
                        Some(Message::Marker(origin)) => {
                            let r = self.forward(Message::Marker(origin));
                            return match r { Ok(_) => Ok(()), Err(e) => Err(e) };
                        },
                        None => {
                            let worked = self.work_parents();
                            proof {
                                let nr0 = added(reports_before, old(self).reports@);
                                let nr1 = added(self.reports@, reports_before);
                                let nr = added(self.reports@, old(self).reports@);
                                assert(nr =~= nr0 + nr1);
                                if worked is Ok {
                                    assert(all_ok(nr));
                                } else if heard_closed(nr) {
                                    let i = choose|i: int| 0 <= i < nr.len() && is_closed_err(#[trigger] nr[i]);
                                    if i < nr.len() - 1 {
                                        assert(nr1.drop_last()[i - nr0.len()] == nr[i]);
                                    }
                                }
                            }
                            worked?;
                        },
                    }
                },
            }
        }
    }
}

impl<L, R, Out: Clone, S: Clone, W: BiunionRoutine<L, R, Out>> Workable for Biunion<L, R, Out, S, W> {
    fn work(&mut self) -> (r: Result<(), Error>)
        ensures
            Self::stepped(*old(self), *final(self), r),
    {
        self.step()
    }
}

impl<L, R, Out: Clone, S: Clone, W: BiunionRoutine<L, R, Out>> BiunionTrait for Biunion<L, R, Out, S, W> {
    type Left = L;
    type Right = R;
    type Out = Out;
    type Signal = S;
}

impl<L, R, Out: Clone, S: Clone, W: BiunionRoutine<L, R, Out>> InputSide<L, S, Left> for Biunion<L, R, Out, S, W> {
    fn input_sender(&self) -> EdgeSender<L, S> {
        self.input.left.sender()
    }
}

impl<L, R, Out: Clone, S: Clone, W: BiunionRoutine<L, R, Out>> InputSide<R, S, Right> for Biunion<L, R, Out, S, W> {
    fn input_sender(&self) -> EdgeSender<R, S> {
        self.input.right.sender()
    }
}

impl<L, R, Out: Clone, S: Clone, W: BiunionRoutine<L, R, Out>> OutputSide<Out, S> for Biunion<L, R, Out, S, W> {
    open spec fn takes_every_output(&self) -> bool {
        true
    }

    open spec fn output_count(&self) -> nat {
        self.pushes@.len()
    }

    fn add_output(&mut self, output: Box<dyn Closeable<Out, S>>) -> (r: Result<(), Error>)
        ensures
            r is Ok,
            final(self).pushes@ == old(self).pushes@.push(output),
    {
        proof {
            lemma_push(self.pushes@, output);
        }
        self.pushes.push(output);
        Ok(())
    }
}

impl<L, R, Out: Clone, S: Clone, W: BiunionRoutine<L, R, Out>> ParentSide<Left> for Biunion<L, R, Out, S, W> {
    open spec fn takes_every_parent(&self) -> bool {
        true
    }

    open spec fn parent_count(&self) -> nat {
        self.worker.left@.len()
    }

    fn add_workable(&mut self, workable: Box<dyn Workable>) -> Result<(), Error> {
        proof {
            lemma_push(self.worker.left@, workable);
        }
        self.worker.left.push(workable);
        Ok(())
    }
}

impl<L, R, Out: Clone, S: Clone, W: BiunionRoutine<L, R, Out>> ParentSide<Right> for Biunion<L, R, Out, S, W> {
    open spec fn takes_every_parent(&self) -> bool {
        true
    }

    open spec fn parent_count(&self) -> nat {
        self.worker.right@.len()
    }

    fn add_workable(&mut self, workable: Box<dyn Workable>) -> Result<(), Error> {
        proof {
            lemma_push(self.worker.right@, workable);
        }
        self.worker.right.push(workable);
        Ok(())
    }
}

} // verus!
