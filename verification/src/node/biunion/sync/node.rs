//! [`Biunion`]: a worked node that merges two inputs and drops repeated
//! signals, keeping one record of forwarded signals per input.
use crate::edge::{Edge, EdgeSender};
use crate::error::Error;
use crate::graph::{Closeable, InputSide, OutputSide, ParentSide, Workable, ROUND_LIMIT};
use crate::message::{
    added, all_data, data_of, extends, flushes_in, lemma_data_extends, lemma_data_of_push, lemma_data_then, lemma_data_then_run,
    lemma_push, lone_signal, origin_of, same_signal, signal_last, Message,
};
use crate::node::biunion::marker::{Left, Right};
use crate::node::biunion::routine::BiunionRoutine;
use crate::node::biunion::work::node::{empty_merge_log, MergeLog};
use crate::node::line::sync::node::lemma_taken_then;
use crate::node::routine::flush_behind_its_output;
use crate::signal::{Origin, Visitors};
use vstd::prelude::*;

verus! {

/// Selects the left input of a [`Biunion`].
pub struct LeftSource {}

/// Selects the right input of a [`Biunion`].
pub struct RightSource {}

/// A worked node with a left and a right input stream and one output stream.
pub trait BiunionTrait: Workable {
    type Left;
    type Right;
    type Out;
    type Signal;
}

/// Like [`crate::node::biunion::work::Biunion`] without closing, but a
/// signal whose origin was already forwarded from the same input since
/// the last data output is dropped. Emitting data forgets both records.
#[verifier::reject_recursive_types(L)]
#[verifier::reject_recursive_types(R)]
#[verifier::reject_recursive_types(Out)]
#[verifier::reject_recursive_types(S)]
pub struct Biunion<L, R, Out, S, W> {
    pub left_visitors: Visitors<S>,
    pub right_visitors: Visitors<S>,
    pub worker: W,
    pub left_workers: Vec<Box<dyn Workable>>,
    pub right_workers: Vec<Box<dyn Workable>>,
    pub pushes: Vec<Box<dyn Closeable<Out, S>>>,
    pub left_input: Edge<L, S>,
    pub right_input: Edge<R, S>,
    /// Every message emitted, oldest first.
    pub emitted: Ghost<Seq<Message<Out, S>>>,
    /// What this node handed to its routine and took from it.
    pub log: Ghost<MergeLog<L, R, Out>>,
}

impl<L, R, Out: Clone, S: Origin, W: BiunionRoutine<L, R, Out>> Biunion<L, R, Out, S, W> {
    /// A node running `worker`, with no parents, outputs or visitors yet.
    pub fn new(worker: W) -> (b: Self)
        ensures
            b.worker == worker,
            b.left_visitors.seen@.len() == 0,
            b.right_visitors.seen@.len() == 0,
            b.left_workers@.len() == 0,
            b.right_workers@.len() == 0,
            b.pushes@.len() == 0,
            !b.left_input.closed(),
            !b.right_input.closed(),
            b.emitted@.len() == 0,
            b.log@ == empty_merge_log::<L, R, Out>(),
    {
        Biunion {
            left_visitors: Visitors::new(),
            right_visitors: Visitors::new(),
            worker,
            left_workers: Vec::new(),
            right_workers: Vec::new(),
            pushes: Vec::new(),
            left_input: Edge::new(),
            right_input: Edge::new(),
            emitted: Ghost(Seq::empty()),
            log: Ghost(empty_merge_log()),
        }
    }

    /// The same as [`Biunion::new`].
    pub fn of(worker: W) -> (b: Self)
        ensures
            b.worker == worker,
            b.left_visitors.seen@.len() == 0,
            b.right_visitors.seen@.len() == 0,
            b.left_workers@.len() == 0,
            b.right_workers@.len() == 0,
            b.pushes@.len() == 0,
            !b.left_input.closed(),
            !b.right_input.closed(),
            b.emitted@.len() == 0,
            b.log@ == empty_merge_log::<L, R, Out>(),
    {
        Biunion::new(worker)
    }

    /// The record of forwarded signals kept for one input.
    pub open spec fn visitors_of(&self, from_left: bool) -> Visitors<S> {
        if from_left { self.left_visitors } else { self.right_visitors }
    }

    /// Push `obj` into every output edge.
    fn push(&mut self, obj: Message<Out, S>) -> (r: Result<(), Error>)
        ensures
            old(self).pushes@.len() == 0 ==> r is Ok,
            r is Ok ==> final(self).emitted@ == old(self).emitted@.push(obj),
            r is Err ==> final(self).emitted@ == old(self).emitted@,
            final(self).left_visitors == old(self).left_visitors,
            final(self).right_visitors == old(self).right_visitors,
            final(self).left_input == old(self).left_input,
            final(self).worker == old(self).worker,
            final(self).log == old(self).log,
            final(self).right_input == old(self).right_input,
    {
        let n = self.pushes.len();
        let mut i: usize = 0;
        while i < n
            invariant
                n == self.pushes@.len(),
                n == old(self).pushes@.len(),
                i <= n,
                self.left_input == old(self).left_input,
                self.worker == old(self).worker,
                self.log == old(self).log,
                self.right_input == old(self).right_input,
                self.left_visitors == old(self).left_visitors,
                self.right_visitors == old(self).right_visitors,
                self.emitted == old(self).emitted,
            decreases n - i,
        {
            self.pushes[i].push(obj.clone())?;
            i = i + 1;
        }
        self.emitted = Ghost(self.emitted@.push(obj));
        Ok(())
    }

    /// Emit the routine's next output as data, if there is one; emitting
    /// data forgets both records. `true` when data was emitted.
    fn try_push(&mut self) -> (r: Result<bool, Error>)
        ensures
            extends(final(self).emitted@, old(self).emitted@),
            all_data(added(final(self).emitted@, old(self).emitted@)),
            r == Ok::<bool, Error>(true) ==> final(self).emitted@.len() == old(self).emitted@.len() + 1
                && final(self).left_visitors.seen@.len() == 0 && final(self).right_visitors.seen@.len() == 0,
            r != Ok::<bool, Error>(true) ==> final(self).emitted@ == old(self).emitted@,
            r == Ok::<bool, Error>(false) ==> final(self).left_visitors == old(self).left_visitors
                && final(self).right_visitors == old(self).right_visitors,
            final(self).left_input == old(self).left_input,
            final(self).right_input == old(self).right_input,
            final(self).log@.left == old(self).log@.left,
            final(self).log@.right == old(self).log@.right,
            final(self).log@.flushed == old(self).log@.flushed,
            extends(final(self).log@.taken, old(self).log@.taken),
            r is Ok ==> added(final(self).log@.taken, old(self).log@.taken) == data_of(added(final(self).emitted@, old(self).emitted@)),
            final(self).log@.flush_marks == old(self).log@.flush_marks,
            extends(final(self).log@.asked, old(self).log@.asked),
            r == Ok::<bool, Error>(true) ==> final(self).log@.asked == old(self).log@.asked.push(Some(final(self).log@.taken.last()))
                && added(final(self).emitted@, old(self).emitted@) == seq![Message::<Out, S>::Data(final(self).log@.taken.last())],
            r == Ok::<bool, Error>(false) ==> final(self).log@.asked == old(self).log@.asked.push(None),
    {
        let answer = self.worker.next();
        let ghost log0 = self.log@;
        match answer {
            Ok(Some(data)) => {
                self.log = Ghost(MergeLog { taken: log0.taken.push(data), asked: log0.asked.push(Some(data)), ..log0 });
                self.left_visitors.clear();
                self.right_visitors.clear();
                let ghost before = self.emitted@;
                proof {
                    lemma_data_then(before, before, Message::<Out, S>::Data(data));
                }
                self.push(Message::Data(data))?;
                proof {
                    lemma_data_of_push(Seq::<Message<Out, S>>::empty(), Message::<Out, S>::Data(data));
                    assert(added(self.emitted@, old(self).emitted@) =~= seq![Message::<Out, S>::Data(data)]);
                    assert(added(self.log@.taken, old(self).log@.taken) =~= seq![data]);
                    assert(Seq::<Message<Out, S>>::empty().push(Message::<Out, S>::Data(data)) =~= seq![Message::<Out, S>::Data(data)]);
                }
                Ok(true)
            },
            Ok(None) => {
                self.log = Ghost(MergeLog { asked: log0.asked.push(None), ..log0 });
                proof {
                    assert(added(self.log@.taken, old(self).log@.taken) =~= Seq::<Out>::empty());
                    assert(added(self.emitted@, old(self).emitted@) =~= Seq::<Message<Out, S>>::empty());
                }
                Ok(false)
            },
            Err(e) => {
                self.log = Ghost(MergeLog { faults: log0.faults + 1, ..log0 });
                Err(e)
            },
        }
    }

    /// Forward `signal`, which came from the left input when `from_left`,
    /// unless its origin was already forwarded from that input since the
    /// last data output; `true` when it was forwarded.
    fn maybe_forward(&mut self, signal: Message<Out, S>, from_left: bool) -> (r: Result<bool, Error>)
        requires
            !(signal is Data),
        ensures
            old(self).pushes@.len() == 0 ==> r is Ok,
            final(self).left_input == old(self).left_input,
            final(self).worker == old(self).worker,
            final(self).log == old(self).log,
            final(self).right_input == old(self).right_input,
            old(self).visitors_of(from_left).has(origin_of(signal)) ==> r == Ok::<bool, Error>(false)
                && final(self).emitted == old(self).emitted,
            !old(self).visitors_of(from_left).has(origin_of(signal)) ==> r == Ok::<bool, Error>(true) || r is Err,
            r == Ok::<bool, Error>(true) ==> final(self).emitted@ == old(self).emitted@.push(signal)
                && final(self).visitors_of(from_left).has(origin_of(signal)),
            r == Ok::<bool, Error>(false) ==> final(self).left_visitors == old(self).left_visitors
                && final(self).right_visitors == old(self).right_visitors,
            r is Err ==> final(self).emitted == old(self).emitted,
            forall|o: S| old(self).left_visitors.has(o) ==> #[trigger] final(self).left_visitors.has(o),
            forall|o: S| old(self).right_visitors.has(o) ==> #[trigger] final(self).right_visitors.has(o),
    {
        let origin = match &signal {
            Message::Flush(o) => o.duplicate(),
            Message::Marker(o) => o.duplicate(),
            Message::Data(_) => {
                return Ok(false);
            },
        };
        let seen = if from_left {
            self.left_visitors.contains(&origin)
        } else {
            self.right_visitors.contains(&origin)
        };
        if seen {
            return Ok(false);
        }
        if from_left {
            self.left_visitors.insert(origin);
        } else {
            self.right_visitors.insert(origin);
        }
        self.push(signal)?;
        Ok(true)
    }

    /// Work every parent once, left ones first.
    fn work_parents(&mut self) -> (r: Result<(), Error>)
        ensures
            old(self).left_workers@.len() == 0 && old(self).right_workers@.len() == 0 ==> r is Ok,
            final(self).left_input == old(self).left_input,
            final(self).worker == old(self).worker,
            final(self).log == old(self).log,
            final(self).right_input == old(self).right_input,
            final(self).emitted == old(self).emitted,
            final(self).left_visitors == old(self).left_visitors,
            final(self).right_visitors == old(self).right_visitors,
    {
        let n = self.left_workers.len();
        let mut i: usize = 0;
        while i < n
            invariant
                n == self.left_workers@.len(),
                n == old(self).left_workers@.len(),
                self.right_workers@.len() == old(self).right_workers@.len(),
                i <= n,
                self.left_input == old(self).left_input,
                self.worker == old(self).worker,
                self.log == old(self).log,
                self.right_input == old(self).right_input,
                self.emitted == old(self).emitted,
                self.left_visitors == old(self).left_visitors,
                self.right_visitors == old(self).right_visitors,
            decreases n - i,
        {
            self.left_workers[i].work()?;
            i = i + 1;
        }
        let m = self.right_workers.len();
        let mut k: usize = 0;
        while k < m
            invariant
                m == self.right_workers@.len(),
                m == old(self).right_workers@.len(),
                n == 0 ==> i == 0,
                k <= m,
                self.left_input == old(self).left_input,
                self.worker == old(self).worker,
                self.log == old(self).log,
                self.right_input == old(self).right_input,
                self.emitted == old(self).emitted,
                self.left_visitors == old(self).left_visitors,
                self.right_visitors == old(self).right_visitors,
            decreases m - k,
        {
            self.right_workers[k].work()?;
            k = k + 1;
        }
        Ok(())
    }

    /// Handle a flush or marker taken from one input: a flush flushes the
    /// routine and emits one more output first; the signal is then
    /// forwarded unless that input already forwarded its origin.
    fn take_signal(&mut self, signal: Message<Out, S>, from_left: bool) -> (r: Result<bool, Error>)
        requires
            !(signal is Data),
        ensures
            signal is Marker && old(self).pushes@.len() == 0 ==> r is Ok,
            final(self).left_input == old(self).left_input,
            final(self).right_input == old(self).right_input,
            extends(final(self).emitted@, old(self).emitted@),
            r == Ok::<bool, Error>(true) ==> signal_last(added(final(self).emitted@, old(self).emitted@))
                && added(final(self).emitted@, old(self).emitted@).len() > 0
                && added(final(self).emitted@, old(self).emitted@).last() == signal,
            r == Ok::<bool, Error>(false) || r is Err ==> all_data(added(final(self).emitted@, old(self).emitted@)),
            r == Ok::<bool, Error>(true) ==> final(self).visitors_of(from_left).has(origin_of(signal)),
            r == Ok::<bool, Error>(true) && added(final(self).emitted@, old(self).emitted@).len() == 1
                ==> !old(self).visitors_of(from_left).has(origin_of(signal)),
            r == Ok::<bool, Error>(false) ==> final(self).emitted == old(self).emitted
                && final(self).left_visitors == old(self).left_visitors
                && final(self).right_visitors == old(self).right_visitors,
            r == Ok::<bool, Error>(true) && added(final(self).emitted@, old(self).emitted@).len() == 1 ==> {
                &&& forall|o: S| old(self).left_visitors.has(o) ==> #[trigger] final(self).left_visitors.has(o)
                &&& forall|o: S| old(self).right_visitors.has(o) ==> #[trigger] final(self).right_visitors.has(o)
            },
            final(self).log@.left == old(self).log@.left,
            final(self).log@.right == old(self).log@.right,
            final(self).log@.flushed == old(self).log@.flushed + if signal is Flush { 1nat } else { 0nat },
            extends(final(self).log@.taken, old(self).log@.taken),
            r is Ok ==> added(final(self).log@.taken, old(self).log@.taken) == data_of(added(final(self).emitted@, old(self).emitted@)),
            extends(final(self).log@.asked, old(self).log@.asked),
            extends(final(self).log@.flush_marks, old(self).log@.flush_marks),
            r == Ok::<bool, Error>(true) && signal is Flush ==> final(self).log@.flush_marks.len() > old(self).log@.flush_marks.len()
                && flush_behind_its_output(final(self).log@.asked, final(self).log@.flush_marks,
                    added(final(self).emitted@, old(self).emitted@)),
    {
        let ghost log0 = self.log@;
        if let Message::Flush(_) = &signal {
            let flushed = self.worker.flush();
            self.log = Ghost(MergeLog {
                flushed: log0.flushed + 1,
                faults: log0.faults + if flushed is Err { 1nat } else { 0nat },
                flush_marks: log0.flush_marks.push(log0.asked.len()),
                ..log0
            });
            flushed?;
            let pushed = self.try_push()?;
            proof {
                if pushed {
                    assert(forall|o: S| !self.left_visitors.has(o));
                    assert(forall|o: S| !self.right_visitors.has(o));
                }
            }
        }
        let ghost mid = self.emitted@;
        proof {
            lemma_data_then(old(self).emitted@, mid, signal);
        }
        let r = self.maybe_forward(signal, from_left);
        proof {
            if r == Ok::<bool, Error>(true) && added(self.emitted@, old(self).emitted@).len() == 1 {
                assert(mid =~= old(self).emitted@);
            }
            assert(added(self.log@.taken, old(self).log@.taken) =~= added(self.log@.taken, log0.taken));
            lemma_data_of_push(added(mid, old(self).emitted@), signal);
            if r == Ok::<bool, Error>(true) {
                assert(added(self.emitted@, old(self).emitted@) =~= added(mid, old(self).emitted@).push(signal));
            }
            if !(signal is Flush) {
                assert(added(self.log@.taken, old(self).log@.taken) =~= Seq::<Out>::empty());
                assert(added(mid, old(self).emitted@) =~= Seq::<Message<Out, S>>::empty());
            }
            if r == Ok::<bool, Error>(true) && signal is Flush {
                let new = added(self.emitted@, old(self).emitted@);
                match self.log@.asked.last() {
                    Some(x) => {
                        assert(added(mid, old(self).emitted@) =~= seq![Message::<Out, S>::Data(x)]);
                        assert(new =~= seq![Message::<Out, S>::Data(x), signal]);
                    },
                    None => {
                        assert(added(mid, old(self).emitted@) =~= Seq::<Message<Out, S>>::empty());
                        assert(new =~= seq![signal]);
                    },
                }
            }
        }
        r
    }

    /// The signal a step ended with came from the left input when
    /// `from_left`, else from the right: it is that input's last message,
    /// and that input remembers its origin. When the signal was all the step
    /// emitted, that input had not forwarded its origin since the last data
    /// output.
    pub open spec fn forwarded_from(before: Self, after: Self, from_left: bool) -> bool {
        let new = added(after.emitted@, before.emitted@);
        let m = new.last();
        &&& if from_left {
            after.left_input.received().len() > 0 && same_signal(m, after.left_input.received().last())
        } else {
            after.right_input.received().len() > 0 && same_signal(m, after.right_input.received().last())
        }
        &&& after.visitors_of(from_left).has(origin_of(m))
        &&& new.len() == 1 ==> !before.visitors_of(from_left).has(origin_of(m))
    }

    /// What one step promises of the node before it (`before`) and after it
    /// (`after`) when it returned `r`: a run of data, optionally closed by
    /// one signal taken from one of the inputs, and something when it
    /// succeeded. A step that emitted a single signal keeps every origin
    /// both inputs had forwarded.
    pub open spec fn stepped(before: Self, after: Self, r: Result<(), Error>) -> bool {
        let new = added(after.emitted@, before.emitted@);
        &&& extends(after.emitted@, before.emitted@)
        &&& signal_last(new)
        &&& r is Ok ==> new.len() > 0
        &&& new.len() > 0 && !(new.last() is Data) ==> Self::forwarded_from(before, after, true)
            || Self::forwarded_from(before, after, false)
        &&& lone_signal(new) ==> {
            &&& forall|o: S| before.left_visitors.has(o) ==> #[trigger] after.left_visitors.has(o)
            &&& forall|o: S| before.right_visitors.has(o) ==> #[trigger] after.right_visitors.has(o)
        }
        &&& extends(after.left_input.received(), before.left_input.received())
        &&& extends(after.right_input.received(), before.right_input.received())
        &&& extends(after.log@.taken, before.log@.taken)
        &&& ({
            let left = added(after.left_input.received(), before.left_input.received());
            let right = added(after.right_input.received(), before.right_input.received());
            &&& after.log@.left == before.log@.left + data_of(left)
            &&& after.log@.right == before.log@.right + data_of(right)
            &&& after.log@.flushed == before.log@.flushed + flushes_in(left) + flushes_in(right)
            &&& r is Ok ==> added(after.log@.taken, before.log@.taken) == data_of(new)
        })
        &&& extends(after.log@.asked, before.log@.asked)
        &&& r is Ok && new.len() > 0 && new.last() is Flush ==> after.log@.flush_marks.len() > before.log@.flush_marks.len()
            && flush_behind_its_output(after.log@.asked, after.log@.flush_marks, new)
    }

    /// A flush leaves behind the output it released: when a step succeeds
    /// by forwarding a flush, the routine was flushed during the step and
    /// asked for output exactly once after the last flush, and its answer
    /// is what the step emitted ahead of the flush: that output as data, or
    /// nothing when it had none.
    pub proof fn flush_follows_released_output(before: Self, after: Self, r: Result<(), Error>)
        requires
            Self::stepped(before, after, r),
            r is Ok,
            added(after.emitted@, before.emitted@).last() is Flush,
        ensures
            ({
                let new = added(after.emitted@, before.emitted@);
                let marks = after.log@.flush_marks;
                let asked = after.log@.asked;
                &&& marks.len() > before.log@.flush_marks.len()
                &&& asked.len() == marks.last() + 1
                &&& asked.last() matches Some(x) ==> new.len() == 2 && new[0] == Message::<Out, S>::Data(x)
                &&& asked.last() is None ==> new.len() == 1
            }),
    {
        let new = added(after.emitted@, before.emitted@);
        if let Some(x) = after.log@.asked.last() {
            assert(new[0] == seq![Message::<Out, S>::Data(x), new.last()][0]);
        }
    }

    /// Consecutive states of one node, each step emitting a single signal.
    pub open spec fn signal_steps(nodes: Seq<Self>, results: Seq<Result<(), Error>>) -> bool {
        &&& nodes.len() == results.len() + 1
        &&& forall|k: int|
            #![trigger results[k]]
            0 <= k < results.len() ==> Self::stepped(nodes[k], nodes[k + 1], results[k])
                && lone_signal(added(nodes[k + 1].emitted@, nodes[k].emitted@))
    }

    /// Once a step has forwarded a signal from one input, that input keeps
    /// its origin for as long as the node forwards only signals.
    proof fn origin_remembered(nodes: Seq<Self>, results: Seq<Result<(), Error>>, i: int, m: int, from_left: bool)
        requires
            Self::signal_steps(nodes, results),
            0 <= i < m <= results.len(),
            Self::forwarded_from(nodes[i], nodes[i + 1], from_left),
        ensures
            nodes[m].visitors_of(from_left).has(origin_of(added(nodes[i + 1].emitted@, nodes[i].emitted@)[0])),
        decreases m - i,
    {
        assert(Self::stepped(nodes[i], nodes[i + 1], results[i]));
        if m > i + 1 {
            Self::origin_remembered(nodes, results, i, m - 1, from_left);
            assert(Self::stepped(nodes[m - 1], nodes[m], results[m - 1]));
        }
    }

    /// A signal leaves once per input: over consecutive steps that each emit
    /// a single signal, two signals forwarded from the same input never share
    /// an origin. A signal that reaches the node along several paths leaves
    /// it at most once for each input it arrives on.
    pub proof fn signals_leave_once_per_input(
        nodes: Seq<Self>,
        results: Seq<Result<(), Error>>,
        i: int,
        j: int,
        from_left: bool,
    )
        requires
            Self::signal_steps(nodes, results),
            0 <= i < j < results.len(),
            Self::forwarded_from(nodes[i], nodes[i + 1], from_left),
            Self::forwarded_from(nodes[j], nodes[j + 1], from_left),
        ensures
            origin_of(added(nodes[i + 1].emitted@, nodes[i].emitted@)[0])@
                != origin_of(added(nodes[j + 1].emitted@, nodes[j].emitted@)[0])@,
    {
        let first = origin_of(added(nodes[i + 1].emitted@, nodes[i].emitted@)[0]);
        let second = origin_of(added(nodes[j + 1].emitted@, nodes[j].emitted@)[0]);
        Self::origin_remembered(nodes, results, i, j, from_left);
        assert(Self::stepped(nodes[j], nodes[j + 1], results[j]));
        if first@ == second@ {
            let seen = nodes[j].visitors_of(from_left).seen@;
            let t = choose|t: int| 0 <= t < seen.len() && (#[trigger] seen[t])@ == first@;
            assert(seen[t]@ == second@);
            assert(nodes[j].visitors_of(from_left).has(second));
        }
    }

    /// Work this node once: emit the routine's next output, or else take
    /// input, the left edge first, until something was emitted.
    pub fn step(&mut self) -> (r: Result<(), Error>)
        ensures
            Self::stepped(*old(self), *final(self), r),
    {
        proof {
            assert(added(self.left_input.received(), old(self).left_input.received()) =~= Seq::<Message<L, S>>::empty());
            assert(added(self.right_input.received(), old(self).right_input.received()) =~= Seq::<Message<R, S>>::empty());
            assert(old(self).log@.left + data_of(Seq::<Message<L, S>>::empty()) =~= old(self).log@.left);
            assert(old(self).log@.right + data_of(Seq::<Message<R, S>>::empty()) =~= old(self).log@.right);
        }
        if self.try_push()? {
            return Ok(());
        }
        let mut rounds: u64 = 0;
        loop
            invariant
                self.emitted == old(self).emitted,
                extends(self.log@.asked, old(self).log@.asked),
                extends(self.log@.flush_marks, old(self).log@.flush_marks),
                extends(self.emitted@, old(self).emitted@),
                all_data(added(self.emitted@, old(self).emitted@)),
                self.emitted@ == old(self).emitted@ ==> self.left_visitors == old(self).left_visitors
                    && self.right_visitors == old(self).right_visitors,
                extends(self.left_input.received(), old(self).left_input.received()),
                extends(self.right_input.received(), old(self).right_input.received()),
                extends(self.log@.taken, old(self).log@.taken),
                added(self.log@.taken, old(self).log@.taken) == data_of(added(self.emitted@, old(self).emitted@)),
                ({
                    let left = added(self.left_input.received(), old(self).left_input.received());
                    let right = added(self.right_input.received(), old(self).right_input.received());
                    &&& self.log@.left == old(self).log@.left + data_of(left)
                    &&& self.log@.right == old(self).log@.right + data_of(right)
                    &&& self.log@.flushed == old(self).log@.flushed + flushes_in(left) + flushes_in(right)
                }),
            decreases ROUND_LIMIT - rounds,
        {
            if rounds == ROUND_LIMIT {
                return Err(Error::fatal("parents never produced input"));
            }
            rounds = rounds + 1;
            let ghost before = self.emitted@;
            let ghost left_before = self.left_input.received();
            let ghost right_before = self.right_input.received();
            let ghost taken_before = self.log@.taken;
            let left_message = self.left_input.poll()?;
            let ghost left_taken = left_message;
            proof {
                if let Some(m) = left_taken {
                    lemma_data_of_push(added(left_before, old(self).left_input.received()), m);
                    assert(added(self.left_input.received(), old(self).left_input.received())
                        =~= added(left_before, old(self).left_input.received()).push(m));
                }
            }
            match left_message {
                Some(Message::Data(data)) => {
                    let ghost log0 = self.log@;
                    let sent = crate::node::routine::Send::<L, Left>::send(&mut self.worker, data);
                    self.log = Ghost(MergeLog { left: log0.left.push(data), faults: log0.faults + if sent is Err { 1nat } else { 0nat }, ..log0 });
                    proof {
                        assert(self.log@.left =~= old(self).log@.left + data_of(added(self.left_input.received(), old(self).left_input.received())));
                    }
                    sent?;
                    let pushed = self.try_push();
                    proof {
                        lemma_data_extends(old(self).emitted@, before, self.emitted@);
                        if pushed is Ok {
                            lemma_taken_then(old(self).log@.taken, taken_before, self.log@.taken, old(self).emitted@, before, self.emitted@);
                        }
                    }
                    if pushed? {
                        return Ok(());
                    }
                },
                Some(Message::Flush(origin)) => {
                    let forwarded = self.take_signal(Message::Flush(origin), true);
                    match forwarded {
                        Ok(true) => {
                            proof {
                                lemma_taken_then(old(self).log@.taken, taken_before, self.log@.taken, old(self).emitted@, before, self.emitted@);
                                lemma_data_then_run(old(self).emitted@, before, self.emitted@);
                                if added(self.emitted@, old(self).emitted@).len() == 1 {
                                    assert(before =~= old(self).emitted@);
                                }
                            }
                            return Ok(());
                        },
                        Ok(false) => {
                            proof {
                                lemma_data_extends(old(self).emitted@, before, self.emitted@);
                                lemma_taken_then(old(self).log@.taken, taken_before, self.log@.taken, old(self).emitted@, before, self.emitted@);
                            }
                        },
                        Err(e) => {
                            proof { lemma_data_extends(old(self).emitted@, before, self.emitted@); }
                            return Err(e);
                        },
                    }
                },
                Some(Message::Marker(origin)) => {
                    let forwarded = self.take_signal(Message::Marker(origin), true);
                    match forwarded {
                        Ok(true) => {
                            proof {
                                lemma_taken_then(old(self).log@.taken, taken_before, self.log@.taken, old(self).emitted@, before, self.emitted@);
                                lemma_data_then_run(old(self).emitted@, before, self.emitted@);
                                if added(self.emitted@, old(self).emitted@).len() == 1 {
                                    assert(before =~= old(self).emitted@);
                                }
                            }
                            return Ok(());
                        },
                        Ok(false) => {
                            proof {
                                lemma_data_extends(old(self).emitted@, before, self.emitted@);
                                lemma_taken_then(old(self).log@.taken, taken_before, self.log@.taken, old(self).emitted@, before, self.emitted@);
                            }
                        },
                        Err(e) => {
                            proof { lemma_data_extends(old(self).emitted@, before, self.emitted@); }
                            return Err(e);
                        },
                    }
                },
                None => {
                    let right_message = self.right_input.poll()?;
                    let ghost right_taken = right_message;
                    proof {
                        if let Some(m) = right_taken {
                            lemma_data_of_push(added(right_before, old(self).right_input.received()), m);
                            assert(added(self.right_input.received(), old(self).right_input.received())
                                =~= added(right_before, old(self).right_input.received()).push(m));
                        }
                    }
                    match right_message {
                        Some(Message::Data(data)) => {
                            let ghost log0 = self.log@;
                            let sent = crate::node::routine::Send::<R, Right>::send(&mut self.worker, data);
                            self.log = Ghost(MergeLog { right: log0.right.push(data), faults: log0.faults + if sent is Err { 1nat } else { 0nat }, ..log0 });
                            proof {
                                assert(self.log@.right =~= old(self).log@.right + data_of(added(self.right_input.received(), old(self).right_input.received())));
                            }
                            sent?;
                            let pushed = self.try_push();
                            proof {
                                lemma_data_extends(old(self).emitted@, before, self.emitted@);
                                if pushed is Ok {
                                    lemma_taken_then(old(self).log@.taken, taken_before, self.log@.taken, old(self).emitted@, before, self.emitted@);
                                }
                            }
                            if pushed? {
                                return Ok(());
                            }
                        },
                        Some(Message::Flush(origin)) => {
                            let forwarded = self.take_signal(Message::Flush(origin), false);
                            match forwarded {
                                Ok(true) => {
                                    proof {
                                        lemma_taken_then(old(self).log@.taken, taken_before, self.log@.taken, old(self).emitted@, before, self.emitted@);
                                        lemma_data_then_run(old(self).emitted@, before, self.emitted@);
                                        if added(self.emitted@, old(self).emitted@).len() == 1 {
                                            assert(before =~= old(self).emitted@);
                                        }
                                    }
                                    return Ok(());
                                },
                                Ok(false) => {
                                    proof {
                                        lemma_data_extends(old(self).emitted@, before, self.emitted@);
                                        lemma_taken_then(old(self).log@.taken, taken_before, self.log@.taken, old(self).emitted@, before, self.emitted@);
                                    }
                                },
                                Err(e) => {
                                    proof { lemma_data_extends(old(self).emitted@, before, self.emitted@); }
                                    return Err(e);
                                },
                            }
                        },
                        Some(Message::Marker(origin)) => {
                            let forwarded = self.take_signal(Message::Marker(origin), false);
                            match forwarded {
                                Ok(true) => {
                                    proof {
                                        lemma_taken_then(old(self).log@.taken, taken_before, self.log@.taken, old(self).emitted@, before, self.emitted@);
                                        lemma_data_then_run(old(self).emitted@, before, self.emitted@);
                                        if added(self.emitted@, old(self).emitted@).len() == 1 {
                                            assert(before =~= old(self).emitted@);
                                        }
                                    }
                                    return Ok(());
                                },
                                Ok(false) => {
                                    proof {
                                        lemma_data_extends(old(self).emitted@, before, self.emitted@);
                                        lemma_taken_then(old(self).log@.taken, taken_before, self.log@.taken, old(self).emitted@, before, self.emitted@);
                                    }
                                },
                                Err(e) => {
                                    proof { lemma_data_extends(old(self).emitted@, before, self.emitted@); }
                                    return Err(e);
                                },
                            }
                        },
                        None => {
                            self.work_parents()?;
                        },
                    }
                },
            }
        }
    }
}

impl<L, R, Out: Clone, S: Origin, W: BiunionRoutine<L, R, Out>> Workable for Biunion<L, R, Out, S, W> {
    fn work(&mut self) -> (r: Result<(), Error>)
        ensures
            Self::stepped(*old(self), *final(self), r),
    {
        self.step()
    }
}

impl<L, R, Out: Clone, S: Origin, W: BiunionRoutine<L, R, Out>> BiunionTrait for Biunion<L, R, Out, S, W> {
    type Left = L;
    type Right = R;
    type Out = Out;
    type Signal = S;
}

impl<L, R, Out: Clone, S: Origin, W: BiunionRoutine<L, R, Out>> InputSide<L, S, Left> for Biunion<L, R, Out, S, W> {
    fn input_sender(&self) -> EdgeSender<L, S> {
        self.left_input.sender()
    }
}

impl<L, R, Out: Clone, S: Origin, W: BiunionRoutine<L, R, Out>> InputSide<R, S, Right> for Biunion<L, R, Out, S, W> {
    fn input_sender(&self) -> EdgeSender<R, S> {
        self.right_input.sender()
    }
}

impl<L, R, Out: Clone, S: Origin, W: BiunionRoutine<L, R, Out>> OutputSide<Out, S> for Biunion<L, R, Out, S, W> {
    open spec fn takes_every_output(&self) -> bool {
        true
    }

    open spec fn output_count(&self) -> nat {
        self.pushes@.len()
    }

    fn add_output(&mut self, output: Box<dyn Closeable<Out, S>>) -> (r: Result<(), Error>)
        ensures
            r is Ok,
            final(self).pushes@ == old(self).pushes@.push(output),
    {
        proof {
            lemma_push(self.pushes@, output);
        }
        self.pushes.push(output);
        Ok(())
    }
}

impl<L, R, Out: Clone, S: Origin, W: BiunionRoutine<L, R, Out>> ParentSide<Left> for Biunion<L, R, Out, S, W> {
    open spec fn takes_every_parent(&self) -> bool {
        true
    }

    open spec fn parent_count(&self) -> nat {
        self.left_workers@.len()
    }

    fn add_workable(&mut self, workable: Box<dyn Workable>) -> Result<(), Error> {
        proof {
            lemma_push(self.left_workers@, workable);
        }
        self.left_workers.push(workable);
        Ok(())
    }
}

impl<L, R, Out: Clone, S: Origin, W: BiunionRoutine<L, R, Out>> ParentSide<Right> for Biunion<L, R, Out, S, W> {
    open spec fn takes_every_parent(&self) -> bool {
        true
    }

    open spec fn parent_count(&self) -> nat {
        self.right_workers@.len()
    }

    fn add_workable(&mut self, workable: Box<dyn Workable>) -> Result<(), Error> {
        proof {
            lemma_push(self.right_workers@, workable);
        }
        self.right_workers.push(workable);
        Ok(())
    }
}

} // verus!
