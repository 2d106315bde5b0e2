//! [`Bifurcation`]: a node that splits one input into a left and a right output.
use crate::edge::{Edge, EdgeSender};
use crate::error::{is_closed_err, Error};
use crate::graph::{all_closed, Closeable, InputSide, OutputSide, ParentSide, Workable, ROUND_LIMIT};
use crate::message::{
    added, all_data, data_of, extends, flushes_in, lemma_data_of_push, lemma_data_then, lemma_push, same_signal, signal_last, Message,
};
use crate::node::routine::{Flush, Next, Send};
use crate::node::line::work::node::{all_ok, heard_closed};
use crate::node::bifurcation::marker::{Left, Right};
use crate::node::bifurcation::routine::BifurcationRoutine;
use vstd::prelude::*;

verus! {

/// A node with one input and two outputs.
pub trait BifurcationTrait: Workable {
    type In;
    type Left;
    type Right;
    type Signal;
}

/// Output edges grouped by side.
#[verifier::reject_recursive_types(L)]
#[verifier::reject_recursive_types(R)]
#[verifier::reject_recursive_types(S)]
pub struct Pushes<L, R, S> {
    pub left: Vec<Box<dyn Closeable<L, S>>>,
    pub right: Vec<Box<dyn Closeable<R, S>>>,
}

impl<L, R, S> Pushes<L, R, S> {
    /// No edges on either side.
    pub fn new() -> (p: Self)
        ensures
            p.left@.len() == 0,
            p.right@.len() == 0,
    {
        Pushes { left: Vec::new(), right: Vec::new() }
    }
}

/// When worked it emits the next output of its routine on each side that
/// has one; otherwise it takes input: data goes to the routine, a flush
/// flushes it, emits one more output per side and is forwarded to both
/// sides, and a marker is forwarded to both sides at once.
#[verifier::reject_recursive_types(In)]
#[verifier::reject_recursive_types(L)]
#[verifier::reject_recursive_types(R)]
#[verifier::reject_recursive_types(S)]
pub struct Bifurcation<In, L, R, S, W> {
    pub routine: W,
    pub workers: Vec<Box<dyn Workable>>,
    pub pushes: Pushes<L, R, S>,
    pub input: Edge<In, S>,
    /// Every message emitted on the left, oldest first.
    pub left_emitted: Ghost<Seq<Message<L, S>>>,
    /// Every message emitted on the right, oldest first.
    pub right_emitted: Ghost<Seq<Message<R, S>>>,
    /// What this node handed to its routine and took from it.
    pub log: Ghost<SplitLog<In, L, R>>,
    /// What each parent's work returned, oldest first.
    pub reports: Ghost<Seq<Result<(), Error>>>,
}

/// What a node with one input and two outputs handed to its routine and
/// took from it.
pub struct SplitLog<In, L, R> {
    /// Every input sent to the routine, oldest first.
    pub fed: Seq<In>,
    /// How many times the routine was flushed.
    pub flushed: nat,
    /// Every left output the routine handed out, oldest first.
    pub left: Seq<L>,
    /// Every right output the routine handed out, oldest first.
    pub right: Seq<R>,
    /// How many calls on the routine returned an error.
    pub faults: nat,
}

impl<In, L: Clone, R: Clone, S: Clone, W: BifurcationRoutine<In, L, R>> Bifurcation<In, L, R, S, W> {
    /// A node running `routine`, with no parents and no outputs yet.
    pub fn new(routine: W) -> (b: Self)
        ensures
            b.routine == routine,
            b.workers@.len() == 0,
            b.pushes.left@.len() == 0,
            b.pushes.right@.len() == 0,
            !b.input.closed(),
            b.left_emitted@.len() == 0,
            b.right_emitted@.len() == 0,
            b.log@ == (SplitLog::<In, L, R> { fed: Seq::empty(), flushed: 0, left: Seq::empty(), right: Seq::empty(), faults: 0 }),
            b.reports@.len() == 0,
    {
        Bifurcation {
            routine,
            workers: Vec::new(),
            pushes: Pushes::new(),
            input: Edge::new(),
            left_emitted: Ghost(Seq::empty()),
            right_emitted: Ghost(Seq::empty()),
            log: Ghost(SplitLog { fed: Seq::empty(), flushed: 0, left: Seq::empty(), right: Seq::empty(), faults: 0 }),
            reports: Ghost(Seq::empty()),
        }
    }

    /// The same as [`Bifurcation::new`].
    pub fn of(routine: W) -> (b: Self)
        ensures
            b.routine == routine,
            b.workers@.len() == 0,
            b.pushes.left@.len() == 0,
            b.pushes.right@.len() == 0,
            !b.input.closed(),
            b.left_emitted@.len() == 0,
            b.right_emitted@.len() == 0,
            b.log@ == (SplitLog::<In, L, R> { fed: Seq::empty(), flushed: 0, left: Seq::empty(), right: Seq::empty(), faults: 0 }),
            b.reports@.len() == 0,
    {
        Bifurcation::new(routine)
    }

    /// Push `obj` into every left edge.
    fn push_left(&mut self, obj: &Message<L, S>) -> (r: Result<(), Error>)
        ensures
            old(self).pushes.left@.len() == 0 ==> r is Ok,
            r is Ok ==> final(self).left_emitted@ == old(self).left_emitted@.push(*obj),
            r is Err ==> final(self).left_emitted@ == old(self).left_emitted@,
            final(self).right_emitted == old(self).right_emitted,
            final(self).pushes.left@.len() == old(self).pushes.left@.len(),
            final(self).pushes.right == old(self).pushes.right,
            final(self).input == old(self).input,
            final(self).routine == old(self).routine,
            final(self).log == old(self).log,
            final(self).reports == old(self).reports,
            final(self).workers == old(self).workers,
    {
        let n = self.pushes.left.len();
        let mut i: usize = 0;
        while i < n
            invariant
                n == self.pushes.left@.len(),
                n == old(self).pushes.left@.len(),
                i <= n,
                self.pushes.right == old(self).pushes.right,
                self.input == old(self).input,
                self.routine == old(self).routine,
                self.log == old(self).log,
                self.reports == old(self).reports,
                self.workers == old(self).workers,
                self.left_emitted == old(self).left_emitted,
                self.right_emitted == old(self).right_emitted,
            decreases n - i,
        {
            self.pushes.left[i].push(obj.clone())?;
            i = i + 1;
        }
        self.left_emitted = Ghost(self.left_emitted@.push(*obj));
        Ok(())
    }

    /// Push `obj` into every right edge.
    fn push_right(&mut self, obj: &Message<R, S>) -> (r: Result<(), Error>)
        ensures
            old(self).pushes.right@.len() == 0 ==> r is Ok,
            r is Ok ==> final(self).right_emitted@ == old(self).right_emitted@.push(*obj),
            r is Err ==> final(self).right_emitted@ == old(self).right_emitted@,
            final(self).left_emitted == old(self).left_emitted,
            final(self).pushes.right@.len() == old(self).pushes.right@.len(),
            final(self).pushes.left == old(self).pushes.left,
            final(self).input == old(self).input,
            final(self).routine == old(self).routine,
            final(self).log == old(self).log,
            final(self).reports == old(self).reports,
            final(self).workers == old(self).workers,
    {
        let n = self.pushes.right.len();
        let mut i: usize = 0;
        while i < n
            invariant
                n == self.pushes.right@.len(),
                n == old(self).pushes.right@.len(),
                i <= n,
                self.pushes.left == old(self).pushes.left,
                self.input == old(self).input,
                self.routine == old(self).routine,
                self.log == old(self).log,
                self.reports == old(self).reports,
                self.workers == old(self).workers,
                self.left_emitted == old(self).left_emitted,
                self.right_emitted == old(self).right_emitted,
            decreases n - i,
        {
            self.pushes.right[i].push(obj.clone())?;
            i = i + 1;
        }
        self.right_emitted = Ghost(self.right_emitted@.push(*obj));
        Ok(())
    }

    /// Emit the routine's next left output, if any; `true` when one was emitted.
    fn try_left_output(&mut self) -> (r: Result<bool, Error>)
        ensures
            extends(final(self).left_emitted@, old(self).left_emitted@),
            all_data(added(final(self).left_emitted@, old(self).left_emitted@)),
            r == Ok::<bool, Error>(true) ==> final(self).left_emitted@.len() == old(self).left_emitted@.len() + 1,
            r != Ok::<bool, Error>(true) ==> final(self).left_emitted@ == old(self).left_emitted@,
            final(self).right_emitted == old(self).right_emitted,
            final(self).pushes.left@.len() == old(self).pushes.left@.len(),
            final(self).pushes.right@.len() == old(self).pushes.right@.len(),
            final(self).input == old(self).input,
            final(self).workers == old(self).workers,
            final(self).reports == old(self).reports,
            final(self).log@.fed == old(self).log@.fed,
            final(self).log@.flushed == old(self).log@.flushed,
            final(self).log@.right == old(self).log@.right,
            extends(final(self).log@.left, old(self).log@.left),
            final(self).log@.faults >= old(self).log@.faults,
            r is Ok ==> final(self).log@.faults == old(self).log@.faults
                && added(final(self).log@.left, old(self).log@.left) == data_of(added(final(self).left_emitted@, old(self).left_emitted@)),
            r == Ok::<bool, Error>(false) || (final(self).log@.faults == old(self).log@.faults && final(self).log@.left == old(self).log@.left)
                ==> final(self).log@ == old(self).log@ && r == Ok::<bool, Error>(false),
    {
        let answer = crate::node::routine::Next::<L, Left>::next(&mut self.routine);
        let ghost log0 = self.log@;
        match answer {
            Ok(Some(message)) => {
                self.log = Ghost(SplitLog { left: log0.left.push(message), ..log0 });
                let ghost before = self.left_emitted@;
                self.push_left(&Message::Data(message))?;
                proof {
                    lemma_data_then(before, before, Message::<L, S>::Data(message));
                    lemma_data_of_push(Seq::<Message<L, S>>::empty(), Message::<L, S>::Data(message));
                    assert(added(self.left_emitted@, old(self).left_emitted@) =~= seq![Message::<L, S>::Data(message)]);
                    assert(added(self.log@.left, old(self).log@.left) =~= seq![message]);
                    assert(Seq::<Message<L, S>>::empty().push(Message::<L, S>::Data(message)) =~= seq![Message::<L, S>::Data(message)]);
                }
                Ok(true)
            },
            Ok(None) => {
                proof {
                    assert(added(self.log@.left, old(self).log@.left) =~= Seq::<L>::empty());
                    assert(added(self.left_emitted@, old(self).left_emitted@) =~= Seq::<Message<L, S>>::empty());
                }
                Ok(false)
            },
            Err(e) => {
                self.log = Ghost(SplitLog { faults: log0.faults + 1, ..log0 });
                Err(e)
            },
        }
    }

    /// Emit the routine's next right output, if any; `true` when one was emitted.
    fn try_right_output(&mut self) -> (r: Result<bool, Error>)
        ensures
            extends(final(self).right_emitted@, old(self).right_emitted@),
            all_data(added(final(self).right_emitted@, old(self).right_emitted@)),
            r == Ok::<bool, Error>(true) ==> final(self).right_emitted@.len() == old(self).right_emitted@.len() + 1,
            r != Ok::<bool, Error>(true) ==> final(self).right_emitted@ == old(self).right_emitted@,
            final(self).left_emitted == old(self).left_emitted,
            final(self).pushes.left@.len() == old(self).pushes.left@.len(),
            final(self).pushes.right@.len() == old(self).pushes.right@.len(),
            final(self).input == old(self).input,
            final(self).workers == old(self).workers,
            final(self).reports == old(self).reports,
            final(self).log@.fed == old(self).log@.fed,
            final(self).log@.flushed == old(self).log@.flushed,
            final(self).log@.left == old(self).log@.left,
            extends(final(self).log@.right, old(self).log@.right),
            final(self).log@.faults >= old(self).log@.faults,
            r is Ok ==> final(self).log@.faults == old(self).log@.faults
                && added(final(self).log@.right, old(self).log@.right) == data_of(added(final(self).right_emitted@, old(self).right_emitted@)),
            r == Ok::<bool, Error>(false) || (final(self).log@.faults == old(self).log@.faults && final(self).log@.right == old(self).log@.right)
                ==> final(self).log@ == old(self).log@ && r == Ok::<bool, Error>(false),
    {
        let answer = crate::node::routine::Next::<R, Right>::next(&mut self.routine);
        let ghost log0 = self.log@;
        match answer {
            Ok(Some(message)) => {
                self.log = Ghost(SplitLog { right: log0.right.push(message), ..log0 });
                let ghost before = self.right_emitted@;
                self.push_right(&Message::Data(message))?;
                proof {
                    lemma_data_then(before, before, Message::<R, S>::Data(message));
                    lemma_data_of_push(Seq::<Message<R, S>>::empty(), Message::<R, S>::Data(message));
                    assert(added(self.right_emitted@, old(self).right_emitted@) =~= seq![Message::<R, S>::Data(message)]);
                    assert(added(self.log@.right, old(self).log@.right) =~= seq![message]);
                    assert(Seq::<Message<R, S>>::empty().push(Message::<R, S>::Data(message)) =~= seq![Message::<R, S>::Data(message)]);
                }
                Ok(true)
            },
            Ok(None) => {
                proof {
                    assert(added(self.log@.right, old(self).log@.right) =~= Seq::<R>::empty());
                    assert(added(self.right_emitted@, old(self).right_emitted@) =~= Seq::<Message<R, S>>::empty());
                }
                Ok(false)
            },
            Err(e) => {
                self.log = Ghost(SplitLog { faults: log0.faults + 1, ..log0 });
                Err(e)
            },
        }
    }

    /// Try both sides; `true` when either emitted.
    fn try_output(&mut self) -> (r: Result<bool, Error>)
        ensures
            extends(final(self).left_emitted@, old(self).left_emitted@),
            extends(final(self).right_emitted@, old(self).right_emitted@),
            all_data(added(final(self).left_emitted@, old(self).left_emitted@)),
            all_data(added(final(self).right_emitted@, old(self).right_emitted@)),
            added(final(self).left_emitted@, old(self).left_emitted@).len() <= 1,
            added(final(self).right_emitted@, old(self).right_emitted@).len() <= 1,
            r == Ok::<bool, Error>(true) ==> final(self).left_emitted@.len() > old(self).left_emitted@.len()
                || final(self).right_emitted@.len() > old(self).right_emitted@.len(),
            r == Ok::<bool, Error>(false) ==> final(self).left_emitted == old(self).left_emitted
                && final(self).right_emitted == old(self).right_emitted,
            final(self).pushes.left@.len() == old(self).pushes.left@.len(),
            final(self).pushes.right@.len() == old(self).pushes.right@.len(),
            final(self).input == old(self).input,
            final(self).workers == old(self).workers,
            final(self).reports == old(self).reports,
            final(self).log@.fed == old(self).log@.fed,
            final(self).log@.flushed == old(self).log@.flushed,
            extends(final(self).log@.left, old(self).log@.left),
            extends(final(self).log@.right, old(self).log@.right),
            final(self).log@.faults >= old(self).log@.faults,
            r is Ok ==> final(self).log@.faults == old(self).log@.faults
                && added(final(self).log@.left, old(self).log@.left) == data_of(added(final(self).left_emitted@, old(self).left_emitted@))
                && added(final(self).log@.right, old(self).log@.right) == data_of(added(final(self).right_emitted@, old(self).right_emitted@)),
            r == Ok::<bool, Error>(false) || (final(self).log@.faults == old(self).log@.faults && final(self).log@.left == old(self).log@.left
                && final(self).log@.right == old(self).log@.right) ==> final(self).log@ == old(self).log@ && r == Ok::<bool, Error>(false),
    {
        let left_ok = self.try_left_output()?;
        let right_ok = self.try_right_output()?;
        Ok(left_ok || right_ok)
    }

    /// Hand `data` to the routine.
    fn feed(&mut self, data: In) -> (r: Result<(), Error>)
        ensures
            final(self).log@ == (SplitLog {
                fed: old(self).log@.fed.push(data),
                faults: old(self).log@.faults + if r is Err { 1nat } else { 0nat },
                ..old(self).log@
            }),
            final(self).reports == old(self).reports,
            final(self).input == old(self).input,
            final(self).pushes == old(self).pushes,
            final(self).left_emitted == old(self).left_emitted,
            final(self).right_emitted == old(self).right_emitted,
            final(self).workers == old(self).workers,
    {
        let ghost d = data;
        let ghost log0 = self.log@;
        let r = self.routine.send(data);
        self.log = Ghost(SplitLog { fed: log0.fed.push(d), faults: log0.faults + if r is Err { 1nat } else { 0nat }, ..log0 });
        r
    }

    /// Flush the routine.
    fn flush_routine(&mut self) -> (r: Result<(), Error>)
        ensures
            final(self).log@ == (SplitLog {
                flushed: old(self).log@.flushed + 1,
                faults: old(self).log@.faults + if r is Err { 1nat } else { 0nat },
                ..old(self).log@
            }),
            final(self).reports == old(self).reports,
            final(self).input == old(self).input,
            final(self).pushes == old(self).pushes,
            final(self).left_emitted == old(self).left_emitted,
            final(self).right_emitted == old(self).right_emitted,
            final(self).workers == old(self).workers,
    {
        let ghost log0 = self.log@;
        let r = self.routine.flush();
        self.log = Ghost(SplitLog { flushed: log0.flushed + 1, faults: log0.faults + if r is Err { 1nat } else { 0nat }, ..log0 });
        r
    }

    /// Close every output edge on both sides.
    fn close_pushes(&mut self)
        ensures
            all_closed(final(self).pushes.left@),
            all_closed(final(self).pushes.right@),
            final(self).pushes.left@.len() == old(self).pushes.left@.len(),
            final(self).pushes.right@.len() == old(self).pushes.right@.len(),
            final(self).input == old(self).input,
            final(self).routine == old(self).routine,
            final(self).log == old(self).log,
            final(self).reports == old(self).reports,
            final(self).workers == old(self).workers,
            final(self).left_emitted == old(self).left_emitted,
            final(self).right_emitted == old(self).right_emitted,
    {
        let n = self.pushes.left.len();
        let mut i: usize = 0;
        while i < n
            invariant
                n == self.pushes.left@.len(),
                n == old(self).pushes.left@.len(),
                i <= n,
                forall|j: int| 0 <= j < i ==> (#[trigger] self.pushes.left@[j]).is_closed(),
                self.pushes.right == old(self).pushes.right,
                self.input == old(self).input,
                self.routine == old(self).routine,
                self.log == old(self).log,
                self.reports == old(self).reports,
                self.workers == old(self).workers,
                self.left_emitted == old(self).left_emitted,
                self.right_emitted == old(self).right_emitted,
            decreases n - i,
        {
            let _ = self.pushes.left[i].close();
            i = i + 1;
        }
        let m = self.pushes.right.len();
        let mut k: usize = 0;
        while k < m
            invariant
                m == self.pushes.right@.len(),
                m == old(self).pushes.right@.len(),
                k <= m,
                n == self.pushes.left@.len(),
                all_closed(self.pushes.left@),
                forall|j: int| 0 <= j < k ==> (#[trigger] self.pushes.right@[j]).is_closed(),
                self.input == old(self).input,
                self.routine == old(self).routine,
                self.log == old(self).log,
                self.reports == old(self).reports,
                self.workers == old(self).workers,
                self.left_emitted == old(self).left_emitted,
                self.right_emitted == old(self).right_emitted,
            decreases m - k,
        {
            let _ = self.pushes.right[k].close();
            k = k + 1;
        }
    }

    /// Pass `result` through, closing every output edge when it reports a shutdown.
    fn propagate_if_closed<T>(&mut self, result: Result<T, Error>) -> (r: Result<T, Error>)
        ensures
            r == result,
            is_closed_err(result) ==> all_closed(final(self).pushes.left@) && all_closed(final(self).pushes.right@),
            final(self).pushes.left@.len() == old(self).pushes.left@.len(),
            final(self).pushes.right@.len() == old(self).pushes.right@.len(),
            final(self).input == old(self).input,
            final(self).routine == old(self).routine,
            final(self).log == old(self).log,
            final(self).reports == old(self).reports,
            final(self).workers == old(self).workers,
            final(self).left_emitted == old(self).left_emitted,
            final(self).right_emitted == old(self).right_emitted,
    {
        match result {
            Err(e) => {
                if e.is_closed() {
                    self.close_pushes();
                }
                Err(e)
            },
            Ok(v) => Ok(v),
        }
    }

    /// Work every parent once, stopping at the first error.
    fn work_parents(&mut self) -> (r: Result<(), Error>)
        ensures
            old(self).workers@.len() == 0 ==> r is Ok,
            is_closed_err(r) ==> all_closed(final(self).pushes.left@) && all_closed(final(self).pushes.right@),
            final(self).pushes.left@.len() == old(self).pushes.left@.len(),
            final(self).pushes.right@.len() == old(self).pushes.right@.len(),
            final(self).input == old(self).input,
            final(self).routine == old(self).routine,
            final(self).log == old(self).log,
            final(self).left_emitted == old(self).left_emitted,
            final(self).right_emitted == old(self).right_emitted,
            extends(final(self).reports@, old(self).reports@),
            ({
                let nr = added(final(self).reports@, old(self).reports@);
                &&& r is Ok ==> all_ok(nr)
                &&& r is Err ==> nr.len() > 0 && nr.last() == r && all_ok(nr.drop_last())
            }),
    {
        proof {
            assert(added(self.reports@, old(self).reports@) =~= Seq::<Result<(), Error>>::empty());
        }
        let n = self.workers.len();
        let mut i: usize = 0;
        while i < n
            invariant
                n == self.workers@.len(),
                n == old(self).workers@.len(),
                i <= n,
                self.pushes.left@.len() == old(self).pushes.left@.len(),
                self.pushes.right@.len() == old(self).pushes.right@.len(),
                self.input == old(self).input,
                self.routine == old(self).routine,
                self.log == old(self).log,
                self.left_emitted == old(self).left_emitted,
                self.right_emitted == old(self).right_emitted,
                extends(self.reports@, old(self).reports@),
                all_ok(added(self.reports@, old(self).reports@)),
            decreases n - i,
        {
            let ghost reports_before = self.reports@;
            let result = self.workers[i].work();
            self.reports = Ghost(self.reports@.push(result));
            proof {
                assert(added(self.reports@, old(self).reports@) =~= added(reports_before, old(self).reports@).push(result));
                assert(added(self.reports@, old(self).reports@).drop_last() =~= added(reports_before, old(self).reports@));
            }
            self.propagate_if_closed(result)?;
            i = i + 1;
        }
        Ok(())
    }

    /// What one step promises of the node before it (`before`) and after it
    /// (`after`) when it returned `r`:
    ///
    /// - on each side it emitted a run of data, optionally closed by the
    ///   signal it took from its input last, and something when it succeeded;
    /// - the routine was sent every data message taken from the input and
    ///   flushed once for every flush taken; when the step succeeded, what it
    ///   emitted as data on each side is exactly what the routine handed out
    ///   on that side during it;
    /// - when the input was closed before the step and the routine had
    ///   nothing to hand out, or a parent reported `Closed`, the step closed
    ///   every output, emitted nothing and reported `Closed`; when the input
    ///   closed during the step, it closed every output and reported `Closed`.
    pub open spec fn stepped(before: Self, after: Self, r: Result<(), Error>) -> bool {
        let got = added(after.input.received(), before.input.received());
        let new_left = added(after.left_emitted@, before.left_emitted@);
        let new_right = added(after.right_emitted@, before.right_emitted@);
        let nr = added(after.reports@, before.reports@);
        let closed_all = is_closed_err(r) && all_closed(after.pushes.left@) && all_closed(after.pushes.right@);
        &&& extends(after.left_emitted@, before.left_emitted@)
        &&& extends(after.right_emitted@, before.right_emitted@)
        &&& signal_last(new_left)
        &&& signal_last(new_right)
        &&& r is Ok ==> new_left.len() > 0 || new_right.len() > 0
        &&& new_left.len() > 0 && !(new_left.last() is Data) ==> after.input.received().len() > 0
            && same_signal(new_left.last(), after.input.received().last())
        &&& new_right.len() > 0 && !(new_right.last() is Data) ==> after.input.received().len() > 0
            && same_signal(new_right.last(), after.input.received().last())
        &&& after.input.closed() && !before.input.closed() ==> closed_all
        &&& extends(after.input.received(), before.input.received())
        &&& extends(after.log@.left, before.log@.left)
        &&& extends(after.log@.right, before.log@.right)
        &&& extends(after.reports@, before.reports@)
        &&& after.log@.fed == before.log@.fed + data_of(got)
        &&& after.log@.flushed == before.log@.flushed + flushes_in(got)
        &&& r is Ok ==> added(after.log@.left, before.log@.left) == data_of(new_left)
            && added(after.log@.right, before.log@.right) == data_of(new_right)
        &&& before.input.closed() && after.log@.faults == before.log@.faults && after.log@.left == before.log@.left
            && after.log@.right == before.log@.right ==> closed_all && new_left.len() == 0 && new_right.len() == 0
        &&& heard_closed(nr) ==> closed_all && new_left.len() == 0 && new_right.len() == 0
    }

    /// Work this node once; see [`Bifurcation`].
    pub fn step(&mut self) -> (r: Result<(), Error>)
        ensures
            Self::stepped(*old(self), *final(self), r),
    {
        proof {
            assert(added(self.input.received(), old(self).input.received()) =~= Seq::<Message<In, S>>::empty());
            assert(added(self.reports@, old(self).reports@) =~= Seq::<Result<(), Error>>::empty());
            assert(old(self).log@.fed + data_of(Seq::<Message<In, S>>::empty()) =~= old(self).log@.fed);
        }
        if self.try_output()? {
            return Ok(());
        }
        let mut rounds: u64 = 0;
        loop
            invariant
                self.left_emitted == old(self).left_emitted,
                self.right_emitted == old(self).right_emitted,
                self.pushes.left@.len() == old(self).pushes.left@.len(),
                self.pushes.right@.len() == old(self).pushes.right@.len(),
                self.input.closed() == old(self).input.closed(),
                old(self).input.closed() ==> rounds == 0 && self.log == old(self).log,
                extends(self.input.received(), old(self).input.received()),
                extends(self.reports@, old(self).reports@),
                all_ok(added(self.reports@, old(self).reports@)),
                self.log@.left == old(self).log@.left,
                self.log@.right == old(self).log@.right,
                self.log@.faults == old(self).log@.faults,
                ({
                    let got = added(self.input.received(), old(self).input.received());
                    &&& self.log@.fed == old(self).log@.fed + data_of(got)
                    &&& self.log@.flushed == old(self).log@.flushed + flushes_in(got)
                }),
            decreases ROUND_LIMIT - rounds,
        {
            if rounds == ROUND_LIMIT {
                return Err(Error::fatal("parents never produced input"));
            }
            rounds = rounds + 1;
            let ghost got_before = self.input.received();
            let ghost reports_before = self.reports@;
            let polled = self.input.poll();
            let polled = self.propagate_if_closed(polled)?;
            // With no parents to work, nobody else produces input: wait for it.
            let polled = if polled.is_none() && self.workers.len() == 0 {
                let waited = self.input.wait();
                Some(self.propagate_if_closed(waited)?)
            } else {
                polled
            };
            let ghost taken_message = polled;
            let ghost log0 = self.log@;
            proof {
                if let Some(m) = taken_message {
                    lemma_data_of_push(added(got_before, old(self).input.received()), m);
                    assert(added(self.input.received(), old(self).input.received())
                        =~= added(got_before, old(self).input.received()).push(m));
                } else {
                    assert(self.input.received() == got_before);
                }
            }
            match polled {
                Some(Message::Data(data)) => {
                    self.feed(data)?;
                    proof {
                        assert(self.log@.fed =~= old(self).log@.fed + data_of(added(self.input.received(), old(self).input.received())));
                    }
                    if self.try_output()? {
                        return Ok(());
                    }
                },
                Some(Message::Flush(origin)) => {
                    self.flush_routine()?;
                    let ghost l0 = self.left_emitted@;
                    let ghost r0 = self.right_emitted@;
                    self.try_output()?;
                    let ghost l1 = self.left_emitted@;
                    let ghost r1 = self.right_emitted@;
                    proof {
                        lemma_data_then(l0, l1, Message::<L, S>::Flush(origin));
                        lemma_data_then(r0, r1, Message::<R, S>::Flush(origin));
                        lemma_data_of_push(added(l1, l0), Message::<L, S>::Flush(origin));
                        lemma_data_of_push(added(r1, r0), Message::<R, S>::Flush(origin));
                        assert(added(l1.push(Message::<L, S>::Flush(origin)), l0) =~= added(l1, l0).push(Message::<L, S>::Flush(origin)));
                        assert(added(r1.push(Message::<R, S>::Flush(origin)), r0) =~= added(r1, r0).push(Message::<R, S>::Flush(origin)));
                    }
                    let left = Message::<L, S>::Flush(origin);
                    self.push_left(&left)?;
                    if let Message::Flush(origin) = left {
                        self.push_right(&Message::Flush(origin))?;
                    }
                    return Ok(());
                },
                Some(Message::Marker(origin)) => {
                    proof {
                        lemma_data_then(self.left_emitted@, self.left_emitted@, Message::<L, S>::Marker(origin));
                        lemma_data_then(self.right_emitted@, self.right_emitted@, Message::<R, S>::Marker(origin));
                        lemma_data_of_push(Seq::<Message<L, S>>::empty(), Message::<L, S>::Marker(origin));
                        lemma_data_of_push(Seq::<Message<R, S>>::empty(), Message::<R, S>::Marker(origin));
                        assert(added(self.log@.left, old(self).log@.left) =~= Seq::<L>::empty());
                        assert(added(self.log@.right, old(self).log@.right) =~= Seq::<R>::empty());
                        assert(added(self.left_emitted@.push(Message::<L, S>::Marker(origin)), old(self).left_emitted@)
                            =~= seq![Message::<L, S>::Marker(origin)]);
                        assert(added(self.right_emitted@.push(Message::<R, S>::Marker(origin)), old(self).right_emitted@)
                            =~= seq![Message::<R, S>::Marker(origin)]);
                        assert(Seq::<Message<L, S>>::empty().push(Message::<L, S>::Marker(origin)) =~= seq![Message::<L, S>::Marker(origin)]);
                        assert(Seq::<Message<R, S>>::empty().push(Message::<R, S>::Marker(origin)) =~= seq![Message::<R, S>::Marker(origin)]);
                    }
                    let left = Message::<L, S>::Marker(origin);
                    self.push_left(&left)?;
                    if let Message::Marker(origin) = left {
                        self.push_right(&Message::Marker(origin))?;
                    }
                    return Ok(());
                },
                None => {
                    let worked = self.work_parents();
                    proof {
                        let nr0 = added(reports_before, old(self).reports@);
                        let nr1 = added(self.reports@, reports_before);
                        let nr = added(self.reports@, old(self).reports@);
                        assert(nr =~= nr0 + nr1);
                        if worked is Ok {
                            assert(all_ok(nr));
                        } else if heard_closed(nr) {
                            let i = choose|i: int| 0 <= i < nr.len() && is_closed_err(#[trigger] nr[i]);
                            if i < nr.len() - 1 {
                                assert(nr1.drop_last()[i - nr0.len()] == nr[i]);
                            }
                        }
                    }
                    worked?;
                },
            }
        }
    }
}

impl<In, L: Clone, R: Clone, S: Clone, W: BifurcationRoutine<In, L, R>> Workable for Bifurcation<In, L, R, S, W> {
    fn work(&mut self) -> (r: Result<(), Error>)
        ensures
            Self::stepped(*old(self), *final(self), r),
    {
        self.step()
    }
}

impl<In, L: Clone, R: Clone, S: Clone, W: BifurcationRoutine<In, L, R>> BifurcationTrait for Bifurcation<In, L, R, S, W> {
    type In = In;
    type Left = L;
    type Right = R;
    type Signal = S;
}

impl<In, L: Clone, R: Clone, S: Clone, W: BifurcationRoutine<In, L, R>> InputSide<In, S> for Bifurcation<In, L, R, S, W> {
    fn input_sender(&self) -> EdgeSender<In, S> {
        self.input.sender()
    }
}

impl<In, L: Clone, R: Clone, S: Clone, W: BifurcationRoutine<In, L, R>> OutputSide<L, S, Left> for Bifurcation<In, L, R, S, W> {
    open spec fn takes_every_output(&self) -> bool {
        true
    }

    open spec fn output_count(&self) -> nat {
        self.pushes.left@.len()
    }

    fn add_output(&mut self, output: Box<dyn Closeable<L, S>>) -> (r: Result<(), Error>)
        ensures
            r is Ok,
            final(self).pushes.left@ == old(self).pushes.left@.push(output),
            final(self).pushes.right == old(self).pushes.right,
    {
        proof {
            lemma_push(self.pushes.left@, output);
        }
        self.pushes.left.push(output);
        Ok(())
    }
}

impl<In, L: Clone, R: Clone, S: Clone, W: BifurcationRoutine<In, L, R>> OutputSide<R, S, Right> for Bifurcation<In, L, R, S, W> {
    open spec fn takes_every_output(&self) -> bool {
        true
    }

    open spec fn output_count(&self) -> nat {
        self.pushes.right@.len()
    }

    fn add_output(&mut self, output: Box<dyn Closeable<R, S>>) -> (r: Result<(), Error>)
        ensures
            r is Ok,
            final(self).pushes.right@ == old(self).pushes.right@.push(output),
            final(self).pushes.left == old(self).pushes.left,
    {
        proof {
            lemma_push(self.pushes.right@, output);
        }
        self.pushes.right.push(output);
        Ok(())
    }
}

impl<In, L: Clone, R: Clone, S: Clone, W: BifurcationRoutine<In, L, R>> ParentSide for Bifurcation<In, L, R, S, W> {
    open spec fn takes_every_parent(&self) -> bool {
        true
    }

    open spec fn parent_count(&self) -> nat {
        self.workers@.len()
    }

    fn add_workable(&mut self, workable: Box<dyn Workable>) -> (r: Result<(), Error>)
        ensures
            r is Ok,
            final(self).workers@ == old(self).workers@.push(workable),
    {
        proof {
            lemma_push(self.workers@, workable);
        }
        self.workers.push(workable);
        Ok(())
    }
}

} // verus!
