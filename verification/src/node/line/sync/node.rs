//! [`Line`]: a worked line node that drops repeated signals.
use crate::edge::{Edge, EdgeSender};
use crate::error::Error;
use crate::graph::{Closeable, InputSide, OutputSide, ParentSide, Workable, ROUND_LIMIT};
use crate::message::{
    added, all_data, data_of, extends, flushes_in, lemma_data_concat, lemma_data_of_push, lemma_data_then, lemma_push, lone_signal,
    origin_of,
    signal_last, Message,
};
use crate::node::line::routine::LineRoutine;
use crate::node::routine::flush_behind_its_output;
use crate::signal::{Origin, Visitors};
use vstd::prelude::*;

verus! {

/// A worked node with one input and one output stream that drops repeated signals.
pub trait LineTrait: Workable {
    type In;
    type Out;
    type Signal;
}

/// Like [`crate::node::line::work::Line`], but a signal whose origin it
/// already forwarded since its last data output is dropped.
#[verifier::reject_recursive_types(In)]
#[verifier::reject_recursive_types(Out)]
#[verifier::reject_recursive_types(S)]
pub struct Line<In, Out, S, R> {
    pub visitors: Visitors<S>,
    pub worker: R,
    pub workers: Vec<Box<dyn Workable>>,
    pub pushes: Vec<Box<dyn Closeable<Out, S>>>,
    pub input: Edge<In, S>,
    pub emitted: Ghost<Seq<Message<Out, S>>>,
    /// What this node handed to its routine and took from it.
    pub log: Ghost<LineLog<In, Out>>,
}

/// What a node with one input and one output handed to its routine and took
/// from it.
pub struct LineLog<In, Out> {
    /// Every input sent to the routine, oldest first.
    pub fed: Seq<In>,
    /// How many times the routine was flushed.
    pub flushed: nat,
    /// Every output the routine handed out, oldest first.
    pub taken: Seq<Out>,
    /// What the routine answered each time it was asked for output and did
    /// not fail, oldest first: an output, or that it had none.
    pub asked: Seq<Option<Out>>,
    /// For each flush, how many answers `asked` held when it was made.
    pub flush_marks: Seq<nat>,
}

/// A log of no calls.
pub open spec fn empty_line_log<In, Out>() -> LineLog<In, Out> {
    LineLog { fed: Seq::empty(), flushed: 0, taken: Seq::empty(), asked: Seq::empty(), flush_marks: Seq::empty() }
}

/// Outputs taken in two runs, each emitted as data in its run, were emitted
/// as data over both runs.
pub proof fn lemma_taken_then<Out, S>(
    t0: Seq<Out>,
    t1: Seq<Out>,
    t2: Seq<Out>,
    e0: Seq<Message<Out, S>>,
    e1: Seq<Message<Out, S>>,
    e2: Seq<Message<Out, S>>,
)
    requires
        extends(t1, t0),
        extends(t2, t1),
        extends(e1, e0),
        extends(e2, e1),
        added(t1, t0) == data_of(added(e1, e0)),
        added(t2, t1) == data_of(added(e2, e1)),
    ensures
        extends(t2, t0),
        added(t2, t0) == data_of(added(e2, e0)),
{
    assert(added(e2, e0) =~= added(e1, e0) + added(e2, e1));
    lemma_data_concat(added(e1, e0), added(e2, e1));
    assert(added(t2, t0) =~= added(t1, t0) + added(t2, t1));
}

impl<In, Out: Clone, S: Origin, R: LineRoutine<In, Out>> Line<In, Out, S, R> {
    /// A node running `worker`, with no parents, outputs or visitors yet.
    pub fn new(worker: R) -> (l: Self)
        ensures
            l.worker == worker,
            l.visitors.seen@.len() == 0,
            l.workers@.len() == 0,
            l.pushes@.len() == 0,
            !l.input.closed(),
            l.emitted@.len() == 0,
            l.log@ == empty_line_log::<In, Out>(),
    {
        Line {
            visitors: Visitors::new(),
            worker,
            workers: Vec::new(),
            pushes: Vec::new(),
            input: Edge::new(),
            emitted: Ghost(Seq::empty()),
            log: Ghost(empty_line_log()),
        }
    }

    /// The same as [`Line::new`].
    pub fn of(worker: R) -> (l: Self)
        ensures
            l.worker == worker,
            l.visitors.seen@.len() == 0,
            l.workers@.len() == 0,
            l.pushes@.len() == 0,
            !l.input.closed(),
            l.emitted@.len() == 0,
            l.log@ == empty_line_log::<In, Out>(),
    {
        Line::new(worker)
    }

    /// Push `obj` into every output edge.
    fn push(&mut self, obj: Message<Out, S>) -> (r: Result<(), Error>)
        ensures
            old(self).pushes@.len() == 0 ==> r is Ok,
            r is Ok ==> final(self).emitted@ == old(self).emitted@.push(obj),
            r is Err ==> final(self).emitted@ == old(self).emitted@,
            final(self).visitors == old(self).visitors,
            final(self).input == old(self).input,
            final(self).worker == old(self).worker,
            final(self).log == old(self).log,
    {
        let n = self.pushes.len();
        let mut i: usize = 0;
        while i < n
            invariant
                n == self.pushes@.len(),
                n == old(self).pushes@.len(),
                i <= n,
                self.input == old(self).input,
                self.worker == old(self).worker,
                self.log == old(self).log,
                self.visitors == old(self).visitors,
                self.emitted == old(self).emitted,
            decreases n - i,
        {
            self.pushes[i].push(obj.clone())?;
            i = i + 1;
        }
        self.emitted = Ghost(self.emitted@.push(obj));
        Ok(())
    }

    /// Emit the routine's next output as data, if there is one; emitting data
    /// forgets the visitors. `true` when data was emitted.
    fn emit_output(&mut self) -> (r: Result<bool, Error>)
        ensures
            extends(final(self).emitted@, old(self).emitted@),
            all_data(added(final(self).emitted@, old(self).emitted@)),
            r == Ok::<bool, Error>(true) ==> final(self).emitted@.len() == old(self).emitted@.len() + 1
                && final(self).visitors.seen@.len() == 0,
            r != Ok::<bool, Error>(true) ==> final(self).emitted@ == old(self).emitted@,
            r == Ok::<bool, Error>(false) ==> final(self).visitors == old(self).visitors,
            final(self).input == old(self).input,
            final(self).log@.fed == old(self).log@.fed,
            final(self).log@.flushed == old(self).log@.flushed,
            extends(final(self).log@.taken, old(self).log@.taken),
            r is Ok ==> added(final(self).log@.taken, old(self).log@.taken) == data_of(added(final(self).emitted@, old(self).emitted@)),
            final(self).log@.flush_marks == old(self).log@.flush_marks,
            extends(final(self).log@.asked, old(self).log@.asked),
            r == Ok::<bool, Error>(true) ==> final(self).log@.asked == old(self).log@.asked.push(Some(final(self).log@.taken.last()))
                && added(final(self).emitted@, old(self).emitted@) == seq![Message::<Out, S>::Data(final(self).log@.taken.last())],
            r == Ok::<bool, Error>(false) ==> final(self).log@.asked == old(self).log@.asked.push(None),
    {
        let ghost log0 = self.log@;
        match self.worker.next()? {
            Some(data) => {
                self.log = Ghost(LineLog { taken: log0.taken.push(data), asked: log0.asked.push(Some(data)), ..log0 });
                self.visitors.clear();
                let ghost before = self.emitted@;
                proof {
                    lemma_data_then(before, before, Message::<Out, S>::Data(data));
                }
                self.push(Message::Data(data))?;
                proof {
                    lemma_data_of_push(Seq::<Message<Out, S>>::empty(), Message::<Out, S>::Data(data));
                    assert(added(self.emitted@, old(self).emitted@) =~= seq![Message::<Out, S>::Data(data)]);
                    assert(added(self.log@.taken, old(self).log@.taken) =~= seq![data]);
                    assert(Seq::<Message<Out, S>>::empty().push(Message::<Out, S>::Data(data)) =~= seq![Message::<Out, S>::Data(data)]);
                }
                Ok(true)
            },
            None => {
                self.log = Ghost(LineLog { asked: log0.asked.push(None), ..log0 });
                proof {
                    assert(added(self.log@.taken, old(self).log@.taken) =~= Seq::<Out>::empty());
                    assert(added(self.emitted@, old(self).emitted@) =~= Seq::<Message<Out, S>>::empty());
                }
                Ok(false)
            },
        }
    }

    /// Forward `signal` unless its origin was already forwarded since the
    /// last data output; `true` when it was forwarded.
    fn maybe_forward(&mut self, signal: Message<Out, S>) -> (r: Result<bool, Error>)
        requires
            !(signal is Data),
        ensures
            final(self).input == old(self).input,
            final(self).worker == old(self).worker,
            final(self).log == old(self).log,
            old(self).visitors.has(origin_of(signal)) ==> r == Ok::<bool, Error>(false) && final(self).emitted == old(self).emitted
                && final(self).visitors == old(self).visitors,
            !old(self).visitors.has(origin_of(signal)) ==> r == Ok::<bool, Error>(true) || r is Err,
            r == Ok::<bool, Error>(true) ==> final(self).emitted@ == old(self).emitted@.push(signal)
                && final(self).visitors.has(origin_of(signal)),
            r is Err ==> final(self).emitted == old(self).emitted,
            forall|o: S| old(self).visitors.has(o) ==> #[trigger] final(self).visitors.has(o),
    {
        let seen = match &signal {
            Message::Flush(o) => self.visitors.contains(o),
            Message::Marker(o) => self.visitors.contains(o),
            Message::Data(_) => true,
        };
        if seen {
            return Ok(false);
        }
        match &signal {
            Message::Flush(o) => self.visitors.insert(o.duplicate()),
            Message::Marker(o) => self.visitors.insert(o.duplicate()),
            Message::Data(_) => {},
        }
        self.push(signal)?;
        Ok(true)
    }

    /// Work every parent once.
    fn work_parents(&mut self) -> (r: Result<(), Error>)
        ensures
            old(self).workers@.len() == 0 ==> r is Ok,
            final(self).input == old(self).input,
            final(self).worker == old(self).worker,
            final(self).log == old(self).log,
            final(self).emitted == old(self).emitted,
            final(self).visitors == old(self).visitors,
    {
        let n = self.workers.len();
        let mut i: usize = 0;
        while i < n
            invariant
                n == self.workers@.len(),
                n == old(self).workers@.len(),
                i <= n,
                self.input == old(self).input,
                self.worker == old(self).worker,
                self.log == old(self).log,
                self.emitted == old(self).emitted,
                self.visitors == old(self).visitors,
            decreases n - i,
        {
            self.workers[i].work()?;
            i = i + 1;
        }
        Ok(())
    }

    /// What one step promises of the node before it (`before`) and after it
    /// (`after`) when it returned `r`:
    ///
    /// - it emitted a run of data, optionally closed by one signal, and
    ///   something when it succeeded;
    /// - a signal it emitted alone had an origin it had not forwarded since
    ///   its last data output, and it keeps every origin it had;
    /// - the origin of a signal it emitted is remembered afterwards.
    pub open spec fn stepped(before: Self, after: Self, r: Result<(), Error>) -> bool {
        let new = added(after.emitted@, before.emitted@);
        &&& extends(after.emitted@, before.emitted@)
        &&& signal_last(new)
        &&& r is Ok ==> new.len() > 0
        &&& lone_signal(new) ==> !before.visitors.has(origin_of(new[0]))
            && forall|o: S| before.visitors.has(o) ==> #[trigger] after.visitors.has(o)
        &&& new.len() > 0 && !(new.last() is Data) ==> after.visitors.has(origin_of(new.last()))
        &&& extends(after.input.received(), before.input.received())
        &&& extends(after.log@.taken, before.log@.taken)
        &&& ({
            let got = added(after.input.received(), before.input.received());
            &&& after.log@.fed == before.log@.fed + data_of(got)
            &&& after.log@.flushed == before.log@.flushed + flushes_in(got)
            &&& r is Ok ==> added(after.log@.taken, before.log@.taken) == data_of(new)
        })
        &&& extends(after.log@.asked, before.log@.asked)
        &&& r is Ok && new.len() > 0 && new.last() is Flush ==> after.log@.flush_marks.len() > before.log@.flush_marks.len()
            && flush_behind_its_output(after.log@.asked, after.log@.flush_marks, new)
    }

    /// A flush leaves behind the output it released: when a step succeeds
    /// by forwarding a flush, the routine was flushed during the step and
    /// asked for output exactly once after the last flush, and its answer
    /// is what the step emitted ahead of the flush: that output as data, or
    /// nothing when it had none.
    pub proof fn flush_follows_released_output(before: Self, after: Self, r: Result<(), Error>)
        requires
            Self::stepped(before, after, r),
            r is Ok,
            added(after.emitted@, before.emitted@).last() is Flush,
        ensures
            ({
                let new = added(after.emitted@, before.emitted@);
                let marks = after.log@.flush_marks;
                let asked = after.log@.asked;
                &&& marks.len() > before.log@.flush_marks.len()
                &&& asked.len() == marks.last() + 1
                &&& asked.last() matches Some(x) ==> new.len() == 2 && new[0] == Message::<Out, S>::Data(x)
                &&& asked.last() is None ==> new.len() == 1
            }),
    {
        let new = added(after.emitted@, before.emitted@);
        if let Some(x) = after.log@.asked.last() {
            assert(new[0] == seq![Message::<Out, S>::Data(x), new.last()][0]);
        }
    }

    /// Consecutive states of one node, each step emitting a single signal.
    pub open spec fn signal_steps(nodes: Seq<Self>, results: Seq<Result<(), Error>>) -> bool {
        &&& nodes.len() == results.len() + 1
        &&& forall|k: int|
            #![trigger results[k]]
            0 <= k < results.len() ==> Self::stepped(nodes[k], nodes[k + 1], results[k])
                && lone_signal(added(nodes[k + 1].emitted@, nodes[k].emitted@))
    }

    /// Once a step has forwarded a signal, the node remembers its origin for
    /// as long as it forwards only signals.
    proof fn origin_remembered(nodes: Seq<Self>, results: Seq<Result<(), Error>>, i: int, m: int)
        requires
            Self::signal_steps(nodes, results),
            0 <= i < m <= results.len(),
        ensures
            nodes[m].visitors.has(origin_of(added(nodes[i + 1].emitted@, nodes[i].emitted@)[0])),
        decreases m - i,
    {
        assert(Self::stepped(nodes[i], nodes[i + 1], results[i]));
        if m > i + 1 {
            Self::origin_remembered(nodes, results, i, m - 1);
            assert(Self::stepped(nodes[m - 1], nodes[m], results[m - 1]));
        }
    }

    /// A signal leaves once: over consecutive steps that each emit a single
    /// signal, no two of those signals share an origin. A signal that reaches
    /// the node along several paths, with no data in between, is forwarded
    /// the first time only.
    pub proof fn signals_leave_once(nodes: Seq<Self>, results: Seq<Result<(), Error>>, i: int, j: int)
        requires
            Self::signal_steps(nodes, results),
            0 <= i < j < results.len(),
        ensures
            origin_of(added(nodes[i + 1].emitted@, nodes[i].emitted@)[0])@
                != origin_of(added(nodes[j + 1].emitted@, nodes[j].emitted@)[0])@,
    {
        let first = origin_of(added(nodes[i + 1].emitted@, nodes[i].emitted@)[0]);
        let second = origin_of(added(nodes[j + 1].emitted@, nodes[j].emitted@)[0]);
        Self::origin_remembered(nodes, results, i, j);
        assert(Self::stepped(nodes[j], nodes[j + 1], results[j]));
        if first@ == second@ {
            let seen = nodes[j].visitors.seen@;
            let t = choose|t: int| 0 <= t < seen.len() && (#[trigger] seen[t])@ == first@;
            assert(seen[t]@ == second@);
            assert(nodes[j].visitors.has(second));
        }
    }

    /// Work this node once; see [`Line`].
    pub fn step(&mut self) -> (r: Result<(), Error>)
        ensures
            Self::stepped(*old(self), *final(self), r),
    {
        proof {
            assert(added(self.input.received(), old(self).input.received()) =~= Seq::<Message<In, S>>::empty());
            assert(old(self).log@.fed + data_of(Seq::<Message<In, S>>::empty()) =~= old(self).log@.fed);
        }
        if self.emit_output()? {
            return Ok(());
        }
        let mut rounds: u64 = 0;
        loop
            invariant
                self.emitted == old(self).emitted,
                extends(self.emitted@, old(self).emitted@),
                all_data(added(self.emitted@, old(self).emitted@)),
                self.emitted@ == old(self).emitted@ ==> self.visitors == old(self).visitors,
                extends(self.log@.asked, old(self).log@.asked),
                extends(self.log@.flush_marks, old(self).log@.flush_marks),
                extends(self.input.received(), old(self).input.received()),
                extends(self.log@.taken, old(self).log@.taken),
                added(self.log@.taken, old(self).log@.taken) == data_of(added(self.emitted@, old(self).emitted@)),
                ({
                    let got = added(self.input.received(), old(self).input.received());
                    &&& self.log@.fed == old(self).log@.fed + data_of(got)
                    &&& self.log@.flushed == old(self).log@.flushed + flushes_in(got)
                }),
            decreases ROUND_LIMIT - rounds,
        {
            if rounds == ROUND_LIMIT {
                return Err(Error::fatal("parents never produced input"));
            }
            rounds = rounds + 1;
            let ghost before = self.emitted@;
            let ghost got_before = self.input.received();
            let polled = self.input.poll()?;
            // With no parents to work, nobody else produces input: wait for it.
            let polled = if polled.is_none() && self.workers.len() == 0 {
                Some(self.input.wait()?)
            } else {
                polled
            };
            let ghost taken_message = polled;
            proof {
                if let Some(m) = taken_message {
                    lemma_data_of_push(added(got_before, old(self).input.received()), m);
                    assert(added(self.input.received(), old(self).input.received())
                        =~= added(got_before, old(self).input.received()).push(m));
                } else {
                    assert(self.input.received() == got_before);
                }
            }
            match polled {
                Some(Message::Data(data)) => {
                    let ghost log0 = self.log@;
                    let ghost taken_before = self.log@.taken;
                    self.log = Ghost(LineLog { fed: log0.fed.push(data), ..log0 });
                    proof {
                        assert(self.log@.fed =~= old(self).log@.fed + data_of(added(self.input.received(), old(self).input.received())));
                    }
                    self.worker.send(data)?;
                    let emitted = self.emit_output();
                    proof {
                        crate::message::lemma_data_extends(old(self).emitted@, before, self.emitted@);
                        if emitted is Ok {
                            lemma_taken_then(old(self).log@.taken, taken_before, self.log@.taken, old(self).emitted@, before, self.emitted@);
                        }
                    }
                    if emitted? {
                        return Ok(());
                    }
                },
                Some(Message::Flush(origin)) => {
                    let ghost log0 = self.log@;
                    let ghost taken_before = self.log@.taken;
                    self.log = Ghost(LineLog { flushed: log0.flushed + 1, flush_marks: log0.flush_marks.push(log0.asked.len()), ..log0 });
                    self.worker.flush()?;
                    let ghost head_visitors = self.visitors;
                    let emitted = self.emit_output();
                    proof {
                        crate::message::lemma_data_extends(old(self).emitted@, before, self.emitted@);
                        if emitted is Ok {
                            lemma_taken_then(old(self).log@.taken, taken_before, self.log@.taken, old(self).emitted@, before, self.emitted@);
                        }
                    }
                    emitted?;
                    let ghost mid = self.emitted@;
                    let ghost mid_visitors = self.visitors;
                    assert(mid == before ==> mid_visitors == head_visitors);
                    proof { lemma_data_then(old(self).emitted@, mid, Message::<Out, S>::Flush(origin)); }
                    let forwarded = self.maybe_forward(Message::Flush(origin))?;
                    if forwarded {
                        proof {
                            let new = added(self.emitted@, old(self).emitted@);
                            lemma_data_of_push(added(mid, old(self).emitted@), Message::<Out, S>::Flush(origin));
                            assert(new =~= added(mid, old(self).emitted@).push(Message::<Out, S>::Flush(origin)));
                            if new.len() == 1 {
                                assert(mid =~= old(self).emitted@);
                                assert(before =~= old(self).emitted@);
                                assert(new[0] == new.last());
                            }
                            let flush = Message::<Out, S>::Flush(origin);
                            match self.log@.asked.last() {
                                Some(x) => {
                                    assert(added(mid, old(self).emitted@) =~= seq![Message::<Out, S>::Data(x)]);
                                    assert(new =~= seq![Message::<Out, S>::Data(x), flush]);
                                },
                                None => {
                                    assert(added(mid, old(self).emitted@) =~= Seq::<Message<Out, S>>::empty());
                                    assert(new =~= seq![flush]);
                                },
                            }
                        }
                        return Ok(());
                    }
                    proof {
                        if mid != before {
                            assert(!mid_visitors.has(origin_of(Message::<Out, S>::Flush(origin))));
                        }
                    }
                },
                Some(Message::Marker(origin)) => {
                    proof { lemma_data_then(old(self).emitted@, before, Message::<Out, S>::Marker(origin)); }
                    if self.maybe_forward(Message::Marker(origin))? {
                        proof {
                            let new = added(self.emitted@, old(self).emitted@);
                            lemma_data_of_push(added(before, old(self).emitted@), Message::<Out, S>::Marker(origin));
                            assert(new =~= added(before, old(self).emitted@).push(Message::<Out, S>::Marker(origin)));
                            if new.len() == 1 {
                                assert(before =~= old(self).emitted@);
                                assert(new[0] == new.last());
                            }
                        }
                        return Ok(());
                    }
                },
                None => {
                    self.work_parents()?;
                },
            }
        }
    }
}

impl<In, Out: Clone, S: Origin, R: LineRoutine<In, Out>> Workable for Line<In, Out, S, R> {
    fn work(&mut self) -> (r: Result<(), Error>)
        ensures
            Self::stepped(*old(self), *final(self), r),
    {
        self.step()
    }
}

impl<In, Out: Clone, S: Origin, R: LineRoutine<In, Out>> LineTrait for Line<In, Out, S, R> {
    type In = In;
    type Out = Out;
    type Signal = S;
}

impl<In, Out: Clone, S: Origin, R: LineRoutine<In, Out>> InputSide<In, S> for Line<In, Out, S, R> {
    fn input_sender(&self) -> EdgeSender<In, S> {
        self.input.sender()
    }
}

impl<In, Out: Clone, S: Origin, R: LineRoutine<In, Out>> OutputSide<Out, S> for Line<In, Out, S, R> {
    open spec fn takes_every_output(&self) -> bool {
        true
    }

    open spec fn output_count(&self) -> nat {
        self.pushes@.len()
    }

    fn add_output(&mut self, output: Box<dyn Closeable<Out, S>>) -> (r: Result<(), Error>)
        ensures
            r is Ok,
            final(self).pushes@ == old(self).pushes@.push(output),
    {
        proof {
            lemma_push(self.pushes@, output);
        }
        self.pushes.push(output);
        Ok(())
    }
}

impl<In, Out: Clone, S: Origin, R: LineRoutine<In, Out>> ParentSide for Line<In, Out, S, R> {
    open spec fn takes_every_parent(&self) -> bool {
        true
    }

    open spec fn parent_count(&self) -> nat {
        self.workers@.len()
    }

    fn add_workable(&mut self, workable: Box<dyn Workable>) -> (r: Result<(), Error>)
        ensures
            r is Ok,
            final(self).workers@ == old(self).workers@.push(workable),
    {
        proof {
            lemma_push(self.workers@, workable);
        }
        self.workers.push(workable);
        Ok(())
    }
}

} // verus!
