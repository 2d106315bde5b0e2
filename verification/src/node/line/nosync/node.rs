//! [`Line`]: a pulled node that reads either the parent it owns or, at the
//! root of a chain, its own input edge.
use crate::edge::{Edge, EdgeSender};
use crate::error::Error;
use crate::graph::{InputSide, Pullable, ROUND_LIMIT};
use crate::message::{added, data_of, extends, flushes_in, lemma_data_of_push, origin_of, same_signal, Message};
use crate::node::line::pull::node::only_signals;
use crate::node::line::routine::LineRoutine;
use crate::node::line::sync::node::{empty_line_log, LineLog};
use crate::signal::{Origin, Visitors};
use std::collections::VecDeque;
use vstd::prelude::*;

verus! {

/// A node running a routine. With a parent it pulls the parent for input;
/// without one (the root of a chain) it reads what was pushed into its
/// input edge. Routine output comes first, then signals held back in its
/// buffer; a flush is held back while the routine still has output after it.
#[verifier::reject_recursive_types(In)]
#[verifier::reject_recursive_types(S)]
pub struct Line<In, Out, S, R, P> {
    /// Origins of the signals forwarded since data was last emitted.
    pub visitors: Visitors<S>,
    /// The routine that transforms the data.
    pub worker: R,
    /// The parent this node pulls, if it has one.
    pub pullable: Option<P>,
    /// Signals waiting to be forwarded once the routine's output is out.
    pub buffer: VecDeque<Message<Out, S>>,
    /// The edge a root node reads.
    pub input: Edge<In, S>,
    /// Every message this node handed out, oldest first.
    pub yielded: Ghost<Seq<Message<Out, S>>>,
    /// Every input message this node took, oldest first.
    pub got: Ghost<Seq<Message<In, S>>>,
    /// What this node handed to its routine and took from it.
    pub log: Ghost<LineLog<In, Out>>,
}

impl<In, Out, S: Origin, R: LineRoutine<In, Out>, P: Pullable<DataType = In, SignalType = S>> Line<In, Out, S, R, P> {
    /// Every input message this node has taken: from its parent if it has
    /// one, else from its edge.
    pub open spec fn taken(&self) -> Seq<Message<In, S>> {
        self.got@
    }

    /// The root of a chain: a node running `worker` that reads its own edge.
    pub fn root(worker: R) -> (l: Self)
        ensures
            l.worker == worker,
            l.pullable is None,
            l.buffer@.len() == 0,
            l.yielded@.len() == 0,
            !l.input.closed(),
            l.input.received().len() == 0,
            l.visitors.seen@.len() == 0,
    {
        Line {
            visitors: Visitors::new(),
            worker,
            pullable: None,
            buffer: VecDeque::new(),
            input: Edge::new(),
            yielded: Ghost(Seq::empty()),
            got: Ghost(Seq::empty()),
            log: Ghost(empty_line_log()),
        }
    }

    /// A node running `worker` that pulls `pullable` when there is one.
    pub fn new(worker: R, pullable: Option<P>) -> (l: Self)
        ensures
            l.worker == worker,
            l.pullable == pullable,
            l.buffer@.len() == 0,
            l.yielded@.len() == 0,
            !l.input.closed(),
            l.input.received().len() == 0,
            l.visitors.seen@.len() == 0,
    {
        Line {
            visitors: Visitors::new(),
            worker,
            pullable,
            buffer: VecDeque::new(),
            input: Edge::new(),
            yielded: Ghost(Seq::empty()),
            got: Ghost(Seq::empty()),
            log: Ghost(empty_line_log()),
        }
    }

    /// The next input message: pulled from the parent, or else taken from
    /// the edge, waiting until one arrives.
    fn take_input(&mut self) -> (r: Result<Message<In, S>, Error>)
        ensures
            final(self).pullable is Some == old(self).pullable is Some,
            r matches Ok(m) ==> final(self).taken() == old(self).taken().push(m),
            r is Err ==> final(self).taken() == old(self).taken(),
            final(self).buffer == old(self).buffer,
            final(self).yielded == old(self).yielded,
            final(self).worker == old(self).worker,
            final(self).log == old(self).log,
    {
        let r = match self.pullable.take() {
            Some(mut parent) => {
                let r = parent.pull();
                self.pullable = Some(parent);
                r
            },
            None => self.input.wait(),
        };
        if let Ok(m) = &r {
            self.got = Ghost(self.got@.push(*m));
        }
        r
    }

    /// The routine's next output as data, else the oldest held back signal.
    /// Handing out anything forgets the signals seen so far.
    fn next_output(&mut self) -> (r: Result<Option<Message<Out, S>>, Error>)
        ensures
            final(self).pullable == old(self).pullable,
            final(self).input == old(self).input,
            final(self).yielded == old(self).yielded,
            final(self).got == old(self).got,
            final(self).log@.fed == old(self).log@.fed,
            final(self).log@.flushed == old(self).log@.flushed,
            r matches Ok(Some(Message::Data(x))) ==> final(self).log@.taken == old(self).log@.taken.push(x),
            !(r matches Ok(Some(Message::Data(_)))) ==> final(self).log@.taken == old(self).log@.taken,
            r matches Ok(Some(m)) ==> (m is Data ==> final(self).buffer@ == old(self).buffer@) && (!(m is Data)
                ==> old(self).buffer@.len() > 0 && m == old(self).buffer@[0] && final(self).buffer@ == old(self).buffer@.drop_first()),
            !(r matches Ok(Some(_))) ==> final(self).buffer@ == old(self).buffer@,
            r matches Ok(None) ==> old(self).buffer@.len() == 0,
    {
        let ghost log0 = self.log@;
        if let Some(data) = self.worker.next()? {
            self.log = Ghost(LineLog { taken: log0.taken.push(data), asked: log0.asked.push(Some(data)), ..log0 });
            self.visitors.clear();
            return Ok(Some(Message::Data(data)));
        }
        self.log = Ghost(LineLog { asked: log0.asked.push(None), ..log0 });
        match self.buffer.pop_front() {
            Some(next) => {
                if next.is_data() {
                    // Only signals are held back; data never reaches the buffer.
                    self.buffer.push_front(next);
                    return Err(Error::fatal("data held back in the signal buffer"));
                }
                self.visitors.clear();
                Ok(Some(next))
            },
            None => Ok(None),
        }
    }
}

impl<In, Out, S: Origin, R: LineRoutine<In, Out>, P: Pullable<DataType = In, SignalType = S>> Pullable for Line<In, Out, S, R, P> {
    type DataType = Out;
    type SignalType = S;

    open spec fn keeps_record(&self) -> bool {
        true
    }

    open spec fn yielded(&self) -> Seq<Message<Out, S>> {
        self.yielded@
    }

    /// The next message: buffered output first, else the result of taking
    /// input until the routine produces output or a signal arrives.
    fn pull(&mut self) -> (r: Result<Message<Out, S>, Error>)
        ensures
            only_signals(old(self).buffer@) ==> only_signals(final(self).buffer@),
            final(self).pullable is Some == old(self).pullable is Some,
            r matches Ok(m) ==> (!(m is Data) ==> (old(self).buffer@.len() > 0 && m == old(self).buffer@[0])
                || (final(self).taken().len() > old(self).taken().len()
                    && same_signal(m, final(self).taken().last()))),
            extends(final(self).taken(), old(self).taken()),
            extends(final(self).log@.taken, old(self).log@.taken),
            ({
                let got = added(final(self).taken(), old(self).taken());
                let out = added(final(self).log@.taken, old(self).log@.taken);
                &&& final(self).log@.fed == old(self).log@.fed + data_of(got)
                &&& final(self).log@.flushed == old(self).log@.flushed + flushes_in(got)
                &&& r matches Ok(Message::Data(x)) ==> out == seq![x]
                &&& (r matches Ok(m) && !(m is Data)) ==> out.len() == 0
                &&& r is Ok && got.len() > 0 && got.last() is Flush && out.len() > 0 ==> old(self).buffer@.len() == 0
                    && final(self).buffer@ == seq![Message::<Out, S>::Flush(origin_of(got.last()))]
            }),
    {
        proof {
            assert(old(self).log@.fed + data_of(Seq::<Message<In, S>>::empty()) =~= old(self).log@.fed);
        }
        if let Some(message) = self.next_output()? {
            proof {
                assert(added(self.taken(), old(self).taken()) =~= Seq::<Message<In, S>>::empty());
                assert(added(self.log@.taken, old(self).log@.taken) =~= (if message is Data { seq![message->Data_0] } else { Seq::<Out>::empty() }));
            }
            self.yielded = Ghost(self.yielded@.push(message));
            return Ok(message);
        }
        proof {
            assert(added(self.taken(), old(self).taken()) =~= Seq::<Message<In, S>>::empty());
        }
        let mut rounds: u64 = 0;
        loop
            invariant
                only_signals(old(self).buffer@) ==> only_signals(self.buffer@),
                self.buffer@.len() == 0,
                self.yielded == old(self).yielded,
                self.pullable is Some == old(self).pullable is Some,
                self.taken().len() >= old(self).taken().len(),
                extends(self.taken(), old(self).taken()),
                self.log@.taken == old(self).log@.taken,
                old(self).buffer@.len() == 0,
                ({
                    let got = added(self.taken(), old(self).taken());
                    &&& self.log@.fed == old(self).log@.fed + data_of(got)
                    &&& self.log@.flushed == old(self).log@.flushed + flushes_in(got)
                }),
            decreases ROUND_LIMIT - rounds,
        {
            if rounds == ROUND_LIMIT {
                return Err(Error::fatal("no output after the round limit"));
            }
            rounds = rounds + 1;
            let ghost got_before = self.taken();
            let input = self.take_input()?;
            proof {
                lemma_data_of_push(added(got_before, old(self).taken()), input);
                assert(added(self.taken(), old(self).taken()) =~= added(got_before, old(self).taken()).push(input));
            }
            match input {
                Message::Data(data) => {
                    let ghost log0 = self.log@;
                    self.log = Ghost(LineLog { fed: log0.fed.push(data), ..log0 });
                    proof {
                        assert(self.log@.fed =~= old(self).log@.fed + data_of(added(self.taken(), old(self).taken())));
                    }
                    self.worker.send(data)?;
                    if let Some(message) = self.next_output()? {
                        proof {
                            assert(added(self.log@.taken, old(self).log@.taken) =~= (if message is Data { seq![message->Data_0] } else { Seq::<Out>::empty() }));
                        }
                        self.yielded = Ghost(self.yielded@.push(message));
                        return Ok(message);
                    }
                },
                Message::Flush(origin) => {
                    let ghost log0 = self.log@;
                    self.log = Ghost(LineLog { flushed: log0.flushed + 1, flush_marks: log0.flush_marks.push(log0.asked.len()), ..log0 });
                    self.worker.flush()?;
                    match self.next_output()? {
                        Some(message) => {
                            proof {
                                assert(added(self.log@.taken, old(self).log@.taken) =~= (if message is Data { seq![message->Data_0] } else { Seq::<Out>::empty() }));
                            }
                            // Forward the flush once the routine's output is out.
                            self.buffer.push_back(Message::Flush(origin));
                            proof {
                                assert(self.buffer@ =~= seq![Message::<Out, S>::Flush(origin)]);
                            }
                            self.yielded = Ghost(self.yielded@.push(message));
                            return Ok(message);
                        },
                        None => {
                            proof {
                                assert(added(self.log@.taken, old(self).log@.taken) =~= Seq::<Out>::empty());
                            }
                            let m = Message::Flush(origin);
                            self.yielded = Ghost(self.yielded@.push(m));
                            return Ok(m);
                        },
                    }
                },
                Message::Marker(origin) => {
                    proof {
                        assert(added(self.log@.taken, old(self).log@.taken) =~= Seq::<Out>::empty());
                    }
                    let m = Message::Marker(origin);
                    self.yielded = Ghost(self.yielded@.push(m));
                    return Ok(m);
                },
            }
        }
    }
}

impl<In, Out, S, R, P> InputSide<In, S> for Line<In, Out, S, R, P> {
    fn input_sender(&self) -> EdgeSender<In, S> {
        self.input.sender()
    }
}

} // verus!
