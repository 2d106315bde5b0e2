//! The messages that flow along the edges of a graph.
use crate::signal::Comparable;
use vstd::prelude::*;

verus! {

/// A [`Message`] is either data or a signal.
///
/// Signals carry an origin (`S`) that identifies them while they travel
/// through the graph:
///
/// - [`Message::Flush`] asks every node to emit whatever it can and reset.
/// - [`Message::Marker`] is a no-op for the nodes and is used to
///   synchronise: everything emitted before it arrives before it.
#[derive(Debug, Clone, PartialEq)]
pub enum Message<D, S> {
    Data(D),
    Flush(S),
    Marker(S),
}

impl<D, S> Message<D, S> {
    /// Flush and Marker are signals; Data is not.
    pub open spec fn is_signal(&self) -> bool {
        !(self is Data)
    }

    /// Whether this message carries data.
    pub fn is_data(&self) -> (r: bool)
        ensures
            r == (self is Data),
    {
        match self {
            Message::Data(_) => true,
            _ => false,
        }
    }
}

/// Every message of `s` carries data.
pub open spec fn all_data<D, S>(s: Seq<Message<D, S>>) -> bool {
    forall|i: int| 0 <= i < s.len() ==> (#[trigger] s[i]) is Data
}

/// `s` is a run of data messages, optionally closed by a single signal:
/// no signal ever precedes a data message or another signal.
pub open spec fn signal_last<D, S>(s: Seq<Message<D, S>>) -> bool {
    forall|i: int| 0 <= i < s.len() - 1 ==> (#[trigger] s[i]) is Data
}

} // verus!

verus! {

/// `new` is `old` followed by zero or more further elements.
pub open spec fn extends<T>(new: Seq<T>, old: Seq<T>) -> bool {
    old.len() <= new.len() && forall|i: int| 0 <= i < old.len() ==> new[i] == old[i]
}

/// The elements `new` holds beyond its prefix `old`.
pub open spec fn added<T>(new: Seq<T>, old: Seq<T>) -> Seq<T> {
    new.subrange(old.len() as int, new.len() as int)
}

/// The origin carried by a signal.
pub open spec fn origin_of<D, S>(m: Message<D, S>) -> S {
    match m {
        Message::Flush(o) => o,
        Message::Marker(o) => o,
        Message::Data(_) => arbitrary(),
    }
}

/// `s` is a single signal and nothing else.
pub open spec fn lone_signal<D, S>(s: Seq<Message<D, S>>) -> bool {
    s.len() == 1 && !(s[0] is Data)
}

/// `m` and `n` are the same signal: both flushes, or both markers, with one origin.
pub open spec fn same_signal<D, E, S>(m: Message<D, S>, n: Message<E, S>) -> bool {
    match (m, n) {
        (Message::Flush(a), Message::Flush(b)) => a == b,
        (Message::Marker(a), Message::Marker(b)) => a == b,
        _ => false,
    }
}

} // verus!

verus! {

/// Extending a run of data with more data gives a run of data.
pub proof fn lemma_data_extends<D, S>(a: Seq<Message<D, S>>, b: Seq<Message<D, S>>, c: Seq<Message<D, S>>)
    requires
        extends(b, a),
        extends(c, b),
        all_data(added(b, a)),
        all_data(added(c, b)),
    ensures
        extends(c, a),
        all_data(added(c, a)),
        signal_last(added(c, a)),
{
    assert forall|i: int| 0 <= i < added(c, a).len() implies (#[trigger] added(c, a)[i]) is Data by {
        if i < b.len() - a.len() {
            assert(added(b, a)[i] == added(c, a)[i]);
        } else {
            assert(added(c, b)[i - (b.len() - a.len())] == added(c, a)[i]);
        }
    }
}

/// A run of data followed by a run that ends in at most one signal ends
/// in at most one signal.
pub proof fn lemma_data_then_run<D, S>(a: Seq<Message<D, S>>, b: Seq<Message<D, S>>, c: Seq<Message<D, S>>)
    requires
        extends(b, a),
        extends(c, b),
        all_data(added(b, a)),
        signal_last(added(c, b)),
    ensures
        extends(c, a),
        signal_last(added(c, a)),
        added(c, a).len() >= added(c, b).len(),
        added(c, b).len() > 0 ==> added(c, a).last() == added(c, b).last(),
{
    assert forall|i: int| 0 <= i < added(c, a).len() - 1 implies (#[trigger] added(c, a)[i]) is Data by {
        if i < b.len() - a.len() {
            assert(added(b, a)[i] == added(c, a)[i]);
        } else {
            assert(added(c, b)[i - (b.len() - a.len())] == added(c, a)[i]);
        }
    }
}

/// A run of data followed by one message has that message last and data
/// before it.
pub proof fn lemma_data_then<D, S>(a: Seq<Message<D, S>>, b: Seq<Message<D, S>>, m: Message<D, S>)
    requires
        extends(b, a),
        all_data(added(b, a)),
    ensures
        extends(b.push(m), a),
        added(b.push(m), a) =~= added(b, a).push(m),
        signal_last(added(b.push(m), a)),
        added(b.push(m), a).last() == m,
{
    assert(added(b.push(m), a) =~= added(b, a).push(m));
}

} // verus!

verus! {

/// Two messages are alike: the same variant carrying equal views.
pub open spec fn alike<D: View, S: View>(a: Message<D, S>, b: Message<D, S>) -> bool {
    match (a, b) {
        (Message::Data(x), Message::Data(y)) => x@ == y@,
        (Message::Flush(x), Message::Flush(y)) => x@ == y@,
        (Message::Marker(x), Message::Marker(y)) => x@ == y@,
        _ => false,
    }
}

impl<D: Comparable, S: Comparable> Message<D, S> {
    /// Whether `self` and `other` are alike.
    pub fn same(&self, other: &Self) -> (r: bool)
        ensures
            r == alike(*self, *other),
    {
        match (self, other) {
            (Message::Data(x), Message::Data(y)) => x.same(y),
            (Message::Flush(x), Message::Flush(y)) => x.same(y),
            (Message::Marker(x), Message::Marker(y)) => x.same(y),
            _ => false,
        }
    }
}

/// The data carried by the data messages of `s`, in order.
pub open spec fn data_of<D, S>(s: Seq<Message<D, S>>) -> Seq<D>
    decreases s.len(),
{
    if s.len() == 0 {
        Seq::empty()
    } else {
        let rest = data_of(s.drop_last());
        match s.last() {
            Message::Data(d) => rest.push(d),
            _ => rest,
        }
    }
}

/// `m` is a flush whose origin has the view of `o`.
pub open spec fn is_flush_of<D, S: View>(m: Message<D, S>, o: S) -> bool {
    m matches Message::Flush(f) && f@ == o@
}

/// `m` is a marker whose origin has the view of `o`.
pub open spec fn is_marker_of<D, S: View>(m: Message<D, S>, o: S) -> bool {
    m matches Message::Marker(f) && f@ == o@
}

/// How many flushes `s` holds.
pub open spec fn flushes_in<D, S>(s: Seq<Message<D, S>>) -> nat
    decreases s.len(),
{
    if s.len() == 0 {
        0
    } else {
        flushes_in(s.drop_last()) + if s.last() is Flush { 1nat } else { 0nat }
    }
}

/// `t` is the end of `s`.
pub open spec fn ends_with<T>(s: Seq<T>, t: Seq<T>) -> bool {
    t.len() <= s.len() && s.subrange(s.len() - t.len(), s.len() as int) == t
}

/// Appending a message appends its data, if it carries any.
pub proof fn lemma_data_of_push<D, S>(s: Seq<Message<D, S>>, m: Message<D, S>)
    ensures
        data_of(s.push(m)) == match m {
            Message::Data(d) => data_of(s).push(d),
            _ => data_of(s),
        },
        flushes_in(s.push(m)) == flushes_in(s) + if m is Flush { 1nat } else { 0nat },
{
    assert(s.push(m).drop_last() =~= s);
}

/// The data and the flushes of two runs of messages, one after the other.
pub proof fn lemma_data_concat<D, S>(a: Seq<Message<D, S>>, b: Seq<Message<D, S>>)
    ensures
        data_of(a + b) == data_of(a) + data_of(b),
        flushes_in(a + b) == flushes_in(a) + flushes_in(b),
    decreases b.len(),
{
    if b.len() == 0 {
        assert(a + b =~= a);
        assert(data_of(a) + data_of(b) =~= data_of(a));
    } else {
        let m = b.last();
        lemma_data_concat(a, b.drop_last());
        assert(a + b =~= (a + b.drop_last()).push(m));
        assert(b =~= b.drop_last().push(m));
        lemma_data_of_push(a + b.drop_last(), m);
        lemma_data_of_push(b.drop_last(), m);
        if let Message::Data(d) = m {
            assert(data_of(a) + data_of(b.drop_last()).push(d) =~= (data_of(a) + data_of(b.drop_last())).push(d));
        }
    }
}

/// Pushing onto a sequence adds one to its length and puts the element
/// last, whatever the element type (stated once here so that sequences of
/// trait objects can use it).
pub proof fn lemma_push<A>(s: Seq<A>, a: A)
    ensures
        s.push(a).len() == s.len() + 1,
        s.push(a).last() == a,
{
}

} // verus!
