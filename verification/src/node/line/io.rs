//! [`LineIo`]: the input and the output of a linear graph in one place.
use crate::error::Error;
use crate::graph::{Closeable, Pushable, Reader, ROUND_LIMIT};
use crate::message::{added, data_of, extends, lemma_data_of_push, Message, is_flush_of, is_marker_of};
use crate::signal::Origin;
use vstd::prelude::*;

verus! {

/// `new` is the messages read while waiting for the flush with origin `o`:
/// it ends with that flush and holds no earlier one.
pub open spec fn ends_at_flush<D, S: View>(new: Seq<Message<D, S>>, o: S) -> bool {
    &&& new.len() > 0
    &&& new.last() matches Message::Flush(f) && f@ == o@
    &&& forall|i: int| 0 <= i < new.len() - 1 ==> !(#[trigger] new[i] matches Message::Flush(f) && f@ == o@)
}

/// `new` is the messages read while waiting for the marker with origin `o`:
/// it ends with that marker and holds no earlier one.
pub open spec fn ends_at_marker<D, S: View>(new: Seq<Message<D, S>>, o: S) -> bool {
    &&& new.len() > 0
    &&& new.last() matches Message::Marker(f) && f@ == o@
    &&& forall|i: int| 0 <= i < new.len() - 1 ==> !(#[trigger] new[i] matches Message::Marker(f) && f@ == o@)
}

/// Read `reader` until the signal with `origin` comes out (a flush when
/// `flush`, else a marker), collecting the data read on the way.
pub fn collect_until<Out, S: Origin, R: Reader<Out, S>>(
    reader: &mut R,
    origin: &S,
    flush: bool,
) -> (r: Result<Vec<Out>, Error>)
    ensures
        extends(final(reader).read_log(), old(reader).read_log()),
        r matches Ok(v) ==> {
            let new = added(final(reader).read_log(), old(reader).read_log());
            &&& (flush ==> ends_at_flush(new, *origin))
            &&& (!flush ==> ends_at_marker(new, *origin))
            &&& v@ == data_of(new.drop_last())
        },
{
    let mut datas: Vec<Out> = Vec::new();
    let mut rounds: u64 = 0;
    loop
        invariant
            extends(reader.read_log(), old(reader).read_log()),
            datas@ == data_of(added(reader.read_log(), old(reader).read_log())),
            flush ==> forall|i: int| 0 <= i < added(reader.read_log(), old(reader).read_log()).len()
                ==> !(#[trigger] added(reader.read_log(), old(reader).read_log())[i] matches Message::Flush(f) && f@ == origin@),
            !flush ==> forall|i: int| 0 <= i < added(reader.read_log(), old(reader).read_log()).len()
                ==> !(#[trigger] added(reader.read_log(), old(reader).read_log())[i] matches Message::Marker(f) && f@ == origin@),
        decreases ROUND_LIMIT - rounds,
    {
        if rounds == ROUND_LIMIT {
            return Err(Error::fatal("the signal never came back"));
        }
        rounds = rounds + 1;
        let ghost before = reader.read_log();
        let message = reader.read()?;
        proof {
            assert(added(reader.read_log(), old(reader).read_log()) =~= added(before, old(reader).read_log()).push(message));
            lemma_data_of_push(added(before, old(reader).read_log()), message);
        }
        match message {
            Message::Data(data) => datas.push(data),
            Message::Flush(f) => {
                if flush && f.same(origin) {
                    assert(added(reader.read_log(), old(reader).read_log()).drop_last() =~= added(before, old(reader).read_log()));
                    return Ok(datas);
                }
            },
            Message::Marker(f) => {
                if !flush && f.same(origin) {
                    assert(added(reader.read_log(), old(reader).read_log()).drop_last() =~= added(before, old(reader).read_log()));
                    return Ok(datas);
                }
            },
        }
    }
}

/// Push a signal with `origin` into `writer` (a flush when `flush`, else a
/// marker), then read `reader` until that signal comes back out, collecting
/// the data read on the way.
pub fn signal_and_collect<In, Out, S: Origin, W: Closeable<In, S>, R: Reader<Out, S>>(
    writer: &mut W,
    reader: &mut R,
    origin: S,
    flush: bool,
) -> (r: Result<Vec<Out>, Error>)
    ensures
        extends(final(reader).read_log(), old(reader).read_log()),
        r matches Ok(v) ==> {
            let new = added(final(reader).read_log(), old(reader).read_log());
            &&& (flush ==> ends_at_flush(new, origin))
            &&& (!flush ==> ends_at_marker(new, origin))
            &&& v@ == data_of(new.drop_last())
        },
        r is Ok ==> final(writer).sent().len() == old(writer).sent().len() + 1
            && (flush ==> is_flush_of(final(writer).sent().last(), origin))
            && (!flush ==> is_marker_of(final(writer).sent().last(), origin)),
{
    let signal = if flush { Message::Flush(origin.duplicate()) } else { Message::Marker(origin.duplicate()) };
    writer.push(signal)?;
    collect_until(reader, &origin, flush)
}

/// Combines the writer feeding a linear graph with the reader at its end.
pub struct LineIo<W, R> {
    pub writer: W,
    pub reader: R,
}

impl<W, R> LineIo<W, R> {
    /// Combine `writer` and `reader`.
    pub fn new(writer: W, reader: R) -> (io: Self)
        ensures
            io.writer == writer,
            io.reader == reader,
    {
        LineIo { writer, reader }
    }

    /// Read the next message from the end of the line.
    pub fn read<Out, S>(&mut self) -> (r: Result<Message<Out, S>, Error>)
        where R: Reader<Out, S>,
        ensures
            r matches Ok(m) ==> final(self).reader.read_log() == old(self).reader.read_log().push(m),
            r is Err ==> final(self).reader.read_log() == old(self).reader.read_log(),
            final(self).writer == old(self).writer,
    {
        self.reader.read()
    }

    /// Push a message into the line.
    pub fn push<In, S>(&mut self, object: Message<In, S>) -> (r: Result<(), Error>)
        where W: Pushable<In, S>,
        ensures
            r is Ok ==> final(self).writer.sent() == old(self).writer.sent().push(object),
            r is Err ==> final(self).writer.sent() == old(self).writer.sent(),
            final(self).reader == old(self).reader,
    {
        self.writer.push(object)
    }

    /// Close the writer: once the line has processed what was pushed before,
    /// readers see [`crate::ErrorKind::Closed`].
    pub fn close<In, S>(&mut self) -> (r: Result<(), Error>)
        where W: Closeable<In, S>,
        ensures
            final(self).writer.is_closed(),
            final(self).reader == old(self).reader,
    {
        self.writer.close()
    }

    /// Push a flush with `origin` and read until it arrives at the end of
    /// the line; returns the data read before it.
    pub fn flush<In, Out, S: Origin>(&mut self, origin: S) -> (r: Result<Vec<Out>, Error>)
        where W: Closeable<In, S>, R: Reader<Out, S>,
        ensures
            extends(final(self).reader.read_log(), old(self).reader.read_log()),
            r matches Ok(v) ==> {
                let new = added(final(self).reader.read_log(), old(self).reader.read_log());
                ends_at_flush(new, origin) && v@ == data_of(new.drop_last())
            },
            r is Ok ==> final(self).writer.sent().len() == old(self).writer.sent().len() + 1
                && is_flush_of(final(self).writer.sent().last(), origin),
    {
        signal_and_collect(&mut self.writer, &mut self.reader, origin, true)
    }

    /// Push a marker with `origin` and read until it arrives at the end of
    /// the line; returns the data read before it.
    pub fn mark<In, Out, S: Origin>(&mut self, origin: S) -> (r: Result<Vec<Out>, Error>)
        where W: Closeable<In, S>, R: Reader<Out, S>,
        ensures
            extends(final(self).reader.read_log(), old(self).reader.read_log()),
            r matches Ok(v) ==> {
                let new = added(final(self).reader.read_log(), old(self).reader.read_log());
                ends_at_marker(new, origin) && v@ == data_of(new.drop_last())
            },
            r is Ok ==> final(self).writer.sent().len() == old(self).writer.sent().len() + 1
                && is_marker_of(final(self).writer.sent().last(), origin),
    {
        signal_and_collect(&mut self.writer, &mut self.reader, origin, false)
    }
}

} // verus!
