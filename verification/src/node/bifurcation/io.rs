//! [`BifurcationIo`]: the input and both outputs of a bifurcation in one place.
use crate::error::Error;
use crate::graph::{Closeable, Pushable, Reader, Workable, ROUND_LIMIT};
use crate::message::{added, data_of, extends, lemma_data_of_push, Message, is_marker_of};
use crate::node::line::io::ends_at_marker;
use crate::signal::Origin;
use vstd::prelude::*;

verus! {

/// Poll `reader`, working `workable` whenever nothing is waiting, until the
/// marker with `origin` arrives; returns the data read before it.
pub fn collect_marker_polling<Out, S: Origin, R: Reader<Out, S>>(
    reader: &mut R,
    workable: &mut Box<dyn Workable>,
    origin: &S,
) -> (r: Result<Vec<Out>, Error>)
    ensures
        extends(final(reader).read_log(), old(reader).read_log()),
        r matches Ok(v) ==> {
            let new = added(final(reader).read_log(), old(reader).read_log());
            ends_at_marker(new, *origin) && v@ == data_of(new.drop_last())
        },
{
    let mut datas: Vec<Out> = Vec::new();
    let mut rounds: u64 = 0;
    loop
        invariant
            extends(reader.read_log(), old(reader).read_log()),
            datas@ == data_of(added(reader.read_log(), old(reader).read_log())),
            forall|i: int| 0 <= i < added(reader.read_log(), old(reader).read_log()).len()
                ==> !(#[trigger] added(reader.read_log(), old(reader).read_log())[i] matches Message::Marker(f) && f@ == origin@),
        decreases ROUND_LIMIT - rounds,
    {
        if rounds == ROUND_LIMIT {
            return Err(Error::fatal("the marker never came back"));
        }
        rounds = rounds + 1;
        let ghost before = reader.read_log();
        match reader.poll()? {
            Some(message) => {
                proof {
                    assert(added(reader.read_log(), old(reader).read_log()) =~= added(before, old(reader).read_log()).push(message));
                    lemma_data_of_push(added(before, old(reader).read_log()), message);
                }
                match message {
                    Message::Data(data) => datas.push(data),
                    Message::Flush(_) => {},
                    Message::Marker(f) => {
                        if f.same(origin) {
                            assert(added(reader.read_log(), old(reader).read_log()).drop_last() =~= added(before, old(reader).read_log()));
                            return Ok(datas);
                        }
                    },
                }
            },
            None => workable.work()?,
        }
    }
}

/// Poll `reader`; when nothing is waiting work `workable` once and poll again.
pub fn read_polling<Out, S, R: Reader<Out, S>>(reader: &mut R, workable: &mut Box<dyn Workable>) -> (r: Result<Message<Out, S>, Error>)
    ensures
        r matches Ok(m) ==> final(reader).read_log() == old(reader).read_log().push(m),
        r is Err ==> final(reader).read_log() == old(reader).read_log(),
{
    if let Some(message) = reader.poll()? {
        return Ok(message);
    }
    workable.work()?;
    match reader.poll()? {
        Some(message) => Ok(message),
        None => Err(Error::fatal("work did not yield a new message")),
    }
}

/// The writer feeding a bifurcation, readers on both its outputs, and the
/// node itself, which is worked whenever a reader finds nothing waiting.
pub struct BifurcationIo<W, LR, RR> {
    pub input: W,
    pub left: LR,
    pub right: RR,
    pub workable: Box<dyn Workable>,
}

impl<W, LR, RR> BifurcationIo<W, LR, RR> {
    /// Combine the writer, the two readers and the node.
    pub fn new(input: W, left: LR, right: RR, workable: Box<dyn Workable>) -> (io: Self)
        ensures
            io.input == input,
            io.left == left,
            io.right == right,
    {
        BifurcationIo { input, left, right, workable }
    }

    /// The next message on the left output.
    pub fn left_read<L, S>(&mut self) -> (r: Result<Message<L, S>, Error>)
        where LR: Reader<L, S>,
        ensures
            r matches Ok(m) ==> final(self).left.read_log() == old(self).left.read_log().push(m),
            r is Err ==> final(self).left.read_log() == old(self).left.read_log(),
    {
        read_polling(&mut self.left, &mut self.workable)
    }

    /// The next message on the right output.
    pub fn right_read<R, S>(&mut self) -> (r: Result<Message<R, S>, Error>)
        where RR: Reader<R, S>,
        ensures
            r matches Ok(m) ==> final(self).right.read_log() == old(self).right.read_log().push(m),
            r is Err ==> final(self).right.read_log() == old(self).right.read_log(),
    {
        read_polling(&mut self.right, &mut self.workable)
    }

    /// Push a message into the input.
    pub fn push<In, S>(&mut self, object: Message<In, S>) -> (r: Result<(), Error>)
        where W: Pushable<In, S>,
        ensures
            r is Ok ==> final(self).input.sent() == old(self).input.sent().push(object),
            r is Err ==> final(self).input.sent() == old(self).input.sent(),
    {
        self.input.push(object)
    }

    /// Close the input writer.
    pub fn close<In, S>(&mut self) -> (r: Result<(), Error>)
        where W: Closeable<In, S>,
        ensures
            final(self).input.is_closed(),
    {
        self.input.close()
    }

    /// Push a marker with `origin` and read the left output until it
    /// arrives; returns the data read before it.
    pub fn left_mark<In, L, S: Origin>(&mut self, origin: S) -> (r: Result<Vec<L>, Error>)
        where W: Pushable<In, S>, LR: Reader<L, S>,
        ensures
            r is Ok ==> final(self).input.sent().len() == old(self).input.sent().len() + 1
                && is_marker_of(final(self).input.sent().last(), origin),
            extends(final(self).left.read_log(), old(self).left.read_log()),
            r matches Ok(v) ==> {
                let new = added(final(self).left.read_log(), old(self).left.read_log());
                ends_at_marker(new, origin) && v@ == data_of(new.drop_last())
            },
    {
        self.input.push(Message::Marker(origin.duplicate()))?;
        collect_marker_polling(&mut self.left, &mut self.workable, &origin)
    }

    /// Push a marker with `origin` and read the right output until it
    /// arrives; returns the data read before it.
    pub fn right_mark<In, R, S: Origin>(&mut self, origin: S) -> (r: Result<Vec<R>, Error>)
        where W: Pushable<In, S>, RR: Reader<R, S>,
        ensures
            r is Ok ==> final(self).input.sent().len() == old(self).input.sent().len() + 1
                && is_marker_of(final(self).input.sent().last(), origin),
            extends(final(self).right.read_log(), old(self).right.read_log()),
            r matches Ok(v) ==> {
                let new = added(final(self).right.read_log(), old(self).right.read_log());
                ends_at_marker(new, origin) && v@ == data_of(new.drop_last())
            },
    {
        self.input.push(Message::Marker(origin.duplicate()))?;
        collect_marker_polling(&mut self.right, &mut self.workable, &origin)
    }
}

} // verus!
