//! Reading a pulled chain up to a chosen message.
use crate::error::Error;
use crate::graph::{Pullable, ROUND_LIMIT};
use crate::message::{alike, Message};
use crate::signal::Comparable;
use vstd::prelude::*;

verus! {

/// Pull `pullable` until a message alike `condition` arrives; returns the
/// messages pulled before it, in order.
pub fn read_until<D: Comparable, S: Comparable, P: Pullable<DataType = D, SignalType = S>>(
    pullable: &mut P,
    condition: Message<D, S>,
) -> (r: Result<Vec<Message<D, S>>, Error>)
    ensures
        r matches Ok(v) ==> {
            &&& forall|i: int| 0 <= i < v@.len() ==> !alike(#[trigger] v@[i], condition)
            &&& old(pullable).keeps_record() ==> {
                &&& final(pullable).yielded().len() == old(pullable).yielded().len() + v@.len() + 1
                &&& final(pullable).yielded() =~= old(pullable).yielded() + v@ + seq![final(pullable).yielded().last()]
                &&& alike(final(pullable).yielded().last(), condition)
            }
        },
{
    let mut a: Vec<Message<D, S>> = Vec::new();
    let mut rounds: u64 = 0;
    loop
        invariant
            old(pullable).keeps_record() ==> pullable.keeps_record() && pullable.yielded() =~= old(pullable).yielded() + a@,
            forall|i: int| 0 <= i < a@.len() ==> !alike(#[trigger] a@[i], condition),
        decreases ROUND_LIMIT - rounds,
    {
        if rounds == ROUND_LIMIT {
            return Err(Error::fatal("condition never arrived"));
        }
        rounds = rounds + 1;
        let message = pullable.pull()?;
        if message.same(&condition) {
            return Ok(a);
        }
        a.push(message);
    }
}

} // verus!
