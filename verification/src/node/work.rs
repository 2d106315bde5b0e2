//! Scheduling a node's parents.
use crate::error::{is_closed_err, Error, ErrorKind};
use crate::graph::Workable;
use vstd::prelude::*;

verus! {

/// Replacing the element at `i` by the last one and dropping the last
/// leaves one element fewer, whatever the element type.
pub proof fn lemma_swap_remove_len<A>(s: Seq<A>, i: int)
    requires
        0 <= i < s.len(),
    ensures
        s.update(i, s.last()).drop_last().len() == s.len() - 1,
{
}

/// Work each of `workables` once and drop those that report `Closed`; a
/// dropped one's place is taken by the last. Any other error stops the
/// round and is returned.
pub fn work_each(workables: &mut Vec<Box<dyn Workable>>) -> (r: Result<(), Error>)
    ensures
        final(workables)@.len() <= old(workables)@.len(),
        !is_closed_err(r),
        old(workables)@.len() == 0 ==> r is Ok && final(workables)@.len() == 0,
{
    let mut i: usize = 0;
    while i < workables.len()
        invariant
            i <= workables@.len() <= old(workables)@.len(),
        decreases workables@.len() - i,
    {
        match workables[i].work() {
            Ok(()) => {
                i = i + 1;
            },
            Err(e) => {
                if e.kind == ErrorKind::Closed {
                    proof {
                        lemma_swap_remove_len(workables@, i as int);
                    }
                    workables.swap_remove(i);
                } else {
                    return Err(e);
                }
            },
        }
    }
    Ok(())
}

} // verus!
