//! Wiring nodes together.
use crate::error::Error;
use crate::graph::{OutputSide, ParentSide, Closeable, InputSide, Workable};
use crate::marker::{Multiplicity, Unary};
use vstd::prelude::*;

verus! {

/// Connect `parent` to input `K` of `child` both ways: the parent pushes
/// its output into the child's input edge, and the child owns the parent
/// and works it when it needs input.
pub fn make_bidi<D: 'static, S: 'static, K: Multiplicity, P: Workable + OutputSide<D, S> + 'static, C: InputSide<D, S, K> + ParentSide<K>>(
    parent: Box<P>,
    child: &mut C,
) -> (r: Result<(), Error>)
    ensures
        r is Ok ==> final(child).parent_count() == old(child).parent_count() + 1,
        r is Err ==> final(child).parent_count() == old(child).parent_count(),
        parent.takes_every_output() && old(child).takes_every_parent() ==> r is Ok,
{
    let mut parent = parent;
    let sender = child.input_sender();
    parent.add_output(Box::new(sender))?;
    child.add_workable(parent)
}

/// Connect `parent` to input `K` of `child` by pushing only: the parent
/// pushes its output into the child's input edge but is worked by whoever
/// owns it.
pub fn make_push<D: 'static, S: 'static, K: Multiplicity, P: OutputSide<D, S>, C: InputSide<D, S, K>>(
    parent: &mut P,
    child: &C,
) -> (r: Result<(), Error>)
    ensures
        r is Ok ==> final(parent).output_count() == old(parent).output_count() + 1,
        r is Err ==> final(parent).output_count() == old(parent).output_count(),
        old(parent).takes_every_output() ==> r is Ok,
{
    let sender = child.input_sender();
    parent.add_output(Box::new(sender))
}

/// Type hints for wiring nodes that carry `D` with signal type `S`.
pub struct Connect<D, S> {
    pub data: core::marker::PhantomData<(D, S)>,
}

impl<D: 'static, S: 'static> Connect<D, S> {
    /// The same as [`make_bidi`], into the single input of `child`.
    pub fn bidi<P: Workable + OutputSide<D, S> + 'static, C: InputSide<D, S, Unary> + ParentSide<Unary>>(
        parent: Box<P>,
        child: &mut C,
    ) -> (r: Result<(), Error>)
        ensures
            r is Ok ==> final(child).parent_count() == old(child).parent_count() + 1,
            r is Err ==> final(child).parent_count() == old(child).parent_count(),
            parent.takes_every_output() && old(child).takes_every_parent() ==> r is Ok,
    {
        make_bidi::<D, S, Unary, P, C>(parent, child)
    }
}

} // verus!
