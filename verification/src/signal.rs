//! Comparing the origins of signals.
use vstd::prelude::*;

verus! {

/// Values that can be compared against their view in executable code.
pub trait Comparable: View + Sized {
    fn same(&self, other: &Self) -> (r: bool)
        ensures
            r == (self@ == other@),
    ;
}

/// The origin of a signal: it identifies a [`crate::Message::Flush`] or
/// [`crate::Message::Marker`] while it travels through the graph.
pub trait Origin: Comparable + Clone {
    /// A copy with the same view.
    fn duplicate(&self) -> (r: Self)
        ensures
            r@ == self@,
    ;
}

impl Comparable for usize {
    fn same(&self, other: &Self) -> (r: bool) {
        *self == *other
    }
}

impl Comparable for u64 {
    fn same(&self, other: &Self) -> (r: bool) {
        *self == *other
    }
}

impl Comparable for u32 {
    fn same(&self, other: &Self) -> (r: bool) {
        *self == *other
    }
}

impl Comparable for i32 {
    fn same(&self, other: &Self) -> (r: bool) {
        *self == *other
    }
}

impl Comparable for i64 {
    fn same(&self, other: &Self) -> (r: bool) {
        *self == *other
    }
}

/// Compares two string slices by their characters, with `str`'s `==`.
#[verifier::external_body]
fn str_eq(a: &str, b: &str) -> (r: bool)
    ensures
        r == (a@ == b@),
{
    a == b
}

impl Comparable for &'static str {
    fn same(&self, other: &Self) -> (r: bool) {
        str_eq(*self, *other)
    }
}

impl Comparable for String {
    fn same(&self, other: &Self) -> (r: bool) {
        *self == *other
    }
}

impl Origin for usize {
    fn duplicate(&self) -> (r: Self) {
        *self
    }
}

impl Origin for u64 {
    fn duplicate(&self) -> (r: Self) {
        *self
    }
}

impl Origin for u32 {
    fn duplicate(&self) -> (r: Self) {
        *self
    }
}

impl Origin for i32 {
    fn duplicate(&self) -> (r: Self) {
        *self
    }
}

impl Origin for i64 {
    fn duplicate(&self) -> (r: Self) {
        *self
    }
}

impl Origin for &'static str {
    fn duplicate(&self) -> (r: Self) {
        *self
    }
}

impl Origin for String {
    fn duplicate(&self) -> (r: Self) {
        self.clone()
    }
}

} // verus!

verus! {

/// The origins of the signals a node has forwarded since it last emitted
/// data. A signal whose origin is already here is not forwarded again, so
/// a signal that reaches a node along several paths leaves it once.
pub struct Visitors<S> {
    pub seen: Vec<S>,
}

impl<S: Origin> Visitors<S> {
    /// No origin seen.
    pub fn new() -> (v: Self)
        ensures
            v.seen@.len() == 0,
    {
        Visitors { seen: Vec::new() }
    }

    /// Whether an origin with the same view as `origin` was seen.
    pub open spec fn has(&self, origin: S) -> bool {
        exists|i: int| 0 <= i < self.seen@.len() && (#[trigger] self.seen@[i])@ == origin@
    }

    /// Whether `origin` was seen.
    pub fn contains(&self, origin: &S) -> (r: bool)
        ensures
            r == self.has(*origin),
    {
        let n = self.seen.len();
        let mut i: usize = 0;
        while i < n
            invariant
                n == self.seen@.len(),
                i <= n,
                forall|j: int| 0 <= j < i ==> (#[trigger] self.seen@[j])@ != origin@,
            decreases n - i,
        {
            if self.seen[i].same(origin) {
                return true;
            }
            i = i + 1;
        }
        false
    }

    /// Remember `origin`.
    pub fn insert(&mut self, origin: S)
        ensures
            final(self).seen@ == old(self).seen@.push(origin),
            final(self).has(origin),
            forall|o: S| old(self).has(o) ==> final(self).has(o),
    {
        self.seen.push(origin);
        assert(self.seen@[self.seen@.len() - 1] == origin);
        assert forall|o: S| old(self).has(o) implies self.has(o) by {
            let i = choose|i: int| 0 <= i < old(self).seen@.len() && (#[trigger] old(self).seen@[i])@ == o@;
            assert(self.seen@[i] == old(self).seen@[i]);
        }
    }

    /// Forget every origin.
    pub fn clear(&mut self)
        ensures
            final(self).seen@.len() == 0,
            forall|o: S| !final(self).has(o),
    {
        self.seen.clear();
    }
}

} // verus!
