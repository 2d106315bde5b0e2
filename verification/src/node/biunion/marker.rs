//! The two inputs of a biunion.
use crate::marker::Multiplicity;
use vstd::prelude::*;

verus! {

/// The left input.
pub struct Left;

/// The right input.
pub struct Right;

impl Multiplicity for Left {}

impl Multiplicity for Right {}

/// A side of a biunion: [`Left`] or [`Right`].
pub trait Side: Multiplicity {
    /// Whether this is the left side.
    spec fn left() -> bool;

    fn is_left() -> (r: bool)
        ensures
            r == Self::left(),
    ;
}

impl Side for Left {
    open spec fn left() -> bool {
        true
    }

    fn is_left() -> (r: bool) {
        true
    }
}

impl Side for Right {
    open spec fn left() -> bool {
        false
    }

    fn is_left() -> (r: bool) {
        false
    }
}

} // verus!
