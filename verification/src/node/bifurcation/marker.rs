//! The two outputs of a bifurcation.
use crate::marker::Multiplicity;
use vstd::prelude::*;

verus! {

/// The left output.
pub struct Left {}

/// The right output.
pub struct Right {}

impl Multiplicity for Left {}

impl Multiplicity for Right {}

} // verus!
