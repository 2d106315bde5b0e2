//! Type markers used to select one of several inputs or outputs.
use vstd::prelude::*;

verus! {

/// Marks the multiplicity of a routine's input or output.
pub trait Multiplicity {}

/// The single input or output of a routine that has only one.
pub struct Unary;

impl Multiplicity for Unary {}

} // verus!
