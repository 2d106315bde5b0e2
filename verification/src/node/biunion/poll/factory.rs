//! Creating polled biunion routines where they run.
use vstd::prelude::*;

verus! {

/// Which input phases have been woken.
#[derive(Debug, Clone, Copy, PartialEq, Eq, Structural)]
pub struct BiunionInputs {
    pub left: bool,
    pub right: bool,
}

/// Which phases of a polled biunion node have been woken.
#[derive(Debug, Clone, Copy, PartialEq, Eq, Structural)]
pub struct BiunionWakers {
    pub input: BiunionInputs,
    pub work: bool,
    pub output: bool,
}

impl BiunionWakers {
    /// No phase woken.
    pub fn new() -> (w: Self)
        ensures
            !w.input.left && !w.input.right && !w.work && !w.output,
    {
        BiunionWakers { input: BiunionInputs { left: false, right: false }, work: false, output: false }
    }
}

/// Creates a routine once the node is placed on the thread that runs it.
pub trait BiunionRoutineFactory {
    type Routine;

    fn create(self, wakers: BiunionWakers) -> Self::Routine;
}

} // verus!
