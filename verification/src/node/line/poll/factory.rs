//! Creating polled line routines where they run.
use vstd::prelude::*;

verus! {

/// Which phases of a polled line node have been woken since the scheduler
/// last looked.
#[derive(Debug, Clone, Copy, PartialEq, Eq, Structural)]
pub struct LineWakers {
    pub input: bool,
    pub work: bool,
    pub output: bool,
}

impl LineWakers {
    /// No phase woken.
    pub fn new() -> (w: Self)
        ensures
            !w.input && !w.work && !w.output,
    {
        LineWakers { input: false, work: false, output: false }
    }

    /// Forget every wake.
    pub fn reset(&mut self)
        ensures
            !final(self).input && !final(self).work && !final(self).output,
    {
        self.input = false;
        self.work = false;
        self.output = false;
    }
}

/// Creates a routine once the node is placed on the thread that runs it.
pub trait LineRoutineFactory {
    type Routine;

    fn create(self, wakers: LineWakers) -> Self::Routine;
}

} // verus!
