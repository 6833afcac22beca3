//! The progress states a batch run goes through, one per file step. The
//! library only defines the vocabulary; printing it is a caller's concern.

use vstd::prelude::*;

verus! {

/// One step of a batch run over input files.
pub enum Status {
    /// A file failed to transpile or to be written out.
    Error,
    /// The whole batch finished.
    Finished,
    /// One file was transpiled successfully.
    Transpiled,
    /// Work on one file is starting.
    Transpiling,
}

impl Status {
    /// The label a reporter would print for this state.
    pub fn label(&self) -> (r: &'static str)
        ensures
            r@ == match self {
                Status::Error => "Error"@,
                Status::Finished => "Finished"@,
                Status::Transpiled => "Transpiled"@,
                Status::Transpiling => "Transpiling"@,
            },
    {
        match self {
            Status::Error => "Error",
            Status::Finished => "Finished",
            Status::Transpiled => "Transpiled",
            Status::Transpiling => "Transpiling",
        }
    }
}

} // verus!
