//! The lifecycle states of a job.

use vstd::prelude::*;

verus! {

/// Where a job stands in its lifecycle.
#[derive(Debug, Clone, Copy, PartialEq, Eq, Structural)]
pub enum TaskStatus {
    Queued,
    Processing,
    Completed,
    Failed,
}

impl TaskStatus {
    /// A terminal state is one that no transition leaves.
    pub open spec fn spec_is_terminal(self) -> bool {
        self == TaskStatus::Completed || self == TaskStatus::Failed
    }

    /// Whether no transition leaves this state.
    #[verifier::when_used_as_spec(spec_is_terminal)]
    pub fn is_terminal(self) -> (terminal: bool)
        ensures
            terminal == self.spec_is_terminal(),
    {
        match self {
            TaskStatus::Completed | TaskStatus::Failed => true,
            TaskStatus::Queued | TaskStatus::Processing => false,
        }
    }
}

} // verus!
