//! What the store answers when it refuses an operation.

use vstd::prelude::*;
use vstd::string::*;

verus! {

/// Why the store refused an operation. A refused operation changes nothing.
#[derive(Debug, Clone, Copy, PartialEq, Eq, Structural)]
pub enum TaskError {
    /// No job in the store has the identifier that was given.
    NotFound,
    /// The identifier drawn for a new job has been handed out before.
    IdInUse,
    /// The job was asked to start but is not waiting in the queue.
    NotQueued,
    /// The job was asked to finish but is not being processed.
    NotProcessing,
}

impl TaskError {
    /// The text of the error, as callers of the command surface see it.
    pub open spec fn spec_message(self) -> Seq<char> {
        match self {
            TaskError::NotFound => "Task not found"@,
            TaskError::IdInUse => "Task id already in use"@,
            TaskError::NotQueued => "Task is not queued"@,
            TaskError::NotProcessing => "Task is not being processed"@,
        }
    }

    /// The text of the error.
    pub fn message(self) -> (text: String)
        ensures
            text@ == self.spec_message(),
    {
        match self {
            TaskError::NotFound => String::from_str("Task not found"),
            TaskError::IdInUse => String::from_str("Task id already in use"),
            TaskError::NotQueued => String::from_str("Task is not queued"),
            TaskError::NotProcessing => String::from_str("Task is not being processed"),
        }
    }
}

} // verus!
