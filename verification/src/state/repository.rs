//! What the state repository answers.

use vstd::prelude::*;
use crate::state::operation::OperationRecord;
use crate::text::copy_of;

verus! {

/// What a failed commit left on disk.
#[derive(Clone, Copy, Debug, PartialEq, Eq, Structural)]
pub enum CommitFailureEffect {
    PreviousStateRetained,
    ReplacedDurabilityUnconfirmed,
}

/// Why the repository refused: a commit that failed, or anything else.
#[derive(Debug, PartialEq, Eq)]
pub enum StateRepositoryError {
    Commit { effect: CommitFailureEffect, message: String },
    Other { message: String },
}

impl StateRepositoryError {
    /// What the error says.
    pub open spec fn message(self) -> Seq<char> {
        match self {
            StateRepositoryError::Commit { message, .. } => message@,
            StateRepositoryError::Other { message } => message@,
        }
    }

    /// What the error says.
    pub fn to_text(&self) -> (text: String)
        ensures
            text@ == self.message(),
    {
        match self {
            StateRepositoryError::Commit { message, .. } => copy_of(message.as_str()),
            StateRepositoryError::Other { message } => copy_of(message.as_str()),
        }
    }
}

/// What the repository holds of an operation when a session ends.
#[derive(Debug, PartialEq, Eq)]
pub enum OperationOutcome {
    Absent,
    Retained(OperationRecord),
    Closed(OperationRecord),
}

} // verus!
