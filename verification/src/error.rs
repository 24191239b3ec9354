//! The failures that a transition can report.

use vstd::prelude::*;

verus! {

/// Why a transition was refused. A refused transition changes nothing.
#[derive(Clone, Copy, Debug, PartialEq, Eq, Structural)]
pub enum ErrorCode {
    /// The registry already lists at least one company.
    AlreadyInitialized,
    /// The registry or the company record has no room for what was asked.
    StorageExhausted,
}

impl ErrorCode {
    /// The text shown to a caller for this failure.
    pub open spec fn message_text(self) -> Seq<char> {
        match self {
            ErrorCode::AlreadyInitialized => "The registry has already been initialized."@,
            ErrorCode::StorageExhausted => "The account has no space left for this registration."@,
        }
    }

    /// The text shown to a caller for this failure.
    pub fn message(&self) -> (text: &'static str)
        ensures
            text@ == self.message_text(),
    {
        match self {
            ErrorCode::AlreadyInitialized => "The registry has already been initialized.",
            ErrorCode::StorageExhausted => "The account has no space left for this registration.",
        }
    }
}

} // verus!
