//! The ways an operation on a session can be refused.

use vstd::prelude::*;

verus! {

/// Why a session refused an operation. A refused operation leaves the
/// session as it was.
#[derive(Copy, Clone, PartialEq, Eq, Structural, Debug)]
pub enum ChatError {
    /// A submission was asked for while no user turn held input focus.
    NoFocusedMessage,
    /// No user turn carries the identifier.
    UserMessageNotFound,
    /// The user turn, or the codebase context on it, does not exist.
    CodebaseContextNotFound,
    /// The result belongs to a run that is no longer in flight.
    StaleCompletion,
    /// The run still waits for its context and cannot stream yet.
    ContextPending,
}

impl ChatError {
    /// The text that describes this refusal.
    pub open spec fn description(self) -> Seq<char> {
        match self {
            ChatError::NoFocusedMessage => "unexpected state: no user message is focused"@,
            ChatError::UserMessageNotFound => "user message not found"@,
            ChatError::CodebaseContextNotFound => "codebase context not found"@,
            ChatError::StaleCompletion => "the completion is no longer pending"@,
            ChatError::ContextPending => "the context of the completion is still pending"@,
        }
    }

    /// A line for a diagnostic log.
    pub fn message(&self) -> (text: &'static str)
        ensures
            text@ == self.description(),
    {
        match self {
            ChatError::NoFocusedMessage => "unexpected state: no user message is focused",
            ChatError::UserMessageNotFound => "user message not found",
            ChatError::CodebaseContextNotFound => "codebase context not found",
            ChatError::StaleCompletion => "the completion is no longer pending",
            ChatError::ContextPending => "the context of the completion is still pending",
        }
    }
}

} // verus!
