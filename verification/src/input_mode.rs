//! Whether keys go to the composer or answer an approval request.

use vstd::prelude::*;

use crate::approval_request::{ApprovalRequest, ToolApproval};

verus! {

/// What keys are for.
#[derive(Debug)]
pub enum InputMode {
    /// Answering a request to run a tool.
    Approval(ApprovalRequest),
    /// Typing into the composer.
    Compose,
}

impl Default for InputMode {
    /// Typing into the composer.
    fn default() -> (r: InputMode)
        ensures
            r is Compose,
    {
        InputMode::Compose
    }
}

impl InputMode {
    /// The request being answered, if any.
    pub fn approval(&self) -> (r: Option<&ApprovalRequest>)
        ensures
            match *self {
                InputMode::Approval(request) => r == Some(&request),
                InputMode::Compose => r is None,
            },
    {
        match self {
            InputMode::Approval(request) => Some(request),
            InputMode::Compose => None,
        }
    }

    /// Drops the request being answered, if any, unanswered.
    pub fn clear_approval(&mut self)
        ensures
            *final(self) is Compose,
    {
        *self = InputMode::Compose;
    }

    /// Answers the request being answered, if any, and goes back to
    /// typing.  Gives back the answer handed to the request, and nothing when
    /// there was none.
    pub fn resolve_approval(&mut self, approval: ToolApproval) -> (sent: Option<ToolApproval>)
        ensures
            *final(self) is Compose,
            sent == (if *old(self) is Approval {
                Option::Some(approval)
            } else {
                Option::None
            }),
    {
        let mut mode = InputMode::Compose;
        std::mem::swap(&mut mode, self);
        match mode {
            InputMode::Approval(request) => match request.respond(approval) {
                Ok(()) => Some(approval),
                Err(returned) => Some(returned),
            },
            InputMode::Compose => None,
        }
    }
}

} // verus!
