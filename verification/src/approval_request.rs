//! A request to approve a tool call, and the answer it waits for.

use vstd::prelude::*;

use tokio::sync::oneshot;

use crate::tool::ToolInvocation;

verus! {

#[verifier::external_type_specification]
#[verifier::external_body]
#[verifier::reject_recursive_types(T)]
pub struct ExOneshotSender<T>(oneshot::Sender<T>);

#[verifier::external_type_specification]
#[verifier::external_body]
#[verifier::reject_recursive_types(T)]
pub struct ExOneshotReceiver<T>(oneshot::Receiver<T>);

#[verifier::external_type_specification]
#[verifier::external_body]
pub struct ExOneshotRecvError(oneshot::error::RecvError);

/// Whether a tool call may run.
#[derive(Clone, Copy, Debug, Eq, PartialEq, Structural)]
pub enum ToolApproval {
    Approved,
    Denied,
}

/// Hands the answer to the channel (`oneshot::Sender::send`): `Ok` when it
/// is left for the receiver, and the same answer back in `Err` when the
/// receiver is gone.  Which of the two happens depends on the other end, and
/// is left open.
#[verifier::external_body]
fn send_approval(sender: oneshot::Sender<ToolApproval>, approval: ToolApproval) -> (r: Result<
    (),
    ToolApproval,
>)
    ensures
        r is Err ==> r->Err_0 == approval,
{
    sender.send(approval)
}

/// A new one-shot channel for an answer (`oneshot::channel`): its sending
/// and its receiving half.
#[verifier::external_body]
fn approval_channel() -> (oneshot::Sender<ToolApproval>, oneshot::Receiver<ToolApproval>) {
    oneshot::channel()
}

/// A tool call waiting for the user's answer.
#[derive(Debug)]
pub struct ApprovalRequest {
    invocation: ToolInvocation,
    response_sender: oneshot::Sender<ToolApproval>,
}

impl ApprovalRequest {
    /// The call waiting for an answer.
    pub closed spec fn requested(&self) -> ToolInvocation {
        self.invocation
    }

    /// A request for the given call, and the receiver its answer goes to.
    pub fn new(invocation: ToolInvocation) -> (r: (ApprovalRequest, oneshot::Receiver<ToolApproval>))
        ensures
            r.0.requested() == invocation,
    {
        let (response_sender, response_receiver) = approval_channel();
        (ApprovalRequest { invocation, response_sender }, response_receiver)
    }

    /// The call waiting for an answer.
    pub fn invocation(&self) -> (r: &ToolInvocation)
        ensures
            *r == self.requested(),
    {
        &self.invocation
    }

    /// Answers the request with `approval`: `Ok` when the answer is left for
    /// the waiting side, and the answer back when nobody waits any more.
    pub fn respond(self, approval: ToolApproval) -> (r: Result<(), ToolApproval>)
        ensures
            r is Err ==> r->Err_0 == approval,
    {
        send_approval(self.response_sender, approval)
    }
}

} // verus!
