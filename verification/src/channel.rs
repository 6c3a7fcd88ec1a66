//! An unbounded queue of events (`tokio::sync::mpsc`) that any number of
//! senders feed and the session drains.

use vstd::prelude::*;

use tokio::sync::mpsc::{self, UnboundedReceiver, UnboundedSender};

verus! {

#[verifier::external_type_specification]
#[verifier::external_body]
#[verifier::reject_recursive_types(T)]
pub struct ExUnboundedSender<T>(UnboundedSender<T>);

#[verifier::external_type_specification]
#[verifier::external_body]
#[verifier::reject_recursive_types(T)]
pub struct ExUnboundedReceiver<T>(UnboundedReceiver<T>);

/// A new unbounded channel (`mpsc::unbounded_channel`): its sending and its
/// receiving half.
#[verifier::external_body]
fn unbounded_channel<T>() -> (UnboundedSender<T>, UnboundedReceiver<T>) {
    mpsc::unbounded_channel()
}

/// Another sender into the same channel (`UnboundedSender::clone`).
#[verifier::external_body]
fn clone_sender<T>(sender: &UnboundedSender<T>) -> UnboundedSender<T> {
    sender.clone()
}

/// The next value waiting in the channel, if one is waiting now
/// (`UnboundedReceiver::try_recv`, its error taken as none).  What is waiting
/// depends on what the senders have sent from elsewhere, so nothing is
/// claimed of the result.
#[verifier::external_body]
fn receive_waiting<T>(receiver: &mut UnboundedReceiver<T>) -> Option<T> {
    receiver.try_recv().ok()
}

/// A channel and its own sender, from which more senders are handed out.
#[derive(Debug)]
#[verifier::reject_recursive_types(T)]
pub struct Channel<T> {
    receiver: UnboundedReceiver<T>,
    sender: UnboundedSender<T>,
}

impl<T> Channel<T> {
    /// A new, empty channel.
    pub fn new() -> Channel<T> {
        let (sender, receiver) = unbounded_channel();
        Channel { receiver, sender }
    }

    /// A sender into this channel.
    pub fn sender(&self) -> UnboundedSender<T> {
        clone_sender(&self.sender)
    }

    /// The next value waiting in the channel, if one is waiting now.
    pub fn try_recv(&mut self) -> Option<T> {
        receive_waiting(&mut self.receiver)
    }
}

} // verus!
