//! A request for the model to continue a conversation.

use vstd::prelude::*;

use crate::message::Message;
use crate::model::Model;

verus! {

/// The model to ask, and the conversation so far.
#[derive(Clone, Debug)]
pub struct CompletionRequest {
    messages: Vec<Message>,
    model: Model,
}

impl CompletionRequest {
    /// The conversation so far, oldest message first.
    pub closed spec fn conversation(&self) -> Seq<Message> {
        self.messages@
    }

    /// The model to ask.
    pub closed spec fn requested_model(&self) -> Model {
        self.model
    }

    /// A request to `model` to continue `messages`.
    pub fn new(model: Model, messages: Vec<Message>) -> (r: CompletionRequest)
        ensures
            r.conversation() == messages@,
            r.requested_model() == model,
    {
        CompletionRequest { messages, model }
    }

    /// The conversation so far.
    pub fn messages(&self) -> (r: &[Message])
        ensures
            r@ == self.conversation(),
    {
        self.messages.as_slice()
    }

    /// The model to ask.
    pub fn model(&self) -> (r: &Model)
        ensures
            *r == self.requested_model(),
    {
        &self.model
    }
}

} // verus!
