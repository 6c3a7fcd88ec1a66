//! Messages of a conversation.

use vstd::prelude::*;

use crate::tool::{ToolInvocation, ToolResult};

verus! {

/// A piece of a message from the model.
#[derive(Clone, Debug, Eq, PartialEq)]
pub enum AgentMessageContent {
    Reasoning(String),
    Text(String),
    ToolCall(ToolInvocation),
}

/// A piece of a message from the user.
#[derive(Clone, Debug, Eq, PartialEq)]
pub enum UserMessageContent {
    Text(String),
    ToolResult { id: String, result: ToolResult },
}

/// A message of the conversation.
#[derive(Clone, Debug, Eq, PartialEq)]
pub enum Message {
    Agent(Vec<AgentMessageContent>),
    User(Vec<UserMessageContent>),
}

/// The text of a piece of a model's message, if it is text.
pub open spec fn agent_text(c: AgentMessageContent) -> Option<Seq<char>> {
    match c {
        AgentMessageContent::Text(t) => Some(t@),
        _ => None,
    }
}

/// The text of a piece of a user's message, if it is text.
pub open spec fn user_text(c: UserMessageContent) -> Option<Seq<char>> {
    match c {
        UserMessageContent::Text(t) => Some(t@),
        _ => None,
    }
}

/// The first text among the pieces of a model's message.
pub open spec fn first_agent_text(c: Seq<AgentMessageContent>) -> Option<Seq<char>>
    decreases c.len(),
{
    if c.len() == 0 {
        None
    } else if agent_text(c[0]) is Some {
        agent_text(c[0])
    } else {
        first_agent_text(c.drop_first())
    }
}

/// The first text among the pieces of a user's message.
pub open spec fn first_user_text(c: Seq<UserMessageContent>) -> Option<Seq<char>>
    decreases c.len(),
{
    if c.len() == 0 {
        None
    } else if user_text(c[0]) is Some {
        user_text(c[0])
    } else {
        first_user_text(c.drop_first())
    }
}

/// An optional string slice's characters.
pub open spec fn opt_str(s: Option<&str>) -> Option<Seq<char>> {
    match s {
        Option::Some(s) => Some(s@),
        Option::None => None,
    }
}

impl AgentMessageContent {
    /// The text, if this piece is text.
    pub fn text(&self) -> (r: Option<&str>)
        ensures
            opt_str(r) == agent_text(*self),
    {
        match self {
            AgentMessageContent::Text(t) => Some(t.as_str()),
            _ => None,
        }
    }
}

impl UserMessageContent {
    /// The text, if this piece is text.
    pub fn text(&self) -> (r: Option<&str>)
        ensures
            opt_str(r) == user_text(*self),
    {
        match self {
            UserMessageContent::Text(t) => Some(t.as_str()),
            _ => None,
        }
    }
}

fn first_agent(c: &Vec<AgentMessageContent>) -> (r: Option<&str>)
    ensures
        opt_str(r) == first_agent_text(c@),
{
    let n = c.len();
    let mut i: usize = 0;
    assert(c@.skip(0) =~= c@);
    while i < n
        invariant
            n == c@.len(),
            i <= n,
            first_agent_text(c@) == first_agent_text(c@.skip(i as int)),
        decreases n - i,
    {
        assert(c@.skip(i as int).drop_first() =~= c@.skip(i + 1));
        assert(c@.skip(i as int)[0] == c@[i as int]);
        let t = c[i].text();
        if t.is_some() {
            return t;
        }
        i = i + 1;
    }
    assert(c@.skip(n as int).len() == 0);
    None
}

fn first_user(c: &Vec<UserMessageContent>) -> (r: Option<&str>)
    ensures
        opt_str(r) == first_user_text(c@),
{
    let n = c.len();
    let mut i: usize = 0;
    assert(c@.skip(0) =~= c@);
    while i < n
        invariant
            n == c@.len(),
            i <= n,
            first_user_text(c@) == first_user_text(c@.skip(i as int)),
        decreases n - i,
    {
        assert(c@.skip(i as int).drop_first() =~= c@.skip(i + 1));
        assert(c@.skip(i as int)[0] == c@[i as int]);
        let t = c[i].text();
        if t.is_some() {
            return t;
        }
        i = i + 1;
    }
    assert(c@.skip(n as int).len() == 0);
    None
}

impl Message {
    /// The first text of the message, whoever sent it.
    pub fn content(&self) -> (r: Option<&str>)
        ensures
            opt_str(r) == match *self {
                Message::Agent(c) => first_agent_text(c@),
                Message::User(c) => first_user_text(c@),
            },
    {
        match self {
            Message::Agent(c) => first_agent(c),
            Message::User(c) => first_user(c),
        }
    }

    /// The first text of the message if the user sent it.
    pub fn user_content(&self) -> (r: Option<&str>)
        ensures
            opt_str(r) == match *self {
                Message::Agent(_) => None,
                Message::User(c) => first_user_text(c@),
            },
    {
        match self {
            Message::Agent(_) => None,
            Message::User(c) => first_user(c),
        }
    }
}

} // verus!
