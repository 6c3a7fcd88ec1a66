//! The transcript of a session, and the state of a model run in progress.

use vstd::prelude::*;

use std::time::Duration;

use crate::message::{AgentMessageContent, Message};
use crate::text::{append_str, copy_str};

verus! {

/// An entry of the transcript.
#[derive(Clone, Debug, Eq, PartialEq)]
pub enum TranscriptEntry {
    Error(String),
    Interrupted,
    Message(Message),
    Notice(String),
}

impl TranscriptEntry {
    /// The message, if the entry is one.
    pub fn message(&self) -> (r: Option<&Message>)
        ensures
            match *self {
                TranscriptEntry::Message(m) => r == Some(&m),
                _ => r is None,
            },
    {
        match self {
            TranscriptEntry::Message(m) => Some(m),
            _ => None,
        }
    }
}

/// The entries of a session, oldest first.
#[derive(Clone, Debug, Eq, PartialEq)]
pub struct Transcript {
    pub entries: Vec<TranscriptEntry>,
}

impl Transcript {
    /// A transcript of the given entries.
    pub fn with_entries(entries: Vec<TranscriptEntry>) -> (r: Transcript)
        ensures
            r.entries@ == entries@,
    {
        Transcript { entries }
    }
}

impl Default for Transcript {
    /// An empty transcript.
    fn default() -> (r: Transcript)
        ensures
            r.entries@.len() == 0,
    {
        Transcript { entries: Vec::new() }
    }
}

/// What the model is doing in a run.
#[derive(Debug, Eq, PartialEq)]
pub enum AgentActivity {
    Reasoning(String),
    Streaming(String),
    Waiting,
}

impl Default for AgentActivity {
    /// Waiting for the model.
    fn default() -> (r: AgentActivity)
        ensures
            r is Waiting,
    {
        AgentActivity::Waiting
    }
}

/// A run of the model in progress: what it has said so far, what it is doing
/// now, how long it has run, and the spinner's frame.
#[derive(Debug)]
pub struct Run {
    pub activity: AgentActivity,
    pub content: Vec<AgentMessageContent>,
    pub elapsed: Duration,
    pub frame: usize,
    pub id: u64,
}

impl Run {
    /// A run that is waiting for the model.
    pub fn new(id: u64) -> (r: Run)
        ensures
            r.activity is Waiting,
            r.content@.len() == 0,
            r.frame == 0,
            r.id == id,
            crate::duration_ext::whole_seconds(r.elapsed) == 0,
    {
        Run {
            activity: AgentActivity::Waiting,
            content: Vec::new(),
            elapsed: crate::duration_ext::duration_from_secs(0),
            frame: 0,
            id,
        }
    }

    /// Adds streamed text: it continues the text being streamed, or, after
    /// reasoning, the reasoning is kept as content and new text starts.
    pub fn push_delta(&mut self, delta: &str)
        ensures
            final(self).id == old(self).id,
            final(self).frame == old(self).frame,
            final(self).elapsed == old(self).elapsed,
            match old(self).activity {
                AgentActivity::Streaming(s) => {
                    &&& final(self).content@ == old(self).content@
                    &&& final(self).activity matches AgentActivity::Streaming(t) && t@ == s@
                        + delta@
                },
                AgentActivity::Reasoning(s) => {
                    &&& final(self).content@ == old(self).content@.push(
                        AgentMessageContent::Reasoning(s),
                    )
                    &&& final(self).activity matches AgentActivity::Streaming(t) && t@ == delta@
                },
                AgentActivity::Waiting => {
                    &&& final(self).content@ == old(self).content@
                    &&& final(self).activity matches AgentActivity::Streaming(t) && t@ == delta@
                },
            },
    {
        let mut activity = AgentActivity::Waiting;
        std::mem::swap(&mut activity, &mut self.activity);
        match activity {
            AgentActivity::Streaming(mut s) => {
                append_str(&mut s, delta);
                self.activity = AgentActivity::Streaming(s);
            },
            AgentActivity::Reasoning(s) => {
                self.content.push(AgentMessageContent::Reasoning(s));
                self.activity = AgentActivity::Streaming(copy_str(delta));
            },
            AgentActivity::Waiting => {
                self.activity = AgentActivity::Streaming(copy_str(delta));
            },
        }
    }

    /// Adds streamed reasoning: it continues the reasoning, or, after text,
    /// the text is kept as content and new reasoning starts.
    pub fn push_reasoning_delta(&mut self, delta: &str)
        ensures
            final(self).id == old(self).id,
            final(self).frame == old(self).frame,
            final(self).elapsed == old(self).elapsed,
            match old(self).activity {
                AgentActivity::Reasoning(s) => {
                    &&& final(self).content@ == old(self).content@
                    &&& final(self).activity matches AgentActivity::Reasoning(t) && t@ == s@
                        + delta@
                },
                AgentActivity::Streaming(s) => {
                    &&& final(self).content@ == old(self).content@.push(
                        AgentMessageContent::Text(s),
                    )
                    &&& final(self).activity matches AgentActivity::Reasoning(t) && t@ == delta@
                },
                AgentActivity::Waiting => {
                    &&& final(self).content@ == old(self).content@
                    &&& final(self).activity matches AgentActivity::Reasoning(t) && t@ == delta@
                },
            },
    {
        let mut activity = AgentActivity::Waiting;
        std::mem::swap(&mut activity, &mut self.activity);
        match activity {
            AgentActivity::Reasoning(mut s) => {
                append_str(&mut s, delta);
                self.activity = AgentActivity::Reasoning(s);
            },
            AgentActivity::Streaming(s) => {
                self.content.push(AgentMessageContent::Text(s));
                self.activity = AgentActivity::Reasoning(copy_str(delta));
            },
            AgentActivity::Waiting => {
                self.activity = AgentActivity::Reasoning(copy_str(delta));
            },
        }
    }
}

} // verus!
