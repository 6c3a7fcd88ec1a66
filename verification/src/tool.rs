//! Tool calls the model makes, and what they returned.

use vstd::prelude::*;

use crate::text::{
    append_str, concat, copy_str, escape_controls, escape_controls_string, lines_of, split_on,
};

verus! {

/// A shell command the model asked to run.
#[derive(Clone, Debug, PartialEq, Eq)]
pub struct CommandTool {
    pub command: String,
    pub cwd: Option<String>,
}

/// The kinds of tool the model can call.
#[derive(Clone, Debug, PartialEq, Eq)]
pub enum ToolInvocationKind {
    Command(CommandTool),
}

/// One tool call: its id and what it asks for.
#[derive(Clone, Debug, PartialEq, Eq)]
pub struct ToolInvocation {
    pub id: String,
    pub kind: ToolInvocationKind,
}

/// A labelled detail of a tool call shown under its title.
pub type DetailView = (Seq<char>, Seq<char>);

/// What a tool call shows: the command it runs, its control characters
/// escaped so that they cannot act on the terminal.
pub open spec fn invocation_text(kind: ToolInvocationKind) -> Seq<char> {
    match kind {
        ToolInvocationKind::Command(tool) => escape_controls(tool.command@),
    }
}

/// The details shown under a tool call: its working directory, if it has one.
pub open spec fn kind_details(kind: ToolInvocationKind) -> Seq<DetailView> {
    match kind {
        ToolInvocationKind::Command(tool) => match tool.cwd {
            Option::Some(cwd) => seq![(seq!['c', 'w', 'd'], cwd@)],
            Option::None => Seq::<DetailView>::empty(),
        },
    }
}

impl ToolInvocationKind {
    /// The details shown under the call.
    pub fn details(&self) -> (r: Vec<(&'static str, String)>)
        ensures
            r@.map_values(|d: (&'static str, String)| (d.0@, d.1@)) == kind_details(*self),
    {
        match self {
            ToolInvocationKind::Command(tool) => match &tool.cwd {
                Some(cwd) => {
                    proof {
                        reveal_strlit("cwd");
                        assert("cwd"@ =~= seq!['c', 'w', 'd']);
                    }
                    let r = vec![("cwd", copy_str(cwd.as_str()))];
                    assert(r@.map_values(|d: (&'static str, String)| (d.0@, d.1@)) =~= kind_details(
                        *self,
                    ));
                    r
                },
                None => {
                    let r: Vec<(&'static str, String)> = Vec::new();
                    assert(r@.map_values(|d: (&'static str, String)| (d.0@, d.1@)) =~= kind_details(
                        *self,
                    ));
                    r
                },
            },
        }
    }

    /// What the call shows: the command it runs.
    pub fn to_display_string(&self) -> (r: String)
        ensures
            r@ == invocation_text(*self),
    {
        match self {
            ToolInvocationKind::Command(tool) => escape_controls_string(tool.command.as_str()),
        }
    }
}

impl ToolInvocation {
    /// What the call shows: the command it runs.
    pub fn to_display_string(&self) -> (r: String)
        ensures
            r@ == invocation_text(self.kind),
    {
        self.kind.to_display_string()
    }

    /// The title of a call that is running: `Running <command>`.
    pub fn progressive_tense(&self) -> (r: String)
        ensures
            r@ == seq!['R', 'u', 'n', 'n', 'i', 'n', 'g', ' '] + invocation_text(self.kind),
    {
        proof {
            reveal_strlit("Running ");
        }
        let text = self.to_display_string();
        concat("Running ", text.as_str())
    }

    /// The title of a call that finished: `Ran <command>`.
    pub fn completed_tense(&self) -> (r: String)
        ensures
            r@ == seq!['R', 'a', 'n', ' '] + invocation_text(self.kind),
    {
        proof {
            reveal_strlit("Ran ");
        }
        let text = self.to_display_string();
        concat("Ran ", text.as_str())
    }

    /// The title of a call that failed: `Failed running <command>`.
    pub fn failed_tense(&self) -> (r: String)
        ensures
            r@ == seq!['F', 'a', 'i', 'l', 'e', 'd', ' ', 'r', 'u', 'n', 'n', 'i', 'n', 'g', ' ']
                + invocation_text(self.kind),
    {
        proof {
            reveal_strlit("Failed running ");
        }
        let text = self.to_display_string();
        concat("Failed running ", text.as_str())
    }
}

/// Whether a tool call did what it was asked.
#[derive(Clone, Copy, Debug, PartialEq, Eq, Structural)]
pub enum ToolOutcome {
    Failure,
    Success,
}

/// What a tool call returned.
#[derive(Clone, Debug, PartialEq, Eq)]
pub struct ToolResult {
    pub exit_status: Option<i32>,
    pub outcome: ToolOutcome,
    pub stderr: Option<String>,
    pub stdout: Option<String>,
}

/// An optional string's characters.
pub open spec fn opt_chars(s: Option<String>) -> Option<Seq<char>> {
    match s {
        Option::Some(s) => Some(s@),
        Option::None => None,
    }
}

/// The output a result shows: standard output, then standard error on the
/// next line; whichever is missing is left out.
pub open spec fn output_spec(stdout: Option<Seq<char>>, stderr: Option<Seq<char>>) -> Option<
    Seq<char>,
> {
    match (stdout, stderr) {
        (Option::Some(o), Option::Some(e)) => Some(o.push('\n') + e),
        (Option::Some(o), Option::None) => Some(o),
        (Option::None, Option::Some(e)) => Some(e),
        (Option::None, Option::None) => None,
    }
}

/// Text that is kept only when it is not empty.
pub open spec fn non_empty(s: Seq<char>) -> Option<Seq<char>> {
    if s.len() == 0 {
        None
    } else {
        Some(s)
    }
}

impl Default for ToolResult {
    /// A failed result with no exit status and no output.
    fn default() -> (r: ToolResult)
        ensures
            r.exit_status is None,
            r.outcome == ToolOutcome::Failure,
            r.stderr is None,
            r.stdout is None,
    {
        ToolResult { exit_status: None, outcome: ToolOutcome::Failure, stderr: None, stdout: None }
    }
}

fn non_empty_string(s: &str) -> (r: Option<String>)
    ensures
        opt_chars(r) == non_empty(s@),
{
    if s.is_empty() {
        None
    } else {
        Some(copy_str(s))
    }
}

impl ToolResult {
    /// The result of a command: successful exactly when it exited with status
    /// zero, with empty output streams left out.
    pub fn command(exit_status: Option<i32>, stdout: &str, stderr: &str) -> (r: ToolResult)
        ensures
            r.exit_status == exit_status,
            r.outcome == (if exit_status == Some(0i32) {
                ToolOutcome::Success
            } else {
                ToolOutcome::Failure
            }),
            opt_chars(r.stdout) == non_empty(stdout@),
            opt_chars(r.stderr) == non_empty(stderr@),
    {
        let outcome = match exit_status {
            Some(0) => ToolOutcome::Success,
            _ => ToolOutcome::Failure,
        };
        ToolResult {
            exit_status,
            outcome,
            stderr: non_empty_string(stderr),
            stdout: non_empty_string(stdout),
        }
    }

    /// Whether the call failed.
    pub fn is_error(&self) -> (r: bool)
        ensures
            r == (self.outcome != ToolOutcome::Success),
    {
        self.outcome != ToolOutcome::Success
    }

    /// The output the result shows.
    pub fn output(&self) -> (r: Option<String>)
        ensures
            opt_chars(r) == output_spec(opt_chars(self.stdout), opt_chars(self.stderr)),
    {
        match (&self.stdout, &self.stderr) {
            (Some(o), Some(e)) => {
                let mut r = copy_str(o.as_str());
                crate::text::push_char(&mut r, '\n');
                append_str(&mut r, e.as_str());
                Some(r)
            },
            (Some(o), None) => Some(copy_str(o.as_str())),
            (None, Some(e)) => Some(copy_str(e.as_str())),
            (None, None) => None,
        }
    }
}

} // verus!
