//! Limits on running a command, and how its output and outcome become a
//! tool result.

use vstd::prelude::*;

use std::time::Duration;

use crate::duration_ext::{duration_from_secs, duration_secs, whole_seconds};
use crate::text::{append_str, copy_str, decimal, decimal_string, push_char};
use crate::tool::{ToolOutcome, ToolResult, opt_chars};

verus! {

/// The text that bytes decode to, invalid sequences replaced by U+FFFD, as
/// `String::from_utf8_lossy` decodes them.
pub uninterp spec fn utf8_lossy(bytes: Seq<u8>) -> Seq<char>;

/// Decodes bytes as UTF-8, replacing what is not valid
/// (`String::from_utf8_lossy`); valid UTF-8 decodes to the same text as
/// `std::str::from_utf8` gives, as the method's documentation says: the
/// encoding of some text decodes back to that text.
#[verifier::external_body]
pub(crate) fn decode_lossy(bytes: &[u8]) -> (r: String)
    ensures
        r@ == utf8_lossy(bytes@),
        crate::line_stream::utf8_decoding(bytes@) matches Option::Some(t) ==> r@ == t,
        forall|text: Seq<char>|
            #[trigger] crate::line_stream::utf8_encoding(text) == bytes@ ==> r@ == text,
{
    String::from_utf8_lossy(bytes).into_owned()
}

/// How long a command may run and how much of its output is kept.
#[derive(Clone, Copy, Debug)]
pub struct ExecutionLimit {
    pub output_limit: usize,
    pub timeout: Duration,
    pub truncated_marker: &'static str,
}

impl Default for ExecutionLimit {
    /// 20 KiB of output per stream, thirty seconds, and a `[truncated]` line
    /// after output that was cut.
    fn default() -> (r: ExecutionLimit)
        ensures
            r.output_limit == 20 * 1024,
            whole_seconds(r.timeout) == 30,
            r.truncated_marker@ == "\n[truncated]"@,
    {
        ExecutionLimit {
            output_limit: 20 * 1024,
            timeout: duration_from_secs(30),
            truncated_marker: "\n[truncated]",
        }
    }
}

/// The first `maximum` bytes of `bytes`, or all of them when there are fewer.
pub open spec fn capped(bytes: Seq<u8>, maximum: nat) -> Seq<u8> {
    if bytes.len() <= maximum {
        bytes
    } else {
        bytes.take(maximum as int)
    }
}

/// What is kept of a stream's output: one byte past the limit is read, so
/// that the cut can be seen.
pub open spec fn kept_limit(limit: nat) -> nat {
    if limit < usize::MAX {
        limit + 1
    } else {
        usize::MAX as nat
    }
}

/// The text of a stream's output: all of it when it fits the limit;
/// otherwise as many bytes as leave room for the marker's bytes, then the
/// marker.
pub open spec fn output_text(kept: Seq<u8>, limit: nat, marker: &str) -> Seq<char> {
    if kept.len() > limit {
        let keep: int = if limit >= marker.len() { limit - marker.len() } else { 0 };
        utf8_lossy(kept.take(keep)) + marker@
    } else {
        utf8_lossy(kept)
    }
}

/// Keeping the first bytes of what has been read so far, and then of what
/// follows, keeps the first bytes of all of it.
pub proof fn law_capping_keeps_a_prefix(a: Seq<u8>, b: Seq<u8>, maximum: nat)
    ensures
        capped(capped(a, maximum) + b, maximum) == capped(a + b, maximum),
{
    if a.len() <= maximum {
    } else {
        assert(capped(a, maximum) == a.take(maximum as int));
        assert(capped(a.take(maximum as int) + b, maximum) =~= (a + b).take(maximum as int));
    }
}

/// The output of one stream being read: the bytes kept so far.
#[derive(Debug)]
pub struct OutputCapture {
    bytes: Vec<u8>,
    maximum: usize,
}

impl OutputCapture {
    /// No more bytes are kept than the maximum.
    #[verifier::type_invariant]
    spec fn within_maximum(self) -> bool {
        self.bytes@.len() <= self.maximum
    }

    /// The bytes kept so far.
    pub closed spec fn kept(&self) -> Seq<u8> {
        self.bytes@
    }

    /// How many bytes are kept at most.
    pub closed spec fn maximum(&self) -> nat {
        self.maximum as nat
    }

    /// Adds bytes that were read, keeping only as many as there is room for.
    pub fn push(&mut self, chunk: &[u8])
        ensures
            final(self).maximum() == old(self).maximum(),
            final(self).kept() == capped(old(self).kept() + chunk@, old(self).maximum()),
    {
        proof {
            use_type_invariant(&*self);
        }
        let remaining: usize = if self.maximum > self.bytes.len() {
            self.maximum - self.bytes.len()
        } else {
            0
        };
        if remaining == 0 {
            assert(capped(self.bytes@ + chunk@, self.maximum as nat) =~= self.bytes@) by {
                if self.bytes@.len() <= self.maximum {
                    assert(self.bytes@.len() == self.maximum);
                }
            }
            return;
        }
        let count: usize = if chunk.len() > remaining { remaining } else { chunk.len() };
        let ghost before = self.bytes@;
        let mut bytes: Vec<u8> = Vec::new();
        std::mem::swap(&mut bytes, &mut self.bytes);
        for i in 0..count
            invariant
                count <= chunk@.len(),
                bytes@ == before + chunk@.take(i as int),
        {
            bytes.push(chunk[i]);
            assert(before + chunk@.take(i + 1) =~= (before + chunk@.take(i as int)).push(
                chunk@[i as int],
            ));
        }
        self.bytes = bytes;
        assert(capped(before + chunk@, self.maximum as nat) =~= before + chunk@.take(
            count as int,
        ));
    }
}

/// How a wait for a command that ran out of time ended.
#[derive(Clone, Debug, Eq, PartialEq)]
pub enum WaitOutcome {
    /// It exited.
    Exited,
    /// Waiting failed with the given message.
    Failed(String),
    /// It did not exit in time either.
    TimedOut,
}

/// The error text of a command that ran out of time: how long it was given,
/// what it wrote to standard error, and what went wrong when it was killed
/// and waited for.
pub open spec fn timeout_text(
    seconds: nat,
    stderr: Seq<char>,
    kill_error: Option<Seq<char>>,
    wait: WaitOutcome,
) -> Seq<char> {
    let head = "tool timed out after "@ + decimal(seconds) + " seconds"@;
    let first = if stderr.len() == 0 {
        head
    } else {
        head.push('\n') + stderr
    };
    let killed = match kill_error {
        Option::Some(e) => first + "\nfailed to kill process: "@ + e,
        Option::None => first,
    };
    match wait {
        WaitOutcome::Exited => killed,
        WaitOutcome::Failed(e) => killed + "\nfailed to wait for process: "@ + e@,
        WaitOutcome::TimedOut => killed + "\nfailed to wait for process: timed out"@,
    }
}

/// Text that is kept only when it is not empty.
pub open spec fn present(s: Seq<char>) -> Option<Seq<char>> {
    if s.len() == 0 {
        Option::None
    } else {
        Option::Some(s)
    }
}

fn present_string(s: String) -> (r: Option<String>)
    ensures
        opt_chars(r) == present(s@),
{
    if s.as_str().is_empty() {
        None
    } else {
        Some(s)
    }
}

/// Runs commands within limits.
#[derive(Clone, Copy, Debug)]
pub struct Executor {
    pub limits: ExecutionLimit,
}

impl Executor {
    /// An empty capture for one output stream.
    pub fn capture(&self) -> (r: OutputCapture)
        ensures
            r.kept() == Seq::<u8>::empty(),
            r.maximum() == kept_limit(self.limits.output_limit as nat),
    {
        let maximum = if self.limits.output_limit < usize::MAX {
            self.limits.output_limit + 1
        } else {
            usize::MAX
        };
        OutputCapture { bytes: Vec::new(), maximum }
    }

    /// The text of a captured stream: cut, with the marker, when it went
    /// past the limit.
    pub fn output(&self, capture: OutputCapture) -> (r: String)
        ensures
            r@ == output_text(
                capture.kept(),
                self.limits.output_limit as nat,
                self.limits.truncated_marker,
            ),
    {
        let limit = self.limits.output_limit;
        let marker = self.limits.truncated_marker;
        let bytes = capture.bytes;
        if bytes.len() > limit {
            let marker_len = marker.len();
            let keep: usize = if limit >= marker_len { limit - marker_len } else { 0 };
            let kept = vstd::slice::slice_subrange(bytes.as_slice(), 0, keep);
            assert(kept@ =~= bytes@.take(keep as int));
            let mut r = decode_lossy(kept);
            append_str(&mut r, marker);
            r
        } else {
            decode_lossy(bytes.as_slice())
        }
    }

    /// The result of a command that could not be run or waited for: the
    /// error as its standard error.
    pub fn error_result(message: String) -> (r: ToolResult)
        ensures
            r.exit_status is None,
            r.outcome == ToolOutcome::Failure,
            opt_chars(r.stderr) == Option::Some(message@),
            r.stdout is None,
    {
        ToolResult {
            exit_status: None,
            outcome: ToolOutcome::Failure,
            stderr: Some(message),
            stdout: None,
        }
    }

    /// The result of a command that exited: its status, and its output
    /// streams when they are not empty.
    pub fn completed_result(exit_status: Option<i32>, stdout: String, stderr: String) -> (r:
        ToolResult)
        ensures
            r.exit_status == exit_status,
            r.outcome == ToolOutcome::Failure,
            opt_chars(r.stderr) == present(stderr@),
            opt_chars(r.stdout) == present(stdout@),
    {
        ToolResult {
            exit_status,
            outcome: ToolOutcome::Failure,
            stderr: present_string(stderr),
            stdout: present_string(stdout),
        }
    }

    /// The result of a command that ran out of time: what it wrote, and
    /// why it was stopped.
    pub fn timeout_result(
        &self,
        stdout: String,
        stderr: String,
        kill_error: Option<String>,
        wait: WaitOutcome,
    ) -> (r: ToolResult)
        ensures
            r.exit_status is None,
            r.outcome == ToolOutcome::Failure,
            opt_chars(r.stderr) == Option::Some(
                timeout_text(
                    whole_seconds(self.limits.timeout),
                    stderr@,
                    opt_chars(kill_error),
                    wait,
                ),
            ),
            opt_chars(r.stdout) == present(stdout@),
    {
        let seconds = duration_secs(self.limits.timeout);
        let mut text = copy_str("tool timed out after ");
        let number = decimal_string(seconds as u128);
        append_str(&mut text, number.as_str());
        append_str(&mut text, " seconds");
        proof {
            reveal_strlit("tool timed out after ");
            reveal_strlit(" seconds");
        }
        if !stderr.as_str().is_empty() {
            push_char(&mut text, '\n');
            append_str(&mut text, stderr.as_str());
        }
        match &kill_error {
            Some(e) => {
                append_str(&mut text, "\nfailed to kill process: ");
                append_str(&mut text, e.as_str());
            },
            None => {},
        }
        match &wait {
            WaitOutcome::Exited => {},
            WaitOutcome::Failed(e) => {
                append_str(&mut text, "\nfailed to wait for process: ");
                append_str(&mut text, e.as_str());
            },
            WaitOutcome::TimedOut => {
                append_str(&mut text, "\nfailed to wait for process: timed out");
            },
        }
        ToolResult {
            exit_status: None,
            outcome: ToolOutcome::Failure,
            stderr: Some(text),
            stdout: present_string(stdout),
        }
    }
}

} // verus!
