//! What a finished process left behind.

use vstd::prelude::*;

use crate::execution::{decode_lossy, utf8_lossy};

verus! {

/// The exit status of a process, its output streams as text, and whether it
/// succeeded.
#[derive(Clone, Debug, Eq, PartialEq)]
pub struct CommandOutput {
    pub status: Option<i32>,
    pub stderr: String,
    pub stdout: String,
    pub success: bool,
}

impl CommandOutput {
    /// The output of a process that exited with `status` (none when a
    /// signal ended it), its streams decoded with invalid bytes replaced.
    /// It succeeded when it exited with status zero.
    pub fn from_parts(status: Option<i32>, stdout: &[u8], stderr: &[u8]) -> (r: CommandOutput)
        ensures
            r.status == status,
            r.stdout@ == utf8_lossy(stdout@),
            r.stderr@ == utf8_lossy(stderr@),
            r.success == (status == Option::Some(0i32)),
    {
        let success = match status {
            Some(code) => code == 0,
            None => false,
        };
        CommandOutput {
            status,
            stderr: decode_lossy(stderr),
            stdout: decode_lossy(stdout),
            success,
        }
    }
}

} // verus!
