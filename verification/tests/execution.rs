use kotomori::execution::{ExecutionLimit, Executor, WaitOutcome};
use kotomori::tool::{ToolOutcome, ToolResult};
use std::time::Duration;

fn executor(output_limit: usize, marker: &'static str) -> Executor {
    Executor {
        limits: ExecutionLimit {
            output_limit,
            timeout: Duration::from_secs(30),
            truncated_marker: marker,
        },
    }
}

fn read(executor: &Executor, chunks: &[&[u8]]) -> String {
    let mut capture = executor.capture();
    for chunk in chunks {
        capture.push(chunk);
    }
    executor.output(capture)
}

#[test]
fn read_pipe_output_is_capped() {
    let executor = executor(8, "...");
    assert_eq!(read(&executor, &[&b"foo bar baz"[..]]), "foo b...");
}

#[test]
fn output_that_fits_is_kept_whole() {
    let executor = executor(8, "...");
    assert_eq!(read(&executor, &[b"foo ", b"bar!"]), "foo bar!");
}

#[test]
fn capping_works_across_chunks() {
    let executor = executor(8, "...");
    assert_eq!(read(&executor, &[b"foo", b" bar", b" baz", b" qux"]), "foo b...");
}

#[test]
fn invalid_utf8_is_replaced() {
    let executor = executor(8, "...");
    assert_eq!(read(&executor, &[b"a\xffb"]), "a\u{fffd}b");
}

#[test]
fn default_limits() {
    let limits = ExecutionLimit::default();
    assert_eq!(limits.output_limit, 20 * 1024);
    assert_eq!(limits.timeout, Duration::from_secs(30));
    assert_eq!(limits.truncated_marker, "\n[truncated]");
}

#[test]
fn timed_out_commands_explain_why() {
    let executor = executor(8, "...");
    assert_eq!(
        executor.timeout_result("out".into(), "err".into(), None, WaitOutcome::Exited),
        ToolResult {
            exit_status: None,
            outcome: ToolOutcome::Failure,
            stderr: Some("tool timed out after 30 seconds\nerr".into()),
            stdout: Some("out".into()),
        }
    );
    assert_eq!(
        executor
            .timeout_result(String::new(), String::new(), Some("denied".into()), WaitOutcome::TimedOut)
            .stderr
            .unwrap(),
        "tool timed out after 30 seconds\nfailed to kill process: denied\nfailed to wait for process: timed out"
    );
    assert_eq!(
        executor
            .timeout_result(String::new(), String::new(), None, WaitOutcome::Failed("gone".into()))
            .stderr
            .unwrap(),
        "tool timed out after 30 seconds\nfailed to wait for process: gone"
    );
}

#[test]
fn completed_commands_keep_non_empty_output() {
    assert_eq!(
        Executor::completed_result(Some(0), "out".into(), String::new()),
        ToolResult {
            exit_status: Some(0),
            outcome: ToolOutcome::Failure,
            stderr: None,
            stdout: Some("out".into()),
        }
    );
    assert_eq!(
        Executor::error_result("no such file".into()).stderr.unwrap(),
        "no such file"
    );
}

#[test]
fn command_output_decodes_its_streams() {
    use_command_output();
}

fn use_command_output() {
    let output = kotomori::command_output::CommandOutput::from_parts(Some(2), b"ok\n", b"\xfe");
    assert_eq!(output.status, Some(2));
    assert_eq!(output.stdout, "ok\n");
    assert_eq!(output.stderr, "\u{fffd}");
    assert!(!output.success);
    let output = kotomori::command_output::CommandOutput::from_parts(Some(0), b"", b"");
    assert!(output.success);
    let output = kotomori::command_output::CommandOutput::from_parts(None, b"", b"");
    assert!(!output.success);
}

#[test]
fn command_invocations_are_written_as_command_lines() {
    let invocation = kotomori::command_invocation::CommandInvocation {
        arguments: vec!["--files".into(), "src".into()],
        cwd: None,
        program: "rg".into(),
    };
    assert_eq!(invocation.to_display_string(), "rg --files src");
    let bare = kotomori::command_invocation::CommandInvocation {
        arguments: Vec::new(),
        cwd: Some("/tmp".into()),
        program: "ls".into(),
    };
    assert_eq!(bare.to_display_string(), "ls");
}
