use kotomori::component::line::LineComponent;
use kotomori::component::transcript::TranscriptComponent;
use kotomori::message::{AgentMessageContent, Message, UserMessageContent};
use kotomori::style::{Span, Style};
use kotomori::tool::{CommandTool, ToolInvocation, ToolInvocationKind, ToolOutcome, ToolResult};
use kotomori::transcript::{AgentActivity, Run, Transcript, TranscriptEntry};
use std::time::Duration;

#[test]
fn render_active_reasoning() {
  let run = Run {
    activity: AgentActivity::Reasoning("foo\nbar".into()),
    elapsed: Duration::from_secs(61),
    frame: 1,
    ..Run::new(0)
  };

  assert_eq!(
    TranscriptComponent::new(&Transcript::default(), Some(&run)).render(80),
    [
      LineComponent::raw("foo"),
      LineComponent::raw("bar"),
      LineComponent::blank(),
      LineComponent::from(vec![
        Span::styled("✧", Style::Accent),
        Span::styled(" Working...", Style::Secondary),
        Span::styled(" (1m 1s • Esc to interrupt)", Style::Muted),
      ]),
      LineComponent::blank(),
    ]
  );
}

#[test]
fn render_active_streaming() {
  let run = Run {
    activity: AgentActivity::Streaming("foo\nbar".into()),
    ..Run::new(0)
  };

  assert_eq!(
    TranscriptComponent::new(&Transcript::default(), Some(&run)).render(80),
    [
      LineComponent::raw("foo"),
      LineComponent::raw("bar"),
      LineComponent::blank()
    ]
  );
}

#[test]
fn render_active_content_in_order() {
  let mut run = Run::new(0);

  run.push_reasoning_delta("foo");
  run.push_delta("bar");
  run.push_reasoning_delta("baz");
  run.push_delta("qux");

  assert_eq!(
    TranscriptComponent::new(&Transcript::default(), Some(&run)).render(80),
    [
      LineComponent::raw("foo"),
      LineComponent::blank(),
      LineComponent::raw("bar"),
      LineComponent::blank(),
      LineComponent::raw("baz"),
      LineComponent::blank(),
      LineComponent::raw("qux"),
      LineComponent::blank(),
    ]
  );
}

#[test]
fn render_active_waiting() {
  let run = Run {
    elapsed: Duration::from_secs(111),
    frame: 2,
    ..Run::new(0)
  };

  assert_eq!(
    TranscriptComponent::new(&Transcript::default(), Some(&run)).render(80),
    [
      LineComponent::from(vec![
        Span::styled("✶", Style::Accent),
        Span::styled(" Working...", Style::Secondary),
        Span::styled(" (1m 51s • Esc to interrupt)", Style::Muted),
      ]),
      LineComponent::blank(),
    ]
  );
}

#[test]
fn render_active_activity_is_separated_from_user_entry() {
  let run = Run::new(0);

  let transcript = Transcript::with_entries(vec![TranscriptEntry::Message(
    Message::User(vec![UserMessageContent::Text("foo".into())]),
  )]);

  assert_eq!(
    TranscriptComponent::new(&transcript, Some(&run)).render(80),
    [
      LineComponent::from(vec![
        Span::styled("│ ", Style::Accent),
        Span::raw("foo"),
      ]),
      LineComponent::blank(),
      LineComponent::from(vec![
        Span::styled("✦", Style::Accent),
        Span::styled(" Working...", Style::Secondary),
        Span::styled(" (0s • Esc to interrupt)", Style::Muted),
      ]),
      LineComponent::blank(),
    ]
  );
}

#[test]
fn render_agent_entry_handles_multiline_content() {
  let transcript = Transcript::with_entries(vec![TranscriptEntry::Message(
    Message::Agent(vec![AgentMessageContent::Text("foo\nbar".into())]),
  )]);

  assert_eq!(
    TranscriptComponent::new(&transcript, None).render(80),
    [
      LineComponent::raw("foo"),
      LineComponent::raw("bar"),
      LineComponent::blank(),
    ]
  );
}

#[test]
fn render_empty_transcript() {
  let transcript = Transcript::default();

  assert_eq!(TranscriptComponent::new(&transcript, None).render(80), []);
}

#[test]
fn render_entry_spacing() {
  let transcript = Transcript::with_entries(vec![TranscriptEntry::Message(
    Message::Agent(vec![
      AgentMessageContent::Text("foo".into()),
      AgentMessageContent::Reasoning("bar".into()),
      AgentMessageContent::Text("baz".into()),
    ]),
  )]);

  assert_eq!(
    TranscriptComponent::new(&transcript, None).render(80),
    [
      LineComponent::raw("foo"),
      LineComponent::blank(),
      LineComponent::raw("bar"),
      LineComponent::blank(),
      LineComponent::raw("baz"),
      LineComponent::blank(),
    ]
  );
}

#[test]
fn render_adjacent_non_user_entries_have_single_blank_line() {
  let transcript = Transcript::with_entries(vec![
    TranscriptEntry::Message(Message::Agent(vec![
      AgentMessageContent::Text("foo".into()),
    ])),
    TranscriptEntry::Interrupted,
  ]);

  assert_eq!(
    TranscriptComponent::new(&transcript, None).render(80),
    [
      LineComponent::raw("foo"),
      LineComponent::blank(),
      LineComponent::from(vec![Span::styled(
        "■ Conversation interrupted, tell the model what to do differently.",
        Style::Danger,
      )]),
      LineComponent::blank(),
    ]
  );
}

#[test]
fn render_error_entry() {
  let transcript =
    Transcript::with_entries(vec![TranscriptEntry::Error("foo".into())]);

  assert_eq!(
    TranscriptComponent::new(&transcript, None).render(80),
    [
      LineComponent::from(vec![
        Span::styled("●", Style::Danger),
        Span::raw(" "),
        Span::raw("Error"),
      ]),
      LineComponent::from(vec![
        Span::styled("  │ ", Style::Muted),
        Span::raw("foo"),
      ]),
      LineComponent::blank(),
    ]
  );
}

#[test]
fn render_interrupted_entry() {
  let transcript =
    Transcript::with_entries(vec![TranscriptEntry::Interrupted]);

  assert_eq!(
    TranscriptComponent::new(&transcript, None).render(80),
    [
      LineComponent::from(vec![Span::styled(
        "■ Conversation interrupted, tell the model what to do differently.",
        Style::Danger,
      )]),
      LineComponent::blank(),
    ]
  );
}

#[test]
fn render_notice_entry_handles_multiline_content() {
  let transcript = Transcript::with_entries(vec![TranscriptEntry::Notice(
    "foo\nbar".into(),
  )]);

  assert_eq!(
    TranscriptComponent::new(&transcript, None).render(80),
    [
      LineComponent::raw("foo"),
      LineComponent::raw("bar"),
      LineComponent::blank(),
    ]
  );
}

#[test]
fn render_reasoning_entry_handles_multiline_content() {
  let transcript = Transcript::with_entries(vec![TranscriptEntry::Message(
    Message::Agent(vec![AgentMessageContent::Reasoning("foo\nbar".into())]),
  )]);

  assert_eq!(
    TranscriptComponent::new(&transcript, None).render(80),
    [
      LineComponent::raw("foo"),
      LineComponent::raw("bar"),
      LineComponent::blank(),
    ]
  );
}

#[test]
fn render_tool_entry_after_agent() {
  let invocation = ToolInvocation {
    id: "bar".into(),
    kind: ToolInvocationKind::Command(CommandTool {
      command: "rg --files".into(),
      cwd: None,
    }),
  };

  let transcript = Transcript::with_entries(vec![
    TranscriptEntry::Message(Message::Agent(vec![
      AgentMessageContent::Text("foo".into()),
      AgentMessageContent::ToolCall(invocation.clone()),
      AgentMessageContent::Text("bar".into()),
    ])),
    TranscriptEntry::Message(Message::User(vec![
      UserMessageContent::ToolResult {
        id: invocation.id.clone(),
        result: ToolResult {
          exit_status: Some(0),
          outcome: ToolOutcome::Success,
          stdout: Some("baz\n".into()),
          ..Default::default()
        },
      },
    ])),
  ]);

  assert_eq!(
    TranscriptComponent::new(&transcript, None).render(80),
    [
      LineComponent::raw("foo"),
      LineComponent::blank(),
      LineComponent::from(vec![
        Span::styled("●", Style::Success),
        Span::raw(" "),
        Span::raw("Ran rg --files"),
      ]),
      LineComponent::from(vec![
        Span::styled("  │ ", Style::Muted),
        Span::raw("baz"),
      ]),
      LineComponent::blank(),
      LineComponent::raw("bar"),
      LineComponent::blank(),
    ]
  );
}

#[test]
fn render_tool_entry_after_user() {
  let invocation = ToolInvocation {
    id: "bar".into(),
    kind: ToolInvocationKind::Command(CommandTool {
      command: "rg --files".into(),
      cwd: None,
    }),
  };

  let transcript = Transcript::with_entries(vec![
    TranscriptEntry::Message(Message::User(vec![UserMessageContent::Text(
      "foo".into(),
    )])),
    TranscriptEntry::Message(Message::Agent(vec![
      AgentMessageContent::ToolCall(invocation.clone()),
    ])),
  ]);

  assert_eq!(
    TranscriptComponent::new(&transcript, None).render(80),
    [
      LineComponent::from(vec![
        Span::styled("│ ", Style::Accent),
        Span::raw("foo"),
      ]),
      LineComponent::blank(),
      LineComponent::from(vec![
        Span::styled("●", Style::Accent),
        Span::raw(" "),
        Span::raw("Running rg --files"),
      ]),
      LineComponent::blank(),
    ]
  );
}

#[test]
fn render_tool_entry_failed() {
  let invocation = ToolInvocation {
    id: "bar".into(),
    kind: ToolInvocationKind::Command(CommandTool {
      command: "foo bar".into(),
      cwd: Some("baz".into()),
    }),
  };

  let transcript = Transcript::with_entries(vec![
    TranscriptEntry::Message(Message::Agent(vec![
      AgentMessageContent::ToolCall(invocation.clone()),
    ])),
    TranscriptEntry::Message(Message::User(vec![
      UserMessageContent::ToolResult {
        id: invocation.id.clone(),
        result: ToolResult {
          exit_status: Some(1),
          stderr: Some("quux".into()),
          stdout: Some("qux\n".into()),
          ..Default::default()
        },
      },
    ])),
  ]);

  assert_eq!(
    TranscriptComponent::new(&transcript, None).render(80),
    [
      LineComponent::from(vec![
        Span::styled("●", Style::Danger),
        Span::raw(" "),
        Span::raw("Failed running foo bar"),
      ]),
      LineComponent::from(vec![
        Span::styled("  │ ", Style::Muted),
        Span::styled("cwd ", Style::Muted),
        Span::raw("baz"),
      ]),
      LineComponent::from(vec![
        Span::styled("  │ ", Style::Muted),
        Span::styled("exit ", Style::Muted),
        Span::raw("1"),
      ]),
      LineComponent::from(vec![
        Span::styled("  │ ", Style::Muted),
        Span::raw("qux"),
      ]),
      LineComponent::from(vec![
        Span::styled("  │ ", Style::Muted),
        Span::raw("quux"),
      ]),
      LineComponent::blank(),
    ]
  );
}

#[test]
fn render_tool_entry_limits_output() {
  let invocation = ToolInvocation {
    id: "bar".into(),
    kind: ToolInvocationKind::Command(CommandTool {
      command: "rg --files".into(),
      cwd: None,
    }),
  };

  let transcript = Transcript::with_entries(vec![
    TranscriptEntry::Message(Message::Agent(vec![
      AgentMessageContent::ToolCall(invocation.clone()),
    ])),
    TranscriptEntry::Message(Message::User(vec![
      UserMessageContent::ToolResult {
        id: invocation.id.clone(),
        result: ToolResult {
          exit_status: Some(0),
          outcome: ToolOutcome::Success,
          stdout: Some("foobarbaz\n\nbar\nbaz\nqux\n".into()),
          ..Default::default()
        },
      },
    ])),
  ]);

  assert_eq!(
    TranscriptComponent::new(&transcript, None).render(10),
    [
      LineComponent::from(vec![
        Span::styled("●", Style::Success),
        Span::raw(" "),
        Span::raw("Ran rg --files"),
      ]),
      LineComponent::from(vec![
        Span::styled("  │ ", Style::Muted),
        Span::raw("fooba..."),
      ]),
      LineComponent::from(vec![
        Span::styled("  │ ", Style::Muted),
        Span::raw("bar"),
      ]),
      LineComponent::from(vec![
        Span::styled("  │ ", Style::Muted),
        Span::raw("baz"),
      ]),
      LineComponent::from(vec![
        Span::styled("  │ ", Style::Muted),
        Span::styled("... 1 more line", Style::Muted),
      ]),
      LineComponent::blank(),
    ]
  );
}

#[test]
fn render_tool_entry_pending() {
  let invocation = ToolInvocation {
    id: "bar".into(),
    kind: ToolInvocationKind::Command(CommandTool {
      command: "rg --files".into(),
      cwd: None,
    }),
  };

  let transcript = Transcript::with_entries(vec![TranscriptEntry::Message(
    Message::Agent(vec![AgentMessageContent::ToolCall(invocation.clone())]),
  )]);

  assert_eq!(
    TranscriptComponent::new(&transcript, None).render(80),
    [
      LineComponent::from(vec![
        Span::styled("●", Style::Accent),
        Span::raw(" "),
        Span::raw("Running rg --files"),
      ]),
      LineComponent::blank(),
    ]
  );
}

#[test]
fn render_tool_results_are_scoped_to_the_agent_message() {
  let invocation = ToolInvocation {
    id: "foo".into(),
    kind: ToolInvocationKind::Command(CommandTool {
      command: "bar".into(),
      cwd: None,
    }),
  };

  let message =
    Message::Agent(vec![AgentMessageContent::ToolCall(invocation)]);

  let transcript = Transcript::with_entries(vec![
    TranscriptEntry::Message(message.clone()),
    TranscriptEntry::Message(message),
    TranscriptEntry::Message(Message::User(vec![
      UserMessageContent::ToolResult {
        id: "baz".into(),
        result: ToolResult::default(),
      },
      UserMessageContent::ToolResult {
        id: "foo".into(),
        result: ToolResult {
          outcome: ToolOutcome::Success,
          ..Default::default()
        },
      },
    ])),
  ]);

  assert_eq!(
    TranscriptComponent::new(&transcript, None).render(80),
    [
      LineComponent::from(vec![
        Span::styled("●", Style::Accent),
        Span::raw(" "),
        Span::raw("Running bar"),
      ]),
      LineComponent::blank(),
      LineComponent::from(vec![
        Span::styled("●", Style::Success),
        Span::raw(" "),
        Span::raw("Ran bar"),
      ]),
      LineComponent::blank(),
    ]
  );
}

#[test]
fn render_user_entry_uses_width() {
  let transcript = Transcript::with_entries(vec![TranscriptEntry::Message(
    Message::User(vec![UserMessageContent::Text("foobar\nbaz".into())]),
  )]);

  assert_eq!(
    TranscriptComponent::new(&transcript, None).render(5),
    [
      LineComponent::from(vec![
        Span::styled("│ ", Style::Accent),
        Span::raw("foo"),
      ]),
      LineComponent::from(vec![
        Span::styled("│ ", Style::Accent),
        Span::raw("bar"),
      ]),
      LineComponent::from(vec![
        Span::styled("│ ", Style::Accent),
        Span::raw("baz"),
      ]),
    ]
  );
}

#[test]
fn output_previews_take_five_columns_less_than_the_width() {
  let invocation = ToolInvocation {
    id: "bar".into(),
    kind: ToolInvocationKind::Command(CommandTool {
      command: "ls".into(),
      cwd: None,
    }),
  };

  let transcript = Transcript::with_entries(vec![
    TranscriptEntry::Message(Message::Agent(vec![
      AgentMessageContent::ToolCall(invocation.clone()),
    ])),
    TranscriptEntry::Message(Message::User(vec![
      UserMessageContent::ToolResult {
        id: invocation.id.clone(),
        result: ToolResult {
          exit_status: Some(0),
          outcome: ToolOutcome::Success,
          stdout: Some("abcdefghijklmnop\n".into()),
          ..Default::default()
        },
      },
    ])),
  ]);

  let lines = TranscriptComponent::new(&transcript, None).render(16);
  assert_eq!(
    lines[1],
    LineComponent::from(vec![
      Span::styled("  │ ", Style::Muted),
      Span::raw("abcdefgh..."),
    ])
  );
}
