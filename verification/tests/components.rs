use kotomori::component::composer::ComposerComponent;
use kotomori::component::framed_lines::FramedLinesComponent;
use kotomori::component::guttered_lines::GutteredLinesComponent;
use kotomori::component::line::LineComponent;
use kotomori::component::message::MessageComponent;
use kotomori::component::queued_inputs::QueuedInputsComponent;
use kotomori::component::transcript_error::TranscriptErrorComponent;
use kotomori::component::transcript_tool_invocation::TranscriptToolInvocationComponent;
use kotomori::composer::Composer;
use kotomori::message::{AgentMessageContent, Message, UserMessageContent};
use kotomori::style::{Span, Style};
use kotomori::tool::{CommandTool, ToolInvocation, ToolInvocationKind, ToolResult};
use std::collections::VecDeque;

fn texts(texts: &[&str]) -> Vec<String> {
    texts.iter().map(|text| text.to_string()).collect()
}

#[test]
fn render_wraps_lines_between_borders() {
    assert_eq!(
        FramedLinesComponent::raw(texts(&["foobar"])).render(3),
        [
            LineComponent::from(vec![Span::styled("───", Style::DarkGray)]),
            LineComponent::raw("foo"),
            LineComponent::raw("bar"),
            LineComponent::from(vec![Span::styled("───", Style::DarkGray)]),
        ]
    );
}

#[test]
fn framed_lines_are_at_least_one_column_wide() {
    assert_eq!(
        FramedLinesComponent::raw(texts(&["ab"])).render(0),
        [
            LineComponent::from(vec![Span::styled("─", Style::DarkGray)]),
            LineComponent::raw("a"),
            LineComponent::raw("b"),
            LineComponent::from(vec![Span::styled("─", Style::DarkGray)]),
        ]
    );
}

#[test]
fn render_preserves_blank_lines_and_wide_characters_at_narrow_widths() {
    for width in [0, 1, 2, 3] {
        assert_eq!(
            GutteredLinesComponent::raw(texts(&["", "界"])).render(width),
            [
                LineComponent::from(vec![Span::styled("│ ", Style::Accent), Span::raw("")]),
                LineComponent::from(vec![Span::styled("│ ", Style::Accent), Span::raw("界")]),
            ],
        );
    }
}

#[test]
fn render_wraps_lines_with_an_accent_gutter() {
    assert_eq!(
        GutteredLinesComponent::raw(texts(&["foobar"])).render(5),
        [
            LineComponent::from(vec![Span::styled("│ ", Style::Accent), Span::raw("foo")]),
            LineComponent::from(vec![Span::styled("│ ", Style::Accent), Span::raw("bar")]),
        ]
    );
}

#[test]
fn renders_error() {
    assert_eq!(
        TranscriptErrorComponent::new("foo\n\nbar").render(80),
        [
            LineComponent::from(vec![
                Span::styled("●", Style::Danger),
                Span::raw(" "),
                Span::raw("Error"),
            ]),
            LineComponent::from(vec![Span::styled("  │ ", Style::Muted), Span::raw("foo")]),
            LineComponent::from(vec![Span::styled("  │ ", Style::Muted), Span::raw("")]),
            LineComponent::from(vec![Span::styled("  │ ", Style::Muted), Span::raw("bar")]),
        ]
    );
}

#[test]
fn wraps_details_inside_gutter() {
    assert_eq!(
        TranscriptErrorComponent::new("foobar").render(8),
        [
            LineComponent::from(vec![
                Span::styled("●", Style::Danger),
                Span::raw(" "),
                Span::raw("Error"),
            ]),
            LineComponent::from(vec![Span::styled("  │ ", Style::Muted), Span::raw("foob")]),
            LineComponent::from(vec![Span::styled("  │ ", Style::Muted), Span::raw("ar")]),
        ]
    );
}

#[test]
fn render_agent_content() {
    let invocation = ToolInvocation {
        id: "foo".into(),
        kind: ToolInvocationKind::Command(CommandTool {
            command: "rg --files".into(),
            cwd: Some("bar".into()),
        }),
    };

    let message = Message::Agent(vec![
        AgentMessageContent::Reasoning("foo\nbar".into()),
        AgentMessageContent::Text("baz\nqux".into()),
        AgentMessageContent::ToolCall(invocation),
    ]);

    assert_eq!(
        MessageComponent::new(&message).render(80),
        [
            LineComponent::from(vec![Span::styled(" foo", Style::DarkGray)]),
            LineComponent::from(vec![Span::styled(" bar", Style::DarkGray)]),
            LineComponent::raw("baz"),
            LineComponent::raw("qux"),
            LineComponent::raw("rg --files"),
        ]
    );
}

#[test]
fn render_user_content() {
    let message = Message::User(vec![
        UserMessageContent::Text("foobar".into()),
        UserMessageContent::ToolResult {
            id: "foo".into(),
            result: ToolResult::command(Some(0), "bar\nbaz", "qux"),
        },
    ]);

    assert_eq!(
        MessageComponent::new(&message).render(3),
        [
            LineComponent::from(vec![Span::styled("───", Style::DarkGray)]),
            LineComponent::raw("foo"),
            LineComponent::raw("bar"),
            LineComponent::from(vec![Span::styled("───", Style::DarkGray)]),
            LineComponent::raw("bar"),
            LineComponent::raw("baz"),
            LineComponent::raw("qux"),
        ]
    );
}

#[test]
fn tool_calls_show_control_characters_escaped() {
    let message = Message::Agent(vec![AgentMessageContent::ToolCall(ToolInvocation {
        id: "foo".into(),
        kind: ToolInvocationKind::Command(CommandTool {
            command: "echo\ta\x07\u{9b}".into(),
            cwd: None,
        }),
    })]);

    assert_eq!(
        MessageComponent::new(&message).render(80),
        [LineComponent::raw("echo\\ta\\u{7}\\u{9b}")]
    );
}

#[test]
fn queued_inputs_rendering() {
    let inputs = VecDeque::from(["first follow-up".to_string(), "second\nfollow-up".to_string()]);

    assert_eq!(
        QueuedInputsComponent { inputs: &inputs }.render(80),
        [
            LineComponent::from(vec![Span::styled("Queued", Style::Muted)]),
            LineComponent::from(vec![Span::styled("│ ", Style::Accent), Span::raw("first follow-up")]),
            LineComponent::blank(),
            LineComponent::from(vec![Span::styled("Queued", Style::Muted)]),
            LineComponent::from(vec![Span::styled("│ ", Style::Accent), Span::raw("second")]),
            LineComponent::from(vec![Span::styled("│ ", Style::Accent), Span::raw("follow-up")]),
            LineComponent::blank(),
        ]
    );
}

#[test]
fn active_run_renders_queued_inputs() {
    let queued_inputs =
        VecDeque::from(["first follow-up".to_string(), "second\nfollow-up".to_string()]);

    let composer = Composer::new("follow up");

    let component = ComposerComponent { composer: &composer, queued_inputs: &queued_inputs };

    assert_eq!(
        component.render(80),
        [
            LineComponent::from(vec![Span::styled("Queued", Style::Muted)]),
            LineComponent::from(vec![Span::styled("│ ", Style::Accent), Span::raw("first follow-up")]),
            LineComponent::from(vec![Span::styled("│ ", Style::Accent), Span::raw("second")]),
            LineComponent::from(vec![Span::styled("│ ", Style::Accent), Span::raw("follow-up")]),
            LineComponent::blank(),
            LineComponent::from(vec![
                Span::styled("│ ", Style::Accent),
                Span::raw("follow up"),
                Span::styled(" ", Style::Selection),
            ]),
        ]
    );
}

#[test]
fn command_rendering() {
    let composer = Composer::new("/");
    let component = ComposerComponent { composer: &composer, queued_inputs: &VecDeque::new() };

    assert_eq!(
        component.render(80),
        [
            LineComponent::from(vec![
                Span::styled("│ ", Style::Accent),
                Span::raw("/"),
                Span::styled(" ", Style::Selection),
            ]),
            LineComponent::blank(),
            LineComponent::from(vec![
                Span::styled("/clear", Style::Accent),
                Span::styled("  ", Style::Muted),
                Span::styled("Clear the transcript", Style::Muted),
            ]),
            LineComponent::from(vec![
                Span::styled("/quit", Style::Secondary),
                Span::styled("  ", Style::Muted),
                Span::styled("Quit kotomori", Style::Muted),
            ]),
        ]
    );
}

#[test]
fn cursor_inside_a_line_highlights_the_character_under_it() {
    let mut composer = Composer::new("ab\ncd");
    composer.input(kotomori::action::EditInput::key(kotomori::action::EditKey::Left));
    let component = ComposerComponent { composer: &composer, queued_inputs: &VecDeque::new() };

    assert_eq!(
        component.render(80),
        [
            LineComponent::from(vec![Span::styled("│ ", Style::Accent), Span::raw("ab")]),
            LineComponent::from(vec![
                Span::styled("│ ", Style::Accent),
                Span::raw("c"),
                Span::styled("d", Style::Selection),
            ]),
        ]
    );
}

#[test]
fn previews_are_cut_to_the_width_with_dots() {
    assert_eq!(TranscriptToolInvocationComponent::preview("foobarbaz", 8), "fooba...");
    assert_eq!(TranscriptToolInvocationComponent::preview("foobar", 8), "foobar");
    assert_eq!(TranscriptToolInvocationComponent::preview("foobar", 2), "...");
    assert_eq!(TranscriptToolInvocationComponent::preview("界界界界", 7), "界界...");
}
