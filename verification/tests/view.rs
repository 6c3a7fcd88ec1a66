use kotomori::approval_request::ApprovalRequest;
use kotomori::component::line::LineComponent;
use kotomori::component::resume_picker::{ResumePicker, SessionEntry};
use kotomori::component::view::{Screen, SessionScreen, ViewComponent};
use kotomori::composer::Composer;
use kotomori::model::Model;
use kotomori::style::{Span, Style};
use kotomori::tool::{CommandTool, ToolInvocation, ToolInvocationKind};
use kotomori::transcript::{Run, Transcript};
use std::collections::VecDeque;
use unicode_width::UnicodeWidthStr;

fn render_session(
    composer: &Composer,
    run: Option<&Run>,
    approval: Option<&ApprovalRequest>,
    width: u16,
) -> Vec<LineComponent> {
    let transcript = Transcript::default();
    let queued = VecDeque::new();
    let model: Model = "mock:local".parse().unwrap();
    let screen = Screen::Session(SessionScreen {
        transcript: &transcript,
        active_run: run,
        queued_inputs: &queued,
        approval,
        composer,
        model: &model,
        directory: "/",
    });
    ViewComponent::new(&screen, None).render(width)
}

#[test]
fn composer_renders_while_agent_is_active() {
    let run = Run::new(0);
    let composer = Composer::new("foo");

    assert!(
        render_session(&composer, Some(&run), None, 80)
            .iter()
            .any(|line| line.to_display_string().contains("mock · local ·"))
    );
}

#[test]
fn content_has_two_columns_of_side_padding() {
    let composer = Composer::new("");
    let lines = render_session(&composer, None, None, 20);

    for line in lines.into_iter().filter(|line| !line.is_blank()) {
        let spans = line.into_spans();

        let width = spans
            .iter()
            .map(|span| UnicodeWidthStr::width(span.text.as_str()))
            .sum::<usize>();

        assert!(width <= 18);

        assert_eq!(spans.first().unwrap().text.chars().take(2).collect::<String>(), "  ");
    }
}

#[test]
fn footer_renders_below_approval_prompt() {
    let composer = Composer::new("foo");
    let run = Run::new(0);
    let (request, _response_receiver) = ApprovalRequest::new(ToolInvocation {
        id: "foo".into(),
        kind: ToolInvocationKind::Command(CommandTool { command: "bar".into(), cwd: None }),
    });

    let lines = render_session(&composer, Some(&run), Some(&request), 80);

    let approval = lines
        .iter()
        .position(|line| line.to_display_string().contains("deny"))
        .unwrap();

    let footer = lines
        .iter()
        .position(|line| line.to_display_string().contains("mock · local ·"))
        .unwrap();

    assert!(lines[footer - 1].is_blank());

    assert_eq!(footer, approval + 2);
}

#[test]
fn footer_renders_below_command_menu() {
    let composer = Composer::new("/");
    let lines = render_session(&composer, None, None, 80);

    let command = lines
        .iter()
        .position(|line| line.to_display_string().contains("/quit"))
        .unwrap();

    let footer = lines
        .iter()
        .position(|line| line.to_display_string().contains("mock · local ·"))
        .unwrap();

    assert!(footer > command + 1);
    assert!(lines[footer - 1].is_blank());
}

#[test]
fn layout_preserves_styles_when_wide_characters_exceed_content_width() {
    assert_eq!(
        ViewComponent::layout(vec![LineComponent::from(vec![Span::styled("界", Style::Accent)])], 3),
        [
            LineComponent::raw("  "),
            LineComponent::from(vec![Span::styled("界", Style::Accent)]),
        ],
    );
}

fn layout_case(width: u16, expected: &[&str]) {
    assert_eq!(
        ViewComponent::layout(vec![LineComponent::blank(), LineComponent::raw("foo")], width),
        expected.iter().copied().map(LineComponent::raw).collect::<Vec<_>>(),
    );
}

#[test]
fn layout_wraps_padding_at_narrow_widths() {
    layout_case(0, &["", " ", " ", "f", " ", " ", "o", " ", " ", "o"]);
    layout_case(1, &["", " ", " ", "f", " ", " ", "o", " ", " ", "o"]);
    layout_case(2, &["", "  ", "f", "  ", "o", "  ", "o"]);
    layout_case(3, &["", "  f", "  o", "  o"]);
    layout_case(4, &["", "  f", "  o", "  o"]);
    layout_case(5, &["", "  f", "  o", "  o"]);
    layout_case(6, &["", "  fo", "  o"]);
    layout_case(7, &["", "  foo"]);
}

#[test]
fn quitting_shows_nothing() {
    assert!(ViewComponent::new(&Screen::Quit, None).render(80).is_empty());
}

#[test]
fn approval_prompt_escapes_control_characters_in_command() {
    let composer = Composer::new("");
    let (request, _response_receiver) = ApprovalRequest::new(ToolInvocation {
        id: "foo".into(),
        kind: ToolInvocationKind::Command(CommandTool {
            command: "echo safe\r\x1b[2J\n? y approve".into(),
            cwd: None,
        }),
    });
    let run = Run::new(0);
    let lines = render_session(&composer, Some(&run), Some(&request), 200);
    let line = lines
        .into_iter()
        .find(|line| line.to_display_string().contains("Approve"))
        .unwrap();
    let text = line.into_spans().iter().map(|span| span.text.as_str()).collect::<String>();
    assert_eq!(text, r"  ? Approve echo safe\r\u{1b}[2J\n? y approve?");
}

#[test]
fn resume_picker_lists_matching_sessions() {
    let picker = ResumePicker {
        query: "fo".into(),
        selected: 1,
        matches: vec![
            SessionEntry { title: Some("foo".into()), detail: "1 minute ago".into() },
            SessionEntry { title: None, detail: "2 days ago".into() },
        ],
    };
    let lines = ViewComponent::new(&Screen::Resume(&picker), None).render(80);
    let texts = lines.iter().map(|line| line.to_display_string()).collect::<Vec<_>>();
    assert_eq!(texts.len(), 9);
    assert_eq!(texts[0], "");
    assert_eq!(
        lines[8],
        LineComponent::from(vec![
            Span::raw("  "),
            Span::styled("> Untitled session", Style::CyanBold),
            Span::styled("  2 days ago", Style::DarkGray),
        ])
    );
    assert_eq!(
        lines[5],
        LineComponent::from(vec![
            Span::styled("  ", Style::Plain),
            Span::styled("Search: ", Style::DarkGray),
            Span::raw("fo"),
            Span::styled(" ", Style::Reverse),
        ])
    );
    assert_eq!(
        lines[7],
        LineComponent::from(vec![
            Span::raw("  "),
            Span::styled("  foo", Style::Gray),
            Span::styled("  1 minute ago", Style::DarkGray),
        ])
    );
}

#[test]
fn resume_picker_without_matches_says_so() {
    let picker = ResumePicker { query: "x".into(), selected: 0, matches: Vec::new() };
    let lines = ViewComponent::new(&Screen::Resume(&picker), None).render(80);
    assert_eq!(
        lines.last().unwrap(),
        &LineComponent::from(vec![
            Span::raw("  "),
            Span::styled("No matching sessions.", Style::DarkGray),
        ])
    );
}
