use kotomori::approval_prompt::ApprovalPrompt;
use kotomori::approval_request::{ApprovalRequest, ToolApproval};
use kotomori::component::approval_prompt::ApprovalPromptComponent;
use kotomori::component::line::LineComponent;
use kotomori::input_mode::InputMode;
use kotomori::line::Line;
use kotomori::style::{Span, Style};
use kotomori::tool::{CommandTool, ToolInvocation, ToolInvocationKind};
use tokio::sync::oneshot;

fn request(command: &str) -> (ApprovalRequest, oneshot::Receiver<ToolApproval>) {
    ApprovalRequest::new(ToolInvocation {
        id: "foo".into(),
        kind: ToolInvocationKind::Command(CommandTool { command: command.into(), cwd: None }),
    })
}

#[test]
fn escapes_control_characters_in_command() {
    let (request, _response_receiver) = request("echo safe\r\x1b[2J\n? y approve");

    let line = ApprovalPromptComponent::new(&request).render(200).remove(0);

    let text = line.into_spans().iter().map(|span| span.text.as_str()).collect::<String>();

    assert_eq!(text, r"? Approve echo safe\r\u{1b}[2J\n? y approve?",);
}

#[test]
fn approval_prompt_asks_and_lists_the_answers() {
    let (request, _response_receiver) = request("ls");
    assert_eq!(
        ApprovalPromptComponent::new(&request).render(80),
        [
            LineComponent::from(vec![Span::styled("?", Style::Accent), Span::raw(" Approve ls?")]),
            LineComponent::from(vec![
                Span::styled("y", Style::Success),
                Span::styled(" approve · ", Style::Muted),
                Span::styled("n/Esc", Style::Danger),
                Span::styled(" deny", Style::Muted),
            ]),
        ]
    );
}

#[test]
fn plain_approval_prompt_is_framed() {
    let (request, _response_receiver) = request("ls");
    let lines = ApprovalPrompt::new(&request).render(40);
    assert_eq!(lines.len(), 4);
    assert_eq!(lines[0], Line::from(vec![Span::styled("─".repeat(40).as_str(), Style::DarkGray)]));
    assert_eq!(
        lines[1],
        Line::from(vec![Span::styled("?", Style::CyanBold), Span::raw(" Approve ls?")])
    );
}

#[test]
fn resolving_answers_the_request() {
    let (request, mut receiver) = request("ls");
    let mut mode = InputMode::Approval(request);
    assert!(mode.approval().is_some());
    assert_eq!(mode.resolve_approval(ToolApproval::Denied), Some(ToolApproval::Denied));
    assert!(mode.approval().is_none());
    assert_eq!(receiver.try_recv().unwrap(), ToolApproval::Denied);
}

#[test]
fn clearing_drops_the_request_unanswered() {
    let (request, mut receiver) = request("ls");
    let mut mode = InputMode::Approval(request);
    mode.clear_approval();
    assert!(mode.approval().is_none());
    assert!(receiver.try_recv().is_err());
    let mut compose = InputMode::default();
    assert_eq!(compose.resolve_approval(ToolApproval::Approved), None);
    assert!(compose.approval().is_none());
}

#[test]
fn responding_after_the_receiver_is_gone_gives_the_answer_back() {
    let (request, receiver) = request("ls");
    drop(receiver);
    assert_eq!(request.respond(ToolApproval::Approved), Err(ToolApproval::Approved));
}
