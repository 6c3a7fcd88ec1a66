//! The question asked before a tool call runs.

use vstd::prelude::*;

use crate::component::line::{
    LineComponent, append_lines, components_view, render_line,
};
use crate::style::{Span, SpanView, Style, spans_view};
use crate::approval_request::ApprovalRequest;
use crate::tool::{ToolInvocation, invocation_text};

verus! {

/// The question: whether to approve the call, which is shown escaped.
pub open spec fn approval_question(invocation: ToolInvocation) -> Seq<SpanView> {
    seq![
        (Style::Accent, "?"@),
        (Style::Plain, " Approve "@),
        (Style::Plain, invocation_text(invocation.kind)),
        (Style::Plain, "?"@),
    ]
}

/// The answers: `y` approves, `n` or escape denies.
pub open spec fn approval_answers() -> Seq<SpanView> {
    seq![
        (Style::Success, "y"@),
        (Style::Muted, " approve · "@),
        (Style::Danger, "n/Esc"@),
        (Style::Muted, " deny"@),
    ]
}

/// What the prompt renders to: the question and the answers, each wrapped
/// at the width.
pub open spec fn approval_spec(invocation: ToolInvocation, width: nat) -> Seq<Seq<SpanView>> {
    render_line(approval_question(invocation), width) + render_line(approval_answers(), width)
}

/// The question asked before a tool call runs.
#[derive(Debug)]
pub struct ApprovalPromptComponent<'a> {
    pub request: &'a ApprovalRequest,
}

impl<'a> ApprovalPromptComponent<'a> {
    /// Asks about the call of the given request.
    pub fn new(request: &'a ApprovalRequest) -> (r: ApprovalPromptComponent<'a>)
        ensures
            r.request == request,
    {
        ApprovalPromptComponent { request }
    }

    /// The question and the answers, wrapped at `width`.
    pub fn render(&self, width: u16) -> (r: Vec<LineComponent>)
        ensures
            components_view(r@) == approval_spec(self.request.requested(), width as nat),
    {
        let invocation = self.request.invocation();
        let question = vec![
            Span::styled("?", Style::Accent),
            Span::raw(" Approve "),
            Span { style: Style::Plain, text: invocation.to_display_string() },
            Span::raw("?"),
        ];
        assert(spans_view(question@) =~= approval_question(*invocation));
        let answers = vec![
            Span::styled("y", Style::Success),
            Span::styled(" approve · ", Style::Muted),
            Span::styled("n/Esc", Style::Danger),
            Span::styled(" deny", Style::Muted),
        ];
        assert(spans_view(answers@) =~= approval_answers());
        let mut r = LineComponent::from(question).render(width);
        append_lines(&mut r, LineComponent::from(answers).render(width));
        r
    }
}

} // verus!
