//! The question asked before a tool call runs, between two rules on
//! plain-vector lines.

use vstd::prelude::*;

use crate::framed_lines::{FramedLines, framed_lines_spec};
use crate::line::{Line, lines_of_view};
use crate::style::{Span, SpanView, Style, spans_view};
use crate::approval_request::ApprovalRequest;
use crate::tool::{ToolInvocation, invocation_text};

verus! {

/// The question: whether to approve the call, which is shown escaped.
pub open spec fn plain_approval_question(invocation: ToolInvocation) -> Seq<SpanView> {
    seq![
        (Style::CyanBold, "?"@),
        (Style::Plain, " Approve "@),
        (Style::Plain, invocation_text(invocation.kind)),
        (Style::Plain, "?"@),
    ]
}

/// The answers: `y` approves, `n` or escape denies.
pub open spec fn plain_approval_answers() -> Seq<SpanView> {
    seq![
        (Style::GreenBold, "y"@),
        (Style::DarkGray, " approve  "@),
        (Style::RedBold, "n"@),
        (Style::DarkGray, " deny  "@),
        (Style::RedBold, "esc"@),
        (Style::DarkGray, " deny"@),
    ]
}

/// The question asked before a tool call runs.
#[derive(Debug)]
pub struct ApprovalPrompt<'a> {
    pub request: &'a ApprovalRequest,
}

impl<'a> ApprovalPrompt<'a> {
    /// Asks about the call of the given request.
    pub fn new(request: &'a ApprovalRequest) -> (r: ApprovalPrompt<'a>)
        ensures
            r.request == request,
    {
        ApprovalPrompt { request }
    }

    /// The question and the answers, between two rules, wrapped at `width`.
    pub fn render(&self, width: u16) -> (r: Vec<Line>)
        ensures
            lines_of_view(r@) == framed_lines_spec(
                seq![plain_approval_question(self.request.requested()), plain_approval_answers()],
                width as nat,
            ),
    {
        let invocation = self.request.invocation();
        let question = vec![
            Span::styled("?", Style::CyanBold),
            Span::raw(" Approve "),
            Span { style: Style::Plain, text: invocation.to_display_string() },
            Span::raw("?"),
        ];
        assert(spans_view(question@) =~= plain_approval_question(*invocation));
        let answers = vec![
            Span::styled("y", Style::GreenBold),
            Span::styled(" approve  ", Style::DarkGray),
            Span::styled("n", Style::RedBold),
            Span::styled(" deny  ", Style::DarkGray),
            Span::styled("esc", Style::RedBold),
            Span::styled(" deny", Style::DarkGray),
        ];
        assert(spans_view(answers@) =~= plain_approval_answers());
        let lines = vec![Line::from(question), Line::from(answers)];
        let framed = FramedLines::new(lines);
        assert(lines_of_view(framed.lines@) =~= seq![
            plain_approval_question(*invocation),
            plain_approval_answers(),
        ]);
        framed.render(width)
    }
}

} // verus!
