//! How to prompt and how to quit, on a plain-vector line.

use vstd::prelude::*;

use crate::line::{Line, lines_of_view};
use crate::style::{Span, SpanView, Style, spans_view};

verus! {

/// The hint's one line.
pub open spec fn plain_hint_line() -> Seq<SpanView> {
    seq![
        (Style::DarkGray, "Type a prompt. Press "@),
        (Style::Gray, "Ctrl-C"@),
        (Style::DarkGray, " to quit."@),
    ]
}

/// How to prompt and how to quit.
#[derive(Debug)]
pub struct Hint;

impl Hint {
    /// The hint's line, whatever the width.
    pub fn render(&self, width: u16) -> (r: Vec<Line>)
        ensures
            lines_of_view(r@) == seq![plain_hint_line()],
    {
        let spans = vec![
            Span::styled("Type a prompt. Press ", Style::DarkGray),
            Span::styled("Ctrl-C", Style::Gray),
            Span::styled(" to quit.", Style::DarkGray),
        ];
        let r = vec![Line::from(spans)];
        proof {
            assert(spans_view(spans@) =~= plain_hint_line());
            assert(lines_of_view(r@) =~= seq![plain_hint_line()]);
        }
        r
    }
}

} // verus!
