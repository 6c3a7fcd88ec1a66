//! The program's name and version, on plain-vector lines.

use vstd::prelude::*;

use crate::line::{Line, lines_of_view};
use crate::style::{Span, SpanView, Style, spans_view};

verus! {

/// The header's one line: the name in bold cyan and the version in dark gray.
pub open spec fn plain_header_line() -> Seq<SpanView> {
    seq![(Style::CyanBold, "kotomori"@), (Style::Plain, "  "@), (Style::DarkGray, "0.1.0"@)]
}

/// The program's name and version.
#[derive(Debug)]
pub struct Header;

impl Header {
    /// The header's line, whatever the width.
    pub fn render(&self, width: u16) -> (r: Vec<Line>)
        ensures
            lines_of_view(r@) == seq![plain_header_line()],
    {
        let spans = vec![
            Span::styled("kotomori", Style::CyanBold),
            Span::raw("  "),
            Span::styled("0.1.0", Style::DarkGray),
        ];
        let r = vec![Line::from(spans)];
        proof {
            assert(spans_view(spans@) =~= plain_header_line());
            assert(lines_of_view(r@) =~= seq![plain_header_line()]);
        }
        r
    }
}

} // verus!
