//! An error entry of the transcript.

use vstd::prelude::*;

use crate::component::line::{
    LineComponent, append_lines, components_view, push_line, render_all_prefixed,
    render_each_prefixed, raw_line_components, raw_lines,
};
use crate::style::{Span, SpanView, Style};
use crate::text::{lines_of, lines_str};

verus! {

/// The error's title line: a red dot and `Error`.
pub open spec fn error_title() -> Seq<SpanView> {
    seq![
        (Style::Danger, seq!['●']),
        (Style::Plain, seq![' ']),
        (Style::Plain, seq!['E', 'r', 'r', 'o', 'r']),
    ]
}

/// The gutter of the error's detail lines.
pub open spec fn error_gutter() -> SpanView {
    (Style::Muted, seq![' ', ' ', '│', ' '])
}

/// Four columns fewer, but at least one.
pub open spec fn detail_width(width: nat) -> nat {
    if width >= 5 {
        (width - 4) as nat
    } else {
        1
    }
}

/// What an error renders to: the title, then each line of the error wrapped
/// four columns narrower behind a muted gutter.
pub open spec fn error_spec(error: Seq<char>, width: nat) -> Seq<Seq<SpanView>> {
    seq![error_title()] + render_all_prefixed(
        raw_lines(lines_of(error)),
        detail_width(width),
        error_gutter(),
    )
}

/// An error entry of the transcript.
#[derive(Debug)]
pub struct TranscriptErrorComponent<'a> {
    pub error: &'a str,
}

impl<'a> TranscriptErrorComponent<'a> {
    /// The component of an error message.
    pub fn new(error: &'a str) -> (r: TranscriptErrorComponent<'a>)
        ensures
            r.error == error,
    {
        TranscriptErrorComponent { error }
    }

    /// The title, then the error's lines behind a gutter.
    pub fn render(&self, width: u16) -> (r: Vec<LineComponent>)
        ensures
            components_view(r@) == error_spec(self.error@, width as nat),
    {
        proof {
            reveal_strlit("●");
            reveal_strlit(" ");
            reveal_strlit("Error");
            reveal_strlit("  │ ");
            assert("  │ "@ =~= seq![' ', ' ', '│', ' ']);
        }
        let mut r: Vec<LineComponent> = Vec::new();
        proof {
            assert("●"@ =~= seq!['●']);
            assert(" "@ =~= seq![' ']);
            assert("Error"@ =~= seq!['E', 'r', 'r', 'o', 'r']);
        }
        let spans = vec![Span::styled("●", Style::Danger), Span::raw(" "), Span::raw("Error")];
        assert(crate::style::spans_view(spans@) =~= error_title());
        push_line(&mut r, LineComponent::from(spans));
        proof {
            assert(components_view(r@) =~= seq![error_title()]);
        }
        let detail_width: u16 = if width >= 5 { width - 4 } else { 1 };
        let lines = lines_str(self.error);
        let components = raw_line_components(&lines);
        proof {
            assert(lines@.map_values(|t: String| t@) =~= lines_of(self.error@));
        }
        let gutter = Span::styled("  │ ", Style::Muted);
        let details = render_each_prefixed(&components, detail_width, &gutter);
        append_lines(&mut r, details);
        r
    }
}

} // verus!
