//! Lines behind an accent gutter.

use vstd::prelude::*;

use crate::component::line::{
    LineComponent, components_view, raw_line_components, raw_lines, render_all_prefixed,
    render_each_prefixed,
};
use crate::style::{Span, SpanView, Style};

verus! {

/// The gutter: an accent bar and a space.
pub open spec fn gutter() -> SpanView {
    (Style::Accent, seq!['│', ' '])
}

/// Two columns fewer, but at least one.
pub open spec fn gutter_content_width(width: nat) -> nat {
    if width >= 3 {
        (width - 2) as nat
    } else {
        1
    }
}

/// What guttered lines render to: each line wrapped two columns narrower,
/// behind the gutter.
pub open spec fn guttered_spec(lines: Seq<Seq<SpanView>>, width: nat) -> Seq<Seq<SpanView>> {
    render_all_prefixed(lines, gutter_content_width(width), gutter())
}

/// Lines behind an accent gutter.
#[derive(Debug)]
pub struct GutteredLinesComponent {
    pub lines: Vec<LineComponent>,
}

impl GutteredLinesComponent {
    /// Puts the given lines behind a gutter.
    pub fn new(lines: Vec<LineComponent>) -> (r: GutteredLinesComponent)
        ensures
            r.lines@ == lines@,
    {
        GutteredLinesComponent { lines }
    }

    /// Puts unstyled lines of the given texts behind a gutter.
    pub fn raw(texts: Vec<String>) -> (r: GutteredLinesComponent)
        ensures
            components_view(r.lines@) == raw_lines(texts@.map_values(|t: String| t@)),
    {
        GutteredLinesComponent { lines: raw_line_components(&texts) }
    }

    /// Each line wrapped two columns narrower, behind the gutter.
    pub fn render(&self, width: u16) -> (r: Vec<LineComponent>)
        ensures
            components_view(r@) == guttered_spec(components_view(self.lines@), width as nat),
    {
        let content_width: u16 = if width >= 3 { width - 2 } else { 1 };
        proof {
            reveal_strlit("│ ");
            assert("│ "@ =~= seq!['│', ' ']);
        }
        let gutter = Span::styled("│ ", Style::Accent);
        render_each_prefixed(&self.lines, content_width, &gutter)
    }
}

} // verus!
