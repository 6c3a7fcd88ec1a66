//! Lines between two horizontal rules.

use vstd::prelude::*;

use crate::component::line::{
    LineComponent, append_lines, components_view, push_line, raw_line_components, raw_lines,
    render_all, render_each,
};
use crate::style::{Span, SpanView, Style};
use crate::text::push_char;

verus! {

/// A rule of `width` box-drawing characters.
pub open spec fn rule(width: nat) -> Seq<char> {
    Seq::new(width, |_i: int| '─')
}

/// The line of a rule: the rule in dark gray.
pub open spec fn rule_line(width: nat) -> Seq<SpanView> {
    seq![(Style::DarkGray, rule(width))]
}

/// A width of at least one column.
pub open spec fn at_least_one(width: nat) -> nat {
    if width == 0 {
        1
    } else {
        width
    }
}

/// What framed lines render to: a rule, the lines wrapped at the width, and
/// a rule, all at least one column wide.
pub open spec fn framed_spec(lines: Seq<Seq<SpanView>>, width: nat) -> Seq<Seq<SpanView>> {
    let w = at_least_one(width);
    seq![rule_line(w)] + render_all(lines, w) + seq![rule_line(w)]
}

/// A string of `width` box-drawing characters.
pub fn rule_string(width: u16) -> (r: String)
    ensures
        r@ == rule(width as nat),
{
    let mut r = String::new();
    let mut i: u16 = 0;
    while i < width
        invariant
            i <= width,
            r@ == rule(i as nat),
        decreases width - i,
    {
        push_char(&mut r, '─');
        assert(r@ =~= rule((i + 1) as nat));
        i = i + 1;
    }
    r
}

/// Lines between two horizontal rules.
#[derive(Debug)]
pub struct FramedLinesComponent {
    pub lines: Vec<LineComponent>,
}

impl FramedLinesComponent {
    /// Frames the given lines.
    pub fn new(lines: Vec<LineComponent>) -> (r: FramedLinesComponent)
        ensures
            r.lines@ == lines@,
    {
        FramedLinesComponent { lines }
    }

    /// Frames unstyled lines of the given texts.
    pub fn raw(texts: Vec<String>) -> (r: FramedLinesComponent)
        ensures
            components_view(r.lines@) == raw_lines(texts@.map_values(|t: String| t@)),
    {
        FramedLinesComponent { lines: raw_line_components(&texts) }
    }

    /// A rule, the lines wrapped at `width`, and a rule.
    pub fn render(&self, width: u16) -> (r: Vec<LineComponent>)
        ensures
            components_view(r@) == framed_spec(components_view(self.lines@), width as nat),
    {
        let width = if width == 0 { 1 } else { width };
        let border = rule_string(width);
        let mut r: Vec<LineComponent> = Vec::new();
        let spans = vec![Span { style: Style::DarkGray, text: border }];
        assert(crate::style::spans_view(spans@) =~= rule_line(width as nat));
        push_line(&mut r, LineComponent::from(spans));
        proof {
            assert(components_view(r@) =~= seq![rule_line(width as nat)]);
        }
        let body = render_each(&self.lines, width);
        append_lines(&mut r, body);
        let border = rule_string(width);
        let spans = vec![Span { style: Style::DarkGray, text: border }];
        assert(crate::style::spans_view(spans@) =~= rule_line(width as nat));
        push_line(&mut r, LineComponent::from(spans));
        proof {
            assert(components_view(r@) =~= framed_spec(components_view(self.lines@), width as nat));
        }
        r
    }
}

} // verus!
