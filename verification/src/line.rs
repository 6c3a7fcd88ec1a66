//! A line of styled text held in a plain vector, and how it wraps to a
//! width.

use vstd::prelude::*;

use crate::style::{Span, SpanView, Style, display_spans, spans_view};
use crate::wrap::{lemma_wrapping_is_chosen, lines_view, spans_cells, wrap_spans, wrapping_of};

verus! {

/// A line of styled text.
#[derive(Clone, Debug, PartialEq, Eq)]
pub struct Line {
    spans: Vec<Span>,
}

impl View for Line {
    type V = Seq<SpanView>;

    closed spec fn view(&self) -> Seq<SpanView> {
        spans_view(self.spans@)
    }
}

/// The views of a sequence of lines.
pub open spec fn lines_of_view(lines: Seq<Line>) -> Seq<Seq<SpanView>> {
    lines.map_values(|l: Line| l@)
}

/// What a line renders to at `width` columns (at least one): its cells
/// wrapped greedily.  A line without text renders as one line of no spans.
pub open spec fn line_render_spec(spans: Seq<SpanView>, width: nat) -> Seq<Seq<SpanView>> {
    wrapping_of(spans_cells(spans), if width == 0 { 1 } else { width })
}

impl Line {
    /// A line with no text: one unstyled, empty span.
    pub fn blank() -> (r: Line)
        ensures
            r@ == seq![(Style::Plain, Seq::<char>::empty())],
    {
        let r = Line::raw("");
        proof {
            reveal_strlit("");
            assert(""@ =~= Seq::<char>::empty());
        }
        r
    }

    /// A line of unstyled text.
    pub fn raw(text: &str) -> (r: Line)
        ensures
            r@ == seq![(Style::Plain, text@)],
    {
        let r = Line { spans: vec![Span::raw(text)] };
        assert(r@ =~= seq![(Style::Plain, text@)]);
        r
    }

    /// A line of the given spans.
    pub fn from(spans: Vec<Span>) -> (r: Line)
        ensures
            r@ == spans_view(spans@),
    {
        Line { spans }
    }

    /// The spans of the line.
    pub fn into_spans(self) -> (r: Vec<Span>)
        ensures
            spans_view(r@) == self@,
    {
        self.spans
    }

    /// The line broken into lines of at most `width` columns (at least one).
    pub fn render(&self, width: u16) -> (r: Vec<Line>)
        ensures
            lines_of_view(r@) == line_render_spec(self@, width as nat),
    {
        let max_width: usize = if width == 0 { 1 } else { width as usize };
        let pieces = wrap_spans(&self.spans, max_width);
        proof {
            lemma_wrapping_is_chosen(lines_view(pieces@), spans_cells(self@), max_width as nat);
        }
        let ghost all = lines_view(pieces@);
        let n = pieces.len();
        let mut rest = pieces;
        let mut rev: Vec<Vec<Span>> = Vec::new();
        while rest.len() > 0
            invariant
                rev@.len() + rest@.len() == n,
                all.len() == n,
                forall|j: int| 0 <= j < rest@.len() ==> spans_view(#[trigger] rest@[j]@) == all[j],
                forall|j: int|
                    0 <= j < rev@.len() ==> spans_view(#[trigger] rev@[j]@) == all[n - 1 - j],
            decreases rest.len(),
        {
            let l = rest.pop().unwrap();
            rev.push(l);
        }
        let mut r: Vec<Line> = Vec::new();
        while rev.len() > 0
            invariant
                rev@.len() + r@.len() == n,
                all.len() == n,
                forall|j: int|
                    0 <= j < rev@.len() ==> spans_view(#[trigger] rev@[j]@) == all[n - 1 - j],
                forall|j: int| 0 <= j < r@.len() ==> (#[trigger] r@[j])@ == all[j],
            decreases rev.len(),
        {
            let l = rev.pop().unwrap();
            r.push(Line { spans: l });
        }
        assert(lines_of_view(r@) =~= all);
        r
    }

    /// How the line is written to the terminal.
    pub fn to_display_string(&self) -> (r: String)
        ensures
            r@ == display_spans(self@),
    {
        let n = self.spans.len();
        let mut out = String::new();
        assert(self@.take(0) =~= Seq::<SpanView>::empty());
        for i in 0..n
            invariant
                n == self@.len(),
                self@ == spans_view(self.spans@),
                out@ == display_spans(self@.take(i as int)),
        {
            self.spans[i].write_to(&mut out);
            assert(self@.take(i + 1).drop_last() =~= self@.take(i as int));
        }
        assert(self@.take(n as int) =~= self@);
        out
    }
}

} // verus!
