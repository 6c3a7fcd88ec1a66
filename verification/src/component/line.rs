//! One line of styled text, and how it wraps to a width.

use vstd::prelude::*;

use crate::span_list::{SpanList, span_list_contents};
use crate::style::{Span, SpanView, Style, display_spans, spans_view};
use crate::text::chars_of;
use crate::wrap::{
    Cell, cells_within, is_wrapping, lemma_spans_cells_concat, lines_cells, lemma_spans_cells_empty, lemma_spans_view_push, lemma_wrapping_exists, lemma_wrapping_is_chosen, cells_width,
    law_wrapped_line_overflows_by_one_char, lemma_cells_width_empty,
    lines_view, span_cells, spans_cells, wrap_cells, wrapping_of,
};

verus! {

/// A line of styled text.
#[derive(Debug, PartialEq, Eq)]
pub struct LineComponent {
    spans: SpanList,
}

impl View for LineComponent {
    type V = Seq<SpanView>;

    closed spec fn view(&self) -> Seq<SpanView> {
        spans_view(span_list_contents(self.spans))
    }
}

/// The spans of an empty line: one unstyled span with no text.
pub open spec fn blank_line() -> Seq<SpanView> {
    seq![(Style::Plain, Seq::<char>::empty())]
}

/// The views of a sequence of lines.
pub open spec fn components_view(lines: Seq<LineComponent>) -> Seq<Seq<SpanView>> {
    lines.map_values(|l: LineComponent| l@)
}

/// What a line renders to at `width` columns (at least one): its cells
/// wrapped greedily, or a single blank line when it has no text.
pub open spec fn render_line(spans: Seq<SpanView>, width: nat) -> Seq<Seq<SpanView>> {
    let cells = spans_cells(spans);
    if cells.len() == 0 {
        seq![blank_line()]
    } else {
        wrapping_of(cells, if width == 0 { 1 } else { width })
    }
}

/// Rendering keeps the text: the rendered lines hold every character of a
/// line with text, in order and in its style, at any width.
pub proof fn law_render_keeps_cells(spans: Seq<SpanView>, width: nat)
    requires
        spans_cells(spans).len() > 0,
    ensures
        lines_cells(render_line(spans, width)) == spans_cells(spans),
{
    lemma_wrapping_exists(spans_cells(spans), if width == 0 { 1 } else { width });
}

/// Rendered lines fit the width (at least one column): a line is wider only
/// when a single character, wider than the width on its own, follows
/// characters that take no columns.
pub proof fn law_rendered_lines_fit(spans: Seq<SpanView>, width: nat, k: int)
    requires
        0 <= k < render_line(spans, width).len(),
    ensures
        cells_width(spans_cells(render_line(spans, width)[k])) <= (if width == 0 {
            1
        } else {
            width
        }) || cells_width(spans_cells(render_line(spans, width)[k]).drop_last()) == 0,
{
    let w: nat = if width == 0 { 1 } else { width };
    if spans_cells(spans).len() == 0 {
        lemma_spans_cells_empty(blank_line());
        assert(blank_line()[0].1.len() == 0);
        assert(spans_cells(blank_line()).len() == 0);
        assert(spans_cells(blank_line()) =~= Seq::<Cell>::empty());
        lemma_cells_width_empty();
    } else {
        lemma_wrapping_exists(spans_cells(spans), w);
        let line = render_line(spans, width)[k];
        if cells_width(spans_cells(line)) > w {
            law_wrapped_line_overflows_by_one_char(spans_cells(line), w);
        }
    }
}

/// Each rendered line with `prefix` put in front of it.
pub open spec fn prefix_lines(lines: Seq<Seq<SpanView>>, prefix: SpanView) -> Seq<Seq<SpanView>> {
    lines.map_values(|l: Seq<SpanView>| seq![prefix] + l)
}

proof fn lemma_components_view_push(lines: Seq<LineComponent>, l: LineComponent)
    ensures
        components_view(lines.push(l)) == components_view(lines).push(l@),
{
    assert(components_view(lines.push(l)) =~= components_view(lines).push(l@));
}

impl LineComponent {
    /// A line with no text.
    pub fn blank() -> (r: LineComponent)
        ensures
            r@ == blank_line(),
    {
        let r = LineComponent::raw("");
        proof {
            reveal_strlit("");
            assert(""@ =~= Seq::<char>::empty());
            assert(r@ =~= blank_line());
        }
        r
    }

    /// A line of unstyled text.
    pub fn raw(text: &str) -> (r: LineComponent)
        ensures
            r@ == seq![(Style::Plain, text@)],
    {
        let spans = vec![Span::raw(text)];
        let r = LineComponent { spans: SpanList::from_spans(spans) };
        proof {
            assert(r@ =~= seq![(Style::Plain, text@)]);
        }
        r
    }

    /// A line of the given spans.
    pub fn from(spans: Vec<Span>) -> (r: LineComponent)
        ensures
            r@ == spans_view(spans@),
    {
        LineComponent { spans: SpanList::from_spans(spans) }
    }

    /// The spans of the line.
    pub fn into_spans(self) -> (r: Vec<Span>)
        ensures
            spans_view(r@) == self@,
    {
        self.spans.into_vec()
    }

    /// Whether the line's spans have moved from inline storage to the heap:
    /// exactly when it has more than six spans.
    pub fn spilled(&self) -> (r: bool)
        ensures
            r == (self@.len() > 6),
    {
        self.spans.spilled()
    }

    /// A copy of the line.
    pub fn copy(&self) -> (r: LineComponent)
        ensures
            r@ == self@,
    {
        let n = self.spans.len();
        let mut spans: Vec<Span> = Vec::new();
        for i in 0..n
            invariant
                n == span_list_contents(self.spans).len(),
                spans_view(spans@) == self@.take(i as int),
        {
            let s = self.spans.get(i).copy();
            proof {
                lemma_spans_view_push(spans@, s);
            }
            spans.push(s);
            assert(spans_view(spans@) =~= self@.take(i + 1));
        }
        assert(self@.take(n as int) =~= self@);
        LineComponent::from(spans)
    }

    /// Whether the line has no text.
    pub fn is_blank(&self) -> (r: bool)
        ensures
            r == (spans_cells(self@).len() == 0),
    {
        proof {
            lemma_spans_cells_empty(self@);
        }
        let n = self.spans.len();
        for i in 0..n
            invariant
                n == self@.len(),
                forall|j: int| 0 <= j < i ==> (#[trigger] self@[j]).1.len() == 0,
        {
            if !self.spans.get(i).text.as_str().is_empty() {
                assert(self@[i as int].1.len() > 0);
                proof {
                    lemma_spans_cells_empty(self@);
                }
                return false;
            }
        }
        true
    }

    /// The cells of the line, one styled character each.
    pub fn cells(&self) -> (r: Vec<Cell>)
        ensures
            r@ == spans_cells(self@),
    {
        let n = self.spans.len();
        let mut cells: Vec<Cell> = Vec::new();
        proof {
            lemma_spans_cells_concat(Seq::<SpanView>::empty(), Seq::<SpanView>::empty());
            assert(self@.take(0) =~= Seq::<SpanView>::empty());
            assert(Seq::<SpanView>::empty() + Seq::<SpanView>::empty() =~= Seq::<SpanView>::empty());
        }
        for k in 0..n
            invariant
                n == self@.len(),
                cells@ == spans_cells(self@.take(k as int)),
        {
            let span = self.spans.get(k);
            let chars = chars_of(span.text.as_str());
            let m = chars.len();
            let ghost before = cells@;
            for j in 0..m
                invariant
                    m == chars@.len(),
                    chars@ == span.text@,
                    cells@ == before + span_cells(span@).take(j as int),
            {
                cells.push((span.style, chars[j]));
                assert(span_cells(span@).take(j + 1) == span_cells(span@).take(j as int).push(
                    (span.style, chars@[j as int]),
                ));
            }
            proof {
                assert(span_cells(span@).take(m as int) == span_cells(span@));
                assert(self@.take(k + 1) == self@.take(k as int) + seq![self@[k as int]]);
                lemma_spans_cells_concat(self@.take(k as int), seq![self@[k as int]]);
                lemma_spans_cells_concat(Seq::<SpanView>::empty(), seq![self@[k as int]]);
                assert(Seq::<SpanView>::empty() + seq![self@[k as int]] =~= seq![self@[k as int]]);
                assert(seq![self@[k as int]] == Seq::<SpanView>::empty().push(self@[k as int]));
                crate::wrap::lemma_spans_cells_single(self@[k as int]);
            }
        }
        assert(self@.take(n as int) =~= self@);
        cells
    }

    /// The line broken into lines of at most `width` columns (at least one);
    /// a line with no text renders as one blank line.
    pub fn render(&self, width: u16) -> (r: Vec<LineComponent>)
        ensures
            components_view(r@) == render_line(self@, width as nat),
            spans_cells(self@).len() > 0 ==> lines_cells(components_view(r@)) == spans_cells(
                self@,
            ),
            cells_within(spans_cells(self@), 3),
    {
        let max_width: usize = if width == 0 { 1 } else { width as usize };
        let cells = self.cells();
        if cells.len() == 0 {
            let r = vec![LineComponent::blank()];
            proof {
                assert(components_view(r@) =~= seq![blank_line()]);
            }
            return r;
        }
        let lines = wrap_cells(&cells, max_width);
        proof {
            lemma_wrapping_is_chosen(lines_view(lines@), cells@, max_width as nat);
        }
        let ghost lv = lines_view(lines@);
        let n = lines.len();
        let mut r: Vec<LineComponent> = Vec::new();
        let mut rest = lines;
        let mut i: usize = 0;
        let ghost all = lines_view(rest@);
        // take the lines from the front
        let mut rev: Vec<Vec<Span>> = Vec::new();
        while rest.len() > 0
            invariant
                lv == all,
                rev@.len() + rest@.len() == n,
                all.len() == n,
                forall|j: int| 0 <= j < rest@.len() ==> spans_view(#[trigger] rest@[j]@) == all[j],
                forall|j: int|
                    0 <= j < rev@.len() ==> spans_view(#[trigger] rev@[j]@) == all[n - 1 - j],
            decreases rest.len(),
        {
            let l = rest.pop().unwrap();
            rev.push(l);
        }
        while rev.len() > 0
            invariant
                rev@.len() + r@.len() == n,
                all.len() == n,
                forall|j: int|
                    0 <= j < rev@.len() ==> spans_view(#[trigger] rev@[j]@) == all[n - 1 - j],
                forall|j: int| 0 <= j < r@.len() ==> (#[trigger] r@[j])@ == all[j],
            decreases rev.len(),
        {
            let l = rev.pop().unwrap();
            r.push(LineComponent::from(l));
        }
        proof {
            assert(components_view(r@) =~= all);
        }
        r
    }

    /// The line rendered at `width` columns with `prefix` put in front of
    /// each rendered line.
    pub fn render_prefixed(&self, width: u16, prefix: &Span) -> (r: Vec<LineComponent>)
        ensures
            components_view(r@) == prefix_lines(render_line(self@, width as nat), prefix@),
            cells_within(spans_cells(self@), 3),
    {
        let lines = self.render(width);
        let ghost lv = components_view(lines@);
        let n = lines.len();
        let mut r: Vec<LineComponent> = Vec::new();
        for i in 0..n
            invariant
                n == lines@.len(),
                lv == components_view(lines@),
                components_view(r@) == prefix_lines(lv, prefix@).take(i as int),
        {
            let line = &lines[i];
            let m = line.spans.len();
            let mut spans: Vec<Span> = vec![prefix.copy()];
            assert(spans_view(spans@) =~= seq![prefix@] + line@.take(0));
            for k in 0..m
                invariant
                    m == line@.len(),
                    spans_view(spans@) == seq![prefix@] + line@.take(k as int),
            {
                let s = line.spans.get(k).copy();
                proof {
                    lemma_spans_view_push(spans@, s);
                }
                spans.push(s);
                assert(spans_view(spans@) =~= seq![prefix@] + line@.take(k + 1));
            }
            assert(line@.take(m as int) =~= line@);
            let ghost before = r@;
            r.push(LineComponent::from(spans));
            proof {
                assert(lv[i as int] == line@);
                assert(r@ == before.push(r@.last()));
                lemma_components_view_push(before, r@.last());
                assert(components_view(r@) =~= prefix_lines(lv, prefix@).take(i + 1));
            }
        }
        assert(prefix_lines(lv, prefix@).take(n as int) =~= prefix_lines(lv, prefix@));
        r
    }

    /// How the line is written to the terminal.
    pub fn to_display_string(&self) -> (r: String)
        ensures
            r@ == display_spans(self@),
    {
        let n = self.spans.len();
        let mut out = String::new();
        proof {
            assert(self@.take(0) =~= Seq::<SpanView>::empty());
        }
        for i in 0..n
            invariant
                n == self@.len(),
                out@ == display_spans(self@.take(i as int)),
        {
            self.spans.get(i).write_to(&mut out);
            proof {
                assert(self@.take(i + 1).drop_last() =~= self@.take(i as int));
            }
        }
        assert(self@.take(n as int) =~= self@);
        out
    }
}


/// Every line rendered at `width`, one after another.
pub open spec fn render_all(lines: Seq<Seq<SpanView>>, width: nat) -> Seq<Seq<SpanView>>
    decreases lines.len(),
{
    if lines.len() == 0 {
        Seq::<Seq<SpanView>>::empty()
    } else {
        render_all(lines.drop_last(), width) + render_line(lines.last(), width)
    }
}

/// Every line rendered at `width` with `prefix` in front of each rendered
/// line, one after another.
pub open spec fn render_all_prefixed(
    lines: Seq<Seq<SpanView>>,
    width: nat,
    prefix: SpanView,
) -> Seq<Seq<SpanView>>
    decreases lines.len(),
{
    if lines.len() == 0 {
        Seq::<Seq<SpanView>>::empty()
    } else {
        render_all_prefixed(lines.drop_last(), width, prefix) + prefix_lines(
            render_line(lines.last(), width),
            prefix,
        )
    }
}

/// Unstyled lines of the given texts.
pub open spec fn raw_lines(texts: Seq<Seq<char>>) -> Seq<Seq<SpanView>> {
    texts.map_values(|t: Seq<char>| seq![(Style::Plain, t)])
}

/// Moves the lines of `more` to the end of `out`.
pub fn append_lines(out: &mut Vec<LineComponent>, more: Vec<LineComponent>)
    ensures
        components_view(final(out)@) == components_view(old(out)@) + components_view(more@),
{
    let mut more = more;
    let ghost start = components_view(out@);
    let ghost all = components_view(more@);
    let n = more.len();
    let mut rev: Vec<LineComponent> = Vec::new();
    while more.len() > 0
        invariant
            rev@.len() + more@.len() == n,
            all.len() == n,
            forall|j: int| 0 <= j < more@.len() ==> (#[trigger] more@[j])@ == all[j],
            forall|j: int| 0 <= j < rev@.len() ==> (#[trigger] rev@[j])@ == all[n - 1 - j],
        decreases more.len(),
    {
        let l = more.pop().unwrap();
        rev.push(l);
    }
    let mut k: usize = 0;
    while rev.len() > 0
        invariant
            rev@.len() + k == n,
            all.len() == n,
            forall|j: int| 0 <= j < rev@.len() ==> (#[trigger] rev@[j])@ == all[n - 1 - j],
            components_view(out@) == start + all.take(k as int),
        decreases rev.len(),
    {
        let l = rev.pop().unwrap();
        let ghost before = out@;
        out.push(l);
        proof {
            lemma_components_view_push(before, l);
            assert(all.take(k + 1) =~= all.take(k as int).push(all[k as int]));
        }
        k = k + 1;
    }
    assert(all.take(n as int) =~= all);
}

/// Adds one line at the end of `out`.
pub fn push_line(out: &mut Vec<LineComponent>, line: LineComponent)
    ensures
        components_view(final(out)@) == components_view(old(out)@).push(line@),
{
    let ghost before = out@;
    out.push(line);
    proof {
        lemma_components_view_push(before, line);
    }
}

/// Renders each line at `width`, one after another.
pub fn render_each(lines: &Vec<LineComponent>, width: u16) -> (r: Vec<LineComponent>)
    ensures
        components_view(r@) == render_all(components_view(lines@), width as nat),
{
    let n = lines.len();
    let ghost lv = components_view(lines@);
    let mut r: Vec<LineComponent> = Vec::new();
    assert(lv.take(0) =~= Seq::<Seq<SpanView>>::empty());
    for i in 0..n
        invariant
            n == lines@.len(),
            lv == components_view(lines@),
            components_view(r@) == render_all(lv.take(i as int), width as nat),
    {
        let more = lines[i].render(width);
        append_lines(&mut r, more);
        proof {
            assert(lv.take(i + 1).drop_last() =~= lv.take(i as int));
            assert(lv[i as int] == lines@[i as int]@);
        }
    }
    assert(lv.take(n as int) =~= lv);
    r
}

/// Renders each line at `width` with `prefix` in front, one after another.
pub fn render_each_prefixed(lines: &Vec<LineComponent>, width: u16, prefix: &Span) -> (r: Vec<
    LineComponent,
>)
    ensures
        components_view(r@) == render_all_prefixed(components_view(lines@), width as nat, prefix@),
{
    let n = lines.len();
    let ghost lv = components_view(lines@);
    let mut r: Vec<LineComponent> = Vec::new();
    assert(lv.take(0) =~= Seq::<Seq<SpanView>>::empty());
    for i in 0..n
        invariant
            n == lines@.len(),
            lv == components_view(lines@),
            components_view(r@) == render_all_prefixed(lv.take(i as int), width as nat, prefix@),
    {
        let more = lines[i].render_prefixed(width, prefix);
        append_lines(&mut r, more);
        proof {
            assert(lv.take(i + 1).drop_last() =~= lv.take(i as int));
            assert(lv[i as int] == lines@[i as int]@);
        }
    }
    assert(lv.take(n as int) =~= lv);
    r
}

/// Unstyled lines of the given texts.
pub fn raw_line_components(texts: &Vec<String>) -> (r: Vec<LineComponent>)
    ensures
        components_view(r@) == raw_lines(texts@.map_values(|t: String| t@)),
{
    let n = texts.len();
    let ghost tv = texts@.map_values(|t: String| t@);
    let mut r: Vec<LineComponent> = Vec::new();
    for i in 0..n
        invariant
            n == texts@.len(),
            tv == texts@.map_values(|t: String| t@),
            components_view(r@) == raw_lines(tv).take(i as int),
    {
        push_line(&mut r, LineComponent::raw(texts[i].as_str()));
        assert(components_view(r@) =~= raw_lines(tv).take(i + 1));
    }
    assert(raw_lines(tv).take(n as int) =~= raw_lines(tv));
    r
}

} // verus!
