//! Breaking styled text into lines that fit a width.
//!
//! Text is seen as a sequence of cells, one styled character each.  A line is
//! broken before a character when the line already has some width and the
//! character would take it past the limit; within a line, neighbouring
//! characters of one style share one span.

use vstd::prelude::*;

use crate::style::{Span, SpanView, Style, spans_view};
use crate::text::{char_string, chars_of, push_char};
use crate::width::{cell_width, display_width};

verus! {

/// One styled character.
pub type Cell = (Style, char);

/// The cells of one span.
pub open spec fn span_cells(s: SpanView) -> Seq<Cell> {
    s.1.map_values(|c: char| (s.0, c))
}

/// The cells of a sequence of spans, in order.
#[verifier::opaque]
pub open spec fn spans_cells(spans: Seq<SpanView>) -> Seq<Cell>
    decreases spans.len(),
{
    if spans.len() == 0 {
        Seq::<Cell>::empty()
    } else {
        spans_cells(spans.drop_last()) + span_cells(spans.last())
    }
}

/// The cells of a sequence of lines, in order.
#[verifier::opaque]
pub open spec fn lines_cells(lines: Seq<Seq<SpanView>>) -> Seq<Cell>
    decreases lines.len(),
{
    if lines.len() == 0 {
        Seq::<Cell>::empty()
    } else {
        lines_cells(lines.drop_last()) + spans_cells(lines.last())
    }
}

/// The columns a sequence of cells takes when drawn.
#[verifier::opaque]
pub open spec fn cells_width(cells: Seq<Cell>) -> nat
    decreases cells.len(),
{
    if cells.len() == 0 {
        0
    } else {
        cells_width(cells.drop_last()) + cell_width(cells.last().1)
    }
}

/// Every span holds text, and neighbouring spans differ in style.
pub open spec fn normalized(spans: Seq<SpanView>) -> bool {
    &&& forall|i: int| 0 <= i < spans.len() ==> (#[trigger] spans[i]).1.len() > 0
    &&& forall|i: int, j: int|
        0 <= i && j == i + 1 && j < spans.len() ==> (#[trigger] spans[i]).0 != (
        #[trigger] spans[j]).0
}

/// A line that was broken before the next line: it had width, and the next
/// line's first character would have taken it past `width`.
pub open spec fn full_before(line: Seq<SpanView>, next: Seq<SpanView>, width: nat) -> bool {
    cells_width(spans_cells(line)) > 0 && cells_width(spans_cells(line)) + cell_width(
        spans_cells(next)[0].1,
    ) > width
}

/// No character was added past `width` to a line that already had width.
pub open spec fn fits(cells: Seq<Cell>, width: nat) -> bool {
    forall|j: int|
        0 <= j < cells.len() && cells_width(#[trigger] cells.take(j)) > 0 ==> cells_width(
            cells.take(j + 1),
        ) <= width
}

/// `lines` is `cells` broken greedily at `width`: the lines hold the cells in
/// order, each line is normalized and fits, only the first line may be empty,
/// and every line but the last was full: it had width and the next line's first
/// character would have taken it past `width`.
pub open spec fn is_wrapping(lines: Seq<Seq<SpanView>>, cells: Seq<Cell>, width: nat) -> bool {
    &&& lines.len() >= 1
    &&& lines_cells(lines) == cells
    &&& forall|i: int| 0 <= i < lines.len() ==> normalized(#[trigger] lines[i])
    &&& forall|i: int| 0 <= i < lines.len() ==> fits(spans_cells(#[trigger] lines[i]), width)
    &&& forall|i: int| 1 <= i < lines.len() ==> spans_cells(#[trigger] lines[i]).len() > 0
    &&& forall|i: int, j: int|
        0 <= i && j == i + 1 && j < lines.len() ==> full_before(
            #[trigger] lines[i],
            #[trigger] lines[j],
            width,
        )
}

/// The views of a vector of span vectors.
pub open spec fn lines_view(lines: Seq<Vec<Span>>) -> Seq<Seq<SpanView>> {
    lines.map_values(|l: Vec<Span>| spans_view(l@))
}

proof fn lemma_spans_cells_push(spans: Seq<SpanView>, s: SpanView)
    ensures
        spans_cells(spans.push(s)) == spans_cells(spans) + span_cells(s),
{
    reveal(spans_cells);
    assert(spans.push(s).drop_last() == spans);
}

proof fn lemma_lines_cells_push(lines: Seq<Seq<SpanView>>, l: Seq<SpanView>)
    ensures
        lines_cells(lines.push(l)) == lines_cells(lines) + spans_cells(l),
{
    reveal(lines_cells);
    assert(lines.push(l).drop_last() == lines);
}

proof fn lemma_cells_width_push(cells: Seq<Cell>, c: Cell)
    ensures
        cells_width(cells.push(c)) == cells_width(cells) + cell_width(c.1),
{
    reveal(cells_width);
    assert(cells.push(c).drop_last() == cells);
}

proof fn lemma_span_cells_push_char(s: SpanView, t: SpanView, c: char)
    requires
        t.0 == s.0,
        t.1 == s.1.push(c),
    ensures
        span_cells(t) == span_cells(s).push((s.0, c)),
{
    assert(span_cells(t) =~= span_cells(s).push((s.0, c)));
}

proof fn lemma_empty_cells()
    ensures
        spans_cells(Seq::<SpanView>::empty()) == Seq::<Cell>::empty(),
        lines_cells(Seq::<Seq<SpanView>>::empty()) == Seq::<Cell>::empty(),
        cells_width(Seq::<Cell>::empty()) == 0,
{
    reveal(spans_cells);
    reveal(lines_cells);
    reveal(cells_width);
}

pub proof fn lemma_spans_view_push(spans: Seq<Span>, s: Span)
    ensures
        spans_view(spans.push(s)) == spans_view(spans).push(s@),
{
    assert(spans_view(spans.push(s)) =~= spans_view(spans).push(s@));
}

/// The cells of a sequence of spans, flattened.
pub fn spans_to_cells(spans: &Vec<Span>) -> (cells: Vec<Cell>)
    ensures
        cells@ == spans_cells(spans_view(spans@)),
{
    let mut cells: Vec<Cell> = Vec::new();
    let n = spans.len();
    proof {
        lemma_empty_cells();
        assert(spans_view(spans@.take(0)) == Seq::<SpanView>::empty());
    }
    for k in 0..n
        invariant
            n == spans@.len(),
            cells@ == spans_cells(spans_view(spans@.take(k as int))),
    {
        let span = &spans[k];
        let chars = chars_of(span.text.as_str());
        let m = chars.len();
        let ghost before = cells@;
        for j in 0..m
            invariant
                m == chars@.len(),
                chars@ == span.text@,
                cells@ == before + span_cells(span@).take(j as int),
        {
            cells.push((span.style, chars[j]));
            assert(span_cells(span@).take(j + 1) == span_cells(span@).take(j as int).push(
                (span.style, chars@[j as int]),
            ));
        }
        proof {
            assert(span_cells(span@).take(m as int) == span_cells(span@));
            assert(spans@.take(k + 1) == spans@.take(k as int).push(spans@[k as int]));
            lemma_spans_view_push(spans@.take(k as int), spans@[k as int]);
            lemma_spans_cells_push(spans_view(spans@.take(k as int)), spans@[k as int]@);
        }
    }
    assert(spans@.take(n as int) == spans@);
    cells
}

proof fn lemma_normalized_push(s: Seq<SpanView>, x: SpanView)
    requires
        normalized(s),
        x.1.len() > 0,
        s.len() > 0 ==> s.last().0 != x.0,
    ensures
        normalized(s.push(x)),
{
    let t = s.push(x);
    assert forall|i: int| 0 <= i < t.len() implies (#[trigger] t[i]).1.len() > 0 by {
        if i < s.len() {
            assert(t[i] == s[i]);
        }
    }
    assert forall|i: int, j: int|
        0 <= i && j == i + 1 && j < t.len() implies (#[trigger] t[i]).0 != (#[trigger] t[j]).0 by {
        assert(t[i] == s[i]);
        if j < s.len() {
            assert(t[j] == s[j]);
        }
    }
}

proof fn lemma_normalized_replace_last(s: Seq<SpanView>, x: SpanView)
    requires
        normalized(s),
        s.len() > 0,
        x.1.len() > 0,
        x.0 == s.last().0,
    ensures
        normalized(s.drop_last().push(x)),
{
    let t = s.drop_last().push(x);
    assert forall|i: int| 0 <= i < t.len() implies (#[trigger] t[i]).1.len() > 0 by {
        if i < s.len() - 1 {
            assert(t[i] == s[i]);
        }
    }
    assert forall|i: int, j: int|
        0 <= i && j == i + 1 && j < t.len() implies (#[trigger] t[i]).0 != (#[trigger] t[j]).0 by {
        assert(t[i] == s[i]);
        assert(t[j].0 == s[j].0);
    }
}

/// Appends one cell to a line, joining it to the last span when the style
/// matches.
fn push_cell(line: &mut Vec<Span>, style: Style, c: char)
    requires
        normalized(spans_view(old(line)@)),
    ensures
        normalized(spans_view(final(line)@)),
        spans_cells(spans_view(final(line)@)) == spans_cells(spans_view(old(line)@)).push((style, c)),
        final(line)@.len() > 0,
{
    let n = line.len();
    if n > 0 && line[n - 1].style == style {
        let mut last = line.pop().unwrap();
        let ghost old_last = last;
        let ghost init = line@;
        push_char(&mut last.text, c);
        proof {
            assert(old(line)@ == init.push(old_last));
            lemma_spans_view_push(init, old_last);
            lemma_spans_view_push(init, last);
            lemma_span_cells_push_char(old_last@, last@, c);
            lemma_spans_cells_push(spans_view(init), last@);
            lemma_spans_cells_push(spans_view(init), old_last@);
            assert(spans_view(init) == spans_view(old(line)@).drop_last());
            lemma_normalized_replace_last(spans_view(old(line)@), last@);
        }
        line.push(last);
    } else {
        let span = Span { style, text: char_string(c) };
        let ghost init = line@;
        proof {
            lemma_spans_view_push(init, span);
            lemma_spans_cells_push(spans_view(init), span@);
            assert(span_cells(span@) =~= seq![(style, c)]);
            lemma_normalized_push(spans_view(init), span@);
        }
        line.push(span);
    }
}

proof fn lemma_lines_view_push(lines: Seq<Vec<Span>>, l: Vec<Span>)
    ensures
        lines_view(lines.push(l)) == lines_view(lines).push(spans_view(l@)),
{
    assert(lines_view(lines.push(l)) =~= lines_view(lines).push(spans_view(l@)));
}

/// Breaks cells into lines of at most `width` columns.
pub fn wrap_cells(cells: &Vec<Cell>, width: usize) -> (lines: Vec<Vec<Span>>)
    requires
        1 <= width <= 0x10000,
    ensures
        is_wrapping(lines_view(lines@), cells@, width as nat),
        cells_within(cells@, 3),
{
    let n = cells.len();
    let mut lines: Vec<Vec<Span>> = Vec::new();
    let mut cur: Vec<Span> = Vec::new();
    let mut cur_width: usize = 0;
    proof {
        lemma_empty_cells();
        assert(lines_view(lines@) == Seq::<Seq<SpanView>>::empty());
        assert(spans_view(cur@) == Seq::<SpanView>::empty());
        assert(cells@.take(0) == Seq::<Cell>::empty());
    }
    for i in 0..n
        invariant
            n == cells@.len(),
            1 <= width <= 0x10000,
            forall|j: int| 0 <= j < i ==> cell_width((#[trigger] cells@[j]).1) <= 3,
            lines_cells(lines_view(lines@)) + spans_cells(spans_view(cur@)) == cells@.take(i as int),
            cur_width == cells_width(spans_cells(spans_view(cur@))),
            cur_width <= width + 3,
            normalized(spans_view(cur@)),
            fits(spans_cells(spans_view(cur@)), width as nat),
            i > 0 ==> spans_cells(spans_view(cur@)).len() > 0,
            i == 0 ==> lines@.len() == 0 && cur@.len() == 0,
            forall|k: int| 0 <= k < lines@.len() ==> normalized(#[trigger] lines_view(lines@)[k]),
            forall|k: int|
                0 <= k < lines@.len() ==> fits(
                    spans_cells(#[trigger] lines_view(lines@)[k]),
                    width as nat,
                ),
            forall|k: int|
                0 <= k < lines@.len() ==> spans_cells(#[trigger] lines_view(lines@)[k]).len() > 0,
            forall|k: int, l: int|
                0 <= k && l == k + 1 && l < lines@.len() ==> full_before(
                    #[trigger] lines_view(lines@)[k],
                    #[trigger] lines_view(lines@)[l],
                    width as nat,
                ),
            lines@.len() > 0 ==> full_before(
                lines_view(lines@).last(),
                spans_view(cur@),
                width as nat,
            ),
    {
        let (style, c) = cells[i];
        let cw = display_width(c);
        assert(cell_width(cells@[i as int].1) <= 3);
        let ghost old_lines = lines_view(lines@);
        let ghost old_cur = spans_view(cur@);
        if cur_width > 0 && cur_width + cw > width {
            let done = cur;
            proof {
                lemma_empty_cells();
                if spans_cells(spans_view(done@)).len() == 0 {
                    assert(spans_cells(spans_view(done@)) == Seq::<Cell>::empty());
                }
                lemma_lines_cells_push(lines_view(lines@), spans_view(done@));
                lemma_lines_view_push(lines@, done);
            }
            lines.push(done);
            cur = Vec::new();
            cur_width = 0;
            proof {
                assert(spans_view(cur@) == Seq::<SpanView>::empty());
                assert(lines_view(lines@) == old_lines.push(old_cur));
                assert forall|k: int| 0 <= k < lines@.len() implies spans_cells(
                    #[trigger] lines_view(lines@)[k],
                ).len() > 0 by {
                    if k < old_lines.len() {
                        assert(lines_view(lines@)[k] == old_lines[k]);
                    }
                }
                assert forall|k: int| 0 <= k < lines@.len() implies normalized(
                    #[trigger] lines_view(lines@)[k],
                ) by {
                    if k < old_lines.len() {
                        assert(lines_view(lines@)[k] == old_lines[k]);
                    }
                }
                assert forall|k: int| 0 <= k < lines@.len() implies fits(
                    spans_cells(#[trigger] lines_view(lines@)[k]),
                    width as nat,
                ) by {
                    if k < old_lines.len() {
                        assert(lines_view(lines@)[k] == old_lines[k]);
                    }
                }
            }
        }
        let ghost mid_lines = lines_view(lines@);
        let ghost mid_cur = spans_view(cur@);
        push_cell(&mut cur, style, c);
        proof {
            let cv = spans_view(cur@);
            lemma_cells_width_push(spans_cells(mid_cur), (style, c));
            assert(cells@.take(i + 1) == cells@.take(i as int).push(cells@[i as int]));
            assert forall|j: int|
                0 <= j < spans_cells(cv).len() && cells_width(
                    #[trigger] spans_cells(cv).take(j),
                ) > 0 implies cells_width(spans_cells(cv).take(j + 1)) <= width by {
                if j < spans_cells(mid_cur).len() {
                    assert(spans_cells(cv).take(j) == spans_cells(mid_cur).take(j));
                    assert(spans_cells(cv).take(j + 1) == spans_cells(mid_cur).take(j + 1));
                } else {
                    assert(spans_cells(cv).take(j) == spans_cells(mid_cur));
                    assert(spans_cells(cv).take(j + 1) == spans_cells(cv));
                }
            }
            if lines@.len() > 0 {
                if spans_cells(mid_cur).len() > 0 {
                    assert(spans_cells(cv)[0] == spans_cells(mid_cur)[0]);
                } else {
                    assert(spans_cells(cv)[0] == (style, c));
                }
                assert(lines_view(lines@) == mid_lines);
            }
            assert forall|k: int, l: int|
                0 <= k && l == k + 1 && l < lines@.len() implies full_before(
                #[trigger] lines_view(lines@)[k],
                #[trigger] lines_view(lines@)[l],
                width as nat,
            ) by {
                if lines@.len() > old_lines.len() && k == lines@.len() - 2 {
                    assert(lines_view(lines@)[k] == old_lines.last());
                    assert(lines_view(lines@)[l] == old_cur);
                } else {
                    assert(lines_view(lines@)[k] == old_lines[k]);
                    assert(lines_view(lines@)[l] == old_lines[l]);
                }
            }
        }
        cur_width = cur_width + cw;
    }
    let ghost last_cur = spans_view(cur@);
    let ghost old_lines = lines_view(lines@);
    proof {
        lemma_lines_cells_push(lines_view(lines@), spans_view(cur@));
        lemma_lines_view_push(lines@, cur);
        assert(cells@.take(n as int) == cells@);
    }
    lines.push(cur);
    proof {
        let lv = lines_view(lines@);
        assert(lv == old_lines.push(last_cur));
        assert forall|k: int| 0 <= k < lv.len() implies normalized(#[trigger] lv[k]) by {
            if k < old_lines.len() {
                assert(lv[k] == old_lines[k]);
            }
        }
        assert forall|k: int| 0 <= k < lv.len() implies fits(
            spans_cells(#[trigger] lv[k]),
            width as nat,
        ) by {
            if k < old_lines.len() {
                assert(lv[k] == old_lines[k]);
            }
        }
        assert forall|k: int| 1 <= k < lv.len() implies spans_cells(#[trigger] lv[k]).len() > 0 by {
            if k < old_lines.len() {
                assert(lv[k] == old_lines[k]);
            }
        }
        assert forall|k: int, l: int|
            0 <= k && l == k + 1 && l < lv.len() implies full_before(
            #[trigger] lv[k],
            #[trigger] lv[l],
            width as nat,
        ) by {
            assert(lv[k] == old_lines[k]);
            if k == lv.len() - 2 {
                assert(lv[l] == last_cur);
            } else {
                assert(lv[l] == old_lines[l]);
            }
        }
    }
    lines
}

/// Breaks spans into lines of at most `width` columns.
pub fn wrap_spans(spans: &Vec<Span>, width: usize) -> (lines: Vec<Vec<Span>>)
    requires
        1 <= width <= 0x10000,
    ensures
        is_wrapping(lines_view(lines@), spans_cells(spans_view(spans@)), width as nat),
{
    let cells = spans_to_cells(spans);
    wrap_cells(&cells, width)
}

/// A wrapped line is wider than the limit only when everything before its
/// last character takes no columns: a line overflows by a single character
/// that is wider than the limit on its own.
pub proof fn law_wrapped_line_overflows_by_one_char(cells: Seq<Cell>, width: nat)
    requires
        fits(cells, width),
        cells_width(cells) > width,
    ensures
        cells.len() > 0,
        cells_width(cells.drop_last()) == 0,
{
    let n = cells.len();
    reveal(cells_width);
    if n > 0 {
        assert(cells.take(n - 1) == cells.drop_last());
        assert(cells.take(n as int) == cells);
        if cells_width(cells.drop_last()) > 0 {
            assert(cells_width(cells.take(n - 1)) > 0);
        }
    }
}


proof fn lemma_lines_cells_front(lines: Seq<Seq<SpanView>>)
    requires
        lines.len() > 0,
    ensures
        lines_cells(lines) == spans_cells(lines[0]) + lines_cells(lines.drop_first()),
    decreases lines.len(),
{
    reveal(lines_cells);
    if lines.len() == 1 {
        assert(lines.drop_first() == Seq::<Seq<SpanView>>::empty());
        assert(lines.drop_last() == Seq::<Seq<SpanView>>::empty());
        assert(spans_cells(lines[0]) + Seq::<Cell>::empty() == spans_cells(lines[0]));
    } else {
        lemma_lines_cells_front(lines.drop_last());
        assert(lines.drop_last().drop_first() == lines.drop_first().drop_last());
        assert(lines.drop_first().last() == lines.last());
        assert(lines.drop_last()[0] == lines[0]);
    }
}

proof fn lemma_cells_width_take(cells: Seq<Cell>, j: int)
    requires
        0 <= j < cells.len(),
    ensures
        cells_width(cells.take(j + 1)) == cells_width(cells.take(j)) + cell_width(cells[j].1),
{
    assert(cells.take(j + 1) == cells.take(j).push(cells[j]));
    lemma_cells_width_push(cells.take(j), cells[j]);
}

/// The first line of two greedy wrappings of the same cells is the same.
proof fn lemma_wrapping_first_line(
    a: Seq<Seq<SpanView>>,
    b: Seq<Seq<SpanView>>,
    cells: Seq<Cell>,
    width: nat,
)
    requires
        is_wrapping(a, cells, width),
        is_wrapping(b, cells, width),
    ensures
        spans_cells(a[0]).len() <= spans_cells(b[0]).len(),
{
    let a0 = spans_cells(a[0]);
    let b0 = spans_cells(b[0]);
    lemma_lines_cells_front(a);
    lemma_lines_cells_front(b);
    if a0.len() > b0.len() {
        if b.len() == 1 {
            lemma_empty_cells();
            assert(b.drop_first() == Seq::<Seq<SpanView>>::empty());
            assert(cells.len() == b0.len());
        } else {
            let b1 = spans_cells(b[1]);
            assert(full_before(b[0], b[1], width));
            assert(b1.len() > 0);
            lemma_lines_cells_front(b.drop_first());
            assert(b.drop_first()[0] == b[1]);
            let j = b0.len() as int;
            assert(cells[j] == b1[0]);
            assert(a0[j] == cells[j]);
            assert(a0.take(j) =~= cells.take(j));
            assert(b0 =~= cells.take(j));
            assert(fits(a0, width));
            lemma_cells_width_take(a0, j);
            assert(cells_width(a0.take(j)) > 0);
        }
    }
}

/// The lines after the first line of a wrapping wrap the rest of the cells.
proof fn lemma_wrapping_tail(a: Seq<Seq<SpanView>>, cells: Seq<Cell>, width: nat)
    requires
        is_wrapping(a, cells, width),
        a.len() >= 2,
    ensures
        is_wrapping(a.drop_first(), cells.skip(spans_cells(a[0]).len() as int), width),
{
    lemma_lines_cells_front(a);
    let ta = a.drop_first();
    assert(lines_cells(ta) =~= cells.skip(spans_cells(a[0]).len() as int));
    assert forall|i: int| 0 <= i < ta.len() implies normalized(#[trigger] ta[i]) by {
        assert(ta[i] == a[i + 1]);
    }
    assert forall|i: int| 0 <= i < ta.len() implies fits(spans_cells(#[trigger] ta[i]), width) by {
        assert(ta[i] == a[i + 1]);
    }
    assert forall|i: int| 1 <= i < ta.len() implies spans_cells(#[trigger] ta[i]).len() > 0 by {
        assert(ta[i] == a[i + 1]);
    }
    assert forall|i: int, j: int|
        0 <= i && j == i + 1 && j < ta.len() implies full_before(
        #[trigger] ta[i],
        #[trigger] ta[j],
        width,
    ) by {
        assert(ta[i] == a[i + 1]);
        assert(ta[j] == a[j + 1]);
    }
}

/// Two greedy wrappings of the same cells break at the same places.
#[verifier::rlimit(50)]
proof fn lemma_wrapping_cells_unique(
    a: Seq<Seq<SpanView>>,
    b: Seq<Seq<SpanView>>,
    cells: Seq<Cell>,
    width: nat,
)
    requires
        is_wrapping(a, cells, width),
        is_wrapping(b, cells, width),
    ensures
        a.len() == b.len(),
        forall|i: int| 0 <= i < a.len() ==> spans_cells(#[trigger] a[i]) == spans_cells(b[i]),
    decreases a.len(),
{
    lemma_wrapping_first_line(a, b, cells, width);
    lemma_wrapping_first_line(b, a, cells, width);
    let a0 = spans_cells(a[0]);
    let n0 = a0.len() as int;
    lemma_lines_cells_front(a);
    lemma_lines_cells_front(b);
    assert(a0 =~= cells.take(n0));
    assert(spans_cells(b[0]) =~= cells.take(n0));
    if a.len() == 1 || b.len() == 1 {
        lemma_empty_cells();
        if a.len() > 1 {
            assert(b.drop_first() == Seq::<Seq<SpanView>>::empty());
            lemma_lines_cells_front(a.drop_first());
            assert(a.drop_first()[0] == a[1]);
            assert(spans_cells(a[1]).len() > 0);
        }
        if b.len() > 1 {
            assert(a.drop_first() == Seq::<Seq<SpanView>>::empty());
            lemma_lines_cells_front(b.drop_first());
            assert(b.drop_first()[0] == b[1]);
            assert(spans_cells(b[1]).len() > 0);
        }
    } else {
        let ta = a.drop_first();
        let tb = b.drop_first();
        lemma_wrapping_tail(a, cells, width);
        lemma_wrapping_tail(b, cells, width);
        lemma_wrapping_cells_unique(ta, tb, cells.skip(n0), width);
        assert forall|i: int| 0 <= i < a.len() implies spans_cells(#[trigger] a[i]) == spans_cells(
            b[i],
        ) by {
            if i > 0 {
                assert(a[i] == ta[i - 1]);
                assert(b[i] == tb[i - 1]);
            }
        }
    }
}

proof fn lemma_spans_cells_back(spans: Seq<SpanView>)
    requires
        spans.len() > 0,
    ensures
        spans_cells(spans) == spans_cells(spans.drop_last()) + span_cells(spans.last()),
{
    reveal(spans_cells);
}

proof fn lemma_span_cells_len(s: SpanView)
    ensures
        span_cells(s).len() == s.1.len(),
        forall|i: int| 0 <= i < s.1.len() ==> #[trigger] span_cells(s)[i] == (s.0, s.1[i]),
{
}

proof fn lemma_spans_cells_nonempty(spans: Seq<SpanView>)
    requires
        normalized(spans),
        spans.len() > 0,
    ensures
        spans_cells(spans).len() >= spans.last().1.len(),
        spans_cells(spans).len() > 0,
        spans_cells(spans).last().0 == spans.last().0,
{
    lemma_spans_cells_back(spans);
    lemma_span_cells_len(spans.last());
    assert(spans.last().1.len() > 0);
}

proof fn lemma_normalized_drop_last(spans: Seq<SpanView>)
    requires
        normalized(spans),
        spans.len() > 0,
    ensures
        normalized(spans.drop_last()),
{
    let t = spans.drop_last();
    assert forall|i: int| 0 <= i < t.len() implies (#[trigger] t[i]).1.len() > 0 by {
        assert(t[i] == spans[i]);
    }
    assert forall|i: int, j: int|
        0 <= i && j == i + 1 && j < t.len() implies (#[trigger] t[i]).0 != (#[trigger] t[j]).0 by {
        assert(t[i] == spans[i]);
        assert(t[j] == spans[j]);
    }
}

/// Normalized spans are determined by their cells: grouping the cells into
/// maximal runs of one style can be done in one way only.
pub proof fn lemma_normalized_unique(x: Seq<SpanView>, y: Seq<SpanView>)
    requires
        normalized(x),
        normalized(y),
        spans_cells(x) == spans_cells(y),
    ensures
        x == y,
    decreases x.len() + y.len(),
{
    lemma_empty_cells();
    if x.len() == 0 || y.len() == 0 {
        if x.len() > 0 {
            lemma_spans_cells_nonempty(x);
        }
        if y.len() > 0 {
            lemma_spans_cells_nonempty(y);
        }
        if x.len() == 0 {
            assert(x == Seq::<SpanView>::empty());
        }
        if y.len() == 0 {
            assert(y == Seq::<SpanView>::empty());
        }
        assert(x =~= y);
    } else {
        let cells = spans_cells(x);
        let sx = x.last();
        let sy = y.last();
        lemma_spans_cells_nonempty(x);
        lemma_spans_cells_nonempty(y);
        lemma_spans_cells_back(x);
        lemma_spans_cells_back(y);
        lemma_span_cells_len(sx);
        lemma_span_cells_len(sy);
        let px = spans_cells(x.drop_last());
        let py = spans_cells(y.drop_last());
        assert(sx.0 == sy.0);
        lemma_normalized_drop_last(x);
        lemma_normalized_drop_last(y);
        if sx.1.len() < sy.1.len() {
            // the cell just before x's last span belongs to y's last span
            if x.len() == 1 {
                assert(px == Seq::<Cell>::empty()) by {
                    assert(x.drop_last() == Seq::<SpanView>::empty());
                }
            } else {
                lemma_spans_cells_nonempty(x.drop_last());
                let k = px.len() - 1;
                assert(cells[k] == px.last());
                assert(x.drop_last().last() == x[x.len() - 2]);
                assert(x[x.len() - 2].0 != x[x.len() - 1].0);
                assert(k >= py.len());
                assert(cells[k] == span_cells(sy)[k - py.len()]);
            }
        } else if sy.1.len() < sx.1.len() {
            if y.len() == 1 {
                assert(py == Seq::<Cell>::empty()) by {
                    assert(y.drop_last() == Seq::<SpanView>::empty());
                }
            } else {
                lemma_spans_cells_nonempty(y.drop_last());
                let k = py.len() - 1;
                assert(cells[k] == py.last());
                assert(y.drop_last().last() == y[y.len() - 2]);
                assert(y[y.len() - 2].0 != y[y.len() - 1].0);
                assert(k >= px.len());
                assert(cells[k] == span_cells(sx)[k - px.len()]);
            }
        } else {
            assert(px =~= cells.take(px.len() as int));
            assert(py =~= cells.take(py.len() as int));
            assert(sx.1 =~= sy.1) by {
                assert forall|i: int| 0 <= i < sx.1.len() implies sx.1[i] == sy.1[i] by {
                    assert(cells[px.len() + i] == span_cells(sx)[i]);
                    assert(cells[py.len() + i] == span_cells(sy)[i]);
                }
            }
            lemma_normalized_unique(x.drop_last(), y.drop_last());
            assert(x == x.drop_last().push(sx));
            assert(y == y.drop_last().push(sy));
        }
    }
}

/// Greedy wrapping is determined: two wrappings of the same cells at the
/// same width are the same lines of the same spans.
pub proof fn law_wrapping_unique(
    a: Seq<Seq<SpanView>>,
    b: Seq<Seq<SpanView>>,
    cells: Seq<Cell>,
    width: nat,
)
    requires
        is_wrapping(a, cells, width),
        is_wrapping(b, cells, width),
    ensures
        a == b,
{
    lemma_wrapping_cells_unique(a, b, cells, width);
    assert forall|i: int| 0 <= i < a.len() implies a[i] == b[i] by {
        lemma_normalized_unique(a[i], b[i]);
    }
    assert(a =~= b);
}


/// The greedy wrapping of `cells` at `width` (there is exactly one, see
/// `law_wrapping_unique`).
pub open spec fn wrapping_of(cells: Seq<Cell>, width: nat) -> Seq<Seq<SpanView>> {
    choose|l: Seq<Seq<SpanView>>| is_wrapping(l, cells, width)
}

/// A wrapping found by any means is the one `wrapping_of` names.
pub proof fn lemma_wrapping_is_chosen(l: Seq<Seq<SpanView>>, cells: Seq<Cell>, width: nat)
    requires
        is_wrapping(l, cells, width),
    ensures
        wrapping_of(cells, width) == l,
{
    let w = wrapping_of(cells, width);
    assert(is_wrapping(w, cells, width));
    law_wrapping_unique(w, l, cells, width);
}

/// The number of cells of a sequence of spans is the sum of their lengths;
/// in particular it is zero exactly when every span is empty.
pub proof fn lemma_spans_cells_empty(spans: Seq<SpanView>)
    ensures
        (spans_cells(spans).len() == 0) == (forall|i: int|
            0 <= i < spans.len() ==> (#[trigger] spans[i]).1.len() == 0),
    decreases spans.len(),
{
    reveal(spans_cells);
    if spans.len() > 0 {
        lemma_spans_cells_empty(spans.drop_last());
        lemma_span_cells_len(spans.last());
        if spans_cells(spans).len() == 0 {
            assert forall|i: int| 0 <= i < spans.len() implies (#[trigger] spans[i]).1.len() == 0 by {
                if i < spans.len() - 1 {
                    assert(spans[i] == spans.drop_last()[i]);
                }
            }
        } else {
            if spans.last().1.len() == 0 {
                let k = choose|k: int| 0 <= k < spans.drop_last().len() && (#[trigger] spans.drop_last()[k]).1.len() != 0;
                assert(spans[k] == spans.drop_last()[k]);
            }
        }
    }
}

/// The cells of spans held one after another.
pub proof fn lemma_spans_cells_concat(a: Seq<SpanView>, b: Seq<SpanView>)
    ensures
        spans_cells(a + b) == spans_cells(a) + spans_cells(b),
    decreases b.len(),
{
    reveal(spans_cells);
    if b.len() == 0 {
        assert(a + b == a);
    } else {
        lemma_spans_cells_concat(a, b.drop_last());
        assert((a + b).drop_last() == a + b.drop_last());
        assert((a + b).last() == b.last());
    }
}


/// The cells of a single span.
pub proof fn lemma_spans_cells_single(s: SpanView)
    ensures
        spans_cells(seq![s]) == span_cells(s),
{
    reveal(spans_cells);
    lemma_empty_cells();
    assert(seq![s].drop_last() =~= Seq::<SpanView>::empty());
    assert(seq![s].last() == s);
    assert(Seq::<Cell>::empty() + span_cells(s) =~= span_cells(s));
}

/// One cell added to a line: joined to the last span when the style
/// matches, in a span of its own otherwise.
pub open spec fn push_cell_spec(line: Seq<SpanView>, c: Cell) -> Seq<SpanView> {
    if line.len() > 0 && line.last().0 == c.0 {
        line.drop_last().push((c.0, line.last().1.push(c.1)))
    } else {
        line.push((c.0, seq![c.1]))
    }
}

proof fn lemma_push_cell_spec(line: Seq<SpanView>, c: Cell)
    requires
        normalized(line),
    ensures
        normalized(push_cell_spec(line, c)),
        spans_cells(push_cell_spec(line, c)) == spans_cells(line).push(c),
{
    if line.len() > 0 && line.last().0 == c.0 {
        let last = line.last();
        let new_last = (c.0, last.1.push(c.1));
        lemma_span_cells_push_char(last, new_last, c.1);
        lemma_spans_cells_push(line.drop_last(), new_last);
        lemma_spans_cells_back(line);
        lemma_normalized_replace_last(line, new_last);
        assert(spans_cells(line.drop_last()) + span_cells(last).push(c) =~= (spans_cells(
            line.drop_last(),
        ) + span_cells(last)).push(c));
    } else {
        let x = (c.0, seq![c.1]);
        lemma_spans_cells_push(line, x);
        assert(span_cells(x) =~= seq![c]);
        lemma_normalized_push(line, x);
    }
}

/// The state of greedy wrapping once `cells` have been placed: the lines
/// already finished, and the line being filled.
pub open spec fn greedy_state(cells: Seq<Cell>, width: nat) -> (Seq<Seq<SpanView>>, Seq<SpanView>)
    decreases cells.len(),
{
    if cells.len() == 0 {
        (Seq::<Seq<SpanView>>::empty(), Seq::<SpanView>::empty())
    } else {
        let (done, cur) = greedy_state(cells.drop_last(), width);
        let c = cells.last();
        let w = cells_width(spans_cells(cur));
        if w > 0 && w + cell_width(c.1) > width {
            (done.push(cur), push_cell_spec(Seq::<SpanView>::empty(), c))
        } else {
            (done, push_cell_spec(cur, c))
        }
    }
}

/// Greedy wrapping of `cells` at `width`: the finished lines and the last.
pub open spec fn greedy_wrap(cells: Seq<Cell>, width: nat) -> Seq<Seq<SpanView>> {
    greedy_state(cells, width).0.push(greedy_state(cells, width).1)
}

/// What holds of the greedy state after any number of cells.
proof fn lemma_greedy_invariant(cells: Seq<Cell>, width: nat)
    requires
        width >= 1,
    ensures
        ({
            let (done, cur) = greedy_state(cells, width);
            &&& lines_cells(done) + spans_cells(cur) == cells
            &&& normalized(cur)
            &&& fits(spans_cells(cur), width)
            &&& cells.len() > 0 ==> spans_cells(cur).len() > 0
            &&& cells.len() == 0 ==> done.len() == 0 && cur.len() == 0
            &&& forall|k: int| 0 <= k < done.len() ==> normalized(#[trigger] done[k])
            &&& forall|k: int| 0 <= k < done.len() ==> fits(spans_cells(#[trigger] done[k]), width)
            &&& forall|k: int| 0 <= k < done.len() ==> spans_cells(#[trigger] done[k]).len() > 0
            &&& forall|k: int, l: int|
                0 <= k && l == k + 1 && l < done.len() ==> full_before(
                    #[trigger] done[k],
                    #[trigger] done[l],
                    width,
                )
            &&& done.len() > 0 ==> full_before(done.last(), cur, width)
        }),
    decreases cells.len(),
{
    lemma_empty_cells();
    if cells.len() == 0 {
        assert(Seq::<Cell>::empty() + Seq::<Cell>::empty() =~= Seq::<Cell>::empty());
        assert(normalized(Seq::<SpanView>::empty()));
        assert(fits(Seq::<Cell>::empty(), width));
    } else {
        let prefix = cells.drop_last();
        lemma_greedy_invariant(prefix, width);
        let (done, cur) = greedy_state(prefix, width);
        let c = cells.last();
        let w = cells_width(spans_cells(cur));
        assert(cells == prefix.push(c));
        if w > 0 && w + cell_width(c.1) > width {
            let nd = done.push(cur);
            let nc = push_cell_spec(Seq::<SpanView>::empty(), c);
            lemma_push_cell_spec(Seq::<SpanView>::empty(), c);
            lemma_lines_cells_push(done, cur);
            assert(spans_cells(nc) =~= seq![c]);
            assert(lines_cells(nd) + spans_cells(nc) =~= lines_cells(done) + spans_cells(cur) + seq![
                c,
            ]);
            lemma_cells_width_push(Seq::<Cell>::empty(), c);
            assert(Seq::<Cell>::empty().push(c) =~= seq![c]);
            assert forall|j: int|
                0 <= j < spans_cells(nc).len() && cells_width(
                    #[trigger] spans_cells(nc).take(j),
                ) > 0 implies cells_width(spans_cells(nc).take(j + 1)) <= width by {
                assert(spans_cells(nc).take(0) =~= Seq::<Cell>::empty());
            }
            if w == 0 {
                assert(false);
            }
            if spans_cells(cur).len() == 0 {
                assert(spans_cells(cur) =~= Seq::<Cell>::empty());
            }
            assert forall|k: int| 0 <= k < nd.len() implies normalized(#[trigger] nd[k]) by {
                if k < done.len() {
                    assert(nd[k] == done[k]);
                }
            }
            assert forall|k: int| 0 <= k < nd.len() implies fits(spans_cells(#[trigger] nd[k]), width) by {
                if k < done.len() {
                    assert(nd[k] == done[k]);
                }
            }
            assert forall|k: int| 0 <= k < nd.len() implies spans_cells(#[trigger] nd[k]).len() > 0 by {
                if k < done.len() {
                    assert(nd[k] == done[k]);
                }
            }
            assert forall|k: int, l: int|
                0 <= k && l == k + 1 && l < nd.len() implies full_before(
                #[trigger] nd[k],
                #[trigger] nd[l],
                width,
            ) by {
                assert(nd[k] == done[k]);
                if l < done.len() {
                    assert(nd[l] == done[l]);
                } else {
                    assert(nd[l] == cur);
                }
            }
            assert(spans_cells(nc)[0] == c);
        } else {
            let nc = push_cell_spec(cur, c);
            lemma_push_cell_spec(cur, c);
            lemma_cells_width_push(spans_cells(cur), c);
            assert(lines_cells(done) + spans_cells(nc) =~= (lines_cells(done) + spans_cells(cur)).push(c));
            assert forall|j: int|
                0 <= j < spans_cells(nc).len() && cells_width(
                    #[trigger] spans_cells(nc).take(j),
                ) > 0 implies cells_width(spans_cells(nc).take(j + 1)) <= width by {
                if j < spans_cells(cur).len() {
                    assert(spans_cells(nc).take(j) == spans_cells(cur).take(j));
                    assert(spans_cells(nc).take(j + 1) == spans_cells(cur).take(j + 1));
                } else {
                    assert(spans_cells(nc).take(j) == spans_cells(cur));
                    assert(spans_cells(nc).take(j + 1) == spans_cells(nc));
                }
            }
            if done.len() > 0 {
                if spans_cells(cur).len() > 0 {
                    assert(spans_cells(nc)[0] == spans_cells(cur)[0]);
                } else {
                    assert(prefix.len() == 0);
                }
            }
        }
    }
}

/// Every sequence of cells has a greedy wrapping at any width of at least
/// one column: the one `greedy_wrap` builds.
pub proof fn lemma_wrapping_exists(cells: Seq<Cell>, width: nat)
    requires
        width >= 1,
    ensures
        is_wrapping(greedy_wrap(cells, width), cells, width),
        wrapping_of(cells, width) == greedy_wrap(cells, width),
{
    lemma_greedy_invariant(cells, width);
    let (done, cur) = greedy_state(cells, width);
    let lv = done.push(cur);
    lemma_lines_cells_push(done, cur);
    assert forall|k: int| 0 <= k < lv.len() implies normalized(#[trigger] lv[k]) by {
        if k < done.len() {
            assert(lv[k] == done[k]);
        }
    }
    assert forall|k: int| 0 <= k < lv.len() implies fits(spans_cells(#[trigger] lv[k]), width) by {
        if k < done.len() {
            assert(lv[k] == done[k]);
        }
    }
    assert forall|k: int| 1 <= k < lv.len() implies spans_cells(#[trigger] lv[k]).len() > 0 by {
        if k < done.len() {
            assert(lv[k] == done[k]);
        } else {
            assert(cells.len() > 0);
        }
    }
    assert forall|k: int, l: int|
        0 <= k && l == k + 1 && l < lv.len() implies full_before(
        #[trigger] lv[k],
        #[trigger] lv[l],
        width,
    ) by {
        assert(lv[k] == done[k]);
        if l < done.len() {
            assert(lv[l] == done[l]);
        } else {
            assert(lv[l] == cur);
        }
    }
    lemma_wrapping_is_chosen(lv, cells, width);
}

/// No cell is wider than `limit`.
pub open spec fn cells_within(cells: Seq<Cell>, limit: nat) -> bool {
    forall|j: int| 0 <= j < cells.len() ==> cell_width((#[trigger] cells[j]).1) <= limit
}

proof fn lemma_prefix_width_le(cells: Seq<Cell>)
    requires
        cells.len() > 0,
    ensures
        cells_width(cells.drop_last()) <= cells_width(cells),
{
    assert(cells == cells.drop_last().push(cells.last()));
    lemma_cells_width_push(cells.drop_last(), cells.last());
}

proof fn lemma_greedy_single(cells: Seq<Cell>, width: nat)
    requires
        width >= 1,
        cells_width(cells) <= width,
    ensures
        greedy_state(cells, width).0.len() == 0,
    decreases cells.len(),
{
    if cells.len() > 0 {
        let prefix = cells.drop_last();
        lemma_prefix_width_le(cells);
        lemma_greedy_single(prefix, width);
        lemma_greedy_invariant(prefix, width);
        lemma_empty_cells();
        let (done, cur) = greedy_state(prefix, width);
        assert(done =~= Seq::<Seq<SpanView>>::empty());
        assert(lines_cells(done) == Seq::<Cell>::empty());
        assert(Seq::<Cell>::empty() + spans_cells(cur) == spans_cells(cur));
        assert(spans_cells(cur) == prefix);
        assert(cells == prefix.push(cells.last()));
        lemma_cells_width_push(prefix, cells.last());
    }
}

/// Cells that fit within the width are wrapped into a single line holding
/// all of them.
pub proof fn lemma_single_line_wrapping(cells: Seq<Cell>, width: nat)
    requires
        width >= 1,
        cells_width(cells) <= width,
    ensures
        wrapping_of(cells, width).len() == 1,
        spans_cells(wrapping_of(cells, width)[0]) == cells,
{
    lemma_wrapping_exists(cells, width);
    lemma_greedy_single(cells, width);
    lemma_greedy_invariant(cells, width);
    lemma_empty_cells();
    let (done, cur) = greedy_state(cells, width);
    assert(done =~= Seq::<Seq<SpanView>>::empty());
    assert(greedy_wrap(cells, width) =~= seq![cur]);
    assert(lines_cells(done) == Seq::<Cell>::empty());
    assert(Seq::<Cell>::empty() + spans_cells(cur) == spans_cells(cur));
}

/// A line that fits, made of cells no wider than the width, is no wider
/// than the width.
proof fn lemma_fitting_width(cells: Seq<Cell>, width: nat)
    requires
        fits(cells, width),
        cells_within(cells, width),
    ensures
        cells_width(cells) <= width,
{
    assert forall|j: int| 0 <= j <= cells.len() implies cells_width(#[trigger] cells.take(j))
        <= width by {
        lemma_take_width(cells, width, j);
    }
    assert(cells.take(cells.len() as int) == cells);
}

proof fn lemma_take_width(cells: Seq<Cell>, width: nat, j: int)
    requires
        fits(cells, width),
        cells_within(cells, width),
        0 <= j <= cells.len(),
    ensures
        cells_width(cells.take(j)) <= width,
    decreases j,
{
    if j == 0 {
        lemma_empty_cells();
        assert(cells.take(0) == Seq::<Cell>::empty());
    } else {
        lemma_take_width(cells, width, j - 1);
        lemma_cells_width_take(cells, j - 1);
        if cells_width(cells.take(j - 1)) == 0 {
            assert(cell_width(cells[j - 1].1) <= width);
        }
    }
}

/// The cells of every line of a sequence of lines are among its cells, so a
/// bound on the width of each cell holds line by line.
proof fn lemma_lines_cells_within(lines: Seq<Seq<SpanView>>, limit: nat, k: int)
    requires
        cells_within(lines_cells(lines), limit),
        0 <= k < lines.len(),
    ensures
        cells_within(spans_cells(lines[k]), limit),
    decreases lines.len(),
{
    lemma_lines_cells_push(lines.drop_last(), lines.last());
    assert(lines == lines.drop_last().push(lines.last()));
    let front = lines_cells(lines.drop_last());
    let back = spans_cells(lines.last());
    if k == lines.len() - 1 {
        assert forall|j: int| 0 <= j < back.len() implies cell_width((#[trigger] back[j]).1)
            <= limit by {
            assert(lines_cells(lines)[front.len() + j] == back[j]);
        }
    } else {
        assert forall|j: int| 0 <= j < front.len() implies cell_width((#[trigger] front[j]).1)
            <= limit by {
            assert(lines_cells(lines)[j] == front[j]);
        }
        lemma_lines_cells_within(lines.drop_last(), limit, k);
        assert(lines.drop_last()[k] == lines[k]);
    }
}

/// Every line of a wrapping of cells no wider than the width is itself no
/// wider than the width.
pub proof fn lemma_wrapped_lines_within(cells: Seq<Cell>, width: nat, k: int)
    requires
        width >= 1,
        cells_within(cells, width),
        0 <= k < wrapping_of(cells, width).len(),
    ensures
        cells_width(spans_cells(wrapping_of(cells, width)[k])) <= width,
{
    lemma_wrapping_exists(cells, width);
    let ls = wrapping_of(cells, width);
    lemma_lines_cells_within(ls, width, k);
    lemma_fitting_width(spans_cells(ls[k]), width);
}

/// The width of cells one after another is the sum of their widths.
pub proof fn lemma_cells_width_concat(a: Seq<Cell>, b: Seq<Cell>)
    ensures
        cells_width(a + b) == cells_width(a) + cells_width(b),
    decreases b.len(),
{
    lemma_empty_cells();
    if b.len() == 0 {
        assert(a + b =~= a);
        assert(b =~= Seq::<Cell>::empty());
    } else {
        let init = b.drop_last();
        let c = b.last();
        lemma_cells_width_concat(a, init);
        assert(a + b == (a + init).push(c)) by {
            assert(a + b =~= (a + init).push(c));
        }
        assert(b == init.push(c)) by {
            assert(b =~= init.push(c));
        }
        lemma_cells_width_push(a + init, c);
        lemma_cells_width_push(init, c);
    }
}

/// No cells take no columns.
pub proof fn lemma_cells_width_empty()
    ensures
        cells_width(Seq::<Cell>::empty()) == 0,
{
    lemma_empty_cells();
}

} // verus!
