//! Plain-vector lines between two horizontal rules.

use vstd::prelude::*;

use crate::component::framed_lines::{at_least_one, rule_line, rule_string};
use crate::line::{Line, line_render_spec, lines_of_view};
use crate::style::{Span, SpanView, Style, spans_view};

verus! {

/// Every line rendered at `width`, one after another.
pub open spec fn line_render_all(lines: Seq<Seq<SpanView>>, width: nat) -> Seq<Seq<SpanView>>
    decreases lines.len(),
{
    if lines.len() == 0 {
        Seq::<Seq<SpanView>>::empty()
    } else {
        line_render_all(lines.drop_last(), width) + line_render_spec(lines.last(), width)
    }
}

/// What framed lines render to: a rule, the lines wrapped at the width, and
/// a rule, all at least one column wide.
pub open spec fn framed_lines_spec(lines: Seq<Seq<SpanView>>, width: nat) -> Seq<Seq<SpanView>> {
    let w = at_least_one(width);
    seq![rule_line(w)] + line_render_all(lines, w) + seq![rule_line(w)]
}

proof fn lemma_lines_of_view_push(lines: Seq<Line>, l: Line)
    ensures
        lines_of_view(lines.push(l)) == lines_of_view(lines).push(l@),
{
    assert(lines_of_view(lines.push(l)) =~= lines_of_view(lines).push(l@));
}

/// Moves the lines of `more` to the end of `out`.
fn append_plain_lines(out: &mut Vec<Line>, more: Vec<Line>)
    ensures
        lines_of_view(final(out)@) == lines_of_view(old(out)@) + lines_of_view(more@),
{
    let mut more = more;
    let ghost start = lines_of_view(out@);
    let ghost all = lines_of_view(more@);
    let n = more.len();
    let mut rev: Vec<Line> = Vec::new();
    while more.len() > 0
        invariant
            rev@.len() + more@.len() == n,
            all.len() == n,
            forall|j: int| 0 <= j < more@.len() ==> (#[trigger] more@[j])@ == all[j],
            forall|j: int| 0 <= j < rev@.len() ==> (#[trigger] rev@[j])@ == all[n - 1 - j],
        decreases more.len(),
    {
        let l = more.pop().unwrap();
        rev.push(l);
    }
    let mut k: usize = 0;
    while rev.len() > 0
        invariant
            rev@.len() + k == n,
            all.len() == n,
            forall|j: int| 0 <= j < rev@.len() ==> (#[trigger] rev@[j])@ == all[n - 1 - j],
            lines_of_view(out@) == start + all.take(k as int),
        decreases rev.len(),
    {
        let l = rev.pop().unwrap();
        let ghost before = out@;
        out.push(l);
        proof {
            lemma_lines_of_view_push(before, l);
            assert(all.take(k + 1) =~= all.take(k as int).push(all[k as int]));
        }
        k = k + 1;
    }
    assert(all.take(n as int) =~= all);
}

/// A rule of `width` columns in dark gray.
fn rule(width: u16) -> (r: Line)
    ensures
        r@ == rule_line(width as nat),
{
    let spans = vec![Span { style: Style::DarkGray, text: rule_string(width) }];
    assert(spans_view(spans@) =~= rule_line(width as nat));
    Line::from(spans)
}

/// Plain-vector lines between two horizontal rules.
#[derive(Clone, Debug)]
pub struct FramedLines {
    pub lines: Vec<Line>,
}

impl FramedLines {
    /// Frames the given lines.
    pub fn new(lines: Vec<Line>) -> (r: FramedLines)
        ensures
            r.lines@ == lines@,
    {
        FramedLines { lines }
    }

    /// Frames unstyled lines of the given texts.
    pub fn raw(texts: Vec<String>) -> (r: FramedLines)
        ensures
            lines_of_view(r.lines@) == texts@.map_values(
                |t: String| seq![(Style::Plain, t@)],
            ),
    {
        let n = texts.len();
        let ghost want = texts@.map_values(|t: String| seq![(Style::Plain, t@)]);
        let mut lines: Vec<Line> = Vec::new();
        for i in 0..n
            invariant
                n == texts@.len(),
                want == texts@.map_values(|t: String| seq![(Style::Plain, t@)]),
                lines_of_view(lines@) == want.take(i as int),
        {
            let l = Line::raw(texts[i].as_str());
            let ghost before = lines@;
            lines.push(l);
            proof {
                lemma_lines_of_view_push(before, l);
                assert(want.take(i + 1) =~= want.take(i as int).push(want[i as int]));
            }
        }
        assert(want.take(n as int) =~= want);
        FramedLines { lines }
    }

    /// A rule, the lines wrapped at `width`, and a rule.
    pub fn render(&self, width: u16) -> (r: Vec<Line>)
        ensures
            lines_of_view(r@) == framed_lines_spec(lines_of_view(self.lines@), width as nat),
    {
        let width: u16 = if width == 0 { 1 } else { width };
        let ghost lv = lines_of_view(self.lines@);
        let mut r: Vec<Line> = vec![rule(width)];
        assert(lines_of_view(r@) =~= seq![rule_line(width as nat)]);
        let n = self.lines.len();
        assert(lv.take(0) =~= Seq::<Seq<SpanView>>::empty());
        for i in 0..n
            invariant
                n == self.lines@.len(),
                lv == lines_of_view(self.lines@),
                lines_of_view(r@) == seq![rule_line(width as nat)] + line_render_all(
                    lv.take(i as int),
                    width as nat,
                ),
        {
            let more = self.lines[i].render(width);
            append_plain_lines(&mut r, more);
            proof {
                assert(lv.take(i + 1).drop_last() =~= lv.take(i as int));
                assert(lv[i as int] == self.lines@[i as int]@);
            }
        }
        assert(lv.take(n as int) =~= lv);
        let ghost before = r@;
        let last = rule(width);
        r.push(last);
        proof {
            lemma_lines_of_view_push(before, last);
        }
        r
    }
}

} // verus!
