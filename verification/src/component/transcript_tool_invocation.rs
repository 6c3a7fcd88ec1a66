//! A tool call in the transcript: its title, its details, and a preview of
//! its output.

use vstd::prelude::*;

use crate::component::line::{LineComponent, components_view, push_line};
use crate::style::{Span, SpanView, Style, spans_view};
use crate::text::{
    append_str, chars_of, concat, decimal, decimal_string, lines_of, lines_str, push_char,
    string_from_range,
};
use crate::tool::{
    DetailView, ToolInvocation, ToolResult, invocation_text, kind_details, opt_chars, output_spec,
};
use crate::width::{cell_width, display_width};

verus! {

/// The columns a sequence of characters takes when drawn.
pub open spec fn chars_width(s: Seq<char>) -> nat
    decreases s.len(),
{
    if s.len() == 0 {
        0
    } else {
        chars_width(s.drop_last()) + cell_width(s.last())
    }
}

/// Counting from character `j`, how many leading characters of `line` fit
/// in `width` columns.
pub open spec fn fit_count_from(line: Seq<char>, width: nat, j: nat) -> nat
    decreases line.len() - j,
{
    if j < line.len() && chars_width(line.take(j as int + 1)) <= width {
        fit_count_from(line, width, j + 1)
    } else {
        j
    }
}

/// How many leading characters of `line` fit in `width` columns.
pub open spec fn fit_count(line: Seq<char>, width: nat) -> nat {
    fit_count_from(line, width, 0)
}

/// Of the first `k` characters, how many remain once characters are dropped
/// from the end until three dots fit after them.
pub open spec fn room_for_dots(line: Seq<char>, k: nat, width: nat) -> nat
    decreases k,
{
    if k == 0 || chars_width(line.take(k as int)) + 3 <= width {
        k
    } else {
        room_for_dots(line, (k - 1) as nat, width)
    }
}

/// A line shortened to `width` columns: the line itself when it fits, or as
/// much of it as leaves room for `...` followed by `...`.
pub open spec fn preview_spec(line: Seq<char>, width: nat) -> Seq<char> {
    let k = fit_count(line, width);
    if k >= line.len() {
        line
    } else {
        line.take(room_for_dots(line, k, width) as int) + seq!['.', '.', '.']
    }
}

/// The dot before a call's title.
pub open spec fn dot() -> Seq<char> {
    seq!['●']
}

/// The gutter of a call's detail and output lines.
pub open spec fn tool_gutter() -> SpanView {
    (Style::Muted, seq![' ', ' ', '│', ' '])
}

/// The title line: a dot in the call's state color and the title: running
/// while there is no result, failed or finished once there is one.
pub open spec fn tool_title(invocation: ToolInvocation, result: Option<ToolResult>) -> Seq<
    SpanView,
> {
    let text = invocation_text(invocation.kind);
    let (style, title) = match result {
        Option::Some(r) => if r.outcome != crate::tool::ToolOutcome::Success {
            (
                Style::Danger,
                seq!['F', 'a', 'i', 'l', 'e', 'd', ' ', 'r', 'u', 'n', 'n', 'i', 'n', 'g', ' ']
                    + text,
            )
        } else {
            (Style::Success, seq!['R', 'a', 'n', ' '] + text)
        },
        Option::None => (Style::Accent, seq!['R', 'u', 'n', 'n', 'i', 'n', 'g', ' '] + text),
    };
    seq![(style, dot()), (Style::Plain, seq![' ']), (Style::Plain, title)]
}

/// The details shown under a call: those of its kind, then its exit status
/// when that is not zero.
pub open spec fn tool_details(invocation: ToolInvocation, result: Option<ToolResult>) -> Seq<
    DetailView,
> {
    let d = kind_details(invocation.kind);
    match result {
        Option::Some(r) => match r.exit_status {
            Option::Some(status) => if status != 0 {
                d.push((seq!['e', 'x', 'i', 't'], decimal_i32(status)))
            } else {
                d
            },
            Option::None => d,
        },
        Option::None => d,
    }
}

/// A signed number written in decimal.
pub open spec fn decimal_i32(n: i32) -> Seq<char> {
    if n < 0 {
        seq!['-'] + decimal((-(n as int)) as nat)
    } else {
        decimal(n as nat)
    }
}

/// The line of a detail: the gutter, the muted label and a space, and the
/// value.
pub open spec fn detail_line(d: DetailView) -> Seq<SpanView> {
    seq![tool_gutter(), (Style::Muted, d.0.push(' ')), (Style::Plain, d.1)]
}

/// How many output lines are previewed.
pub open spec fn output_limit() -> nat {
    3
}

/// The output lines that are shown: the non-empty lines of the output.
pub open spec fn output_lines(output: Seq<char>) -> Seq<Seq<char>> {
    lines_of(output).filter(non_empty_line())
}

/// Whether a line has text.
pub open spec fn non_empty_line() -> spec_fn(Seq<char>) -> bool {
    |l: Seq<char>| l.len() > 0
}

/// The line of a previewed output line.
pub open spec fn output_line(line: Seq<char>, width: nat) -> Seq<SpanView> {
    seq![tool_gutter(), (Style::Plain, preview_spec(line, width))]
}

/// The note that some output lines were left out.
pub open spec fn omitted_line(omitted: nat) -> Seq<SpanView> {
    seq![
        tool_gutter(),
        (
            Style::Muted,
            seq!['.', '.', '.', ' '] + decimal(omitted) + if omitted == 1 {
                seq![' ', 'm', 'o', 'r', 'e', ' ', 'l', 'i', 'n', 'e']
            } else {
                seq![' ', 'm', 'o', 'r', 'e', ' ', 'l', 'i', 'n', 'e', 's']
            },
        ),
    ]
}

/// The columns output previews may take: five fewer than the width, but at
/// least eight.
pub open spec fn output_width(width: nat) -> nat {
    if width >= 13 {
        (width - 5) as nat
    } else {
        8
    }
}

/// The preview of a call's output: its first three non-empty lines,
/// shortened, and a note of how many more there are.
pub open spec fn output_section(output: Option<Seq<char>>, width: nat) -> Seq<Seq<SpanView>> {
    match output {
        Option::None => Seq::<Seq<SpanView>>::empty(),
        Option::Some(o) => {
            let lines = output_lines(o);
            let shown = if lines.len() > output_limit() {
                lines.take(output_limit() as int)
            } else {
                lines
            };
            let previews = shown.map_values(|l: Seq<char>| output_line(l, output_width(width)));
            if lines.len() > output_limit() {
                previews.push(omitted_line((lines.len() - output_limit()) as nat))
            } else {
                previews
            }
        },
    }
}

/// What a tool call renders to: its title, its details, and its output.
pub open spec fn tool_invocation_spec(
    invocation: ToolInvocation,
    result: Option<ToolResult>,
    width: nat,
) -> Seq<Seq<SpanView>> {
    let output = match result {
        Option::Some(r) => output_spec(opt_chars(r.stdout), opt_chars(r.stderr)),
        Option::None => None,
    };
    seq![tool_title(invocation, result)] + tool_details(invocation, result).map_values(
        |d: DetailView| detail_line(d),
    ) + output_section(output, width)
}

/// A signed number written in decimal.
pub fn decimal_i32_string(n: i32) -> (r: String)
    ensures
        r@ == decimal_i32(n),
{
    if n < 0 {
        let m: u128 = if n == i32::MIN { 2147483648 } else { (-n) as u128 };
        let digits = decimal_string(m);
        proof {
            reveal_strlit("-");
        }
        let r = concat("-", digits.as_str());
        assert(r@ =~= decimal_i32(n));
        r
    } else {
        decimal_string(n as u128)
    }
}

proof fn lemma_fit_count_from_bounds(line: Seq<char>, width: nat, j: nat)
    requires
        j <= line.len(),
    ensures
        j <= fit_count_from(line, width, j) <= line.len(),
    decreases line.len() - j,
{
    if j < line.len() && chars_width(line.take(j as int + 1)) <= width {
        lemma_fit_count_from_bounds(line, width, j + 1);
    }
}

proof fn lemma_room_for_dots_bound(line: Seq<char>, k: nat, width: nat)
    ensures
        room_for_dots(line, k, width) <= k,
    decreases k,
{
    if !(k == 0 || chars_width(line.take(k as int)) + 3 <= width) {
        lemma_room_for_dots_bound(line, (k - 1) as nat, width);
    }
}

/// A tool call in the transcript, with its result once there is one.
#[derive(Debug)]
pub struct TranscriptToolInvocationComponent<'a> {
    pub invocation: &'a ToolInvocation,
    pub result: Option<&'a ToolResult>,
}

/// An optional reference, as an optional value.
pub open spec fn deref_opt<T>(r: Option<&T>) -> Option<T> {
    match r {
        Option::Some(v) => Some(*v),
        Option::None => None,
    }
}

impl<'a> TranscriptToolInvocationComponent<'a> {
    /// The line shortened to `width` columns, with `...` where it was cut.
    pub fn preview(line: &str, width: usize) -> (r: String)
        ensures
            r@ == preview_spec(line@, width as nat),
    {
        let chars = chars_of(line);
        let n = chars.len();
        let mut k: usize = 0;
        let mut used: usize = 0;
        proof {
            assert(line@.take(0) =~= Seq::<char>::empty());
        }
        while k < n && display_width(chars[k]) <= width - used
            invariant
                n == chars@.len(),
                chars@ == line@,
                k <= n,
                used == chars_width(line@.take(k as int)),
                used <= width,
                fit_count_from(line@, width as nat, k as nat) == fit_count(line@, width as nat),
            decreases n - k,
        {
            proof {
                assert(line@.take(k + 1).drop_last() =~= line@.take(k as int));
            }
            used = used + display_width(chars[k]);
            k = k + 1;
        }
        proof {
            if k < n {
                assert(line@.take(k + 1).drop_last() =~= line@.take(k as int));
            }
            assert(fit_count(line@, width as nat) == k);
        }
        if k == n {
            assert(line@.take(n as int) =~= line@);
            return string_from_range(&chars, 0, n);
        }
        let mut m: usize = k;
        while m > 0 && (width < 3 || used > width - 3)
            invariant
                n == chars@.len(),
                used <= width,
                chars@ == line@,
                m <= k < n,
                used == chars_width(line@.take(m as int)),
                room_for_dots(line@, m as nat, width as nat) == room_for_dots(
                    line@,
                    k as nat,
                    width as nat,
                ),
            decreases m,
        {
            proof {
                assert(line@.take(m as int).drop_last() =~= line@.take(m - 1));
            }
            used = used - display_width(chars[m - 1]);
            m = m - 1;
        }
        let mut r = string_from_range(&chars, 0, m);
        proof {
            reveal_strlit("...");
            assert("..."@ =~= seq!['.', '.', '.']);
            assert(chars@.subrange(0, m as int) =~= line@.take(m as int));
        }
        append_str(&mut r, "...");
        r
    }

    /// The component of a call and its result.
    pub fn new(invocation: &'a ToolInvocation, result: Option<&'a ToolResult>) -> (r:
        TranscriptToolInvocationComponent<'a>)
        ensures
            r.invocation == invocation,
            r.result == result,
    {
        TranscriptToolInvocationComponent { invocation, result }
    }

    /// The details shown under the call, with their labels.
    pub fn details(&self) -> (r: Vec<(&'static str, String)>)
        ensures
            r@.map_values(|d: (&'static str, String)| (d.0@, d.1@)) == tool_details(
                *self.invocation,
                deref_opt(self.result),
            ),
    {
        let mut details = self.invocation.kind.details();
        let ghost before = details@;
        match self.result {
            Some(result) => match result.exit_status {
                Some(status) => {
                    if status != 0 {
                        proof {
                            reveal_strlit("exit");
                            assert("exit"@ =~= seq!['e', 'x', 'i', 't']);
                        }
                        details.push(("exit", decimal_i32_string(status)));
                        assert(details@.map_values(|d: (&'static str, String)| (d.0@, d.1@))
                            =~= before.map_values(|d: (&'static str, String)| (d.0@, d.1@)).push(
                            (seq!['e', 'x', 'i', 't'], decimal_i32(status)),
                        ));
                    }
                },
                None => {},
            },
            None => {},
        }
        details
    }

    /// The title, the details, and a preview of the output.
    pub fn render(&self, width: u16) -> (r: Vec<LineComponent>)
        ensures
            components_view(r@) == tool_invocation_spec(
                *self.invocation,
                deref_opt(self.result),
                width as nat,
            ),
    {
        let ghost inv = *self.invocation;
        let ghost res = deref_opt(self.result);
        proof {
            reveal_strlit("●");
            reveal_strlit(" ");
            reveal_strlit("  │ ");
            assert("●"@ =~= seq!['●']);
            assert(" "@ =~= seq![' ']);
            assert("  │ "@ =~= seq![' ', ' ', '│', ' ']);
        }
        let (style, title) = match self.result {
            Some(result) => if result.is_error() {
                (Style::Danger, self.invocation.failed_tense())
            } else {
                (Style::Success, self.invocation.completed_tense())
            },
            None => (Style::Accent, self.invocation.progressive_tense()),
        };
        let mut r: Vec<LineComponent> = Vec::new();
        let spans = vec![Span::styled("●", style), Span::raw(" "), Span { style: Style::Plain, text: title }];
        assert(spans_view(spans@) =~= tool_title(inv, res));
        push_line(&mut r, LineComponent::from(spans));
        let details = self.details();
        let ghost dv = details@.map_values(|d: (&'static str, String)| (d.0@, d.1@));
        let nd = details.len();
        for i in 0..nd
            invariant
                nd == details@.len(),
                dv == details@.map_values(|d: (&'static str, String)| (d.0@, d.1@)),
                dv == tool_details(inv, res),
                components_view(r@) == seq![tool_title(inv, res)] + dv.map_values(
                    |d: DetailView| detail_line(d),
                ).take(i as int),
                "  │ "@ == seq![' ', ' ', '│', ' '],
        {
            let (label, value) = &details[i];
            let mut label_text = crate::text::copy_str(label);
            push_char(&mut label_text, ' ');
            let spans = vec![
                Span::styled("  │ ", Style::Muted),
                Span { style: Style::Muted, text: label_text },
                Span::raw(value.as_str()),
            ];
            assert(spans_view(spans@) =~= detail_line(dv[i as int]));
            push_line(&mut r, LineComponent::from(spans));
            assert(dv.map_values(|d: DetailView| detail_line(d)).take(i + 1) =~= dv.map_values(
                |d: DetailView| detail_line(d),
            ).take(i as int).push(detail_line(dv[i as int])));
        }
        let ghost head = components_view(r@);
        assert(dv.map_values(|d: DetailView| detail_line(d)).take(nd as int) =~= dv.map_values(
            |d: DetailView| detail_line(d),
        ));
        let output = match self.result {
            Some(result) => result.output(),
            None => None,
        };
        let ghost out = opt_chars(output);
        match output {
            None => {
                assert(components_view(r@) =~= tool_invocation_spec(inv, res, width as nat));
            },
            Some(output) => {
                let section = render_output(output.as_str(), width);
                crate::component::line::append_lines(&mut r, section);
            },
        }
        r
    }
}

/// The preview lines of a call's output.
fn render_output(output: &str, width: u16) -> (r: Vec<LineComponent>)
    ensures
        components_view(r@) == output_section(Some(output@), width as nat),
{
    let all = lines_str(output);
    let mut shown: Vec<String> = Vec::new();
    let n = all.len();
    let ghost lv = lines_of(output@);
    let ghost pred = non_empty_line();
    assert(lv.take(0) =~= Seq::<Seq<char>>::empty());
    for i in 0..n
        invariant
            n == all@.len(),
            n == lv.len(),
            lv == lines_of(output@),
            pred == non_empty_line(),
            forall|j: int| 0 <= j < n ==> #[trigger] all@[j]@ == lv[j],
            shown@.map_values(|t: String| t@) == lv.take(i as int).filter(pred),
    {
        proof {
            assert(lv.take(i + 1).drop_last() =~= lv.take(i as int));
            assert(lv.take(i + 1).last() == lv[i as int]);
            reveal_with_fuel(Seq::<_>::filter, 1);
            assert(all@[i as int]@ == lv[i as int]);
        }
        if !all[i].as_str().is_empty() {
            let t = crate::text::copy_str(all[i].as_str());
            let ghost before = shown@;
            shown.push(t);
            assert(shown@.map_values(|t: String| t@) =~= before.map_values(|t: String| t@).push(
                lv[i as int],
            ));
        }
    }
    assert(lv.take(n as int) =~= lv);
    let ghost lines = output_lines(output@);
    assert(shown@.map_values(|t: String| t@) == lines);
    let out_width: usize = if width >= 13 { (width - 5) as usize } else { 8 };
    let total = shown.len();
    let limit: usize = 3;
    let count = if total > limit { limit } else { total };
    let ghost kept = if lines.len() > output_limit() {
        lines.take(output_limit() as int)
    } else {
        lines
    };
    let ghost previews = kept.map_values(|l: Seq<char>| output_line(l, out_width as nat));
    let mut r: Vec<LineComponent> = Vec::new();
    proof {
        reveal_strlit("  │ ");
        assert("  │ "@ =~= seq![' ', ' ', '│', ' ']);
    }
    for i in 0..count
        invariant
            count <= total,
            total == shown@.len(),
            lines == shown@.map_values(|t: String| t@),
            count == kept.len(),
            kept == (if lines.len() > output_limit() {
                lines.take(output_limit() as int)
            } else {
                lines
            }),
            previews == kept.map_values(|l: Seq<char>| output_line(l, out_width as nat)),
            components_view(r@) == previews.take(i as int),
            "  │ "@ == seq![' ', ' ', '│', ' '],
    {
        let p = TranscriptToolInvocationComponent::preview(shown[i].as_str(), out_width);
        let spans = vec![Span::styled("  │ ", Style::Muted), Span { style: Style::Plain, text: p }];
        assert(kept[i as int] == lines[i as int]);
        assert(spans_view(spans@) =~= output_line(kept[i as int], out_width as nat));
        push_line(&mut r, LineComponent::from(spans));
        assert(previews.take(i + 1) =~= previews.take(i as int).push(previews[i as int]));
    }
    assert(previews.take(count as int) =~= previews);
    assert(out_width as nat == output_width(width as nat));
    if total > limit {
        let omitted = total - limit;
        proof {
            reveal_strlit("... ");
            reveal_strlit(" more line");
            reveal_strlit(" more lines");
            assert("... "@ =~= seq!['.', '.', '.', ' ']);
            assert(" more line"@ =~= seq![' ', 'm', 'o', 'r', 'e', ' ', 'l', 'i', 'n', 'e']);
            assert(" more lines"@ =~= seq![' ', 'm', 'o', 'r', 'e', ' ', 'l', 'i', 'n', 'e', 's']);
        }
        let digits = decimal_string(omitted as u128);
        let mut note = concat("... ", digits.as_str());
        if omitted == 1 {
            append_str(&mut note, " more line");
        } else {
            append_str(&mut note, " more lines");
        }
        let spans = vec![Span::styled("  │ ", Style::Muted), Span { style: Style::Muted, text: note }];
        assert(spans_view(spans@) =~= omitted_line(omitted as nat));
        push_line(&mut r, LineComponent::from(spans));
    }
    r
}

} // verus!
