//! Inputs typed while a run was in progress, waiting their turn.

use vstd::prelude::*;

use std::collections::VecDeque;

use crate::component::guttered_lines::{GutteredLinesComponent, guttered_spec};
use crate::component::line::{
    LineComponent, append_lines, blank_line, components_view, push_line, raw_lines,
};
use crate::style::{Span, SpanView, Style, spans_view};
use crate::text::{split_on, split_str};

verus! {

/// The label of a queued input.
pub open spec fn queued_label() -> Seq<SpanView> {
    seq![(Style::Muted, "Queued"@)]
}

/// The lines of the first `k` queued inputs: each labelled, behind the
/// gutter, and followed by a blank line.
pub open spec fn queued_spec(inputs: Seq<Seq<char>>, width: nat) -> Seq<Seq<SpanView>>
    decreases inputs.len(),
{
    if inputs.len() == 0 {
        Seq::<Seq<SpanView>>::empty()
    } else {
        queued_spec(inputs.drop_last(), width) + seq![queued_label()] + guttered_spec(
            raw_lines(split_on(inputs.last(), '\n')),
            width,
        ) + seq![blank_line()]
    }
}

/// The characters of each queued input.
pub open spec fn queue_chars(inputs: Seq<String>) -> Seq<Seq<char>> {
    inputs.map_values(|s: String| s@)
}

/// The label line of a queued input.
pub fn queued_label_line() -> (r: LineComponent)
    ensures
        r@ == queued_label(),
{
    let spans = vec![Span::styled("Queued", Style::Muted)];
    assert(spans_view(spans@) =~= queued_label());
    LineComponent::from(spans)
}

/// The lines of one queued input behind the gutter.
pub fn queued_input_lines(input: &str, width: u16) -> (r: Vec<LineComponent>)
    ensures
        components_view(r@) == guttered_spec(raw_lines(split_on(input@, '\n')), width as nat),
{
    let pieces = split_str(input, '\n');
    assert(pieces@.map_values(|t: String| t@) =~= split_on(input@, '\n'));
    GutteredLinesComponent::raw(pieces).render(width)
}

/// Inputs waiting their turn.
#[derive(Debug)]
pub struct QueuedInputsComponent<'a> {
    pub inputs: &'a VecDeque<String>,
}

impl<'a> QueuedInputsComponent<'a> {
    /// Each input labelled, behind the gutter, and followed by a blank line.
    pub fn render(&self, width: u16) -> (r: Vec<LineComponent>)
        ensures
            components_view(r@) == queued_spec(queue_chars(self.inputs@), width as nat),
    {
        let n = self.inputs.len();
        let ghost q = queue_chars(self.inputs@);
        let mut lines: Vec<LineComponent> = Vec::new();
        assert(q.take(0) =~= Seq::<Seq<char>>::empty());
        for i in 0..n
            invariant
                n == self.inputs@.len(),
                q == queue_chars(self.inputs@),
                components_view(lines@) == queued_spec(q.take(i as int), width as nat),
        {
            proof {
                assert(q.take(i + 1).drop_last() =~= q.take(i as int));
                assert(q.take(i + 1).last() == self.inputs@[i as int]@);
            }
            push_line(&mut lines, queued_label_line());
            append_lines(&mut lines, queued_input_lines(self.inputs[i].as_str(), width));
            push_line(&mut lines, LineComponent::blank());
        }
        assert(q.take(n as int) =~= q);
        lines
    }
}

} // verus!
