//! The composer: queued inputs, the text being typed with its cursor, and
//! the menu of matching commands.

use vstd::prelude::*;

use std::collections::VecDeque;

use crate::command::{Command, command_description, command_name};
use crate::component::guttered_lines::{GutteredLinesComponent, guttered_spec};
use crate::component::line::{
    LineComponent, append_lines, blank_line, components_view, push_line, raw_lines,
};
use crate::component::queued_inputs::{queue_chars, queued_input_lines, queued_label, queued_label_line};
use crate::composer::{Composer, matching_commands, selected_index_of};
use crate::style::{Span, SpanView, Style, spans_view};
use crate::text::{char_string, chars_of, split_on, string_from_range};

verus! {

/// Every queued input behind the gutter, one after another.
pub open spec fn guttered_inputs(inputs: Seq<Seq<char>>, width: nat) -> Seq<Seq<SpanView>>
    decreases inputs.len(),
{
    if inputs.len() == 0 {
        Seq::<Seq<SpanView>>::empty()
    } else {
        guttered_inputs(inputs.drop_last(), width) + guttered_spec(
            raw_lines(split_on(inputs.last(), '\n')),
            width,
        )
    }
}

/// The queued inputs under one label, followed by a blank line; nothing
/// when none are queued.
pub open spec fn queued_block(inputs: Seq<Seq<char>>, width: nat) -> Seq<Seq<SpanView>> {
    if inputs.len() == 0 {
        Seq::<Seq<SpanView>>::empty()
    } else {
        seq![queued_label()] + guttered_inputs(inputs, width) + seq![blank_line()]
    }
}

/// The line the cursor is on: the text before the cursor, the character
/// under it (a space past the end) in the selection style, and the rest.
pub open spec fn cursor_line(line: Seq<char>, column: nat) -> Seq<SpanView> {
    if column < line.len() {
        seq![
            (Style::Plain, line.take(column as int)),
            (Style::Selection, seq![line[column as int]]),
            (Style::Plain, line.skip(column + 1int)),
        ]
    } else {
        seq![
            (Style::Plain, line),
            (Style::Selection, seq![' ']),
            (Style::Plain, Seq::<char>::empty()),
        ]
    }
}

/// The lines of text, the cursor's line showing the cursor.
pub open spec fn text_lines(lines: Seq<Seq<char>>, cursor: (nat, nat)) -> Seq<Seq<SpanView>> {
    Seq::new(
        lines.len(),
        |row: int|
            if row == cursor.0 {
                cursor_line(lines[row], cursor.1)
            } else {
                seq![(Style::Plain, lines[row])]
            },
    )
}

/// A command in the menu: its input, in the accent style when selected,
/// and its description.
pub open spec fn command_line(c: Command, selected: bool) -> Seq<SpanView> {
    seq![
        (if selected { Style::Accent } else { Style::Secondary }, seq!['/'] + command_name(c)),
        (Style::Muted, "  "@),
        (Style::Muted, command_description(c)),
    ]
}

/// The menu of commands, the one at `selected` highlighted.
pub open spec fn command_lines(commands: Seq<Command>, selected: Option<nat>) -> Seq<
    Seq<SpanView>,
> {
    Seq::new(
        commands.len(),
        |i: int| command_line(commands[i], selected == Option::Some(i as nat)),
    )
}

/// What the composer renders to: the queued inputs, the text behind the
/// gutter, and, when a command is selected, a blank line and the menu.
pub open spec fn composer_spec(
    lines: Seq<Seq<char>>,
    cursor: (nat, nat),
    index: nat,
    queued: Seq<Seq<char>>,
    width: nat,
) -> Seq<Seq<SpanView>> {
    let selected = selected_index_of(lines, index);
    queued_block(queued, width) + guttered_spec(text_lines(lines, cursor), width) + (
    if selected is Some {
        seq![blank_line()]
    } else {
        Seq::<Seq<SpanView>>::empty()
    }) + command_lines(matching_commands(lines), selected)
}

/// The line of text the cursor is on.
fn cursor_line_component(line: &str, column: usize) -> (r: LineComponent)
    ensures
        r@ == cursor_line(line@, column as nat),
{
    let chars = chars_of(line);
    let n = chars.len();
    let spans = if column < n {
        vec![
            Span { style: Style::Plain, text: string_from_range(&chars, 0, column) },
            Span { style: Style::Selection, text: char_string(chars[column]) },
            Span { style: Style::Plain, text: string_from_range(&chars, column + 1, n) },
        ]
    } else {
        vec![
            Span { style: Style::Plain, text: string_from_range(&chars, 0, n) },
            Span { style: Style::Selection, text: char_string(' ') },
            Span { style: Style::Plain, text: String::new() },
        ]
    };
    proof {
        assert(chars@.subrange(0, column as int) =~= line@.take(column as int));
        assert(chars@.subrange(column + 1, n as int) =~= line@.skip(column + 1));
        assert(chars@.subrange(0, n as int) =~= line@);
        assert(spans_view(spans@) =~= cursor_line(line@, column as nat));
    }
    LineComponent::from(spans)
}

/// The menu line of a command.
fn command_line_component(c: Command, selected: bool) -> (r: LineComponent)
    ensures
        r@ == command_line(c, selected),
{
    let style = if selected { Style::Accent } else { Style::Secondary };
    let spans = vec![
        Span { style, text: c.input() },
        Span::styled("  ", Style::Muted),
        Span::styled(c.description(), Style::Muted),
    ];
    assert(spans_view(spans@) =~= command_line(c, selected));
    LineComponent::from(spans)
}

/// The composer, with the inputs queued while a run is in progress.
#[derive(Debug)]
pub struct ComposerComponent<'a> {
    pub composer: &'a Composer,
    pub queued_inputs: &'a VecDeque<String>,
}

impl<'a> ComposerComponent<'a> {
    /// The queued inputs, the text and its cursor behind the gutter, and the
    /// menu of matching commands.
    pub fn render(&self, width: u16) -> (r: Vec<LineComponent>)
        ensures
            components_view(r@) == composer_spec(
                self.composer.text(),
                self.composer.cursor_at(),
                self.composer.command_position(),
                queue_chars(self.queued_inputs@),
                width as nat,
            ),
    {
        let mut lines: Vec<LineComponent> = Vec::new();
        let ghost queued = queue_chars(self.queued_inputs@);
        let q = self.queued_inputs.len();
        if q > 0 {
            push_line(&mut lines, queued_label_line());
            assert(queued.take(0) =~= Seq::<Seq<char>>::empty());
            for i in 0..q
                invariant
                    q == self.queued_inputs@.len(),
                    queued == queue_chars(self.queued_inputs@),
                    components_view(lines@) == seq![queued_label()] + guttered_inputs(
                        queued.take(i as int),
                        width as nat,
                    ),
            {
                proof {
                    assert(queued.take(i + 1).drop_last() =~= queued.take(i as int));
                    assert(queued.take(i + 1).last() == self.queued_inputs@[i as int]@);
                }
                append_lines(&mut lines, queued_input_lines(self.queued_inputs[i].as_str(), width));
            }
            assert(queued.take(q as int) =~= queued);
            push_line(&mut lines, LineComponent::blank());
        }
        assert(components_view(lines@) =~= queued_block(queued, width as nat));
        let ghost before = components_view(lines@);

        let cursor = self.composer.cursor();
        let selected = self.composer.selected_command_index();
        let text = self.composer.lines();
        let ghost tv = self.composer.text();
        let ghost cur = self.composer.cursor_at();
        let n = text.len();
        let mut shown: Vec<LineComponent> = Vec::new();
        for row in 0..n
            invariant
                n == tv.len(),
                text@.map_values(|s: String| s@) == tv,
                cur == (cursor.0 as nat, cursor.1 as nat),
                components_view(shown@) == text_lines(tv, cur).take(row as int),
        {
            assert(text@[row as int]@ == tv[row as int]);
            let line = if cursor.0 != row {
                LineComponent::raw(text[row].as_str())
            } else {
                cursor_line_component(text[row].as_str(), cursor.1)
            };
            push_line(&mut shown, line);
            assert(components_view(shown@) =~= text_lines(tv, cur).take(row + 1));
        }
        assert(text_lines(tv, cur).take(n as int) =~= text_lines(tv, cur));
        append_lines(&mut lines, GutteredLinesComponent::new(shown).render(width));
        let ghost middle = components_view(lines@);

        if selected.is_some() {
            push_line(&mut lines, LineComponent::blank());
        }
        let ghost with_blank = components_view(lines@);
        let commands = self.composer.commands();
        let ghost sel = selected_index_of(tv, self.composer.command_position());
        let m = commands.len();
        let mut menu: Vec<LineComponent> = Vec::new();
        for i in 0..m
            invariant
                m == commands@.len(),
                commands@ == matching_commands(tv),
                sel == match selected {
                    Option::Some(k) => Option::Some(k as nat),
                    Option::None => Option::<nat>::None,
                },
                components_view(menu@) == command_lines(commands@, sel).take(i as int),
        {
            let is_selected = match selected {
                Some(k) => k == i,
                None => false,
            };
            push_line(&mut menu, command_line_component(commands[i], is_selected));
            assert(components_view(menu@) =~= command_lines(commands@, sel).take(i + 1));
        }
        assert(command_lines(commands@, sel).take(m as int) =~= command_lines(commands@, sel));
        append_lines(&mut lines, menu);
        lines
    }
}

} // verus!
