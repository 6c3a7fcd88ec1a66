//! The menu of slash commands that the composed text matches.

use vstd::prelude::*;

use crate::command::{Command, command_description, command_name};
use crate::component::line::{LineComponent, components_view, push_line};
use crate::composer::{Composer, matching_commands, selected_index_of};
use crate::style::{Span, SpanView, Style, spans_view};

verus! {

/// The pointer in front of the selected command.
pub open spec fn pointer() -> Seq<char> {
    "  ❯ "@
}

/// The blank in front of the other commands.
pub open spec fn no_pointer() -> Seq<char> {
    "    "@
}

/// A command in the menu: the pointer when selected, its input in bold
/// cyan when selected and gray otherwise, and its description in dark gray.
pub open spec fn menu_line(c: Command, selected: bool) -> Seq<SpanView> {
    seq![
        (Style::Plain, if selected { pointer() } else { no_pointer() }),
        (if selected { Style::CyanBold } else { Style::Gray }, seq!['/'] + command_name(c)),
        (Style::DarkGray, "  "@),
        (Style::DarkGray, command_description(c)),
    ]
}

/// The menu: one line per command, the one at `selected` pointed at.
pub open spec fn menu_lines(commands: Seq<Command>, selected: Option<nat>) -> Seq<
    Seq<SpanView>,
> {
    Seq::new(commands.len(), |i: int| menu_line(commands[i], selected == Option::Some(i as nat)))
}

/// The menu line of a command.
fn menu_line_component(c: Command, selected: bool) -> (r: LineComponent)
    ensures
        r@ == menu_line(c, selected),
{
    let prefix = if selected {
        Span::raw("  ❯ ")
    } else {
        Span::raw("    ")
    };
    let style = if selected { Style::CyanBold } else { Style::Gray };
    let spans = vec![
        prefix,
        Span { style, text: c.input() },
        Span::styled("  ", Style::DarkGray),
        Span::styled(c.description(), Style::DarkGray),
    ];
    assert(spans_view(spans@) =~= menu_line(c, selected));
    LineComponent::from(spans)
}

/// The commands that a composer's text matches, as a menu.
pub struct Commands<'a> {
    pub composer: &'a Composer,
}

impl<'a> Commands<'a> {
    /// The menu of `composer`'s matching commands.
    pub fn new(composer: &'a Composer) -> (r: Commands<'a>)
        ensures
            r.composer == composer,
    {
        Commands { composer }
    }

    /// The menu's lines, the selected command pointed at.
    pub fn lines(&self) -> (r: Vec<LineComponent>)
        ensures
            components_view(r@) == menu_lines(
                matching_commands(self.composer.text()),
                selected_index_of(self.composer.text(), self.composer.command_position()),
            ),
    {
        let commands = self.composer.commands();
        let selected = self.composer.selected_command_index();
        let ghost sel = selected_index_of(self.composer.text(), self.composer.command_position());
        let ghost all = menu_lines(commands@, sel);
        let m = commands.len();
        let mut menu: Vec<LineComponent> = Vec::new();
        for i in 0..m
            invariant
                m == commands@.len(),
                all == menu_lines(commands@, sel),
                sel == match selected {
                    Option::Some(k) => Option::Some(k as nat),
                    Option::None => Option::<nat>::None,
                },
                components_view(menu@) == all.take(i as int),
        {
            let is_selected = match selected {
                Some(k) => k == i,
                None => false,
            };
            push_line(&mut menu, menu_line_component(commands[i], is_selected));
            assert(components_view(menu@) =~= all.take(i + 1));
        }
        assert(all.take(m as int) =~= all);
        menu
    }
}

} // verus!
