//! The screen for picking a previous session to resume.

use vstd::prelude::*;

use std::time::Duration;

use crate::component::header::{HeaderComponent, header_line};
use crate::component::line::{
    LineComponent, append_lines, blank_line, components_view, push_line,
};
use crate::style::{Span, SpanView, Style, spans_view};

verus! {

/// A previous session as the picker lists it.
#[derive(Debug)]
pub struct SessionEntry {
    pub title: Option<String>,
    pub detail: String,
}

/// The picker's state: what was typed to search, the sessions that match it
/// in order, and the position of the selected one among them.
#[derive(Debug)]
pub struct ResumePicker {
    pub query: String,
    pub selected: usize,
    pub matches: Vec<SessionEntry>,
}

impl ResumePicker {
    /// The sessions that match the search, in order.
    pub fn filtered(&self) -> (r: &[SessionEntry])
        ensures
            r@ == self.matches@,
    {
        self.matches.as_slice()
    }
}

/// How to use the picker.
pub open spec fn picker_instructions() -> Seq<SpanView> {
    seq![
        (Style::DarkGray, "Search previous sessions. Press "@),
        (Style::Gray, "Enter"@),
        (Style::DarkGray, " to resume, "@),
        (Style::Gray, "Esc"@),
        (Style::DarkGray, " to cancel."@),
    ]
}

/// The search line: what was typed, and a cursor after it.
pub open spec fn search_line(query: Seq<char>) -> Seq<SpanView> {
    seq![(Style::DarkGray, "Search: "@), (Style::Plain, query), (Style::Reverse, " "@)]
}

/// What is shown when no session matches.
pub open spec fn no_match_line() -> Seq<SpanView> {
    seq![(Style::DarkGray, "No matching sessions."@)]
}

/// A session's title, or `Untitled session` when it has none.
pub open spec fn entry_title(entry: SessionEntry) -> Seq<char> {
    match entry.title {
        Option::Some(t) => t@,
        Option::None => "Untitled session"@,
    }
}

/// A session's line: a marker and its title, in bold cyan when selected and
/// in gray otherwise, and its details in dark gray.
pub open spec fn entry_line(entry: SessionEntry, selected: bool) -> Seq<SpanView> {
    let style = if selected { Style::CyanBold } else { Style::Gray };
    seq![
        (style, if selected { "> "@ } else { "  "@ }),
        (style, entry_title(entry)),
        (Style::DarkGray, "  "@),
        (Style::DarkGray, entry.detail@),
    ]
}

/// What the picker renders to: a blank line, the header, the instructions,
/// the search line, and the matching sessions, with blank lines between.
pub open spec fn resume_spec(
    picker: ResumePicker,
    first_draw_duration: Option<Duration>,
) -> Seq<Seq<SpanView>> {
    let top = seq![
        blank_line(),
        header_line(first_draw_duration),
        blank_line(),
        picker_instructions(),
        blank_line(),
        search_line(picker.query@),
        blank_line(),
    ];
    let entries = picker.matches@;
    if entries.len() == 0 {
        top.push(no_match_line())
    } else {
        top + Seq::new(
            entries.len(),
            |i: int| entry_line(entries[i], i == picker.selected as int),
        )
    }
}

/// The picker screen.
#[derive(Debug)]
pub struct ResumePickerComponent<'a> {
    pub first_draw_duration: Option<Duration>,
    pub picker: &'a ResumePicker,
}

impl<'a> ResumePickerComponent<'a> {
    /// Shows the given picker, with the first draw's duration in the header.
    pub fn new(picker: &'a ResumePicker, first_draw_duration: Option<Duration>) -> (r:
        ResumePickerComponent<'a>)
        ensures
            r.picker == picker,
            r.first_draw_duration == first_draw_duration,
    {
        ResumePickerComponent { first_draw_duration, picker }
    }

    /// The picker's lines, whatever the width.
    pub fn render(&self, width: u16) -> (r: Vec<LineComponent>)
        ensures
            components_view(r@) == resume_spec(*self.picker, self.first_draw_duration),
    {
        let mut lines: Vec<LineComponent> = Vec::new();
        push_line(&mut lines, LineComponent::blank());
        append_lines(&mut lines, HeaderComponent::new(self.first_draw_duration).render(width));
        push_line(&mut lines, LineComponent::blank());
        let instructions = vec![
            Span::styled("Search previous sessions. Press ", Style::DarkGray),
            Span::styled("Enter", Style::Gray),
            Span::styled(" to resume, ", Style::DarkGray),
            Span::styled("Esc", Style::Gray),
            Span::styled(" to cancel.", Style::DarkGray),
        ];
        assert(spans_view(instructions@) =~= picker_instructions());
        push_line(&mut lines, LineComponent::from(instructions));
        push_line(&mut lines, LineComponent::blank());
        let search = vec![
            Span::styled("Search: ", Style::DarkGray),
            Span::raw(self.picker.query.as_str()),
            Span::styled(" ", Style::Reverse),
        ];
        assert(spans_view(search@) =~= search_line(self.picker.query@));
        push_line(&mut lines, LineComponent::from(search));
        push_line(&mut lines, LineComponent::blank());
        let ghost top = components_view(lines@);
        assert(top =~= seq![
            blank_line(),
            header_line(self.first_draw_duration),
            blank_line(),
            picker_instructions(),
            blank_line(),
            search_line(self.picker.query@),
            blank_line(),
        ]);
        let filtered = self.picker.filtered();
        let n = filtered.len();
        if n == 0 {
            let none = vec![Span::styled("No matching sessions.", Style::DarkGray)];
            assert(spans_view(none@) =~= no_match_line());
            push_line(&mut lines, LineComponent::from(none));
            return lines;
        }
        let ghost entries = self.picker.matches@;
        let ghost want = Seq::new(
            entries.len(),
            |i: int| entry_line(entries[i], i == self.picker.selected as int),
        );
        for index in 0..n
            invariant
                n == entries.len(),
                filtered@ == entries,
                entries == self.picker.matches@,
                want == Seq::new(
                    entries.len(),
                    |i: int| entry_line(entries[i], i == self.picker.selected as int),
                ),
                components_view(lines@) == top + want.take(index as int),
        {
            let selected = index == self.picker.selected;
            let style = if selected { Style::CyanBold } else { Style::Gray };
            let marker = if selected { "> " } else { "  " };
            let entry = &filtered[index];
            let title = match &entry.title {
                Some(t) => t.as_str(),
                None => "Untitled session",
            };
            let spans = vec![
                Span::styled(marker, style),
                Span::styled(title, style),
                Span::styled("  ", Style::DarkGray),
                Span::styled(entry.detail.as_str(), Style::DarkGray),
            ];
            assert(spans_view(spans@) =~= entry_line(entries[index as int], selected));
            push_line(&mut lines, LineComponent::from(spans));
            assert(top + want.take(index + 1) =~= (top + want.take(index as int)).push(
                want[index as int],
            ));
        }
        assert(want.take(n as int) =~= want);
        lines
    }
}

} // verus!
