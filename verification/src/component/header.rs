//! The header: the program's name and version, and how long the first draw
//! took.

use vstd::prelude::*;

use std::time::Duration;

use crate::component::line::{LineComponent, components_view};
use crate::duration_ext::{duration_millis, whole_millis};
use crate::style::{Span, SpanView, Style, spans_view};
use crate::text::{append_str, copy_str, decimal, decimal_string};

verus! {

/// The program's name.
pub open spec fn program_name() -> Seq<char> {
    "kotomori"@
}

/// The program's version.
pub open spec fn program_version() -> Seq<char> {
    "0.1.0"@
}

/// `first draw 42ms` for a first draw of 42 milliseconds.
pub open spec fn first_draw_text(millis: nat) -> Seq<char> {
    "first draw "@ + decimal(millis) + "ms"@
}

/// The header's one line: the name, the version, and the first draw's
/// duration in whole milliseconds when there is one.
pub open spec fn header_line(first_draw_duration: Option<Duration>) -> Seq<SpanView> {
    let base = seq![
        (Style::Accent, program_name()),
        (Style::Plain, "  "@),
        (Style::Muted, program_version()),
    ];
    match first_draw_duration {
        Option::Some(d) => base + seq![
            (Style::Muted, " · "@),
            (Style::Muted, first_draw_text(whole_millis(d))),
        ],
        Option::None => base,
    }
}

/// The header.
#[derive(Debug)]
pub struct HeaderComponent {
    pub first_draw_duration: Option<Duration>,
}

impl HeaderComponent {
    /// A header that shows the first draw's duration, if one is given.
    pub fn new(first_draw_duration: Option<Duration>) -> (r: HeaderComponent)
        ensures
            r.first_draw_duration == first_draw_duration,
    {
        HeaderComponent { first_draw_duration }
    }

    /// The header's line, whatever the width.
    pub fn render(&self, width: u16) -> (r: Vec<LineComponent>)
        ensures
            components_view(r@) == seq![header_line(self.first_draw_duration)],
    {
        proof {
            reveal_strlit("kotomori");
            reveal_strlit("  ");
            reveal_strlit("0.1.0");
        }
        let mut spans = vec![
            Span::styled("kotomori", Style::Accent),
            Span::raw("  "),
            Span::styled("0.1.0", Style::Muted),
        ];
        let ghost base = spans_view(spans@);
        match self.first_draw_duration {
            Some(d) => {
                let mut text = copy_str("first draw ");
                proof {
                    reveal_strlit("first draw ");
                }
                let millis = decimal_string(duration_millis(d));
                append_str(&mut text, millis.as_str());
                append_str(&mut text, "ms");
                spans.push(Span::styled(" · ", Style::Muted));
                spans.push(Span { style: Style::Muted, text });
                proof {
                    reveal_strlit("ms");
                    assert(text@ =~= first_draw_text(whole_millis(d)));
                }
            },
            None => {},
        }
        let r = vec![LineComponent::from(spans)];
        proof {
            assert(spans_view(spans@) =~= header_line(self.first_draw_duration));
            assert(components_view(r@) =~= seq![header_line(self.first_draw_duration)]);
        }
        r
    }
}

/// The hint below the header.
pub open spec fn hint_line() -> Seq<SpanView> {
    seq![
        (Style::Muted, "Type a prompt. Press "@),
        (Style::Secondary, "Ctrl-C"@),
        (Style::Muted, " to quit."@),
    ]
}

/// How to prompt and how to quit.
#[derive(Debug)]
pub struct HintComponent;

impl HintComponent {
    /// The hint's line, whatever the width.
    pub fn render(&self, width: u16) -> (r: Vec<LineComponent>)
        ensures
            components_view(r@) == seq![hint_line()],
    {
        let spans = vec![
            Span::styled("Type a prompt. Press ", Style::Muted),
            Span::styled("Ctrl-C", Style::Secondary),
            Span::styled(" to quit.", Style::Muted),
        ];
        let r = vec![LineComponent::from(spans)];
        proof {
            assert(spans_view(spans@) =~= hint_line());
            assert(components_view(r@) =~= seq![hint_line()]);
        }
        r
    }
}

} // verus!
