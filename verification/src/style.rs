//! Text styles and styled spans of text.

use vstd::prelude::*;

use crate::text::{append_str, copy_str};

verus! {

/// How a span of text is drawn.
#[derive(Clone, Copy, Debug, PartialEq, Eq, Structural)]
pub enum Style {
    Accent,
    CyanBold,
    Danger,
    DarkGray,
    Gray,
    GreenBold,
    Muted,
    Plain,
    RedBold,
    Reverse,
    Secondary,
    Selection,
    Success,
}

/// The terminal escape sequence that switches to a style.
pub open spec fn style_sequence(style: Style) -> Seq<char> {
    match style {
        Style::Accent => seq!['\x1b', '[', '3', '6', 'm'],
        Style::CyanBold => seq!['\x1b', '[', '3', '6', ';', '1', 'm'],
        Style::Danger => seq!['\x1b', '[', '3', '1', 'm'],
        Style::DarkGray => seq!['\x1b', '[', '9', '0', 'm'],
        Style::Gray => seq!['\x1b', '[', '3', '7', 'm'],
        Style::GreenBold => seq!['\x1b', '[', '3', '2', ';', '1', 'm'],
        Style::Muted => seq!['\x1b', '[', '9', '0', 'm'],
        Style::Plain => seq!['\x1b', '[', '0', 'm'],
        Style::RedBold => seq!['\x1b', '[', '3', '1', ';', '1', 'm'],
        Style::Reverse => seq!['\x1b', '[', '7', 'm'],
        Style::Secondary => seq!['\x1b', '[', '3', '7', 'm'],
        Style::Selection => seq!['\x1b', '[', '7', 'm'],
        Style::Success => seq!['\x1b', '[', '3', '2', 'm'],
    }
}

impl Style {
    /// The terminal escape sequence that switches to this style.
    pub fn sequence(self) -> (r: &'static str)
        ensures
            r@ == style_sequence(self),
    {
        match self {
            Style::Accent => {
                proof {
                    reveal_strlit("\x1b[36m");
                }
                "\x1b[36m"
            },
            Style::CyanBold => {
                proof {
                    reveal_strlit("\x1b[36;1m");
                }
                "\x1b[36;1m"
            },
            Style::Danger => {
                proof {
                    reveal_strlit("\x1b[31m");
                }
                "\x1b[31m"
            },
            Style::DarkGray => {
                proof {
                    reveal_strlit("\x1b[90m");
                }
                "\x1b[90m"
            },
            Style::Gray => {
                proof {
                    reveal_strlit("\x1b[37m");
                }
                "\x1b[37m"
            },
            Style::GreenBold => {
                proof {
                    reveal_strlit("\x1b[32;1m");
                }
                "\x1b[32;1m"
            },
            Style::Muted => {
                proof {
                    reveal_strlit("\x1b[90m");
                }
                "\x1b[90m"
            },
            Style::Plain => {
                proof {
                    reveal_strlit("\x1b[0m");
                }
                "\x1b[0m"
            },
            Style::RedBold => {
                proof {
                    reveal_strlit("\x1b[31;1m");
                }
                "\x1b[31;1m"
            },
            Style::Reverse => {
                proof {
                    reveal_strlit("\x1b[7m");
                }
                "\x1b[7m"
            },
            Style::Secondary => {
                proof {
                    reveal_strlit("\x1b[37m");
                }
                "\x1b[37m"
            },
            Style::Selection => {
                proof {
                    reveal_strlit("\x1b[7m");
                }
                "\x1b[7m"
            },
            Style::Success => {
                proof {
                    reveal_strlit("\x1b[32m");
                }
                "\x1b[32m"
            },
        }
    }
}

/// A run of text drawn in one style.
#[derive(Clone, Debug, PartialEq, Eq)]
pub struct Span {
    pub style: Style,
    pub text: String,
}

/// What a span means: its style and its characters.
pub type SpanView = (Style, Seq<char>);

impl View for Span {
    type V = SpanView;

    open spec fn view(&self) -> SpanView {
        (self.style, self.text@)
    }
}

/// The views of a sequence of spans.
pub open spec fn spans_view(spans: Seq<Span>) -> Seq<SpanView> {
    spans.map_values(|s: Span| s@)
}

/// How a span is written to the terminal: plain text as it is, styled text
/// between its style's sequence and the reset sequence.
pub open spec fn display_span(s: SpanView) -> Seq<char> {
    if s.0 == Style::Plain {
        s.1
    } else {
        style_sequence(s.0) + s.1 + style_sequence(Style::Plain)
    }
}

/// How a sequence of spans is written to the terminal.
pub open spec fn display_spans(spans: Seq<SpanView>) -> Seq<char>
    decreases spans.len(),
{
    if spans.len() == 0 {
        Seq::<char>::empty()
    } else {
        display_spans(spans.drop_last()) + display_span(spans.last())
    }
}

impl Span {
    /// A copy of this span.
    pub fn copy(&self) -> (r: Span)
        ensures
            r@ == self@,
    {
        Span { style: self.style, text: copy_str(self.text.as_str()) }
    }

    /// Appends how this span is written to the terminal.
    pub fn write_to(&self, out: &mut String)
        ensures
            final(out)@ == old(out)@ + display_span(self@),
    {
        if self.style == Style::Plain {
            append_str(out, self.text.as_str());
        } else {
            append_str(out, self.style.sequence());
            append_str(out, self.text.as_str());
            append_str(out, Style::Plain.sequence());
            assert(old(out)@ + style_sequence(self.style) + self.text@ + style_sequence(Style::Plain)
                == old(out)@ + display_span(self@));
        }
    }

    /// Unstyled text.
    pub fn raw(text: &str) -> (r: Span)
        ensures
            r.style == Style::Plain,
            r.text@ == text@,
    {
        Span { style: Style::Plain, text: copy_str(text) }
    }

    /// Text in the given style.
    pub fn styled(text: &str, style: Style) -> (r: Span)
        ensures
            r.style == style,
            r.text@ == text@,
    {
        Span { style, text: copy_str(text) }
    }
}

} // verus!
