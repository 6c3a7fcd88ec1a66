//! The model and the directory, in dark gray, on a plain-vector line.

use vstd::prelude::*;

use crate::line::{Line, lines_of_view};
use crate::style::{Span, SpanView, Style, spans_view};
use crate::directory_display::{path_without_prefix, strip_path_prefix};
use crate::model::Model;
use crate::text::{append_str, copy_str};

verus! {

/// A footer of the given text.
#[derive(Debug)]
pub struct Footer {
    text: String,
}

impl View for Footer {
    type V = Seq<char>;

    closed spec fn view(&self) -> Seq<char> {
        self.text@
    }
}

/// How the footer writes a directory: from `~` when `home` is a prefix of
/// it, as it is otherwise.
pub open spec fn footer_directory(directory: Seq<char>, home: Option<Seq<char>>) -> Seq<char> {
    match home {
        Option::Some(h) => match path_without_prefix(directory, h) {
            Option::Some(relative) => if relative.len() == 0 {
                "~"@
            } else {
                "~/"@ + relative
            },
            Option::None => directory,
        },
        Option::None => directory,
    }
}

/// The footer's text: the provider, the model's name and the directory,
/// separated by middle dots.
pub open spec fn footer_text(provider: Seq<char>, name: Seq<char>, directory: Seq<char>) -> Seq<
    char,
> {
    provider + " · "@ + name + " · "@ + directory
}

impl Footer {
    /// The footer of a model, in `directory`, when the home directory is
    /// `home` (if there is one).
    pub fn for_model(model: &Model, directory: &str, home: Option<&str>) -> (r: Footer)
        ensures
            r@ == footer_text(model.provider@, model.name@, footer_directory(directory@, match home {
                Option::Some(h) => Option::Some(h@),
                Option::None => Option::None,
            })),
    {
        let shown = match home {
            Some(h) => match strip_path_prefix(directory, h) {
                Some(relative) => {
                    if relative.as_str().is_empty() {
                        proof {
                            reveal_strlit("~");
                        }
                        copy_str("~")
                    } else {
                        let mut t = copy_str("~/");
                        append_str(&mut t, relative.as_str());
                        t
                    }
                },
                None => copy_str(directory),
            },
            None => copy_str(directory),
        };
        let mut text = copy_str(model.provider.as_str());
        append_str(&mut text, " · ");
        append_str(&mut text, model.name.as_str());
        append_str(&mut text, " · ");
        append_str(&mut text, shown.as_str());
        Footer { text }
    }

    /// A footer of the given text.
    pub fn raw(text: &str) -> (r: Footer)
        ensures
            r@ == text@,
    {
        Footer { text: copy_str(text) }
    }

    /// The footer's text in dark gray, whatever the width.
    pub fn render(&self, width: u16) -> (r: Vec<Line>)
        ensures
            lines_of_view(r@) == seq![seq![(Style::DarkGray, self@)]],
    {
        let spans = vec![Span::styled(self.text.as_str(), Style::DarkGray)];
        let r = vec![Line::from(spans)];
        proof {
            assert(spans_view(spans@) =~= seq![(Style::DarkGray, self@)]);
            assert(lines_of_view(r@) =~= seq![seq![(Style::DarkGray, self@)]]);
        }
        r
    }
}

} // verus!
