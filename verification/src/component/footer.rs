//! The footer: the model and the working directory.

use vstd::prelude::*;

use crate::component::line::{LineComponent, components_view};
use crate::directory_display::{DirectoryDisplay, shows_directory};
use crate::footer::footer_text;
use crate::model::{Model, ModelView};
use crate::style::{Span, SpanView, Style, spans_view};
use crate::text::{append_str, copy_str};

verus! {

/// The footer's one line, with the directory shown as `shown`.
pub open spec fn footer_line(model: ModelView, shown: Seq<char>) -> Seq<SpanView> {
    seq![(Style::DarkGray, footer_text(model.1, model.0, shown))]
}

/// The model and the working directory.
#[derive(Debug)]
pub struct FooterComponent<'a> {
    pub directory: &'a str,
    pub model: &'a Model,
}

impl<'a> FooterComponent<'a> {
    /// A footer for the given model and directory.
    pub fn new(model: &'a Model, directory: &'a str) -> (r: FooterComponent<'a>)
        ensures
            r.model == model,
            r.directory@ == directory@,
    {
        FooterComponent { directory, model }
    }

    /// The footer's line with the directory shown as `shown`.
    pub fn render_shown(&self, shown: &str) -> (r: Vec<LineComponent>)
        ensures
            components_view(r@) == seq![footer_line(self.model@, shown@)],
    {
        let mut text = copy_str(self.model.provider.as_str());
        append_str(&mut text, " · ");
        append_str(&mut text, self.model.name.as_str());
        append_str(&mut text, " · ");
        append_str(&mut text, shown);
        let spans = vec![Span { style: Style::DarkGray, text }];
        let r = vec![LineComponent::from(spans)];
        proof {
            assert(spans_view(spans@) =~= footer_line(self.model@, shown@));
            assert(components_view(r@) =~= seq![footer_line(self.model@, shown@)]);
        }
        r
    }

    /// The footer's line, whatever the width, with the directory shown
    /// relative to the current user's home directory.
    pub fn render(&self, width: u16) -> (r: Vec<LineComponent>)
        ensures
            exists|shown: Seq<char>|
                shows_directory(self.directory@, shown) && components_view(r@) == seq![
                    #[trigger] footer_line(self.model@, shown),
                ],
    {
        let shown = DirectoryDisplay::new(self.directory).to_display_string();
        let r = self.render_shown(shown.as_str());
        assert(shows_directory(self.directory@, shown@));
        r
    }
}

} // verus!
