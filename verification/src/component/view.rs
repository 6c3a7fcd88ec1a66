//! The whole screen, laid out with two columns of padding on each side.

use vstd::prelude::*;

use std::collections::VecDeque;
use std::time::Duration;

use crate::component::approval_prompt::{ApprovalPromptComponent, approval_spec};
use crate::component::composer::{ComposerComponent, composer_spec};
use crate::component::footer::{FooterComponent, footer_line};
use crate::component::header::{HeaderComponent, HintComponent, header_line, hint_line};
use crate::component::line::{
    LineComponent, append_lines, blank_line, components_view, prefix_lines, push_line,
    render_all, render_each, render_line,
};
use crate::component::queued_inputs::{QueuedInputsComponent, queue_chars, queued_spec};
use crate::component::resume_picker::{ResumePicker, ResumePickerComponent, resume_spec};
use crate::component::transcript::{TranscriptComponent, transcript_spec};
use crate::component::transcript_tool_invocation::deref_opt;
use crate::composer::Composer;
use crate::directory_display::{DirectoryDisplay, shows_directory};
use crate::model::Model;
use crate::style::{Span, SpanView, Style};
use crate::approval_request::ApprovalRequest;
use crate::transcript::{Run, Transcript};
use crate::wrap::{
    Cell, cells_width, cells_within, lemma_cells_width_concat, lemma_single_line_wrapping,
    lemma_spans_cells_concat, lemma_spans_cells_empty, lemma_spans_cells_single, lemma_wrapped_lines_within,
    span_cells, spans_cells, wrapping_of,
};

verus! {

/// The width left for content: four columns fewer, but at least one.
pub open spec fn layout_width(width: nat) -> nat {
    if width >= 5 {
        (width - 4) as nat
    } else {
        1
    }
}

/// The padding in front of each content line: two spaces.
pub open spec fn padding() -> SpanView {
    (Style::Plain, "  "@)
}

/// Each line with text wrapped at the content width behind the padding;
/// lines without text kept as they are.
pub open spec fn padded_lines(lines: Seq<Seq<SpanView>>, width: nat) -> Seq<Seq<SpanView>>
    decreases lines.len(),
{
    if lines.len() == 0 {
        Seq::<Seq<SpanView>>::empty()
    } else {
        padded_lines(lines.drop_last(), width) + if spans_cells(lines.last()).len() == 0 {
            seq![lines.last()]
        } else {
            prefix_lines(render_line(lines.last(), layout_width(width)), padding())
        }
    }
}

/// What the layout makes of lines at `width`: padded, then each wrapped at
/// the full width.
pub open spec fn layout_spec(lines: Seq<Seq<SpanView>>, width: nat) -> Seq<Seq<SpanView>> {
    render_all(padded_lines(lines, width), width)
}

/// The two columns of padding, as cells.
pub open spec fn padding_cells() -> Seq<Cell> {
    seq![(Style::Plain, ' '), (Style::Plain, ' ')]
}

/// A laid-out line keeps the side padding: it has no text, or it starts
/// with the two columns of padding and leaves two columns free on the right.
pub open spec fn keeps_side_padding(line: Seq<SpanView>, width: nat) -> bool {
    let cells = spans_cells(line);
    cells.len() == 0 || (cells.len() >= 2 && cells.take(2) == padding_cells() && cells_width(cells)
        + 2 <= width)
}

/// No character of the lines is wider than `limit`.
pub open spec fn lines_within(lines: Seq<Seq<SpanView>>, limit: nat) -> bool {
    forall|i: int| 0 <= i < lines.len() ==> cells_within(spans_cells(#[trigger] lines[i]), limit)
}

proof fn lemma_padding_cells()
    ensures
        span_cells(padding()) == padding_cells(),
        cells_width(padding_cells()) == 2,
{
    reveal_strlit("  ");
    assert(span_cells(padding()) =~= padding_cells());
    let one = seq![(Style::Plain, ' ')];
    assert(padding_cells() =~= one + one);
    lemma_cells_width_concat(one, one);
    lemma_cells_width_concat(Seq::<Cell>::empty(), one);
    assert(Seq::<Cell>::empty() + one =~= one);
    lemma_single_space_width(one);
}

proof fn lemma_single_space_width(one: Seq<Cell>)
    requires
        one == seq![(Style::Plain, ' ')],
    ensures
        cells_width(one) == 1,
{
    reveal(cells_width);
    assert(one.drop_last() =~= Seq::<Cell>::empty());
    assert(cells_width(Seq::<Cell>::empty()) == 0);
}

/// A content line behind the padding keeps the side padding when it is no
/// wider than the content width.
proof fn lemma_padded_line(l: Seq<SpanView>, width: nat)
    requires
        width >= 5,
        cells_width(spans_cells(l)) <= layout_width(width),
    ensures
        keeps_side_padding(seq![padding()] + l, width),
{
    lemma_spans_cells_concat(seq![padding()], l);
    lemma_spans_cells_single(padding());
    lemma_padding_cells();
    let cells = spans_cells(seq![padding()] + l);
    assert(cells == padding_cells() + spans_cells(l));
    lemma_cells_width_concat(padding_cells(), spans_cells(l));
    assert(cells.take(2) =~= padding_cells());
}

/// Every padded line keeps the side padding.
proof fn lemma_padded_lines_keep_padding(lines: Seq<Seq<SpanView>>, width: nat)
    requires
        width >= 5,
        lines_within(lines, layout_width(width)),
    ensures
        forall|k: int|
            0 <= k < padded_lines(lines, width).len() ==> keeps_side_padding(
                #[trigger] padded_lines(lines, width)[k],
                width,
            ),
    decreases lines.len(),
{
    if lines.len() > 0 {
        let init = lines.drop_last();
        assert forall|i: int| 0 <= i < init.len() implies cells_within(
            spans_cells(#[trigger] init[i]),
            layout_width(width),
        ) by {
            assert(init[i] == lines[i]);
        }
        lemma_padded_lines_keep_padding(init, width);
        let last = lines.last();
        let head = padded_lines(init, width);
        let cw = layout_width(width);
        assert(cells_within(spans_cells(lines[lines.len() - 1]), cw));
        if spans_cells(last).len() == 0 {
            let all = head + seq![last];
            assert forall|k: int| 0 <= k < all.len() implies keeps_side_padding(
                #[trigger] all[k],
                width,
            ) by {
                if k < head.len() {
                    assert(all[k] == head[k]);
                }
            }
        } else {
            let wrapped = render_line(last, cw);
            assert(wrapped == wrapping_of(spans_cells(last), cw));
            let tail = prefix_lines(wrapped, padding());
            let all = head + tail;
            assert forall|k: int| 0 <= k < all.len() implies keeps_side_padding(
                #[trigger] all[k],
                width,
            ) by {
                if k < head.len() {
                    assert(all[k] == head[k]);
                } else {
                    let j = k - head.len();
                    assert(all[k] == tail[j]);
                    assert(tail[j] == seq![padding()] + wrapped[j]);
                    lemma_wrapped_lines_within(spans_cells(last), cw, j);
                    lemma_padded_line(wrapped[j], width);
                }
            }
        }
    }
}

/// A line that keeps the side padding still does once rendered at the full
/// width: it fits, so it stays one line.
proof fn lemma_render_keeps_padding(p: Seq<SpanView>, width: nat)
    requires
        width >= 5,
        keeps_side_padding(p, width),
    ensures
        forall|k: int|
            0 <= k < render_line(p, width).len() ==> keeps_side_padding(
                #[trigger] render_line(p, width)[k],
                width,
            ),
{
    if spans_cells(p).len() == 0 {
        lemma_spans_cells_empty(blank_line());
        assert(blank_line()[0].1.len() == 0);
        assert(render_line(p, width) == seq![blank_line()]);
    } else {
        lemma_single_line_wrapping(spans_cells(p), width);
    }
}

proof fn lemma_render_all_keeps_padding(lines: Seq<Seq<SpanView>>, width: nat)
    requires
        width >= 5,
        forall|k: int| 0 <= k < lines.len() ==> keeps_side_padding(#[trigger] lines[k], width),
    ensures
        forall|k: int|
            0 <= k < render_all(lines, width).len() ==> keeps_side_padding(
                #[trigger] render_all(lines, width)[k],
                width,
            ),
    decreases lines.len(),
{
    if lines.len() > 0 {
        let init = lines.drop_last();
        assert forall|k: int| 0 <= k < init.len() implies keeps_side_padding(
            #[trigger] init[k],
            width,
        ) by {
            assert(init[k] == lines[k]);
        }
        lemma_render_all_keeps_padding(init, width);
        assert(keeps_side_padding(lines[lines.len() - 1], width));
        lemma_render_keeps_padding(lines.last(), width);
        let head = render_all(init, width);
        let tail = render_line(lines.last(), width);
        let all = head + tail;
        assert forall|k: int| 0 <= k < all.len() implies keeps_side_padding(
            #[trigger] all[k],
            width,
        ) by {
            if k < head.len() {
                assert(all[k] == head[k]);
            } else {
                assert(all[k] == tail[k - head.len()]);
            }
        }
    }
}

/// Content has two columns of padding on each side: at a width of five
/// columns or more, when no character is wider than the content width,
/// every laid-out line with text starts with two columns of padding and
/// leaves two columns free on the right.
pub proof fn law_layout_keeps_side_padding(lines: Seq<Seq<SpanView>>, width: nat)
    requires
        width >= 5,
        lines_within(lines, layout_width(width)),
    ensures
        forall|k: int|
            0 <= k < layout_spec(lines, width).len() ==> keeps_side_padding(
                #[trigger] layout_spec(lines, width)[k],
                width,
            ),
{
    lemma_padded_lines_keep_padding(lines, width);
    lemma_render_all_keeps_padding(padded_lines(lines, width), width);
}

/// What a session screen shows, its parts taken from the session.
#[derive(Debug)]
pub struct SessionScreen<'a> {
    pub transcript: &'a Transcript,
    pub active_run: Option<&'a Run>,
    pub queued_inputs: &'a VecDeque<String>,
    pub approval: Option<&'a ApprovalRequest>,
    pub composer: &'a Composer,
    pub model: &'a Model,
    pub directory: &'a str,
}

/// What the screen shows.
#[derive(Debug)]
pub enum Screen<'a> {
    Quit,
    Resume(&'a ResumePicker),
    Session(SessionScreen<'a>),
}

/// The content of a session screen at content width `width`, the directory
/// shown as `shown`: the header, the hint, the transcript, the queued inputs,
/// the approval prompt or else the composer, and the footer, set off by
/// blank lines.
pub open spec fn session_spec(
    session: SessionScreen,
    first_draw_duration: Option<Duration>,
    width: nat,
    shown: Seq<char>,
) -> Seq<Seq<SpanView>> {
    seq![blank_line(), header_line(first_draw_duration), blank_line(), hint_line(), blank_line()]
        + transcript_spec(session.transcript.entries@, deref_opt(session.active_run), width)
        + queued_spec(queue_chars(session.queued_inputs@), width) + match session.approval {
        Option::Some(request) => approval_spec(request.requested(), width),
        Option::None => composer_spec(
            session.composer.text(),
            session.composer.cursor_at(),
            session.composer.command_position(),
            Seq::<Seq<char>>::empty(),
            width,
        ),
    } + seq![blank_line(), footer_line(session.model@, shown)]
}

/// The whole screen.
#[derive(Debug)]
pub struct ViewComponent<'a> {
    pub first_draw_duration: Option<Duration>,
    pub screen: &'a Screen<'a>,
}

impl<'a> ViewComponent<'a> {
    /// Pads each line with text behind two spaces, wrapped at four columns
    /// fewer than `width` (at least one), keeps lines without text, and wraps
    /// the result at `width`.  No character is wider than three columns, so
    /// from seven columns on every line with text keeps the side padding.
    pub fn layout(lines: Vec<LineComponent>, width: u16) -> (r: Vec<LineComponent>)
        ensures
            components_view(r@) == layout_spec(components_view(lines@), width as nat),
            lines_within(components_view(lines@), 3),
            width >= 7 ==> forall|k: int|
                0 <= k < components_view(r@).len() ==> keeps_side_padding(
                    #[trigger] components_view(r@)[k],
                    width as nat,
                ),
    {
        let content_width: u16 = if width >= 5 { width - 4 } else { 1 };
        proof {
            reveal_strlit("  ");
        }
        let pad = Span::raw("  ");
        let ghost lv = components_view(lines@);
        let n = lines.len();
        let mut padded: Vec<LineComponent> = Vec::new();
        assert(lv.take(0) =~= Seq::<Seq<SpanView>>::empty());
        for i in 0..n
            invariant
                n == lines@.len(),
                lv == components_view(lines@),
                content_width as nat == layout_width(width as nat),
                pad@ == padding(),
                components_view(padded@) == padded_lines(lv.take(i as int), width as nat),
                forall|j: int| 0 <= j < i ==> cells_within(spans_cells(#[trigger] lv[j]), 3),
        {
            let line = &lines[i];
            assert(lv[i as int] == line@);
            if line.is_blank() {
                push_line(&mut padded, line.copy());
            } else {
                append_lines(&mut padded, line.render_prefixed(content_width, &pad));
            }
            assert(lv.take(i + 1).drop_last() =~= lv.take(i as int));
        }
        assert(lv.take(n as int) =~= lv);
        let r = render_each(&padded, width);
        proof {
            assert(lines_within(lv, 3));
            if width >= 7 {
                assert forall|i: int| 0 <= i < lv.len() implies cells_within(
                    spans_cells(#[trigger] lv[i]),
                    layout_width(width as nat),
                ) by {
                    assert(cells_within(spans_cells(lv[i]), 3));
                }
                law_layout_keeps_side_padding(lv, width as nat);
            }
        }
        r
    }

    /// A view of the given screen, with the first draw's duration in the
    /// header.
    pub fn new(screen: &'a Screen<'a>, first_draw_duration: Option<Duration>) -> (r: ViewComponent<
        'a,
    >)
        ensures
            r.screen == screen,
            r.first_draw_duration == first_draw_duration,
    {
        ViewComponent { first_draw_duration, screen }
    }

    /// The content of a session screen at content width `width`, with the
    /// directory shown as `shown`.
    pub fn session_lines(
        session: &SessionScreen,
        first_draw_duration: Option<Duration>,
        width: u16,
        shown: &str,
    ) -> (r: Vec<LineComponent>)
        ensures
            components_view(r@) == session_spec(*session, first_draw_duration, width as nat, shown@),
    {
        let mut lines: Vec<LineComponent> = Vec::new();
        push_line(&mut lines, LineComponent::blank());
        append_lines(&mut lines, HeaderComponent::new(first_draw_duration).render(width));
        push_line(&mut lines, LineComponent::blank());
        append_lines(&mut lines, HintComponent.render(width));
        push_line(&mut lines, LineComponent::blank());
        let ghost top = components_view(lines@);
        assert(top =~= seq![
            blank_line(),
            header_line(first_draw_duration),
            blank_line(),
            hint_line(),
            blank_line(),
        ]);
        append_lines(
            &mut lines,
            TranscriptComponent::new(session.transcript, session.active_run).render(width),
        );
        append_lines(
            &mut lines,
            QueuedInputsComponent { inputs: session.queued_inputs }.render(width),
        );
        match session.approval {
            Some(request) => {
                append_lines(&mut lines, ApprovalPromptComponent::new(request).render(width));
            },
            None => {
                let none: VecDeque<String> = VecDeque::new();
                let composer = ComposerComponent {
                    composer: session.composer,
                    queued_inputs: &none,
                };
                let more = composer.render(width);
                assert(queue_chars(none@) =~= Seq::<Seq<char>>::empty());
                append_lines(&mut lines, more);
            },
        }
        push_line(&mut lines, LineComponent::blank());
        let footer = FooterComponent::new(session.model, session.directory);
        append_lines(&mut lines, footer.render_shown(shown));
        proof {
            let s = *session;
            let mid = match s.approval {
                Option::Some(request) => approval_spec(request.requested(), width as nat),
                Option::None => composer_spec(
                    s.composer.text(),
                    s.composer.cursor_at(),
                    s.composer.command_position(),
                    Seq::<Seq<char>>::empty(),
                    width as nat,
                ),
            };
            let t = transcript_spec(s.transcript.entries@, deref_opt(s.active_run), width as nat);
            let q = queued_spec(queue_chars(s.queued_inputs@), width as nat);
            assert(components_view(lines@) =~= top + t + q + mid + seq![
                blank_line(),
                footer_line(s.model@, shown@),
            ]);
        }
        lines
    }

    /// The screen laid out at `width`: nothing once quitting, the picker when
    /// resuming, and the session otherwise, its directory shown relative to
    /// the current user's home directory.  From seven columns on, every line
    /// with text starts with two columns of padding and leaves two free on
    /// the right.
    pub fn render(&self, width: u16) -> (r: Vec<LineComponent>)
        ensures
            match *self.screen {
                Screen::Quit => r@.len() == 0,
                Screen::Resume(picker) => components_view(r@) == layout_spec(
                    resume_spec(*picker, self.first_draw_duration),
                    width as nat,
                ),
                Screen::Session(session) => exists|shown: Seq<char>|
                    shows_directory(session.directory@, shown) && components_view(r@)
                        == #[trigger] layout_spec(
                        session_spec(
                            session,
                            self.first_draw_duration,
                            layout_width(width as nat),
                            shown,
                        ),
                        width as nat,
                    ),
            },
            width >= 7 ==> forall|k: int|
                0 <= k < components_view(r@).len() ==> keeps_side_padding(
                    #[trigger] components_view(r@)[k],
                    width as nat,
                ),
    {
        let content_width: u16 = if width >= 5 { width - 4 } else { 1 };
        match self.screen {
            Screen::Quit => {
                let r = Self::layout(Vec::new(), width);
                proof {
                    assert(components_view(Seq::<LineComponent>::empty()) =~= Seq::<
                        Seq<SpanView>,
                    >::empty());
                    assert(padded_lines(Seq::<Seq<SpanView>>::empty(), width as nat) =~= Seq::<
                        Seq<SpanView>,
                    >::empty());
                    assert(render_all(Seq::<Seq<SpanView>>::empty(), width as nat) =~= Seq::<
                        Seq<SpanView>,
                    >::empty());
                }
                r
            },
            Screen::Resume(picker) => {
                let lines = ResumePickerComponent::new(picker, self.first_draw_duration).render(
                    content_width,
                );
                Self::layout(lines, width)
            },
            Screen::Session(session) => {
                let shown = DirectoryDisplay::new(session.directory).to_display_string();
                let lines = Self::session_lines(
                    session,
                    self.first_draw_duration,
                    content_width,
                    shown.as_str(),
                );
                let r = Self::layout(lines, width);
                assert(shows_directory(session.directory@, shown@));
                r
            },
        }
    }
}

} // verus!
