//! The transcript: its entries, and the run in progress below them.

use vstd::prelude::*;

use crate::component::guttered_lines::{GutteredLinesComponent, guttered_spec};
use crate::component::line::{
    LineComponent, append_lines, blank_line, components_view, push_line, raw_line_components,
    raw_lines,
};
use crate::component::transcript_error::{TranscriptErrorComponent, error_spec};
use crate::component::transcript_tool_invocation::{
    TranscriptToolInvocationComponent, deref_opt, tool_invocation_spec,
};
use crate::duration_ext::{duration_secs, format_seconds, format_seconds_spec, whole_seconds};
use crate::message::{AgentMessageContent, Message, UserMessageContent, user_text};
use crate::style::{Span, SpanView, Style, spans_view};
use crate::text::{append_str, concat, lines_of, lines_str, split_on, split_str};
use crate::tool::ToolResult;
use crate::transcript::{AgentActivity, Run, Transcript, TranscriptEntry};
use crate::wrap::{lemma_spans_cells_empty, spans_cells};

verus! {

/// Whether a line has no text.
pub open spec fn is_blank_view(l: Seq<SpanView>) -> bool {
    spans_cells(l).len() == 0
}

/// The lines with a blank line added, unless they are empty or already end
/// with one.
pub open spec fn ensure_blank(lines: Seq<Seq<SpanView>>) -> Seq<Seq<SpanView>> {
    if lines.len() > 0 && !is_blank_view(lines.last()) {
        lines.push(blank_line())
    } else {
        lines
    }
}

/// Ensuring a trailing blank line twice is ensuring it once.
pub proof fn law_ensure_blank_idempotent(lines: Seq<Seq<SpanView>>)
    ensures
        ensure_blank(ensure_blank(lines)) == ensure_blank(lines),
{
    if lines.len() > 0 && !is_blank_view(lines.last()) {
        lemma_spans_cells_empty(blank_line());
        assert(ensure_blank(lines).last() == blank_line());
        assert(blank_line()[0].1.len() == 0);
    }
}

/// The first result among a user's message pieces for the call `id`.
pub open spec fn first_result(c: Seq<UserMessageContent>, id: Seq<char>) -> Option<ToolResult>
    decreases c.len(),
{
    if c.len() == 0 {
        None
    } else {
        match c[0] {
            UserMessageContent::ToolResult { id: i, result } => if i@ == id {
                Some(result)
            } else {
                first_result(c.drop_first(), id)
            },
            _ => first_result(c.drop_first(), id),
        }
    }
}

/// The result of the call `id` among the user messages that directly follow,
/// skipping entries that are not messages and stopping at the model's next
/// message.
pub open spec fn find_tool_result(following: Seq<TranscriptEntry>, id: Seq<char>) -> Option<
    ToolResult,
>
    decreases following.len(),
{
    if following.len() == 0 {
        None
    } else {
        match following[0] {
            TranscriptEntry::Message(Message::Agent(_)) => None,
            TranscriptEntry::Message(Message::User(c)) => match first_result(c@, id) {
                Option::Some(r) => Some(r),
                Option::None => find_tool_result(following.drop_first(), id),
            },
            _ => find_tool_result(following.drop_first(), id),
        }
    }
}

/// Whether no entry before `k` ends the search for the call `id`: none is
/// a model's message, and no user message among them holds its result.
pub open spec fn no_result_before(following: Seq<TranscriptEntry>, id: Seq<char>, k: int) -> bool {
    forall|j: int|
        0 <= j < k ==> match #[trigger] following[j] {
            TranscriptEntry::Message(Message::Agent(_)) => false,
            TranscriptEntry::Message(Message::User(c)) => first_result(c@, id) is None,
            _ => true,
        }
}

/// A call's result is the first one with its id in the user messages that
/// follow it: when the user message at `k` holds one, and no entry before
/// it is a model's message or a user message holding one, that is the
/// result found, whatever notices, errors or interruptions stand between.
pub proof fn law_result_found_past_other_entries(
    following: Seq<TranscriptEntry>,
    id: Seq<char>,
    k: int,
    c: Vec<UserMessageContent>,
)
    requires
        0 <= k < following.len(),
        following[k] == TranscriptEntry::Message(Message::User(c)),
        first_result(c@, id) is Some,
        no_result_before(following, id, k),
    ensures
        find_tool_result(following, id) == first_result(c@, id),
    decreases k,
{
    if k > 0 {
        let rest = following.drop_first();
        assert forall|j: int| 0 <= j < k - 1 implies match #[trigger] rest[j] {
            TranscriptEntry::Message(Message::Agent(_)) => false,
            TranscriptEntry::Message(Message::User(c2)) => first_result(c2@, id) is None,
            _ => true,
        } by {
            assert(rest[j] == following[j + 1]);
        }
        law_result_found_past_other_entries(rest, id, k - 1, c);
        assert(match following[0] {
            TranscriptEntry::Message(Message::Agent(_)) => false,
            TranscriptEntry::Message(Message::User(c2)) => first_result(c2@, id) is None,
            _ => true,
        });
    }
}

/// The search stops at the model's next message: when the entry at `k` is
/// a model's message and nothing before it holds the result, none is found;
/// and none is found when nothing at all holds it.
pub proof fn law_no_result_past_next_agent_message(
    following: Seq<TranscriptEntry>,
    id: Seq<char>,
    k: int,
)
    requires
        0 <= k <= following.len(),
        k < following.len() ==> following[k] is Message && following[k]->Message_0 is Agent,
        no_result_before(following, id, k),
    ensures
        find_tool_result(following, id) is None,
    decreases k,
{
    if following.len() > 0 {
        if k > 0 {
            let rest = following.drop_first();
            assert forall|j: int| 0 <= j < k - 1 implies match #[trigger] rest[j] {
                TranscriptEntry::Message(Message::Agent(_)) => false,
                TranscriptEntry::Message(Message::User(c2)) => first_result(c2@, id) is None,
                _ => true,
            } by {
                assert(rest[j] == following[j + 1]);
            }
            if k - 1 < rest.len() {
                assert(rest[k - 1] == following[k]);
            }
            law_no_result_past_next_agent_message(rest, id, k - 1);
            assert(match following[0] {
                TranscriptEntry::Message(Message::Agent(_)) => false,
                TranscriptEntry::Message(Message::User(c2)) => first_result(c2@, id) is None,
                _ => true,
            });
        }
    }
}

/// The lines of one piece of a model's message: its text's lines, or the
/// tool call with the result found among the following entries.
pub open spec fn content_lines(
    c: AgentMessageContent,
    following: Seq<TranscriptEntry>,
    width: nat,
) -> Seq<Seq<SpanView>> {
    match c {
        AgentMessageContent::Reasoning(t) => raw_lines(lines_of(t@)),
        AgentMessageContent::Text(t) => raw_lines(lines_of(t@)),
        AgentMessageContent::ToolCall(inv) => tool_invocation_spec(
            inv,
            find_tool_result(following, inv.id@),
            width,
        ),
    }
}

/// The lines of a model's message: each piece set off by blank lines.
pub open spec fn agent_lines(
    content: Seq<AgentMessageContent>,
    following: Seq<TranscriptEntry>,
    width: nat,
) -> Seq<Seq<SpanView>>
    decreases content.len(),
{
    if content.len() == 0 {
        Seq::<Seq<SpanView>>::empty()
    } else {
        ensure_blank(
            ensure_blank(agent_lines(content.drop_last(), following, width)) + content_lines(
                content.last(),
                following,
                width,
            ),
        )
    }
}

/// The lines of a user's message: each text behind the gutter.
pub open spec fn user_lines(content: Seq<UserMessageContent>, width: nat) -> Seq<Seq<SpanView>>
    decreases content.len(),
{
    if content.len() == 0 {
        Seq::<Seq<SpanView>>::empty()
    } else {
        user_lines(content.drop_last(), width) + match user_text(content.last()) {
            Option::Some(t) => guttered_spec(raw_lines(split_on(t, '\n')), width),
            Option::None => Seq::<Seq<SpanView>>::empty(),
        }
    }
}

/// The notice shown for an interrupted run.
pub open spec fn interrupted_line() -> Seq<SpanView> {
    seq![
        (
            Style::Danger,
            "■ Conversation interrupted, tell the model what to do differently."@,
        ),
    ]
}

/// The lines after adding one entry; `following` are the entries after it.
pub open spec fn entry_step(
    acc: Seq<Seq<SpanView>>,
    entry: TranscriptEntry,
    following: Seq<TranscriptEntry>,
    width: nat,
) -> Seq<Seq<SpanView>> {
    match entry {
        TranscriptEntry::Error(e) => ensure_blank(ensure_blank(acc) + error_spec(e@, width)),
        TranscriptEntry::Interrupted => ensure_blank(ensure_blank(acc).push(interrupted_line())),
        TranscriptEntry::Message(Message::Agent(c)) => ensure_blank(acc) + agent_lines(
            c@,
            following,
            width,
        ),
        TranscriptEntry::Message(Message::User(c)) => acc + user_lines(c@, width),
        TranscriptEntry::Notice(n) => ensure_blank(ensure_blank(acc) + raw_lines(lines_of(n@))),
    }
}

/// The lines of the first `k` entries.
pub open spec fn entries_lines(entries: Seq<TranscriptEntry>, k: nat, width: nat) -> Seq<
    Seq<SpanView>,
>
    decreases k,
{
    if k == 0 || k > entries.len() {
        Seq::<Seq<SpanView>>::empty()
    } else {
        entry_step(
            entries_lines(entries, (k - 1) as nat, width),
            entries[k - 1],
            entries.skip(k as int),
            width,
        )
    }
}

/// The spinner's frame.
pub open spec fn spinner(frame: nat) -> Seq<char> {
    let i = frame % 6;
    if i == 0 {
        seq!['✦']
    } else if i == 1 || i == 5 {
        seq!['✧']
    } else if i == 2 || i == 4 {
        seq!['✶']
    } else {
        seq!['✹']
    }
}

/// The line of a run that is working: the spinner, `Working...`, and how
/// long it has run.
pub open spec fn working_line(frame: nat, seconds: nat) -> Seq<SpanView> {
    seq![
        (Style::Accent, spinner(frame)),
        (Style::Secondary, " Working..."@),
        (Style::Muted, " ("@ + format_seconds_spec(seconds) + " • Esc to interrupt)"@),
    ]
}

/// The lines of a run in progress: what it has said, then what it is doing
/// now, with the whole seconds it has run.
pub open spec fn activity_lines(run: Run, width: nat) -> Seq<Seq<SpanView>> {
    let seconds = whole_seconds(run.elapsed);
    let base = agent_lines(run.content@, Seq::<TranscriptEntry>::empty(), width);
    match run.activity {
        AgentActivity::Reasoning(t) => base + raw_lines(lines_of(t@)) + seq![
            blank_line(),
            working_line(run.frame as nat, seconds),
        ],
        AgentActivity::Streaming(t) => base + raw_lines(lines_of(t@)),
        AgentActivity::Waiting => base.push(working_line(run.frame as nat, seconds)),
    }
}

/// What the transcript renders to: its entries, then the run in progress
/// set off by blank lines.
pub open spec fn transcript_spec(
    entries: Seq<TranscriptEntry>,
    run: Option<Run>,
    width: nat,
) -> Seq<Seq<SpanView>> {
    let lines = entries_lines(entries, entries.len(), width);
    let activity = match run {
        Option::Some(r) => activity_lines(r, width),
        Option::None => Seq::<Seq<SpanView>>::empty(),
    };
    if activity.len() == 0 {
        lines
    } else {
        ensure_blank(ensure_blank(lines) + activity)
    }
}

fn first_result_exec<'b>(c: &'b Vec<UserMessageContent>, id: &str) -> (r: Option<&'b ToolResult>)
    ensures
        deref_opt(r) == first_result(c@, id@),
{
    let n = c.len();
    let mut i: usize = 0;
    assert(c@.skip(0) =~= c@);
    while i < n
        invariant
            n == c@.len(),
            i <= n,
            first_result(c@, id@) == first_result(c@.skip(i as int), id@),
        decreases n - i,
    {
        assert(c@.skip(i as int).drop_first() =~= c@.skip(i + 1));
        assert(c@.skip(i as int)[0] == c@[i as int]);
        match &c[i] {
            UserMessageContent::ToolResult { id: rid, result } => {
                if *rid == crate::text::copy_str(id) {
                    return Some(result);
                }
            },
            _ => {},
        }
        i = i + 1;
    }
    None
}

/// The result of the call `id` among the user messages that directly follow.
pub fn find_tool_result_exec<'b>(following: &'b [TranscriptEntry], id: &str) -> (r: Option<
    &'b ToolResult,
>)
    ensures
        deref_opt(r) == find_tool_result(following@, id@),
{
    let n = following.len();
    let mut i: usize = 0;
    assert(following@.skip(0) =~= following@);
    while i < n
        invariant
            n == following@.len(),
            i <= n,
            find_tool_result(following@, id@) == find_tool_result(following@.skip(i as int), id@),
        decreases n - i,
    {
        assert(following@.skip(i as int).drop_first() =~= following@.skip(i + 1));
        assert(following@.skip(i as int)[0] == following@[i as int]);
        match &following[i] {
            TranscriptEntry::Message(Message::Agent(_)) => {
                return None;
            },
            TranscriptEntry::Message(Message::User(c)) => {
                let found = first_result_exec(c, id);
                if found.is_some() {
                    return found;
                }
            },
            _ => {},
        }
        i = i + 1;
    }
    None
}

/// The transcript with the run in progress, if any.
#[derive(Debug)]
pub struct TranscriptComponent<'a> {
    pub run: Option<&'a Run>,
    pub state: &'a Transcript,
}

impl<'a> TranscriptComponent<'a> {
    /// Adds a blank line unless the lines are empty or already end with one.
    pub fn ensure_trailing_blank_line(lines: &mut Vec<LineComponent>)
        ensures
            components_view(final(lines)@) == ensure_blank(components_view(old(lines)@)),
    {
        let n = lines.len();
        if n > 0 && !lines[n - 1].is_blank() {
            push_line(lines, LineComponent::blank());
        }
    }

    /// The component of a transcript and the run in progress.
    pub fn new(state: &'a Transcript, run: Option<&'a Run>) -> (r: TranscriptComponent<'a>)
        ensures
            r.state == state,
            r.run == run,
    {
        TranscriptComponent { run, state }
    }

    /// The lines of a model's message; `following` are the entries after it,
    /// where the results of its tool calls are looked up.
    pub fn render_agent_content(
        content: &[AgentMessageContent],
        following: &[TranscriptEntry],
        width: u16,
    ) -> (r: Vec<LineComponent>)
        ensures
            components_view(r@) == agent_lines(content@, following@, width as nat),
    {
        let mut lines: Vec<LineComponent> = Vec::new();
        let n = content.len();
        assert(content@.take(0) =~= Seq::<AgentMessageContent>::empty());
        for i in 0..n
            invariant
                n == content@.len(),
                components_view(lines@) == agent_lines(
                    content@.take(i as int),
                    following@,
                    width as nat,
                ),
        {
            Self::ensure_trailing_blank_line(&mut lines);
            match &content[i] {
                AgentMessageContent::Reasoning(text) => {
                    let texts = lines_str(text.as_str());
                    let more = raw_line_components(&texts);
                    assert(texts@.map_values(|t: String| t@) =~= lines_of(text@));
                    append_lines(&mut lines, more);
                },
                AgentMessageContent::Text(text) => {
                    let texts = lines_str(text.as_str());
                    let more = raw_line_components(&texts);
                    assert(texts@.map_values(|t: String| t@) =~= lines_of(text@));
                    append_lines(&mut lines, more);
                },
                AgentMessageContent::ToolCall(invocation) => {
                    let result = find_tool_result_exec(following, invocation.id.as_str());
                    let more = TranscriptToolInvocationComponent::new(invocation, result).render(
                        width,
                    );
                    append_lines(&mut lines, more);
                },
            }
            Self::ensure_trailing_blank_line(&mut lines);
            proof {
                assert(content@.take(i + 1).drop_last() =~= content@.take(i as int));
                assert(content@.take(i + 1).last() == content@[i as int]);
            }
        }
        assert(content@.take(n as int) =~= content@);
        lines
    }

    /// The lines of the run in progress, if any.
    pub fn render_agent_activity(&self, width: u16) -> (r: Vec<LineComponent>)
        ensures
            match self.run {
                Option::None => r@.len() == 0,
                Option::Some(run) => components_view(r@) == activity_lines(*run, width as nat),
            },
    {
        let run = match self.run {
            None => {
                return Vec::new();
            },
            Some(run) => run,
        };
        let empty: Vec<TranscriptEntry> = Vec::new();
        let mut lines = Self::render_agent_content(run.content.as_slice(), empty.as_slice(), width);
        let secs = duration_secs(run.elapsed);
        match &run.activity {
            AgentActivity::Reasoning(reasoning) => {
                let texts = lines_str(reasoning.as_str());
                let more = raw_line_components(&texts);
                assert(texts@.map_values(|t: String| t@) =~= lines_of(reasoning@));
                append_lines(&mut lines, more);
                push_line(&mut lines, LineComponent::blank());
                push_line(&mut lines, working(run.frame, secs));
            },
            AgentActivity::Streaming(message) => {
                let texts = lines_str(message.as_str());
                let more = raw_line_components(&texts);
                assert(texts@.map_values(|t: String| t@) =~= lines_of(message@));
                append_lines(&mut lines, more);
            },
            AgentActivity::Waiting => {
                push_line(&mut lines, working(run.frame, secs));
            },
        }
        assert(components_view(lines@) =~= activity_lines(*run, width as nat));
        lines
    }

    /// The lines of the transcript's entries.
    pub fn render_entries(&self, width: u16) -> (r: Vec<LineComponent>)
        ensures
            components_view(r@) == entries_lines(
                self.state.entries@,
                self.state.entries@.len(),
                width as nat,
            ),
    {
        let entries = self.state.entries.as_slice();
        let n = entries.len();
        let mut lines: Vec<LineComponent> = Vec::new();
        for index in 0..n
            invariant
                n == entries@.len(),
                entries@ == self.state.entries@,
                components_view(lines@) == entries_lines(entries@, index as nat, width as nat),
        {
            let following = vstd::slice::slice_subrange(entries, index + 1, n);
            assert(following@ =~= entries@.skip(index + 1));
            match &entries[index] {
                TranscriptEntry::Error(error) => {
                    Self::ensure_trailing_blank_line(&mut lines);
                    let more = TranscriptErrorComponent::new(error.as_str()).render(width);
                    append_lines(&mut lines, more);
                    Self::ensure_trailing_blank_line(&mut lines);
                },
                TranscriptEntry::Interrupted => {
                    Self::ensure_trailing_blank_line(&mut lines);
                    push_line(&mut lines, interrupted());
                    Self::ensure_trailing_blank_line(&mut lines);
                },
                TranscriptEntry::Message(Message::Agent(content)) => {
                    Self::ensure_trailing_blank_line(&mut lines);
                    let more = Self::render_agent_content(content.as_slice(), following, width);
                    append_lines(&mut lines, more);
                },
                TranscriptEntry::Message(Message::User(content)) => {
                    let more = render_user_content(content, width);
                    append_lines(&mut lines, more);
                },
                TranscriptEntry::Notice(notice) => {
                    Self::ensure_trailing_blank_line(&mut lines);
                    let texts = lines_str(notice.as_str());
                    let more = raw_line_components(&texts);
                    assert(texts@.map_values(|t: String| t@) =~= lines_of(notice@));
                    append_lines(&mut lines, more);
                    Self::ensure_trailing_blank_line(&mut lines);
                },
            }
        }
        lines
    }

    /// The entries, then the run in progress set off by blank lines.
    pub fn render(&self, width: u16) -> (r: Vec<LineComponent>)
        ensures
            components_view(r@) == transcript_spec(
                self.state.entries@,
                deref_opt(self.run),
                width as nat,
            ),
    {
        let mut lines = self.render_entries(width);
        let activity = self.render_agent_activity(width);
        if activity.len() > 0 {
            Self::ensure_trailing_blank_line(&mut lines);
            append_lines(&mut lines, activity);
            Self::ensure_trailing_blank_line(&mut lines);
        }
        assert(components_view(lines@) == transcript_spec(
            self.state.entries@,
            deref_opt(self.run),
            width as nat,
        ));
        lines
    }
}

/// The line of an interrupted run.
fn interrupted() -> (r: LineComponent)
    ensures
        r@ == interrupted_line(),
{
    let text = "■ Conversation interrupted, tell the model what to do differently.";
    let spans = vec![Span::styled(text, Style::Danger)];
    assert(spans_view(spans@) =~= interrupted_line());
    LineComponent::from(spans)
}

/// The working line of a run.
fn working(frame: usize, seconds: u64) -> (r: LineComponent)
    ensures
        r@ == working_line(frame as nat, seconds as nat),
{
    let i = frame % 6;
    let glyph = if i == 0 {
        "✦"
    } else if i == 1 || i == 5 {
        "✧"
    } else if i == 2 || i == 4 {
        "✶"
    } else {
        "✹"
    };
    proof {
        reveal_strlit("✦");
        reveal_strlit("✧");
        reveal_strlit("✶");
        reveal_strlit("✹");
        assert("✦"@ =~= seq!['✦']);
        assert("✧"@ =~= seq!['✧']);
        assert("✶"@ =~= seq!['✶']);
        assert("✹"@ =~= seq!['✹']);
        assert(glyph@ == spinner(frame as nat));
    }
    let elapsed = format_seconds(seconds);
    let mut note = concat(" (", elapsed.as_str());
    append_str(&mut note, " • Esc to interrupt)");
    let spans = vec![
        Span::styled(glyph, Style::Accent),
        Span::styled(" Working...", Style::Secondary),
        Span { style: Style::Muted, text: note },
    ];
    assert(spans_view(spans@) =~= working_line(frame as nat, seconds as nat));
    LineComponent::from(spans)
}

/// The lines of a user's message: each text behind the gutter.
fn render_user_content(content: &Vec<UserMessageContent>, width: u16) -> (r: Vec<LineComponent>)
    ensures
        components_view(r@) == user_lines(content@, width as nat),
{
    let n = content.len();
    let mut lines: Vec<LineComponent> = Vec::new();
    assert(content@.take(0) =~= Seq::<UserMessageContent>::empty());
    for i in 0..n
        invariant
            n == content@.len(),
            components_view(lines@) == user_lines(content@.take(i as int), width as nat),
    {
        proof {
            assert(content@.take(i + 1).drop_last() =~= content@.take(i as int));
            assert(content@.take(i + 1).last() == content@[i as int]);
        }
        match content[i].text() {
            Some(text) => {
                let pieces = split_str(text, '\n');
                let more = GutteredLinesComponent::raw(pieces).render(width);
                proof {
                    assert(pieces@.map_values(|t: String| t@) =~= split_on(text@, '\n'));
                }
                append_lines(&mut lines, more);
            },
            None => {
                assert(components_view(lines@) =~= user_lines(content@.take(i + 1), width as nat));
            },
        }
    }
    assert(content@.take(n as int) =~= content@);
    lines
}

} // verus!
