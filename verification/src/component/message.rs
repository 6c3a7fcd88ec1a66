//! A message of the conversation as plain lines.

use vstd::prelude::*;

use crate::component::framed_lines::{FramedLinesComponent, framed_spec};
use crate::component::line::{
    LineComponent, append_lines, components_view, push_line, raw_line_components, raw_lines,
};
use crate::message::{AgentMessageContent, Message, UserMessageContent};
use crate::style::{Span, SpanView, Style, spans_view};
use crate::text::{concat, split_on, split_str};
use crate::tool::{invocation_text, opt_chars, output_spec};

verus! {

/// Reasoning lines: each indented by a space, in dark gray.
pub open spec fn reasoning_lines(pieces: Seq<Seq<char>>) -> Seq<Seq<SpanView>> {
    pieces.map_values(|l: Seq<char>| seq![(Style::DarkGray, seq![' '] + l)])
}

/// The lines of one piece of a model's message.
pub open spec fn agent_piece_lines(c: AgentMessageContent) -> Seq<Seq<SpanView>> {
    match c {
        AgentMessageContent::Reasoning(t) => reasoning_lines(split_on(t@, '\n')),
        AgentMessageContent::Text(t) => raw_lines(split_on(t@, '\n')),
        AgentMessageContent::ToolCall(inv) => seq![seq![(Style::Plain, invocation_text(inv.kind))]],
    }
}

/// The lines of one piece of a user's message: text framed, a tool result's
/// output as plain lines.
pub open spec fn user_piece_lines(c: UserMessageContent, width: nat) -> Seq<Seq<SpanView>> {
    match c {
        UserMessageContent::Text(t) => framed_spec(raw_lines(split_on(t@, '\n')), width),
        UserMessageContent::ToolResult { id: _, result } => {
            let output = match output_spec(opt_chars(result.stdout), opt_chars(result.stderr)) {
                Option::Some(o) => o,
                Option::None => Seq::<char>::empty(),
            };
            raw_lines(split_on(output, '\n'))
        },
    }
}

/// The lines of a model's message pieces.
pub open spec fn agent_message_lines(c: Seq<AgentMessageContent>) -> Seq<Seq<SpanView>>
    decreases c.len(),
{
    if c.len() == 0 {
        Seq::<Seq<SpanView>>::empty()
    } else {
        agent_message_lines(c.drop_last()) + agent_piece_lines(c.last())
    }
}

/// The lines of a user's message pieces.
pub open spec fn user_message_lines(c: Seq<UserMessageContent>, width: nat) -> Seq<Seq<SpanView>>
    decreases c.len(),
{
    if c.len() == 0 {
        Seq::<Seq<SpanView>>::empty()
    } else {
        user_message_lines(c.drop_last(), width) + user_piece_lines(c.last(), width)
    }
}

/// What a message renders to.
pub open spec fn message_spec(m: Message, width: nat) -> Seq<Seq<SpanView>> {
    match m {
        Message::Agent(c) => agent_message_lines(c@),
        Message::User(c) => user_message_lines(c@, width),
    }
}

/// A message of the conversation as plain lines.
#[derive(Debug)]
pub struct MessageComponent<'a> {
    pub message: &'a Message,
}

fn reasoning_components(pieces: &Vec<String>) -> (r: Vec<LineComponent>)
    ensures
        components_view(r@) == reasoning_lines(pieces@.map_values(|t: String| t@)),
{
    let n = pieces.len();
    let ghost pv = pieces@.map_values(|t: String| t@);
    let mut r: Vec<LineComponent> = Vec::new();
    proof {
        reveal_strlit(" ");
        assert(" "@ =~= seq![' ']);
    }
    for i in 0..n
        invariant
            n == pieces@.len(),
            pv == pieces@.map_values(|t: String| t@),
            components_view(r@) == reasoning_lines(pv).take(i as int),
            " "@ == seq![' '],
    {
        let text = concat(" ", pieces[i].as_str());
        let spans = vec![Span { style: Style::DarkGray, text }];
        assert(spans_view(spans@) =~= reasoning_lines(pv)[i as int]);
        push_line(&mut r, LineComponent::from(spans));
        assert(components_view(r@) =~= reasoning_lines(pv).take(i + 1));
    }
    assert(reasoning_lines(pv).take(n as int) =~= reasoning_lines(pv));
    r
}

impl<'a> MessageComponent<'a> {
    /// The component of a message.
    pub fn new(message: &'a Message) -> (r: MessageComponent<'a>)
        ensures
            r.message == message,
    {
        MessageComponent { message }
    }

    /// The message's lines at `width`.
    pub fn render(&self, width: u16) -> (r: Vec<LineComponent>)
        ensures
            components_view(r@) == message_spec(*self.message, width as nat),
    {
        let mut lines: Vec<LineComponent> = Vec::new();
        match self.message {
            Message::Agent(content) => {
                let n = content.len();
                assert(content@.take(0) =~= Seq::<AgentMessageContent>::empty());
                for i in 0..n
                    invariant
                        n == content@.len(),
                        components_view(lines@) == agent_message_lines(content@.take(i as int)),
                {
                    proof {
                        assert(content@.take(i + 1).drop_last() =~= content@.take(i as int));
                        assert(content@.take(i + 1).last() == content@[i as int]);
                    }
                    match &content[i] {
                        AgentMessageContent::Reasoning(reasoning) => {
                            let pieces = split_str(reasoning.as_str(), '\n');
                            assert(pieces@.map_values(|t: String| t@) =~= split_on(reasoning@, '\n'));
                            append_lines(&mut lines, reasoning_components(&pieces));
                        },
                        AgentMessageContent::Text(text) => {
                            let pieces = split_str(text.as_str(), '\n');
                            assert(pieces@.map_values(|t: String| t@) =~= split_on(text@, '\n'));
                            append_lines(&mut lines, raw_line_components(&pieces));
                        },
                        AgentMessageContent::ToolCall(invocation) => {
                            let text = invocation.to_display_string();
                            let line = LineComponent::raw(text.as_str());
                            let ghost before = components_view(lines@);
                            push_line(&mut lines, line);
                            assert(components_view(lines@) =~= before + agent_piece_lines(
                                content@[i as int],
                            ));
                        },
                    }
                }
                assert(content@.take(n as int) =~= content@);
            },
            Message::User(content) => {
                let n = content.len();
                assert(content@.take(0) =~= Seq::<UserMessageContent>::empty());
                for i in 0..n
                    invariant
                        n == content@.len(),
                        components_view(lines@) == user_message_lines(
                            content@.take(i as int),
                            width as nat,
                        ),
                {
                    proof {
                        assert(content@.take(i + 1).drop_last() =~= content@.take(i as int));
                        assert(content@.take(i + 1).last() == content@[i as int]);
                    }
                    match &content[i] {
                        UserMessageContent::Text(text) => {
                            let pieces = split_str(text.as_str(), '\n');
                            assert(pieces@.map_values(|t: String| t@) =~= split_on(text@, '\n'));
                            let more = FramedLinesComponent::raw(pieces).render(width);
                            append_lines(&mut lines, more);
                        },
                        UserMessageContent::ToolResult { id: _, result } => {
                            let output = match result.output() {
                                Some(o) => o,
                                None => String::new(),
                            };
                            let pieces = split_str(output.as_str(), '\n');
                            assert(pieces@.map_values(|t: String| t@) =~= split_on(output@, '\n'));
                            append_lines(&mut lines, raw_line_components(&pieces));
                        },
                    }
                }
                assert(content@.take(n as int) =~= content@);
            },
        }
        lines
    }
}

} // verus!
