//! Slash commands typed into the composer.

use vstd::prelude::*;

use crate::text::{chars_of, contains_whitespace, has_whitespace, is_whitespace_spec, str_eq};

verus! {

/// A slash command.
#[derive(Clone, Copy, Debug, Eq, PartialEq, Structural)]
pub enum Command {
    Clear,
    Quit,
}

/// A command's name, without the slash.
pub open spec fn command_name(c: Command) -> Seq<char> {
    match c {
        Command::Clear => seq!['c', 'l', 'e', 'a', 'r'],
        Command::Quit => seq!['q', 'u', 'i', 't'],
    }
}

/// What a command does, as the menu says it.
pub open spec fn command_description(c: Command) -> Seq<char> {
    match c {
        Command::Clear => "Clear the transcript"@,
        Command::Quit => "Quit kotomori"@,
    }
}

/// Every command, in menu order.
pub open spec fn all_commands() -> Seq<Command> {
    seq![Command::Clear, Command::Quit]
}

/// Whether `input` is a slash followed by a prefix of the command's name,
/// with no whitespace.
pub open spec fn command_matches(c: Command, input: Seq<char>) -> bool {
    &&& input.len() > 0
    &&& input[0] == '/'
    &&& !has_whitespace(input.skip(1))
    &&& input.skip(1).is_prefix_of(command_name(c))
}

/// The command that `input` names exactly, if any.
pub open spec fn command_from_input(input: Seq<char>) -> Option<Command> {
    if input.len() > 0 && input[0] == '/' && !has_whitespace(input.skip(1)) {
        if input.skip(1) == command_name(Command::Clear) {
            Some(Command::Clear)
        } else if input.skip(1) == command_name(Command::Quit) {
            Some(Command::Quit)
        } else {
            None
        }
    } else {
        None
    }
}

impl Command {
    /// Every command, in menu order.
    pub fn all() -> (r: Vec<Command>)
        ensures
            r@ == all_commands(),
    {
        let r = vec![Command::Clear, Command::Quit];
        assert(r@ =~= all_commands());
        r
    }

    /// What the command does.
    pub fn description(self) -> (r: &'static str)
        ensures
            r@ == command_description(self),
    {
        match self {
            Command::Clear => "Clear the transcript",
            Command::Quit => "Quit kotomori",
        }
    }

    /// The command's name, without the slash.
    pub fn name(self) -> (r: &'static str)
        ensures
            r@ == command_name(self),
    {
        match self {
            Command::Clear => {
                proof {
                    reveal_strlit("clear");
                }
                "clear"
            },
            Command::Quit => {
                proof {
                    reveal_strlit("quit");
                }
                "quit"
            },
        }
    }

    /// What is typed to run the command: a slash and its name.
    pub fn input(self) -> (r: String)
        ensures
            r@ == seq!['/'] + command_name(self),
    {
        proof {
            reveal_strlit("/");
        }
        crate::text::concat("/", self.name())
    }

    /// Whether `input` is a slash followed by the start of this command's name.
    pub fn matches(self, input: &str) -> (r: bool)
        ensures
            r == command_matches(self, input@),
    {
        let chars = chars_of(input);
        if chars.len() == 0 || chars[0] != '/' {
            return false;
        }
        let rest = crate::text::string_from_range(&chars, 1, chars.len());
        assert(rest@ == input@.skip(1));
        if contains_whitespace(rest.as_str()) {
            return false;
        }
        let name = chars_of(self.name());
        let rest_chars = chars_of(rest.as_str());
        if rest_chars.len() > name.len() {
            return false;
        }
        for i in 0..rest_chars.len()
            invariant
                rest_chars@ == input@.skip(1),
                name@ == command_name(self),
                rest_chars@.len() <= name@.len(),
                forall|j: int| 0 <= j < i ==> rest_chars@[j] == name@[j],
        {
            if rest_chars[i] != name[i] {
                return false;
            }
        }
        true
    }

    /// The command that `input` names, if it is a slash and a command's
    /// whole name.
    pub fn from_input(input: &str) -> (r: Option<Command>)
        ensures
            r == command_from_input(input@),
    {
        let chars = chars_of(input);
        if chars.len() == 0 || chars[0] != '/' {
            return None;
        }
        let rest = crate::text::string_from_range(&chars, 1, chars.len());
        assert(rest@ == input@.skip(1));
        if contains_whitespace(rest.as_str()) {
            return None;
        }
        let commands = Command::all();
        let mut i: usize = 0;
        while i < commands.len()
            invariant
                commands@ == all_commands(),
                rest@ == input@.skip(1),
                input@.len() > 0,
                input@[0] == '/',
                !has_whitespace(input@.skip(1)),
                i <= commands@.len(),
                forall|j: int| 0 <= j < i ==> command_name(all_commands()[j]) != rest@,
            decreases commands@.len() - i,
        {
            let command = commands[i];
            if str_eq(command.name(), rest.as_str()) {
                proof {
                    if i == 1 {
                        assert(command_name(all_commands()[0]) != rest@);
                        assert(all_commands()[0] == Command::Clear);
                    }
                }
                return Some(command);
            }
            i = i + 1;
        }
        None
    }
}

/// Command names hold no whitespace.
/// A command matches what is typed exactly when it is a slash and then the
/// start of the command's name, character for character: no longer than
/// the name, and each character after the slash the name's character at
/// that place (so `/cat` matches no command, and `/cl` matches `/clear`).
pub proof fn law_match_is_typing_the_name(c: Command, input: Seq<char>)
    ensures
        command_matches(c, input) <==> {
            &&& input.len() >= 1
            &&& input[0] == '/'
            &&& input.len() - 1 <= command_name(c).len()
            &&& forall|i: int| 1 <= i < input.len() ==> #[trigger] input[i] == command_name(c)[i - 1]
        },
{
    let rest = input.skip(1);
    let name = command_name(c);
    lemma_name_has_no_whitespace(c);
    if input.len() >= 1 && input[0] == '/' && input.len() - 1 <= name.len() && (forall|i: int|
        1 <= i < input.len() ==> #[trigger] input[i] == name[i - 1]) {
        assert(rest =~= name.subrange(0, rest.len() as int)) by {
            assert forall|j: int| 0 <= j < rest.len() implies rest[j] == name[j] by {
                assert(input[j + 1] == name[j]);
            }
        }
        assert(!has_whitespace(rest)) by {
            if has_whitespace(rest) {
                let j = choose|j: int| 0 <= j < rest.len() && is_whitespace_spec(#[trigger] rest[j]);
                assert(input[j + 1] == name[j]);
                assert(is_whitespace_spec(name[j]));
            }
        }
        assert(rest.is_prefix_of(name));
    }
    if command_matches(c, input) {
        assert forall|i: int| 1 <= i < input.len() implies #[trigger] input[i] == name[i - 1] by {
            assert(rest[i - 1] == input[i]);
            assert(name.subrange(0, rest.len() as int)[i - 1] == name[i - 1]);
        }
    }
}

pub proof fn lemma_name_has_no_whitespace(c: Command)
    ensures
        !has_whitespace(command_name(c)),
{
    assert forall|i: int| 0 <= i < command_name(c).len() implies !is_whitespace_spec(
        #[trigger] command_name(c)[i],
    ) by {
        crate::text::lemma_ascii_letter_not_whitespace(command_name(c)[i]);
    }
}

/// Typing a command's input names that command, and the command offers
/// itself for it.
pub proof fn law_command_input_roundtrip(c: Command)
    ensures
        command_from_input(seq!['/'] + command_name(c)) == Some(c),
        command_matches(c, seq!['/'] + command_name(c)),
{
    let input = seq!['/'] + command_name(c);
    assert(input.skip(1) =~= command_name(c));
    lemma_name_has_no_whitespace(c);
    assert(command_name(Command::Clear) != command_name(Command::Quit)) by {
        assert(command_name(Command::Clear).len() != command_name(Command::Quit).len());
    }
}


/// What submitting the composed text does.
#[derive(Clone, Copy, Debug, Eq, PartialEq, Structural)]
pub enum Submission {
    /// `/quit`: the session ends.
    Quit,
    /// `/clear`: the transcript is emptied.
    ClearTranscript,
    /// Only whitespace: nothing happens, and the text stays.
    Nothing,
    /// Anything else: the text is sent as a prompt.
    Prompt,
}

/// What submitting `input` does: a command it names, nothing when it is
/// blank, and otherwise a prompt.
pub open spec fn submission_of(input: Seq<char>) -> Submission {
    match command_from_input(input) {
        Option::Some(Command::Quit) => Submission::Quit,
        Option::Some(Command::Clear) => Submission::ClearTranscript,
        Option::None => if crate::text::trim_spec(input).len() == 0 {
            Submission::Nothing
        } else {
            Submission::Prompt
        },
    }
}

impl Submission {
    /// What submitting `input` does.
    pub fn of(input: &str) -> (r: Submission)
        ensures
            r == submission_of(input@),
    {
        match Command::from_input(input) {
            Some(Command::Quit) => Submission::Quit,
            Some(Command::Clear) => Submission::ClearTranscript,
            None => {
                let trimmed = crate::text::trim_string(input);
                if trimmed.as_str().is_empty() {
                    Submission::Nothing
                } else {
                    Submission::Prompt
                }
            },
        }
    }
}

} // verus!
