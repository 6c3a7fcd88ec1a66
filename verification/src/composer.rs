//! The text being composed, kept in a `ratatui_textarea::TextArea`, and the
//! slash commands that match it.

use vstd::prelude::*;

use ratatui_textarea::{CursorMove, Input, Key as K, TextArea};

use crate::action::{EditInput, EditKey, EditKey as E};
use crate::command::{Command, all_commands, command_matches, command_name};
use crate::text::{join_with, law_split_join, push_char, split_on, split_str};

verus! {

/// A `ratatui_textarea::TextArea` holding the text being composed.
#[verifier::external_body]
#[derive(Debug)]
pub struct TextBuffer {
    inner: TextArea<'static>,
}

/// The lines of text a text area holds, in order.
pub uninterp spec fn textarea_lines(t: TextBuffer) -> Seq<Seq<char>>;

/// Where a text area's cursor is: a line and a character within it.
pub uninterp spec fn textarea_cursor(t: TextBuffer) -> (nat, nat);

/// Whether a text area has a selection started (its selection start is set).
pub uninterp spec fn textarea_selecting(t: TextBuffer) -> bool;

/// Whether a cursor stands in the text: on one of its lines, at most at the
/// end of that line.
pub open spec fn cursor_in_text(lines: Seq<Seq<char>>, cursor: (nat, nat)) -> bool {
    &&& cursor.0 < lines.len()
    &&& cursor.1 <= lines[cursor.0 as int].len()
}

/// The lines a text area is made with: the given ones, or one empty line
/// when none are given.
pub open spec fn initial_lines(lines: Seq<String>) -> Seq<Seq<char>> {
    if lines.len() == 0 {
        seq![Seq::<char>::empty()]
    } else {
        lines.map_values(|s: String| s@)
    }
}

/// A text area holding the given lines, with the cursor at the start
/// (`TextArea::new`, which adds one empty line when there is none).
#[verifier::external_body]
fn textarea_from_lines(lines: Vec<String>) -> (t: TextBuffer)
    ensures
        textarea_lines(t) == initial_lines(lines@),
        textarea_cursor(t) == (0nat, 0nat),
        !textarea_selecting(t),
{
    TextBuffer { inner: TextArea::new(lines) }
}

/// An empty text area (`TextArea::default`): one empty line, the cursor at
/// its start.
#[verifier::external_body]
fn textarea_empty() -> (t: TextBuffer)
    ensures
        textarea_lines(t) == seq![Seq::<char>::empty()],
        textarea_cursor(t) == (0nat, 0nat),
        !textarea_selecting(t),
{
    TextBuffer { inner: TextArea::default() }
}

/// Where the cursor can be sent.
#[derive(Clone, Copy, Debug, Eq, PartialEq, Structural)]
pub enum CursorJump {
    /// To the last line, keeping the column where that line is long enough.
    Bottom,
    /// To the end of the cursor's line.
    End,
}

/// Where a jump sends the cursor.
pub open spec fn jump_target(lines: Seq<Seq<char>>, cursor: (nat, nat), jump: CursorJump) -> (
    nat,
    nat,
) {
    match jump {
        CursorJump::Bottom => {
            let row = (lines.len() - 1) as nat;
            let count = lines[row as int].len();
            (row, if cursor.1 <= count { cursor.1 } else { count })
        },
        CursorJump::End => (cursor.0, lines[cursor.0 as int].len()),
    }
}

/// Sends the cursor to the last line or to the end of its line
/// (`TextArea::move_cursor` with `CursorMove::Bottom` or `CursorMove::End`);
/// the text stays as it is, and so does whether a selection is started.
#[verifier::external_body]
fn textarea_move_cursor(t: &mut TextBuffer, jump: CursorJump)
    requires
        textarea_lines(*old(t)).len() > 0,
        textarea_cursor(*old(t)).0 < textarea_lines(*old(t)).len(),
    ensures
        textarea_lines(*final(t)) == textarea_lines(*old(t)),
        textarea_cursor(*final(t)) == jump_target(
            textarea_lines(*old(t)),
            textarea_cursor(*old(t)),
            jump,
        ),
        textarea_selecting(*final(t)) == textarea_selecting(*old(t)),
{
    match jump {
        CursorJump::Bottom => t.inner.move_cursor(CursorMove::Bottom),
        CursorJump::End => t.inner.move_cursor(CursorMove::End),
    }
}

/// The lines of a text area (`TextArea::lines`).
#[verifier::external_body]
fn textarea_lines_of<'b>(t: &'b TextBuffer) -> (r: &'b [String])
    ensures
        r@.map_values(|s: String| s@) == textarea_lines(*t),
{
    t.inner.lines()
}

/// The cursor of a text area (`TextArea::cursor`).
#[verifier::external_body]
fn textarea_cursor_of(t: &TextBuffer) -> (r: (usize, usize))
    ensures
        (r.0 as nat, r.1 as nat) == textarea_cursor(*t),
{
    let c = t.inner.cursor();
    (c.0, c.1)
}

/// Whether an input moves the cursor up or down a line and does nothing
/// else.
pub open spec fn is_line_move(input: EditInput) -> bool {
    (input.key == EditKey::Down || input.key == EditKey::Up) && !input.ctrl && !input.alt
}

/// Whether an input types: a character without control or alt, or the
/// enter key.
pub open spec fn is_typing(input: EditInput) -> bool {
    (input.key is Char && !input.ctrl && !input.alt) || input.key == EditKey::Enter
}

/// Whether an input is one the text area has no binding for: escape, a
/// function key, or no key at all.
pub open spec fn is_unbound(input: EditInput) -> bool {
    input.key == EditKey::Esc || input.key is F || input.key == EditKey::Null
}

/// Whether an input breaks the line: enter, or a new line or carriage
/// return typed without control or alt.
pub open spec fn is_line_break(input: EditInput) -> bool {
    ||| input.key == EditKey::Enter
    ||| (input.key == EditKey::Char('\n') || input.key == EditKey::Char('\r')) && !input.ctrl
        && !input.alt
}

/// The character an input inserts: one typed without control or alt that
/// does not break the line.
pub open spec fn typed_char(input: EditInput) -> Option<char> {
    match input.key {
        EditKey::Char(c) => if !input.ctrl && !input.alt && c != '\n' && c != '\r' {
            Option::Some(c)
        } else {
            Option::None
        },
        _ => Option::None,
    }
}

/// The line the cursor is on after moving down (`down`) or up a line from
/// `row` in text of `n` lines: the next or previous line, or the same line
/// at the last or first.
pub open spec fn line_move_row(row: nat, n: nat, down: bool) -> nat {
    if down {
        if row + 1 < n {
            row + 1
        } else {
            row
        }
    } else if row > 0 {
        (row - 1) as nat
    } else {
        row
    }
}

/// Whether an input pastes the yanked text: control and `y`, without alt.
pub open spec fn is_paste(input: EditInput) -> bool {
    input.key == EditKey::Char('y') && input.ctrl && !input.alt
}

/// Whether an input is a backspace without control or alt.
pub open spec fn is_backspace(input: EditInput) -> bool {
    input.key == EditKey::Backspace && !input.ctrl && !input.alt
}

/// The text with `c` put in at the cursor.
pub open spec fn insert_char_at(lines: Seq<Seq<char>>, cursor: (nat, nat), c: char) -> Seq<
    Seq<char>,
> {
    let line = lines[cursor.0 as int];
    lines.update(
        cursor.0 as int,
        line.take(cursor.1 as int).push(c) + line.skip(cursor.1 as int),
    )
}

/// The text with its cursor line broken in two at the cursor.
pub open spec fn break_line_at(lines: Seq<Seq<char>>, cursor: (nat, nat)) -> Seq<Seq<char>> {
    let row = cursor.0 as int;
    let line = lines[row];
    lines.take(row).push(line.take(cursor.1 as int)).push(line.skip(cursor.1 as int))
        + lines.skip(row + 1)
}

/// The text after a backspace: the character before the cursor taken out;
/// at the start of a line, the line joined onto the one above; at the very
/// start, nothing.
pub open spec fn backspace_lines(lines: Seq<Seq<char>>, cursor: (nat, nat)) -> Seq<Seq<char>> {
    let row = cursor.0 as int;
    let col = cursor.1 as int;
    let line = lines[row];
    if col > 0 {
        lines.update(row, line.take(col - 1) + line.skip(col))
    } else if row > 0 {
        lines.take(row - 1).push(lines[row - 1] + line) + lines.skip(row + 1)
    } else {
        lines
    }
}

/// Where the cursor is after a backspace: one character back, or at the
/// joint of the joined lines.
pub open spec fn backspace_cursor(lines: Seq<Seq<char>>, cursor: (nat, nat)) -> (nat, nat) {
    if cursor.1 > 0 {
        (cursor.0, (cursor.1 - 1) as nat)
    } else if cursor.0 > 0 {
        ((cursor.0 - 1) as nat, lines[cursor.0 - 1].len())
    } else {
        cursor
    }
}

/// Hands a key to a text area (`TextArea::input`), which edits its text or
/// moves its cursor by its own key bindings and says whether it edited.
/// The cursor stands in the text before and after (the method checks this
/// itself).  When no selection is started, the answer is yes exactly when
/// the lines changed: every binding that answers yes inserts or takes out
/// at least one character or line, and undo and redo replay such edits.
/// Whatever is selected, an answer of no means the lines stayed, with one
/// exception: pasting deletes the selection first and answers only whether
/// it inserted, so a paste of nothing over a selection changes the lines and
/// answers no.
/// With no selection started:
/// - a character typed without control or alt goes in at the cursor, which
///   moves one to the right;
/// - enter (or a typed new line) breaks the line at the cursor, which moves
///   to the start of the new line;
/// - backspace takes out the character before the cursor, or joins the line
///   onto the one above at its start;
/// and none of these starts a selection.  Up and down without control or alt
/// only move the cursor, so the text stays and the answer is no: to the next
/// or previous line (each line is one screen line, as the text area wraps
/// nothing by default), or nowhere from the last or first line; without
/// shift they start no selection.  Typing always answers yes.  Escape,
/// function keys and no key match no binding: nothing changes.  What the
/// other keys do, what keys do while a selection is started, undo history
/// and yanked text, and the column up and down take the cursor to (which
/// the text area keeps in screen columns), is left unsaid.
#[verifier::external_body]
fn textarea_input(t: &mut TextBuffer, input: EditInput) -> (r: bool)
    requires
        cursor_in_text(textarea_lines(*old(t)), textarea_cursor(*old(t))),
    ensures
        cursor_in_text(textarea_lines(*final(t)), textarea_cursor(*final(t))),
        !textarea_selecting(*old(t)) ==> (r <==> textarea_lines(*final(t)) != textarea_lines(
            *old(t),
        )),
        !is_paste(input) && !r ==> textarea_lines(*final(t)) == textarea_lines(*old(t)),
        is_line_move(input) ==> !r && textarea_lines(*final(t)) == textarea_lines(*old(t)),
        is_line_move(input) && !input.shift && !textarea_selecting(*old(t)) ==> !textarea_selecting(
            *final(t),
        ),
        is_line_move(input) ==> textarea_cursor(*final(t)).0 == line_move_row(
            textarea_cursor(*old(t)).0,
            textarea_lines(*old(t)).len(),
            input.key == EditKey::Down,
        ),
        is_line_move(input) && line_move_row(
            textarea_cursor(*old(t)).0,
            textarea_lines(*old(t)).len(),
            input.key == EditKey::Down,
        ) == textarea_cursor(*old(t)).0 ==> textarea_cursor(*final(t)) == textarea_cursor(*old(t)),
        is_typing(input) ==> r,
        is_unbound(input) ==> !r && textarea_lines(*final(t)) == textarea_lines(*old(t))
            && textarea_cursor(*final(t)) == textarea_cursor(*old(t)) && textarea_selecting(
            *final(t),
        ) == textarea_selecting(*old(t)),
        !textarea_selecting(*old(t)) && typed_char(input) is Some ==> {
            &&& textarea_lines(*final(t)) == insert_char_at(
                textarea_lines(*old(t)),
                textarea_cursor(*old(t)),
                typed_char(input)->0,
            )
            &&& textarea_cursor(*final(t)) == (
                textarea_cursor(*old(t)).0,
                textarea_cursor(*old(t)).1 + 1,
            )
            &&& !textarea_selecting(*final(t))
        },
        !textarea_selecting(*old(t)) && is_line_break(input) ==> {
            &&& textarea_lines(*final(t)) == break_line_at(
                textarea_lines(*old(t)),
                textarea_cursor(*old(t)),
            )
            &&& textarea_cursor(*final(t)) == (textarea_cursor(*old(t)).0 + 1, 0nat)
            &&& !textarea_selecting(*final(t))
        },
        !textarea_selecting(*old(t)) && is_backspace(input) ==> {
            &&& textarea_lines(*final(t)) == backspace_lines(
                textarea_lines(*old(t)),
                textarea_cursor(*old(t)),
            )
            &&& textarea_cursor(*final(t)) == backspace_cursor(
                textarea_lines(*old(t)),
                textarea_cursor(*old(t)),
            )
            &&& !textarea_selecting(*final(t))
        },
{
    let key = match input.key {
        E::Char(c) => K::Char(c), E::F(n) => K::F(n), E::Backspace => K::Backspace,
        E::Enter => K::Enter, E::Left => K::Left, E::Right => K::Right, E::Up => K::Up,
        E::Down => K::Down, E::Tab => K::Tab, E::Delete => K::Delete, E::Home => K::Home,
        E::End => K::End, E::PageUp => K::PageUp, E::PageDown => K::PageDown,
        E::Esc => K::Esc, E::Null => K::Null,
    };
    t.inner.input(Input { key, ctrl: input.ctrl, alt: input.alt, shift: input.shift })
}

/// The text that may be a command: the only line, when there is one line.
pub open spec fn command_input_of(lines: Seq<Seq<char>>) -> Option<Seq<char>> {
    if lines.len() == 1 {
        Option::Some(lines[0])
    } else {
        Option::None
    }
}

/// The commands among `commands` that `input` matches, in order.
pub open spec fn commands_matching(commands: Seq<Command>, input: Seq<char>) -> Seq<Command>
    decreases commands.len(),
{
    if commands.len() == 0 {
        Seq::<Command>::empty()
    } else {
        let init = commands_matching(commands.drop_last(), input);
        if command_matches(commands.last(), input) {
            init.push(commands.last())
        } else {
            init
        }
    }
}

/// The commands that the text matches: none unless it is a single line.
pub open spec fn matching_commands(lines: Seq<Seq<char>>) -> Seq<Command> {
    match command_input_of(lines) {
        Option::Some(input) => commands_matching(all_commands(), input),
        Option::None => Seq::<Command>::empty(),
    }
}

/// The position of the selected command: the remembered one, kept within
/// the matching commands; none when no command matches.
pub open spec fn selected_index_of(lines: Seq<Seq<char>>, index: nat) -> Option<nat> {
    let n = matching_commands(lines).len();
    if n == 0 {
        Option::None
    } else if index <= n - 1 {
        Option::Some(index)
    } else {
        Option::Some((n - 1) as nat)
    }
}

/// The selected command.
pub open spec fn selected_command_of(lines: Seq<Seq<char>>, index: nat) -> Option<Command> {
    match selected_index_of(lines, index) {
        Option::Some(i) => Option::Some(matching_commands(lines)[i as int]),
        Option::None => Option::None,
    }
}

/// The position after moving down through `n` commands: one further, back
/// to the first past the last.
pub open spec fn next_index(index: nat, n: nat) -> nat {
    let up = if index < usize::MAX { index + 1 } else { usize::MAX as nat };
    if n > 0 {
        (up % n) as nat
    } else {
        index
    }
}

/// The position after moving up through `n` commands: one back, to the last
/// from the first.
pub open spec fn previous_index(index: nat, n: nat) -> nat {
    if n > 0 {
        if index == 0 {
            (n - 1) as nat
        } else {
            (index - 1) as nat
        }
    } else {
        index
    }
}

/// The lines of typed text and where its cursor goes: the text split at
/// new lines, the cursor at the end of the last line.
pub open spec fn typed_lines(input: Seq<char>) -> Seq<Seq<char>> {
    split_on(input, '\n')
}

/// The end of the last line of the typed text.
pub open spec fn typed_cursor(input: Seq<char>) -> (nat, nat) {
    let lines = split_on(input, '\n');
    ((lines.len() - 1) as nat, lines.last().len())
}

/// The text being composed, and which of the matching commands is selected.
#[derive(Debug)]
pub struct Composer {
    command_index: usize,
    textarea: TextBuffer,
}

impl Composer {
    /// The lines of text.
    pub closed spec fn text(&self) -> Seq<Seq<char>> {
        textarea_lines(self.textarea)
    }

    /// Where the cursor is.
    pub closed spec fn cursor_at(&self) -> (nat, nat) {
        textarea_cursor(self.textarea)
    }

    /// The remembered position in the matching commands.
    pub closed spec fn command_position(&self) -> nat {
        self.command_index as nat
    }

    /// Whether a selection of text is started.
    pub closed spec fn selecting(&self) -> bool {
        textarea_selecting(self.textarea)
    }

    /// Whether the remembered position is the selected one: the first, or
    /// one of the matching commands.
    pub open spec fn position_in_range(&self) -> bool {
        self.command_position() == 0 || self.command_position() < matching_commands(
            self.text(),
        ).len()
    }

    /// The cursor stands in the text.
    #[verifier::type_invariant]
    closed spec fn cursor_stands_in_text(self) -> bool {
        cursor_in_text(textarea_lines(self.textarea), textarea_cursor(self.textarea))
    }

    /// A text area holding `input`, the cursor at its end.
    pub fn textarea(input: &str) -> (t: TextBuffer)
        ensures
            textarea_lines(t) == typed_lines(input@),
            textarea_cursor(t) == typed_cursor(input@),
            !textarea_selecting(t),
            cursor_in_text(textarea_lines(t), textarea_cursor(t)),
    {
        let pieces = split_str(input, '\n');
        proof {
            law_split_join(input@, '\n');
            assert(pieces@.map_values(|s: String| s@) =~= split_on(input@, '\n'));
        }
        let mut t = textarea_from_lines(pieces);
        textarea_move_cursor(&mut t, CursorJump::Bottom);
        textarea_move_cursor(&mut t, CursorJump::End);
        t
    }

    /// A composer holding `input`, the cursor at its end, the first
    /// command selected.
    pub fn new(input: &str) -> (r: Composer)
        ensures
            r.text() == typed_lines(input@),
            r.cursor_at() == typed_cursor(input@),
            r.command_position() == 0,
            !r.selecting(),
    {
        Composer { command_index: 0, textarea: Self::textarea(input) }
    }

    /// Empties the text and selects the first command.
    pub fn clear(&mut self)
        ensures
            final(self).text() == seq![Seq::<char>::empty()],
            final(self).cursor_at() == (0nat, 0nat),
            final(self).command_position() == 0,
            !final(self).selecting(),
    {
        self.textarea = textarea_empty();
        self.command_index = 0;
    }

    /// Replaces the text with `input`, the cursor at its end, and selects
    /// the first command.
    pub fn set_input(&mut self, input: &str)
        ensures
            final(self).text() == typed_lines(input@),
            final(self).cursor_at() == typed_cursor(input@),
            final(self).command_position() == 0,
            !final(self).selecting(),
    {
        self.textarea = Self::textarea(input);
        self.command_index = 0;
    }

    /// The lines of text.
    pub fn lines(&self) -> (r: &[String])
        ensures
            r@.map_values(|s: String| s@) == self.text(),
    {
        textarea_lines_of(&self.textarea)
    }

    /// Where the cursor is: a line and a character within it.
    pub fn cursor(&self) -> (r: (usize, usize))
        ensures
            (r.0 as nat, r.1 as nat) == self.cursor_at(),
    {
        textarea_cursor_of(&self.textarea)
    }

    /// The text, its lines joined by new lines.
    pub fn input_text(&self) -> (r: String)
        ensures
            r@ == join_with(self.text(), '\n'),
    {
        let lines = self.lines();
        let ghost text = self.text();
        let mut r = String::new();
        let n = lines.len();
        for i in 0..n
            invariant
                n == text.len(),
                lines@.map_values(|s: String| s@) == text,
                r@ == join_with(text.take(i as int), '\n'),
        {
            let ghost before = r@;
            assert(lines@[i as int]@ == text[i as int]);
            if i > 0 {
                push_char(&mut r, '\n');
            }
            crate::text::append_str(&mut r, lines[i].as_str());
            proof {
                let t = text.take(i + 1);
                assert(t.drop_last() =~= text.take(i as int));
                assert(t.last() == text[i as int]);
                if i == 0 {
                    assert(t.len() == 1);
                    assert(before =~= Seq::<char>::empty());
                    assert(r@ =~= t[0]);
                }
            }
        }
        assert(text.take(n as int) =~= text);
        r
    }

    /// The text that may be a command: the only line, when there is one.
    pub fn command_input(&self) -> (r: Option<&str>)
        ensures
            match r {
                Option::Some(s) => command_input_of(self.text()) == Option::Some(s@),
                Option::None => command_input_of(self.text()) == Option::<Seq<char>>::None,
            },
    {
        let lines = self.lines();
        if lines.len() == 1 {
            assert(lines@[0]@ == self.text()[0]);
            Some(lines[0].as_str())
        } else {
            None
        }
    }

    /// The commands the text matches, in menu order.
    pub fn commands(&self) -> (r: Vec<Command>)
        ensures
            r@ == matching_commands(self.text()),
    {
        let mut r: Vec<Command> = Vec::new();
        match self.command_input() {
            None => r,
            Some(input) => {
                let all = Command::all();
                let n = all.len();
                assert(all@.take(0) =~= Seq::<Command>::empty());
                for i in 0..n
                    invariant
                        n == all@.len(),
                        all@ == all_commands(),
                        r@ == commands_matching(all@.take(i as int), input@),
                {
                    assert(all@.take(i + 1).drop_last() =~= all@.take(i as int));
                    if all[i].matches(input) {
                        r.push(all[i]);
                    }
                }
                assert(all@.take(n as int) =~= all@);
                r
            },
        }
    }

    /// The position of the selected command, if any command matches.
    pub fn selected_command_index(&self) -> (r: Option<usize>)
        ensures
            match r {
                Option::Some(i) => selected_index_of(self.text(), self.command_position())
                    == Option::Some(i as nat),
                Option::None => selected_index_of(self.text(), self.command_position())
                    == Option::<nat>::None,
            },
    {
        let len = self.commands().len();
        if len == 0 {
            None
        } else if self.command_index <= len - 1 {
            Some(self.command_index)
        } else {
            Some(len - 1)
        }
    }

    /// The selected command, if any command matches.
    pub fn selected_command(&self) -> (r: Option<Command>)
        ensures
            r == selected_command_of(self.text(), self.command_position()),
    {
        let commands = self.commands();
        match self.selected_command_index() {
            Some(i) => Some(commands[i]),
            None => None,
        }
    }

    /// Selects the next matching command, back to the first after the last.
    pub fn select_next_command(&mut self)
        ensures
            final(self).text() == old(self).text(),
            final(self).cursor_at() == old(self).cursor_at(),
            final(self).command_position() == next_index(
                old(self).command_position(),
                matching_commands(old(self).text()).len(),
            ),
            final(self).selecting() == old(self).selecting(),
    {
        proof {
            use_type_invariant(&*self);
        }
        let len = self.commands().len();
        if len > 0 {
            self.command_index = self.command_index.saturating_add(1) % len;
        }
    }

    /// Selects the previous matching command, the last before the first.
    pub fn select_previous_command(&mut self)
        ensures
            final(self).text() == old(self).text(),
            final(self).cursor_at() == old(self).cursor_at(),
            final(self).command_position() == previous_index(
                old(self).command_position(),
                matching_commands(old(self).text()).len(),
            ),
            final(self).selecting() == old(self).selecting(),
    {
        proof {
            use_type_invariant(&*self);
        }
        let len = self.commands().len();
        if len > 0 {
            self.command_index = if self.command_index == 0 {
                len - 1
            } else {
                self.command_index - 1
            };
        }
    }

    /// Hands a key to the text; when the text area reports an edit, the
    /// first command is selected.  That happens whenever the text changed,
    /// but for a paste of nothing over a selection; with no selection
    /// started, only then.  With no selection, a typed character goes in at
    /// the cursor, enter breaks the line, backspace takes out the character
    /// before the cursor.  What other keys do to the text is the text area's
    /// own.
    pub fn input(&mut self, input: EditInput)
        ensures
            final(self).command_position() == 0 || final(self).command_position()
                == old(self).command_position(),
            !old(self).selecting() ==> final(self).command_position() == (if final(self).text()
                == old(self).text() {
                old(self).command_position()
            } else {
                0
            }),
            !is_paste(input) && final(self).text() != old(self).text()
                ==> final(self).command_position() == 0,
            old(self).position_in_range() && (!old(self).selecting() || !is_paste(input))
                ==> final(self).position_in_range(),
            is_line_move(input) ==> final(self).text() == old(self).text()
                && final(self).command_position() == old(self).command_position(),
            is_line_move(input) && !input.shift && !old(self).selecting()
                ==> !final(self).selecting(),
            is_line_move(input) ==> final(self).cursor_at().0 == line_move_row(
                old(self).cursor_at().0,
                old(self).text().len(),
                input.key == EditKey::Down,
            ),
            is_typing(input) ==> final(self).command_position() == 0,
            is_unbound(input) ==> final(self).text() == old(self).text()
                && final(self).cursor_at() == old(self).cursor_at()
                && final(self).command_position() == old(self).command_position()
                && final(self).selecting() == old(self).selecting(),
            !old(self).selecting() && typed_char(input) is Some ==> {
                &&& final(self).text() == insert_char_at(
                    old(self).text(),
                    old(self).cursor_at(),
                    typed_char(input)->0,
                )
                &&& final(self).cursor_at() == (old(self).cursor_at().0, old(self).cursor_at().1
                    + 1)
                &&& !final(self).selecting()
            },
            !old(self).selecting() && is_line_break(input) ==> {
                &&& final(self).text() == break_line_at(old(self).text(), old(self).cursor_at())
                &&& final(self).cursor_at() == (old(self).cursor_at().0 + 1, 0nat)
                &&& !final(self).selecting()
            },
            !old(self).selecting() && is_backspace(input) ==> {
                &&& final(self).text() == backspace_lines(old(self).text(), old(self).cursor_at())
                &&& final(self).cursor_at() == backspace_cursor(
                    old(self).text(),
                    old(self).cursor_at(),
                )
                &&& !final(self).selecting()
            },
    {
        proof {
            use_type_invariant(&*self);
        }
        // The text area is taken out while it handles the key, an empty one
        // standing in for it, so that the composer stays whole throughout.
        let mut textarea = textarea_empty();
        std::mem::swap(&mut textarea, &mut self.textarea);
        let edited = textarea_input(&mut textarea, input);
        self.textarea = textarea;
        if edited {
            self.command_index = 0;
        }
    }

    /// Moves to the next command when one is selected, and otherwise hands
    /// the down key to the text.
    pub fn select_next(&mut self)
        ensures
            matching_commands(old(self).text()).len() > 0 ==> {
                &&& final(self).text() == old(self).text()
                &&& final(self).cursor_at() == old(self).cursor_at()
                &&& final(self).command_position() == next_index(
                    old(self).command_position(),
                    matching_commands(old(self).text()).len(),
                )
            },
            matching_commands(old(self).text()).len() == 0 ==> final(self).text() == old(
                self,
            ).text() && final(self).command_position() == old(self).command_position(),
            !old(self).selecting() ==> !final(self).selecting(),
            matching_commands(old(self).text()).len() == 0 ==> final(self).cursor_at().0
                == line_move_row(old(self).cursor_at().0, old(self).text().len(), true),
            old(self).position_in_range() ==> final(self).position_in_range(),
            matching_commands(old(self).text()).len() > 0 && old(self).position_in_range()
                ==> selected_index_of(final(self).text(), final(self).command_position())
                == Option::Some(
                ((old(self).command_position() + 1) % matching_commands(old(self).text()).len()) as nat,
            ),
    {
        proof {
            lemma_matching_commands_len(old(self).text());
        }
        if self.selected_command().is_some() {
            self.select_next_command();
        } else {
            self.input(EditInput::key(EditKey::Down));
        }
    }

    /// Moves to the previous command when one is selected, and otherwise
    /// hands the up key to the text.
    pub fn select_previous(&mut self)
        ensures
            matching_commands(old(self).text()).len() > 0 ==> {
                &&& final(self).text() == old(self).text()
                &&& final(self).cursor_at() == old(self).cursor_at()
                &&& final(self).command_position() == previous_index(
                    old(self).command_position(),
                    matching_commands(old(self).text()).len(),
                )
            },
            matching_commands(old(self).text()).len() == 0 ==> final(self).text() == old(
                self,
            ).text() && final(self).command_position() == old(self).command_position(),
            !old(self).selecting() ==> !final(self).selecting(),
            matching_commands(old(self).text()).len() == 0 ==> final(self).cursor_at().0
                == line_move_row(old(self).cursor_at().0, old(self).text().len(), false),
            old(self).position_in_range() ==> final(self).position_in_range(),
            matching_commands(old(self).text()).len() > 0 && old(self).position_in_range()
                ==> selected_index_of(final(self).text(), final(self).command_position())
                == Option::Some(
                ((old(self).command_position() + matching_commands(old(self).text()).len() - 1)
                    % (matching_commands(old(self).text()).len() as int)) as nat,
            ),
    {
        proof {
            lemma_matching_commands_len(old(self).text());
            let n = matching_commands(old(self).text()).len();
            if n > 0 && old(self).position_in_range() {
                lemma_previous_wraps(old(self).command_position(), n);
            }
        }
        if self.selected_command().is_some() {
            self.select_previous_command();
        } else {
            self.input(EditInput::key(EditKey::Up));
        }
    }

    /// Replaces the text with the selected command's input, if a command is
    /// selected, and says whether it did.
    pub fn complete_command(&mut self) -> (r: bool)
        ensures
            r == selected_command_of(old(self).text(), old(self).command_position()) is Some,
            match selected_command_of(old(self).text(), old(self).command_position()) {
                Option::Some(c) => {
                    &&& final(self).text() == typed_lines(seq!['/'] + command_name(c))
                    &&& final(self).cursor_at() == typed_cursor(seq!['/'] + command_name(c))
                    &&& final(self).command_position() == 0
                },
                Option::None => {
                    &&& final(self).text() == old(self).text()
                    &&& final(self).cursor_at() == old(self).cursor_at()
                    &&& final(self).command_position() == old(self).command_position()
                    &&& final(self).selecting() == old(self).selecting()
                },
            },
            r ==> !final(self).selecting(),
            old(self).position_in_range() ==> final(self).position_in_range(),
    {
        match self.selected_command() {
            Some(command) => {
                let input = command.input();
                self.set_input(input.as_str());
                true
            },
            None => false,
        }
    }
}

/// At most every command matches.
proof fn lemma_commands_matching_len(commands: Seq<Command>, input: Seq<char>)
    ensures
        commands_matching(commands, input).len() <= commands.len(),
    decreases commands.len(),
{
    if commands.len() > 0 {
        lemma_commands_matching_len(commands.drop_last(), input);
    }
}

/// Few commands match: no more than there are commands.
proof fn lemma_matching_commands_len(lines: Seq<Seq<char>>)
    ensures
        matching_commands(lines).len() <= all_commands().len(),
        all_commands().len() < usize::MAX,
{
    match command_input_of(lines) {
        Option::Some(input) => lemma_commands_matching_len(all_commands(), input),
        Option::None => {},
    }
}

proof fn lemma_previous_wraps(index: nat, n: nat)
    requires
        index < n,
    ensures
        previous_index(index, n) == ((index + n - 1) % (n as int)) as nat,
{
    if index == 0 {
        assert((n - 1) % (n as int) == n - 1) by (nonlinear_arith)
            requires
                n > 0,
        ;
    } else {
        assert((index + n - 1) % (n as int) == index - 1) by (nonlinear_arith)
            requires
                0 < index < n,
        ;
    }
}

/// Moving down and then up through the commands comes back to where it
/// started, and so does moving up and then down.
pub proof fn law_next_previous_inverse(index: nat, n: nat)
    requires
        index < n,
        n <= usize::MAX,
    ensures
        previous_index(next_index(index, n), n) == index,
        next_index(previous_index(index, n), n) == index,
{
    if index + 1 < n {
        assert((index + 1) % n == index + 1) by (nonlinear_arith)
            requires
                index + 1 < n,
        ;
    } else {
        assert((index + 1) % n == 0) by (nonlinear_arith)
            requires
                index + 1 == n,
        ;
    }
    if index == 0 {
        assert(n % n == 0) by (nonlinear_arith)
            requires
                n > 0,
        ;
    } else {
        assert(index % n == index) by (nonlinear_arith)
            requires
                index < n,
        ;
    }
}

/// The text set by `Composer::new` or `Composer::set_input` is what
/// `Composer::input_text` gives back.
pub proof fn law_typed_text_round_trip(input: Seq<char>)
    ensures
        join_with(typed_lines(input), '\n') == input,
{
    law_split_join(input, '\n');
}

proof fn lemma_split_without_separator(s: Seq<char>, sep: char)
    requires
        !s.contains(sep),
    ensures
        split_on(s, sep) == seq![s],
    decreases s.len(),
{
    if s.len() == 0 {
        assert(s =~= Seq::<char>::empty());
    } else {
        let t = s.drop_last();
        assert(!t.contains(sep)) by {
            if t.contains(sep) {
                let k = choose|k: int| 0 <= k < t.len() && t[k] == sep;
                assert(s[k] == sep);
            }
        }
        lemma_split_without_separator(t, sep);
        assert(s.last() != sep) by {
            assert(s[s.len() - 1] == s.last());
        }
        assert(t.push(s.last()) =~= s);
    }
}

proof fn lemma_command_menu(c: Command)
    ensures
        commands_matching(all_commands(), seq!['/'] + command_name(c)) == seq![c],
{
    let input = seq!['/'] + command_name(c);
    let all = all_commands();
    assert(input.skip(1) =~= command_name(c));
    crate::command::lemma_name_has_no_whitespace(c);
    assert(all.drop_last() =~= seq![Command::Clear]);
    assert(seq![Command::Clear].drop_last() =~= Seq::<Command>::empty());
    assert(all.last() == Command::Quit);
    assert(seq![Command::Clear].last() == Command::Clear);
    assert(commands_matching(Seq::<Command>::empty(), input) == Seq::<Command>::empty());
    let first = commands_matching(seq![Command::Clear], input);
    assert(first == if command_matches(Command::Clear, input) {
        Seq::<Command>::empty().push(Command::Clear)
    } else {
        Seq::<Command>::empty()
    });
    assert(commands_matching(all, input) == if command_matches(Command::Quit, input) {
        first.push(Command::Quit)
    } else {
        first
    });
    match c {
        Command::Clear => {
            assert(input.skip(1)[0] == 'c');
            assert(!input.skip(1).is_prefix_of(command_name(Command::Quit)));
            assert(command_matches(Command::Clear, input));
            assert(commands_matching(all, input) =~= seq![Command::Clear]);
        },
        Command::Quit => {
            assert(input.skip(1)[0] == 'q');
            assert(!input.skip(1).is_prefix_of(command_name(Command::Clear)));
            assert(command_matches(Command::Quit, input));
            assert(commands_matching(all, input) =~= seq![Command::Quit]);
        },
    }
}

/// Completing a command is stable: the completed text selects the same
/// command again, so completing once more leaves the text as it is.
pub proof fn law_completion_is_stable(c: Command)
    ensures
        selected_command_of(typed_lines(seq!['/'] + command_name(c)), 0) == Option::Some(c),
{
    let input = seq!['/'] + command_name(c);
    assert(!input.contains('\n')) by {
        if input.contains('\n') {
            let k = choose|k: int| 0 <= k < input.len() && input[k] == '\n';
            assert(input[k] == '\n');
        }
    }
    lemma_split_without_separator(input, '\n');
    lemma_command_menu(c);
}

} // verus!
