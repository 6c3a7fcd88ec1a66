use kotomori::action::{Action, EditInput, EditKey, KeyCode, KeyPress, Modifiers};
use kotomori::command::{Command, Submission};
use kotomori::composer::Composer;

#[test]
fn ctrl_j_inserts_newline() {
    assert_eq!(
        Action::from_key(&KeyPress::new(KeyCode::Char('j'), Modifiers::control())),
        Action::Edit(EditInput::key(EditKey::Enter)),
    );
}

#[test]
fn keys_map_to_actions() {
    assert_eq!(
        Action::from_key(&KeyPress::new(KeyCode::Char('c'), Modifiers::control())),
        Action::Quit
    );
    assert_eq!(
        Action::from_key(&KeyPress::new(KeyCode::Enter, Modifiers::none())),
        Action::Submit
    );
    assert_eq!(
        Action::from_key(&KeyPress::new(KeyCode::Enter, Modifiers { shift: true, ..Modifiers::none() })),
        Action::Edit(EditInput { key: EditKey::Enter, ctrl: false, alt: false, shift: true })
    );
    assert_eq!(Action::from_key(&KeyPress::new(KeyCode::Tab, Modifiers::none())), Action::CompleteCommand);
    assert_eq!(Action::from_key(&KeyPress::new(KeyCode::Down, Modifiers::none())), Action::SelectNextCommand);
    assert_eq!(Action::from_key(&KeyPress::new(KeyCode::Up, Modifiers::none())), Action::SelectPreviousCommand);
    assert_eq!(
        Action::from_key(&KeyPress::new(KeyCode::Char('a'), Modifiers::none())),
        Action::Edit(EditInput::key(EditKey::Char('a')))
    );
}

#[test]
fn back_tab_is_shift_tab_and_releases_are_ignored() {
    assert_eq!(
        EditInput::from_key(&KeyPress::new(KeyCode::BackTab, Modifiers::control())),
        EditInput { key: EditKey::Tab, ctrl: true, alt: false, shift: true }
    );
    assert_eq!(
        EditInput::from_key(&KeyPress { code: KeyCode::Char('x'), modifiers: Modifiers::none(), release: true }),
        EditInput::key(EditKey::Null)
    );
    assert_eq!(
        EditInput::from_key(&KeyPress::new(KeyCode::Other, Modifiers::none())),
        EditInput::key(EditKey::Null)
    );
}

#[test]
fn new_composer_puts_the_cursor_at_the_end() {
    let composer = Composer::new("foo\nbar baz");
    assert_eq!(composer.lines(), ["foo", "bar baz"]);
    assert_eq!(composer.cursor(), (1, 7));
    assert_eq!(composer.input_text(), "foo\nbar baz");
}

#[test]
fn slash_lists_every_command() {
    let composer = Composer::new("/");
    assert_eq!(composer.commands(), [Command::Clear, Command::Quit]);
    assert_eq!(composer.selected_command_index(), Some(0));
    assert_eq!(composer.selected_command(), Some(Command::Clear));
}

#[test]
fn multiline_text_is_no_command() {
    let composer = Composer::new("/\n");
    assert!(composer.commands().is_empty());
    assert_eq!(composer.selected_command_index(), None);
    assert_eq!(composer.command_input(), None);
}

#[test]
fn selection_wraps_around() {
    let mut composer = Composer::new("/");
    composer.select_next();
    assert_eq!(composer.selected_command(), Some(Command::Quit));
    composer.select_next();
    assert_eq!(composer.selected_command(), Some(Command::Clear));
    composer.select_previous();
    assert_eq!(composer.selected_command(), Some(Command::Quit));
    composer.select_previous();
    assert_eq!(composer.selected_command(), Some(Command::Clear));
}

#[test]
fn completing_replaces_the_text_with_the_selected_command() {
    let mut composer = Composer::new("/q");
    assert!(composer.complete_command());
    assert_eq!(composer.input_text(), "/quit");
    assert_eq!(composer.cursor(), (0, 5));
    assert!(composer.complete_command());
    assert_eq!(composer.input_text(), "/quit");
}

#[test]
fn completing_without_a_command_does_nothing() {
    let mut composer = Composer::new("hello");
    assert!(!composer.complete_command());
    assert_eq!(composer.input_text(), "hello");
}

#[test]
fn typing_edits_the_text_and_resets_the_selection() {
    let mut composer = Composer::new("/");
    composer.select_next_command();
    assert_eq!(composer.selected_command_index(), Some(1));
    composer.input(EditInput::key(EditKey::Char('c')));
    assert_eq!(composer.input_text(), "/c");
    assert_eq!(composer.selected_command(), Some(Command::Clear));
}

#[test]
fn down_without_commands_moves_the_cursor() {
    let mut composer = Composer::new("ab\ncd");
    composer.select_previous();
    assert_eq!(composer.cursor(), (0, 2));
    composer.select_next();
    assert_eq!(composer.cursor(), (1, 2));
}

#[test]
fn clearing_empties_the_text() {
    let mut composer = Composer::new("foo");
    composer.clear();
    assert_eq!(composer.lines(), [""]);
    assert_eq!(composer.cursor(), (0, 0));
    composer.set_input("a\nb");
    assert_eq!(composer.lines(), ["a", "b"]);
    assert_eq!(composer.cursor(), (1, 1));
}

#[test]
fn escape_and_function_keys_leave_the_text_and_selection() {
    let mut composer = Composer::new("/");
    composer.select_next_command();
    composer.input(EditInput::key(EditKey::Esc));
    composer.input(EditInput::key(EditKey::F(5)));
    composer.input(EditInput::key(EditKey::Null));
    assert_eq!(composer.input_text(), "/");
    assert_eq!(composer.cursor(), (0, 1));
    assert_eq!(composer.selected_command_index(), Some(1));
}

#[test]
fn enter_adds_a_line_and_resets_the_selection() {
    let mut composer = Composer::new("/");
    composer.select_next_command();
    composer.input(EditInput::key(EditKey::Enter));
    assert_eq!(composer.lines(), ["/", ""]);
    assert_eq!(composer.cursor(), (1, 0));
}

#[test]
fn typing_inserts_at_the_cursor() {
    let mut composer = Composer::new("ac");
    composer.input(EditInput::key(EditKey::Left));
    composer.input(EditInput::key(EditKey::Char('b')));
    assert_eq!(composer.lines(), ["abc"]);
    assert_eq!(composer.cursor(), (0, 2));
}

#[test]
fn enter_breaks_the_line_at_the_cursor() {
    let mut composer = Composer::new("abcd");
    composer.input(EditInput::key(EditKey::Left));
    composer.input(EditInput::key(EditKey::Left));
    composer.input(EditInput::key(EditKey::Enter));
    assert_eq!(composer.lines(), ["ab", "cd"]);
    assert_eq!(composer.cursor(), (1, 0));
}

#[test]
fn backspace_takes_out_a_character_or_joins_lines() {
    let mut composer = Composer::new("ab\ncd");
    composer.input(EditInput::key(EditKey::Backspace));
    assert_eq!(composer.lines(), ["ab", "c"]);
    assert_eq!(composer.cursor(), (1, 1));
    composer.input(EditInput::key(EditKey::Left));
    composer.input(EditInput::key(EditKey::Backspace));
    assert_eq!(composer.lines(), ["abc"]);
    assert_eq!(composer.cursor(), (0, 2));
    composer.input(EditInput::key(EditKey::Home));
    composer.input(EditInput::key(EditKey::Backspace));
    assert_eq!(composer.lines(), ["abc"]);
    assert_eq!(composer.cursor(), (0, 0));
}

#[test]
fn moving_through_commands_wraps_both_ways() {
    let mut composer = Composer::new("/");
    assert_eq!(composer.selected_command_index(), Some(0));
    composer.select_next();
    assert_eq!(composer.selected_command_index(), Some(1));
    composer.select_next();
    assert_eq!(composer.selected_command_index(), Some(0));
    composer.select_previous();
    assert_eq!(composer.selected_command_index(), Some(1));
    composer.select_previous();
    assert_eq!(composer.selected_command_index(), Some(0));
    assert_eq!(composer.input_text(), "/");
}

#[test]
fn submitting_runs_commands_skips_blank_text_and_sends_the_rest() {
    assert_eq!(Submission::of("/quit"), Submission::Quit);
    assert_eq!(Submission::of("/clear"), Submission::ClearTranscript);
    assert_eq!(Submission::of("  \n "), Submission::Nothing);
    assert_eq!(Submission::of(""), Submission::Nothing);
    assert_eq!(Submission::of("hello"), Submission::Prompt);
    assert_eq!(Submission::of("/q"), Submission::Prompt);
}

#[test]
fn moving_past_the_first_or_last_line_keeps_the_cursor() {
    let mut composer = Composer::new("ab");
    composer.select_previous();
    assert_eq!(composer.cursor(), (0, 2));
    composer.select_next();
    assert_eq!(composer.cursor(), (0, 2));
}

#[test]
fn backspace_takes_out_a_selection() {
    let mut composer = Composer::new("abc");
    composer.input(EditInput { key: EditKey::Left, ctrl: false, alt: false, shift: true });
    composer.input(EditInput { key: EditKey::Left, ctrl: false, alt: false, shift: true });
    composer.input(EditInput::key(EditKey::Backspace));
    assert_eq!(composer.lines(), ["a"]);
    assert_eq!(composer.cursor(), (0, 1));
}

#[test]
fn pasting_nothing_over_a_selection_deletes_it() {
    let mut composer = Composer::new("abc");
    composer.input(EditInput { key: EditKey::Left, ctrl: false, alt: false, shift: true });
    composer.input(EditInput { key: EditKey::Char('y'), ctrl: true, alt: false, shift: false });
    assert_eq!(composer.lines(), ["ab"]);
}
