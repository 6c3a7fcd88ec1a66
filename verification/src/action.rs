//! Key presses, and what the composer makes of them.

use vstd::prelude::*;

verus! {

/// A key as the terminal reports it.
#[derive(Clone, Copy, Debug, Eq, PartialEq, Structural)]
pub enum KeyCode {
    Char(char),
    F(u8),
    Backspace,
    Enter,
    Left,
    Right,
    Up,
    Down,
    Tab,
    BackTab,
    Delete,
    Home,
    End,
    PageUp,
    PageDown,
    Esc,
    /// Any other key (media keys, lock keys and the like).
    Other,
}

/// The modifier keys held with a key.
#[derive(Clone, Copy, Debug, Eq, PartialEq, Structural)]
pub struct Modifiers {
    pub shift: bool,
    pub control: bool,
    pub alt: bool,
    /// Super, hyper or meta.
    pub other: bool,
}

impl Modifiers {
    /// No modifier.
    pub fn none() -> (r: Modifiers)
        ensures
            !r.shift && !r.control && !r.alt && !r.other,
    {
        Modifiers { shift: false, control: false, alt: false, other: false }
    }

    /// Control alone.
    pub fn control() -> (r: Modifiers)
        ensures
            !r.shift && r.control && !r.alt && !r.other,
    {
        Modifiers { shift: false, control: true, alt: false, other: false }
    }

    /// Whether no modifier is held.
    pub fn is_empty(&self) -> (r: bool)
        ensures
            r == (!self.shift && !self.control && !self.alt && !self.other),
    {
        !self.shift && !self.control && !self.alt && !self.other
    }
}

/// A key event: a key, the modifiers held, and whether the key was let go
/// rather than pressed.
#[derive(Clone, Copy, Debug, Eq, PartialEq, Structural)]
pub struct KeyPress {
    pub code: KeyCode,
    pub modifiers: Modifiers,
    pub release: bool,
}

impl KeyPress {
    /// A key pressed with the given modifiers.
    pub fn new(code: KeyCode, modifiers: Modifiers) -> (r: KeyPress)
        ensures
            r.code == code,
            r.modifiers == modifiers,
            !r.release,
    {
        KeyPress { code, modifiers, release: false }
    }
}

/// A key for the text editor.
#[derive(Clone, Copy, Debug, Eq, PartialEq, Structural)]
pub enum EditKey {
    Char(char),
    F(u8),
    Backspace,
    Enter,
    Left,
    Right,
    Up,
    Down,
    Tab,
    Delete,
    Home,
    End,
    PageUp,
    PageDown,
    Esc,
    /// No key.
    Null,
}

/// An input for the text editor: a key and its modifiers.
#[derive(Clone, Copy, Debug, Eq, PartialEq, Structural)]
pub struct EditInput {
    pub key: EditKey,
    pub ctrl: bool,
    pub alt: bool,
    pub shift: bool,
}

/// The editor key for a terminal key: the same key where the editor has
/// one, no key otherwise.
pub open spec fn edit_key_of(code: KeyCode) -> EditKey {
    match code {
        KeyCode::Char(c) => EditKey::Char(c),
        KeyCode::F(n) => EditKey::F(n),
        KeyCode::Backspace => EditKey::Backspace,
        KeyCode::Enter => EditKey::Enter,
        KeyCode::Left => EditKey::Left,
        KeyCode::Right => EditKey::Right,
        KeyCode::Up => EditKey::Up,
        KeyCode::Down => EditKey::Down,
        KeyCode::Tab => EditKey::Tab,
        KeyCode::Delete => EditKey::Delete,
        KeyCode::Home => EditKey::Home,
        KeyCode::End => EditKey::End,
        KeyCode::PageUp => EditKey::PageUp,
        KeyCode::PageDown => EditKey::PageDown,
        KeyCode::Esc => EditKey::Esc,
        KeyCode::BackTab => EditKey::Null,
        KeyCode::Other => EditKey::Null,
    }
}

/// The editor input of a key event: nothing for a release, shift and tab for
/// a back tab, and otherwise the editor key with control, alt and shift as
/// they were held.
pub open spec fn edit_input_of(key: KeyPress) -> EditInput {
    if key.release {
        EditInput { key: EditKey::Null, ctrl: false, alt: false, shift: false }
    } else if key.code == KeyCode::BackTab {
        EditInput {
            key: EditKey::Tab,
            ctrl: key.modifiers.control,
            alt: key.modifiers.alt,
            shift: true,
        }
    } else {
        EditInput {
            key: edit_key_of(key.code),
            ctrl: key.modifiers.control,
            alt: key.modifiers.alt,
            shift: key.modifiers.shift,
        }
    }
}

impl EditInput {
    /// A key without modifiers.
    pub fn key(key: EditKey) -> (r: EditInput)
        ensures
            r == (EditInput { key, ctrl: false, alt: false, shift: false }),
    {
        EditInput { key, ctrl: false, alt: false, shift: false }
    }

    /// The editor input of a key event.
    pub fn from_key(key: &KeyPress) -> (r: EditInput)
        ensures
            r == edit_input_of(*key),
    {
        if key.release {
            return EditInput::key(EditKey::Null);
        }
        let ctrl = key.modifiers.control;
        let alt = key.modifiers.alt;
        let edit_key = match key.code {
            KeyCode::BackTab => {
                return EditInput { key: EditKey::Tab, ctrl, alt, shift: true };
            },
            KeyCode::Char(c) => EditKey::Char(c),
            KeyCode::F(n) => EditKey::F(n),
            KeyCode::Backspace => EditKey::Backspace,
            KeyCode::Enter => EditKey::Enter,
            KeyCode::Left => EditKey::Left,
            KeyCode::Right => EditKey::Right,
            KeyCode::Up => EditKey::Up,
            KeyCode::Down => EditKey::Down,
            KeyCode::Tab => EditKey::Tab,
            KeyCode::Delete => EditKey::Delete,
            KeyCode::Home => EditKey::Home,
            KeyCode::End => EditKey::End,
            KeyCode::PageUp => EditKey::PageUp,
            KeyCode::PageDown => EditKey::PageDown,
            KeyCode::Esc => EditKey::Esc,
            KeyCode::Other => EditKey::Null,
        };
        EditInput { key: edit_key, ctrl, alt, shift: key.modifiers.shift }
    }
}

/// What a key asks of the composer.
#[derive(Clone, Copy, Debug, Eq, PartialEq, Structural)]
pub enum Action {
    CompleteCommand,
    Edit(EditInput),
    Quit,
    SelectNextCommand,
    SelectPreviousCommand,
    Submit,
}

/// The action of a key: control-c quits, control-j is a new line, a bare
/// enter submits, tab completes, down and up move through the commands, and
/// any other key edits the text.
pub open spec fn action_of(key: KeyPress) -> Action {
    if key.code == KeyCode::Char('c') && key.modifiers.control {
        Action::Quit
    } else if key.code == KeyCode::Char('j') && key.modifiers.control {
        Action::Edit(EditInput { key: EditKey::Enter, ctrl: false, alt: false, shift: false })
    } else if key.code == KeyCode::Enter && !key.modifiers.shift && !key.modifiers.control
        && !key.modifiers.alt && !key.modifiers.other {
        Action::Submit
    } else if key.code == KeyCode::Tab {
        Action::CompleteCommand
    } else if key.code == KeyCode::Down {
        Action::SelectNextCommand
    } else if key.code == KeyCode::Up {
        Action::SelectPreviousCommand
    } else {
        Action::Edit(edit_input_of(key))
    }
}

impl Action {
    /// The action of a key event.
    pub fn from_key(key: &KeyPress) -> (r: Action)
        ensures
            r == action_of(*key),
    {
        match key.code {
            KeyCode::Char(c) => {
                if c == 'c' && key.modifiers.control {
                    return Action::Quit;
                }
                if c == 'j' && key.modifiers.control {
                    return Action::Edit(EditInput::key(EditKey::Enter));
                }
                Action::Edit(EditInput::from_key(key))
            },
            KeyCode::Enter => {
                if key.modifiers.is_empty() {
                    Action::Submit
                } else {
                    Action::Edit(EditInput::from_key(key))
                }
            },
            KeyCode::Tab => Action::CompleteCommand,
            KeyCode::Down => Action::SelectNextCommand,
            KeyCode::Up => Action::SelectPreviousCommand,
            _ => Action::Edit(EditInput::from_key(key)),
        }
    }
}

} // verus!
