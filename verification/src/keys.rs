//! What a key press asks of the form: the form screen's bindings and the
//! keys that leave the text field.

use vstd::prelude::*;
use crate::input::EditRequest;
use crate::state::InputCommand;

verus! {

/// A key, as the form tells keys apart.
#[derive(Clone, Copy, Debug, PartialEq, Eq, Structural)]
pub enum Key {
    Enter,
    Esc,
    Tab,
    Up,
    Down,
    Char(char),
    Other,
}

/// The keys of the form screen.
#[derive(Clone, Copy, Debug, PartialEq, Eq, Structural)]
pub struct FormKeys {
    /// Leaves the application.
    pub quit: Key,
    /// Moves the focus to the next row.
    pub next_row: Key,
    /// Activates the focused row.
    pub activate: Key,
}

impl Default for FormKeys {
    /// `q` quits, Tab moves to the next row, Enter activates the row.
    fn default() -> (k: FormKeys)
        ensures
            k == (FormKeys { quit: Key::Char('q'), next_row: Key::Tab, activate: Key::Enter }),
    {
        FormKeys { quit: Key::Char('q'), next_row: Key::Tab, activate: Key::Enter }
    }
}

/// What a key press on the form screen asks for.
#[derive(Clone, Copy, Debug, PartialEq, Eq, Structural)]
pub enum FormAction {
    Quit,
    NextRow,
    Activate,
    Ignore,
}

/// The action bound to `key`; where one key is bound twice, quitting comes
/// first, then moving on, then activating.
pub fn form_action(key: Key, keys: &FormKeys) -> (a: FormAction)
    ensures
        a == if key == keys.quit {
            FormAction::Quit
        } else if key == keys.next_row {
            FormAction::NextRow
        } else if key == keys.activate {
            FormAction::Activate
        } else {
            FormAction::Ignore
        },
{
    if key == keys.quit {
        FormAction::Quit
    } else if key == keys.next_row {
        FormAction::NextRow
    } else if key == keys.activate {
        FormAction::Activate
    } else {
        FormAction::Ignore
    }
}

/// The text-field command for a key pressed while a row is edited: Enter
/// keeps the text, Esc leaves it, and any other key goes to the field as
/// the edit it asks for, if any.
pub fn editing_command(key: Key, edit: Option<EditRequest>) -> (c: InputCommand)
    ensures
        c == match key {
            Key::Enter => InputCommand::Confirm,
            Key::Esc => InputCommand::Exit,
            _ => InputCommand::Handle(edit),
        },
{
    match key {
        Key::Enter => InputCommand::Confirm,
        Key::Esc => InputCommand::Exit,
        _ => InputCommand::Handle(edit),
    }
}

} // verus!
