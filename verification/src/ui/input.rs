//! What a key does.

use vstd::prelude::*;

verus! {

/// Whether keys move through the lists or go into the message that is
/// being written.
#[derive(Debug, Clone, Copy, PartialEq, Eq, Structural)]
pub enum InputMode {
    Normal,
    Editing,
}

/// A key, as far as the program tells keys apart.
#[derive(Debug, Clone, Copy, PartialEq, Eq, Structural)]
pub enum Key {
    Char(char),
    Enter,
    Esc,
    Left,
    Up,
    Down,
    Backspace,
    Other,
}

/// What the program is to do.
#[derive(Debug, Clone, Copy, PartialEq, Eq, Structural)]
pub enum Command {
    Quit,
    /// Go from moving to writing, or back.
    ToggleInput,
    Unselect,
    Next,
    Previous,
    EnterGuild,
    LeaveGuild,
    /// Send the message that was written.
    SendMessage,
    /// Put the character behind the message that is being written.
    Type(char),
    /// Take the last character off the message that is being written.
    Erase,
    Nothing,
}

/// What `key` does in `mode`.
pub open spec fn command_of(mode: InputMode, key: Key) -> Command {
    match mode {
        InputMode::Normal => match key {
            Key::Char(c) => if c == 'q' {
                Command::Quit
            } else if c == 'e' {
                Command::ToggleInput
            } else {
                Command::Nothing
            },
            Key::Left => Command::Unselect,
            Key::Down => Command::Next,
            Key::Up => Command::Previous,
            Key::Enter => Command::EnterGuild,
            Key::Esc => Command::LeaveGuild,
            _ => Command::Nothing,
        },
        InputMode::Editing => match key {
            Key::Enter => Command::SendMessage,
            Key::Esc => Command::ToggleInput,
            Key::Char(c) => Command::Type(c),
            Key::Backspace => Command::Erase,
            _ => Command::Nothing,
        },
    }
}

impl InputMode {
    /// The other mode.
    pub fn toggled(self) -> (mode: InputMode)
        ensures
            mode != self,
    {
        match self {
            InputMode::Normal => InputMode::Editing,
            InputMode::Editing => InputMode::Normal,
        }
    }
}

/// What `key` does in `mode`.
pub fn command_for(mode: InputMode, key: Key) -> (command: Command)
    ensures
        command == command_of(mode, key),
{
    match mode {
        InputMode::Normal => match key {
            Key::Char(c) => if c == 'q' {
                Command::Quit
            } else if c == 'e' {
                Command::ToggleInput
            } else {
                Command::Nothing
            },
            Key::Left => Command::Unselect,
            Key::Down => Command::Next,
            Key::Up => Command::Previous,
            Key::Enter => Command::EnterGuild,
            Key::Esc => Command::LeaveGuild,
            _ => Command::Nothing,
        },
        InputMode::Editing => match key {
            Key::Enter => Command::SendMessage,
            Key::Esc => Command::ToggleInput,
            Key::Char(c) => Command::Type(c),
            Key::Backspace => Command::Erase,
            _ => Command::Nothing,
        },
    }
}

/// While a message is written no key moves the cursor or leaves the
/// program, and a character never does anything but join the message.
pub proof fn lemma_editing_keeps_keys(key: Key)
    ensures
        command_of(InputMode::Editing, key) != Command::Quit,
        command_of(InputMode::Editing, key) != Command::Next,
        command_of(InputMode::Editing, key) != Command::Previous,
        command_of(InputMode::Editing, key) != Command::EnterGuild,
        command_of(InputMode::Editing, key) != Command::LeaveGuild,
        command_of(InputMode::Editing, key) != Command::Unselect,
        key matches Key::Char(c) ==> command_of(InputMode::Editing, key) == Command::Type(c),
{
}

} // verus!
