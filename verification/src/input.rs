//! Keys and the commands they stand for.

use vstd::prelude::*;

verus! {

/// A key press, as far as the game tells keys apart.
#[derive(Debug, Clone, Copy, PartialEq, Eq, Structural)]
pub enum Key {
    Up,
    Down,
    Left,
    Right,
    Enter,
    Esc,
    Char(char),
    Other,
}

/// What a player can ask of the game.
#[derive(Debug, Clone, Copy, PartialEq, Eq, Structural)]
pub enum Command {
    Rotate,
    MoveDown,
    MoveLeft,
    MoveRight,
    HardDrop,
    TogglePause,
}

/// The command a key stands for while a game runs: the arrows turn and move
/// the piece, space drops it, escape pauses, and no other key does anything.
pub open spec fn command_of(key: Key) -> Option<Command> {
    match key {
        Key::Up => Some(Command::Rotate),
        Key::Down => Some(Command::MoveDown),
        Key::Left => Some(Command::MoveLeft),
        Key::Right => Some(Command::MoveRight),
        Key::Esc => Some(Command::TogglePause),
        Key::Char(c) => if c == ' ' {
            Some(Command::HardDrop)
        } else {
            None
        },
        _ => None,
    }
}

/// The command a key stands for while a game runs, if it stands for one.
pub fn command_for(key: Key) -> (command: Option<Command>)
    ensures
        command == command_of(key),
{
    match key {
        Key::Up => Some(Command::Rotate),
        Key::Down => Some(Command::MoveDown),
        Key::Left => Some(Command::MoveLeft),
        Key::Right => Some(Command::MoveRight),
        Key::Esc => Some(Command::TogglePause),
        Key::Char(c) => if c == ' ' {
            Some(Command::HardDrop)
        } else {
            None
        },
        _ => None,
    }
}

} // verus!
