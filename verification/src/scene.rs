//! What the screens of the program decide: where a key press leads from the
//! menu and from the resolution check, and what one round of the game loop
//! does. Reading keys and painting is left to the caller.

use crate::controller::GameController;
use crate::input::Key;
use crate::state::{State, StateController};
use crate::tetromino::PieceView;
use vstd::prelude::*;

verus! {

/// Columns a terminal must have for the game.
pub const MIN_WIDTH: u16 = 70;

/// Rows a terminal must have for the game.
pub const MIN_HEIGHT: u16 = 25;

/// Entries of the menu: play, check the resolution, leave.
pub const MENU_LEN: usize = 3;

/// What the menu does after a key press.
#[derive(Debug, Clone, Copy, PartialEq, Eq, Structural)]
pub enum MenuStep {
    /// Nothing changed.
    Stay,
    /// Another entry is selected: paint the menu again.
    Redraw,
    /// The menu is left.
    Leave,
}

/// The entry that is selected after a key press: up and down move the
/// selection and stop at the ends.
pub open spec fn menu_option_after(current: int, key: Key) -> int {
    match key {
        Key::Up => if current > 0 {
            current - 1
        } else {
            current
        },
        Key::Down => if current < MENU_LEN - 1 {
            current + 1
        } else {
            current
        },
        _ => current,
    }
}

/// What the menu does after a key press: it is painted again when the
/// selection moved, and left on enter and escape.
pub open spec fn menu_step_after(current: int, key: Key) -> MenuStep {
    match key {
        Key::Up | Key::Down => if menu_option_after(current, key) != current {
            MenuStep::Redraw
        } else {
            MenuStep::Stay
        },
        Key::Enter | Key::Esc => MenuStep::Leave,
        _ => MenuStep::Stay,
    }
}

/// The screen that follows the menu: enter goes where the selected entry
/// says, escape leaves the program, and any other key changes nothing.
pub open spec fn menu_state_after(state: State, current: int, key: Key) -> State {
    match key {
        Key::Enter => if current == 0 {
            State::Play
        } else if current == 1 {
            State::FixResolution
        } else if current == 2 {
            State::Exit
        } else {
            state
        },
        Key::Esc => State::Exit,
        _ => state,
    }
}

/// The terminal is large enough for the game.
pub open spec fn size_fits(width: u16, height: u16) -> bool {
    width >= MIN_WIDTH && height >= MIN_HEIGHT
}

/// The resolution check is left after a key press: on escape, and, once the
/// terminal is large enough, on enter and space.
pub open spec fn resolution_leaves(size_ok: bool, key: Key) -> bool {
    key == Key::Esc || (size_ok && (key == Key::Enter || key == Key::Char(' ')))
}

/// The screen that follows the resolution check: escape leaves the program,
/// enter and space start the game once the terminal is large enough, and
/// any other key changes nothing.
pub open spec fn resolution_state_after(state: State, size_ok: bool, key: Key) -> State {
    if key == Key::Esc {
        State::Exit
    } else if size_ok && (key == Key::Enter || key == Key::Char(' ')) {
        State::Play
    } else {
        state
    }
}

/// A key press on the menu, on which entry `current_option` is selected:
/// gives the entry selected afterwards and what the menu does, and sets the
/// screen that follows.
pub fn wellcome(state: &mut StateController, current_option: usize, key: Key) -> (next: (
    usize,
    MenuStep,
))
    ensures
        next.0 == menu_option_after(current_option as int, key),
        next.1 == menu_step_after(current_option as int, key),
        final(state)@ == menu_state_after(old(state)@, current_option as int, key),
{
    match key {
        Key::Up => {
            if current_option > 0 {
                (current_option - 1, MenuStep::Redraw)
            } else {
                (current_option, MenuStep::Stay)
            }
        },
        Key::Down => {
            if current_option < MENU_LEN - 1 {
                (current_option + 1, MenuStep::Redraw)
            } else {
                (current_option, MenuStep::Stay)
            }
        },
        Key::Enter => {
            if current_option == 0 {
                state.set_state(State::Play);
            } else if current_option == 1 {
                state.set_state(State::FixResolution);
            } else if current_option == 2 {
                state.set_state(State::Exit);
            }
            (current_option, MenuStep::Leave)
        },
        Key::Esc => {
            state.set_state(State::Exit);
            (current_option, MenuStep::Leave)
        },
        _ => (current_option, MenuStep::Stay),
    }
}

/// How many columns and rows a terminal of `width` by `height` lacks for the
/// game; none of either if it is large enough.
pub fn missing_size(width: u16, height: u16) -> (missing: (u16, u16))
    ensures
        missing.0 == if width >= MIN_WIDTH {
            0
        } else {
            MIN_WIDTH - width
        },
        missing.1 == if height >= MIN_HEIGHT {
            0
        } else {
            MIN_HEIGHT - height
        },
        size_fits(width, height) <==> missing == (0u16, 0u16),
{
    let width_diff = if width >= MIN_WIDTH {
        0
    } else {
        MIN_WIDTH - width
    };
    let height_diff = if height >= MIN_HEIGHT {
        0
    } else {
        MIN_HEIGHT - height
    };
    (width_diff, height_diff)
}

/// A key press on the resolution check. `size_ok` says whether the terminal
/// has been found large enough. Sets the screen that follows, and says
/// whether the check is left.
pub fn fix_resolution(state: &mut StateController, size_ok: bool, key: Key) -> (leave: bool)
    ensures
        leave == resolution_leaves(size_ok, key),
        final(state)@ == resolution_state_after(old(state)@, size_ok, key),
{
    match key {
        Key::Esc => {
            state.set_state(State::Exit);
            true
        },
        Key::Enter => {
            if size_ok {
                state.set_state(State::Play);
            }
            size_ok
        },
        Key::Char(c) => {
            if size_ok && c == ' ' {
                state.set_state(State::Play);
                true
            } else {
                false
            }
        },
        _ => false,
    }
}

/// One round of the game loop. If the game is over the screen that follows
/// is the game-over screen, and the loop ends. Else the command of the key
/// that was pressed, if one was, is carried out, the clock ticks, and the
/// loop goes on. `now` is the clock reading in milliseconds.
pub fn game(
    state: &mut StateController,
    controller: &mut GameController,
    key: Option<Key>,
    now: u64,
) -> (running: bool)
    requires
        old(controller).wf(),
    ensures
        running == !old(controller)@.game_over,
        !running ==> final(state)@ == State::GameOver && final(controller)@ == old(controller)@,
        running ==> final(state)@ == old(state)@ && exists|first: PieceView, second: PieceView|
            #![trigger first.is_spawn(), second.is_spawn()]
            first.is_spawn() && second.is_spawn() && final(controller)@ == old(controller)@.tick(
                key,
                now as int,
                first,
                second,
            ),
        final(controller).wf(),
{
    if controller.is_game_over() {
        state.set_state(State::GameOver);
        return false;
    }
    controller.tick(key, now);
    true
}

} // verus!
