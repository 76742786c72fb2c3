//! Which screen the program shows.

use vstd::prelude::*;

verus! {

/// The screens of the program, and the way out of it.
#[derive(Clone, Copy, Debug, PartialEq, Eq, Structural)]
pub enum State {
    Wellcome,
    FixResolution,
    Play,
    GameOver,
    Exit,
}

/// Holds the screen that is shown.
#[derive(Debug)]
pub struct StateController {
    state: State,
}

impl View for StateController {
    type V = State;

    closed spec fn view(&self) -> State {
        self.state
    }
}

impl StateController {
    /// The program starts at the welcome screen.
    pub fn new() -> (controller: Self)
        ensures
            controller@ == State::Wellcome,
    {
        Self { state: State::Wellcome }
    }

    /// The screen that is shown.
    pub fn get_state(&self) -> (state: State)
        ensures
            state == self@,
    {
        self.state
    }

    /// Goes to another screen.
    pub fn set_state(&mut self, state: State)
        ensures
            final(self)@ == state,
    {
        self.state = state
    }
}

} // verus!
