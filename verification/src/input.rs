//! From a mouse button to a move of the game.

use vstd::prelude::*;
use crate::board::{Board, GameState, Pos};
use crate::game::{GameContainer, GameError};
use crate::tile::Coordinate;

verus! {

/// The button that went down.
#[derive(Copy, Clone, PartialEq, Eq, Debug, Structural)]
pub enum MouseButton {
    Left,
    Right,
    Middle,
    Other,
}

/// A move of the game.
#[derive(Copy, Clone, PartialEq, Eq, Debug, Structural)]
pub enum Action {
    Reveal,
    ToggleFlag,
    Chord,
}

/// The move a button asks for. `other_held` says whether the opposite
/// button, right for left and left for right, is held down meanwhile.
/// Left reveals and right flags; both together chord, and so does the
/// middle button. Any other button asks for nothing.
pub open spec fn action_of(button: MouseButton, other_held: bool) -> Option<Action> {
    match button {
        MouseButton::Left => Some(
            if other_held {
                Action::Chord
            } else {
                Action::Reveal
            },
        ),
        MouseButton::Right => Some(
            if other_held {
                Action::Chord
            } else {
                Action::ToggleFlag
            },
        ),
        MouseButton::Middle => Some(Action::Chord),
        MouseButton::Other => None,
    }
}

/// The move a button asks for.
pub fn action_for(button: MouseButton, other_held: bool) -> (r: Option<Action>)
    ensures
        r == action_of(button, other_held),
{
    match button {
        MouseButton::Left => {
            if other_held {
                Some(Action::Chord)
            } else {
                Some(Action::Reveal)
            }
        },
        MouseButton::Right => {
            if other_held {
                Some(Action::Chord)
            } else {
                Some(Action::ToggleFlag)
            }
        },
        MouseButton::Middle => Some(Action::Chord),
        MouseButton::Other => None,
    }
}

impl Board {
    /// The board after `action` at `c`, where the mines that a first
    /// reveal lays are `mines`.
    pub open spec fn after_action(self, action: Action, c: Pos, mines: Set<Pos>) -> Board {
        match action {
            Action::Reveal => self.after_reveal_request(c, mines),
            Action::ToggleFlag => self.after_toggle_flag(c),
            Action::Chord => self.after_chord(c),
        }
    }
}

impl GameContainer {
    /// Makes the move `action` at `c` and returns the state of the game
    /// after it. It fails where that move fails, and then the game stays as
    /// it is.
    pub fn apply(&mut self, action: Action, c: Coordinate) -> (r: Result<GameState, GameError>)
        requires
            old(self).wf(),
        ensures
            final(self).wf(),
            match r {
                Ok(state) => {
                    &&& old(self)@.in_bounds(c.pos())
                    &&& state == final(self)@.state
                    &&& final(self)@ == old(self)@.after_action(
                        action,
                        c.pos(),
                        final(self)@.mines(),
                    )
                },
                Err(e) => {
                    &&& final(self)@ == old(self)@
                    &&& if !old(self)@.in_bounds(c.pos()) {
                        e == GameError::OutOfBounds
                    } else {
                        &&& e == GameError::Unplaceable
                        &&& action == Action::Reveal
                        &&& old(self)@.state == GameState::NotStarted
                        &&& old(self)@.can_fail_to_lay(c.pos())
                    }
                },
            },
    {
        match action {
            Action::Reveal => self.reveal_tile_at(c),
            Action::ToggleFlag => match self.toggle_flag_at(c) {
                Ok(()) => Ok(self.state()),
                Err(e) => Err(e),
            },
            Action::Chord => self.chord_at(c),
        }
    }
}

} // verus!
