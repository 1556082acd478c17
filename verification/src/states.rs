//! The player's current control mode.

use vstd::prelude::*;

verus! {

/// The current group of actions performed by the player.
#[derive(Debug, Clone, Copy, PartialEq, Eq, Hash, Structural)]
pub enum GameControlState {
    Default,
    Building,
}

/// Decides the next control state while building mode is active: pressing
/// the mode-toggle key returns to the default mode; otherwise the mode is
/// left as it is.
pub fn game_state_control_building(toggle_pressed: bool) -> (next: Option<GameControlState>)
    ensures
        next == (if toggle_pressed {
            Some(GameControlState::Default)
        } else {
            Option::<GameControlState>::None
        }),
{
    if toggle_pressed {
        Some(GameControlState::Default)
    } else {
        None
    }
}

} // verus!
