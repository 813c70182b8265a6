//! The phases of a game session.

use vstd::prelude::*;

verus! {

/// Title screen, play, or the screen after the last life was lost.
#[derive(Debug, PartialEq, Eq, Copy, Clone, Structural)]
pub enum GameState {
    Start,
    Play,
    GameOver,
}

} // verus!
