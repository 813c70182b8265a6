//! The states of the character's state machine.

use crate::direction::Direction;
use vstd::prelude::*;

verus! {

/// What the character is doing. Walking, jumping and falling carry the
/// horizontal direction of the movement.
#[derive(Debug, PartialEq, Eq, Copy, Clone, Structural)]
pub enum State {
    Stand,
    Walk(Direction),
    Jump(Direction),
    Fall(Direction),
    Meteor,
    Crouch,
}

} // verus!
