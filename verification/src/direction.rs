//! The horizontal directions a character can face or move in.

use vstd::prelude::*;

verus! {

/// Left, right, or neither of them.
#[derive(Debug, PartialEq, Eq, Copy, Clone, Structural)]
pub enum Direction {
    Left,
    Right,
    Neither,
}

} // verus!
