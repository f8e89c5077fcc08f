//! Core engine for a grid-based mine-clearing game.
//!
//! The engine is pure logic: a [`board::Board`] owns the per-cell ground
//! truth and the player-visible overlay, and a [`game::GameController`]
//! owns the cursor, the remaining-mine counter and the game phase, and
//! translates discrete player commands into board mutations and phase
//! transitions. All input/output (keystrokes, rendering) is the caller's
//! concern.

use vstd::prelude::*;

pub mod board;
pub mod cells;
pub mod sweep;
pub mod counting;
pub mod game;

verus! {

/// Absolute value of a signed 32-bit integer.
pub fn absi(a: i32) -> (r: i32)
    requires
        a != i32::MIN,
    ensures
        r == if a < 0 { -(a as int) } else { a as int },
{
    if a < 0 {
        -a
    } else {
        a
    }
}

} // verus!

