//! The per-cell data the board is made of: ground truth and overlay.

use vstd::prelude::*;

verus! {

/// Ground truth of one cell, fixed once per round at the first sweep.
#[derive(Clone, Copy, PartialEq, Eq, Structural, Debug)]
pub enum CellKind {
    Empty,
    Mine,
}

/// What the player sees of one cell.
///
/// `Revealed(c)` carries the number of mine-adjacent neighbors, which is
/// meaningful only when the cell's ground truth is `Empty`; a revealed mine
/// is recognised by pairing the overlay with the ground truth.
#[derive(Clone, Copy, PartialEq, Eq, Structural, Debug)]
pub enum Overlay {
    Hidden,
    Flagged,
    Revealed(u8),
}

/// What a reveal (sweep) reports back to the caller.
#[derive(Clone, Copy, PartialEq, Eq, Structural, Debug)]
pub enum RevealOutcome {
    /// No mine was hit: either cells were revealed, or the request was a
    /// no-op (out of bounds, or an already-revealed cell).
    Clear,
    /// The swept cell was a mine; the caller ends the round.
    HitMine,
}

} // verus!
