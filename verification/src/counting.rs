//! Counting spec functions over the board's two cell sequences, with the
//! induction lemmas the board and controller proofs rely on.

use vstd::prelude::*;

use crate::cells::CellKind;
use crate::cells::Overlay;

verus! {

/// Number of mines among the cells with index below `k`.
pub open spec fn mines_in(g: Seq<CellKind>, k: int) -> int
    decreases k,
{
    if k <= 0 {
        0
    } else {
        mines_in(g, k - 1) + if g[k - 1] is Mine {
            1int
        } else {
            0int
        }
    }
}

/// Number of flagged mines among the cells with index below `k`.
pub open spec fn flagged_mines_in(g: Seq<CellKind>, ov: Seq<Overlay>, k: int) -> int
    decreases k,
{
    if k <= 0 {
        0
    } else {
        flagged_mines_in(g, ov, k - 1) + if g[k - 1] is Mine && ov[k - 1] is Flagged {
            1int
        } else {
            0int
        }
    }
}

/// Number of revealed cells among the cells with index below `k`.
pub open spec fn revealed_in(ov: Seq<Overlay>, k: int) -> int
    decreases k,
{
    if k <= 0 {
        0
    } else {
        revealed_in(ov, k - 1) + if ov[k - 1] is Revealed {
            1int
        } else {
            0int
        }
    }
}

/// Number of empty cells other than `ex` among the cells with index `i` or
/// above.
pub open spec fn empties_from(g: Seq<CellKind>, ex: int, i: int) -> int
    decreases g.len() - i,
{
    if i < 0 || i >= g.len() {
        0
    } else {
        empties_from(g, ex, i + 1) + if i != ex && g[i] is Empty {
            1int
        } else {
            0int
        }
    }
}

pub proof fn lemma_mines_in_bounds(g: Seq<CellKind>, k: int)
    ensures
        0 <= mines_in(g, k) <= if k <= 0 {
            0int
        } else {
            k
        },
    decreases k,
{
    if k > 0 {
        lemma_mines_in_bounds(g, k - 1);
    }
}

pub proof fn lemma_mines_in_update(g: Seq<CellKind>, k: int, i: int, v: CellKind)
    requires
        0 <= i < g.len(),
        k <= g.len(),
    ensures
        mines_in(g.update(i, v), k) == mines_in(g, k) + if i < k {
            (if v is Mine {
                1int
            } else {
                0int
            }) - (if g[i] is Mine {
                1int
            } else {
                0int
            })
        } else {
            0int
        },
    decreases k,
{
    if k > 0 {
        lemma_mines_in_update(g, k - 1, i, v);
    }
}

pub proof fn lemma_mines_in_zero(g: Seq<CellKind>, k: int)
    requires
        mines_in(g, k) == 0,
    ensures
        forall|j: int| 0 <= j < k ==> !(g[j] is Mine),
    decreases k,
{
    if k > 0 {
        lemma_mines_in_bounds(g, k - 1);
        lemma_mines_in_zero(g, k - 1);
    }
}

pub proof fn lemma_mines_in_none(g: Seq<CellKind>, k: int)
    requires
        forall|j: int| 0 <= j < k ==> !(g[j] is Mine),
    ensures
        mines_in(g, k) == 0,
    decreases k,
{
    if k > 0 {
        lemma_mines_in_none(g, k - 1);
    }
}

pub proof fn lemma_flagged_le_mines(g: Seq<CellKind>, ov: Seq<Overlay>, k: int)
    ensures
        0 <= flagged_mines_in(g, ov, k) <= mines_in(g, k),
    decreases k,
{
    if k > 0 {
        lemma_flagged_le_mines(g, ov, k - 1);
    }
}

/// A mine that is not flagged keeps the flagged-mine count strictly below
/// the mine count.
pub proof fn lemma_flagged_strictly_less(g: Seq<CellKind>, ov: Seq<Overlay>, k: int, i: int)
    requires
        0 <= i < k,
        g[i] is Mine,
        !(ov[i] is Flagged),
    ensures
        flagged_mines_in(g, ov, k) < mines_in(g, k),
    decreases k,
{
    if i == k - 1 {
        lemma_flagged_le_mines(g, ov, k - 1);
    } else {
        lemma_flagged_strictly_less(g, ov, k - 1, i);
    }
}

/// A flagged mine makes the flagged-mine count positive.
pub proof fn lemma_flagged_positive(g: Seq<CellKind>, ov: Seq<Overlay>, k: int, i: int)
    requires
        0 <= i < k,
        g[i] is Mine,
        ov[i] is Flagged,
    ensures
        flagged_mines_in(g, ov, k) >= 1,
    decreases k,
{
    if i == k - 1 {
        lemma_flagged_le_mines(g, ov, k - 1);
        lemma_mines_in_bounds(g, k - 1);
    } else {
        lemma_flagged_positive(g, ov, k - 1, i);
    }
}

/// When as many mines are flagged as there are mines, every mine is flagged.
pub proof fn lemma_flagged_full(g: Seq<CellKind>, ov: Seq<Overlay>, k: int)
    requires
        flagged_mines_in(g, ov, k) == mines_in(g, k),
    ensures
        forall|j: int| 0 <= j < k && g[j] is Mine ==> ov[j] is Flagged,
    decreases k,
{
    if k > 0 {
        lemma_flagged_le_mines(g, ov, k - 1);
        lemma_flagged_full(g, ov, k - 1);
    }
}

/// When every mine is flagged, as many mines are flagged as there are mines.
pub proof fn lemma_flagged_all(g: Seq<CellKind>, ov: Seq<Overlay>, k: int)
    requires
        forall|j: int| 0 <= j < k && g[j] is Mine ==> ov[j] is Flagged,
    ensures
        flagged_mines_in(g, ov, k) == mines_in(g, k),
    decreases k,
{
    if k > 0 {
        lemma_flagged_all(g, ov, k - 1);
    }
}

pub proof fn lemma_flagged_update_overlay(
    g: Seq<CellKind>,
    ov: Seq<Overlay>,
    k: int,
    i: int,
    v: Overlay,
)
    requires
        0 <= i < ov.len(),
        k <= ov.len(),
    ensures
        flagged_mines_in(g, ov.update(i, v), k) == flagged_mines_in(g, ov, k) + if i < k && g[i]
            is Mine {
            (if v is Flagged {
                1int
            } else {
                0int
            }) - (if ov[i] is Flagged {
                1int
            } else {
                0int
            })
        } else {
            0int
        },
    decreases k,
{
    if k > 0 {
        lemma_flagged_update_overlay(g, ov, k - 1, i, v);
    }
}

/// Two overlays that agree on every mine cell flag the same mines.
pub proof fn lemma_flagged_same_on_mines(
    g: Seq<CellKind>,
    ov1: Seq<Overlay>,
    ov2: Seq<Overlay>,
    k: int,
)
    requires
        forall|j: int| 0 <= j < k && g[j] is Mine ==> ov1[j] == ov2[j],
    ensures
        flagged_mines_in(g, ov1, k) == flagged_mines_in(g, ov2, k),
    decreases k,
{
    if k > 0 {
        lemma_flagged_same_on_mines(g, ov1, ov2, k - 1);
    }
}

pub proof fn lemma_revealed_in_bounds(ov: Seq<Overlay>, k: int)
    ensures
        0 <= revealed_in(ov, k) <= if k <= 0 {
            0int
        } else {
            k
        },
    decreases k,
{
    if k > 0 {
        lemma_revealed_in_bounds(ov, k - 1);
    }
}

pub proof fn lemma_revealed_in_update(ov: Seq<Overlay>, k: int, i: int, v: Overlay)
    requires
        0 <= i < ov.len(),
        k <= ov.len(),
    ensures
        revealed_in(ov.update(i, v), k) == revealed_in(ov, k) + if i < k {
            (if v is Revealed {
                1int
            } else {
                0int
            }) - (if ov[i] is Revealed {
                1int
            } else {
                0int
            })
        } else {
            0int
        },
    decreases k,
{
    if k > 0 {
        lemma_revealed_in_update(ov, k - 1, i, v);
    }
}

/// Exact value of `empties_from` in terms of the mine count: every cell is
/// either empty or a mine, so the suffix starting at `i` holds its length,
/// minus its mines, minus one if the excluded cell is an empty cell of the
/// suffix.
pub proof fn lemma_empties_from_exact(g: Seq<CellKind>, ex: int, i: int)
    requires
        0 <= i <= g.len(),
        0 <= ex < g.len(),
    ensures
        empties_from(g, ex, i) == (g.len() - i) - (mines_in(g, g.len() as int) - mines_in(g, i)) - (
        if ex >= i && g[ex] is Empty {
            1int
        } else {
            0int
        }),
    decreases g.len() - i,
{
    if i < g.len() {
        lemma_empties_from_exact(g, ex, i + 1);
        assert(mines_in(g, i + 1) == mines_in(g, i) + if g[i] is Mine {
            1int
        } else {
            0int
        });
    }
}

/// Updating a cell below `i` does not change the suffix count from `i`.
pub proof fn lemma_empties_from_update_before(g: Seq<CellKind>, ex: int, i: int, j: int, v: CellKind)
    requires
        0 <= j < i,
        j < g.len(),
    ensures
        empties_from(g.update(j, v), ex, i) == empties_from(g, ex, i),
    decreases g.len() - i,
{
    if 0 <= i < g.len() {
        lemma_empties_from_update_before(g, ex, i + 1, j, v);
    }
}

} // verus!
