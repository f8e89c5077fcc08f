//! Cell reveal and its flood-fill expansion.
//!
//! Revealing an empty cell with no adjacent mine opens the whole area around
//! it: the implementation keeps a work list of candidate cells and visits
//! each cell at most once, since only a cell that is not yet revealed is ever
//! processed. The loop's `decreases` measure makes that bound a proof of
//! termination.

use vstd::prelude::*;

use crate::board::lemma_idx_in_range;
use crate::board::lemma_idx_injective;
use crate::board::Board;
use crate::cells::Overlay;
use crate::cells::RevealOutcome;
use crate::counting::lemma_revealed_in_bounds;
use crate::counting::lemma_revealed_in_update;
use crate::counting::revealed_in;

verus! {

/// Cell `(x, y)` occurs in the work list.
pub open spec fn on_stack(st: Seq<(usize, usize)>, x: int, y: int) -> bool {
    exists|k: int|
        #![trigger st[k]]
        0 <= k < st.len() && st[k].0 as int == x && st[k].1 as int == y
}

/// Cell `(x, y)` is out of bounds, already revealed, or waiting on the work
/// list.
pub open spec fn nbr_ok(b: Board, st: Seq<(usize, usize)>, x: int, y: int) -> bool {
    b.in_bounds(x, y) ==> (b.overlay@[b.spec_idx(x, y)] is Revealed || on_stack(st, x, y))
}

/// Every neighbor of `(x, y)` is revealed or waiting on the work list.
pub open spec fn pending_expanded(b: Board, st: Seq<(usize, usize)>, x: int, y: int) -> bool {
    &&& nbr_ok(b, st, x - 1, y - 1)
    &&& nbr_ok(b, st, x, y - 1)
    &&& nbr_ok(b, st, x + 1, y - 1)
    &&& nbr_ok(b, st, x - 1, y)
    &&& nbr_ok(b, st, x + 1, y)
    &&& nbr_ok(b, st, x - 1, y + 1)
    &&& nbr_ok(b, st, x, y + 1)
    &&& nbr_ok(b, st, x + 1, y + 1)
}

/// Around every revealed empty zero-count cell, every neighbor is revealed
/// or waiting on the work list: the loop invariant behind [`Board::closed`].
pub open spec fn zero_obligations(b: Board, st: Seq<(usize, usize)>) -> bool {
    forall|x: int, y: int|
        #![trigger b.nbr_mines(x, y)]
        b.in_bounds(x, y) && b.overlay@[b.spec_idx(x, y)] is Revealed && b.grid@[b.spec_idx(x, y)]
            is Empty && b.nbr_mines(x, y) == 0 ==> pending_expanded(b, st, x, y)
}

/// `(a, c)` is one of the up-to-8 neighbors of `(p, q)`.
pub open spec fn adjacent(p: int, q: int, a: int, c: int) -> bool {
    !(a == p && c == q) && -1 <= a - p <= 1 && -1 <= c - q <= 1
}

/// `(p, q)` is out of bounds or revealed in the overlay `ov2`.
pub open spec fn cover_ok_at(b: Board, ov2: Seq<Overlay>, p: int, q: int) -> bool {
    b.in_bounds(p, q) ==> ov2[b.spec_idx(p, q)] is Revealed
}

/// Every in-bounds neighbor of `(p, q)` is revealed in the overlay `ov2`.
pub open spec fn cover_expanded(b: Board, ov2: Seq<Overlay>, p: int, q: int) -> bool {
    &&& cover_ok_at(b, ov2, p - 1, q - 1)
    &&& cover_ok_at(b, ov2, p, q - 1)
    &&& cover_ok_at(b, ov2, p + 1, q - 1)
    &&& cover_ok_at(b, ov2, p - 1, q)
    &&& cover_ok_at(b, ov2, p + 1, q)
    &&& cover_ok_at(b, ov2, p - 1, q + 1)
    &&& cover_ok_at(b, ov2, p, q + 1)
    &&& cover_ok_at(b, ov2, p + 1, q + 1)
}

/// The overlay `ov2` covers a sweep of `(sx, sy)` on the board `b`: it
/// reveals everything `b`'s overlay already reveals, reveals the swept cell,
/// and is closed under flood expansion over `b`'s grid. The sweep's result
/// is the least such overlay: `closed` bounds it from below, and the sweep's
/// contract states that any cover bounds it from above.
pub open spec fn closed_cover(b: Board, ov2: Seq<Overlay>, sx: int, sy: int) -> bool {
    &&& forall|j: int|
        0 <= j < b.overlay@.len() && b.overlay@[j] is Revealed ==> ov2[j] is Revealed
    &&& ov2[b.spec_idx(sx, sy)] is Revealed
    &&& forall|p: int, q: int|
        #![trigger b.nbr_mines(p, q)]
        b.in_bounds(p, q) && ov2[b.spec_idx(p, q)] is Revealed && b.grid@[b.spec_idx(p, q)]
            is Empty && b.nbr_mines(p, q) == 0 ==> cover_expanded(b, ov2, p, q)
}

/// Every work-list entry is an in-bounds empty cell.
pub open spec fn stack_items_ok(b: Board, st: Seq<(usize, usize)>) -> bool {
    forall|k: int|
        #![trigger st[k]]
        0 <= k < st.len() ==> b.in_bounds(st[k].0 as int, st[k].1 as int) && b.grid@[b.spec_idx(
            st[k].0 as int,
            st[k].1 as int,
        )] is Empty
}

/// A cell on a work list stays on any extension of it.
proof fn lemma_on_stack_extend(st1: Seq<(usize, usize)>, st2: Seq<(usize, usize)>, x: int, y: int)
    requires
        on_stack(st1, x, y),
        st2.len() >= st1.len(),
        forall|k: int| 0 <= k < st1.len() ==> st2[k] == st1[k],
    ensures
        on_stack(st2, x, y),
{
    let k = choose|k: int|
        #![trigger st1[k]]
        0 <= k < st1.len() && st1[k].0 as int == x && st1[k].1 as int == y;
    assert(st2[k] == st1[k]);
}

/// Revealing more cells never un-reveals a neighbor.
proof fn lemma_revealed_ok_monotone(b_old: Board, b_new: Board, nx: int, ny: int)
    requires
        b_old.wf(),
        b_new.width == b_old.width,
        b_new.height == b_old.height,
        b_new.overlay@.len() == b_old.overlay@.len(),
        forall|j: int|
            0 <= j < b_old.overlay@.len() && b_old.overlay@[j] is Revealed ==> b_new.overlay@[j]
                is Revealed,
        b_old.nbr_revealed_ok(nx, ny),
    ensures
        b_new.nbr_revealed_ok(nx, ny),
{
    if b_old.in_bounds(nx, ny) {
        lemma_idx_in_range(b_old.width as int, b_old.height as int, nx, ny);
    }
}

/// Revealing more cells keeps a fully expanded cell fully expanded.
proof fn lemma_expanded_monotone(b_old: Board, b_new: Board, x: int, y: int)
    requires
        b_old.wf(),
        b_new.width == b_old.width,
        b_new.height == b_old.height,
        b_new.overlay@.len() == b_old.overlay@.len(),
        forall|j: int|
            0 <= j < b_old.overlay@.len() && b_old.overlay@[j] is Revealed ==> b_new.overlay@[j]
                is Revealed,
        b_old.zero_cell_expanded(x, y),
    ensures
        b_new.zero_cell_expanded(x, y),
{
    lemma_revealed_ok_monotone(b_old, b_new, x - 1, y - 1);
    lemma_revealed_ok_monotone(b_old, b_new, x, y - 1);
    lemma_revealed_ok_monotone(b_old, b_new, x + 1, y - 1);
    lemma_revealed_ok_monotone(b_old, b_new, x - 1, y);
    lemma_revealed_ok_monotone(b_old, b_new, x + 1, y);
    lemma_revealed_ok_monotone(b_old, b_new, x - 1, y + 1);
    lemma_revealed_ok_monotone(b_old, b_new, x, y + 1);
    lemma_revealed_ok_monotone(b_old, b_new, x + 1, y + 1);
}

/// Changing one cell's overlay between non-revealed states (hidden and
/// flagged) keeps the overlay closed under flood expansion.
pub proof fn lemma_closed_nonreveal_update(b_old: Board, b_new: Board, i: int)
    requires
        b_old.wf(),
        b_old.closed(),
        b_new.width == b_old.width,
        b_new.height == b_old.height,
        b_new.grid@ == b_old.grid@,
        b_new.overlay@.len() == b_old.overlay@.len(),
        0 <= i < b_old.overlay@.len(),
        forall|j: int|
            0 <= j < b_old.overlay@.len() && j != i ==> b_new.overlay@[j] == b_old.overlay@[j],
        !(b_old.overlay@[i] is Revealed),
        !(b_new.overlay@[i] is Revealed),
    ensures
        b_new.closed(),
{
    assert forall|x: int, y: int|
        #![trigger b_new.nbr_mines(x, y)]
        b_new.in_bounds(x, y) && b_new.overlay@[b_new.spec_idx(x, y)] is Revealed && b_new.grid@[
            b_new.spec_idx(x, y)] is Empty && b_new.nbr_mines(x, y)
            == 0 implies b_new.zero_cell_expanded(x, y) by {
        lemma_idx_in_range(b_old.width as int, b_old.height as int, x, y);
        assert(b_old.nbr_mines(x, y) == b_new.nbr_mines(x, y));
        assert(b_old.overlay@[b_old.spec_idx(x, y)] is Revealed);
        assert(b_old.zero_cell_expanded(x, y));
        lemma_expanded_monotone(b_old, b_new, x, y);
    };
}

/// One step of the work-list loop keeps a satisfied neighbor satisfied: the
/// overlay only gains revealed cells, and the work list only loses its last
/// entry, which is revealed by the step.
proof fn lemma_nbr_ok_step(
    b_old: Board,
    b_new: Board,
    st_old: Seq<(usize, usize)>,
    st_new: Seq<(usize, usize)>,
    nx: int,
    ny: int,
)
    requires
        b_old.wf(),
        b_new.width == b_old.width,
        b_new.height == b_old.height,
        b_new.overlay@.len() == b_old.overlay@.len(),
        forall|j: int|
            0 <= j < b_old.overlay@.len() && b_old.overlay@[j] is Revealed ==> b_new.overlay@[j]
                is Revealed,
        st_old.len() > 0,
        b_new.overlay@[b_old.spec_idx(st_old.last().0 as int, st_old.last().1 as int)] is Revealed,
        b_old.in_bounds(st_old.last().0 as int, st_old.last().1 as int),
        st_new.len() >= st_old.len() - 1,
        forall|k: int| 0 <= k < st_old.len() - 1 ==> st_new[k] == st_old[k],
        nbr_ok(b_old, st_old, nx, ny),
    ensures
        nbr_ok(b_new, st_new, nx, ny),
{
    if b_old.in_bounds(nx, ny) {
        lemma_idx_in_range(b_old.width as int, b_old.height as int, nx, ny);
        let i = b_old.spec_idx(nx, ny);
        if b_old.overlay@[i] is Revealed {
        } else {
            let k = choose|k: int|
                #![trigger st_old[k]]
                0 <= k < st_old.len() && st_old[k].0 as int == nx && st_old[k].1 as int == ny;
            if k < st_old.len() - 1 {
                assert(st_new[k] == st_old[k]);
                assert(on_stack(st_new, nx, ny));
            } else {
                assert(st_old[k] == st_old.last());
            }
        }
    }
}

/// Carries every obligation of the previous loop state over to the next:
/// any cell that was already revealed and fully served keeps being served.
proof fn lemma_obligations_step(
    b_old: Board,
    b_new: Board,
    st_old: Seq<(usize, usize)>,
    st_new: Seq<(usize, usize)>,
)
    requires
        b_old.wf(),
        b_new.width == b_old.width,
        b_new.height == b_old.height,
        b_new.grid@ == b_old.grid@,
        b_new.overlay@.len() == b_old.overlay@.len(),
        forall|j: int|
            0 <= j < b_old.overlay@.len() && b_old.overlay@[j] is Revealed ==> b_new.overlay@[j]
                == b_old.overlay@[j],
        st_old.len() > 0,
        b_new.overlay@[b_old.spec_idx(st_old.last().0 as int, st_old.last().1 as int)] is Revealed,
        b_old.in_bounds(st_old.last().0 as int, st_old.last().1 as int),
        st_new.len() >= st_old.len() - 1,
        forall|k: int| 0 <= k < st_old.len() - 1 ==> st_new[k] == st_old[k],
        zero_obligations(b_old, st_old),
    ensures
        forall|x: int, y: int|
            #![trigger b_new.nbr_mines(x, y)]
            b_new.in_bounds(x, y) && b_old.overlay@[b_new.spec_idx(x, y)] is Revealed
                && b_new.grid@[b_new.spec_idx(x, y)] is Empty && b_new.nbr_mines(x, y) == 0
                ==> pending_expanded(b_new, st_new, x, y),
{
    assert forall|x: int, y: int|
        #![trigger b_new.nbr_mines(x, y)]
        b_new.in_bounds(x, y) && b_old.overlay@[b_new.spec_idx(x, y)] is Revealed && b_new.grid@[
            b_new.spec_idx(x, y)] is Empty && b_new.nbr_mines(x, y)
            == 0 implies pending_expanded(b_new, st_new, x, y) by {
        assert(b_old.nbr_mines(x, y) == b_new.nbr_mines(x, y));
        assert(pending_expanded(b_old, st_old, x, y));
        lemma_nbr_ok_step(b_old, b_new, st_old, st_new, x - 1, y - 1);
        lemma_nbr_ok_step(b_old, b_new, st_old, st_new, x, y - 1);
        lemma_nbr_ok_step(b_old, b_new, st_old, st_new, x + 1, y - 1);
        lemma_nbr_ok_step(b_old, b_new, st_old, st_new, x - 1, y);
        lemma_nbr_ok_step(b_old, b_new, st_old, st_new, x + 1, y);
        lemma_nbr_ok_step(b_old, b_new, st_old, st_new, x - 1, y + 1);
        lemma_nbr_ok_step(b_old, b_new, st_old, st_new, x, y + 1);
        lemma_nbr_ok_step(b_old, b_new, st_old, st_new, x + 1, y + 1);
    };
}

/// Put every in-bounds neighbor of the zero-count cell `(x, y)` on the work
/// list. Such a neighbor is never a mine: a mine next to `(x, y)` would make
/// its count positive.
#[verifier::rlimit(100)]
fn push_neighbors(b: &Board, st: &mut Vec<(usize, usize)>, x: usize, y: usize)
    requires
        b.wf(),
        x < b.width,
        y < b.height,
        b.nbr_mines(x as int, y as int) == 0,
    ensures
        final(st)@.len() >= old(st)@.len(),
        final(st)@.len() <= old(st)@.len() + 8,
        forall|k: int| 0 <= k < old(st)@.len() ==> final(st)@[k] == old(st)@[k],
        forall|k: int|
            #![trigger final(st)@[k]]
            old(st)@.len() <= k < final(st)@.len() ==> b.in_bounds(
                final(st)@[k].0 as int,
                final(st)@[k].1 as int,
            ) && b.grid@[b.spec_idx(final(st)@[k].0 as int, final(st)@[k].1 as int)] is Empty
                && adjacent(x as int, y as int, final(st)@[k].0 as int, final(st)@[k].1 as int),
        pending_expanded(*b, final(st)@, x as int, y as int),
{
    let ghost s0 = st@;
    if x > 0 && y > 0 {
        st.push((x - 1, y - 1));
        proof {
            lemma_idx_in_range(b.width as int, b.height as int, x as int - 1, y as int - 1);
            assert(st@[st@.len() - 1].0 as int == x - 1 && st@[st@.len() - 1].1 as int == y - 1);
        }
    }
    let ghost s1 = st@;
    proof {
        if x > 0 && y > 0 {
            assert(on_stack(s1, x as int - 1, y as int - 1));
        }
    }
    if y > 0 {
        st.push((x, y - 1));
    }
    let ghost s2 = st@;
    proof {
        if y > 0 {
            assert(s2[s2.len() - 1].0 as int == x as int && s2[s2.len() - 1].1 as int == y - 1);
            assert(on_stack(s2, x as int, y as int - 1));
        }
    }
    if x + 1 < b.width && y > 0 {
        st.push((x + 1, y - 1));
    }
    let ghost s3 = st@;
    proof {
        if x + 1 < b.width && y > 0 {
            assert(s3[s3.len() - 1].0 as int == x + 1 && s3[s3.len() - 1].1 as int == y - 1);
            assert(on_stack(s3, x as int + 1, y as int - 1));
        }
    }
    if x > 0 {
        st.push((x - 1, y));
    }
    let ghost s4 = st@;
    proof {
        if x > 0 {
            assert(s4[s4.len() - 1].0 as int == x - 1 && s4[s4.len() - 1].1 as int == y as int);
            assert(on_stack(s4, x as int - 1, y as int));
        }
    }
    if x + 1 < b.width {
        st.push((x + 1, y));
    }
    let ghost s5 = st@;
    proof {
        if x + 1 < b.width {
            assert(s5[s5.len() - 1].0 as int == x + 1 && s5[s5.len() - 1].1 as int == y as int);
            assert(on_stack(s5, x as int + 1, y as int));
        }
    }
    if x > 0 && y + 1 < b.height {
        st.push((x - 1, y + 1));
    }
    let ghost s6 = st@;
    proof {
        if x > 0 && y + 1 < b.height {
            assert(s6[s6.len() - 1].0 as int == x - 1 && s6[s6.len() - 1].1 as int == y + 1);
            assert(on_stack(s6, x as int - 1, y as int + 1));
        }
    }
    if y + 1 < b.height {
        st.push((x, y + 1));
    }
    let ghost s7 = st@;
    proof {
        if y + 1 < b.height {
            assert(s7[s7.len() - 1].0 as int == x as int && s7[s7.len() - 1].1 as int == y + 1);
            assert(on_stack(s7, x as int, y as int + 1));
        }
    }
    if x + 1 < b.width && y + 1 < b.height {
        st.push((x + 1, y + 1));
    }
    proof {
        let s8 = st@;
        if x + 1 < b.width && y + 1 < b.height {
            assert(s8[s8.len() - 1].0 as int == x + 1 && s8[s8.len() - 1].1 as int == y + 1);
            assert(on_stack(s8, x as int + 1, y as int + 1));
        }
        if x > 0 && y > 0 {
            lemma_on_stack_extend(s1, s8, x as int - 1, y as int - 1);
        }
        if y > 0 {
            lemma_on_stack_extend(s2, s8, x as int, y as int - 1);
        }
        if x + 1 < b.width && y > 0 {
            lemma_on_stack_extend(s3, s8, x as int + 1, y as int - 1);
        }
        if x > 0 {
            lemma_on_stack_extend(s4, s8, x as int - 1, y as int);
        }
        if x + 1 < b.width {
            lemma_on_stack_extend(s5, s8, x as int + 1, y as int);
        }
        if x > 0 && y + 1 < b.height {
            lemma_on_stack_extend(s6, s8, x as int - 1, y as int + 1);
        }
        if y + 1 < b.height {
            lemma_on_stack_extend(s7, s8, x as int, y as int + 1);
        }
        // a mine next to a zero-count cell would contribute 1 to the count
        assert(b.mine_ind(x as int - 1, y as int - 1) == 0);
        assert(b.mine_ind(x as int, y as int - 1) == 0);
        assert(b.mine_ind(x as int + 1, y as int - 1) == 0);
        assert(b.mine_ind(x as int - 1, y as int) == 0);
        assert(b.mine_ind(x as int + 1, y as int) == 0);
        assert(b.mine_ind(x as int - 1, y as int + 1) == 0);
        assert(b.mine_ind(x as int, y as int + 1) == 0);
        assert(b.mine_ind(x as int + 1, y as int + 1) == 0);
    }
}

impl Board {
    /// Reveal (sweep) the cell `(x, y)`.
    ///
    /// Out-of-bounds targets and already-revealed cells are no-ops; a mine
    /// reveals itself and reports `HitMine`; an empty cell is revealed with
    /// its neighbor-mine count, and a zero count floods outward to every
    /// neighbor. A flagged cell may be swept: revealing overwrites the flag.
    pub fn sweep_at_point(&mut self, x: usize, y: usize) -> (r: RevealOutcome)
        requires
            old(self).wf(),
            old(self).closed(),
        ensures
            final(self).wf(),
            final(self).closed(),
            final(self).width == old(self).width,
            final(self).height == old(self).height,
            final(self).grid@ == old(self).grid@,
            final(self).overlay@.len() == old(self).overlay@.len(),
            // a target out of bounds is a no-op
            !old(self).in_bounds(x as int, y as int) ==> final(self).overlay@ == old(self).overlay@ && r == RevealOutcome::Clear,
            // an already-revealed cell is a no-op: reveal is idempotent
            old(self).in_bounds(x as int, y as int) && old(self).overlay@[old(self).spec_idx(
                x as int,
                y as int,
            )] is Revealed ==> final(self).overlay@ == old(self).overlay@ && r
                == RevealOutcome::Clear,
            // a mine is hit exactly when an unrevealed in-bounds mine is swept
            r == RevealOutcome::HitMine <==> (old(self).in_bounds(x as int, y as int) && !(old(self).overlay@[old(self).spec_idx(x as int, y as int)] is Revealed) && old(self).grid@[old(self).spec_idx(x as int, y as int)] is Mine),
            // a hit reveals the mine cell and nothing else
            r == RevealOutcome::HitMine ==> final(self).overlay@ == old(self).overlay@.update(
                old(self).spec_idx(x as int, y as int),
                Overlay::Revealed(0),
            ),
            // a swept unrevealed empty cell ends up revealed with its count
            old(self).in_bounds(x as int, y as int) && !(old(self).overlay@[old(self).spec_idx(
                x as int,
                y as int,
            )] is Revealed) && old(self).grid@[old(self).spec_idx(x as int, y as int)] is Empty
                ==> final(self).overlay@[old(self).spec_idx(x as int, y as int)]
                == Overlay::Revealed(old(self).nbr_mines(x as int, y as int) as u8),
            // a swept cell with a positive count reveals itself and nothing
            // else: the flood expands only from a zero count
            old(self).in_bounds(x as int, y as int) && !(old(self).overlay@[old(self).spec_idx(
                x as int,
                y as int,
            )] is Revealed) && old(self).grid@[old(self).spec_idx(x as int, y as int)] is Empty
                && old(self).nbr_mines(x as int, y as int) != 0 ==> final(self).overlay@ == old(
                self,
            ).overlay@.update(
                old(self).spec_idx(x as int, y as int),
                Overlay::Revealed(old(self).nbr_mines(x as int, y as int) as u8),
            ),
            // the flood reveals no more than any closed cover of the sweep:
            // together with `closed` this pins the revealed area exactly
            r == RevealOutcome::Clear && old(self).in_bounds(x as int, y as int) && !(old(
                self,
            ).overlay@[old(self).spec_idx(x as int, y as int)] is Revealed) ==> forall|
                ov2: Seq<Overlay>,
            |
                closed_cover(*old(self), ov2, x as int, y as int) ==> forall|j: int|
                    0 <= j < old(self).overlay@.len() && final(self).overlay@[j] is Revealed
                        ==> ov2[j] is Revealed,
            // already-revealed cells are never touched
            forall|j: int|
                0 <= j < old(self).overlay@.len() && old(self).overlay@[j] is Revealed ==> final(self).overlay@[j] == old(self).overlay@[j],
            // every change reveals a cell
            forall|j: int|
                0 <= j < old(self).overlay@.len() && final(self).overlay@[j] != old(self).overlay@[j]
                    ==> final(self).overlay@[j] is Revealed,
            // without a hit, only empty cells change
            r == RevealOutcome::Clear ==> forall|j: int|
                0 <= j < old(self).overlay@.len() && final(self).overlay@[j] != old(self).overlay@[j] ==> old(self).grid@[j] is Empty,
            // every newly revealed empty cell carries its true count
            forall|a: int, c: int|
                old(self).in_bounds(a, c) && !(old(self).overlay@[old(self).spec_idx(a, c)]
                    is Revealed) && final(self).overlay@[old(self).spec_idx(a, c)] is Revealed
                    && old(self).grid@[old(self).spec_idx(a, c)] is Empty ==> final(self).overlay@[old(self).spec_idx(a, c)] == Overlay::Revealed(
                    old(self).nbr_mines(a, c) as u8,
                ),
    {
        let ghost orig = *old(self);
        if x >= self.width || y >= self.height {
            return RevealOutcome::Clear;
        }
        let start = self.idx(x, y);
        match self.overlay[start] {
            Overlay::Revealed(_) => {
                return RevealOutcome::Clear;
            },
            _ => {},
        }
        let c0 = self.calc_at_point(x, y);
        if c0 < 0 {
            self.overlay[start] = Overlay::Revealed(0);
            proof {
                assert forall|x2: int, y2: int|
                    #![trigger self.nbr_mines(x2, y2)]
                    self.in_bounds(x2, y2) && self.overlay@[self.spec_idx(x2, y2)] is Revealed
                        && self.grid@[self.spec_idx(x2, y2)] is Empty && self.nbr_mines(x2, y2)
                        == 0 implies self.zero_cell_expanded(x2, y2) by {
                    lemma_idx_in_range(
                        self.width as int,
                        self.height as int,
                        x2,
                        y2,
                    );
                    assert(orig.nbr_mines(x2, y2) == self.nbr_mines(x2, y2));
                    if self.spec_idx(x2, y2) == start as int {
                        lemma_idx_injective(
                            self.width as int,
                            self.height as int,
                            x2,
                            y2,
                            x as int,
                            y as int,
                        );
                    } else {
                        assert(orig.zero_cell_expanded(x2, y2));
                        lemma_expanded_monotone(orig, *self, x2, y2);
                    }
                };
                assert forall|a: int, c: int|
                    orig.in_bounds(a, c) && !(orig.overlay@[orig.spec_idx(a, c)] is Revealed)
                        && self.overlay@[orig.spec_idx(a, c)] is Revealed && orig.grid@[
                    orig.spec_idx(a, c)] is Empty implies self.overlay@[orig.spec_idx(a, c)]
                    == Overlay::Revealed(orig.nbr_mines(a, c) as u8) by {
                    lemma_idx_in_range(orig.width as int, orig.height as int, a, c);
                };
            }
            return RevealOutcome::HitMine;
        }
        let cnt = c0 as u8;
        self.overlay[start] = Overlay::Revealed(cnt);
        let mut stack: Vec<(usize, usize)> = Vec::new();
        if c0 == 0 {
            push_neighbors(self, &mut stack, x, y);
        }
        proof {
            assert forall|x2: int, y2: int|
                #![trigger self.nbr_mines(x2, y2)]
                self.in_bounds(x2, y2) && self.overlay@[self.spec_idx(x2, y2)] is Revealed
                    && self.grid@[self.spec_idx(x2, y2)] is Empty && self.nbr_mines(x2, y2)
                    == 0 implies pending_expanded(*self, stack@, x2, y2) by {
                lemma_idx_in_range(self.width as int, self.height as int, x2, y2);
                assert(orig.nbr_mines(x2, y2) == self.nbr_mines(x2, y2));
                if self.spec_idx(x2, y2) == start as int {
                    lemma_idx_injective(
                        self.width as int,
                        self.height as int,
                        x2,
                        y2,
                        x as int,
                        y as int,
                    );
                    assert(c0 == 0);
                } else {
                    assert(orig.zero_cell_expanded(x2, y2));
                    lemma_expanded_monotone(orig, *self, x2, y2);
                }
            };
            assert forall|a: int, c: int|
                #![trigger orig.nbr_mines(a, c)]
                orig.in_bounds(a, c) && !(orig.overlay@[orig.spec_idx(a, c)] is Revealed)
                    && self.overlay@[orig.spec_idx(a, c)] is Revealed && orig.grid@[orig.spec_idx(
                    a,
                    c,
                )] is Empty implies self.overlay@[orig.spec_idx(a, c)] == Overlay::Revealed(
                orig.nbr_mines(a, c) as u8,
            ) by {
                lemma_idx_in_range(orig.width as int, orig.height as int, a, c);
                if orig.spec_idx(a, c) == start as int {
                    lemma_idx_injective(
                        orig.width as int,
                        orig.height as int,
                        a,
                        c,
                        x as int,
                        y as int,
                    );
                }
            };
            assert forall|ov2: Seq<Overlay>|
                closed_cover(orig, ov2, x as int, y as int) implies (forall|j: int|
                0 <= j < orig.overlay@.len() && self.overlay@[j] is Revealed ==> ov2[j]
                    is Revealed) && (forall|k: int|
                0 <= k < stack@.len() ==> ov2[orig.spec_idx(stack@[k].0 as int, stack@[k].1 as int)]
                    is Revealed) by {
                assert(ov2[orig.spec_idx(x as int, y as int)] is Revealed);
                assert forall|k: int|
                    0 <= k < stack@.len() implies ov2[orig.spec_idx(
                    stack@[k].0 as int,
                    stack@[k].1 as int,
                )] is Revealed by {
                    assert(c0 == 0);
                    assert(orig.nbr_mines(x as int, y as int) == 0);
                    assert(cover_expanded(orig, ov2, x as int, y as int));
                };
            };
        }
        while stack.len() > 0
            invariant
                self.wf(),
                self.width == orig.width,
                self.height == orig.height,
                self.grid@ == orig.grid@,
                self.overlay@.len() == orig.overlay@.len(),
                x < self.width,
                y < self.height,
                start == orig.spec_idx(x as int, y as int),
                (start as int) < self.n(),
                stack_items_ok(*self, stack@),
                zero_obligations(*self, stack@),
                forall|j: int|
                    0 <= j < orig.overlay@.len() && orig.overlay@[j] is Revealed ==> self.overlay@[j]
                        == orig.overlay@[j],
                forall|j: int|
                    0 <= j < orig.overlay@.len() && self.overlay@[j] != orig.overlay@[j]
                        ==> self.overlay@[j] is Revealed && self.grid@[j] is Empty,
                forall|a: int, c: int|
                    #![trigger orig.nbr_mines(a, c)]
                    orig.in_bounds(a, c) && !(orig.overlay@[orig.spec_idx(a, c)] is Revealed)
                        && self.overlay@[orig.spec_idx(a, c)] is Revealed && orig.grid@[
                    orig.spec_idx(a, c)] is Empty ==> self.overlay@[orig.spec_idx(a, c)]
                        == Overlay::Revealed(orig.nbr_mines(a, c) as u8),
                self.overlay@[start as int] is Revealed,
                cnt != 0 ==> self.overlay@ == orig.overlay@.update(
                    start as int,
                    Overlay::Revealed(cnt),
                ) && stack@.len() == 0,
                forall|ov2: Seq<Overlay>|
                    closed_cover(orig, ov2, x as int, y as int) ==> (forall|j: int|
                        0 <= j < orig.overlay@.len() && self.overlay@[j] is Revealed ==> ov2[j]
                            is Revealed) && (forall|k: int|
                        0 <= k < stack@.len() ==> ov2[orig.spec_idx(
                            stack@[k].0 as int,
                            stack@[k].1 as int,
                        )] is Revealed),
            decreases 9 * (self.n() - revealed_in(self.overlay@, self.n())) + stack@.len(),
        {
            proof {
                lemma_revealed_in_bounds(self.overlay@, self.n());
            }
            let ghost b_pre = *self;
            let ghost st_pre = stack@;
            let top = stack.pop().unwrap();
            let (cx, cy) = top;
            proof {
                assert(st_pre[st_pre.len() - 1] == top);
            }
            let ci = self.idx(cx, cy);
            match self.overlay[ci] {
                Overlay::Revealed(_) => {
                    proof {
                        lemma_obligations_step(b_pre, *self, st_pre, stack@);
                        assert forall|x2: int, y2: int|
                            #![trigger self.nbr_mines(x2, y2)]
                            self.in_bounds(x2, y2) && self.overlay@[self.spec_idx(x2, y2)]
                                is Revealed && self.grid@[self.spec_idx(x2, y2)] is Empty
                                && self.nbr_mines(x2, y2) == 0 implies pending_expanded(
                                *self,
                                stack@,
                                x2,
                                y2,
                            ) by {
                            assert(b_pre.nbr_mines(x2, y2) == self.nbr_mines(x2, y2));
                        };
                        assert forall|ov2: Seq<Overlay>|
                            closed_cover(orig, ov2, x as int, y as int) implies (forall|j: int|
                            0 <= j < orig.overlay@.len() && self.overlay@[j] is Revealed ==> ov2[j]
                                is Revealed) && (forall|k: int|
                            0 <= k < stack@.len() ==> ov2[orig.spec_idx(
                                stack@[k].0 as int,
                                stack@[k].1 as int,
                            )] is Revealed) by {
                            assert forall|k: int|
                                0 <= k < stack@.len() implies ov2[orig.spec_idx(
                                stack@[k].0 as int,
                                stack@[k].1 as int,
                            )] is Revealed by {
                                assert(stack@[k] == st_pre[k]);
                            };
                        };
                    }
                },
                _ => {
                    let c2 = self.calc_at_point(cx, cy);
                    let ghost ov_b = self.overlay@;
                    self.overlay[ci] = Overlay::Revealed(c2 as u8);
                    proof {
                        lemma_revealed_in_update(
                            ov_b,
                            self.n(),
                            ci as int,
                            Overlay::Revealed(c2 as u8),
                        );
                        lemma_revealed_in_bounds(self.overlay@, self.n());
                    }
                    if c2 == 0 {
                        push_neighbors(self, &mut stack, cx, cy);
                    }
                    proof {
                        lemma_obligations_step(b_pre, *self, st_pre, stack@);
                        assert forall|x2: int, y2: int|
                            #![trigger self.nbr_mines(x2, y2)]
                            self.in_bounds(x2, y2) && self.overlay@[self.spec_idx(x2, y2)]
                                is Revealed && self.grid@[self.spec_idx(x2, y2)] is Empty
                                && self.nbr_mines(x2, y2) == 0 implies pending_expanded(
                                *self,
                                stack@,
                                x2,
                                y2,
                            ) by {
                            assert(b_pre.nbr_mines(x2, y2) == self.nbr_mines(x2, y2));
                            lemma_idx_in_range(self.width as int, self.height as int, x2, y2);
                            if b_pre.overlay@[self.spec_idx(x2, y2)] is Revealed {
                            } else {
                                assert(self.spec_idx(x2, y2) == ci as int);
                                lemma_idx_injective(
                                    self.width as int,
                                    self.height as int,
                                    x2,
                                    y2,
                                    cx as int,
                                    cy as int,
                                );
                                assert(c2 == 0);
                            }
                        };
                        // newly revealed cell carries its true count
                        assert forall|a: int, c: int|
                            #![trigger orig.nbr_mines(a, c)]
                            orig.in_bounds(a, c) && !(orig.overlay@[orig.spec_idx(a, c)]
                                is Revealed) && self.overlay@[orig.spec_idx(a, c)] is Revealed
                                && orig.grid@[orig.spec_idx(a, c)] is Empty implies self.overlay@[
                            orig.spec_idx(a, c)] == Overlay::Revealed(
                                orig.nbr_mines(a, c) as u8,
                            ) by {
                            lemma_idx_in_range(orig.width as int, orig.height as int, a, c);
                            if orig.spec_idx(a, c) == ci as int {
                                lemma_idx_injective(
                                    orig.width as int,
                                    orig.height as int,
                                    a,
                                    c,
                                    cx as int,
                                    cy as int,
                                );
                                assert(orig.nbr_mines(a, c) == self.nbr_mines(a, c));
                            }
                        };
                        assert forall|ov2: Seq<Overlay>|
                            closed_cover(orig, ov2, x as int, y as int) implies (forall|j: int|
                            0 <= j < orig.overlay@.len() && self.overlay@[j] is Revealed ==> ov2[j]
                                is Revealed) && (forall|k: int|
                            0 <= k < stack@.len() ==> ov2[orig.spec_idx(
                                stack@[k].0 as int,
                                stack@[k].1 as int,
                            )] is Revealed) by {
                            // any cover reveals the popped cell: it sat on
                            // the previous work list
                            assert(ov2[orig.spec_idx(cx as int, cy as int)] is Revealed);
                            assert forall|j: int|
                                0 <= j < orig.overlay@.len() && self.overlay@[j]
                                    is Revealed implies ov2[j] is Revealed by {
                                if !(b_pre.overlay@[j] is Revealed) {
                                    assert(j == ci as int);
                                }
                            };
                            assert forall|k: int|
                                0 <= k < stack@.len() implies ov2[orig.spec_idx(
                                stack@[k].0 as int,
                                stack@[k].1 as int,
                            )] is Revealed by {
                                if k < st_pre.len() - 1 {
                                    assert(stack@[k] == st_pre[k]);
                                } else {
                                    // a neighbor pushed from the just
                                    // revealed zero cell, which the cover
                                    // must expand
                                    assert(c2 == 0);
                                    assert(orig.nbr_mines(cx as int, cy as int) == 0);
                                    assert(cover_expanded(orig, ov2, cx as int, cy as int));
                                }
                            };
                        };
                    }
                },
            }
        }
        proof {
            assert forall|x2: int, y2: int|
                #![trigger self.nbr_mines(x2, y2)]
                self.in_bounds(x2, y2) && self.overlay@[self.spec_idx(x2, y2)] is Revealed
                    && self.grid@[self.spec_idx(x2, y2)] is Empty && self.nbr_mines(x2, y2)
                    == 0 implies self.zero_cell_expanded(x2, y2) by {
                assert(pending_expanded(*self, stack@, x2, y2));
            };
        }
        RevealOutcome::Clear
    }
}

} // verus!
