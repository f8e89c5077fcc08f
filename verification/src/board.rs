//! The board: per-cell ground truth, the player-visible overlay, mine
//! placement and neighbor counting.

use vstd::prelude::*;

use crate::cells::CellKind;
use crate::cells::Overlay;
use crate::counting::lemma_empties_from_exact;
use crate::counting::lemma_empties_from_update_before;
use crate::counting::lemma_mines_in_update;
use crate::counting::empties_from;
use crate::counting::mines_in;
use rand::Rng;

verus! {

/// How many randomised passes over the grid mine placement makes before it
/// falls back to filling the quota deterministically. The fallback keeps
/// placement total; in practice a handful of passes meet the quota.
pub const MAX_RANDOM_PASSES: usize = 16;

/// Relies on `rand::Rng::gen_range` on `rand::thread_rng()`: the sampled
/// value lies in the given (never empty) range `0..=max`.
#[verifier::external_body]
fn rand_upto(max: usize) -> (r: usize)
    ensures
        r <= max,
{
    rand::thread_rng().gen_range(0..=max)
}

/// A rectangular grid of cells: the ground truth (`grid`) says where the
/// mines are, the `overlay` what the player has seen of it. Cell `(x, y)`
/// lives at linear index `x + y * width` in both vectors.
pub struct Board {
    pub width: usize,
    pub height: usize,
    pub grid: Vec<CellKind>,
    pub overlay: Vec<Overlay>,
}

/// The linear index of cell `(x, y)` lies within the grid.
pub proof fn lemma_idx_in_range(w: int, h: int, x: int, y: int)
    requires
        1 <= w,
        1 <= h,
        0 <= x < w,
        0 <= y < h,
    ensures
        0 <= y * w,
        x + y * w < w * h,
{
    assert(0 <= y * w && x + y * w < w * h) by (nonlinear_arith)
        requires
            1 <= w,
            1 <= h,
            0 <= x < w,
            0 <= y < h,
    ;
}

/// Distinct in-bounds coordinates have distinct linear indices.
pub proof fn lemma_idx_injective(w: int, h: int, x1: int, y1: int, x2: int, y2: int)
    requires
        1 <= w,
        1 <= h,
        0 <= x1 < w,
        0 <= y1 < h,
        0 <= x2 < w,
        0 <= y2 < h,
        x1 + y1 * w == x2 + y2 * w,
    ensures
        x1 == x2,
        y1 == y2,
{
    assert(x1 == x2 && y1 == y2) by (nonlinear_arith)
        requires
            1 <= w,
            0 <= x1 < w,
            0 <= x2 < w,
            0 <= y1,
            0 <= y2,
            x1 + y1 * w == x2 + y2 * w,
    ;
}

impl Board {
    /// Total number of cells.
    pub open spec fn n(self) -> int {
        self.width * self.height
    }

    pub open spec fn wf(self) -> bool {
        &&& 1 <= self.width
        &&& 1 <= self.height
        &&& self.width * self.height <= usize::MAX
        &&& self.grid@.len() == self.n()
        &&& self.overlay@.len() == self.n()
    }

    pub open spec fn spec_idx(self, x: int, y: int) -> int {
        x + y * self.width
    }

    pub open spec fn in_bounds(self, x: int, y: int) -> bool {
        0 <= x < self.width && 0 <= y < self.height
    }

    /// 1 when `(x, y)` is an in-bounds mine, else 0.
    pub open spec fn mine_ind(self, x: int, y: int) -> int {
        if self.in_bounds(x, y) && self.grid@[self.spec_idx(x, y)] is Mine {
            1int
        } else {
            0int
        }
    }

    /// Number of mines among the up-to-8 neighbors of `(x, y)`.
    pub open spec fn nbr_mines(self, x: int, y: int) -> int {
        self.mine_ind(x - 1, y - 1) + self.mine_ind(x, y - 1) + self.mine_ind(x + 1, y - 1)
            + self.mine_ind(x - 1, y) + self.mine_ind(x + 1, y) + self.mine_ind(x - 1, y + 1)
            + self.mine_ind(x, y + 1) + self.mine_ind(x + 1, y + 1)
    }

    /// `(x, y)` is out of bounds or revealed.
    pub open spec fn nbr_revealed_ok(self, x: int, y: int) -> bool {
        self.in_bounds(x, y) ==> self.overlay@[self.spec_idx(x, y)] is Revealed
    }

    /// Every in-bounds neighbor of `(x, y)` is revealed.
    pub open spec fn zero_cell_expanded(self, x: int, y: int) -> bool {
        &&& self.nbr_revealed_ok(x - 1, y - 1)
        &&& self.nbr_revealed_ok(x, y - 1)
        &&& self.nbr_revealed_ok(x + 1, y - 1)
        &&& self.nbr_revealed_ok(x - 1, y)
        &&& self.nbr_revealed_ok(x + 1, y)
        &&& self.nbr_revealed_ok(x - 1, y + 1)
        &&& self.nbr_revealed_ok(x, y + 1)
        &&& self.nbr_revealed_ok(x + 1, y + 1)
    }

    /// The overlay is closed under flood expansion: around every revealed
    /// empty cell with no adjacent mine, every neighbor is revealed too.
    pub open spec fn closed(self) -> bool {
        forall|x: int, y: int| #![trigger self.nbr_mines(x, y)]
            self.in_bounds(x, y) && self.overlay@[self.spec_idx(x, y)] is Revealed && self.grid@[
                self.spec_idx(x, y)] is Empty && self.nbr_mines(x, y) == 0
                ==> self.zero_cell_expanded(x, y)
    }

    /// Linear index of the in-bounds cell `(x, y)`.
    pub fn idx(&self, x: usize, y: usize) -> (r: usize)
        requires
            self.wf(),
            x < self.width,
            y < self.height,
    ensures
            r == self.spec_idx(x as int, y as int),
            r < self.n(),
    {
        proof {
            lemma_idx_in_range(self.width as int, self.height as int, x as int, y as int);
        }
        x + y * self.width
    }

    /// Fresh board: every cell empty ground truth under a hidden overlay.
    pub fn new(width: usize, height: usize) -> (b: Board)
        requires
            1 <= width,
            1 <= height,
            width * height <= usize::MAX,
        ensures
            b.wf(),
            b.width == width,
            b.height == height,
            forall|j: int| 0 <= j < b.n() ==> b.grid@[j] is Empty,
            forall|j: int| 0 <= j < b.n() ==> b.overlay@[j] is Hidden,
            mines_in(b.grid@, b.n()) == 0,
            b.closed(),
    {
        let mut b = Board { width, height, grid: Vec::new(), overlay: Vec::new() };
        b.first_init_state();
        b
    }

    /// Reset every cell: empty ground truth, hidden overlay.
    pub fn first_init_state(&mut self)
        requires
            1 <= old(self).width,
            1 <= old(self).height,
            old(self).width * old(self).height <= usize::MAX,
        ensures
            final(self).wf(),
            final(self).width == old(self).width,
            final(self).height == old(self).height,
            forall|j: int| 0 <= j < final(self).n() ==> final(self).grid@[j] is Empty,
            forall|j: int| 0 <= j < final(self).n() ==> final(self).overlay@[j] is Hidden,
            mines_in(final(self).grid@, final(self).n()) == 0,
            final(self).closed(),
    {
        let n = self.width * self.height;
        let mut grid: Vec<CellKind> = Vec::new();
        let mut overlay: Vec<Overlay> = Vec::new();
        let mut i: usize = 0;
        while i < n
            invariant
                i <= n,
                grid@.len() == i,
                overlay@.len() == i,
                forall|j: int| 0 <= j < i ==> grid@[j] is Empty,
                forall|j: int| 0 <= j < i ==> overlay@[j] is Hidden,
            decreases n - i,
        {
            grid.push(CellKind::Empty);
            overlay.push(Overlay::Hidden);
            i = i + 1;
        }
        self.grid = grid;
        self.overlay = overlay;
        proof {
            crate::counting::lemma_mines_in_none(self.grid@, self.n());
            assert forall|x: int, y: int| #![trigger self.nbr_mines(x, y)]
                self.in_bounds(x, y) && self.overlay@[self.spec_idx(x, y)] is Revealed
                    && self.grid@[self.spec_idx(x, y)] is Empty && self.nbr_mines(x, y)
                    == 0 implies self.zero_cell_expanded(x, y) by {
                if self.in_bounds(x, y) {
                    lemma_idx_in_range(self.width as int, self.height as int, x, y);
                }
            };
        }
    }

    /// Ground truth of the in-bounds cell `(x, y)`.
    pub fn cell_at(&self, x: usize, y: usize) -> (c: CellKind)
        requires
            self.wf(),
            x < self.width,
            y < self.height,
        ensures
            c == self.grid@[self.spec_idx(x as int, y as int)],
    {
        let i = self.idx(x, y);
        self.grid[i]
    }

    /// Overlay of the in-bounds cell `(x, y)`.
    pub fn overlay_at(&self, x: usize, y: usize) -> (o: Overlay)
        requires
            self.wf(),
            x < self.width,
            y < self.height,
        ensures
            o == self.overlay@[self.spec_idx(x as int, y as int)],
    {
        let i = self.idx(x, y);
        self.overlay[i]
    }

    /// Turn the ground truth of the in-bounds cell `(x, y)` into a mine.
    pub fn set_mine(&mut self, x: usize, y: usize)
        requires
            old(self).wf(),
            x < old(self).width,
            y < old(self).height,
        ensures
            final(self).wf(),
            final(self).width == old(self).width,
            final(self).height == old(self).height,
            final(self).overlay@ == old(self).overlay@,
            final(self).grid@ == old(self).grid@.update(
                old(self).spec_idx(x as int, y as int),
                CellKind::Mine,
            ),
    {
        let i = self.idx(x, y);
        self.grid[i] = CellKind::Mine;
    }

    /// 1 when the in-bounds cell `(x, y)` is a mine, else 0.
    fn nbr_ind(&self, x: usize, y: usize) -> (r: i8)
        requires
            self.wf(),
            x < self.width,
            y < self.height,
        ensures
            r as int == self.mine_ind(x as int, y as int),
    {
        let i = self.idx(x, y);
        match self.grid[i] {
            CellKind::Mine => 1,
            CellKind::Empty => 0,
        }
    }

    /// Number of mines adjacent to the in-bounds cell `(x, y)`, or -1 when
    /// the cell itself is a mine.
    pub fn calc_at_point(&self, x: usize, y: usize) -> (r: i8)
        requires
            self.wf(),
            x < self.width,
            y < self.height,
        ensures
            self.grid@[self.spec_idx(x as int, y as int)] is Mine ==> r == -1,
            self.grid@[self.spec_idx(x as int, y as int)] is Empty ==> r as int == self.nbr_mines(
                x as int,
                y as int,
            ) && 0 <= r <= 8,
    {
        let i = self.idx(x, y);
        match self.grid[i] {
            CellKind::Mine => -1,
            CellKind::Empty => {
                let mut count: i8 = 0;
                if x > 0 && y > 0 {
                    count = count + self.nbr_ind(x - 1, y - 1);
                }
                if y > 0 {
                    count = count + self.nbr_ind(x, y - 1);
                }
                if x + 1 < self.width && y > 0 {
                    count = count + self.nbr_ind(x + 1, y - 1);
                }
                if x > 0 {
                    count = count + self.nbr_ind(x - 1, y);
                }
                if x + 1 < self.width {
                    count = count + self.nbr_ind(x + 1, y);
                }
                if x > 0 && y + 1 < self.height {
                    count = count + self.nbr_ind(x - 1, y + 1);
                }
                if y + 1 < self.height {
                    count = count + self.nbr_ind(x, y + 1);
                }
                if x + 1 < self.width && y + 1 < self.height {
                    count = count + self.nbr_ind(x + 1, y + 1);
                }
                count
            },
        }
    }

    /// Populate exactly `m` mines on a mine-free board, never at the
    /// excluded cell `(ex_x, ex_y)` (the player's cursor at placement time).
    ///
    /// Repeated randomised passes accept each eligible cell with probability
    /// `1 / (n / m + 1)`; a deterministic final pass fills any remainder of
    /// the quota, which makes the operation total.
    pub fn place_mines(&mut self, m: usize, ex_x: usize, ex_y: usize)
        requires
            old(self).wf(),
            ex_x < old(self).width,
            ex_y < old(self).height,
            m < old(self).n(),
            mines_in(old(self).grid@, old(self).n()) == 0,
        ensures
            final(self).wf(),
            final(self).width == old(self).width,
            final(self).height == old(self).height,
            final(self).overlay@ == old(self).overlay@,
            mines_in(final(self).grid@, final(self).n()) == m,
            !(final(self).grid@[old(self).spec_idx(ex_x as int, ex_y as int)] is Mine),
    {
        let n = self.width * self.height;
        let ex_idx = self.idx(ex_x, ex_y);
        proof {
            crate::counting::lemma_mines_in_zero(self.grid@, self.n());
        }
        if m == 0 {
            return ;
        }
        let cap = n / m;
        let mut placed: usize = 0;
        let mut pass: usize = 0;
        while pass < MAX_RANDOM_PASSES && placed < m
            invariant
                self.wf(),
                self.width == old(self).width,
                self.height == old(self).height,
                self.overlay@ == old(self).overlay@,
                n == self.n(),
                ex_idx == old(self).spec_idx(ex_x as int, ex_y as int),
                ex_idx < n,
                placed <= m,
                m < n,
                mines_in(self.grid@, n as int) == placed,
                !(self.grid@[ex_idx as int] is Mine),
            decreases MAX_RANDOM_PASSES - pass,
        {
            let mut i: usize = 0;
            while i < n
                invariant
                    self.wf(),
                    self.width == old(self).width,
                    self.height == old(self).height,
                    self.overlay@ == old(self).overlay@,
                    n == self.n(),
                    ex_idx == old(self).spec_idx(ex_x as int, ex_y as int),
                    ex_idx < n,
                    i <= n,
                    placed <= m,
                    m < n,
                    mines_in(self.grid@, n as int) == placed,
                    !(self.grid@[ex_idx as int] is Mine),
                decreases n - i,
            {
                if i != ex_idx && placed < m {
                    match self.grid[i] {
                        CellKind::Empty => {
                            if rand_upto(cap) == 0 {
                                let ghost g0 = self.grid@;
                                self.grid[i] = CellKind::Mine;
                                placed = placed + 1;
                                proof {
                                    lemma_mines_in_update(g0, n as int, i as int, CellKind::Mine);
                                }
                            }
                        },
                        CellKind::Mine => {},
                    }
                }
                i = i + 1;
            }
            pass = pass + 1;
        }
        if placed < m {
            proof {
                lemma_empties_from_exact(self.grid@, ex_idx as int, 0);
            }
            let mut i: usize = 0;
            while i < n && placed < m
                invariant
                    self.wf(),
                    self.width == old(self).width,
                    self.height == old(self).height,
                    self.overlay@ == old(self).overlay@,
                    n == self.n(),
                    ex_idx == old(self).spec_idx(ex_x as int, ex_y as int),
                    ex_idx < n,
                    i <= n,
                    placed <= m,
                    m < n,
                    mines_in(self.grid@, n as int) == placed,
                    !(self.grid@[ex_idx as int] is Mine),
                    empties_from(self.grid@, ex_idx as int, i as int) >= m - placed,
                decreases n - i,
            {
                assert(empties_from(self.grid@, ex_idx as int, i as int) == empties_from(
                    self.grid@,
                    ex_idx as int,
                    i as int + 1,
                ) + if i as int != ex_idx as int && self.grid@[i as int] is Empty {
                    1int
                } else {
                    0int
                });
                if i != ex_idx {
                    match self.grid[i] {
                        CellKind::Empty => {
                            let ghost g0 = self.grid@;
                            self.grid[i] = CellKind::Mine;
                            placed = placed + 1;
                            proof {
                                lemma_mines_in_update(g0, n as int, i as int, CellKind::Mine);
                                lemma_empties_from_update_before(
                                    g0,
                                    ex_idx as int,
                                    i as int + 1,
                                    i as int,
                                    CellKind::Mine,
                                );
                            }
                        },
                        CellKind::Mine => {},
                    }
                }
                i = i + 1;
            }
        }
    }
}

} // verus!
