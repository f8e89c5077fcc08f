//! The game controller: the phase machine, the cursor, the remaining-mine
//! counter, and command dispatch.

use vstd::prelude::*;

use crate::board::Board;
use crate::cells::CellKind;
use crate::cells::Overlay;
use crate::cells::RevealOutcome;
use crate::counting::flagged_mines_in;
use crate::counting::lemma_flagged_full;
use crate::counting::lemma_flagged_le_mines;
use crate::counting::lemma_flagged_positive;
use crate::counting::lemma_flagged_same_on_mines;
use crate::counting::lemma_flagged_strictly_less;
use crate::counting::lemma_flagged_update_overlay;
use crate::counting::lemma_mines_in_zero;
use crate::counting::mines_in;
use crate::sweep::lemma_closed_nonreveal_update;
use crate::board::lemma_idx_in_range;

verus! {

/// A discrete player command.
#[derive(Clone, Copy, PartialEq, Eq, Structural, Debug)]
pub enum Command {
    MoveUp,
    MoveLeft,
    MoveDown,
    MoveRight,
    Flag,
    Sweep,
    Quit,
    StartRound,
}

/// The phase machine: `Idle -> Active -> {Lost, Won}`, and back to `Active`
/// when a new round starts. `Active` covers play both before and after mine
/// placement; the controller's `placed` field tells the sub-states apart.
#[derive(Clone, Copy, PartialEq, Eq, Structural, Debug)]
pub enum Phase {
    Idle,
    Active,
    Lost,
    Won,
}

/// What applying a command had for an effect.
#[derive(Clone, Copy, PartialEq, Eq, Structural, Debug)]
pub enum Effect {
    /// The command was carried out without ending the round.
    Nothing,
    /// A mine was swept; the round is lost.
    HitMine,
    /// The last mine was flagged; the round is won.
    Won,
    /// The command is not accepted in the current phase; nothing changed.
    Invalid,
    /// The caller is asked to end the session; nothing changed.
    Quit,
}

/// The outcome `apply` reports to the caller.
#[derive(Clone, Copy, PartialEq, Eq, Structural, Debug)]
pub struct ApplyOutcome {
    pub accepted: bool,
    pub effect: Effect,
}

/// The one construction-time failure: at least as many mines as cells.
#[derive(Clone, Copy, PartialEq, Eq, Structural, Debug)]
pub enum ConfigError {
    TooManyMines,
}

/// Which commands each phase accepts.
pub open spec fn accepts(phase: Phase, cmd: Command) -> bool {
    match phase {
        Phase::Idle => cmd is StartRound || cmd is Quit,
        Phase::Active => !(cmd is StartRound),
        Phase::Lost => cmd is StartRound || cmd is Quit,
        Phase::Won => cmd is StartRound || cmd is Quit,
    }
}

/// The overlay after toggling the flag of cell `i`: hidden cells become
/// flagged, flagged cells hidden, revealed cells stay as they are.
pub open spec fn flag_toggle_overlay(ov: Seq<Overlay>, i: int) -> Seq<Overlay> {
    match ov[i] {
        Overlay::Hidden => ov.update(i, Overlay::Flagged),
        Overlay::Flagged => ov.update(i, Overlay::Hidden),
        Overlay::Revealed(_) => ov,
    }
}

/// The remaining-mine counter after toggling the flag of cell `i`: it drops
/// by one when a mine is flagged, rises by one when a mine is unflagged, and
/// never moves for an empty cell.
pub open spec fn flag_toggle_counter(
    g: Seq<CellKind>,
    ov: Seq<Overlay>,
    i: int,
    counter: int,
) -> int {
    if g[i] is Mine {
        match ov[i] {
            Overlay::Hidden => counter - 1,
            Overlay::Flagged => counter + 1,
            Overlay::Revealed(_) => counter,
        }
    } else {
        counter
    }
}

/// Law: toggling the flag of the same cell twice returns both the overlay
/// and the remaining-mine counter to their original values.
pub proof fn lemma_flag_roundtrip(g: Seq<CellKind>, ov: Seq<Overlay>, i: int, counter: int)
    requires
        0 <= i < ov.len(),
    ensures
        flag_toggle_counter(
            g,
            flag_toggle_overlay(ov, i),
            i,
            flag_toggle_counter(g, ov, i, counter),
        ) == counter,
        flag_toggle_overlay(flag_toggle_overlay(ov, i), i) == ov,
{
    match ov[i] {
        Overlay::Hidden => {
            assert(flag_toggle_overlay(flag_toggle_overlay(ov, i), i) =~= ov);
        },
        Overlay::Flagged => {
            assert(flag_toggle_overlay(flag_toggle_overlay(ov, i), i) =~= ov);
        },
        Overlay::Revealed(_) => {},
    }
}

/// The state machine, cursor, and flag accounting over one [`Board`].
pub struct GameController {
    pub board: Board,
    pub phase: Phase,
    pub cursor_x: usize,
    pub cursor_y: usize,
    /// The configured mine count of a round.
    pub mines: usize,
    /// The remaining-mine counter: reaching 0 by flagging a mine wins.
    pub counter: usize,
    /// Whether this round's mines have been placed (they are placed lazily,
    /// at the first sweep of the round).
    pub placed: bool,
}

impl GameController {
    pub open spec fn n(self) -> int {
        self.board.n()
    }

    /// Flagged mines on the whole board.
    pub open spec fn flagged_mines(self) -> int {
        flagged_mines_in(self.board.grid@, self.board.overlay@, self.n())
    }

    /// Mines on the whole board.
    pub open spec fn total_mines(self) -> int {
        mines_in(self.board.grid@, self.n())
    }

    /// The controller's invariant. Before placement the board carries no
    /// mine, nothing is revealed and the counter still reads the full mine
    /// count; after placement the board carries exactly the configured
    /// mines. During play the counter and the flagged-mine count together
    /// stay between the mine count and twice the mine count, which keeps the
    /// counter's arithmetic in range and makes a zero counter mean that
    /// every mine is flagged.
    pub open spec fn wf(self) -> bool {
        &&& self.board.wf()
        &&& self.board.closed()
        &&& self.cursor_x < self.board.width
        &&& self.cursor_y < self.board.height
        &&& self.mines < self.n()
        &&& 2 * self.mines <= usize::MAX
        &&& (self.placed ==> self.total_mines() == self.mines)
        &&& (!self.placed ==> self.total_mines() == 0 && self.counter == self.mines && forall|
            j: int,
        |
            0 <= j < self.n() ==> !(self.board.overlay@[j] is Revealed))
        &&& (self.placed && self.phase is Active ==> self.mines <= self.counter
            + self.flagged_mines() && self.counter + self.flagged_mines() <= 2 * self.mines)
    }

    /// A fresh session: fresh board, counter at the full mine count, cursor
    /// at the origin, phase `Idle`. Fails when the mines would not leave a
    /// single cell free.
    pub fn new(width: usize, height: usize, mines: usize) -> (r: Result<GameController, ConfigError>)
        requires
            width * height <= usize::MAX,
            2 * mines <= usize::MAX,
        ensures
            r is Ok <==> mines < width * height,
            r matches Ok(c) ==> c.wf() && c.board.width == width && c.board.height == height
                && c.mines == mines && c.counter == mines && c.phase is Idle && !c.placed
                && c.cursor_x == 0 && c.cursor_y == 0,
    {
        let n = width * height;
        if mines >= n {
            return Err(ConfigError::TooManyMines);
        }
        let board = Board::new(width, height);
        Ok(
            GameController {
                board,
                phase: Phase::Idle,
                cursor_x: 0,
                cursor_y: 0,
                mines,
                counter: mines,
                placed: false,
            },
        )
    }

    /// Start a new round: fresh board, counter back to the full mine count,
    /// mines not yet placed, phase `Active`. The cursor is preserved.
    fn start_round(&mut self)
        requires
            old(self).wf(),
        ensures
            final(self).wf(),
            final(self).phase is Active,
            !final(self).placed,
            final(self).counter == old(self).mines,
            final(self).mines == old(self).mines,
            final(self).cursor_x == old(self).cursor_x,
            final(self).cursor_y == old(self).cursor_y,
            final(self).board.width == old(self).board.width,
            final(self).board.height == old(self).board.height,
            forall|j: int| 0 <= j < final(self).n() ==> final(self).board.grid@[j] is Empty,
            forall|j: int| 0 <= j < final(self).n() ==> final(self).board.overlay@[j] is Hidden,
    {
        self.board.first_init_state();
        self.counter = self.mines;
        self.placed = false;
        self.phase = Phase::Active;
    }

    /// Sweep the cell under the cursor.
    pub fn sweep_at_player(&mut self) -> (r: RevealOutcome)
        requires
            old(self).board.wf(),
            old(self).board.closed(),
            old(self).cursor_x < old(self).board.width,
            old(self).cursor_y < old(self).board.height,
        ensures
            final(self).board.wf(),
            final(self).board.closed(),
            final(self).phase == old(self).phase,
            final(self).counter == old(self).counter,
            final(self).mines == old(self).mines,
            final(self).placed == old(self).placed,
            final(self).cursor_x == old(self).cursor_x,
            final(self).cursor_y == old(self).cursor_y,
            final(self).board.width == old(self).board.width,
            final(self).board.height == old(self).board.height,
            final(self).board.grid@ == old(self).board.grid@,
            final(self).board.overlay@.len() == old(self).board.overlay@.len(),
            r == RevealOutcome::HitMine <==> (!(old(self).board.overlay@[old(self).board.spec_idx(
                old(self).cursor_x as int,
                old(self).cursor_y as int,
            )] is Revealed) && old(self).board.grid@[old(self).board.spec_idx(
                old(self).cursor_x as int,
                old(self).cursor_y as int,
            )] is Mine),
            r == RevealOutcome::HitMine ==> final(self).board.overlay@ == old(self).board.overlay@.update(
                old(self).board.spec_idx(old(self).cursor_x as int, old(self).cursor_y as int),
                Overlay::Revealed(0),
            ),
            old(self).board.overlay@[old(self).board.spec_idx(
                old(self).cursor_x as int,
                old(self).cursor_y as int,
            )] is Revealed ==> final(self).board.overlay@ == old(self).board.overlay@ && r
                == RevealOutcome::Clear,
            r == RevealOutcome::Clear && !(old(self).board.overlay@[old(self).board.spec_idx(
                old(self).cursor_x as int,
                old(self).cursor_y as int,
            )] is Revealed) ==> final(self).board.overlay@[old(self).board.spec_idx(
                old(self).cursor_x as int,
                old(self).cursor_y as int,
            )] == Overlay::Revealed(final(self).board.nbr_mines(
                old(self).cursor_x as int,
                old(self).cursor_y as int,
            ) as u8),
            forall|j: int|
                0 <= j < old(self).board.overlay@.len() && old(self).board.overlay@[j] is Revealed
                    ==> final(self).board.overlay@[j] == old(self).board.overlay@[j],
            forall|j: int|
                0 <= j < old(self).board.overlay@.len() && final(self).board.overlay@[j] != old(self).board.overlay@[j] ==> final(self).board.overlay@[j] is Revealed,
            r == RevealOutcome::Clear ==> forall|j: int|
                0 <= j < old(self).board.overlay@.len() && final(self).board.overlay@[j] != old(self).board.overlay@[j] ==> old(self).board.grid@[j] is Empty,
            !(old(self).board.overlay@[old(self).board.spec_idx(
                old(self).cursor_x as int,
                old(self).cursor_y as int,
            )] is Revealed) && old(self).board.grid@[old(self).board.spec_idx(
                old(self).cursor_x as int,
                old(self).cursor_y as int,
            )] is Empty && old(self).board.nbr_mines(
                old(self).cursor_x as int,
                old(self).cursor_y as int,
            ) != 0 ==> final(self).board.overlay@ == old(self).board.overlay@.update(
                old(self).board.spec_idx(old(self).cursor_x as int, old(self).cursor_y as int),
                Overlay::Revealed(old(self).board.nbr_mines(
                    old(self).cursor_x as int,
                    old(self).cursor_y as int,
                ) as u8),
            ),
            r == RevealOutcome::Clear && !(old(self).board.overlay@[old(self).board.spec_idx(
                old(self).cursor_x as int,
                old(self).cursor_y as int,
            )] is Revealed) ==> forall|ov2: Seq<Overlay>|
                crate::sweep::closed_cover(
                    old(self).board,
                    ov2,
                    old(self).cursor_x as int,
                    old(self).cursor_y as int,
                ) ==> forall|j: int|
                    0 <= j < old(self).board.overlay@.len() && final(self).board.overlay@[j]
                        is Revealed ==> ov2[j] is Revealed,
    {
        self.board.sweep_at_point(self.cursor_x, self.cursor_y)
    }

    /// Toggle the flag under the cursor, keep the remaining-mine counter in
    /// step, and enter `Won` when the counter reaches zero.
    fn do_flag(&mut self) -> (out: ApplyOutcome)
        requires
            old(self).wf(),
            old(self).phase is Active,
        ensures
            final(self).wf(),
            final(self).mines == old(self).mines,
            final(self).placed == old(self).placed,
            final(self).cursor_x == old(self).cursor_x,
            final(self).cursor_y == old(self).cursor_y,
            final(self).board.width == old(self).board.width,
            final(self).board.height == old(self).board.height,
            final(self).board.grid@ == old(self).board.grid@,
            final(self).board.overlay@ == flag_toggle_overlay(
                old(self).board.overlay@,
                old(self).board.spec_idx(old(self).cursor_x as int, old(self).cursor_y as int),
            ),
            final(self).counter as int == flag_toggle_counter(
                old(self).board.grid@,
                old(self).board.overlay@,
                old(self).board.spec_idx(old(self).cursor_x as int, old(self).cursor_y as int),
                old(self).counter as int,
            ),
            out.accepted,
            final(self).phase is Won <==> out.effect is Won,
            !(out.effect is Won) ==> out.effect is Nothing && final(self).phase is Active,
            out.effect is Won <==> (old(self).board.grid@[old(self).board.spec_idx(
                old(self).cursor_x as int,
                old(self).cursor_y as int,
            )] is Mine && old(self).board.overlay@[old(self).board.spec_idx(
                old(self).cursor_x as int,
                old(self).cursor_y as int,
            )] is Hidden && old(self).counter == 1),
    {
        let ghost g = self.board.grid@;
        let ghost ov = self.board.overlay@;
        let ghost n = self.n();
        let i = self.board.idx(self.cursor_x, self.cursor_y);
        let ghost pre = *self;
        match self.board.overlay[i] {
            Overlay::Hidden => {
                self.board.overlay[i] = Overlay::Flagged;
                proof {
                    lemma_flagged_update_overlay(g, ov, n, i as int, Overlay::Flagged);
                    lemma_closed_nonreveal_update(pre.board, self.board, i as int);
                }
                match self.board.grid[i] {
                    CellKind::Mine => {
                        proof {
                            if !self.placed {
                                lemma_mines_in_zero(g, n);
                            }
                            lemma_flagged_strictly_less(g, ov, n, i as int);
                        }
                        self.counter = self.counter - 1;
                        if self.counter == 0 {
                            self.phase = Phase::Won;
                            ApplyOutcome { accepted: true, effect: Effect::Won }
                        } else {
                            ApplyOutcome { accepted: true, effect: Effect::Nothing }
                        }
                    },
                    CellKind::Empty => {
                        ApplyOutcome { accepted: true, effect: Effect::Nothing }
                    },
                }
            },
            Overlay::Flagged => {
                self.board.overlay[i] = Overlay::Hidden;
                proof {
                    lemma_flagged_update_overlay(g, ov, n, i as int, Overlay::Hidden);
                    lemma_closed_nonreveal_update(pre.board, self.board, i as int);
                }
                match self.board.grid[i] {
                    CellKind::Mine => {
                        proof {
                            if !self.placed {
                                lemma_mines_in_zero(g, n);
                            }
                            lemma_flagged_positive(g, ov, n, i as int);
                        }
                        self.counter = self.counter + 1;
                        ApplyOutcome { accepted: true, effect: Effect::Nothing }
                    },
                    CellKind::Empty => {
                        ApplyOutcome { accepted: true, effect: Effect::Nothing }
                    },
                }
            },
            Overlay::Revealed(_) => {
                ApplyOutcome { accepted: true, effect: Effect::Nothing }
            },
        }
    }

    /// Sweep under the cursor; on the first sweep of a round, place the
    /// mines first, keeping the cursor's cell free.
    fn do_sweep(&mut self) -> (out: ApplyOutcome)
        requires
            old(self).wf(),
            old(self).phase is Active,
        ensures
            final(self).wf(),
            final(self).mines == old(self).mines,
            final(self).placed,
            final(self).counter == old(self).counter,
            final(self).cursor_x == old(self).cursor_x,
            final(self).cursor_y == old(self).cursor_y,
            final(self).board.width == old(self).board.width,
            final(self).board.height == old(self).board.height,
            old(self).placed ==> final(self).board.grid@ == old(self).board.grid@,
            !old(self).placed ==> !(final(self).board.grid@[old(self).board.spec_idx(
                old(self).cursor_x as int,
                old(self).cursor_y as int,
            )] is Mine),
            out.accepted,
            out.effect is HitMine <==> final(self).phase is Lost,
            !(out.effect is HitMine) ==> out.effect is Nothing && final(self).phase is Active,
            out.effect is HitMine <==> (old(self).placed && old(self).board.grid@[old(self).board.spec_idx(old(self).cursor_x as int, old(self).cursor_y as int)] is Mine && !(
            old(self).board.overlay@[old(self).board.spec_idx(
                old(self).cursor_x as int,
                old(self).cursor_y as int,
            )] is Revealed)),
            old(self).placed && old(self).board.overlay@[old(self).board.spec_idx(
                old(self).cursor_x as int,
                old(self).cursor_y as int,
            )] is Revealed ==> final(self).board.overlay@ == old(self).board.overlay@,
            forall|j: int|
                0 <= j < old(self).board.overlay@.len() && old(self).board.overlay@[j] is Revealed
                    ==> final(self).board.overlay@[j] == old(self).board.overlay@[j],
            forall|j: int|
                0 <= j < old(self).board.overlay@.len() && final(self).board.overlay@[j] != old(self).board.overlay@[j] ==> final(self).board.overlay@[j] is Revealed,
            !(out.effect is HitMine) && !(old(self).board.overlay@[old(self).board.spec_idx(
                old(self).cursor_x as int,
                old(self).cursor_y as int,
            )] is Revealed) ==> final(self).board.overlay@[old(self).board.spec_idx(
                old(self).cursor_x as int,
                old(self).cursor_y as int,
            )] == Overlay::Revealed(final(self).board.nbr_mines(
                old(self).cursor_x as int,
                old(self).cursor_y as int,
            ) as u8),
            // on a positive count, exactly the cursor's cell is revealed
            old(self).placed && !(old(self).board.overlay@[old(self).board.spec_idx(
                old(self).cursor_x as int,
                old(self).cursor_y as int,
            )] is Revealed) && old(self).board.grid@[old(self).board.spec_idx(
                old(self).cursor_x as int,
                old(self).cursor_y as int,
            )] is Empty && old(self).board.nbr_mines(
                old(self).cursor_x as int,
                old(self).cursor_y as int,
            ) != 0 ==> final(self).board.overlay@ == old(self).board.overlay@.update(
                old(self).board.spec_idx(old(self).cursor_x as int, old(self).cursor_y as int),
                Overlay::Revealed(old(self).board.nbr_mines(
                    old(self).cursor_x as int,
                    old(self).cursor_y as int,
                ) as u8),
            ),
            // with mines in place, the sweep reveals no more than any
            // closed cover of it
            old(self).placed && !(out.effect is HitMine) && !(old(self).board.overlay@[old(
                self,
            ).board.spec_idx(old(self).cursor_x as int, old(self).cursor_y as int)] is Revealed)
                ==> forall|ov2: Seq<Overlay>|
                crate::sweep::closed_cover(
                    old(self).board,
                    ov2,
                    old(self).cursor_x as int,
                    old(self).cursor_y as int,
                ) ==> forall|j: int|
                    0 <= j < old(self).board.overlay@.len() && final(self).board.overlay@[j]
                        is Revealed ==> ov2[j] is Revealed,
    {
        let ghost n = self.n();
        if !self.placed {
            self.board.place_mines(self.mines, self.cursor_x, self.cursor_y);
            self.placed = true;
            proof {
                assert forall|x2: int, y2: int|
                    #![trigger self.board.nbr_mines(x2, y2)]
                    self.board.in_bounds(x2, y2) && self.board.overlay@[self.board.spec_idx(
                        x2,
                        y2,
                    )] is Revealed && self.board.grid@[self.board.spec_idx(x2, y2)] is Empty
                        && self.board.nbr_mines(x2, y2)
                        == 0 implies self.board.zero_cell_expanded(x2, y2) by {
                    lemma_idx_in_range(
                        self.board.width as int,
                        self.board.height as int,
                        x2,
                        y2,
                    );
                };
                lemma_flagged_le_mines(self.board.grid@, self.board.overlay@, n);
            }
        }
        let ghost mid = *self;
        let r = self.sweep_at_player();
        match r {
            RevealOutcome::HitMine => {
                self.phase = Phase::Lost;
                ApplyOutcome { accepted: true, effect: Effect::HitMine }
            },
            RevealOutcome::Clear => {
                proof {
                    lemma_flagged_same_on_mines(
                        mid.board.grid@,
                        mid.board.overlay@,
                        self.board.overlay@,
                        n,
                    );
                }
                ApplyOutcome { accepted: true, effect: Effect::Nothing }
            },
        }
    }

    /// Apply one player command: the phase decides whether it is accepted
    /// at all, and an accepted command moves the cursor, toggles a flag,
    /// sweeps, starts a round, or asks the caller to quit.
    pub fn apply(&mut self, cmd: Command) -> (out: ApplyOutcome)
        requires
            old(self).wf(),
        ensures
            final(self).wf(),
            final(self).mines == old(self).mines,
            final(self).board.width == old(self).board.width,
            final(self).board.height == old(self).board.height,
            out.accepted == accepts(old(self).phase, cmd),
            out.accepted == !(out.effect is Invalid),
            // a rejected command changes nothing
            !accepts(old(self).phase, cmd) ==> *final(self) == *old(self),
            // quitting is a signal to the caller, never a state change
            cmd is Quit ==> *final(self) == *old(self) && out.effect is Quit,
            // starting a round resets board and counter, keeps the cursor
            cmd is StartRound && accepts(old(self).phase, cmd) ==> final(self).phase is Active
                && !final(self).placed && final(self).counter == old(self).mines && final(self).cursor_x == old(self).cursor_x && final(self).cursor_y == old(self).cursor_y
                && out.effect is Nothing && (forall|j: int|
                0 <= j < final(self).n() ==> final(self).board.grid@[j] is Empty && final(self).board.overlay@[j] is Hidden),
            // cursor moves wrap around the grid edge and change nothing else
            old(self).phase is Active && (cmd is MoveUp || cmd is MoveDown || cmd is MoveLeft
                || cmd is MoveRight) ==> final(self).board == old(self).board && final(self).counter
                == old(self).counter && final(self).placed == old(self).placed && final(self).phase
                is Active && out.effect is Nothing,
            old(self).phase is Active && cmd is MoveLeft ==> final(self).cursor_y == old(self).cursor_y && final(self).cursor_x as int == (if old(self).cursor_x == 0 {
                old(self).board.width - 1
            } else {
                old(self).cursor_x - 1
            }),
            old(self).phase is Active && cmd is MoveRight ==> final(self).cursor_y == old(self).cursor_y && final(self).cursor_x as int == (if old(self).cursor_x + 1 == old(self).board.width {
                0int
            } else {
                old(self).cursor_x + 1
            }),
            old(self).phase is Active && cmd is MoveUp ==> final(self).cursor_x == old(self).cursor_x && final(self).cursor_y as int == (if old(self).cursor_y == 0 {
                old(self).board.height - 1
            } else {
                old(self).cursor_y - 1
            }),
            old(self).phase is Active && cmd is MoveDown ==> final(self).cursor_x == old(self).cursor_x && final(self).cursor_y as int == (if old(self).cursor_y + 1 == old(self).board.height {
                0int
            } else {
                old(self).cursor_y + 1
            }),
            // flagging follows the toggle functions and wins exactly when
            // the last mine is flagged
            old(self).phase is Active && cmd is Flag ==> final(self).board.grid@ == old(self).board.grid@ && final(self).placed == old(self).placed && final(self).cursor_x == old(self).cursor_x && final(self).cursor_y == old(self).cursor_y && final(self).board.overlay@
                == flag_toggle_overlay(
                old(self).board.overlay@,
                old(self).board.spec_idx(old(self).cursor_x as int, old(self).cursor_y as int),
            ) && final(self).counter as int == flag_toggle_counter(
                old(self).board.grid@,
                old(self).board.overlay@,
                old(self).board.spec_idx(old(self).cursor_x as int, old(self).cursor_y as int),
                old(self).counter as int,
            ) && (final(self).phase is Won <==> out.effect is Won) && (!(out.effect is Won)
                ==> out.effect is Nothing && final(self).phase is Active) && (out.effect is Won
                <==> (old(self).board.grid@[old(self).board.spec_idx(
                old(self).cursor_x as int,
                old(self).cursor_y as int,
            )] is Mine && old(self).board.overlay@[old(self).board.spec_idx(
                old(self).cursor_x as int,
                old(self).cursor_y as int,
            )] is Hidden && old(self).counter == 1)),
            // sweeping places mines once, never under the cursor, reveals at
            // the cursor, never moves the counter, and loses exactly on an
            // unrevealed mine
            old(self).phase is Active && cmd is Sweep ==> final(self).placed && final(self).counter
                == old(self).counter && final(self).cursor_x == old(self).cursor_x && final(self).cursor_y == old(self).cursor_y && (old(self).placed ==> final(self).board.grid@ == old(self).board.grid@) && (!old(self).placed ==> !(final(self).board.grid@[old(self).board.spec_idx(old(self).cursor_x as int, old(self).cursor_y as int)] is Mine)) && (
            out.effect is HitMine <==> final(self).phase is Lost) && (!(out.effect is HitMine)
                ==> out.effect is Nothing && final(self).phase is Active) && (out.effect is HitMine
                <==> (old(self).placed && old(self).board.grid@[old(self).board.spec_idx(
                old(self).cursor_x as int,
                old(self).cursor_y as int,
            )] is Mine && !(old(self).board.overlay@[old(self).board.spec_idx(
                old(self).cursor_x as int,
                old(self).cursor_y as int,
            )] is Revealed))) && (forall|j: int|
                0 <= j < old(self).board.overlay@.len() && old(self).board.overlay@[j] is Revealed
                    ==> final(self).board.overlay@[j] == old(self).board.overlay@[j]) && (forall|
                j: int,
            |
                0 <= j < old(self).board.overlay@.len() && final(self).board.overlay@[j] != old(self).board.overlay@[j] ==> final(self).board.overlay@[j] is Revealed) && (!(out.effect
                is HitMine) && !(old(self).board.overlay@[old(self).board.spec_idx(
                old(self).cursor_x as int,
                old(self).cursor_y as int,
            )] is Revealed) ==> final(self).board.overlay@[old(self).board.spec_idx(
                old(self).cursor_x as int,
                old(self).cursor_y as int,
            )] == Overlay::Revealed(final(self).board.nbr_mines(
                old(self).cursor_x as int,
                old(self).cursor_y as int,
            ) as u8)),
            old(self).phase is Active && cmd is Sweep && old(self).placed && !(old(
                self,
            ).board.overlay@[old(self).board.spec_idx(
                old(self).cursor_x as int,
                old(self).cursor_y as int,
            )] is Revealed) && old(self).board.grid@[old(self).board.spec_idx(
                old(self).cursor_x as int,
                old(self).cursor_y as int,
            )] is Empty && old(self).board.nbr_mines(
                old(self).cursor_x as int,
                old(self).cursor_y as int,
            ) != 0 ==> final(self).board.overlay@ == old(self).board.overlay@.update(
                old(self).board.spec_idx(old(self).cursor_x as int, old(self).cursor_y as int),
                Overlay::Revealed(old(self).board.nbr_mines(
                    old(self).cursor_x as int,
                    old(self).cursor_y as int,
                ) as u8),
            ),
            old(self).phase is Active && cmd is Sweep && old(self).placed && !(out.effect
                is HitMine) && !(old(self).board.overlay@[old(self).board.spec_idx(
                old(self).cursor_x as int,
                old(self).cursor_y as int,
            )] is Revealed) ==> forall|ov2: Seq<Overlay>|
                crate::sweep::closed_cover(
                    old(self).board,
                    ov2,
                    old(self).cursor_x as int,
                    old(self).cursor_y as int,
                ) ==> forall|j: int|
                    0 <= j < old(self).board.overlay@.len() && final(self).board.overlay@[j]
                        is Revealed ==> ov2[j] is Revealed,
    {
        match self.phase {
            Phase::Idle | Phase::Lost | Phase::Won => {
                match cmd {
                    Command::StartRound => {
                        self.start_round();
                        ApplyOutcome { accepted: true, effect: Effect::Nothing }
                    },
                    Command::Quit => {
                        ApplyOutcome { accepted: true, effect: Effect::Quit }
                    },
                    _ => {
                        ApplyOutcome { accepted: false, effect: Effect::Invalid }
                    },
                }
            },
            Phase::Active => {
                match cmd {
                    Command::MoveUp => {
                        self.cursor_y = if self.cursor_y == 0 {
                            self.board.height - 1
                        } else {
                            self.cursor_y - 1
                        };
                        ApplyOutcome { accepted: true, effect: Effect::Nothing }
                    },
                    Command::MoveDown => {
                        self.cursor_y = if self.cursor_y + 1 == self.board.height {
                            0
                        } else {
                            self.cursor_y + 1
                        };
                        ApplyOutcome { accepted: true, effect: Effect::Nothing }
                    },
                    Command::MoveLeft => {
                        self.cursor_x = if self.cursor_x == 0 {
                            self.board.width - 1
                        } else {
                            self.cursor_x - 1
                        };
                        ApplyOutcome { accepted: true, effect: Effect::Nothing }
                    },
                    Command::MoveRight => {
                        self.cursor_x = if self.cursor_x + 1 == self.board.width {
                            0
                        } else {
                            self.cursor_x + 1
                        };
                        ApplyOutcome { accepted: true, effect: Effect::Nothing }
                    },
                    Command::Flag => self.do_flag(),
                    Command::Sweep => self.do_sweep(),
                    Command::Quit => {
                        ApplyOutcome { accepted: true, effect: Effect::Quit }
                    },
                    Command::StartRound => {
                        ApplyOutcome { accepted: false, effect: Effect::Invalid }
                    },
                }
            },
        }
    }
}

/// Law: while mines are placed and play is on, the remaining-mine counter
/// reads zero only when every mine on the board is flagged.
pub proof fn lemma_counter_zero_means_all_flagged(c: GameController)
    requires
        c.wf(),
        c.phase is Active,
        c.placed,
        c.counter == 0,
    ensures
        forall|j: int| 0 <= j < c.n() && c.board.grid@[j] is Mine ==> c.board.overlay@[j]
            is Flagged,
{
    lemma_flagged_le_mines(c.board.grid@, c.board.overlay@, c.n());
    lemma_flagged_full(c.board.grid@, c.board.overlay@, c.n());
}

/// Law: the converse direction, on states whose counter still accounts for
/// every flagged mine. (A flag put down before placement that placement
/// then turns into a mine is never counted, and such a round can no longer
/// reach zero; the premise on the counter rules those states out.)
pub proof fn lemma_all_flagged_means_counter_zero(c: GameController)
    requires
        c.wf(),
        c.phase is Active,
        c.placed,
        c.counter + c.flagged_mines() == c.mines,
        forall|j: int| 0 <= j < c.n() && c.board.grid@[j] is Mine ==> c.board.overlay@[j]
            is Flagged,
    ensures
        c.counter == 0,
{
    crate::counting::lemma_flagged_all(c.board.grid@, c.board.overlay@, c.n());
}

} // verus!
