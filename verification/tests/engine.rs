use minesweeper::absi;
use minesweeper::board::Board;
use minesweeper::cells::CellKind;
use minesweeper::cells::Overlay;
use minesweeper::cells::RevealOutcome;
use minesweeper::game::ApplyOutcome;
use minesweeper::game::Command;
use minesweeper::game::ConfigError;
use minesweeper::game::Effect;
use minesweeper::game::GameController;
use minesweeper::game::Phase;

/// A 5x5 session with one mine forced at (4, 4) (linear index 24), mines
/// already placed, phase `Active`, cursor at the origin.
fn session_with_corner_mine() -> GameController {
    let mut g = GameController::new(5, 5, 1).unwrap();
    let out = g.apply(Command::StartRound);
    assert!(out.accepted);
    g.board.set_mine(4, 4);
    g.placed = true;
    g
}

fn count_mines(b: &Board, w: usize, h: usize) -> usize {
    let mut count = 0;
    for y in 0..h {
        for x in 0..w {
            if b.cell_at(x, y) == CellKind::Mine {
                count += 1;
            }
        }
    }
    count
}

#[test]
fn absi_of_both_signs() {
    assert_eq!(absi(-7), 7);
    assert_eq!(absi(7), 7);
    assert_eq!(absi(0), 0);
}

#[test]
fn construction_rejects_too_many_mines() {
    assert!(matches!(GameController::new(2, 2, 4), Err(ConfigError::TooManyMines)));
    assert!(matches!(GameController::new(2, 2, 5), Err(ConfigError::TooManyMines)));
    assert!(GameController::new(2, 2, 3).is_ok());
    assert!(matches!(GameController::new(0, 5, 0), Err(ConfigError::TooManyMines)));
}

#[test]
fn fresh_board_is_hidden_and_empty() {
    let b = Board::new(4, 3);
    for y in 0..3 {
        for x in 0..4 {
            assert_eq!(b.cell_at(x, y), CellKind::Empty);
            assert_eq!(b.overlay_at(x, y), Overlay::Hidden);
        }
    }
}

#[test]
fn place_mines_places_exactly_the_quota_and_spares_the_cursor() {
    for m in [0, 1, 3, 10, 24] {
        let mut b = Board::new(5, 5);
        b.place_mines(m, 2, 2);
        assert_eq!(count_mines(&b, 5, 5), m);
        assert_eq!(b.cell_at(2, 2), CellKind::Empty);
        for y in 0..5 {
            for x in 0..5 {
                assert_eq!(b.overlay_at(x, y), Overlay::Hidden);
            }
        }
    }
}

#[test]
fn place_mines_full_quota_leaves_only_the_cursor() {
    // every cell but the excluded one becomes a mine: the deterministic
    // fallback must fill whatever the random passes leave open
    let mut b = Board::new(3, 3);
    b.place_mines(8, 1, 1);
    assert_eq!(count_mines(&b, 3, 3), 8);
    assert_eq!(b.cell_at(1, 1), CellKind::Empty);
}

#[test]
fn calc_at_point_counts_neighbors_and_marks_mines() {
    let mut b = Board::new(3, 3);
    b.set_mine(0, 0);
    b.set_mine(2, 1);
    assert_eq!(b.calc_at_point(0, 0), -1);
    assert_eq!(b.calc_at_point(2, 1), -1);
    assert_eq!(b.calc_at_point(1, 1), 2);
    assert_eq!(b.calc_at_point(1, 0), 2);
    assert_eq!(b.calc_at_point(2, 0), 1);
    assert_eq!(b.calc_at_point(0, 2), 0);
    assert_eq!(b.calc_at_point(2, 2), 1);
}

#[test]
fn sweep_is_idempotent_on_a_revealed_cell() {
    let mut b = Board::new(3, 3);
    b.set_mine(2, 2);
    assert_eq!(b.sweep_at_point(0, 0), RevealOutcome::Clear);
    let snapshot: Vec<Overlay> = (0..9).map(|i| b.overlay_at(i % 3, i / 3)).collect();
    // sweeping the same cell again changes nothing and hits nothing
    assert_eq!(b.sweep_at_point(0, 0), RevealOutcome::Clear);
    let after: Vec<Overlay> = (0..9).map(|i| b.overlay_at(i % 3, i / 3)).collect();
    assert_eq!(snapshot, after);
}

#[test]
fn sweep_on_a_revealed_mine_is_clear() {
    // after a loss the mine cell is revealed; revealing it again is a no-op
    let mut b = Board::new(2, 2);
    b.set_mine(0, 0);
    assert_eq!(b.sweep_at_point(0, 0), RevealOutcome::HitMine);
    assert_eq!(b.sweep_at_point(0, 0), RevealOutcome::Clear);
    assert_eq!(b.overlay_at(0, 0), Overlay::Revealed(0));
}

#[test]
fn sweep_out_of_bounds_is_a_no_op() {
    let mut b = Board::new(2, 2);
    assert_eq!(b.sweep_at_point(5, 0), RevealOutcome::Clear);
    assert_eq!(b.sweep_at_point(0, 9), RevealOutcome::Clear);
    for y in 0..2 {
        for x in 0..2 {
            assert_eq!(b.overlay_at(x, y), Overlay::Hidden);
        }
    }
}

#[test]
fn sweep_reveals_a_flagged_cell() {
    // a flag does not block the sweep: revealing overwrites it
    let mut g = session_with_corner_mine();
    let out = g.apply(Command::Flag);
    assert_eq!(out.effect, Effect::Nothing);
    assert_eq!(g.board.overlay_at(0, 0), Overlay::Flagged);
    let out = g.apply(Command::Sweep);
    assert_eq!(out.effect, Effect::Nothing);
    assert_eq!(g.board.overlay_at(0, 0), Overlay::Revealed(0));
}

#[test]
fn scenario_open_area_cascade() {
    // 5x5 grid, one mine at (4, 4): sweeping at (0, 0) floods the whole
    // board up to the mine's neighborhood and play goes on
    let mut g = session_with_corner_mine();
    let out = g.apply(Command::Sweep);
    assert!(out.accepted);
    assert_eq!(out.effect, Effect::Nothing);
    assert_eq!(g.phase, Phase::Active);
    for y in 0..5 {
        for x in 0..5 {
            let expected = match (x, y) {
                (4, 4) => Overlay::Hidden,
                (3, 3) | (4, 3) | (3, 4) => Overlay::Revealed(1),
                _ => Overlay::Revealed(0),
            };
            assert_eq!(g.board.overlay_at(x, y), expected, "cell ({}, {})", x, y);
        }
    }
    assert_eq!(g.counter, 1);
}

#[test]
fn scenario_flagging_the_last_mine_wins() {
    // flagging the mine cell itself takes the counter from 1 to 0 and wins
    // the round with no sweep
    let mut g = session_with_corner_mine();
    g.cursor_x = 4;
    g.cursor_y = 4;
    let out = g.apply(Command::Flag);
    assert_eq!(out, ApplyOutcome { accepted: true, effect: Effect::Won });
    assert_eq!(g.counter, 0);
    assert_eq!(g.phase, Phase::Won);
}

#[test]
fn scenario_sweeping_the_mine_loses() {
    let mut g = session_with_corner_mine();
    g.cursor_x = 4;
    g.cursor_y = 4;
    let counter_before = g.counter;
    let out = g.apply(Command::Sweep);
    assert_eq!(out, ApplyOutcome { accepted: true, effect: Effect::HitMine });
    assert_eq!(g.phase, Phase::Lost);
    // the mine cell shows as revealed, and the counter never moved
    assert_eq!(g.board.overlay_at(4, 4), Overlay::Revealed(0));
    assert_eq!(g.board.cell_at(4, 4), CellKind::Mine);
    assert_eq!(g.counter, counter_before);
}

#[test]
fn scenario_moves_wrap_at_the_edges() {
    let mut g = GameController::new(5, 5, 1).unwrap();
    g.apply(Command::StartRound);
    assert_eq!((g.cursor_x, g.cursor_y), (0, 0));
    g.apply(Command::MoveLeft);
    assert_eq!((g.cursor_x, g.cursor_y), (4, 0));
    g.apply(Command::MoveRight);
    assert_eq!((g.cursor_x, g.cursor_y), (0, 0));
    g.apply(Command::MoveUp);
    assert_eq!((g.cursor_x, g.cursor_y), (0, 4));
    g.apply(Command::MoveDown);
    assert_eq!((g.cursor_x, g.cursor_y), (0, 0));
    // a full loop in each direction returns to the origin
    for _ in 0..5 {
        g.apply(Command::MoveRight);
    }
    for _ in 0..5 {
        g.apply(Command::MoveDown);
    }
    assert_eq!((g.cursor_x, g.cursor_y), (0, 0));
}

#[test]
fn scenario_sweep_while_idle_is_rejected() {
    let mut g = GameController::new(5, 5, 1).unwrap();
    let out = g.apply(Command::Sweep);
    assert_eq!(out, ApplyOutcome { accepted: false, effect: Effect::Invalid });
    // nothing was mutated
    assert_eq!(g.phase, Phase::Idle);
    assert_eq!((g.cursor_x, g.cursor_y), (0, 0));
    assert_eq!(g.counter, 1);
    assert!(!g.placed);
    for y in 0..5 {
        for x in 0..5 {
            assert_eq!(g.board.cell_at(x, y), CellKind::Empty);
            assert_eq!(g.board.overlay_at(x, y), Overlay::Hidden);
        }
    }
}

#[test]
fn flag_unflag_round_trips_the_counter() {
    let mut g = session_with_corner_mine();
    // on the mine cell (counter moves down and back up)
    g.cursor_x = 4;
    g.cursor_y = 3;
    g.board.set_mine(4, 3);
    g.mines = 2;
    g.counter = 2;
    let before = g.counter;
    g.apply(Command::Flag);
    assert_eq!(g.counter, before - 1);
    g.apply(Command::Flag);
    assert_eq!(g.counter, before);
    assert_eq!(g.board.overlay_at(4, 3), Overlay::Hidden);
    // on an empty cell (counter never moves)
    g.cursor_x = 0;
    g.cursor_y = 0;
    g.apply(Command::Flag);
    assert_eq!(g.counter, before);
    assert_eq!(g.board.overlay_at(0, 0), Overlay::Flagged);
    g.apply(Command::Flag);
    assert_eq!(g.counter, before);
    assert_eq!(g.board.overlay_at(0, 0), Overlay::Hidden);
}

#[test]
fn flag_on_a_revealed_cell_is_inert() {
    let mut g = session_with_corner_mine();
    g.apply(Command::Sweep);
    assert_eq!(g.board.overlay_at(0, 0), Overlay::Revealed(0));
    let counter_before = g.counter;
    let out = g.apply(Command::Flag);
    assert_eq!(out.effect, Effect::Nothing);
    assert_eq!(g.board.overlay_at(0, 0), Overlay::Revealed(0));
    assert_eq!(g.counter, counter_before);
}

#[test]
fn over_flagging_empty_cells_never_wins() {
    let mut g = session_with_corner_mine();
    for y in 0..5 {
        for x in 0..4 {
            g.cursor_x = x;
            g.cursor_y = y;
            let out = g.apply(Command::Flag);
            assert_eq!(out.effect, Effect::Nothing);
        }
    }
    assert_eq!(g.phase, Phase::Active);
    assert_eq!(g.counter, 1);
}

#[test]
fn quit_is_accepted_everywhere_and_changes_nothing() {
    let mut g = GameController::new(3, 3, 2).unwrap();
    let out = g.apply(Command::Quit);
    assert_eq!(out, ApplyOutcome { accepted: true, effect: Effect::Quit });
    assert_eq!(g.phase, Phase::Idle);
    g.apply(Command::StartRound);
    let out = g.apply(Command::Quit);
    assert_eq!(out.effect, Effect::Quit);
    assert_eq!(g.phase, Phase::Active);
}

#[test]
fn commands_rejected_by_phase_gating() {
    let mut g = GameController::new(3, 3, 1).unwrap();
    // Idle rejects everything but StartRound and Quit
    for cmd in [
        Command::MoveUp,
        Command::MoveLeft,
        Command::MoveDown,
        Command::MoveRight,
        Command::Flag,
        Command::Sweep,
    ] {
        let out = g.apply(cmd);
        assert_eq!(out, ApplyOutcome { accepted: false, effect: Effect::Invalid });
    }
    g.apply(Command::StartRound);
    // Active rejects StartRound
    let out = g.apply(Command::StartRound);
    assert_eq!(out, ApplyOutcome { accepted: false, effect: Effect::Invalid });
    // a lost round rejects moves, flags and sweeps
    g.board.set_mine(1, 1);
    g.placed = true;
    g.cursor_x = 1;
    g.cursor_y = 1;
    g.apply(Command::Sweep);
    assert_eq!(g.phase, Phase::Lost);
    for cmd in [Command::MoveUp, Command::Flag, Command::Sweep] {
        let out = g.apply(cmd);
        assert_eq!(out, ApplyOutcome { accepted: false, effect: Effect::Invalid });
    }
}

#[test]
fn start_round_after_a_loss_resets_the_board() {
    let mut g = session_with_corner_mine();
    g.cursor_x = 4;
    g.cursor_y = 4;
    g.apply(Command::Sweep);
    assert_eq!(g.phase, Phase::Lost);
    let out = g.apply(Command::StartRound);
    assert!(out.accepted);
    assert_eq!(g.phase, Phase::Active);
    assert_eq!(g.counter, 1);
    assert!(!g.placed);
    // cursor preserved, board fresh
    assert_eq!((g.cursor_x, g.cursor_y), (4, 4));
    for y in 0..5 {
        for x in 0..5 {
            assert_eq!(g.board.cell_at(x, y), CellKind::Empty);
            assert_eq!(g.board.overlay_at(x, y), Overlay::Hidden);
        }
    }
}

#[test]
fn first_sweep_of_a_round_never_loses() {
    // mines are placed at the first sweep and never under the cursor
    for _ in 0..20 {
        let mut g = GameController::new(4, 4, 10).unwrap();
        g.apply(Command::StartRound);
        g.cursor_x = 2;
        g.cursor_y = 1;
        let out = g.apply(Command::Sweep);
        assert_eq!(out.effect, Effect::Nothing);
        assert_eq!(g.phase, Phase::Active);
        assert!(g.placed);
        assert_eq!(g.board.cell_at(2, 1), CellKind::Empty);
        assert_eq!(count_mines(&g.board, 4, 4), 10);
    }
}

#[test]
fn cascade_on_a_mine_free_board_reveals_everything() {
    let mut b = Board::new(6, 4);
    assert_eq!(b.sweep_at_point(3, 2), RevealOutcome::Clear);
    for y in 0..4 {
        for x in 0..6 {
            assert_eq!(b.overlay_at(x, y), Overlay::Revealed(0));
        }
    }
}

#[test]
fn first_init_state_clears_a_played_board() {
    let mut b = Board::new(3, 3);
    b.set_mine(0, 0);
    b.sweep_at_point(2, 2);
    b.first_init_state();
    for y in 0..3 {
        for x in 0..3 {
            assert_eq!(b.cell_at(x, y), CellKind::Empty);
            assert_eq!(b.overlay_at(x, y), Overlay::Hidden);
        }
    }
}
