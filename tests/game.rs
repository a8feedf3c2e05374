use game_of_life::board::{Board, GridError};
use game_of_life::game::{Command, Game, RunState, Status};

fn snapshot(b: &Board) -> Vec<Vec<bool>> {
    (0..b.width())
        .map(|c| (0..b.height()).map(|r| b.get(c, r).unwrap()).collect())
        .collect()
}

fn game_from(cells: Vec<Vec<bool>>) -> Game {
    let w = cells.len() as u16;
    let h = cells[0].len() as u16;
    Game::new(Board::new(w, h, |c, r| cells[c as usize][r as usize]).unwrap())
}

/// Brute-force oracle for one generation, written independently of the
/// library.
fn oracle(cells: &[Vec<bool>]) -> Vec<Vec<bool>> {
    let w = cells.len() as i64;
    let h = cells[0].len() as i64;
    let mut out = vec![vec![false; h as usize]; w as usize];
    for c in 0..w {
        for r in 0..h {
            let mut n = 0;
            for dc in -1..=1i64 {
                for dr in -1..=1i64 {
                    let (x, y) = (c + dc, r + dr);
                    if (dc, dr) != (0, 0) && x >= 0 && x < w && y >= 0 && y < h && cells[x as usize][y as usize] {
                        n += 1;
                    }
                }
            }
            let alive = cells[c as usize][r as usize];
            out[c as usize][r as usize] = if alive { n == 2 || n == 3 } else { n == 3 };
        }
    }
    out
}

#[test]
fn new_game_is_running_at_zero() {
    let mut g = Game::new(Board::checkerboard(4, 4).unwrap());
    assert_eq!(g.run_state(), RunState::Running);
    assert_eq!(g.iterations(), 0);
    assert_eq!(g.status(), Status { iteration: 0, alive_count: 8, run_state: RunState::Running });
    assert!(!g.take_board_changed());
    assert_eq!(g.take_status_changed(), None);
}

#[test]
fn all_dead_board_stays_dead() {
    let mut g = game_from(vec![vec![false; 6]; 5]);
    g.advance_generation();
    assert_eq!(g.board().alive_count(), 0);
    assert_eq!(snapshot(g.board()), vec![vec![false; 6]; 5]);
    assert_eq!(g.iterations(), 1);
}

#[test]
fn lone_cell_dies() {
    let mut cells = vec![vec![false; 5]; 5];
    cells[2][3] = true;
    let mut g = game_from(cells);
    assert_eq!(g.board().alive_count(), 1);
    g.advance_generation();
    assert_eq!(g.board().get(2, 3), Ok(false));
    assert_eq!(g.board().alive_count(), 0);
}

#[test]
fn full_three_by_three_block_keeps_corners() {
    let mut g = game_from(vec![vec![true; 3]; 3]);
    g.advance_generation();
    assert_eq!(
        snapshot(g.board()),
        vec![vec![true, false, true], vec![false, false, false], vec![true, false, true]]
    );
    assert_eq!(g.board().alive_count(), 4);
}

#[test]
fn toggle_cell_twice_round_trips() {
    let mut g = Game::new(Board::checkerboard(7, 5).unwrap());
    let before = snapshot(g.board());
    let count = g.board().alive_count();
    assert_eq!(g.apply(Command::ToggleCell { col: 3, row: 2 }), Ok(()));
    assert_eq!(g.board().alive_count(), count + 1);
    assert_eq!(g.apply(Command::ToggleCell { col: 3, row: 2 }), Ok(()));
    assert_eq!(snapshot(g.board()), before);
    assert_eq!(g.board().alive_count(), count);
    assert_eq!(g.iterations(), 0);
}

#[test]
fn toggle_cell_out_of_bounds() {
    let mut g = Game::new(Board::checkerboard(3, 3).unwrap());
    assert_eq!(g.apply(Command::ToggleCell { col: 0, row: 3 }), Err(GridError::OutOfBounds));
    assert_eq!(g.toggle_cell(9, 0), Err(GridError::OutOfBounds));
    assert!(!g.take_board_changed());
    assert_eq!(g.take_status_changed(), None);
    assert_eq!(g.board().alive_count(), 5);
}

#[test]
fn toggle_run_state_twice_round_trips() {
    let mut g = Game::new(Board::checkerboard(3, 3).unwrap());
    g.apply(Command::ToggleRunState).unwrap();
    assert_eq!(g.run_state(), RunState::Paused);
    g.apply(Command::ToggleRunState).unwrap();
    assert_eq!(g.run_state(), RunState::Running);
    assert_eq!(RunState::Paused.toggled(), RunState::Running);
}

#[test]
fn step_once_while_running_does_nothing() {
    let mut g = Game::new(Board::checkerboard(4, 4).unwrap());
    let before = snapshot(g.board());
    g.apply(Command::StepOnce).unwrap();
    assert_eq!(g.iterations(), 0);
    assert_eq!(snapshot(g.board()), before);
    assert!(!g.take_board_changed());
    assert_eq!(g.take_status_changed(), None);
}

#[test]
fn step_once_while_paused_advances() {
    let mut g = game_from(vec![vec![false, true, false]; 3]);
    g.toggle_run_state();
    g.step_once();
    assert_eq!(g.iterations(), 1);
    assert_eq!(
        snapshot(g.board()),
        vec![vec![false, false, false], vec![true, true, true], vec![false, false, false]]
    );
}

#[test]
fn tick_is_suppressed_while_paused() {
    let mut g = Game::new(Board::checkerboard(4, 4).unwrap());
    g.toggle_run_state();
    g.take_status_changed();
    let before = snapshot(g.board());
    g.tick();
    g.tick();
    assert_eq!(g.iterations(), 0);
    assert_eq!(snapshot(g.board()), before);
    assert!(!g.take_board_changed());
    g.toggle_run_state();
    g.tick();
    assert_eq!(g.iterations(), 1);
}

#[test]
fn clear_keeps_counter_and_run_state() {
    let mut g = Game::new(Board::checkerboard(5, 5).unwrap());
    g.tick();
    g.toggle_run_state();
    g.apply(Command::Clear).unwrap();
    assert_eq!(g.board().alive_count(), 0);
    assert_eq!(snapshot(g.board()), vec![vec![false; 5]; 5]);
    assert_eq!(g.iterations(), 1);
    assert_eq!(g.run_state(), RunState::Paused);
}

#[test]
fn notifications_coalesce() {
    let mut g = Game::new(Board::checkerboard(4, 4).unwrap());
    for _ in 0..12 {
        g.toggle_cell(1, 2).unwrap();
    }
    assert!(g.take_board_changed());
    assert!(!g.take_board_changed());
    assert_eq!(
        g.take_status_changed(),
        Some(Status { iteration: 0, alive_count: 8, run_state: RunState::Running })
    );
    assert_eq!(g.take_status_changed(), None);
}

#[test]
fn run_toggle_emits_status_only() {
    let mut g = Game::new(Board::checkerboard(2, 2).unwrap());
    g.toggle_run_state();
    assert!(!g.take_board_changed());
    assert_eq!(
        g.take_status_changed(),
        Some(Status { iteration: 0, alive_count: 2, run_state: RunState::Paused })
    );
}

#[test]
fn generation_emits_both_notifications() {
    let mut g = Game::new(Board::checkerboard(3, 3).unwrap());
    g.tick();
    assert!(g.take_board_changed());
    let s = g.take_status_changed().unwrap();
    assert_eq!(s.iteration, 1);
    assert_eq!(s.alive_count, g.board().alive_count());
}

#[test]
fn checkerboard_twenty_matches_oracle() {
    let mut g = Game::new(Board::checkerboard(20, 20).unwrap());
    let seed = snapshot(g.board());
    let expected = oracle(&seed);
    g.advance_generation();
    let got = snapshot(g.board());
    assert_eq!(got, expected);
    let alive = expected.iter().flatten().filter(|&&v| v).count();
    assert_eq!(g.board().alive_count(), alive);
    // Interior live cells have four diagonal live neighbours and die, live
    // corners have one and die, live edge cells have two and survive.
    assert!(!got[5][5]);
    assert!(!got[0][0]);
    assert!(got[0][2]);
    assert!(!got[19][19]);
}

#[test]
fn help_text_per_state() {
    assert_eq!(RunState::Running.help_text(), "Running: [space] to pause, [c] to clear.");
    assert_eq!(RunState::Paused.help_text(), "Paused: [space] to resume, [c] to clear, [n] for next.");
}
