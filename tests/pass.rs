use game_of_life::board::Board;
use game_of_life::game::{Command, Frame, Game, RunState, Status};

fn snapshot(b: &Board) -> Vec<Vec<bool>> {
    (0..b.width())
        .map(|c| (0..b.height()).map(|r| b.get(c, r).unwrap()).collect())
        .collect()
}

#[test]
fn pass_applies_commands_before_the_tick() {
    // A vertical blinker is drawn by toggles, then the tick turns it.
    let mut g = Game::new(Board::new(3, 3, |_, _| false).unwrap());
    let cmds = vec![
        Command::ToggleCell { col: 1, row: 0 },
        Command::ToggleCell { col: 1, row: 1 },
        Command::ToggleCell { col: 1, row: 2 },
    ];
    let f = g.run_pass(&cmds, true);
    assert_eq!(
        snapshot(g.board()),
        vec![vec![false, true, false], vec![false, true, false], vec![false, true, false]]
    );
    assert_eq!(
        f,
        Frame {
            redraw_board: true,
            status: Some(Status { iteration: 1, alive_count: 3, run_state: RunState::Running }),
            all_accepted: true,
        }
    );
}

#[test]
fn pass_coalesces_notifications() {
    let mut g = Game::new(Board::checkerboard(4, 4).unwrap());
    let cmds = vec![Command::ToggleCell { col: 0, row: 0 }; 12];
    let f = g.run_pass(&cmds, false);
    assert!(f.redraw_board);
    assert_eq!(f.status, Some(Status { iteration: 0, alive_count: 8, run_state: RunState::Running }));
    let quiet = g.run_pass(&Vec::new(), false);
    assert_eq!(quiet, Frame { redraw_board: false, status: None, all_accepted: true });
}

#[test]
fn pass_goes_on_after_a_refused_command() {
    let mut g = Game::new(Board::new(2, 2, |_, _| false).unwrap());
    let cmds = vec![Command::ToggleCell { col: 2, row: 0 }, Command::ToggleCell { col: 1, row: 1 }];
    let f = g.run_pass(&cmds, false);
    assert!(!f.all_accepted);
    assert_eq!(g.board().alive_count(), 1);
    assert_eq!(g.board().get(1, 1), Ok(true));
}

#[test]
fn pass_tick_suppressed_while_paused() {
    let mut g = Game::new(Board::checkerboard(5, 5).unwrap());
    let before = snapshot(g.board());
    let f = g.run_pass(&vec![Command::ToggleRunState], true);
    assert_eq!(g.iterations(), 0);
    assert_eq!(snapshot(g.board()), before);
    assert!(!f.redraw_board);
    assert_eq!(f.status, Some(Status { iteration: 0, alive_count: 13, run_state: RunState::Paused }));
    let f = g.run_pass(&vec![Command::StepOnce], true);
    assert_eq!(g.iterations(), 1);
    assert!(f.redraw_board);
}

#[test]
fn pass_clear_then_tick() {
    let mut g = Game::new(Board::checkerboard(5, 5).unwrap());
    let f = g.run_pass(&vec![Command::Clear], true);
    assert_eq!(g.iterations(), 1);
    assert_eq!(g.board().alive_count(), 0);
    assert_eq!(f.status, Some(Status { iteration: 1, alive_count: 0, run_state: RunState::Running }));
}
