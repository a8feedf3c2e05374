//! The simulation controller: the board, the run/pause state, the iteration
//! counter, and the two change notifications, each coalesced into one
//! pending flag until its consumer takes it.
use vstd::prelude::*;
use crate::board::{in_bounds, Board, BoardView, GridError};
use crate::grid::{
    all_dead, count_grid, dead_grid, has_shape, lemma_count_set_cell, lemma_dead_grid_count,
    lemma_dead_grid_stays_dead, lemma_set_cell_back, neighbor_count, next_grid, set_cell,
};
use crate::neighbors::next_generation;

verus! {

/// Whether generations advance on their own.
#[derive(Debug, Clone, Copy, PartialEq, Eq, Structural)]
pub enum RunState {
    Running,
    Paused,
}

/// The other run state.
pub open spec fn flipped(s: RunState) -> RunState {
    match s {
        RunState::Running => RunState::Paused,
        RunState::Paused => RunState::Running,
    }
}

impl RunState {
    /// The other run state.
    pub fn toggled(self) -> (r: RunState)
        ensures
            r == flipped(self),
    {
        match self {
            RunState::Running => RunState::Paused,
            RunState::Paused => RunState::Running,
        }
    }

    /// The help line shown for this state.
    pub fn help_text(self) -> (r: &'static str)
        ensures
            self == RunState::Running ==> r@ == "Running: [space] to pause, [c] to clear."@,
            self == RunState::Paused ==> r@ == "Paused: [space] to resume, [c] to clear, [n] for next."@,
    {
        match self {
            RunState::Running => "Running: [space] to pause, [c] to clear.",
            RunState::Paused => "Paused: [space] to resume, [c] to clear, [n] for next.",
        }
    }
}

/// A command delivered by the input side.
#[derive(Debug, Clone, Copy, PartialEq, Eq, Structural)]
pub enum Command {
    /// Flip one cell.
    ToggleCell { col: u16, row: u16 },
    /// Pause when running, resume when paused.
    ToggleRunState,
    /// Make every cell dead.
    Clear,
    /// Advance one generation, while paused only.
    StepOnce,
}

/// What the status line shows.
#[derive(Debug, Clone, Copy, PartialEq, Eq, Structural)]
pub struct Status {
    pub iteration: u64,
    pub alive_count: usize,
    pub run_state: RunState,
}

/// What one pass asks the presentation side to redraw.
#[derive(Debug, Clone, Copy, PartialEq, Eq, Structural)]
pub struct Frame {
    /// The board changed since the last pass: redraw every cell, once.
    pub redraw_board: bool,
    /// The status changed since the last pass: the status to show.
    pub status: Option<Status>,
    /// Every command of the pass was accepted.
    pub all_accepted: bool,
}

/// What a game holds, as mathematical values.
pub struct GameView {
    pub board: BoardView,
    pub run_state: RunState,
    pub iterations: int,
    /// A "board changed" notification is pending.
    pub board_changed: bool,
    /// A "status changed" notification is pending.
    pub status_changed: bool,
}

/// The whole simulation state, owned in one place.
pub struct Game {
    board: Board,
    run_state: RunState,
    iterations: u64,
    board_changed: bool,
    status_changed: bool,
}

impl View for Game {
    type V = GameView;

    closed spec fn view(&self) -> GameView {
        GameView {
            board: self.board@,
            run_state: self.run_state,
            iterations: self.iterations as int,
            board_changed: self.board_changed,
            status_changed: self.status_changed,
        }
    }
}

/// `v` after one generation: every cell follows the rule, the live count is
/// recomputed, the counter goes up by one, and both notifications are
/// pending.
pub open spec fn after_generation(v: GameView) -> GameView {
    let cells = next_grid(v.board.cells, v.board.width, v.board.height);
    GameView {
        board: BoardView { cells: cells, alive: count_grid(cells) as int, ..v.board },
        iterations: v.iterations + 1,
        board_changed: true,
        status_changed: true,
        ..v
    }
}

/// `v` with the cell at `(col, row)` flipped and the live count moved by one;
/// both notifications are pending.
pub open spec fn after_toggle(v: GameView, col: int, row: int) -> GameView {
    let was = v.board.cells[col][row];
    GameView {
        board: BoardView {
            cells: set_cell(v.board.cells, col, row, !was),
            alive: v.board.alive + if was { -1int } else { 1int },
            ..v.board
        },
        board_changed: true,
        status_changed: true,
        ..v
    }
}

/// `v` with every cell dead and a live count of zero; the counter and the
/// run state stay, both notifications are pending.
pub open spec fn after_clear(v: GameView) -> GameView {
    GameView {
        board: BoardView { cells: dead_grid(v.board.width, v.board.height), alive: 0, ..v.board },
        board_changed: true,
        status_changed: true,
        ..v
    }
}

/// `v` with the run state flipped and a status notification pending.
pub open spec fn after_run_toggle(v: GameView) -> GameView {
    GameView { run_state: flipped(v.run_state), status_changed: true, ..v }
}

/// Whether the board of `w` by `h` accepts `cmd`: every command but a cell
/// toggle off the board.
pub open spec fn accepts(w: int, h: int, cmd: Command) -> bool {
    match cmd {
        Command::ToggleCell { col, row } => in_bounds(w, h, col as int, row as int),
        _ => true,
    }
}

/// `v` after one command; a refused command changes nothing.
pub open spec fn after_command(v: GameView, cmd: Command) -> GameView {
    match cmd {
        Command::ToggleCell { col, row } => if in_bounds(v.board.width, v.board.height, col as int, row as int) {
            after_toggle(v, col as int, row as int)
        } else {
            v
        },
        Command::ToggleRunState => after_run_toggle(v),
        Command::Clear => after_clear(v),
        Command::StepOnce => if v.run_state == RunState::Paused {
            after_generation(v)
        } else {
            v
        },
    }
}

/// `v` after a tick of the timer: one generation while running, none while
/// paused.
pub open spec fn after_tick(v: GameView) -> GameView {
    if v.run_state == RunState::Running {
        after_generation(v)
    } else {
        v
    }
}

/// `v` after the commands of `cmds`, in order.
pub open spec fn after_commands(v: GameView, cmds: Seq<Command>) -> GameView
    decreases cmds.len(),
{
    if cmds.len() == 0 {
        v
    } else {
        after_command(after_commands(v, cmds.drop_last()), cmds.last())
    }
}

impl Game {
    /// The game's invariant: the board's own.
    pub closed spec fn wf(&self) -> bool {
        self.board.wf()
    }

    /// A running game on `board`, at iteration zero, with no notification
    /// pending.
    pub fn new(board: Board) -> (r: Game)
        requires
            board.wf(),
        ensures
            r.wf(),
            r@.board == board@,
            r@.run_state == RunState::Running,
            r@.iterations == 0,
            !r@.board_changed,
            !r@.status_changed,
    {
        Game { board, run_state: RunState::Running, iterations: 0, board_changed: false, status_changed: false }
    }

    /// The board, for reading.
    pub fn board(&self) -> (r: &Board)
        requires
            self.wf(),
        ensures
            r@ == self@.board,
            r.wf(),
    {
        &self.board
    }

    pub fn run_state(&self) -> (r: RunState)
        ensures
            r == self@.run_state,
    {
        self.run_state
    }

    /// The number of generations applied so far.
    pub fn iterations(&self) -> (r: u64)
        ensures
            r == self@.iterations,
    {
        self.iterations
    }

    /// What the status line shows now.
    pub fn status(&self) -> (r: Status)
        ensures
            r.iteration == self@.iterations,
            r.alive_count == self@.board.alive,
            r.run_state == self@.run_state,
    {
        Status { iteration: self.iterations, alive_count: self.board.alive_count(), run_state: self.run_state }
    }

    /// Applies one generation to every cell at once and commits it whole.
    pub fn advance_generation(&mut self)
        requires
            old(self).wf(),
            old(self)@.iterations < u64::MAX,
        ensures
            final(self).wf(),
            final(self)@ == after_generation(old(self)@),
    {
        let next = next_generation(&self.board);
        let _ = self.board.replace_all(next);
        self.iterations = self.iterations + 1;
        self.board_changed = true;
        self.status_changed = true;
    }

    /// The fixed-cadence timer fired: one generation while running, nothing
    /// while paused (a tick is never kept for later).
    pub fn tick(&mut self)
        requires
            old(self).wf(),
            old(self)@.iterations < u64::MAX,
        ensures
            final(self).wf(),
            old(self)@.run_state == RunState::Running ==> final(self)@ == after_generation(old(self)@),
            old(self)@.run_state == RunState::Paused ==> *final(self) == *old(self),
    {
        if self.run_state == RunState::Running {
            self.advance_generation();
        }
    }

    /// One generation on request, while paused only; while running the
    /// timer drives generations and the request changes nothing.
    pub fn step_once(&mut self)
        requires
            old(self).wf(),
            old(self)@.iterations < u64::MAX,
        ensures
            final(self).wf(),
            old(self)@.run_state == RunState::Paused ==> final(self)@ == after_generation(old(self)@),
            old(self)@.run_state == RunState::Running ==> *final(self) == *old(self),
    {
        if self.run_state == RunState::Paused {
            self.advance_generation();
        }
    }

    /// Pauses a running game or resumes a paused one.
    pub fn toggle_run_state(&mut self)
        requires
            old(self).wf(),
        ensures
            final(self).wf(),
            final(self)@ == after_run_toggle(old(self)@),
    {
        self.run_state = self.run_state.toggled();
        self.status_changed = true;
    }

    /// Flips one cell, in either run state. Fails with `OutOfBounds`, and
    /// changes nothing, where the cell lies off the board.
    pub fn toggle_cell(&mut self, col: u16, row: u16) -> (r: Result<(), GridError>)
        requires
            old(self).wf(),
        ensures
            final(self).wf(),
            r is Ok <==> in_bounds(old(self)@.board.width, old(self)@.board.height, col as int, row as int),
            r is Err ==> r->Err_0 == GridError::OutOfBounds && *final(self) == *old(self),
            r is Ok ==> final(self)@ == after_toggle(old(self)@, col as int, row as int),
    {
        match self.board.toggle(col, row) {
            Err(e) => Err(e),
            Ok(_) => {
                self.board_changed = true;
                self.status_changed = true;
                Ok(())
            },
        }
    }

    /// Makes every cell dead; the counter and the run state stay.
    pub fn clear(&mut self)
        requires
            old(self).wf(),
        ensures
            final(self).wf(),
            final(self)@ == after_clear(old(self)@),
    {
        self.board.clear();
        self.board_changed = true;
        self.status_changed = true;
    }

    /// Carries out one command from the input side.
    pub fn apply(&mut self, cmd: Command) -> (r: Result<(), GridError>)
        requires
            old(self).wf(),
            old(self)@.iterations < u64::MAX,
        ensures
            final(self).wf(),
            r is Ok <==> accepts(old(self)@.board.width, old(self)@.board.height, cmd),
            r is Err ==> r->Err_0 == GridError::OutOfBounds,
            final(self)@ == after_command(old(self)@, cmd),
    {
        match cmd {
            Command::ToggleCell { col, row } => self.toggle_cell(col, row),
            Command::ToggleRunState => {
                self.toggle_run_state();
                Ok(())
            },
            Command::Clear => {
                self.clear();
                Ok(())
            },
            Command::StepOnce => {
                self.step_once();
                Ok(())
            },
        }
    }

    /// Takes the pending "board changed" notification: true when at least
    /// one was emitted since the last take, however many; none is pending
    /// afterwards.
    pub fn take_board_changed(&mut self) -> (r: bool)
        requires
            old(self).wf(),
        ensures
            final(self).wf(),
            r == old(self)@.board_changed,
            !final(self)@.board_changed,
            final(self)@.board == old(self)@.board,
            final(self)@.run_state == old(self)@.run_state,
            final(self)@.iterations == old(self)@.iterations,
            final(self)@.status_changed == old(self)@.status_changed,
    {
        let r = self.board_changed;
        self.board_changed = false;
        r
    }

    /// Takes the pending "status changed" notification: the current status
    /// when at least one was emitted since the last take, else `None`; none
    /// is pending afterwards.
    pub fn take_status_changed(&mut self) -> (r: Option<Status>)
        requires
            old(self).wf(),
        ensures
            final(self).wf(),
            r is Some <==> old(self)@.status_changed,
            r is Some ==> {
                let s = r->Some_0;
                &&& s.iteration == old(self)@.iterations
                &&& s.alive_count == old(self)@.board.alive
                &&& s.run_state == old(self)@.run_state
            },
            !final(self)@.status_changed,
            final(self)@.board == old(self)@.board,
            final(self)@.run_state == old(self)@.run_state,
            final(self)@.iterations == old(self)@.iterations,
            final(self)@.board_changed == old(self)@.board_changed,
    {
        if self.status_changed {
            self.status_changed = false;
            Some(self.status())
        } else {
            None
        }
    }

    /// One scheduling pass: the input commands in order, then the timer's
    /// tick if it fired, then the two notifications, each taken at most once
    /// however often it was emitted. A refused command changes nothing and
    /// the pass goes on.
    pub fn run_pass(&mut self, commands: &Vec<Command>, tick: bool) -> (r: Frame)
        requires
            old(self).wf(),
            old(self)@.iterations + commands@.len() + 1 <= u64::MAX,
        ensures
            final(self).wf(),
            ({
                let done = after_commands(old(self)@, commands@);
                let p = if tick { after_tick(done) } else { done };
                &&& final(self)@ == (GameView { board_changed: false, status_changed: false, ..p })
                &&& r.redraw_board == p.board_changed
                &&& (r.status is Some <==> p.status_changed)
                &&& r.status is Some ==> r.status->Some_0 == (Status {
                    iteration: p.iterations as u64,
                    alive_count: p.board.alive as usize,
                    run_state: p.run_state,
                })
                &&& r.all_accepted == forall|i: int|
                    0 <= i < commands@.len() ==> #[trigger] accepts(
                        old(self)@.board.width,
                        old(self)@.board.height,
                        commands@[i],
                    )
            }),
    {
        let ghost start = self@;
        let mut all_accepted = true;
        let mut i: usize = 0;
        while i < commands.len()
            invariant
                self.wf(),
                i <= commands@.len(),
                start.iterations + commands@.len() + 1 <= u64::MAX,
                self@ == after_commands(start, commands@.take(i as int)),
                self@.board.width == start.board.width,
                self@.board.height == start.board.height,
                self@.iterations <= start.iterations + i,
                all_accepted == forall|k: int|
                    0 <= k < i ==> #[trigger] accepts(start.board.width, start.board.height, commands@[k]),
            decreases commands@.len() - i,
        {
            proof {
                assert(commands@.take(i + 1).drop_last() =~= commands@.take(i as int));
            }
            let res = self.apply(commands[i]);
            if res.is_err() {
                all_accepted = false;
            }
            i = i + 1;
        }
        proof {
            assert(commands@.take(i as int) =~= commands@);
        }
        if tick {
            self.tick();
        }
        let redraw_board = self.take_board_changed();
        let status = self.take_status_changed();
        Frame { redraw_board, status, all_accepted }
    }
}

/// A generation of an all-dead board is all dead, with a live count of zero.
pub proof fn lemma_advance_dead_board(v: GameView)
    requires
        has_shape(v.board.cells, v.board.width, v.board.height),
        0 < v.board.height,
        all_dead(v.board.cells, v.board.width, v.board.height),
    ensures
        after_generation(v).board.cells == dead_grid(v.board.width, v.board.height),
        all_dead(after_generation(v).board.cells, v.board.width, v.board.height),
        after_generation(v).board.alive == 0,
{
    let (w, h) = (v.board.width, v.board.height);
    lemma_dead_grid_stays_dead(v.board.cells, w, h);
    lemma_dead_grid_count(w, h);
}

/// A lone live cell dies of underpopulation: after one generation the board
/// is all dead and the live count has gone down by exactly one.
pub proof fn lemma_lone_cell_dies(v: GameView, x: int, y: int)
    requires
        0 < v.board.width && 0 < v.board.height,
        in_bounds(v.board.width, v.board.height, x, y),
        v.board.cells == set_cell(dead_grid(v.board.width, v.board.height), x, y, true),
        v.board.alive == count_grid(v.board.cells),
    ensures
        !after_generation(v).board.cells[x][y],
        after_generation(v).board.cells == dead_grid(v.board.width, v.board.height),
        after_generation(v).board.alive == 0,
        after_generation(v).board.alive == v.board.alive - 1,
{
    let (w, h) = (v.board.width, v.board.height);
    let g = v.board.cells;
    let d = dead_grid(w, h);
    lemma_dead_grid_count(w, h);
    lemma_count_set_cell(d, x, y, true);
    assert forall|i: int, j: int| in_bounds(w, h, i, j) implies #[trigger] g[i][j] == (i == x && j == y) by {
        if i == x {
            assert(d[x].len() == h);
        }
    }
    let n = next_grid(g, w, h);
    assert forall|c: int| 0 <= c < w implies #[trigger] n[c] =~= d[c] by {
        assert forall|r: int| 0 <= r < h implies !n[c][r] by {
            assert(neighbor_count(g, w, h, c, r) <= 1);
        }
    }
    assert(n =~= d);
}

/// Flipping the same cell twice gives back the board and its live count.
pub proof fn lemma_toggle_twice(v: GameView, col: int, row: int)
    requires
        has_shape(v.board.cells, v.board.width, v.board.height),
        in_bounds(v.board.width, v.board.height, col, row),
    ensures
        after_toggle(after_toggle(v, col, row), col, row).board == v.board,
{
    let g = v.board.cells;
    assert(g[col].len() == v.board.height);
    lemma_set_cell_back(g, col, row, !g[col][row]);
}

/// Toggling the run state twice gives back the run state it started from,
/// and touches neither the board nor the counter.
pub proof fn lemma_run_toggle_twice(v: GameView)
    ensures
        after_run_toggle(after_run_toggle(v)).run_state == v.run_state,
        after_run_toggle(after_run_toggle(v)).board == v.board,
        after_run_toggle(after_run_toggle(v)).iterations == v.iterations,
{
}

/// A step request while running changes nothing at all.
pub proof fn lemma_step_while_running(v: GameView)
    requires
        v.run_state == RunState::Running,
    ensures
        after_command(v, Command::StepOnce) == v,
{
}

/// Clearing leaves every cell dead and the live count at zero, whatever the
/// board held, and keeps the iteration counter and the run state.
pub proof fn lemma_clear_kills_all(v: GameView)
    requires
        0 <= v.board.width && 0 <= v.board.height,
    ensures
        all_dead(after_clear(v).board.cells, v.board.width, v.board.height),
        count_grid(after_clear(v).board.cells) == 0,
        after_clear(v).board.alive == 0,
        after_clear(v).iterations == v.iterations,
        after_clear(v).run_state == v.run_state,
{
    lemma_dead_grid_count(v.board.width, v.board.height);
}

} // verus!
