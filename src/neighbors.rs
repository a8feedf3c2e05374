//! Neighbour counting with hard edges, and the next generation built from it.
use vstd::prelude::*;
use crate::board::{in_bounds, Board};
use crate::grid::{grid_of, neighbor_count, neighbor_grid, next_grid};
use crate::rules::next_state;

verus! {

/// The model of a grid of neighbour counts held as a vector of columns.
pub open spec fn counts_of(v: Seq<Vec<u8>>) -> Seq<Seq<int>> {
    Seq::new(v.len(), |c: int| Seq::new(v[c]@.len(), |r: int| v[c]@[r] as int))
}

/// The number of live cells among the Moore neighbours of `(col, row)`;
/// positions off the board are skipped, never read.
pub fn live_neighbors(board: &Board, col: usize, row: usize) -> (n: u8)
    requires
        board.wf(),
        in_bounds(board@.width, board@.height, col as int, row as int),
    ensures
        n == neighbor_count(board@.cells, board@.width, board@.height, col as int, row as int),
        n <= 8,
{
    let width = board.width() as usize;
    let height = board.height() as usize;
    let mut n: u8 = 0;
    if row > 0 {
        if col > 0 && board.is_alive(col - 1, row - 1) {
            n = n + 1;
        }
        if board.is_alive(col, row - 1) {
            n = n + 1;
        }
        if col + 1 < width && board.is_alive(col + 1, row - 1) {
            n = n + 1;
        }
    }
    if col > 0 && board.is_alive(col - 1, row) {
        n = n + 1;
    }
    if col + 1 < width && board.is_alive(col + 1, row) {
        n = n + 1;
    }
    if row + 1 < height {
        if col > 0 && board.is_alive(col - 1, row + 1) {
            n = n + 1;
        }
        if board.is_alive(col, row + 1) {
            n = n + 1;
        }
        if col + 1 < width && board.is_alive(col + 1, row + 1) {
            n = n + 1;
        }
    }
    n
}

/// The live-neighbour count of every cell, `r[col][row]`, computed from one
/// snapshot of the board.
pub fn count_neighbors(board: &Board) -> (r: Vec<Vec<u8>>)
    requires
        board.wf(),
    ensures
        r@.len() == board@.width,
        forall|c: int| 0 <= c < board@.width ==> (#[trigger] r@[c])@.len() == board@.height,
        forall|c: int, rw: int|
            in_bounds(board@.width, board@.height, c, rw) ==> #[trigger] counts_of(r@)[c][rw]
                == neighbor_count(board@.cells, board@.width, board@.height, c, rw),
        counts_of(r@) == neighbor_grid(board@.cells, board@.width, board@.height),
{
    let width = board.width() as usize;
    let height = board.height() as usize;
    let mut counts: Vec<Vec<u8>> = Vec::new();
    let mut c: usize = 0;
    while c < width
        invariant
            board.wf(),
            width == board@.width,
            height == board@.height,
            c <= width,
            counts@.len() == c,
            forall|k: int| 0 <= k < c ==> (#[trigger] counts@[k])@.len() == height,
            forall|k: int, q: int|
                0 <= k < c && 0 <= q < height ==> #[trigger] counts@[k]@[q] as int
                    == neighbor_count(board@.cells, width as int, height as int, k, q),
        decreases width - c,
    {
        let mut col: Vec<u8> = Vec::new();
        let mut rw: usize = 0;
        while rw < height
            invariant
                board.wf(),
                width == board@.width,
                height == board@.height,
                c < width,
                rw <= height,
                col@.len() == rw,
                forall|q: int|
                    0 <= q < rw ==> #[trigger] col@[q] as int == neighbor_count(
                        board@.cells,
                        width as int,
                        height as int,
                        c as int,
                        q,
                    ),
            decreases height - rw,
        {
            let n = live_neighbors(board, c, rw);
            col.push(n);
            rw = rw + 1;
        }
        counts.push(col);
        c = c + 1;
    }
    proof {
        assert forall|k: int, q: int|
            in_bounds(board@.width, board@.height, k, q) implies #[trigger] counts_of(counts@)[k][q]
                == neighbor_count(board@.cells, board@.width, board@.height, k, q) by {
            assert(counts@[k]@[q] as int == neighbor_count(board@.cells, width as int, height as int, k, q));
        }
        let target = neighbor_grid(board@.cells, board@.width, board@.height);
        assert forall|k: int| 0 <= k < width implies #[trigger] counts_of(counts@)[k] =~= target[k] by {
            assert(counts@[k]@.len() == height);
        }
        assert(counts_of(counts@) =~= target);
    }
    counts
}

/// The generation that follows the board: every cell takes the rule applied
/// to its liveness and its neighbour count, all counts taken before any cell
/// changes.
pub fn next_generation(board: &Board) -> (r: Vec<Vec<bool>>)
    requires
        board.wf(),
    ensures
        grid_of(r@) == next_grid(board@.cells, board@.width, board@.height),
{
    let counts = count_neighbors(board);
    let width = board.width() as usize;
    let height = board.height() as usize;
    let ghost target = next_grid(board@.cells, board@.width, board@.height);
    let mut next: Vec<Vec<bool>> = Vec::new();
    let mut c: usize = 0;
    while c < width
        invariant
            board.wf(),
            width == board@.width,
            height == board@.height,
            target == next_grid(board@.cells, board@.width, board@.height),
            counts@.len() == width,
            forall|k: int| 0 <= k < width ==> (#[trigger] counts@[k])@.len() == height,
            forall|k: int, q: int|
                in_bounds(board@.width, board@.height, k, q) ==> #[trigger] counts_of(counts@)[k][q]
                    == neighbor_count(board@.cells, board@.width, board@.height, k, q),
            c <= width,
            next@.len() == c,
            forall|k: int| 0 <= k < c ==> (#[trigger] next@[k])@ == target[k],
        decreases width - c,
    {
        let mut col: Vec<bool> = Vec::new();
        let mut rw: usize = 0;
        while rw < height
            invariant
                board.wf(),
                width == board@.width,
                height == board@.height,
                target == next_grid(board@.cells, board@.width, board@.height),
                counts@.len() == width,
                forall|k: int| 0 <= k < width ==> (#[trigger] counts@[k])@.len() == height,
                forall|k: int, q: int|
                    in_bounds(board@.width, board@.height, k, q) ==> #[trigger] counts_of(counts@)[k][q]
                        == neighbor_count(board@.cells, board@.width, board@.height, k, q),
                c < width,
                rw <= height,
                col@.len() == rw,
                forall|q: int| 0 <= q < rw ==> #[trigger] col@[q] == target[c as int][q],
            decreases height - rw,
        {
            proof {
                assert(counts@[c as int]@.len() == height);
                assert(counts_of(counts@)[c as int][rw as int] == counts@[c as int]@[rw as int] as int);
            }
            let n = counts[c][rw];
            let alive = board.is_alive(c, rw);
            let v = next_state(alive, n);
            col.push(v);
            rw = rw + 1;
        }
        proof {
            assert(col@ =~= target[c as int]);
        }
        next.push(col);
        c = c + 1;
    }
    proof {
        assert(grid_of(next@) =~= target);
    }
    next
}

} // verus!
