//! The grid store: the cells of a bounded board and a cached count of the
//! live ones.
use vstd::prelude::*;
use crate::grid::{
    bit, checker_grid, count_col, count_grid, dead_grid, grid_of, has_shape, lemma_count_all_dead,
    lemma_count_col_push, lemma_count_grid_bound, lemma_count_grid_push, lemma_count_set_cell,
    set_cell,
};

verus! {

/// Why a board operation was refused.
#[derive(Debug, Clone, Copy, PartialEq, Eq, Structural)]
pub enum GridError {
    /// A board was asked for with no columns or no rows, or a replacement
    /// grid did not have the board's shape.
    InvalidDimensions,
    /// A coordinate lies off the board.
    OutOfBounds,
}

/// What a board holds, as mathematical values.
pub struct BoardView {
    pub width: int,
    pub height: int,
    /// `cells[col][row]` is the liveness of that cell.
    pub cells: Seq<Seq<bool>>,
    /// The cached number of live cells.
    pub alive: int,
}

/// A board of `width` columns by `height` rows. Cells are stored column by
/// column, `squares[col][row]`.
pub struct Board {
    squares_wide: u16,
    squares_high: u16,
    squares: Vec<Vec<bool>>,
    alive_squares: usize,
}

impl View for Board {
    type V = BoardView;

    closed spec fn view(&self) -> BoardView {
        BoardView {
            width: self.squares_wide as int,
            height: self.squares_high as int,
            cells: grid_of(self.squares@),
            alive: self.alive_squares as int,
        }
    }
}

/// Whether `(c, r)` is a position on a board of `w` by `h`.
pub open spec fn in_bounds(w: int, h: int, c: int, r: int) -> bool {
    0 <= c < w && 0 <= r < h
}

/// The number of live cells in a vector of columns.
fn count_live(cols: &Vec<Vec<bool>>) -> (n: usize)
    requires
        cols@.len() <= 0xffff,
        forall|c: int| 0 <= c < cols@.len() ==> (#[trigger] cols@[c])@.len() <= 0xffff,
    ensures
        n == count_grid(grid_of(cols@)),
{
    let mut n: usize = 0;
    let mut c: usize = 0;
    while c < cols.len()
        invariant
            c <= cols@.len(),
            cols@.len() <= 0xffff,
            forall|k: int| 0 <= k < cols@.len() ==> (#[trigger] cols@[k])@.len() <= 0xffff,
            n == count_grid(grid_of(cols@.take(c as int))),
            n <= c * 0xffff,
        decreases cols@.len() - c,
    {
        let col = &cols[c];
        let mut m: usize = 0;
        let mut r: usize = 0;
        while r < col.len()
            invariant
                r <= col@.len(),
                col@.len() <= 0xffff,
                m == count_col(col@.take(r as int)),
                m <= r,
            decreases col@.len() - r,
        {
            proof {
                lemma_count_col_push(col@.take(r as int), col@[r as int]);
                assert(col@.take(r as int).push(col@[r as int]) =~= col@.take(r + 1));
            }
            if col[r] {
                m = m + 1;
            }
            r = r + 1;
        }
        proof {
            assert(col@.take(r as int) =~= col@);
            lemma_count_grid_push(grid_of(cols@.take(c as int)), col@);
            assert(grid_of(cols@.take(c as int)).push(col@) =~= grid_of(cols@.take(c + 1)));
            assert(n + m <= (c + 1) * 0xffff) by (nonlinear_arith)
                requires
                    n <= c * 0xffff,
                    m <= 0xffff,
            ;
        }
        n = n + m;
        c = c + 1;
    }
    proof {
        assert(cols@.take(c as int) =~= cols@);
    }
    n
}

/// Whether a vector of columns has `w` columns of `h` cells.
fn shape_matches(cols: &Vec<Vec<bool>>, w: u16, h: u16) -> (r: bool)
    ensures
        r == has_shape(grid_of(cols@), w as int, h as int),
{
    if cols.len() != w as usize {
        return false;
    }
    let mut c: usize = 0;
    while c < cols.len()
        invariant
            c <= cols@.len(),
            forall|k: int| 0 <= k < c ==> (#[trigger] cols@[k])@.len() == h,
        decreases cols@.len() - c,
    {
        if cols[c].len() != h as usize {
            proof {
                assert(grid_of(cols@)[c as int].len() != h);
            }
            return false;
        }
        c = c + 1;
    }
    proof {
        assert forall|k: int| 0 <= k < w implies #[trigger] grid_of(cols@)[k].len() == h by {
            assert(cols@[k]@.len() == h);
        }
    }
    true
}

/// `w` columns of `h` dead cells.
fn dead_columns(w: u16, h: u16) -> (r: Vec<Vec<bool>>)
    ensures
        grid_of(r@) == dead_grid(w as int, h as int),
{
    let mut cols: Vec<Vec<bool>> = Vec::new();
    let mut c: u16 = 0;
    while c < w
        invariant
            c <= w,
            cols@.len() == c,
            forall|k: int| 0 <= k < c ==> (#[trigger] cols@[k])@ == Seq::new(h as nat, |q: int| false),
        decreases w - c,
    {
        let mut col: Vec<bool> = Vec::new();
        let mut q: u16 = 0;
        while q < h
            invariant
                q <= h,
                col@ == Seq::new(q as nat, |i: int| false),
            decreases h - q,
        {
            col.push(false);
            q = q + 1;
            proof {
                assert(col@ =~= Seq::new(q as nat, |i: int| false));
            }
        }
        cols.push(col);
        c = c + 1;
    }
    proof {
        assert(grid_of(cols@) =~= dead_grid(w as int, h as int));
    }
    cols
}

impl Board {
    /// The board's invariant: both sides are positive, every column has
    /// `height` cells, and the cached count is the number of live cells.
    pub open spec fn wf(&self) -> bool {
        &&& 0 < self@.width <= 0xffff
        &&& 0 < self@.height <= 0xffff
        &&& has_shape(self@.cells, self@.width, self@.height)
        &&& self@.alive == count_grid(self@.cells)
    }

    proof fn lemma_view(&self)
        ensures
            self@.cells.len() == self.squares@.len(),
            forall|c: int| 0 <= c < self.squares@.len() ==> #[trigger] self@.cells[c] == self.squares@[c]@,
    {
    }

    /// Creates a board whose cell at `(col, row)` is `seed(col, row)`.
    /// Fails with `InvalidDimensions` when either side is zero.
    pub fn new<F: Fn(u16, u16) -> bool>(width: u16, height: u16, seed: F) -> (r: Result<Board, GridError>)
        requires
            forall|c: u16, rw: u16| c < width && rw < height ==> #[trigger] seed.requires((c, rw)),
        ensures
            r is Err <==> width == 0 || height == 0,
            r is Err ==> r->Err_0 == GridError::InvalidDimensions,
            r is Ok ==> {
                let b = r->Ok_0;
                &&& b.wf()
                &&& b@.width == width
                &&& b@.height == height
                &&& forall|c: u16, rw: u16|
                    c < width && rw < height ==> #[trigger] seed.ensures((c, rw), b@.cells[c as int][rw as int])
            },
    {
        if width == 0 || height == 0 {
            return Err(GridError::InvalidDimensions);
        }
        let mut squares: Vec<Vec<bool>> = Vec::new();
        let mut c: u16 = 0;
        while c < width
            invariant
                c <= width,
                squares@.len() == c,
                forall|k: u16, rw: u16| k < width && rw < height ==> #[trigger] seed.requires((k, rw)),
                forall|k: int| 0 <= k < c ==> (#[trigger] squares@[k])@.len() == height,
                forall|k: u16, rw: u16|
                    k < c && rw < height ==> #[trigger] seed.ensures((k, rw), squares@[k as int]@[rw as int]),
            decreases width - c,
        {
            let mut col: Vec<bool> = Vec::new();
            let mut rw: u16 = 0;
            while rw < height
                invariant
                    c < width,
                    rw <= height,
                    col@.len() == rw,
                    forall|k: u16, q: u16| k < width && q < height ==> #[trigger] seed.requires((k, q)),
                    forall|q: u16| q < rw ==> #[trigger] seed.ensures((c, q), col@[q as int]),
                decreases height - rw,
            {
                let v = seed(c, rw);
                col.push(v);
                rw = rw + 1;
            }
            squares.push(col);
            c = c + 1;
        }
        let ghost cells = grid_of(squares@);
        assert(has_shape(cells, width as int, height as int));
        let alive = count_live(&squares);
        let b = Board { squares_wide: width, squares_high: height, squares, alive_squares: alive };
        proof {
            assert forall|k: u16, q: u16| k < width && q < height implies #[trigger] seed.ensures((k, q), b@.cells[k as int][q as int]) by {
                assert(b@.cells[k as int] == b.squares@[k as int]@);
            }
        }
        Ok(b)
    }

    /// A board where the cells whose column and row have the same parity are
    /// live. Fails with `InvalidDimensions` when either side is zero.
    pub fn checkerboard(width: u16, height: u16) -> (r: Result<Board, GridError>)
        ensures
            r is Err <==> width == 0 || height == 0,
            r is Err ==> r->Err_0 == GridError::InvalidDimensions,
            r is Ok ==> r->Ok_0.wf() && r->Ok_0@.cells == checker_grid(width as int, height as int),
    {
        let seed = |c: u16, rw: u16| -> (v: bool)
            ensures
                v == ((c + rw) % 2 == 0),
            { (c as u32 + rw as u32) % 2 == 0 };
        let r = Board::new(width, height, seed);
        proof {
            if r is Ok {
                let b = r->Ok_0;
                let g = checker_grid(width as int, height as int);
                assert forall|c: int| 0 <= c < width implies #[trigger] b@.cells[c] =~= g[c] by {
                    assert forall|rw: int| 0 <= rw < height implies b@.cells[c][rw] == g[c][rw] by {
                        assert(seed.ensures((c as u16, rw as u16), b@.cells[c][rw]));
                    }
                }
                assert(b@.cells =~= g);
            }
        }
        r
    }

    /// The number of columns.
    pub fn width(&self) -> (r: u16)
        ensures
            r == self@.width,
    {
        self.squares_wide
    }

    /// The number of rows.
    pub fn height(&self) -> (r: u16)
        ensures
            r == self@.height,
    {
        self.squares_high
    }

    /// The number of live cells.
    pub fn alive_count(&self) -> (r: usize)
        ensures
            r == self@.alive,
    {
        self.alive_squares
    }

    /// The liveness of a cell known to lie on the board.
    pub fn is_alive(&self, col: usize, row: usize) -> (r: bool)
        requires
            self.wf(),
            in_bounds(self@.width, self@.height, col as int, row as int),
        ensures
            r == self@.cells[col as int][row as int],
    {
        proof {
            self.lemma_view();
            assert(self@.cells[col as int].len() == self@.height);
        }
        self.squares[col][row]
    }

    /// The liveness of a cell, or `OutOfBounds` where it lies off the board.
    pub fn get(&self, col: u16, row: u16) -> (r: Result<bool, GridError>)
        requires
            self.wf(),
        ensures
            r is Ok <==> in_bounds(self@.width, self@.height, col as int, row as int),
            r is Ok ==> r->Ok_0 == self@.cells[col as int][row as int],
            r is Err ==> r->Err_0 == GridError::OutOfBounds,
    {
        if col >= self.squares_wide || row >= self.squares_high {
            return Err(GridError::OutOfBounds);
        }
        Ok(self.is_alive(col as usize, row as usize))
    }

    /// Sets one cell to `value`; the live count moves by one exactly when the
    /// cell's liveness changes. Fails with `OutOfBounds`, leaving the board
    /// as it was, where the cell lies off the board.
    pub fn set(&mut self, col: u16, row: u16, value: bool) -> (r: Result<(), GridError>)
        requires
            old(self).wf(),
        ensures
            final(self).wf(),
            r is Ok <==> in_bounds(old(self)@.width, old(self)@.height, col as int, row as int),
            r is Err ==> r->Err_0 == GridError::OutOfBounds && *final(self) == *old(self),
            r is Ok ==> {
                &&& final(self)@.width == old(self)@.width
                &&& final(self)@.height == old(self)@.height
                &&& final(self)@.cells == set_cell(old(self)@.cells, col as int, row as int, value)
                &&& final(self)@.alive == old(self)@.alive - bit(old(self)@.cells[col as int][row as int]) + bit(value)
            },
    {
        if col >= self.squares_wide || row >= self.squares_high {
            return Err(GridError::OutOfBounds);
        }
        let c = col as usize;
        let rw = row as usize;
        proof {
            self.lemma_view();
            assert(self@.cells[c as int].len() == self@.height);
        }
        let ghost before = self@.cells;
        let cur = self.squares[c][rw];
        proof {
            let w = self@.width;
            let h = self@.height;
            let after = set_cell(before, c as int, rw as int, value);
            lemma_count_set_cell(before, c as int, rw as int, value);
            assert forall|k: int| 0 <= k < w implies #[trigger] after[k].len() == h by {
                assert(before[k].len() == h);
            }
            lemma_count_grid_bound(after, h);
            assert(w * h <= 0xffff * 0xffff) by (nonlinear_arith)
                requires
                    0 < w <= 0xffff,
                    0 < h <= 0xffff,
            ;
        }
        let mut column: Vec<bool> = Vec::new();
        self.squares.set_and_swap(c, &mut column);
        column.set(rw, value);
        self.squares.set(c, column);
        if cur && !value {
            self.alive_squares = self.alive_squares - 1;
        } else if !cur && value {
            self.alive_squares = self.alive_squares + 1;
        }
        proof {
            assert(self@.cells =~= set_cell(before, c as int, rw as int, value));
        }
        Ok(())
    }

    /// Flips one cell and returns its new liveness; the live count moves by
    /// one. Fails with `OutOfBounds`, leaving the board as it was, where the
    /// cell lies off the board.
    pub fn toggle(&mut self, col: u16, row: u16) -> (r: Result<bool, GridError>)
        requires
            old(self).wf(),
        ensures
            final(self).wf(),
            r is Ok <==> in_bounds(old(self)@.width, old(self)@.height, col as int, row as int),
            r is Err ==> r->Err_0 == GridError::OutOfBounds && *final(self) == *old(self),
            r is Ok ==> {
                let was = old(self)@.cells[col as int][row as int];
                &&& r->Ok_0 == !was
                &&& final(self)@.width == old(self)@.width
                &&& final(self)@.height == old(self)@.height
                &&& final(self)@.cells == set_cell(old(self)@.cells, col as int, row as int, !was)
                &&& final(self)@.alive == old(self)@.alive + if was { -1int } else { 1int }
            },
    {
        match self.get(col, row) {
            Err(e) => Err(e),
            Ok(cur) => {
                let _ = self.set(col, row, !cur);
                Ok(!cur)
            },
        }
    }

    /// Makes every cell dead; the live count becomes zero.
    pub fn clear(&mut self)
        requires
            old(self).wf(),
        ensures
            final(self).wf(),
            final(self)@.width == old(self)@.width,
            final(self)@.height == old(self)@.height,
            final(self)@.cells == dead_grid(old(self)@.width, old(self)@.height),
            final(self)@.alive == 0,
    {
        self.squares = dead_columns(self.squares_wide, self.squares_high);
        self.alive_squares = 0;
        proof {
            let w = self@.width;
            let h = self@.height;
            assert(has_shape(self@.cells, w, h));
            lemma_count_all_dead(self@.cells, w, h);
        }
    }

    /// Replaces every cell at once with `next[col][row]` and recounts the
    /// live cells. Fails with `InvalidDimensions`, leaving the board as it
    /// was, where `next` does not have the board's shape.
    pub fn replace_all(&mut self, next: Vec<Vec<bool>>) -> (r: Result<(), GridError>)
        requires
            old(self).wf(),
        ensures
            final(self).wf(),
            r is Ok <==> has_shape(grid_of(next@), old(self)@.width, old(self)@.height),
            r is Err ==> r->Err_0 == GridError::InvalidDimensions && *final(self) == *old(self),
            r is Ok ==> {
                &&& final(self)@.width == old(self)@.width
                &&& final(self)@.height == old(self)@.height
                &&& final(self)@.cells == grid_of(next@)
                &&& final(self)@.alive == count_grid(grid_of(next@))
            },
    {
        if !shape_matches(&next, self.squares_wide, self.squares_high) {
            return Err(GridError::InvalidDimensions);
        }
        proof {
            assert forall|c: int| 0 <= c < next@.len() implies (#[trigger] next@[c])@.len() <= 0xffff by {
                assert(grid_of(next@)[c].len() == self@.height);
            }
        }
        let alive = count_live(&next);
        self.squares = next;
        self.alive_squares = alive;
        Ok(())
    }
}

} // verus!
