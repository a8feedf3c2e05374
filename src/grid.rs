//! The mathematical model of a grid: a sequence of columns, each a sequence
//! of cells, addressed as `g[col][row]`.
use vstd::prelude::*;
use crate::rules::life_rule;

verus! {

/// The model of a grid held as a vector of columns.
pub open spec fn grid_of(v: Seq<Vec<bool>>) -> Seq<Seq<bool>> {
    Seq::new(v.len(), |c: int| v[c]@)
}

/// `g` has `w` columns of `h` cells each.
pub open spec fn has_shape(g: Seq<Seq<bool>>, w: int, h: int) -> bool {
    &&& g.len() == w
    &&& forall|c: int| 0 <= c < w ==> #[trigger] g[c].len() == h
}

/// The number of live cells in one column.
pub open spec fn count_col(s: Seq<bool>) -> nat
    decreases s.len(),
{
    if s.len() == 0 {
        0
    } else {
        count_col(s.drop_last()) + if s.last() { 1nat } else { 0nat }
    }
}

/// The number of live cells in a grid.
pub open spec fn count_grid(g: Seq<Seq<bool>>) -> nat
    decreases g.len(),
{
    if g.len() == 0 {
        0
    } else {
        count_grid(g.drop_last()) + count_col(g.last())
    }
}

/// Whether `(c, r)` lies on the grid and holds a live cell; every position
/// off the grid reads as dead.
pub open spec fn alive_at(g: Seq<Seq<bool>>, w: int, h: int, c: int, r: int) -> bool {
    0 <= c < w && 0 <= r < h && g[c][r]
}

/// One for a live cell, zero for a dead one.
pub open spec fn bit(b: bool) -> int {
    if b { 1 } else { 0 }
}

/// The number of live cells among the eight Moore neighbours of `(c, r)`,
/// with no wrap-around at the edges.
pub open spec fn neighbor_count(g: Seq<Seq<bool>>, w: int, h: int, c: int, r: int) -> int {
    bit(alive_at(g, w, h, c - 1, r - 1)) + bit(alive_at(g, w, h, c, r - 1))
        + bit(alive_at(g, w, h, c + 1, r - 1)) + bit(alive_at(g, w, h, c - 1, r))
        + bit(alive_at(g, w, h, c + 1, r)) + bit(alive_at(g, w, h, c - 1, r + 1))
        + bit(alive_at(g, w, h, c, r + 1)) + bit(alive_at(g, w, h, c + 1, r + 1))
}

/// The grid of neighbour counts of `g`.
pub open spec fn neighbor_grid(g: Seq<Seq<bool>>, w: int, h: int) -> Seq<Seq<int>> {
    Seq::new(w as nat, |c: int| Seq::new(h as nat, |r: int| neighbor_count(g, w, h, c, r)))
}

/// The generation that follows `g`: every cell takes the rule applied to its
/// own liveness and its neighbour count in `g`, all at once.
pub open spec fn next_grid(g: Seq<Seq<bool>>, w: int, h: int) -> Seq<Seq<bool>> {
    Seq::new(
        w as nat,
        |c: int| Seq::new(h as nat, |r: int| life_rule(g[c][r], neighbor_count(g, w, h, c, r))),
    )
}

/// A grid of `w` by `h` dead cells.
pub open spec fn dead_grid(w: int, h: int) -> Seq<Seq<bool>> {
    Seq::new(w as nat, |c: int| Seq::new(h as nat, |r: int| false))
}

/// Every cell of `g` is dead.
pub open spec fn all_dead(g: Seq<Seq<bool>>, w: int, h: int) -> bool {
    forall|c: int, r: int| 0 <= c < w && 0 <= r < h ==> !#[trigger] g[c][r]
}

/// The checkerboard seed: a cell is live where its column and row have the
/// same parity.
pub open spec fn checker_grid(w: int, h: int) -> Seq<Seq<bool>> {
    Seq::new(w as nat, |c: int| Seq::new(h as nat, |r: int| (c + r) % 2 == 0))
}

/// `g` with the cell at `(c, r)` set to `v`.
pub open spec fn set_cell(g: Seq<Seq<bool>>, c: int, r: int, v: bool) -> Seq<Seq<bool>> {
    g.update(c, g[c].update(r, v))
}

pub proof fn lemma_count_col_push(s: Seq<bool>, b: bool)
    ensures
        count_col(s.push(b)) == count_col(s) + bit(b),
{
    assert(s.push(b).drop_last() =~= s);
}

pub proof fn lemma_count_grid_push(g: Seq<Seq<bool>>, s: Seq<bool>)
    ensures
        count_grid(g.push(s)) == count_grid(g) + count_col(s),
{
    assert(g.push(s).drop_last() =~= g);
}

pub proof fn lemma_count_col_bound(s: Seq<bool>)
    ensures
        count_col(s) <= s.len(),
    decreases s.len(),
{
    if s.len() > 0 {
        lemma_count_col_bound(s.drop_last());
    }
}

pub proof fn lemma_count_grid_bound(g: Seq<Seq<bool>>, h: int)
    requires
        has_shape(g, g.len() as int, h),
    ensures
        count_grid(g) <= g.len() * h,
    decreases g.len(),
{
    if g.len() > 0 {
        let k = g.len() - 1;
        assert(g[k].len() == h);
        lemma_count_col_bound(g.last());
        assert(has_shape(g.drop_last(), k, h)) by {
            assert forall|c: int| 0 <= c < k implies #[trigger] g.drop_last()[c].len() == h by {
                assert(g[c].len() == h);
            }
        }
        lemma_count_grid_bound(g.drop_last(), h);
        assert(k * h + h == g.len() * h) by (nonlinear_arith)
            requires
                k == g.len() - 1,
        ;
    }
}

pub proof fn lemma_count_col_update(s: Seq<bool>, i: int, v: bool)
    requires
        0 <= i < s.len(),
    ensures
        count_col(s.update(i, v)) == count_col(s) - bit(s[i]) + bit(v),
    decreases s.len(),
{
    let t = s.update(i, v);
    if i == s.len() - 1 {
        assert(t.drop_last() =~= s.drop_last());
    } else {
        lemma_count_col_update(s.drop_last(), i, v);
        assert(t.drop_last() =~= s.drop_last().update(i, v));
    }
}

pub proof fn lemma_count_grid_update(g: Seq<Seq<bool>>, i: int, s: Seq<bool>)
    requires
        0 <= i < g.len(),
    ensures
        count_grid(g.update(i, s)) == count_grid(g) - count_col(g[i]) + count_col(s),
    decreases g.len(),
{
    let t = g.update(i, s);
    if i == g.len() - 1 {
        assert(t.drop_last() =~= g.drop_last());
    } else {
        lemma_count_grid_update(g.drop_last(), i, s);
        assert(t.drop_last() =~= g.drop_last().update(i, s));
    }
}

/// Setting one cell changes the live count by the difference of the two
/// values.
pub proof fn lemma_count_set_cell(g: Seq<Seq<bool>>, c: int, r: int, v: bool)
    requires
        0 <= c < g.len(),
        0 <= r < g[c].len(),
    ensures
        count_grid(set_cell(g, c, r, v)) == count_grid(g) - bit(g[c][r]) + bit(v),
{
    lemma_count_col_update(g[c], r, v);
    lemma_count_grid_update(g, c, g[c].update(r, v));
}

pub proof fn lemma_count_col_dead(s: Seq<bool>)
    requires
        forall|r: int| 0 <= r < s.len() ==> !#[trigger] s[r],
    ensures
        count_col(s) == 0,
    decreases s.len(),
{
    if s.len() > 0 {
        lemma_count_col_dead(s.drop_last());
    }
}

/// A grid with no live cell has a live count of zero.
pub proof fn lemma_count_all_dead(g: Seq<Seq<bool>>, w: int, h: int)
    requires
        has_shape(g, w, h),
        all_dead(g, w, h),
    ensures
        count_grid(g) == 0,
    decreases g.len(),
{
    if g.len() > 0 {
        let k = g.len() - 1;
        assert forall|r: int| 0 <= r < g[k].len() implies !#[trigger] g[k][r] by {
            assert(!g[k][r]);
        }
        lemma_count_col_dead(g[k]);
        let d = g.drop_last();
        assert(has_shape(d, k, h)) by {
            assert forall|c: int| 0 <= c < k implies #[trigger] d[c].len() == h by {
                assert(g[c].len() == h);
            }
        }
        assert(all_dead(d, k, h)) by {
            assert forall|c: int, r: int| 0 <= c < k && 0 <= r < h implies !#[trigger] d[c][r] by {
                assert(!g[c][r]);
            }
        }
        lemma_count_all_dead(d, k, h);
    }
}


/// Neighbour counts are local and never see past the edges: setting the cell
/// at `(x, y)` leaves the count of every cell unchanged but the (at most
/// eight) on-grid cells around it.
pub proof fn lemma_set_cell_reaches_neighbors_only(
    g: Seq<Seq<bool>>,
    w: int,
    h: int,
    x: int,
    y: int,
    v: bool,
    c: int,
    r: int,
)
    requires
        has_shape(g, w, h),
        0 <= x < w && 0 <= y < h,
        0 <= c < w && 0 <= r < h,
        (c == x && r == y) || c < x - 1 || c > x + 1 || r < y - 1 || r > y + 1,
    ensures
        neighbor_count(set_cell(g, x, y, v), w, h, c, r) == neighbor_count(g, w, h, c, r),
{
    let g2 = set_cell(g, x, y, v);
    assert forall|i: int, j: int|
        (i != x || j != y) && 0 <= i < w && 0 <= j < h implies #[trigger] g2[i][j] == g[i][j] by {
        if i == x {
            assert(g[x].len() == h);
        }
    }
}

/// A cell in a corner is a neighbour of three cells at most: changing the
/// corner `(0, 0)` can change the neighbour count of `(1, 0)`, `(0, 1)` and
/// `(1, 1)` only.
pub proof fn lemma_corner_reaches_three(g: Seq<Seq<bool>>, w: int, h: int, v: bool, c: int, r: int)
    requires
        has_shape(g, w, h),
        0 < w && 0 < h,
        0 <= c < w && 0 <= r < h,
        neighbor_count(set_cell(g, 0, 0, v), w, h, c, r) != neighbor_count(g, w, h, c, r),
    ensures
        (c == 1 && r == 0) || (c == 0 && r == 1) || (c == 1 && r == 1),
{
    if !((c == 1 && r == 0) || (c == 0 && r == 1) || (c == 1 && r == 1)) {
        lemma_set_cell_reaches_neighbors_only(g, w, h, 0, 0, v, c, r);
    }
}

/// A corner cell has at most three neighbours on the grid.
pub proof fn lemma_corner_count_at_most_three(g: Seq<Seq<bool>>, w: int, h: int)
    requires
        0 < w && 0 < h,
    ensures
        neighbor_count(g, w, h, 0, 0) <= 3,
        neighbor_count(g, w, h, w - 1, 0) <= 3,
        neighbor_count(g, w, h, 0, h - 1) <= 3,
        neighbor_count(g, w, h, w - 1, h - 1) <= 3,
{
}

/// The next state of a cell depends on its own liveness and its neighbour
/// count alone: two grids that agree on both give it the same next state.
pub proof fn lemma_next_cell_is_local(
    g1: Seq<Seq<bool>>,
    g2: Seq<Seq<bool>>,
    w: int,
    h: int,
    c: int,
    r: int,
)
    requires
        0 <= c < w && 0 <= r < h,
        g1[c][r] == g2[c][r],
        neighbor_count(g1, w, h, c, r) == neighbor_count(g2, w, h, c, r),
    ensures
        next_grid(g1, w, h)[c][r] == next_grid(g2, w, h)[c][r],
{
}

/// A live cell with no live neighbour is dead in the next generation.
pub proof fn lemma_isolated_cell_dies(g: Seq<Seq<bool>>, w: int, h: int, c: int, r: int)
    requires
        0 <= c < w && 0 <= r < h,
        g[c][r],
        neighbor_count(g, w, h, c, r) == 0,
    ensures
        !next_grid(g, w, h)[c][r],
{
}

/// No cell comes alive in a grid with no live cell: the next generation is
/// all dead again and holds no live cell.
pub proof fn lemma_dead_grid_stays_dead(g: Seq<Seq<bool>>, w: int, h: int)
    requires
        has_shape(g, w, h),
        0 <= h,
        all_dead(g, w, h),
    ensures
        next_grid(g, w, h) == dead_grid(w, h),
        count_grid(next_grid(g, w, h)) == 0,
{
    let n = next_grid(g, w, h);
    assert forall|c: int| 0 <= c < w implies #[trigger] n[c] =~= dead_grid(w, h)[c] by {
        assert forall|r: int| 0 <= r < h implies !n[c][r] by {
            assert(neighbor_count(g, w, h, c, r) == 0);
        }
    }
    assert(n =~= dead_grid(w, h));
    lemma_dead_grid_count(w, h);
}

/// A dead grid is all dead and holds no live cell.
pub proof fn lemma_dead_grid_count(w: int, h: int)
    requires
        0 <= w && 0 <= h,
    ensures
        has_shape(dead_grid(w, h), w, h),
        all_dead(dead_grid(w, h), w, h),
        count_grid(dead_grid(w, h)) == 0,
{
    lemma_count_all_dead(dead_grid(w, h), w, h);
}

/// Setting a cell twice to opposite values, the second time back to what it
/// held, gives the grid back.
pub proof fn lemma_set_cell_back(g: Seq<Seq<bool>>, c: int, r: int, v: bool)
    requires
        0 <= c < g.len(),
        0 <= r < g[c].len(),
    ensures
        set_cell(set_cell(g, c, r, v), c, r, g[c][r]) == g,
{
    let g1 = set_cell(g, c, r, v);
    assert(g1[c].update(r, g[c][r]) =~= g[c]);
    assert(set_cell(g1, c, r, g[c][r]) =~= g);
}

} // verus!
