//! The transition rule of a single cell.
use vstd::prelude::*;

verus! {

/// The next liveness of a cell that is `alive` now and has `n` live
/// neighbours: a live cell survives with two or three, a dead cell is born
/// with exactly three, every other cell is dead in the next generation.
pub open spec fn life_rule(alive: bool, n: int) -> bool {
    if alive {
        n == 2 || n == 3
    } else {
        n == 3
    }
}

/// Applies the transition rule to one cell.
pub fn next_state(alive: bool, neighbor_count: u8) -> (r: bool)
    requires
        neighbor_count <= 8,
    ensures
        r == life_rule(alive, neighbor_count as int),
        alive && neighbor_count < 2 ==> !r,
        alive && neighbor_count > 3 ==> !r,
        !alive && neighbor_count != 3 ==> !r,
{
    if alive {
        if neighbor_count < 2 {
            false
        } else if neighbor_count <= 3 {
            true
        } else {
            false
        }
    } else {
        neighbor_count == 3
    }
}

/// The rule is a function of the cell's liveness and its neighbour count
/// alone: the same pair always gives the same next state.
pub proof fn lemma_rule_deterministic(a1: bool, n1: int, a2: bool, n2: int)
    requires
        a1 == a2,
        n1 == n2,
    ensures
        life_rule(a1, n1) == life_rule(a2, n2),
{
}

} // verus!
