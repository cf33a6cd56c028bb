use vstd::prelude::*;

verus! {

/// The state of a cell in the next generation, given its state now and the
/// number of its neighbours that are alive now: alive with exactly three live
/// neighbours, or with exactly two when it is alive already; dead otherwise.
pub open spec fn next_state(cell: u8, live_neighbours: int) -> u8 {
    if live_neighbours == 3 || (live_neighbours == 2 && cell > 0) {
        1
    } else {
        0
    }
}

/// Moves one cell to its [`next_state`].
pub fn step_cell(cell: &mut u8, live_neighbours: &u8)
    ensures
        *final(cell) == next_state(*old(cell), *live_neighbours as int),
{
    if *live_neighbours == 3 || (*live_neighbours == 2 && *cell > 0) {
        *cell = 1;
    } else {
        *cell = 0;
    }
}

} // verus!
