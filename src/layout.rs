use vstd::prelude::*;

verus! {

/// Every board, composite or leaf, is a 3x3 grid.
pub const BOARD_CELLS: usize = 9;

/// Column of the cell stored at `index`, in `-1..=1`.
pub open spec fn cell_x(index: int) -> int {
    index / 3 - 1
}

/// Row of the cell stored at `index`, in `-1..=1`.
pub open spec fn cell_y(index: int) -> int {
    index % 3 - 1
}

/// Grid coordinates of the child stored at `index`. Children are stored
/// column by column: `x` runs over `-1..=1` in the outer position and `y`
/// in the inner one, so `index == (x + 1) * 3 + (y + 1)`.
pub fn cell_of(index: usize) -> (r: (i8, i8))
    requires
        index < BOARD_CELLS,
    ensures
        r.0 as int == cell_x(index as int),
        r.1 as int == cell_y(index as int),
        -1 <= r.0 <= 1,
        -1 <= r.1 <= 1,
        index as int == (r.0 + 1) * 3 + (r.1 + 1),
{
    let x = (index / 3) as i8 - 1;
    let y = (index % 3) as i8 - 1;
    (x, y)
}

} // verus!
