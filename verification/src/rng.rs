use vstd::prelude::*;
use crate::grid::{Delta, Pos, GRID_COLS, GRID_ROWS};

verus! {

/// Relies on rand::random_range: it returns a value inside the given range
/// and panics only when the range is empty, which `0 < n` rules out.
#[verifier::external_body]
pub(crate) fn random_index(n: usize) -> (r: usize)
    requires
        0 < n,
    ensures
        r < n,
{
    rand::random_range(0..n)
}

/// Relies on rand::random: it draws an arbitrary bool.
#[verifier::external_body]
pub(crate) fn random_bool() -> (r: bool) {
    rand::random()
}

/// Uniformly samples a cell of the grid.
pub fn random_position() -> (p: Pos)
    ensures
        p.in_bounds(),
{
    let x = random_index(GRID_COLS as usize);
    let y = random_index(GRID_ROWS as usize);
    Pos { x: x as i32, y: y as i32 }
}

/// Uniformly samples one of the four cardinal headings.
pub fn random_cardinal() -> (d: Delta)
    ensures
        d.is_cardinal(),
{
    let k = random_index(4);
    if k == 0 {
        Delta { dx: 1, dy: 0 }
    } else if k == 1 {
        Delta { dx: -1, dy: 0 }
    } else if k == 2 {
        Delta { dx: 0, dy: 1 }
    } else {
        Delta { dx: 0, dy: -1 }
    }
}

} // verus!
