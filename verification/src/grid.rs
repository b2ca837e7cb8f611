use vstd::prelude::*;

verus! {

/// Number of columns of the display grid.
pub const GRID_COLS: i32 = 28;
/// Number of rows of the display grid.
pub const GRID_ROWS: i32 = 14;
/// Number of cells of the display grid.
pub const GRID_CELLS: usize = 392;

/// A cell of the toroidal grid. A wrapped position satisfies `in_bounds`.
#[derive(PartialEq, Eq, Structural, Clone, Copy, Debug)]
pub struct Pos {
    pub x: i32,
    pub y: i32,
}

/// A movement vector; headings are restricted to the four cardinal units.
#[derive(PartialEq, Eq, Structural, Clone, Copy, Debug)]
pub struct Delta {
    pub dx: i32,
    pub dy: i32,
}

impl Pos {
    /// True iff the position lies on the grid.
    pub open spec fn in_bounds(self) -> bool {
        0 <= self.x < GRID_COLS && 0 <= self.y < GRID_ROWS
    }
}

impl Delta {
    /// True iff the vector is one of the four cardinal unit vectors.
    pub open spec fn is_cardinal(self) -> bool {
        (self.dx == 1 && self.dy == 0) || (self.dx == -1 && self.dy == 0)
            || (self.dx == 0 && self.dy == 1) || (self.dx == 0 && self.dy == -1)
    }
}

/// The position one step from `p` along `d`, before wrapping.
pub open spec fn pos_plus(p: Pos, d: Delta) -> Pos {
    Pos { x: (p.x + d.dx) as i32, y: (p.y + d.dy) as i32 }
}

/// The position one step from `p` against `d`, before wrapping.
pub open spec fn pos_minus(p: Pos, d: Delta) -> Pos {
    Pos { x: (p.x - d.dx) as i32, y: (p.y - d.dy) as i32 }
}

/// Wrapping a position onto the grid, coordinate by coordinate.
pub open spec fn wrap_spec(p: Pos) -> Pos {
    Pos {
        x: ((p.x as int) % (GRID_COLS as int)) as i32,
        y: ((p.y as int) % (GRID_ROWS as int)) as i32,
    }
}

/// Wraps one coordinate into `[0, m)` for a positive modulus `m`.
fn wrap_i32(v: i32, m: i32) -> (r: i32)
    requires
        0 < m,
    ensures
        r == (v as int) % (m as int),
        0 <= r < m,
{
    match v.checked_rem_euclid(m) {
        Some(r) => r,
        None => 0,
    }
}

/// Total wrapping of any position onto the grid (toroidal topology).
pub fn wrap(p: Pos) -> (r: Pos)
    ensures
        r == wrap_spec(p),
        r.in_bounds(),
{
    Pos { x: wrap_i32(p.x, GRID_COLS), y: wrap_i32(p.y, GRID_ROWS) }
}

/// Wrapping is idempotent: a wrapped position wraps to itself.
pub proof fn lemma_wrap_idempotent(p: Pos)
    ensures
        wrap_spec(wrap_spec(p)) == wrap_spec(p),
{
    assert(wrap_spec(wrap_spec(p)) == wrap_spec(p)) by {
        vstd::arithmetic::div_mod::lemma_mod_bound(p.x as int, GRID_COLS as int);
        vstd::arithmetic::div_mod::lemma_mod_bound(p.y as int, GRID_ROWS as int);
        vstd::arithmetic::div_mod::lemma_small_mod((wrap_spec(p).x) as nat, GRID_COLS as nat);
        vstd::arithmetic::div_mod::lemma_small_mod((wrap_spec(p).y) as nat, GRID_ROWS as nat);
    }
}

/// Row-major index of an in-bounds position in a rendered frame.
pub open spec fn cell_index(p: Pos) -> int {
    p.y * GRID_COLS + p.x
}

/// Distinct in-bounds positions have distinct row-major indices.
pub proof fn lemma_cell_index_injective(p: Pos, q: Pos)
    requires
        p.in_bounds(),
        q.in_bounds(),
        cell_index(p) == cell_index(q),
    ensures
        p == q,
{
}

} // verus!
