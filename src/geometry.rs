use vstd::prelude::*;
use vstd::arithmetic::div_mod::{lemma_fundamental_div_mod, lemma_fundamental_div_mod_converse};

verus! {

/// A 1-based cell index: `x` is the column, `y` the row. Values outside
/// `[1, cell_count]` are representable and denote no cell.
#[derive(Clone, Copy, Debug, PartialEq, Eq, Structural, Hash)]
pub struct Coordinates {
    pub x: u8,
    pub y: u8,
}

impl Coordinates {
    pub fn new(x: u8, y: u8) -> (r: Self)
        ensures
            r.x == x,
            r.y == y,
    {
        Coordinates { x, y }
    }
}

/// Why a grid configuration was refused.
#[derive(Clone, Copy, Debug, PartialEq, Eq, Structural)]
pub enum GridError {
    ZeroCellSize,
    ZeroCellCount,
}

/// The fixed parameters of a square grid in whole world units: the edge of
/// one cell, the number of cells per side and the grid's center.
#[derive(Clone, Copy, Debug, PartialEq, Eq, Structural)]
pub struct GridConfig {
    pub cell_size: u16,
    pub cell_count: u8,
    pub center_x: i16,
    pub center_y: i16,
}

impl GridConfig {
    pub open spec fn wf(self) -> bool {
        self.cell_size > 0 && self.cell_count > 0
    }

    /// Edge length of the whole grid.
    pub open spec fn span(self) -> int {
        self.cell_count * self.cell_size
    }

    /// Left edge of the grid (half units round down).
    pub open spec fn origin_x(self) -> int {
        self.center_x - self.span() / 2
    }

    /// Bottom edge of the grid (half units round down).
    pub open spec fn origin_y(self) -> int {
        self.center_y - self.span() / 2
    }

    /// Center, along one axis, of the cell with 1-based index `a` on a grid
    /// whose edge on that axis lies at `origin`.
    pub open spec fn center_along(self, origin: int, a: int) -> int {
        origin + self.cell_size * (a - 1) + self.cell_size / 2
    }

    /// 1-based index, along one axis, of the cell that holds position `p`:
    /// the floor of `(p - origin) / cell_size`, plus one.
    pub open spec fn index_along(self, origin: int, p: int) -> int {
        (p - origin) / (self.cell_size as int) + 1
    }

    pub open spec fn on_grid(self, i: int) -> bool {
        1 <= i <= self.cell_count
    }

    proof fn lemma_span_bounds(self)
        ensures
            0 <= self.span() <= 255 * 65535,
    {
        assert(0 <= self.span() <= 255 * 65535) by (nonlinear_arith)
            requires
                0 <= self.cell_count <= 255,
                0 <= self.cell_size <= 65535,
                self.span() == self.cell_count * self.cell_size,
        ;
    }

    /// Builds a configuration; a zero cell size or a zero cell count is refused.
    pub fn new(cell_size: u16, cell_count: u8, center_x: i16, center_y: i16) -> (r: Result<
        GridConfig,
        GridError,
    >)
        ensures
            cell_size == 0 ==> r == Err::<GridConfig, GridError>(GridError::ZeroCellSize),
            cell_size != 0 && cell_count == 0 ==> r == Err::<GridConfig, GridError>(
                GridError::ZeroCellCount,
            ),
            cell_size != 0 && cell_count != 0 ==> r == Ok::<GridConfig, GridError>(
                (GridConfig { cell_size, cell_count, center_x, center_y }),
            ),
    {
        if cell_size == 0 {
            Err(GridError::ZeroCellSize)
        } else if cell_count == 0 {
            Err(GridError::ZeroCellCount)
        } else {
            Ok(GridConfig { cell_size, cell_count, center_x, center_y })
        }
    }

    /// Edge length of the whole grid.
    pub fn grid_span(&self) -> (r: i32)
        ensures
            r == self.span(),
            0 <= r <= 255 * 65535,
    {
        let n = self.cell_count as i32;
        let s = self.cell_size as i32;
        assert(0 <= n * s <= 255 * 65535) by (nonlinear_arith)
            requires
                0 <= n <= 255,
                0 <= s <= 65535,
        ;
        n * s
    }

    /// The grid's lower-left corner.
    pub fn origin(&self) -> (r: (i32, i32))
        ensures
            r.0 == self.origin_x(),
            r.1 == self.origin_y(),
    {
        let half = self.grid_span() / 2;
        (self.center_x as i32 - half, self.center_y as i32 - half)
    }

    /// World position of the center of cell `c`. Any value of `c` gives a
    /// position; whether it lies on the grid is for the caller to check.
    pub fn cell_to_world(&self, c: Coordinates) -> (r: (i32, i32))
        ensures
            r.0 == self.center_along(self.origin_x(), c.x as int),
            r.1 == self.center_along(self.origin_y(), c.y as int),
    {
        let (ox, oy) = self.origin();
        let s = self.cell_size as i32;
        proof {
            self.lemma_span_bounds();
            lemma_step_bounds(s as int, c.x as int - 1);
            lemma_step_bounds(s as int, c.y as int - 1);
        }
        (ox + s * (c.x as i32 - 1) + s / 2, oy + s * (c.y as i32 - 1) + s / 2)
    }

    /// The raw 1-based cell index of world position `(px, py)` on each axis.
    /// It is not clamped: a position off the grid gives an index outside
    /// `[1, cell_count]`.
    pub fn world_to_cell(&self, px: i32, py: i32) -> (r: (i64, i64))
        requires
            self.wf(),
        ensures
            r.0 == self.index_along(self.origin_x(), px as int),
            r.1 == self.index_along(self.origin_y(), py as int),
    {
        let (ox, oy) = self.origin();
        let s = self.cell_size as i64;
        (floor_div(px as i64 - ox as i64, s) + 1, floor_div(py as i64 - oy as i64, s) + 1)
    }

    /// The cell that holds world position `(px, py)`, if it lies on the grid.
    pub fn cell_at(&self, px: i32, py: i32) -> (r: Option<Coordinates>)
        requires
            self.wf(),
        ensures
            ({
                let ix = self.index_along(self.origin_x(), px as int);
                let iy = self.index_along(self.origin_y(), py as int);
                r == if self.on_grid(ix) && self.on_grid(iy) {
                    Some(Coordinates { x: ix as u8, y: iy as u8 })
                } else {
                    None
                }
            }),
    {
        let (ix, iy) = self.world_to_cell(px, py);
        let n = self.cell_count as i64;
        if 1 <= ix && ix <= n && 1 <= iy && iy <= n {
            Some(Coordinates { x: ix as u8, y: iy as u8 })
        } else {
            None
        }
    }
}

proof fn lemma_step_bounds(s: int, k: int)
    requires
        0 <= s <= 65535,
        -1 <= k <= 254,
    ensures
        -65535 <= s * k <= 65535 * 254,
{
    assert(-65535 <= s * k <= 65535 * 254) by (nonlinear_arith)
        requires
            0 <= s <= 65535,
            -1 <= k <= 254,
    ;
}

/// Floor of `d / s` for a positive `s`.
fn floor_div(d: i64, s: i64) -> (q: i64)
    requires
        0 < s <= 0x1_0000,
        -0x1_0000_0000_0000 <= d <= 0x1_0000_0000_0000,
    ensures
        q == d / s,
        -0x2_0000_0000_0000 <= q <= 0x1_0000_0000_0000,
{
    if d >= 0 {
        let q: u64 = (d as u64) / (s as u64);
        proof {
            lemma_fundamental_div_mod(d as int, s as int);
            assert(0 <= d % s < s);
            assert(q <= d) by (nonlinear_arith)
                requires
                    d == s * q + d % s,
                    0 <= d % s,
                    s >= 1,
                    q >= 0,
            ;
        }
        q as i64
    } else {
        let n: u64 = (0 - d) as u64;
        let su = s as u64;
        let m: u64 = (n + su - 1) / su;
        proof {
            let t = (n + su - 1) as int;
            lemma_fundamental_div_mod(t, s as int);
            assert(0 <= t % (s as int) < s);
            assert(m as int == t / (s as int));
            let r = d + m * s;
            assert(m <= t) by (nonlinear_arith)
                requires
                    t == (s as int) * (m as int) + t % (s as int),
                    0 <= t % (s as int),
                    s >= 1,
                    m >= 0,
            ;
            assert(d == (-(m as int)) * (s as int) + r) by (nonlinear_arith)
                requires
                    r == d + m * s,
            ;
            assert(0 <= r < s) by (nonlinear_arith)
                requires
                    t == (s as int) * (m as int) + t % (s as int),
                    0 <= t % (s as int) < s,
                    t == n + s - 1,
                    n == -d,
                    r == d + m * s,
            ;
            lemma_fundamental_div_mod_converse(d as int, s as int, -(m as int), r);
        }
        0 - (m as i64)
    }
}

/// Whether the cell at `row`, `column` takes the base shade of the
/// checkerboard of 5 by 5 blocks (the other blocks take the alternate one).
pub open spec fn style_of(row: int, column: int) -> bool {
    ((row - 1) / 5 + (column - 1) / 5) % 2 == 1
}

/// Shade of the checkerboard of 5 by 5 blocks at `row`, `column` (both
/// 1-based): `true` for the base shade.
pub fn get_cell_color(row: u8, column: u8) -> (r: bool)
    requires
        row >= 1,
        column >= 1,
    ensures
        r == style_of(row as int, column as int),
{
    let a: u8 = (row - 1) / 5;
    let b: u8 = (column - 1) / 5;
    assert(((a ^ b) & 1 == 1) == ((a + b) % 2 == 1)) by (bit_vector)
        requires
            a <= 51,
            b <= 51,
    ;
    (a ^ b) & 1 == 1
}

/// The round trip from a cell to its center and back gives the cell again,
/// on either axis.
pub proof fn lemma_cell_round_trip(cfg: GridConfig, c: Coordinates)
    requires
        cfg.wf(),
        cfg.on_grid(c.x as int),
        cfg.on_grid(c.y as int),
    ensures
        cfg.index_along(cfg.origin_x(), cfg.center_along(cfg.origin_x(), c.x as int)) == c.x,
        cfg.index_along(cfg.origin_y(), cfg.center_along(cfg.origin_y(), c.y as int)) == c.y,
{
    lemma_index_of_center(cfg, cfg.origin_x(), c.x as int);
    lemma_index_of_center(cfg, cfg.origin_y(), c.y as int);
}

proof fn lemma_index_of_center(cfg: GridConfig, origin: int, a: int)
    requires
        cfg.wf(),
    ensures
        cfg.index_along(origin, cfg.center_along(origin, a)) == a,
{
    let s = cfg.cell_size as int;
    assert((a - 1) * s + s / 2 == s * (a - 1) + s / 2) by (nonlinear_arith);
    lemma_fundamental_div_mod_converse(s * (a - 1) + s / 2, s, a - 1, s / 2);
}

/// A position strictly left of (or below) the grid's edge, or strictly past
/// its far edge, lies on no cell along that axis.
pub proof fn lemma_outside_is_off_grid(cfg: GridConfig, origin: int, p: int)
    requires
        cfg.wf(),
        p < origin || p > origin + cfg.span(),
    ensures
        !cfg.on_grid(cfg.index_along(origin, p)),
{
    let s = cfg.cell_size as int;
    let n = cfg.cell_count as int;
    let d = p - origin;
    lemma_fundamental_div_mod(d, s);
    let q = d / s;
    assert(0 <= d % s < s);
    if p < origin {
        assert(q < 0) by (nonlinear_arith)
            requires
                d == s * q + d % s,
                0 <= d % s < s,
                d < 0,
        ;
    } else {
        assert(q >= n) by (nonlinear_arith)
            requires
                d == s * q + d % s,
                0 <= d % s < s,
                d > n * s,
                s > 0,
        ;
    }
}

/// The shading alternates from one 5 by 5 block to the next along either
/// axis, and so repeats every 10 cells.
pub proof fn lemma_style_blocks(row: int, column: int)
    requires
        row >= 1,
        column >= 1,
    ensures
        style_of(row + 5, column) != style_of(row, column),
        style_of(row, column + 5) != style_of(row, column),
        style_of(row + 10, column) == style_of(row, column),
        style_of(row, column + 10) == style_of(row, column),
{
}

} // verus!
