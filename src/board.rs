use vstd::prelude::*;
use vstd::arithmetic::div_mod::lemma_fundamental_div_mod_converse;
use crate::cell_index::{entry, without_cell, one_to_one, CellIndex};
use crate::solution::{filled, Solution};
use crate::geometry::{
    get_cell_color,
    lemma_outside_is_off_grid,
    style_of,
    Coordinates,
    GridConfig,
};

verus! {

/// Thickness of the grid lines at every fifth index.
pub const MAJOR_LINE_THICKNESS: u16 = 4;

/// Thickness of the other grid lines.
pub const MINOR_LINE_THICKNESS: u16 = 2;

/// The result of one qualifying pointer press: the cell under the pointer,
/// or none when the press fell off the grid or on a coordinate not indexed.
#[derive(Clone, Copy, Debug, PartialEq, Eq, Structural)]
pub struct CellClick {
    pub selected_cell: Option<u64>,
}

/// The cell that a press at world position `(px, py)` selects.
pub open spec fn selection(cfg: GridConfig, m: Map<Coordinates, u64>, px: int, py: int) -> Option<
    u64,
> {
    let ix = cfg.index_along(cfg.origin_x(), px);
    let iy = cfg.index_along(cfg.origin_y(), py);
    if cfg.on_grid(ix) && cfg.on_grid(iy) {
        entry(m, Coordinates { x: ix as u8, y: iy as u8 })
    } else {
        None
    }
}

/// Resolves a press at world position `(px, py)` to a cell of the index.
pub fn resolve_press(cfg: &GridConfig, index: &CellIndex, px: i32, py: i32) -> (r: Option<u64>)
    requires
        cfg.wf(),
        index.wf(),
    ensures
        r == selection(*cfg, index@, px as int, py as int),
{
    match cfg.cell_at(px, py) {
        Some(c) => index.lookup(c),
        None => None,
    }
}

/// One pass of click handling: when the primary button was just pressed and
/// the cursor's world position is known, one `CellClick` with the resolved
/// cell; otherwise no event.
pub fn cell_click(cfg: &GridConfig, index: &CellIndex, just_pressed: bool, cursor: Option<
    (i32, i32),
>) -> (r: Option<CellClick>)
    requires
        cfg.wf(),
        index.wf(),
    ensures
        r == (if just_pressed {
            match cursor {
                Some(p) => Some(
                    CellClick { selected_cell: selection(*cfg, index@, p.0 as int, p.1 as int) },
                ),
                None => None,
            }
        } else {
            None
        }),
{
    if !just_pressed {
        return None;
    }
    match cursor {
        Some((px, py)) => Some(CellClick { selected_cell: resolve_press(cfg, index, px, py) }),
        None => None,
    }
}

/// A press strictly outside the grid on either axis selects no cell.
pub proof fn lemma_press_outside_grid(
    cfg: GridConfig,
    m: Map<Coordinates, u64>,
    px: int,
    py: int,
)
    requires
        cfg.wf(),
        px < cfg.origin_x() || px > cfg.origin_x() + cfg.span() || py < cfg.origin_y() || py
            > cfg.origin_y() + cfg.span(),
    ensures
        selection(cfg, m, px, py) == None::<u64>,
{
    if px < cfg.origin_x() || px > cfg.origin_x() + cfg.span() {
        lemma_outside_is_off_grid(cfg, cfg.origin_x(), px);
    } else {
        lemma_outside_is_off_grid(cfg, cfg.origin_y(), py);
    }
}

/// The index after the cell `cell`, now centered at `(px, py)`, is filed
/// again: under the cell that holds that position, or nowhere when the
/// position is off the grid.
pub open spec fn reindexed(
    cfg: GridConfig,
    m: Map<Coordinates, u64>,
    cell: u64,
    px: int,
    py: int,
) -> Map<Coordinates, u64> {
    let ix = cfg.index_along(cfg.origin_x(), px);
    let iy = cfg.index_along(cfg.origin_y(), py);
    if cfg.on_grid(ix) && cfg.on_grid(iy) {
        without_cell(m, cell).insert(Coordinates { x: ix as u8, y: iy as u8 }, cell)
    } else {
        without_cell(m, cell)
    }
}

/// The index after each of `moved` (a cell and its new center) is filed
/// again, in order.
pub open spec fn reindexed_all(
    cfg: GridConfig,
    m: Map<Coordinates, u64>,
    moved: Seq<(u64, i32, i32)>,
) -> Map<Coordinates, u64>
    decreases moved.len(),
{
    if moved.len() == 0 {
        m
    } else {
        let (cell, px, py) = moved.last();
        reindexed(cfg, reindexed_all(cfg, m, moved.drop_last()), cell, px as int, py as int)
    }
}

/// Files again the cells whose positions changed: each is found afterwards
/// under the cell that holds its new center, and under no other coordinates.
pub fn index_cells(cfg: &GridConfig, index: &mut CellIndex, moved: &Vec<(u64, i32, i32)>)
    requires
        cfg.wf(),
        old(index).wf(),
    ensures
        final(index).wf(),
        final(index)@ == reindexed_all(*cfg, old(index)@, moved@),
        one_to_one(final(index)@),
{
    let mut i: usize = 0;
    while i < moved.len()
        invariant
            cfg.wf(),
            index.wf(),
            i <= moved.len(),
            index@ == reindexed_all(*cfg, old(index)@, moved@.take(i as int)),
        decreases moved.len() - i,
    {
        let (cell, px, py) = moved[i];
        match cfg.cell_at(px, py) {
            Some(c) => index.insert(c, cell),
            None => index.remove_cell(cell),
        }
        assert(moved@.take(i as int + 1).drop_last() =~= moved@.take(i as int));
        i = i + 1;
    }
    assert(moved@.take(i as int) =~= moved@);
    proof {
        index.lemma_view_one_to_one();
    }
}

/// Which way a grid line runs.
#[derive(Clone, Copy, Debug, PartialEq, Eq, Structural)]
pub enum Orientation {
    Horizontal,
    Vertical,
}

/// Placement of one grid line: its center and its extent.
#[derive(Clone, Copy, Debug, PartialEq, Eq, Structural)]
pub struct GridLine {
    pub orientation: Orientation,
    pub x: i32,
    pub y: i32,
    pub width: i32,
    pub height: i32,
}

/// Thickness of the line with this index: major at every fifth.
pub open spec fn line_thickness(index: int) -> int {
    if index % 5 == 0 {
        MAJOR_LINE_THICKNESS as int
    } else {
        MINOR_LINE_THICKNESS as int
    }
}

/// `l` is the grid line with this orientation and index. It spans the grid
/// plus its own thickness, so that lines meet without a gap at the corners.
pub open spec fn is_gridline(cfg: GridConfig, o: Orientation, index: int, l: GridLine) -> bool {
    let t = line_thickness(index);
    let length = cfg.span() + t;
    let offset = index * cfg.cell_size;
    &&& l.orientation == o
    &&& match o {
        Orientation::Horizontal => {
            &&& l.x == cfg.origin_x() + cfg.span() / 2
            &&& l.y == cfg.origin_y() + offset
            &&& l.width == length
            &&& l.height == t
        },
        Orientation::Vertical => {
            &&& l.x == cfg.origin_x() + offset
            &&& l.y == cfg.origin_y() + cfg.span() / 2
            &&& l.width == t
            &&& l.height == length
        },
    }
}

/// The grid line with this orientation and index (`0..=cell_count`).
pub fn new_gridline(cfg: &GridConfig, orientation: Orientation, index: u8) -> (r: GridLine)
    requires
        cfg.wf(),
        index <= cfg.cell_count,
    ensures
        is_gridline(*cfg, orientation, index as int, r),
{
    let thickness: i32 = if index % 5 == 0 {
        MAJOR_LINE_THICKNESS as i32
    } else {
        MINOR_LINE_THICKNESS as i32
    };
    let span = cfg.grid_span();
    let (ox, oy) = cfg.origin();
    let length = span + thickness;
    let s = cfg.cell_size as i32;
    let i = index as i32;
    assert(0 <= i * s <= 255 * 65535) by (nonlinear_arith)
        requires
            0 <= i <= 255,
            0 <= s <= 65535,
    ;
    let offset = i * s;
    match orientation {
        Orientation::Horizontal => GridLine {
            orientation,
            x: ox + span / 2,
            y: oy + offset,
            width: length,
            height: thickness,
        },
        Orientation::Vertical => GridLine {
            orientation,
            x: ox + offset,
            y: oy + span / 2,
            width: thickness,
            height: length,
        },
    }
}

/// All grid lines, for indices `0..=cell_count`: the horizontal line and then
/// the vertical line of each index in turn.
pub fn spawn_grid(cfg: &GridConfig) -> (r: Vec<GridLine>)
    requires
        cfg.wf(),
    ensures
        r.len() == 2 * (cfg.cell_count + 1),
        forall|k: int|
            0 <= k < r.len() ==> is_gridline(
                *cfg,
                if k % 2 == 0 {
                    Orientation::Horizontal
                } else {
                    Orientation::Vertical
                },
                k / 2,
                #[trigger] r[k],
            ),
{
    let mut lines: Vec<GridLine> = Vec::new();
    let mut i: u16 = 0;
    while i <= cfg.cell_count as u16
        invariant
            cfg.wf(),
            i <= cfg.cell_count + 1,
            lines.len() == 2 * i,
            forall|k: int|
                0 <= k < lines.len() ==> is_gridline(
                    *cfg,
                    if k % 2 == 0 {
                        Orientation::Horizontal
                    } else {
                        Orientation::Vertical
                    },
                    k / 2,
                    #[trigger] lines[k],
                ),
        decreases cfg.cell_count + 1 - i,
    {
        lines.push(new_gridline(cfg, Orientation::Horizontal, i as u8));
        lines.push(new_gridline(cfg, Orientation::Vertical, i as u8));
        i = i + 1;
    }
    lines
}

/// Placement of one cell: its coordinates, its center, its edge and its
/// shade (`true` for the base shade).
#[derive(Clone, Copy, Debug, PartialEq, Eq, Structural)]
pub struct CellPlacement {
    pub coordinates: Coordinates,
    pub x: i32,
    pub y: i32,
    pub size: u16,
    pub base_style: bool,
}

/// `p` is the placement of the cell at `row`, `column`.
pub open spec fn is_placement(cfg: GridConfig, row: int, column: int, p: CellPlacement) -> bool {
    &&& p.coordinates.x == column
    &&& p.coordinates.y == row
    &&& p.x == cfg.center_along(cfg.origin_x(), column)
    &&& p.y == cfg.center_along(cfg.origin_y(), row)
    &&& p.size == cfg.cell_size
    &&& p.base_style == style_of(row, column)
}

/// The placement of the cell at `row`, `column` (both 1-based).
pub fn cell_placement(cfg: &GridConfig, row: u8, column: u8) -> (r: CellPlacement)
    requires
        cfg.wf(),
        row >= 1,
        column >= 1,
    ensures
        is_placement(*cfg, row as int, column as int, r),
{
    let coordinates = Coordinates { x: column, y: row };
    let (x, y) = cfg.cell_to_world(coordinates);
    CellPlacement { coordinates, x, y, size: cfg.cell_size, base_style: get_cell_color(row, column) }
}

/// The placements of all `cell_count * cell_count` cells in row-major order:
/// entry `k` is the cell at row `k / cell_count + 1`, column
/// `k % cell_count + 1`.
pub fn spawn_cells(cfg: &GridConfig) -> (r: Vec<CellPlacement>)
    requires
        cfg.wf(),
    ensures
        r.len() == cfg.cell_count * cfg.cell_count,
        forall|k: int|
            0 <= k < r.len() ==> is_placement(
                *cfg,
                k / (cfg.cell_count as int) + 1,
                k % (cfg.cell_count as int) + 1,
                #[trigger] r[k],
            ),
{
    let n = cfg.cell_count as u16;
    let ghost ni = n as int;
    let mut cells: Vec<CellPlacement> = Vec::new();
    let mut row: u16 = 1;
    while row <= n
        invariant
            cfg.wf(),
            n == cfg.cell_count,
            ni == n,
            1 <= row <= n + 1,
            cells.len() == (row - 1) * ni,
            forall|k: int|
                0 <= k < cells.len() ==> is_placement(*cfg, k / ni + 1, k % ni + 1, #[trigger] cells[k]),
        decreases n + 1 - row,
    {
        let mut column: u16 = 1;
        while column <= n
            invariant
                cfg.wf(),
                n == cfg.cell_count,
                ni == n,
                1 <= row <= n,
                1 <= column <= n + 1,
                cells.len() == (row - 1) * ni + (column - 1),
                forall|k: int|
                    0 <= k < cells.len() ==> is_placement(*cfg, k / ni + 1, k % ni + 1, #[trigger] cells[k]),
            decreases n + 1 - column,
        {
            proof {
                let k = (row - 1) * ni + (column - 1);
                lemma_fundamental_div_mod_converse(k, ni, row - 1, column - 1);
            }
            cells.push(cell_placement(cfg, row as u8, column as u8));
            column = column + 1;
        }
        assert((row - 1) * ni + (column - 1) == row * ni) by (nonlinear_arith)
            requires
                column - 1 == ni,
        ;
        row = row + 1;
    }
    assert((row - 1) * ni == ni * ni);
    cells
}

/// The puzzle in play: its grid, its target pattern and the index of its
/// cells.
pub struct Board {
    pub config: GridConfig,
    pub solution: Solution,
    pub index: CellIndex,
}

impl Board {
    pub open spec fn wf(&self) -> bool {
        self.config.wf() && self.index.wf()
    }

    /// A board with no cell placed yet.
    pub fn new(config: GridConfig, solution: Solution) -> (r: Board)
        requires
            config.wf(),
        ensures
            r.wf(),
            r.config == config,
            r.solution == solution,
            r.index@ == Map::<Coordinates, u64>::empty(),
    {
        Board { config, solution, index: CellIndex::new() }
    }

    /// Records that the host placed `cell` at `c`.
    pub fn place_cell(&mut self, c: Coordinates, cell: u64)
        requires
            old(self).wf(),
        ensures
            final(self).wf(),
            final(self).config == old(self).config,
            final(self).solution == old(self).solution,
            final(self).index@ == without_cell(old(self).index@, cell).insert(c, cell),
    {
        self.index.insert(c, cell);
    }

    /// Files again the cells whose positions changed.
    pub fn cells_moved(&mut self, moved: &Vec<(u64, i32, i32)>)
        requires
            old(self).wf(),
        ensures
            final(self).wf(),
            final(self).config == old(self).config,
            final(self).solution == old(self).solution,
            final(self).index@ == reindexed_all(old(self).config, old(self).index@, moved@),
    {
        index_cells(&self.config, &mut self.index, moved);
    }

    /// Resolves one pass of pointer input, as `cell_click` does.
    pub fn click(&self, just_pressed: bool, cursor: Option<(i32, i32)>) -> (r: Option<CellClick>)
        requires
            self.wf(),
        ensures
            r == (if just_pressed {
                match cursor {
                    Some(p) => Some(
                        CellClick {
                            selected_cell: selection(self.config, self.index@, p.0 as int, p.1 as int),
                        },
                    ),
                    None => None,
                }
            } else {
                None
            }),
    {
        cell_click(&self.config, &self.index, just_pressed, cursor)
    }

    /// Whether the target pattern fills the cell at `c` (1-based), which is
    /// the tile at column `c.x - 1`, row `c.y - 1`; coordinates with a zero
    /// axis denote no cell and are not filled.
    pub fn solution_at(&self, c: Coordinates) -> (r: bool)
        ensures
            r == (c.x >= 1 && c.y >= 1 && filled(
                self.solution.tiles@,
                c.x - 1,
                c.y - 1,
            )),
    {
        if c.x == 0 || c.y == 0 {
            false
        } else {
            self.solution.lookup(((c.x - 1) as usize, (c.y - 1) as usize))
        }
    }
}

} // verus!
