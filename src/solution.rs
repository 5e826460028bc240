use vstd::prelude::*;

verus! {

/// Whether the tile at column `x`, row `y` is filled; a position outside the
/// stored rows and columns is not filled.
pub open spec fn filled(tiles: Seq<Vec<u8>>, x: int, y: int) -> bool {
    &&& 0 <= y < tiles.len()
    &&& 0 <= x < tiles[y]@.len()
    &&& tiles[y]@[x] > 0
}

/// The target pattern of a puzzle, addressed `tiles[row][column]`.
pub struct Solution {
    /// Width and height as given; lookups go by the stored rows instead.
    pub size: (usize, usize),
    pub tiles: Vec<Vec<u8>>,
}

impl Solution {
    pub fn new(size: (usize, usize), tiles: Vec<Vec<u8>>) -> (r: Self)
        ensures
            r.size == size,
            r.tiles@ == tiles@,
    {
        Self { size, tiles }
    }

    /// Whether the tile at `(column, row)` is filled. Any pair is a valid
    /// query: one outside the stored rows or columns gives `false`.
    pub fn lookup(&self, tile_coord: (usize, usize)) -> (r: bool)
        ensures
            r == filled(self.tiles@, tile_coord.0 as int, tile_coord.1 as int),
    {
        let (x, y) = tile_coord;
        if y < self.tiles.len() {
            let row = &self.tiles[y];
            if x < row.len() {
                return row[x] > 0;
            }
        }
        false
    }
}

/// A position past the stored rows, or past the columns of its row, is never
/// filled.
pub proof fn lemma_out_of_bounds_not_filled(tiles: Seq<Vec<u8>>, x: int, y: int)
    requires
        y >= tiles.len() || (0 <= y < tiles.len() && x >= tiles[y]@.len()),
    ensures
        !filled(tiles, x, y),
{
}

} // verus!
