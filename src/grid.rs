//! The two-dimensional array of tiles, held in an `ndarray::Array2`.

use vstd::prelude::*;
use ndarray::Array2;
use crate::minefield::Tile;

verus! {

/// A two-dimensional array of tiles, indexed by `(x, y)`.
///
/// Verus cannot declare `ndarray::ArrayBase` (its `RawData` bound), so the
/// array is held in a private field that Verus does not see; what it holds
/// is given by `cells_of`.
#[verifier::external_body]
#[derive(Debug)]
pub struct TileGrid {
    tiles: Array2<Tile>,
}

/// The tiles that a grid holds, by `(x, y)` position. The keys are exactly
/// the positions inside the array's shape.
pub uninterp spec fn cells_of(g: TileGrid) -> Map<(int, int), Tile>;

/// The positions `(x, y)` with `0 <= x < cols` and `0 <= y < rows`.
pub open spec fn positions(cols: int, rows: int) -> Set<(int, int)> {
    Set::new(|p: (int, int)| 0 <= p.0 < cols && 0 <= p.1 < rows)
}

impl TileGrid {
    /// The tiles of the grid, by position.
    pub open spec fn cells(self) -> Map<(int, int), Tile> {
        cells_of(self)
    }

    /// Relies on `Array2::from_elem`: an array of shape `(cols, rows)` whose
    /// elements are all copies of `tile`. It panics only when the product of
    /// the non-zero axis lengths overflows `isize`.
    #[verifier::external_body]
    pub(crate) fn filled(cols: usize, rows: usize, tile: Tile) -> (g: TileGrid)
        requires
            cols <= isize::MAX,
            rows <= isize::MAX,
            cols * rows <= isize::MAX,
        ensures
            cells_of(g).dom() == positions(cols as int, rows as int),
            forall|p: (int, int)| #[trigger] cells_of(g).contains_key(p) ==> cells_of(g)[p] == tile,
    {
        TileGrid { tiles: Array2::from_elem((cols, rows), tile) }
    }

    /// Relies on `ArrayBase::get`: the element at `(x, y)`, or `None` when the
    /// position lies outside the array's shape.
    #[verifier::external_body]
    pub(crate) fn get(&self, x: usize, y: usize) -> (r: Option<&Tile>)
        ensures
            cells_of(*self).contains_key((x as int, y as int))
                ==> r == Some(&cells_of(*self)[(x as int, y as int)]),
            !cells_of(*self).contains_key((x as int, y as int)) ==> r.is_none(),
    {
        self.tiles.get((x, y))
    }

    /// Relies on `IndexMut` of `ArrayBase`: overwrites the element at
    /// `(x, y)`, which must lie inside the array's shape (else it panics).
    #[verifier::external_body]
    pub(crate) fn set(&mut self, x: usize, y: usize, tile: Tile)
        requires
            cells_of(*old(self)).contains_key((x as int, y as int)),
        ensures
            cells_of(*final(self)) == cells_of(*old(self)).insert((x as int, y as int), tile),
    {
        self.tiles[[x, y]] = tile;
    }
}

} // verus!
