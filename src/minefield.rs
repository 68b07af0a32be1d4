//! The objects that make up a minefield, and the random placement of mines.

use vstd::prelude::*;
use vstd::relations::injective;
use rand::seq::SliceRandom;
use crate::grid::{cells_of, positions, TileGrid};

verus! {

broadcast use vstd::seq_lib::group_seq_properties, vstd::seq_lib::group_to_multiset_ensures;

/// The dimensions of a minefield.
#[derive(Clone, Copy, Debug, PartialEq, Eq, Structural)]
pub struct FieldDimension {
    /// The width of the minefield.
    pub x: usize,
    /// The height of the minefield.
    pub y: usize,
}

/// Whether a tile is flagged, and the type of flag it has.
#[derive(Clone, Copy, Debug, PartialEq, Eq, Structural)]
pub enum TileFlagState {
    /// The player is certain this tile is a mine.
    Flagged,
    /// The player is unsure if this tile is a mine.
    Suspicious,
    /// The player has not flagged the tile.
    Empty,
}

/// Whether a tile is a mine, otherwise how many surrounding tiles are mines.
#[derive(Clone, Copy, Debug, PartialEq, Eq, Structural)]
pub enum TileMineState {
    /// The tile is a mine.
    Mine,
    /// The tile is not a mine; the number is how many of its neighbours are.
    Empty(u8),
}

/// A tile in the minefield of a real game.
#[derive(Clone, Copy, Debug, PartialEq, Eq, Structural)]
pub struct Tile {
    pub flag_state: TileFlagState,
    pub mine_state: TileMineState,
    pub is_visible: bool,
}

/// Why a minefield could not be made.
#[derive(Clone, Copy, Debug, PartialEq, Eq, Structural)]
pub enum MinefieldError {
    /// More mines were asked for than the field has tiles.
    InsufficientSpace,
}

/// Why revealing or flagging a tile did not happen.
#[derive(Clone, Copy, Debug, PartialEq, Eq, Structural)]
pub enum RevealError {
    /// The tile is already revealed.
    AlreadyVisible,
    /// The tile carries a flag, which must be removed before revealing it.
    Flagged,
    /// The game is won or lost; tiles no longer change.
    GameOver,
}

/// A hidden, unflagged tile with the given mine state.
pub open spec fn fresh_tile(m: TileMineState) -> Tile {
    Tile { flag_state: TileFlagState::Empty, mine_state: m, is_visible: false }
}

/// The position held in a pair of `usize` coordinates.
pub open spec fn pos(q: (usize, usize)) -> (int, int) {
    (q.0 as int, q.1 as int)
}

/// The first `n` positions of `order`.
pub open spec fn first_positions(order: Seq<(usize, usize)>, n: int) -> Set<(int, int)> {
    order.map_values(|q: (usize, usize)| pos(q)).subrange(0, n).to_set()
}

/// The positions of the tiles that are mines.
pub open spec fn mine_positions(cells: Map<(int, int), Tile>) -> Set<(int, int)> {
    cells.dom().filter(|p: (int, int)| cells[p].mine_state is Mine)
}

/// 1 when `(x, y)` is one of `mines`, else 0.
pub open spec fn mine_at(mines: Set<(int, int)>, x: int, y: int) -> int {
    if mines.contains((x, y)) { 1 } else { 0 }
}

/// How many of the eight neighbours of `(x, y)` are among `mines`.
pub open spec fn mines_around(mines: Set<(int, int)>, x: int, y: int) -> int {
    mine_at(mines, x - 1, y - 1) + mine_at(mines, x, y - 1) + mine_at(mines, x + 1, y - 1)
        + mine_at(mines, x - 1, y) + mine_at(mines, x + 1, y)
        + mine_at(mines, x - 1, y + 1) + mine_at(mines, x, y + 1) + mine_at(mines, x + 1, y + 1)
}

/// `p` is one of the eight neighbours of `q`.
spec fn near(p: (int, int), q: (int, int)) -> bool {
    &&& p != q
    &&& q.0 - 1 <= p.0 <= q.0 + 1
    &&& q.1 - 1 <= p.1 <= q.1 + 1
}

/// `p` comes before `(x, y)` when the positions are walked column by column.
spec fn swept(p: (int, int), x: int, y: int) -> bool {
    p.0 < x || (p.0 == x && p.1 < y)
}

/// The tile with its count of neighbouring mines raised by one (a mine is
/// left as it is).
spec fn bumped(t: Tile) -> Tile {
    match t.mine_state {
        TileMineState::Mine => t,
        TileMineState::Empty(s) => Tile { mine_state: TileMineState::Empty((s + 1) as u8), ..t },
    }
}

/// A well-formed minefield of `cols` by `rows` tiles holding `total` mines:
/// every tile that is not a mine knows how many of its neighbours are, and
/// no revealed tile carries a flag.
pub open spec fn field_wf(cols: int, rows: int, total: int, cells: Map<(int, int), Tile>) -> bool {
    &&& cells.dom() == positions(cols, rows)
    &&& mine_positions(cells).finite()
    &&& mine_positions(cells).len() == total
    &&& forall|p: (int, int)|
        #![trigger cells[p]]
        cells.contains_key(p) ==> (cells[p].mine_state matches TileMineState::Empty(s) ==> s
            == mines_around(mine_positions(cells), p.0, p.1))
    &&& forall|p: (int, int)|
        #![trigger cells[p]]
        cells.contains_key(p) && cells[p].is_visible ==> cells[p].flag_state == TileFlagState::Empty
}

/// The next flag in the cycle: none, flagged, suspicious, none again.
pub open spec fn next_flag(f: TileFlagState) -> TileFlagState {
    match f {
        TileFlagState::Empty => TileFlagState::Flagged,
        TileFlagState::Flagged => TileFlagState::Suspicious,
        TileFlagState::Suspicious => TileFlagState::Empty,
    }
}

/// Revealing the tile at `p`: the tiles afterwards, and the result. A
/// revealed or flagged tile is left as it is.
pub open spec fn reveal_cells(cells: Map<(int, int), Tile>, p: (int, int)) -> (Map<(int, int), Tile>, Result<TileMineState, RevealError>) {
    let t = cells[p];
    if t.is_visible {
        (cells, Err(RevealError::AlreadyVisible))
    } else if t.flag_state != TileFlagState::Empty {
        (cells, Err(RevealError::Flagged))
    } else {
        (cells.insert(p, Tile { is_visible: true, ..t }), Ok(t.mine_state))
    }
}

/// Cycling the flag of the tile at `p`: the tiles afterwards, and the new
/// flag. A revealed tile is left as it is.
pub open spec fn flag_cells(cells: Map<(int, int), Tile>, p: (int, int)) -> (Map<(int, int), Tile>, Result<TileFlagState, RevealError>) {
    let t = cells[p];
    if t.is_visible {
        (cells, Err(RevealError::AlreadyVisible))
    } else {
        (cells.insert(p, Tile { flag_state: next_flag(t.flag_state), ..t }), Ok(next_flag(t.flag_state)))
    }
}

/// Every tile that is not a mine is revealed.
pub open spec fn all_safe_visible(cells: Map<(int, int), Tile>) -> bool {
    forall|p: (int, int)|
        #[trigger] cells.contains_key(p) && cells[p].mine_state is Empty ==> cells[p].is_visible
}

impl Tile {
    /// Create a new hidden tile without a flag.
    pub fn new_unflagged(mine_state: TileMineState) -> (t: Tile)
        ensures
            t == fresh_tile(mine_state),
    {
        Tile { flag_state: TileFlagState::Empty, mine_state, is_visible: false }
    }
}

/// Relies on `rand::seq::SliceRandom::shuffle` with `rand::thread_rng()`:
/// the shuffle (Fisher-Yates) only swaps elements, so the result is a
/// permutation of the input. `thread_rng` panics only if the operating
/// system's source of randomness fails.
#[verifier::external_body]
fn shuffle_positions(v: &mut Vec<(usize, usize)>)
    ensures
        final(v)@.to_multiset() == old(v)@.to_multiset(),
{
    v.shuffle(&mut rand::thread_rng());
}

/// Every position of a `cols` by `rows` field, each once.
fn all_positions(cols: usize, rows: usize) -> (v: Vec<(usize, usize)>)
    requires
        cols * rows <= isize::MAX,
    ensures
        v@.len() == cols * rows,
        v@.no_duplicates(),
        forall|i: int| #![trigger v@[i]] 0 <= i < v@.len() ==> v@[i].0 < cols && v@[i].1 < rows,
{
    let mut v: Vec<(usize, usize)> = Vec::new();
    let mut x: usize = 0;
    while x < cols
        invariant
            x <= cols,
            cols * rows <= isize::MAX,
            v@.len() == x * rows,
            v@.no_duplicates(),
            forall|i: int| #![trigger v@[i]] 0 <= i < v@.len() ==> v@[i].0 < x && v@[i].1 < rows,
        decreases cols - x,
    {
        let mut y: usize = 0;
        while y < rows
            invariant
                x < cols,
                y <= rows,
                v@.len() == x * rows + y,
                v@.no_duplicates(),
                forall|i: int|
                    #![trigger v@[i]]
                    0 <= i < v@.len() ==> v@[i].1 < rows && (v@[i].0 < x || (v@[i].0 == x
                        && v@[i].1 < y)),
            decreases rows - y,
        {
            v.push((x, y));
            y += 1;
        }
        assert((x + 1) * rows == x * rows + rows) by (nonlinear_arith);
        assert((x + 1) * rows <= cols * rows) by (nonlinear_arith)
            requires
                x < cols,
        ;
        x += 1;
    }
    v
}

/// Raises by one the count of every neighbour of `(mx, my)` that is not a
/// mine.
fn bump_neighbours(tiles: &mut TileGrid, cols: usize, rows: usize, mx: usize, my: usize)
    requires
        mx < cols,
        my < rows,
        cells_of(*old(tiles)).dom() == positions(cols as int, rows as int),
        forall|p: (int, int)|
            #![trigger cells_of(*old(tiles))[p]]
            cells_of(*old(tiles)).contains_key(p) && near(p, (mx as int, my as int)) ==> (cells_of(
                *old(tiles),
            )[p].mine_state matches TileMineState::Empty(s) ==> s < 255),
    ensures
        cells_of(*final(tiles)).dom() == cells_of(*old(tiles)).dom(),
        forall|p: (int, int)|
            #![trigger cells_of(*final(tiles))[p]]
            cells_of(*old(tiles)).contains_key(p) ==> cells_of(*final(tiles))[p] == if near(
                p,
                (mx as int, my as int),
            ) {
                bumped(cells_of(*old(tiles))[p])
            } else {
                cells_of(*old(tiles))[p]
            },
{
    let ghost before = cells_of(*tiles);
    let ghost m = (mx as int, my as int);
    let x_end = if mx + 1 < cols { mx + 1 } else { cols - 1 };
    let y_end = if my + 1 < rows { my + 1 } else { rows - 1 };
    let y_start = if my > 0 { my - 1 } else { 0 };
    let mut x: usize = if mx > 0 { mx - 1 } else { 0 };
    while x <= x_end
        invariant
            mx < cols,
            my < rows,
            m == (mx as int, my as int),
            x_end == if mx + 1 < cols { mx + 1 } else { cols - 1 },
            y_end == if my + 1 < rows { my + 1 } else { rows - 1 },
            y_start == if my > 0 { my - 1 } else { 0 },
            mx - 1 <= x <= x_end + 1,
            before.dom() == positions(cols as int, rows as int),
            forall|p: (int, int)|
                #![trigger before[p]]
                before.contains_key(p) && near(p, m) ==> (before[p].mine_state matches TileMineState::Empty(
                    s,
                ) ==> s < 255),
            cells_of(*tiles).dom() == before.dom(),
            forall|p: (int, int)|
                #![trigger cells_of(*tiles)[p]]
                before.contains_key(p) ==> cells_of(*tiles)[p] == if near(p, m) && swept(p, x as int, 0) {
                    bumped(before[p])
                } else {
                    before[p]
                },
        decreases x_end + 1 - x,
    {
        let mut y: usize = y_start;
        while y <= y_end
            invariant
                mx < cols,
                my < rows,
                m == (mx as int, my as int),
                mx - 1 <= x <= x_end,
                x_end == if mx + 1 < cols { mx + 1 } else { cols - 1 },
                y_end == if my + 1 < rows { my + 1 } else { rows - 1 },
                y_start == if my > 0 { my - 1 } else { 0 },
                y_start <= y <= y_end + 1,
                before.dom() == positions(cols as int, rows as int),
                forall|p: (int, int)|
                    #![trigger before[p]]
                    before.contains_key(p) && near(p, m) ==> (before[p].mine_state matches TileMineState::Empty(
                        s,
                    ) ==> s < 255),
                cells_of(*tiles).dom() == before.dom(),
                forall|p: (int, int)|
                    #![trigger cells_of(*tiles)[p]]
                    before.contains_key(p) ==> cells_of(*tiles)[p] == if near(p, m) && swept(p, x as int, y as int) {
                        bumped(before[p])
                    } else {
                        before[p]
                    },
            decreases y_end + 1 - y,
        {
            let ghost p = (x as int, y as int);
            assert(before.contains_key(p));
            assert(cells_of(*tiles)[p] == before[p]);
            let t = *tiles.get(x, y).unwrap();
            if x != mx || y != my {
                assert(near(p, m));
                if let TileMineState::Empty(s) = t.mine_state {
                    tiles.set(x, y, Tile { mine_state: TileMineState::Empty(s + 1), ..t });
                }
            }
            y += 1;
            assert forall|q: (int, int)| before.contains_key(q) implies #[trigger] cells_of(*tiles)[q] == if near(q, m) && swept(q, x as int, y as int) {
                bumped(before[q])
            } else {
                before[q]
            } by {
                if q != p {
                    assert(swept(q, x as int, y as int) == swept(q, x as int, y - 1));
                }
            }
        }
        x += 1;
        assert forall|q: (int, int)| before.contains_key(q) implies #[trigger] cells_of(*tiles)[q] == if near(q, m) && swept(q, x as int, 0) {
            bumped(before[q])
        } else {
            before[q]
        } by {
            assert(positions(cols as int, rows as int).contains(q));
        }
    }
    assert forall|q: (int, int)| before.contains_key(q) implies #[trigger] cells_of(*tiles)[q] == if near(q, m) {
        bumped(before[q])
    } else {
        before[q]
    } by {
        assert(positions(cols as int, rows as int).contains(q));
    }
}

/// A minefield that is ready to be played on.
#[derive(Debug)]
pub struct Minefield {
    size: FieldDimension,
    total_mines: usize,
    tiles: TileGrid,
}

impl Minefield {
    /// The dimensions of the field.
    pub closed spec fn spec_size(&self) -> FieldDimension {
        self.size
    }

    /// How many mines the field holds.
    pub closed spec fn spec_total_mines(&self) -> usize {
        self.total_mines
    }

    /// The tiles of the field, by `(x, y)` position.
    pub closed spec fn cells(&self) -> Map<(int, int), Tile> {
        cells_of(self.tiles)
    }

    /// The field is well formed (see `field_wf`).
    pub open spec fn wf(&self) -> bool {
        field_wf(
            self.spec_size().x as int,
            self.spec_size().y as int,
            self.spec_total_mines() as int,
            self.cells(),
        )
    }

    /// Create a field of the given dimensions with `total_mines` mines placed
    /// uniformly at random, every tile hidden and unflagged. Fails exactly
    /// when there are more mines than tiles.
    pub fn new(size: FieldDimension, total_mines: usize) -> (r: Result<Minefield, MinefieldError>)
        requires
            size.x <= isize::MAX,
            size.y <= isize::MAX,
            size.x * size.y <= isize::MAX,
        ensures
            r is Err <==> total_mines > size.x * size.y,
            r matches Err(e) ==> e == MinefieldError::InsufficientSpace,
            r matches Ok(f) ==> {
                &&& f.wf()
                &&& f.spec_size() == size
                &&& f.spec_total_mines() == total_mines
                &&& forall|p: (int, int)|
                    #[trigger] f.cells().contains_key(p) ==> !f.cells()[p].is_visible
                        && f.cells()[p].flag_state == TileFlagState::Empty
            },
    {
        let cols = size.x;
        let rows = size.y;
        let mut all = all_positions(cols, rows);
        let ghost unshuffled = all@;
        shuffle_positions(&mut all);
        proof {
            unshuffled.lemma_multiset_has_no_duplicates();
            all@.lemma_multiset_has_no_duplicates_conv();
            assert(all@.to_multiset().len() == unshuffled.to_multiset().len());
            assert forall|i: int| 0 <= i < all@.len() implies #[trigger] all@[i].0 < cols && all@[i].1 < rows by {
                assert(all@.to_multiset().count(all@[i]) > 0);
                assert(unshuffled.contains(all@[i]));
            }
        }
        Minefield::from_order(size, total_mines, &all)
    }

    /// Create a field of the given dimensions whose mines are the first
    /// `total_mines` positions of `order`, an ordering of all the field's
    /// positions; every tile is hidden and unflagged. Fails exactly when
    /// there are more mines than tiles.
    pub fn from_order(size: FieldDimension, total_mines: usize, order: &Vec<(usize, usize)>) -> (r: Result<Minefield, MinefieldError>)
        requires
            size.x <= isize::MAX,
            size.y <= isize::MAX,
            size.x * size.y <= isize::MAX,
            order@.len() == size.x * size.y,
            order@.no_duplicates(),
            forall|i: int| #![trigger order@[i]] 0 <= i < order@.len() ==> order@[i].0 < size.x && order@[i].1 < size.y,
        ensures
            r is Err <==> total_mines > size.x * size.y,
            r matches Err(e) ==> e == MinefieldError::InsufficientSpace,
            r matches Ok(f) ==> {
                &&& f.wf()
                &&& f.spec_size() == size
                &&& f.spec_total_mines() == total_mines
                &&& mine_positions(f.cells()) == first_positions(order@, total_mines as int)
                &&& forall|p: (int, int)|
                    #[trigger] f.cells().contains_key(p) ==> !f.cells()[p].is_visible
                        && f.cells()[p].flag_state == TileFlagState::Empty
            },
    {
        let cols = size.x;
        let rows = size.y;
        let all = order;
        if total_mines > all.len() {
            return Err(MinefieldError::InsufficientSpace);
        }
        let ghost pts = all@.map_values(|q: (usize, usize)| pos(q));
        proof {
            assert(injective(|q: (usize, usize)| pos(q)));
            all@.lemma_no_duplicates_injective(|q: (usize, usize)| pos(q));
        }
        let mut tiles = TileGrid::filled(cols, rows, Tile::new_unflagged(TileMineState::Empty(0)));

        // Place the mines at the first `total_mines` shuffled positions.
        let mut i: usize = 0;
        while i < total_mines
            invariant
                i <= total_mines <= all@.len(),
                pts == all@.map_values(|q: (usize, usize)| pos(q)),
                pts.no_duplicates(),
                forall|j: int| #![trigger all@[j]] 0 <= j < all@.len() ==> all@[j].0 < cols && all@[j].1 < rows,
                cells_of(tiles).dom() == positions(cols as int, rows as int),
                forall|p: (int, int)|
                    #[trigger] cells_of(tiles).contains_key(p) ==> cells_of(tiles)[p] == fresh_tile(
                        if pts.subrange(0, i as int).to_set().contains(p) {
                            TileMineState::Mine
                        } else {
                            TileMineState::Empty(0)
                        },
                    ),
            decreases total_mines - i,
        {
            let (x, y) = all[i];
            tiles.set(x, y, Tile::new_unflagged(TileMineState::Mine));
            proof {
                assert(pts.subrange(0, i + 1) == pts.subrange(0, i as int).push(pts[i as int]));
            }
            i += 1;
        }
        let ghost mines = pts.subrange(0, total_mines as int).to_set();
        proof {
            let c = cells_of(tiles);
            assert forall|q: (int, int)| mines.contains(q) implies #[trigger] mine_positions(c).contains(q) by {
                let j = choose|j: int| 0 <= j < total_mines && #[trigger] pts[j] == q;
                assert(pts.subrange(0, total_mines as int)[j] == q);
                assert(positions(cols as int, rows as int).contains(q));
            }
            assert(mine_positions(c) =~= mines);
            pts.subrange(0, total_mines as int).unique_seq_to_set();
        }

        // Count, for every tile that is not a mine, its neighbouring mines.
        let mut i: usize = 0;
        while i < total_mines
            invariant
                i <= total_mines <= all@.len(),
                pts == all@.map_values(|q: (usize, usize)| pos(q)),
                pts.no_duplicates(),
                forall|j: int| #![trigger all@[j]] 0 <= j < all@.len() ==> all@[j].0 < cols && all@[j].1 < rows,
                cells_of(tiles).dom() == positions(cols as int, rows as int),
                mines == pts.subrange(0, total_mines as int).to_set(),
                mine_positions(cells_of(tiles)) == mines,
                forall|p: (int, int)|
                    #![trigger cells_of(tiles)[p]]
                    cells_of(tiles).contains_key(p) ==> {
                        &&& !cells_of(tiles)[p].is_visible
                        &&& cells_of(tiles)[p].flag_state == TileFlagState::Empty
                        &&& (cells_of(tiles)[p].mine_state matches TileMineState::Empty(s) ==> s
                            == mines_around(pts.subrange(0, i as int).to_set(), p.0, p.1))
                    },
            decreases total_mines - i,
        {
            let (mx, my) = all[i];
            let ghost before = cells_of(tiles);
            let ghost m = pts[i as int];
            let ghost placed = pts.subrange(0, i as int).to_set();
            proof {
                assert(pts.subrange(0, i + 1) == pts.subrange(0, i as int).push(m));
                assert(!placed.contains(m));
            }
            bump_neighbours(&mut tiles, cols, rows, mx, my);
            proof {
                let after = cells_of(tiles);
                assert(pts.subrange(0, i + 1).to_set() == placed.insert(m));
                assert(mine_positions(after) == mine_positions(before));
            }
            i += 1;
        }
        Ok(Minefield { size, total_mines, tiles })
    }

    /// The dimensions of the field.
    pub fn size(&self) -> (r: FieldDimension)
        ensures
            r == self.spec_size(),
    {
        self.size
    }

    /// How many mines the field holds.
    pub fn total_mines(&self) -> (r: usize)
        ensures
            r == self.spec_total_mines(),
    {
        self.total_mines
    }

    /// The tile at `(x, y)`, or `None` outside the field.
    pub fn get_tile(&self, x: usize, y: usize) -> (r: Option<&Tile>)
        requires
            self.wf(),
        ensures
            x < self.spec_size().x && y < self.spec_size().y ==> r == Some(&self.cells()[(x as int, y as int)]),
            !(x < self.spec_size().x && y < self.spec_size().y) ==> r.is_none(),
    {
        self.tiles.get(x, y)
    }

    /// Reveal the tile at `(x, y)` and return its mine state; fails when the
    /// tile is already revealed or carries a flag.
    pub fn reveal_tile(&mut self, x: usize, y: usize) -> (r: Result<TileMineState, RevealError>)
        requires
            old(self).wf(),
            x < old(self).spec_size().x,
            y < old(self).spec_size().y,
        ensures
            final(self).wf(),
            final(self).spec_size() == old(self).spec_size(),
            final(self).spec_total_mines() == old(self).spec_total_mines(),
            (final(self).cells(), r) == reveal_cells(old(self).cells(), (x as int, y as int)),
    {
        let ghost before = self.cells();
        assert(before.contains_key((x as int, y as int)));
        let t = *self.tiles.get(x, y).unwrap();
        if t.is_visible {
            Err(RevealError::AlreadyVisible)
        } else if t.flag_state != TileFlagState::Empty {
            Err(RevealError::Flagged)
        } else {
            self.tiles.set(x, y, Tile { is_visible: true, ..t });
            assert(self.cells().dom() =~= before.dom());
            assert(mine_positions(self.cells()) =~= mine_positions(before));
            Ok(t.mine_state)
        }
    }

    /// Move the flag of the tile at `(x, y)` on to the next one in the cycle
    /// none, flagged, suspicious, and return it; fails when the tile is
    /// already revealed.
    pub fn cycle_flag(&mut self, x: usize, y: usize) -> (r: Result<TileFlagState, RevealError>)
        requires
            old(self).wf(),
            x < old(self).spec_size().x,
            y < old(self).spec_size().y,
        ensures
            final(self).wf(),
            final(self).spec_size() == old(self).spec_size(),
            final(self).spec_total_mines() == old(self).spec_total_mines(),
            (final(self).cells(), r) == flag_cells(old(self).cells(), (x as int, y as int)),
    {
        let ghost before = self.cells();
        assert(before.contains_key((x as int, y as int)));
        let t = *self.tiles.get(x, y).unwrap();
        if t.is_visible {
            Err(RevealError::AlreadyVisible)
        } else {
            let flag = match t.flag_state {
                TileFlagState::Empty => TileFlagState::Flagged,
                TileFlagState::Flagged => TileFlagState::Suspicious,
                TileFlagState::Suspicious => TileFlagState::Empty,
            };
            self.tiles.set(x, y, Tile { flag_state: flag, ..t });
            assert(self.cells().dom() =~= before.dom());
            assert(mine_positions(self.cells()) =~= mine_positions(before));
            Ok(flag)
        }
    }

    /// Whether every tile that is not a mine has been revealed.
    pub fn all_safe_revealed(&self) -> (r: bool)
        requires
            self.wf(),
        ensures
            r == all_safe_visible(self.cells()),
    {
        let cols = self.size.x;
        let rows = self.size.y;
        let mut x: usize = 0;
        while x < cols
            invariant
                self.wf(),
                cols == self.spec_size().x,
                rows == self.spec_size().y,
                x <= cols,
                forall|p: (int, int)|
                    #[trigger] self.cells().contains_key(p) && p.0 < x && self.cells()[p].mine_state is Empty
                        ==> self.cells()[p].is_visible,
            decreases cols - x,
        {
            let mut y: usize = 0;
            while y < rows
                invariant
                    self.wf(),
                    cols == self.spec_size().x,
                    rows == self.spec_size().y,
                    x < cols,
                    y <= rows,
                    forall|p: (int, int)|
                        #[trigger] self.cells().contains_key(p) && swept(p, x as int, y as int)
                            && self.cells()[p].mine_state is Empty ==> self.cells()[p].is_visible,
                decreases rows - y,
            {
                assert(self.cells().contains_key((x as int, y as int)));
                let t = self.tiles.get(x, y).unwrap();
                if !t.is_visible {
                    if let TileMineState::Empty(_) = t.mine_state {
                        return false;
                    }
                }
                y += 1;
            }
            x += 1;
        }
        true
    }
}

} // verus!
