//! A whole game: a minefield, a cursor and the status of the game.

use vstd::prelude::*;
use crate::minefield::{
    all_safe_visible, field_wf, flag_cells, reveal_cells, FieldDimension, Minefield,
    MinefieldError, RevealError, Tile, TileFlagState, TileMineState,
};

verus! {

/// The current status of the game.
#[derive(Clone, Copy, Debug, PartialEq, Eq, Structural)]
pub enum GameState {
    /// The player won the game.
    Win,
    /// The player lost the game.
    Loss,
    /// The game is still in progress.
    Playing,
}

impl Default for GameState {
    /// A game starts out in progress.
    fn default() -> (r: GameState)
        ensures
            r == GameState::Playing,
    {
        GameState::Playing
    }
}

/// A cursor which has a tile selected on the minefield.
#[derive(Clone, Copy, Debug, PartialEq, Eq, Structural)]
pub struct Cursor {
    /// The horizontal position.
    pub x: usize,
    /// The vertical position.
    pub y: usize,
}

impl Cursor {
    /// A cursor in the middle of the minefield.
    pub fn new(minefield: &Minefield) -> (c: Cursor)
        ensures
            c.x == minefield.spec_size().x / 2,
            c.y == minefield.spec_size().y / 2,
    {
        let size = minefield.size();
        Cursor { x: size.x / 2, y: size.y / 2 }
    }
}

/// What a game is, as a mathematical value.
pub struct GameView {
    pub state: GameState,
    /// The cursor's `(x, y)` position.
    pub cursor: (int, int),
    /// The width of the field.
    pub cols: int,
    /// The height of the field.
    pub rows: int,
    pub total_mines: int,
    /// The tiles, by `(x, y)` position.
    pub cells: Map<(int, int), Tile>,
}

/// No revealed tile is a mine.
pub open spec fn no_mine_visible(cells: Map<(int, int), Tile>) -> bool {
    forall|p: (int, int)|
        #[trigger] cells.contains_key(p) && cells[p].is_visible ==> cells[p].mine_state is Empty
}

/// The invariant of every game: a well-formed field of at least one tile,
/// the cursor on it, no mine revealed unless the game is lost, and every
/// tile that is not a mine revealed when it is won.
pub open spec fn game_wf(g: GameView) -> bool {
    &&& g.cols > 0
    &&& g.rows > 0
    &&& field_wf(g.cols, g.rows, g.total_mines, g.cells)
    &&& 0 <= g.cursor.0 < g.cols
    &&& 0 <= g.cursor.1 < g.rows
    &&& g.state != GameState::Loss ==> no_mine_visible(g.cells)
    &&& g.state == GameState::Win ==> all_safe_visible(g.cells)
}

/// `v` held to `0..=hi`.
pub open spec fn clamp(v: int, hi: int) -> int {
    if v < 0 {
        0
    } else if v > hi {
        hi
    } else {
        v
    }
}

/// The game with the cursor moved as near to `(x, y)` as the field allows.
pub open spec fn move_to(g: GameView, x: int, y: int) -> GameView {
    GameView { cursor: (clamp(x, g.cols - 1), clamp(y, g.rows - 1)), ..g }
}

/// Revealing the tile under the cursor: the game afterwards, and the result.
/// A mine loses the game; the last hidden tile that is not a mine wins it.
/// Once the game is over nothing changes.
pub open spec fn reveal_step(g: GameView) -> (GameView, Result<TileMineState, RevealError>) {
    if g.state != GameState::Playing {
        (g, Err(RevealError::GameOver))
    } else {
        let (cells, r) = reveal_cells(g.cells, g.cursor);
        let state = match r {
            Ok(TileMineState::Mine) => GameState::Loss,
            Ok(TileMineState::Empty(_)) => if all_safe_visible(cells) {
                GameState::Win
            } else {
                GameState::Playing
            },
            Err(_) => GameState::Playing,
        };
        (GameView { state, cells, ..g }, r)
    }
}

/// Cycling the flag of the tile under the cursor: the game afterwards, and
/// the new flag. Once the game is over nothing changes.
pub open spec fn flag_step(g: GameView) -> (GameView, Result<TileFlagState, RevealError>) {
    if g.state != GameState::Playing {
        (g, Err(RevealError::GameOver))
    } else {
        let (cells, r) = flag_cells(g.cells, g.cursor);
        (GameView { cells, ..g }, r)
    }
}

/// `g2` follows from `g1` by one of the game's actions.
pub open spec fn step(g1: GameView, g2: GameView) -> bool {
    ||| exists|x: int, y: int| g2 == #[trigger] move_to(g1, x, y)
    ||| g2 == reveal_step(g1).0
    ||| g2 == flag_step(g1).0
}

/// A game of minesweeper.
#[derive(Debug)]
pub struct Game {
    state: GameState,
    cursor: Cursor,
    minefield: Minefield,
}

impl View for Game {
    type V = GameView;

    closed spec fn view(&self) -> GameView {
        GameView {
            state: self.state,
            cursor: (self.cursor.x as int, self.cursor.y as int),
            cols: self.minefield.spec_size().x as int,
            rows: self.minefield.spec_size().y as int,
            total_mines: self.minefield.spec_total_mines() as int,
            cells: self.minefield.cells(),
        }
    }
}

impl Game {
    /// The game is well formed (see `game_wf`).
    pub open spec fn wf(&self) -> bool {
        game_wf(self@)
    }

    /// Start a game on a minefield in which no mine is revealed, with the
    /// cursor in the middle.
    pub fn from_minefield(minefield: Minefield) -> (g: Game)
        requires
            minefield.wf(),
            minefield.spec_size().x > 0,
            minefield.spec_size().y > 0,
            no_mine_visible(minefield.cells()),
        ensures
            g.wf(),
            g@.state == GameState::Playing,
            g@.cursor == ((minefield.spec_size().x / 2) as int, (minefield.spec_size().y / 2) as int),
            g@.cols == minefield.spec_size().x,
            g@.rows == minefield.spec_size().y,
            g@.total_mines == minefield.spec_total_mines(),
            g@.cells == minefield.cells(),
    {
        let cursor = Cursor::new(&minefield);
        Game { state: GameState::Playing, cursor, minefield }
    }

    /// Start a game on a new `size.x` by `size.y` field with `mine_count`
    /// randomly placed mines. Fails exactly when there are more mines than
    /// tiles.
    pub fn new(size: FieldDimension, mine_count: usize) -> (r: Result<Game, MinefieldError>)
        requires
            size.x > 0,
            size.y > 0,
            size.x * size.y <= isize::MAX,
        ensures
            r is Err <==> mine_count > size.x * size.y,
            r matches Err(e) ==> e == MinefieldError::InsufficientSpace,
            r matches Ok(g) ==> {
                &&& g.wf()
                &&& g@.state == GameState::Playing
                &&& g@.cursor == ((size.x / 2) as int, (size.y / 2) as int)
                &&& g@.cols == size.x
                &&& g@.rows == size.y
                &&& g@.total_mines == mine_count
                &&& forall|p: (int, int)|
                    #[trigger] g@.cells.contains_key(p) ==> !g@.cells[p].is_visible
                        && g@.cells[p].flag_state == TileFlagState::Empty
            },
    {
        assert(size.x <= size.x * size.y && size.y <= size.x * size.y) by (nonlinear_arith)
            requires
                size.x > 0,
                size.y > 0,
        ;
        match Minefield::new(size, mine_count) {
            Ok(minefield) => Ok(Game::from_minefield(minefield)),
            Err(e) => Err(e),
        }
    }

    /// The dimensions of the field.
    pub fn size(&self) -> (r: FieldDimension)
        ensures
            r.x == self@.cols,
            r.y == self@.rows,
    {
        self.minefield.size()
    }

    /// The status of the game.
    pub fn state(&self) -> (r: GameState)
        ensures
            r == self@.state,
    {
        self.state
    }

    /// Where the cursor is.
    pub fn cursor(&self) -> (r: Cursor)
        ensures
            (r.x as int, r.y as int) == self@.cursor,
    {
        self.cursor
    }

    /// The minefield of the game.
    pub fn minefield(&self) -> (r: &Minefield)
        requires
            self.wf(),
        ensures
            r.wf(),
            r.spec_size().x == self@.cols,
            r.spec_size().y == self@.rows,
            r.cells() == self@.cells,
    {
        &self.minefield
    }

    /// Move the cursor to `(x, y)`, held to the field.
    pub fn move_cursor_absolute(&mut self, x: usize, y: usize)
        requires
            old(self).wf(),
        ensures
            final(self).wf(),
            final(self)@ == move_to(old(self)@, x as int, y as int),
            step(old(self)@, final(self)@),
    {
        let size = self.minefield.size();
        let nx = if x < size.x { x } else { size.x - 1 };
        let ny = if y < size.y { y } else { size.y - 1 };
        self.cursor = Cursor { x: nx, y: ny };
    }

    /// Move the cursor by `(x, y)`; it stops at the edges of the field.
    pub fn move_cursor_relative(&mut self, x: isize, y: isize)
        requires
            old(self).wf(),
        ensures
            final(self).wf(),
            final(self)@ == move_to(old(self)@, old(self)@.cursor.0 + x, old(self)@.cursor.1 + y),
            step(old(self)@, final(self)@),
    {
        let size = self.minefield.size();
        let nx = shift_within(self.cursor.x, x, size.x);
        let ny = shift_within(self.cursor.y, y, size.y);
        self.cursor = Cursor { x: nx, y: ny };
    }

    /// Reveal the tile under the cursor. Revealing a mine loses the game;
    /// revealing the last hidden tile that is not a mine wins it. Fails when
    /// the game is over, or the tile is revealed or flagged already.
    pub fn reveal_at_cursor(&mut self) -> (r: Result<TileMineState, RevealError>)
        requires
            old(self).wf(),
        ensures
            final(self).wf(),
            (final(self)@, r) == reveal_step(old(self)@),
            step(old(self)@, final(self)@),
    {
        if self.state != GameState::Playing {
            return Err(RevealError::GameOver);
        }
        let r = self.minefield.reveal_tile(self.cursor.x, self.cursor.y);
        match r {
            Ok(TileMineState::Mine) => {
                self.state = GameState::Loss;
            },
            Ok(TileMineState::Empty(_)) => {
                if self.minefield.all_safe_revealed() {
                    self.state = GameState::Win;
                }
            },
            Err(_) => {},
        }
        r
    }

    /// Move the flag of the tile under the cursor on to the next in the
    /// cycle none, flagged, suspicious. Fails when the game is over or the
    /// tile is revealed.
    pub fn cycle_flag_at_cursor(&mut self) -> (r: Result<TileFlagState, RevealError>)
        requires
            old(self).wf(),
        ensures
            final(self).wf(),
            (final(self)@, r) == flag_step(old(self)@),
            step(old(self)@, final(self)@),
    {
        if self.state != GameState::Playing {
            return Err(RevealError::GameOver);
        }
        self.minefield.cycle_flag(self.cursor.x, self.cursor.y)
    }
}

/// `v + d`, held to `0..len`.
fn shift_within(v: usize, d: isize, len: usize) -> (r: usize)
    requires
        v < len,
    ensures
        r == clamp(v + d, len - 1),
{
    if d < 0 {
        // `-(d + 1)` cannot overflow, unlike `-d`.
        let back = (-(d + 1)) as usize;
        if back >= v {
            0
        } else {
            v - back - 1
        }
    } else {
        let ahead = d as usize;
        if ahead >= len - 1 - v {
            len - 1
        } else {
            v + ahead
        }
    }
}

} // verus!
