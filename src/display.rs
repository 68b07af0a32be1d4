//! What each tile looks like on screen: a glyph of two characters and a
//! colour category, chosen from the game's status and the tile's state.

use vstd::prelude::*;
use crate::game::{game_wf, Game, GameState, GameView};
use crate::minefield::{Tile, TileFlagState, TileMineState};

verus! {

/// The colour categories of tiles; the terminal front end picks the colours.
#[derive(Clone, Copy, Debug, PartialEq, Eq, Structural)]
pub enum ColorType {
    /// A hidden tile.
    TileHidden,
    /// A flag while the game goes on, or a flag on a mine after a loss.
    TileFlag,
    /// A flag on a mine after a win.
    TileFlagCorrect,
    /// A flag on a tile that is not a mine after a loss.
    TileFlagWrong,
    /// A mine after a loss.
    TileMineDead,
    /// A mine after a win.
    TileMineSafe,
    /// A revealed tile with the given number of neighbouring mines.
    TileNormal(u8),
}

/// The glyph of a revealed tile with `s` neighbouring mines.
pub open spec fn count_glyph(s: u8) -> Seq<char> {
    if s == 0 {
        " 0"@
    } else if s == 1 {
        " 1"@
    } else if s == 2 {
        " 2"@
    } else if s == 3 {
        " 3"@
    } else if s == 4 {
        " 4"@
    } else if s == 5 {
        " 5"@
    } else if s == 6 {
        " 6"@
    } else if s == 7 {
        " 7"@
    } else {
        " 8"@
    }
}

/// The glyph of a flag: `F` for flagged, `?` for suspicious.
pub open spec fn flag_glyph(f: TileFlagState) -> Seq<char> {
    if f == TileFlagState::Flagged {
        " F"@
    } else {
        " ?"@
    }
}

/// How a tile looks in a game with the given status, or `None` for a
/// combination that no game can reach: a revealed tile with a flag, a
/// revealed mine in a game that is not lost, a hidden tile that is not a
/// mine (or a flag on one) in a won game, or a revealed count above eight.
/// A hidden tile shows nothing of its mine state while the game goes on.
pub open spec fn tile_look(state: GameState, t: Tile) -> Option<(Seq<char>, ColorType)> {
    let unflagged = t.flag_state == TileFlagState::Empty;
    match t.mine_state {
        TileMineState::Empty(s) => if t.is_visible {
            if unflagged && s <= 8 {
                Some((count_glyph(s), ColorType::TileNormal(s)))
            } else {
                None
            }
        } else if state == GameState::Win {
            None
        } else if unflagged {
            Some((" ?"@, ColorType::TileHidden))
        } else if state == GameState::Loss {
            Some((flag_glyph(t.flag_state), ColorType::TileFlagWrong))
        } else {
            Some((flag_glyph(t.flag_state), ColorType::TileFlag))
        },
        TileMineState::Mine => if t.is_visible {
            if unflagged && state == GameState::Loss {
                Some((" X"@, ColorType::TileMineDead))
            } else {
                None
            }
        } else if unflagged {
            if state == GameState::Playing {
                Some((" ?"@, ColorType::TileHidden))
            } else if state == GameState::Loss {
                Some((" X"@, ColorType::TileMineDead))
            } else {
                Some((" X"@, ColorType::TileMineSafe))
            }
        } else if state == GameState::Win {
            Some((flag_glyph(t.flag_state), ColorType::TileFlagCorrect))
        } else {
            Some((flag_glyph(t.flag_state), ColorType::TileFlag))
        },
    }
}

/// The glyph and colour shown for a combination that no game can reach.
pub open spec fn fallback_look() -> (Seq<char>, ColorType) {
    (" !"@, ColorType::TileHidden)
}

/// In every well-formed game, every tile has a look: the combinations that
/// `tile_look` rules out never occur.
pub proof fn lemma_every_tile_has_a_look(g: GameView)
    requires
        game_wf(g),
    ensures
        forall|p: (int, int)| #[trigger] g.cells.contains_key(p) ==> tile_look(g.state, g.cells[p]) is Some,
{
    assert forall|p: (int, int)| #[trigger] g.cells.contains_key(p) implies tile_look(g.state, g.cells[p]) is Some by {
        let t = g.cells[p];
        if let TileMineState::Empty(s) = t.mine_state {
            assert(s <= 8);
        }
    }
}

fn count_text(s: u8) -> (r: &'static str)
    ensures
        r@ == count_glyph(s),
{
    match s {
        0 => " 0",
        1 => " 1",
        2 => " 2",
        3 => " 3",
        4 => " 4",
        5 => " 5",
        6 => " 6",
        7 => " 7",
        _ => " 8",
    }
}

fn flag_text(f: TileFlagState) -> (r: &'static str)
    ensures
        r@ == flag_glyph(f),
{
    match f {
        TileFlagState::Flagged => " F",
        _ => " ?",
    }
}

impl Tile {
    /// The glyph and colour category of this tile in a game with the given
    /// status; a combination that no game can reach gets a fallback look
    /// rather than a panic.
    pub fn display(&self, game_state: GameState) -> (r: (&'static str, ColorType))
        ensures
            tile_look(game_state, *self) matches Some(l) ==> r.0@ == l.0 && r.1 == l.1,
            tile_look(game_state, *self) is None ==> r.0@ == fallback_look().0 && r.1
                == fallback_look().1,
    {
        let unflagged = match self.flag_state {
            TileFlagState::Empty => true,
            _ => false,
        };
        match self.mine_state {
            TileMineState::Empty(s) => {
                if self.is_visible {
                    if unflagged && s <= 8 {
                        (count_text(s), ColorType::TileNormal(s))
                    } else {
                        (" !", ColorType::TileHidden)
                    }
                } else if game_state == GameState::Win {
                    (" !", ColorType::TileHidden)
                } else if unflagged {
                    (" ?", ColorType::TileHidden)
                } else if game_state == GameState::Loss {
                    (flag_text(self.flag_state), ColorType::TileFlagWrong)
                } else {
                    (flag_text(self.flag_state), ColorType::TileFlag)
                }
            },
            TileMineState::Mine => {
                if self.is_visible {
                    if unflagged && game_state == GameState::Loss {
                        (" X", ColorType::TileMineDead)
                    } else {
                        (" !", ColorType::TileHidden)
                    }
                } else if unflagged {
                    if game_state == GameState::Playing {
                        (" ?", ColorType::TileHidden)
                    } else if game_state == GameState::Loss {
                        (" X", ColorType::TileMineDead)
                    } else {
                        (" X", ColorType::TileMineSafe)
                    }
                } else if game_state == GameState::Win {
                    (flag_text(self.flag_state), ColorType::TileFlagCorrect)
                } else {
                    (flag_text(self.flag_state), ColorType::TileFlag)
                }
            },
        }
    }
}

impl Game {
    /// The look of every tile, one row after another: `r[y][x]` is the glyph
    /// and colour category of the tile at `(x, y)`. The cursor's tile is
    /// highlighted by the front end.
    pub fn render(&self) -> (r: Vec<Vec<(&'static str, ColorType)>>)
        requires
            self.wf(),
        ensures
            r@.len() == self@.rows,
            forall|y: int| #![trigger r@[y]] 0 <= y < self@.rows ==> r@[y]@.len() == self@.cols,
            forall|x: int, y: int|
                #![trigger r@[y]@[x]]
                0 <= x < self@.cols && 0 <= y < self@.rows ==> tile_look(
                    self@.state,
                    self@.cells[(x, y)],
                ) == Some((r@[y]@[x].0@, r@[y]@[x].1)),
    {
        let state = self.state();
        let size = self.size();
        let field = self.minefield();
        proof {
            lemma_every_tile_has_a_look(self@);
        }
        let mut rows: Vec<Vec<(&'static str, ColorType)>> = Vec::new();
        let mut y: usize = 0;
        while y < size.y
            invariant
                self.wf(),
                state == self@.state,
                size.x == self@.cols,
                size.y == self@.rows,
                field.wf(),
                field.spec_size() == size,
                field.cells() == self@.cells,
                forall|p: (int, int)| #[trigger] self@.cells.contains_key(p) ==> tile_look(self@.state, self@.cells[p]) is Some,
                y <= size.y,
                rows@.len() == y,
                forall|j: int| #![trigger rows@[j]] 0 <= j < y ==> rows@[j]@.len() == size.x,
                forall|i: int, j: int|
                    #![trigger rows@[j]@[i]]
                    0 <= i < size.x && 0 <= j < y ==> tile_look(state, self@.cells[(i, j)]) == Some(
                        (rows@[j]@[i].0@, rows@[j]@[i].1),
                    ),
            decreases size.y - y,
        {
            let mut row: Vec<(&'static str, ColorType)> = Vec::new();
            let mut x: usize = 0;
            while x < size.x
                invariant
                    self.wf(),
                    state == self@.state,
                    size.x == self@.cols,
                    size.y == self@.rows,
                    field.wf(),
                    field.spec_size() == size,
                    field.cells() == self@.cells,
                    forall|p: (int, int)| #[trigger] self@.cells.contains_key(p) ==> tile_look(self@.state, self@.cells[p]) is Some,
                    y < size.y,
                    x <= size.x,
                    row@.len() == x,
                    forall|i: int|
                        #![trigger row@[i]]
                        0 <= i < x ==> tile_look(state, self@.cells[(i, y as int)]) == Some(
                            (row@[i].0@, row@[i].1),
                        ),
                decreases size.x - x,
            {
                let tile = field.get_tile(x, y).unwrap();
                assert(self@.cells.contains_key((x as int, y as int)));
                row.push(tile.display(state));
                x += 1;
            }
            rows.push(row);
            y += 1;
        }
        rows
    }
}

} // verus!
