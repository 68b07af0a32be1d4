//! Properties of every game, stated over the game's view and its steps, and
//! proved from the definitions that the game's operations are held to.

use vstd::prelude::*;
use crate::game::{flag_step, game_wf, move_to, reveal_step, step, GameState, GameView};
use crate::minefield::{
    all_safe_visible, field_wf, flag_cells, mine_positions, reveal_cells, RevealError, Tile,
    TileFlagState, TileMineState,
};

verus! {

proof fn lemma_reveal_keeps_field(cols: int, rows: int, total: int, cells: Map<(int, int), Tile>, p: (int, int))
    requires
        field_wf(cols, rows, total, cells),
        cells.contains_key(p),
    ensures
        field_wf(cols, rows, total, reveal_cells(cells, p).0),
        reveal_cells(cells, p).0.dom() == cells.dom(),
{
    let after = reveal_cells(cells, p).0;
    assert(after.dom() =~= cells.dom());
    assert(mine_positions(after) =~= mine_positions(cells));
}

proof fn lemma_flag_keeps_field(cols: int, rows: int, total: int, cells: Map<(int, int), Tile>, p: (int, int))
    requires
        field_wf(cols, rows, total, cells),
        cells.contains_key(p),
    ensures
        field_wf(cols, rows, total, flag_cells(cells, p).0),
        flag_cells(cells, p).0.dom() == cells.dom(),
{
    let after = flag_cells(cells, p).0;
    assert(after.dom() =~= cells.dom());
    assert(mine_positions(after) =~= mine_positions(cells));
}

/// Every step keeps a game well formed, on the same field.
pub proof fn lemma_step_keeps_wf(g1: GameView, g2: GameView)
    requires
        game_wf(g1),
        step(g1, g2),
    ensures
        game_wf(g2),
        g2.cols == g1.cols,
        g2.rows == g1.rows,
        g2.total_mines == g1.total_mines,
{
    assert(g1.cells.contains_key(g1.cursor));
    lemma_reveal_keeps_field(g1.cols, g1.rows, g1.total_mines, g1.cells, g1.cursor);
    lemma_flag_keeps_field(g1.cols, g1.rows, g1.total_mines, g1.cells, g1.cursor);
    if g2 == reveal_step(g1).0 {
        let after = reveal_cells(g1.cells, g1.cursor).0;
        if g1.state == GameState::Playing {
            assert(after.dom() == g1.cells.dom());
        }
    } else if g2 == flag_step(g1).0 {
    } else {
        let (x, y) = choose|x: int, y: int| g2 == #[trigger] move_to(g1, x, y);
    }
}

/// A run of the game: `runs[i + 1]` follows from `runs[i]` by one step.
pub open spec fn is_run(runs: Seq<GameView>) -> bool {
    forall|i: int| #![trigger runs[i + 1]] 0 <= i < runs.len() - 1 ==> step(runs[i], runs[i + 1])
}

/// Every game reached from a well-formed one is well formed, on the same
/// field.
pub proof fn lemma_runs_keep_wf(runs: Seq<GameView>)
    requires
        runs.len() > 0,
        game_wf(runs[0]),
        is_run(runs),
    ensures
        forall|i: int| #![trigger runs[i]] 0 <= i < runs.len() ==> {
            &&& game_wf(runs[i])
            &&& runs[i].cols == runs[0].cols
            &&& runs[i].rows == runs[0].rows
            &&& runs[i].total_mines == runs[0].total_mines
        },
    decreases runs.len(),
{
    if runs.len() > 1 {
        let front = runs.drop_last();
        assert(is_run(front)) by {
            assert forall|i: int| #![trigger front[i + 1]] 0 <= i < front.len() - 1 implies step(front[i], front[i + 1]) by {
                assert(step(runs[i], runs[i + 1]));
            }
        }
        lemma_runs_keep_wf(front);
        let n = runs.len() - 1;
        let k = n - 1;
        assert(front[k] == runs[k]);
        assert(step(runs[k], runs[k + 1]));
        lemma_step_keeps_wf(runs[n - 1], runs[n]);
        assert forall|i: int| #![trigger runs[i]] 0 <= i < runs.len() implies {
            &&& game_wf(runs[i])
            &&& runs[i].cols == runs[0].cols
            &&& runs[i].rows == runs[0].rows
            &&& runs[i].total_mines == runs[0].total_mines
        } by {
            if i < n {
                assert(front[i] == runs[i]);
            }
        }
    }
}

/// Once a tile is revealed, it stays revealed whatever the game does next.
pub proof fn lemma_revealed_tiles_stay_revealed(runs: Seq<GameView>, i: int, j: int, p: (int, int))
    requires
        is_run(runs),
        0 <= i <= j < runs.len(),
        runs[i].cells.contains_key(p),
        runs[i].cells[p].is_visible,
    ensures
        runs[j].cells.contains_key(p),
        runs[j].cells[p].is_visible,
    decreases j - i,
{
    if i < j {
        let g1 = runs[i];
        let g2 = runs[i + 1];
        assert(step(g1, g2));
        assert(g2.cells.contains_key(p) && g2.cells[p].is_visible) by {
            if g2 == reveal_step(g1).0 {
            } else if g2 == flag_step(g1).0 {
            } else {
                let (x, y) = choose|x: int, y: int| g2 == #[trigger] move_to(g1, x, y);
            }
        }
        lemma_revealed_tiles_stay_revealed(runs, i + 1, j, p);
    }
}

/// In every game reached from a well-formed one, no revealed tile carries a
/// flag.
pub proof fn lemma_revealed_tiles_carry_no_flag(runs: Seq<GameView>)
    requires
        runs.len() > 0,
        game_wf(runs[0]),
        is_run(runs),
    ensures
        forall|i: int, p: (int, int)|
            0 <= i < runs.len() && #[trigger] runs[i].cells.contains_key(p) && runs[i].cells[p].is_visible
                ==> runs[i].cells[p].flag_state == TileFlagState::Empty,
{
    lemma_runs_keep_wf(runs);
    assert forall|i: int, p: (int, int)|
        0 <= i < runs.len() && #[trigger] runs[i].cells.contains_key(p) && runs[i].cells[p].is_visible
            implies runs[i].cells[p].flag_state == TileFlagState::Empty by {
        assert(game_wf(runs[i]));
    }
}

/// In every game reached from a well-formed one, the cursor is on the field:
/// moves stop at the edges rather than leave it.
pub proof fn lemma_cursor_stays_on_field(runs: Seq<GameView>)
    requires
        runs.len() > 0,
        game_wf(runs[0]),
        is_run(runs),
    ensures
        forall|i: int| #![trigger runs[i]] 0 <= i < runs.len() ==> {
            &&& 0 <= runs[i].cursor.0 < runs[0].cols
            &&& 0 <= runs[i].cursor.1 < runs[0].rows
        },
{
    lemma_runs_keep_wf(runs);
}

/// Revealing a hidden, unflagged mine in a game in progress loses it, and
/// from then on nothing changes the tiles or the status: every reveal and
/// every flag fails with `GameOver`.
pub proof fn lemma_revealing_a_mine_loses(g: GameView, runs: Seq<GameView>)
    requires
        game_wf(g),
        g.state == GameState::Playing,
        g.cells[g.cursor].mine_state == TileMineState::Mine,
        !g.cells[g.cursor].is_visible,
        g.cells[g.cursor].flag_state == TileFlagState::Empty,
        runs.len() > 0,
        runs[0] == reveal_step(g).0,
        is_run(runs),
    ensures
        reveal_step(g).1 == Ok::<TileMineState, RevealError>(TileMineState::Mine),
        forall|i: int| #![trigger runs[i]] 0 <= i < runs.len() ==> {
            &&& runs[i].state == GameState::Loss
            &&& runs[i].cells == runs[0].cells
            &&& reveal_step(runs[i]).1 == Err::<TileMineState, RevealError>(RevealError::GameOver)
            &&& flag_step(runs[i]).1 == Err::<TileFlagState, RevealError>(RevealError::GameOver)
        },
{
    assert(runs[0].state == GameState::Loss);
    lemma_finished_game_is_frozen(runs, (runs.len() - 1) as int);
}

proof fn lemma_finished_game_is_frozen(runs: Seq<GameView>, n: int)
    requires
        runs.len() > 0,
        runs[0].state != GameState::Playing,
        is_run(runs),
        0 <= n < runs.len(),
    ensures
        forall|i: int| #![trigger runs[i]] 0 <= i <= n ==> {
            &&& runs[i].state == runs[0].state
            &&& runs[i].cells == runs[0].cells
        },
    decreases n,
{
    if n > 0 {
        let k = n - 1;
        lemma_finished_game_is_frozen(runs, k);
        let g1 = runs[k];
        let g2 = runs[k + 1];
        assert(step(g1, g2));
        if g2 == reveal_step(g1).0 {
        } else if g2 == flag_step(g1).0 {
        } else {
            let (x, y) = choose|x: int, y: int| g2 == #[trigger] move_to(g1, x, y);
        }
    }
}

/// Revealing the last hidden tile that is not a mine, in a game in
/// progress, wins the game.
pub proof fn lemma_last_safe_reveal_wins(g: GameView)
    requires
        game_wf(g),
        g.state == GameState::Playing,
        g.cells[g.cursor].mine_state is Empty,
        !g.cells[g.cursor].is_visible,
        g.cells[g.cursor].flag_state == TileFlagState::Empty,
        forall|p: (int, int)|
            #[trigger] g.cells.contains_key(p) && p != g.cursor && g.cells[p].mine_state is Empty
                ==> g.cells[p].is_visible,
    ensures
        reveal_step(g).0.state == GameState::Win,
{
    assert(all_safe_visible(reveal_cells(g.cells, g.cursor).0));
}

} // verus!
