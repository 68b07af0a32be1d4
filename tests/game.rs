use smines::game::{Cursor, Game, GameState};
use smines::minefield::{FieldDimension, Minefield, MinefieldError, RevealError, TileFlagState, TileMineState};

fn game(x: usize, y: usize, mines: usize) -> Game {
    match Game::new(FieldDimension { x, y }, mines) {
        Ok(g) => g,
        Err(e) => panic!("generation failed: {:?}", e),
    }
}

fn is_mine(g: &Game, x: usize, y: usize) -> bool {
    g.minefield().get_tile(x, y).unwrap().mine_state == TileMineState::Mine
}

#[test]
fn one_tile_without_mines_is_won_by_one_reveal() {
    let mut g = game(1, 1, 0);
    assert_eq!(g.minefield().get_tile(0, 0).unwrap().mine_state, TileMineState::Empty(0));
    assert_eq!(g.state(), GameState::Playing);
    assert_eq!(g.reveal_at_cursor(), Ok(TileMineState::Empty(0)));
    assert_eq!(g.state(), GameState::Win);
}

#[test]
fn full_field_is_lost_by_any_reveal() {
    for &(cx, cy) in &[(0, 0), (0, 1), (1, 0), (1, 1)] {
        let mut g = game(2, 2, 4);
        for x in 0..2 {
            for y in 0..2 {
                assert!(is_mine(&g, x, y));
            }
        }
        g.move_cursor_absolute(cx, cy);
        assert_eq!(g.reveal_at_cursor(), Ok(TileMineState::Mine));
        assert_eq!(g.state(), GameState::Loss);
    }
}

#[test]
fn too_many_mines_give_no_game() {
    assert!(matches!(
        Game::new(FieldDimension { x: 3, y: 3 }, 10),
        Err(MinefieldError::InsufficientSpace)
    ));
    assert!(Game::new(FieldDimension { x: 3, y: 3 }, 9).is_ok());
}

#[test]
fn nothing_changes_after_a_loss() {
    let mut g = game(3, 3, 9);
    assert_eq!(g.reveal_at_cursor(), Ok(TileMineState::Mine));
    assert_eq!(g.state(), GameState::Loss);
    g.move_cursor_relative(1, 0);
    assert_eq!(g.cursor(), Cursor { x: 2, y: 1 });
    assert_eq!(g.reveal_at_cursor(), Err(RevealError::GameOver));
    assert_eq!(g.cycle_flag_at_cursor(), Err(RevealError::GameOver));
    let t = g.minefield().get_tile(2, 1).unwrap();
    assert!(!t.is_visible);
    assert_eq!(t.flag_state, TileFlagState::Empty);
    assert_eq!(g.state(), GameState::Loss);
}

#[test]
fn revealing_the_last_safe_tile_wins() {
    let mut g = game(3, 1, 1);
    let mine_x = (0..3).find(|&x| is_mine(&g, x, 0)).unwrap();
    let safe: Vec<usize> = (0..3).filter(|&x| x != mine_x).collect();
    g.move_cursor_absolute(safe[0], 0);
    assert!(g.reveal_at_cursor().is_ok());
    assert_eq!(g.state(), GameState::Playing);
    g.move_cursor_absolute(safe[1], 0);
    assert!(g.reveal_at_cursor().is_ok());
    assert_eq!(g.state(), GameState::Win);
    assert_eq!(g.reveal_at_cursor(), Err(RevealError::GameOver));
    assert_eq!(g.cycle_flag_at_cursor(), Err(RevealError::GameOver));
}

#[test]
fn revealed_tiles_stay_revealed() {
    let mut g = game(4, 4, 0);
    g.move_cursor_absolute(0, 0);
    assert!(g.reveal_at_cursor().is_ok());
    assert_eq!(g.state(), GameState::Playing);
    assert_eq!(g.cycle_flag_at_cursor(), Err(RevealError::AlreadyVisible));
    assert_eq!(g.reveal_at_cursor(), Err(RevealError::AlreadyVisible));
    g.move_cursor_relative(1, 1);
    assert_eq!(g.cycle_flag_at_cursor(), Ok(TileFlagState::Flagged));
    g.move_cursor_relative(-1, -1);
    let t = g.minefield().get_tile(0, 0).unwrap();
    assert!(t.is_visible);
    assert_eq!(t.flag_state, TileFlagState::Empty);
}

#[test]
fn flagged_tile_cannot_be_revealed_in_a_game() {
    let mut g = game(5, 5, 3);
    assert_eq!(g.cycle_flag_at_cursor(), Ok(TileFlagState::Flagged));
    assert_eq!(g.reveal_at_cursor(), Err(RevealError::Flagged));
    assert_eq!(g.cycle_flag_at_cursor(), Ok(TileFlagState::Suspicious));
    assert_eq!(g.reveal_at_cursor(), Err(RevealError::Flagged));
    assert_eq!(g.state(), GameState::Playing);
    assert!(!g.minefield().get_tile(2, 2).unwrap().is_visible);
}

#[test]
fn cursor_starts_in_the_middle() {
    let g = game(5, 4, 3);
    assert_eq!(g.cursor(), Cursor { x: 2, y: 2 });
    assert_eq!(g.size(), FieldDimension { x: 5, y: 4 });
    let g = game(16, 16, 40);
    assert_eq!(g.cursor(), Cursor { x: 8, y: 8 });
}

#[test]
fn cursor_stops_at_the_edges() {
    let mut g = game(5, 4, 3);
    g.move_cursor_absolute(0, 0);
    for _ in 0..10 {
        g.move_cursor_relative(-1, 0);
        g.move_cursor_relative(0, -1);
        assert_eq!(g.cursor(), Cursor { x: 0, y: 0 });
    }
    for _ in 0..10 {
        g.move_cursor_relative(1, 1);
    }
    assert_eq!(g.cursor(), Cursor { x: 4, y: 3 });
    g.move_cursor_relative(isize::MIN, isize::MAX);
    assert_eq!(g.cursor(), Cursor { x: 0, y: 3 });
    g.move_cursor_relative(isize::MAX, isize::MIN);
    assert_eq!(g.cursor(), Cursor { x: 4, y: 0 });
    g.move_cursor_relative(-2, 2);
    assert_eq!(g.cursor(), Cursor { x: 2, y: 2 });
    g.move_cursor_absolute(100, 1);
    assert_eq!(g.cursor(), Cursor { x: 4, y: 1 });
    g.move_cursor_absolute(3, usize::MAX);
    assert_eq!(g.cursor(), Cursor { x: 3, y: 3 });
}

#[test]
fn game_from_minefield_starts_playing() {
    let f = Minefield::new(FieldDimension { x: 7, y: 3 }, 5).unwrap();
    let c = Cursor::new(&f);
    assert_eq!(c, Cursor { x: 3, y: 1 });
    let g = Game::from_minefield(f);
    assert_eq!(g.state(), GameState::Playing);
    assert_eq!(g.cursor(), c);
    assert_eq!(g.minefield().total_mines(), 5);
    assert_eq!(GameState::default(), GameState::Playing);
}
