//! Minesweeper game logic: mine placement, the tile-state model, the rules
//! of a game, and the choice of what each tile looks like on screen.

pub mod display;
pub mod game;
pub mod grid;
pub mod laws;
pub mod minefield;
