//! Tower of Hanoi: the puzzle board, its rules, and the screens of the game
//! drawn as glyphs on a character grid.

pub mod board;
pub mod frame;
pub mod game;
pub mod input;
pub mod laws;
pub mod menu;
pub mod model;
pub mod render;
pub mod screens;
