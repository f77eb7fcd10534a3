//! Motion, collision and win rules of a two-player shape-matching game,
//! on an exact fixed-point model of the arena.

pub mod geometry;
pub mod levels;
pub mod player;
pub mod target;
pub mod win;
pub mod game;
