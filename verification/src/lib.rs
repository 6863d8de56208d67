//! Minesweeper game logic: a grid of tiles, lazy mine placement on the first
//! reveal, adjacency counts, flood reveal, flags, chords and the win/loss
//! state machine, each with a machine-checked contract.
//!
//! `board` holds the model of a game and of its moves, `game` the
//! executable game whose view that model is, `play` the moves themselves.
//! `placement` says where mines may go and `scanner` lays them token by
//! token; `tokens` draws the tokens and holds the only code that is trusted
//! rather than proved. `laws` states what holds of every game.

pub mod tile;
pub mod board;
pub mod game;
pub mod grid;
pub mod neighbors;
pub mod flood;
pub mod uncover;
pub mod tokens;
pub mod placement;
pub mod scanner;
pub mod counting;
pub mod distribute;
pub mod play;
pub mod forced;
pub mod queries;
pub mod laws;
pub mod input;
pub mod presets;
