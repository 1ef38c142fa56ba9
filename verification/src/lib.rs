//! Rules engine and move-search core for a two-player board game that mixes
//! shogi-style pieces (drops, promotion zones) with chess-style pieces on one
//! configurable board.

pub mod model;
pub mod logic;
pub mod player;
pub mod ml;
pub mod display;
pub mod game;
pub mod network;
pub mod text;
pub mod ui;
