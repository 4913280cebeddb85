//! Triversi: a Reversi-like game for three players on a triangular board.

pub mod board;
pub mod board_display;
pub mod color_config;
pub mod error;
pub mod game;
pub mod gui_app;
pub mod key_binding;
pub mod render;
pub mod text;
pub mod tui_app;
