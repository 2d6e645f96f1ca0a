//! Verified core of a chess puzzle studio: PGN import and review,
//! PGN/PDF export text, project review rules and puzzle-solving decisions.

pub mod text;
pub mod chess_rules;
pub mod pgn_import;
pub mod pgn_review;
pub mod models;
pub mod export;
pub mod eval;
pub mod download;
pub mod project;
pub mod puzzle_play;
pub mod coordination;
pub mod config;
pub mod pgn_tab;
pub mod import_args;
pub mod chunk_benchmark;
pub mod search_args;
pub mod studio;
pub mod favorites;
pub mod board_view;
