//! Core logic of a terminal music player: the catalogue of tracks, the
//! navigation state of the text interface, the player state machine,
//! metadata and lyric parsing, and the small numeric rules of the audio path.

pub mod app;
pub mod config;
pub mod engine;
pub mod json;
pub mod library;
pub mod lyrics;
pub mod player_core;
pub mod scanner;
pub mod sorting;
pub mod textnum;
pub mod theme;
pub mod types;
pub mod ui;
