//! Core logic of the Ami music player: the play queue, the track library,
//! the decisions the daemon takes around playback, and the small pieces of
//! text and arithmetic the clients show.

pub mod text;
pub mod images;
pub mod paths;
pub mod track;
pub mod library;
pub mod queue;
pub mod player;
pub mod commands;
pub mod orchestrator;
pub mod services;
pub mod pid;
pub mod config;
pub mod tui;
