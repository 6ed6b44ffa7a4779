//! The achievement tracking engine of a desktop agent for games.
//!
//! The engine keeps one row for each achievement of each tracked game in a
//! store, fills the store from the files of several providers, decides which
//! provider speaks for a game, and tells of unlocks as the watched file of a
//! running game changes. Reading files, asking the web and waiting are left
//! to the program around it: the engine takes texts and times and gives
//! back rows, events and decisions.

pub mod achievement_scanner;
pub mod achievement_watcher;
pub mod achievements;
pub mod arbiter;
pub mod error;
pub mod export;
pub mod ini;
pub mod json;
pub mod keyed;
pub mod laws;
pub mod ludusavi;
pub mod orchestrator;
pub mod overlay;
pub mod key_match;
pub mod paths;
pub mod process_monitor;
pub mod steam_achievements;
pub mod steam_monitor;
pub mod text;
pub mod vdf;
