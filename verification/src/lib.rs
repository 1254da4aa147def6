//! Per-device volume profiles for the programs that play sound.
//!
//! The library decides everything that the application around it does: how
//! events of the audio system and commands of the user change the state, what is
//! remembered and restored, how it is saved, and what the interface shows. The
//! application performs what is decided here.

use vstd::prelude::*;

pub mod arrange;
pub mod audio;
pub mod autostart;
pub mod backend;
pub mod console;
pub mod forgotten;
pub mod gesture;
pub mod hotkey;
pub mod icon;
pub mod interface;
pub mod json_repository;
pub mod laws;
pub mod manager;
pub mod messages;
pub mod overlay;
pub mod panic_hook;
pub mod path;
pub mod policy_config;
pub mod process_key;
pub mod promises;
pub mod reducer;
pub mod repository;
pub mod single;
pub mod single_instance;
pub mod store;
pub mod table;
pub mod text;
pub mod theme;
pub mod time;
pub mod wide;
pub mod widget;
