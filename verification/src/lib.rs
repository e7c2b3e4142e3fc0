//! The logic of tune, a terminal music player for Spotify, local files and
//! internet radio.
//!
//! Everything here works on plain values: what a key does to the screen's
//! state, which request goes out, how a reply is read, what each row shows.
//! The program around it draws, reads the terminal and talks to the network.

pub mod app;
pub mod auth;
pub mod command;
pub mod config;
pub mod device;
pub mod json;
pub mod keys;
pub mod laws;
pub mod load;
pub mod local;
pub mod pane;
pub mod path;
pub mod playback;
pub mod player;
pub mod radio;
pub mod releases;
pub mod screen;
pub mod sources;
pub mod text;
pub mod theme;
