//! Lapse: the verified core of a game clipper for Linux.

pub mod text;
pub mod devices;
pub mod config;
pub mod recorder;
pub mod ipc;
pub mod hotkeys;
pub mod player;
pub mod library;
pub mod client;
pub mod icon;
