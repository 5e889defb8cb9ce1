//! Decision logic of a focus-follows-mouse daemon for macOS that is aware of
//! the AeroSpace tiling window manager.

pub mod accessibility;
pub mod aerospace;
pub mod color;
pub mod config;
pub mod raiser;
pub mod text;
