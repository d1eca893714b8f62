//! Minecraft protocol packets: their fields and how they are read and
//! written.

pub mod common;
pub mod config;
pub mod handshake;
pub mod login;
pub mod play;
pub mod state;
pub mod status;
