//! Packet framing on the network.

pub mod client;
pub mod handshake;
pub mod login;
pub mod packet;
pub mod raw;
pub mod server;
pub mod state;
pub mod version;
