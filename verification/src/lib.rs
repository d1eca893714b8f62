//! Encoding and decoding of Minecraft protocol data types, packets, keys and
//! protocol versions, with their behaviour stated in contracts and proved.

pub mod bits;
pub mod bytes_buf;
pub mod cursor;
pub mod error;
pub mod io;
pub mod key;
pub mod nbt;
pub mod protocol;
pub mod net;
pub mod text;
pub mod uuid;
pub mod varint;
