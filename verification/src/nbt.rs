//! Named Binary Tag (NBT): Minecraft's binary format for nested values.

pub mod compound;
pub mod format;
pub mod read;
pub mod value;
pub mod wrapper;
pub mod write;
