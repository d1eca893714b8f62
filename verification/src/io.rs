//! Reading and writing Minecraft protocol data types.

pub mod args;
pub mod be;
pub mod codec;
pub mod ext;
pub mod impls;
pub mod ivec;
pub mod mc;
pub mod packet;
pub mod version;
pub mod util;
