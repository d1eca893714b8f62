//! Reading and writing of standard and library types.

pub mod lists;
pub mod maps;
pub mod strings;
pub mod tuples;
