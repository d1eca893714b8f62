//! Configurable arguments for customizing how encode and decode operations
//! work for data types.
//!
//! - Want to use a VarInt? Set the `varint` flag in [`IntArgs`].
//! - Want to protect memory usage for strings? Set the `max_len` arg in [`StringArgs`].

use vstd::prelude::*;

verus! {

/// Arguments for reading and writing 32-bit and 64-bit integers.
#[derive(Clone, Copy, PartialEq, Eq, Debug, Default)]
pub struct IntArgs {
    /// Specifies that the integer should be encoded and decoded in a
    /// variable-length format.
    pub varint: bool,
}

/// Arguments for reading and writing strings.
#[derive(Clone, Copy, PartialEq, Eq, Debug, Default)]
pub struct StringArgs {
    /// Specifies that the encoded/decoded string should not exceed the
    /// specified length in bytes; [`None`] means no length checking.
    pub max_len: Option<usize>,
}

/// Arguments for reading and writing lists.
#[derive(Clone, Copy, PartialEq, Eq, Debug, Default)]
pub struct ListArgs<TArgs> {
    /// Specifies how the length of the encoded/decoded list is given.
    pub length: ListLength,
    /// The arguments for the inner type being processed.
    pub inner: TArgs,
}

/// Specifies how the length should be calculated when encoding or decoding a
/// collection of values.
#[derive(Clone, Copy, PartialEq, Eq, Debug, Default)]
pub enum ListLength {
    /// The collection is prefixed with its length encoded as a VarInt.
    #[default]
    VarInt,
    /// The collection is prefixed with its length encoded as an `i8`.
    Byte,
    /// The collection's length is given by the bytes remaining in the stream.
    Remaining,
}

/// Arguments for reading and writing arrays.
#[derive(Clone, Copy, PartialEq, Eq, Debug, Default)]
pub struct ArrayArgs<TArgs> {
    /// The arguments for the inner type being processed.
    pub inner: TArgs,
}

/// Arguments for reading and writing optional values.
#[derive(Clone, Copy, PartialEq, Eq, Debug, Default)]
pub struct OptionArgs<TArgs> {
    /// Specifies how the existence of an optional value is given.
    pub tag: OptionTag,
    /// The arguments for the inner type being processed.
    pub inner: TArgs,
}

/// Specifies how the existence of an optional value is calculated.
#[derive(Clone, Copy, PartialEq, Eq, Debug, Default)]
pub enum OptionTag {
    /// The optional value is known to exist through a prefixed boolean.
    #[default]
    Bool,
    /// The optional value exists when the stream has bytes remaining.
    Remaining,
}

/// Arguments for reading and writing NBT blobs.
#[derive(Clone, Copy, PartialEq, Eq, Debug, Default)]
pub struct NbtArgs {
    /// The compression algorithm.
    pub compression: Compression,
    /// The maximum length of the blob.
    pub max_len: Option<usize>,
    /// The optional header used for serialization.
    pub header: Option<&'static str>,
}

/// The compression algorithm to be used for NBT blobs.
#[derive(Clone, Copy, PartialEq, Eq, Debug, Default)]
pub enum Compression {
    /// No compression.
    #[default]
    Uncompressed,
    /// GZIP compression.
    GZip,
    /// ZLIB compression.
    ZLib,
}

/// Arguments for reading and writing 3-dimensional signed integer vectors.
#[derive(Clone, Copy, PartialEq, Eq, Debug, Default)]
pub struct IVec3Args {
    /// Whether the coordinate should be compressed to 64 bits.
    pub compressed: bool,
}

} // verus!
