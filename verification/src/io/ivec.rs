//! Three-dimensional integer vectors, such as block positions, and the
//! 64-bit packed form the protocol uses for positions.

use crate::cursor::unread;
use crate::error::IoError;
use crate::io::args::IVec3Args;
use crate::io::be::be_bytes;
use crate::io::ext::{ReadMinecraftExt, WriteMinecraftExt};
use crate::io::mc::{fixed_decode, read_outcome, write_outcome, McRead, McWrite};
use std::io::Cursor;
use vstd::prelude::*;

verus! {

/// A vector of three `i32`s.
#[derive(Clone, Copy, PartialEq, Eq, Structural, Debug, Default, Hash)]
pub struct IVec3 {
    pub x: i32,
    pub y: i32,
    pub z: i32,
}

impl IVec3 {
    /// A vector from its three coordinates.
    pub fn new(x: i32, y: i32, z: i32) -> (v: IVec3)
        ensures
            v == (IVec3 { x, y, z }),
    {
        IVec3 { x, y, z }
    }
}

impl DeepView for IVec3 {
    type V = IVec3;

    open spec fn deep_view(&self) -> IVec3 {
        *self
    }
}

/// The packed form of a position: `x` in the top 26 bits, `z` in the next
/// 26 and `y` in the low 12, each cut to its width.
pub open spec fn spec_compress(v: IVec3) -> u64 {
    (((v.x as u64) & 0x03FF_FFFF) << 38u64) | (((v.z as u64) & 0x03FF_FFFF) << 12u64) | ((v.y as u64)
        & 0xFFF)
}

/// The position a packed form stands for: each field read as a signed
/// two's-complement number of its width, `x` and `z` of 26 bits and `y` of
/// 12.
pub open spec fn spec_uncompress(v: u64) -> IVec3 {
    IVec3 {
        x: ((v as i64) >> 38u64) as i32,
        y: (((v << 52u64) as i64) >> 52u64) as i32,
        z: (((v << 26u64) as i64) >> 38u64) as i32,
    }
}

/// Unpacks a position from its 64-bit form.
pub fn uncompress_ivec3(v: u64) -> (r: IVec3)
    ensures
        r == spec_uncompress(v),
{
    let x = ((v as i64) >> 38u64) as i32;
    let y = (((v << 52u64) as i64) >> 52u64) as i32;
    let z = (((v << 26u64) as i64) >> 38u64) as i32;
    IVec3::new(x, y, z)
}

/// Packs a position into its 64-bit form.
pub fn compress_ivec3(v: IVec3) -> (r: u64)
    ensures
        r == spec_compress(v),
{
    (((v.x as u64) & 0x03FF_FFFF) << 38) | (((v.z as u64) & 0x03FF_FFFF) << 12) | ((v.y as u64) & 0xFFF)
}

/// Unpacking a packed position gives it back when each coordinate fits its
/// signed field: `x` and `z` from -2^25 to 2^25 - 1, `y` from -2048 to 2047.
pub proof fn lemma_compress_roundtrip(v: IVec3)
    requires
        -0x0200_0000 <= v.x < 0x0200_0000,
        -0x800 <= v.y < 0x800,
        -0x0200_0000 <= v.z < 0x0200_0000,
    ensures
        spec_uncompress(spec_compress(v)) == v,
{
    let x = v.x;
    let y = v.y;
    let z = v.z;
    assert({
        let c = (((x as u64) & 0x03FF_FFFF) << 38u64) | (((z as u64) & 0x03FF_FFFF) << 12u64) | ((y as u64) & 0xFFF);
        &&& ((c as i64) >> 38u64) as i32 == x
        &&& (((c << 52u64) as i64) >> 52u64) as i32 == y
        &&& (((c << 26u64) as i64) >> 38u64) as i32 == z
    }) by (bit_vector)
        requires
            -0x0200_0000 <= x < 0x0200_0000,
            -0x800 <= y < 0x800,
            -0x0200_0000 <= z < 0x0200_0000,
    ;
}

/// Packing an unpacked position gives back the packed form: every 64-bit
/// value is the packed form of exactly one position.
pub proof fn lemma_uncompress_roundtrip(c: u64)
    ensures
        spec_compress(spec_uncompress(c)) == c,
{
    assert({
        let x = ((c as i64) >> 38u64) as i32;
        let y = (((c << 52u64) as i64) >> 52u64) as i32;
        let z = (((c << 26u64) as i64) >> 38u64) as i32;
        (((x as u64) & 0x03FF_FFFF) << 38u64) | (((z as u64) & 0x03FF_FFFF) << 12u64) | ((y as u64) & 0xFFF) == c
    }) by (bit_vector);
}

/// Reading a vector: packed in a big-endian `u64`, or as three big-endian
/// `i32`s in the order `x`, `y`, `z`.
pub open spec fn ivec3_read(args: IVec3Args, s: Seq<u8>) -> Result<(IVec3, nat), IoError> {
    if args.compressed {
        match fixed_decode(s, 8) {
            Ok((x, n)) => Ok((spec_uncompress(x as u64), n)),
            Err(e) => Err(e),
        }
    } else if s.len() < 12 {
        Err(IoError::UnexpectedEof)
    } else {
        Ok((
            IVec3 {
                x: (fixed_decode(s, 4)->Ok_0.0 as u32) as i32,
                y: (fixed_decode(s.skip(4), 4)->Ok_0.0 as u32) as i32,
                z: (fixed_decode(s.skip(8), 4)->Ok_0.0 as u32) as i32,
            },
            12,
        ))
    }
}

/// Writing a vector: packed in a big-endian `u64`, or as three big-endian
/// `i32`s.
pub open spec fn ivec3_write(args: IVec3Args, v: IVec3) -> Seq<u8> {
    if args.compressed {
        be_bytes(spec_compress(v) as nat, 8)
    } else {
        be_bytes((v.x as u32) as nat, 4) + be_bytes((v.y as u32) as nat, 4) + be_bytes((v.z as u32) as nat, 4)
    }
}

impl McRead for IVec3 {
    type Args = IVec3Args;

    open spec fn spec_read(args: IVec3Args, input: Seq<u8>) -> Result<(IVec3, nat), IoError> {
        ivec3_read(args, input)
    }

    open spec fn read_ok(args: IVec3Args) -> bool {
        true
    }

    open spec fn progresses(args: IVec3Args) -> bool {
        true
    }

    proof fn lemma_read_len(args: IVec3Args, input: Seq<u8>) {
    }

    fn read(reader: &mut Cursor<&[u8]>, args: &IVec3Args) -> (r: Result<IVec3, IoError>) {
        let ghost s = unread(*reader);
        if args.compressed {
            let val = reader.read_u64()?;
            Ok(uncompress_ivec3(val))
        } else {
            let x = reader.read_i32();
            let y = reader.read_i32();
            let z = reader.read_i32();
            proof {
                if s.len() >= 12 {
                    assert(s.skip(4).skip(4) =~= s.skip(8));
                    assert(s.skip(8).skip(4) =~= s.skip(12));
                }
            }
            match (x, y, z) {
                (Ok(x), Ok(y), Ok(z)) => Ok(IVec3::new(x, y, z)),
                _ => Err(IoError::UnexpectedEof),
            }
        }
    }
}

impl McWrite for IVec3 {
    type Args = IVec3Args;

    open spec fn spec_write(v: IVec3, args: IVec3Args) -> Result<Seq<u8>, IoError> {
        Ok(ivec3_write(args, v))
    }

    fn write(&self, writer: &mut Vec<u8>, args: &IVec3Args) -> (r: Result<(), IoError>) {
        let ghost start = writer@;
        if args.compressed {
            let val = compress_ivec3(*self);
            writer.write_u64(val)?;
        } else {
            writer.write_i32(self.x)?;
            writer.write_i32(self.y)?;
            writer.write_i32(self.z)?;
            assert(writer@ =~= start + ivec3_write(*args, *self));
        }
        Ok(())
    }
}

/// Where each coordinate goes in the packed form: `x` in the top 26 bits,
/// `z` in the 26 bits below them and `y` in the low 12, each taken as its
/// two's-complement bits cut to its width.
pub proof fn lemma_compress_layout(v: IVec3)
    ensures
        spec_compress(v) >> 38u64 == (v.x as u64) & 0x03FF_FFFF,
        (spec_compress(v) >> 12u64) & 0x03FF_FFFF == (v.z as u64) & 0x03FF_FFFF,
        spec_compress(v) & 0xFFF == (v.y as u64) & 0xFFF,
{
    let x = v.x;
    let y = v.y;
    let z = v.z;
    assert({
        let c = (((x as u64) & 0x03FF_FFFF) << 38u64) | (((z as u64) & 0x03FF_FFFF) << 12u64) | ((y as u64) & 0xFFF);
        &&& c >> 38u64 == (x as u64) & 0x03FF_FFFF
        &&& (c >> 12u64) & 0x03FF_FFFF == (z as u64) & 0x03FF_FFFF
        &&& c & 0xFFF == (y as u64) & 0xFFF
    }) by (bit_vector);
}

} // verus!
