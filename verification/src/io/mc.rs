//! Types that read themselves from bytes and write themselves to bytes.

use crate::cursor::unread;
use crate::error::IoError;
use crate::io::args::IntArgs;
use crate::io::be::{be_bytes, be_value, lemma_be_value_bound, lemma_pow256_values};
use crate::io::ext::{
    ext_var_i32_bytes, ext_var_i32_decode, ext_var_i64_bytes, ext_var_i64_decode,
    lemma_var_decode_len, ReadMinecraftExt, WriteMinecraftExt,
};
use crate::uuid::Uuid;
use std::io::Cursor;
use vstd::prelude::*;

verus! {

/// How a read's result matches its outcome: on success the value read (taken
/// by its deep view) and the bytes consumed; otherwise the error.
pub open spec fn read_outcome<T: DeepView>(
    before: Seq<u8>,
    after: Seq<u8>,
    outcome: Result<(T::V, nat), IoError>,
    r: Result<T, IoError>,
) -> bool {
    match outcome {
        Ok((v, n)) => (r matches Ok(x) && x.deep_view() == v) && after == before.skip(n as int),
        Err(e) => r matches Err(e2) && e2 == e,
    }
}

/// How a write's result matches its outcome: on success exactly these bytes
/// are appended; otherwise the error is returned (and what was appended
/// before the failure is left unsaid).
pub open spec fn write_outcome(
    before: Seq<u8>,
    after: Seq<u8>,
    outcome: Result<Seq<u8>, IoError>,
    r: Result<(), IoError>,
) -> bool {
    match outcome {
        Ok(b) => r is Ok && after == before + b,
        Err(e) => r == Err::<(), IoError>(e),
    }
}

/// Bytes written one part after another: the first part's bytes, then the
/// second's; or the first error.
pub open spec fn then_write(a: Result<Seq<u8>, IoError>, b: Result<Seq<u8>, IoError>) -> Result<Seq<u8>, IoError> {
    match a {
        Err(e) => Err(e),
        Ok(x) => match b {
            Err(e) => Err(e),
            Ok(y) => Ok(x + y),
        },
    }
}

/// Reading `n` bytes as a big-endian number.
pub open spec fn fixed_decode(s: Seq<u8>, n: nat) -> Result<(nat, nat), IoError> {
    if s.len() < n {
        Err(IoError::UnexpectedEof)
    } else {
        Ok((be_value(s.take(n as int)), n))
    }
}

/// A type that can be read from a stream of bytes.
pub trait McRead: Sized + DeepView {
    /// The arguments for reading this type.
    type Args;

    /// What reading a value with `args` from the front of `input` gives: the
    /// value and the number of bytes it takes, or the error.
    spec fn spec_read(args: Self::Args, input: Seq<u8>) -> Result<(Self::V, nat), IoError>;

    /// The arguments with which reading always comes to an end.
    spec fn read_ok(args: Self::Args) -> bool;

    /// Every successful read with `args` takes at least one byte.
    spec fn progresses(args: Self::Args) -> bool;

    /// A successful read takes no more than the input, and at least one byte
    /// when the arguments promise progress.
    proof fn lemma_read_len(args: Self::Args, input: Seq<u8>)
        ensures
            Self::spec_read(args, input) matches Ok((_, n)) ==> n <= input.len() && (
            Self::progresses(args) ==> n > 0),
    ;

    /// Reads this type from the given reader.
    fn read(reader: &mut Cursor<&[u8]>, args: &Self::Args) -> (r: Result<Self, IoError>)
        requires
            Self::read_ok(*args),
        ensures
            read_outcome(
                unread(*old(reader)),
                unread(*final(reader)),
                Self::spec_read(*args, unread(*old(reader))),
                r,
            ),
    ;
}

/// A type that can be written to a stream of bytes.
pub trait McWrite: Sized + DeepView {
    /// The arguments for writing this type.
    type Args;

    /// What writing a value with `args` gives: the bytes, or the error.
    spec fn spec_write(v: Self::V, args: Self::Args) -> Result<Seq<u8>, IoError>;

    /// Writes this value to the given writer.
    fn write(&self, writer: &mut Vec<u8>, args: &Self::Args) -> (r: Result<(), IoError>)
        ensures
            write_outcome(old(writer)@, final(writer)@, Self::spec_write(self.deep_view(), *args), r),
    ;
}

impl McRead for u8 {
    type Args = ();

    open spec fn spec_read(args: (), input: Seq<u8>) -> Result<(u8, nat), IoError> {
        if input.len() < 1 {
            Err(IoError::UnexpectedEof)
        } else {
            Ok((input[0], 1))
        }
    }

    open spec fn read_ok(args: ()) -> bool {
        true
    }

    open spec fn progresses(args: ()) -> bool {
        true
    }

    proof fn lemma_read_len(args: (), input: Seq<u8>) {
    }

    fn read(reader: &mut Cursor<&[u8]>, args: &()) -> (r: Result<u8, IoError>) {
        reader.read_u8()
    }
}

impl McWrite for u8 {
    type Args = ();

    open spec fn spec_write(v: u8, args: ()) -> Result<Seq<u8>, IoError> {
        Ok(seq![v])
    }

    fn write(&self, writer: &mut Vec<u8>, args: &()) -> (r: Result<(), IoError>) {
        let r = writer.write_u8(*self);
        assert(writer@ =~= old(writer)@ + seq![*self]);
        r
    }
}

impl McRead for u16 {
    type Args = ();

    open spec fn spec_read(args: (), input: Seq<u8>) -> Result<(u16, nat), IoError> {
        match fixed_decode(input, 2) {
            Ok((x, n)) => Ok(((x as u16), n)),
            Err(e) => Err(e),
        }
    }

    open spec fn read_ok(args: ()) -> bool {
        true
    }

    open spec fn progresses(args: ()) -> bool {
        true
    }

    proof fn lemma_read_len(args: (), input: Seq<u8>) {
    }

    fn read(reader: &mut Cursor<&[u8]>, args: &()) -> (r: Result<u16, IoError>) {
        reader.read_u16()
    }
}

impl McWrite for u16 {
    type Args = ();

    open spec fn spec_write(v: u16, args: ()) -> Result<Seq<u8>, IoError> {
        Ok(be_bytes(v as nat, 2))
    }

    fn write(&self, writer: &mut Vec<u8>, args: &()) -> (r: Result<(), IoError>) {
        writer.write_u16(*self)
    }
}

impl McRead for u32 {
    type Args = ();

    open spec fn spec_read(args: (), input: Seq<u8>) -> Result<(u32, nat), IoError> {
        match fixed_decode(input, 4) {
            Ok((x, n)) => Ok(((x as u32), n)),
            Err(e) => Err(e),
        }
    }

    open spec fn read_ok(args: ()) -> bool {
        true
    }

    open spec fn progresses(args: ()) -> bool {
        true
    }

    proof fn lemma_read_len(args: (), input: Seq<u8>) {
    }

    fn read(reader: &mut Cursor<&[u8]>, args: &()) -> (r: Result<u32, IoError>) {
        reader.read_u32()
    }
}

impl McWrite for u32 {
    type Args = ();

    open spec fn spec_write(v: u32, args: ()) -> Result<Seq<u8>, IoError> {
        Ok(be_bytes(v as nat, 4))
    }

    fn write(&self, writer: &mut Vec<u8>, args: &()) -> (r: Result<(), IoError>) {
        writer.write_u32(*self)
    }
}

impl McRead for u64 {
    type Args = ();

    open spec fn spec_read(args: (), input: Seq<u8>) -> Result<(u64, nat), IoError> {
        match fixed_decode(input, 8) {
            Ok((x, n)) => Ok(((x as u64), n)),
            Err(e) => Err(e),
        }
    }

    open spec fn read_ok(args: ()) -> bool {
        true
    }

    open spec fn progresses(args: ()) -> bool {
        true
    }

    proof fn lemma_read_len(args: (), input: Seq<u8>) {
    }

    fn read(reader: &mut Cursor<&[u8]>, args: &()) -> (r: Result<u64, IoError>) {
        reader.read_u64()
    }
}

impl McWrite for u64 {
    type Args = ();

    open spec fn spec_write(v: u64, args: ()) -> Result<Seq<u8>, IoError> {
        Ok(be_bytes(v as nat, 8))
    }

    fn write(&self, writer: &mut Vec<u8>, args: &()) -> (r: Result<(), IoError>) {
        writer.write_u64(*self)
    }
}

impl McRead for u128 {
    type Args = ();

    open spec fn spec_read(args: (), input: Seq<u8>) -> Result<(u128, nat), IoError> {
        match fixed_decode(input, 16) {
            Ok((x, n)) => Ok(((x as u128), n)),
            Err(e) => Err(e),
        }
    }

    open spec fn read_ok(args: ()) -> bool {
        true
    }

    open spec fn progresses(args: ()) -> bool {
        true
    }

    proof fn lemma_read_len(args: (), input: Seq<u8>) {
    }

    fn read(reader: &mut Cursor<&[u8]>, args: &()) -> (r: Result<u128, IoError>) {
        reader.read_u128()
    }
}

impl McWrite for u128 {
    type Args = ();

    open spec fn spec_write(v: u128, args: ()) -> Result<Seq<u8>, IoError> {
        Ok(be_bytes(v as nat, 16))
    }

    fn write(&self, writer: &mut Vec<u8>, args: &()) -> (r: Result<(), IoError>) {
        writer.write_u128(*self)
    }
}

impl McRead for i16 {
    type Args = ();

    open spec fn spec_read(args: (), input: Seq<u8>) -> Result<(i16, nat), IoError> {
        match fixed_decode(input, 2) {
            Ok((x, n)) => Ok((((x as u16) as i16), n)),
            Err(e) => Err(e),
        }
    }

    open spec fn read_ok(args: ()) -> bool {
        true
    }

    open spec fn progresses(args: ()) -> bool {
        true
    }

    proof fn lemma_read_len(args: (), input: Seq<u8>) {
    }

    fn read(reader: &mut Cursor<&[u8]>, args: &()) -> (r: Result<i16, IoError>) {
        reader.read_i16()
    }
}

impl McWrite for i16 {
    type Args = ();

    open spec fn spec_write(v: i16, args: ()) -> Result<Seq<u8>, IoError> {
        Ok(be_bytes((v as u16) as nat, 2))
    }

    fn write(&self, writer: &mut Vec<u8>, args: &()) -> (r: Result<(), IoError>) {
        writer.write_i16(*self)
    }
}

impl McRead for i128 {
    type Args = ();

    open spec fn spec_read(args: (), input: Seq<u8>) -> Result<(i128, nat), IoError> {
        match fixed_decode(input, 16) {
            Ok((x, n)) => Ok((((x as u128) as i128), n)),
            Err(e) => Err(e),
        }
    }

    open spec fn read_ok(args: ()) -> bool {
        true
    }

    open spec fn progresses(args: ()) -> bool {
        true
    }

    proof fn lemma_read_len(args: (), input: Seq<u8>) {
    }

    fn read(reader: &mut Cursor<&[u8]>, args: &()) -> (r: Result<i128, IoError>) {
        reader.read_i128()
    }
}

impl McWrite for i128 {
    type Args = ();

    open spec fn spec_write(v: i128, args: ()) -> Result<Seq<u8>, IoError> {
        Ok(be_bytes((v as u128) as nat, 16))
    }

    fn write(&self, writer: &mut Vec<u8>, args: &()) -> (r: Result<(), IoError>) {
        writer.write_i128(*self)
    }
}

impl McRead for i8 {
    type Args = ();

    open spec fn spec_read(args: (), input: Seq<u8>) -> Result<(i8, nat), IoError> {
        if input.len() < 1 {
            Err(IoError::UnexpectedEof)
        } else {
            Ok((input[0] as i8, 1))
        }
    }

    open spec fn read_ok(args: ()) -> bool {
        true
    }

    open spec fn progresses(args: ()) -> bool {
        true
    }

    proof fn lemma_read_len(args: (), input: Seq<u8>) {
    }

    fn read(reader: &mut Cursor<&[u8]>, args: &()) -> (r: Result<i8, IoError>) {
        reader.read_i8()
    }
}

impl McWrite for i8 {
    type Args = ();

    open spec fn spec_write(v: i8, args: ()) -> Result<Seq<u8>, IoError> {
        Ok(seq![v as u8])
    }

    fn write(&self, writer: &mut Vec<u8>, args: &()) -> (r: Result<(), IoError>) {
        let r = writer.write_i8(*self);
        assert(writer@ =~= old(writer)@ + seq![*self as u8]);
        r
    }
}

impl McRead for bool {
    type Args = ();

    open spec fn spec_read(args: (), input: Seq<u8>) -> Result<(bool, nat), IoError> {
        if input.len() < 1 {
            Err(IoError::UnexpectedEof)
        } else {
            Ok((input[0] != 0, 1))
        }
    }

    open spec fn read_ok(args: ()) -> bool {
        true
    }

    open spec fn progresses(args: ()) -> bool {
        true
    }

    proof fn lemma_read_len(args: (), input: Seq<u8>) {
    }

    fn read(reader: &mut Cursor<&[u8]>, args: &()) -> (r: Result<bool, IoError>) {
        Ok(reader.read_u8()? != 0x00)
    }
}

impl McWrite for bool {
    type Args = ();

    open spec fn spec_write(v: bool, args: ()) -> Result<Seq<u8>, IoError> {
        Ok(
            seq![
                if v {
                    1u8
                } else {
                    0u8
                },
            ],
        )
    }

    fn write(&self, writer: &mut Vec<u8>, args: &()) -> (r: Result<(), IoError>) {
        let b: u8 = if *self {
            0x01
        } else {
            0x00
        };
        let r = writer.write_u8(b);
        assert(writer@ =~= old(writer)@ + seq![b]);
        r
    }
}

impl McRead for i32 {
    type Args = IntArgs;

    open spec fn spec_read(args: IntArgs, input: Seq<u8>) -> Result<(i32, nat), IoError> {
        if args.varint {
            ext_var_i32_decode(input)
        } else {
            match fixed_decode(input, 4) {
                Ok((x, n)) => Ok(((x as u32) as i32, n)),
                Err(e) => Err(e),
            }
        }
    }

    open spec fn read_ok(args: IntArgs) -> bool {
        true
    }

    open spec fn progresses(args: IntArgs) -> bool {
        true
    }

    proof fn lemma_read_len(args: IntArgs, input: Seq<u8>) {
        lemma_var_decode_len(input, 5, 5);
    }

    fn read(reader: &mut Cursor<&[u8]>, args: &IntArgs) -> (r: Result<i32, IoError>) {
        match args.varint {
            true => reader.read_var_i32(),
            false => reader.read_i32(),
        }
    }
}

impl McWrite for i32 {
    type Args = IntArgs;

    open spec fn spec_write(v: i32, args: IntArgs) -> Result<Seq<u8>, IoError> {
        if args.varint {
            Ok(ext_var_i32_bytes(v))
        } else {
            Ok(be_bytes((v as u32) as nat, 4))
        }
    }

    fn write(&self, writer: &mut Vec<u8>, args: &IntArgs) -> (r: Result<(), IoError>) {
        match args.varint {
            true => writer.write_var_i32(*self),
            false => writer.write_i32(*self),
        }
    }
}

impl McRead for i64 {
    type Args = IntArgs;

    open spec fn spec_read(args: IntArgs, input: Seq<u8>) -> Result<(i64, nat), IoError> {
        if args.varint {
            ext_var_i64_decode(input)
        } else {
            match fixed_decode(input, 8) {
                Ok((x, n)) => Ok(((x as u64) as i64, n)),
                Err(e) => Err(e),
            }
        }
    }

    open spec fn read_ok(args: IntArgs) -> bool {
        true
    }

    open spec fn progresses(args: IntArgs) -> bool {
        true
    }

    proof fn lemma_read_len(args: IntArgs, input: Seq<u8>) {
        lemma_var_decode_len(input, 10, 10);
    }

    fn read(reader: &mut Cursor<&[u8]>, args: &IntArgs) -> (r: Result<i64, IoError>) {
        match args.varint {
            true => reader.read_var_i64(),
            false => reader.read_i64(),
        }
    }
}

impl McWrite for i64 {
    type Args = IntArgs;

    open spec fn spec_write(v: i64, args: IntArgs) -> Result<Seq<u8>, IoError> {
        if args.varint {
            Ok(ext_var_i64_bytes(v))
        } else {
            Ok(be_bytes((v as u64) as nat, 8))
        }
    }

    fn write(&self, writer: &mut Vec<u8>, args: &IntArgs) -> (r: Result<(), IoError>) {
        match args.varint {
            true => writer.write_var_i64(*self),
            false => writer.write_i64(*self),
        }
    }
}

impl McRead for Uuid {
    type Args = ();

    open spec fn spec_read(args: (), input: Seq<u8>) -> Result<(u128, nat), IoError> {
        match fixed_decode(input, 16) {
            Ok((x, n)) => Ok((x as u128, n)),
            Err(e) => Err(e),
        }
    }

    open spec fn read_ok(args: ()) -> bool {
        true
    }

    open spec fn progresses(args: ()) -> bool {
        true
    }

    proof fn lemma_read_len(args: (), input: Seq<u8>) {
    }

    fn read(reader: &mut Cursor<&[u8]>, args: &()) -> (r: Result<Uuid, IoError>) {
        proof {
            lemma_be_value_bound(unread(*reader).take(16));
            lemma_pow256_values();
        }
        reader.read_uuid()
    }
}

impl McWrite for Uuid {
    type Args = ();

    open spec fn spec_write(v: u128, args: ()) -> Result<Seq<u8>, IoError> {
        Ok(be_bytes(v as nat, 16))
    }

    fn write(&self, writer: &mut Vec<u8>, args: &()) -> (r: Result<(), IoError>) {
        writer.write_uuid(*self)
    }
}

} // verus!
