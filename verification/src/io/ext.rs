//! Reading and writing [Minecraft protocol data types][1] from and to bytes.
//!
//! **Note:** every fixed-size integer is big-endian.
//!
//! [1]: https://wiki.vg/Protocol#Data_types

use crate::cursor::{cursor_data, cursor_get_ref, cursor_new, cursor_pos, read_byte, remaining, unread};
use crate::error::IoError;
use crate::io::be::{be_bytes, be_value, lemma_be_bytes_len, lemma_be_bytes_shape, lemma_be_value_bound, pow256};
use crate::io::packet::packet_len;
use crate::bits::{lemma_low_group, lemma_low_group_u64, lemma_word_2, lemma_word_3, lemma_word_4, lemma_word_5};
use crate::io::packet::RawPacket;
use crate::io::util::varint_bytes;
use crate::text::string_from_utf8;
use crate::uuid::Uuid;
use crate::varint::{
    lemma_leb128_decodes, lemma_u32_i32_roundtrip,
    group_sum, lemma_accumulate, lemma_accumulate_u64, lemma_group_sum_bound, lemma_leb128_shape,
    lemma_pow128_values, lemma_var_end_bounds, lemma_var_end_skip, pow128, var_decode, var_end,
    var_i32_bytes, unsigned32, leb128, lemma_var_i32_bytes_len, lemma_var_i32_roundtrip, var_i32_decode,
    lemma_accumulate_u64_last, lemma_leb128_len,
};
use vstd::string::StringSliceAdditionalSpecFns;
use vstd::utf8::{decode_utf8, encode_utf8, encode_utf8_decode_utf8, encode_utf8_valid_utf8, valid_utf8};
use std::io::Cursor;
use vstd::prelude::*;

verus! {

/// `256^i` grows with `i`.
pub proof fn lemma_pow256_monotonic(i: nat, j: nat)
    requires
        i <= j,
    ensures
        pow256(i) <= pow256(j),
    decreases j - i,
{
    if i < j {
        lemma_pow256_monotonic(i, (j - 1) as nat);
        assert(pow256(j) == 256 * pow256((j - 1) as nat));
    }
}

/// What a read of a fixed number `n` of bytes promises: with fewer than `n`
/// bytes left it fails with `UnexpectedEof`; otherwise it gives `value` and
/// moves past exactly `n` bytes.
pub open spec fn fixed_read<T>(
    before: Seq<u8>,
    after: Seq<u8>,
    n: nat,
    r: Result<T, IoError>,
    value: T,
) -> bool {
    if before.len() < n {
        r == Err::<T, IoError>(IoError::UnexpectedEof)
    } else {
        r == Ok::<T, IoError>(value) && after == before.skip(n as int)
    }
}

/// Reads `n` bytes as a big-endian number.
pub fn read_be(c: &mut Cursor<&[u8]>, n: usize) -> (r: Option<u128>)
    requires
        n <= 16,
    ensures
        unread(*old(c)).len() < n ==> r is None,
        unread(*old(c)).len() >= n ==> r == Some(be_value(unread(*old(c)).take(n as int)) as u128)
            && unread(*final(c)) == unread(*old(c)).skip(n as int),
{
    let ghost s = unread(*c);
    if remaining(c) < n {
        return None;
    }
    let mut acc: u128 = 0;
    let mut i: usize = 0;
    assert(s.take(0) =~= Seq::<u8>::empty());
    assert(s.skip(0) =~= s);
    while i < n
        invariant
            i <= n <= 16,
            n <= s.len(),
            unread(*c) == s.skip(i as int),
            acc as nat == be_value(s.take(i as int)),
        decreases n - i,
    {
        let b = match read_byte(c) {
            Some(b) => b,
            None => {
                return None;
            },
        };
        proof {
            lemma_be_value_bound(s.take(i as int));
            lemma_pow256_monotonic(i as nat, 15);
            reveal_with_fuel(pow256, 17);
            assert(pow256(15) == 0x1_0000_0000_0000_0000_0000_0000_0000_00);
            assert(s.take(i + 1).drop_last() =~= s.take(i as int));
            assert(s.skip(i as int).drop_first() =~= s.skip(i + 1));
        }
        acc = acc * 256 + b as u128;
        i = i + 1;
    }
    Some(acc)
}

/// What a read of a variable-size item promises: on success it gives the
/// value and moves past the `n` bytes the outcome names; otherwise it fails
/// with the outcome's error.
pub open spec fn decoded<T>(
    before: Seq<u8>,
    after: Seq<u8>,
    outcome: Result<(T, nat), IoError>,
    r: Result<T, IoError>,
) -> bool {
    match outcome {
        Ok((v, n)) => r == Ok::<T, IoError>(v) && after == before.skip(n as int),
        Err(e) => r == Err::<T, IoError>(e),
    }
}

/// Decoding a VarInt: at most five groups, the value being the low 32 bits
/// of what they stand for.
pub open spec fn ext_var_i32_decode(s: Seq<u8>) -> Result<(i32, nat), IoError> {
    var_i32_decode(s)
}

/// Decoding a VarInt that gives a length: a negative value is invalid.
pub open spec fn var_len_decode(s: Seq<u8>) -> Result<(nat, nat), IoError> {
    match ext_var_i32_decode(s) {
        Ok((v, n)) => if v < 0 {
            Err(IoError::InvalidData)
        } else {
            Ok((v as nat, n))
        },
        Err(e) => Err(e),
    }
}

/// Decoding a VarLong: at most ten groups, the value being the low 64 bits
/// of what they stand for.
pub open spec fn ext_var_i64_decode(s: Seq<u8>) -> Result<(i64, nat), IoError> {
    match var_decode(s, 10, 10) {
        Ok((x, n)) => Ok(((x % 0x1_0000_0000_0000_0000) as u64 as i64, n)),
        Err(e) => Err(e),
    }
}

/// Decoding a byte array prefixed by its VarInt length.
pub open spec fn bytes_var_i32_decode(s: Seq<u8>) -> Result<(Seq<u8>, nat), IoError> {
    match var_len_decode(s) {
        Err(e) => Err(e),
        Ok((len, n)) => if s.len() - n < len {
            Err(IoError::UnexpectedEof)
        } else {
            Ok((s.subrange(n as int, (n + len) as int), n + len))
        },
    }
}

/// Decoding a string: a length-prefixed byte array that must be valid UTF-8.
pub open spec fn string_decode(s: Seq<u8>) -> Result<(Seq<char>, nat), IoError> {
    match bytes_var_i32_decode(s) {
        Err(e) => Err(e),
        Ok((b, n)) => if valid_utf8(b) {
            Ok((decode_utf8(b), n))
        } else {
            Err(IoError::InvalidData)
        },
    }
}

/// The smaller of two numbers.
pub open spec fn min_nat(a: nat, b: nat) -> nat {
    if a <= b {
        a
    } else {
        b
    }
}

/// Decoding a packet: its length, then, once all `length` bytes that follow
/// are there, the VarInt ID and the body within them. Gives the ID, the body
/// and the number of bytes used; input that holds fewer than `length` bytes
/// after the length has ended too early.
pub open spec fn packet_decode(s: Seq<u8>) -> Result<(i32, Seq<u8>, nat), IoError> {
    match var_len_decode(s) {
        Err(e) => Err(e),
        Ok((len, n)) => if s.len() < n + len {
            Err(IoError::UnexpectedEof)
        } else {
            let w = s.subrange(n as int, (n + len) as int);
            match ext_var_i32_decode(w) {
                Err(e) => Err(e),
                Ok((id, m)) => Ok((id, w.skip(m as int), n + len)),
            }
        },
    }
}

/// After a read that took `k` bytes of what was left, with the data the
/// same and the position within it, the position has moved by `k`.
pub proof fn lemma_unread_pos(c0: Cursor<&[u8]>, c1: Cursor<&[u8]>, k: nat)
    requires
        cursor_data(c1) == cursor_data(c0),
        cursor_pos(c1) <= cursor_data(c1).len(),
        1 <= k <= unread(c0).len(),
        unread(c1) == unread(c0).skip(k as int),
    ensures
        cursor_pos(c1) == cursor_pos(c0) + k,
{
    let d = cursor_data(c0);
    assert(cursor_pos(c0) < d.len());
    assert(unread(c0).len() == d.len() - cursor_pos(c0));
    assert(unread(c1).len() == d.len() - cursor_pos(c0) - k);
    if cursor_pos(c1) < d.len() {
        assert(unread(c1).len() == d.len() - cursor_pos(c1));
    }
}

/// A decode of at most `accept` groups, when it succeeds, uses between one
/// and all of the input's bytes, and its value is below `128^n`.
pub proof fn lemma_var_decode_len(s: Seq<u8>, accept: nat, width: nat)
    ensures
        var_decode(s, accept, width) matches Ok((x, n)) ==> 1 <= n <= s.len() && n <= accept && x
            < pow128(n),
{
    lemma_var_end_bounds(s, 0, accept);
    if let Some(k) = var_end(s, 0, accept) {
        lemma_group_sum_bound(s, k + 1);
    }
}

/// Reads exactly `len` bytes; fails with `UnexpectedEof` when fewer are left.
pub fn read_exact_bytes(c: &mut Cursor<&[u8]>, len: usize) -> (r: Result<Vec<u8>, IoError>)
    ensures
        unread(*old(c)).len() < len ==> r == Err::<Vec<u8>, IoError>(IoError::UnexpectedEof),
        unread(*old(c)).len() >= len ==> (r matches Ok(v) && v@ == unread(*old(c)).take(
            len as int,
        )) && unread(*final(c)) == unread(*old(c)).skip(len as int)
            && cursor_pos(*final(c)) == cursor_pos(*old(c)) + len,
        cursor_data(*final(c)) == cursor_data(*old(c)),
{
    let ghost t = unread(*c);
    if remaining(c) < len {
        return Err(IoError::UnexpectedEof);
    }
    let mut bytes: Vec<u8> = Vec::new();
    let mut i: usize = 0;
    assert(t.skip(0) =~= t);
    while i < len
        invariant
            i <= len <= t.len(),
            unread(*c) == t.skip(i as int),
            bytes@ == t.take(i as int),
            cursor_data(*c) == cursor_data(*old(c)),
            cursor_pos(*c) == cursor_pos(*old(c)) + i,
        decreases len - i,
    {
        let b = match read_byte(c) {
            Some(b) => b,
            None => {
                return Err(IoError::UnexpectedEof);
            },
        };
        proof {
            assert(t.skip(i as int).drop_first() =~= t.skip(i + 1));
            assert(t.take(i + 1) =~= t.take(i as int).push(b));
        }
        bytes.push(b);
        i = i + 1;
    }
    Ok(bytes)
}

/// Extends a byte reader with methods for reading Minecraft protocol data
/// types.
pub trait ReadMinecraftExt: Sized {
    /// The bytes that are left to read.
    spec fn input(&self) -> Seq<u8>;

    /// How far into its data the reader is.
    spec fn offset(&self) -> int;

    /// Reads an unsigned 8 bit integer as a boolean: any nonzero byte is `true`.
    fn read_bool(&mut self) -> (r: Result<bool, IoError>)
        ensures
            fixed_read(old(self).input(), final(self).input(), 1, r, old(self).input()[0] != 0),
    ;

    /// Reads an unsigned 8 bit integer.
    fn read_u8(&mut self) -> (r: Result<u8, IoError>)
        ensures
            fixed_read(old(self).input(), final(self).input(), 1, r, old(self).input()[0]),
    ;

    /// Reads an unsigned 16 bit integer.
    fn read_u16(&mut self) -> (r: Result<u16, IoError>)
        ensures
            fixed_read(
                old(self).input(),
                final(self).input(),
                2,
                r,
                be_value(old(self).input().take(2)) as u16,
            ),
    ;

    /// Reads an unsigned 32 bit integer.
    fn read_u32(&mut self) -> (r: Result<u32, IoError>)
        ensures
            fixed_read(
                old(self).input(),
                final(self).input(),
                4,
                r,
                be_value(old(self).input().take(4)) as u32,
            ),
    ;

    /// Reads an unsigned 64 bit integer.
    fn read_u64(&mut self) -> (r: Result<u64, IoError>)
        ensures
            fixed_read(
                old(self).input(),
                final(self).input(),
                8,
                r,
                be_value(old(self).input().take(8)) as u64,
            ),
    ;

    /// Reads an unsigned 128 bit integer.
    fn read_u128(&mut self) -> (r: Result<u128, IoError>)
        ensures
            fixed_read(
                old(self).input(),
                final(self).input(),
                16,
                r,
                be_value(old(self).input().take(16)) as u128,
            ),
    ;

    /// Reads a signed 8 bit integer (two's complement).
    fn read_i8(&mut self) -> (r: Result<i8, IoError>)
        ensures
            fixed_read(old(self).input(), final(self).input(), 1, r, old(self).input()[0] as i8),
    ;

    /// Reads a signed 16 bit integer (two's complement).
    fn read_i16(&mut self) -> (r: Result<i16, IoError>)
        ensures
            fixed_read(
                old(self).input(),
                final(self).input(),
                2,
                r,
                (be_value(old(self).input().take(2)) as u16) as i16,
            ),
    ;

    /// Reads a signed 32 bit integer (two's complement).
    fn read_i32(&mut self) -> (r: Result<i32, IoError>)
        ensures
            fixed_read(
                old(self).input(),
                final(self).input(),
                4,
                r,
                (be_value(old(self).input().take(4)) as u32) as i32,
            ),
    ;

    /// Reads a signed 64 bit integer (two's complement).
    fn read_i64(&mut self) -> (r: Result<i64, IoError>)
        ensures
            fixed_read(
                old(self).input(),
                final(self).input(),
                8,
                r,
                (be_value(old(self).input().take(8)) as u64) as i64,
            ),
    ;

    /// Reads a signed 128 bit integer (two's complement).
    fn read_i128(&mut self) -> (r: Result<i128, IoError>)
        ensures
            fixed_read(
                old(self).input(),
                final(self).input(),
                16,
                r,
                (be_value(old(self).input().take(16)) as u128) as i128,
            ),
    ;

    /// Reads a UUID as an unsigned 128 bit integer.
    fn read_uuid(&mut self) -> (r: Result<Uuid, IoError>)
        ensures
            old(self).input().len() < 16 ==> r == Err::<Uuid, IoError>(IoError::UnexpectedEof),
            old(self).input().len() >= 16 ==> (r matches Ok(u) && u@ == be_value(
                old(self).input().take(16),
            ) && final(self).input() == old(self).input().skip(16)),
    ;

    /// Reads a signed 32 bit integer, using variable-length encoding.
    fn read_var_i32(&mut self) -> (r: Result<i32, IoError>)
        ensures
            decoded(old(self).input(), final(self).input(), ext_var_i32_decode(old(self).input()), r),
    ;

    /// Reads a signed 32 bit integer as a `usize`, using variable-length
    /// encoding; a negative value is invalid.
    fn read_var_i32_len(&mut self) -> (r: Result<usize, IoError>)
        ensures
            match var_len_decode(old(self).input()) {
                Ok((v, n)) => r == Ok::<usize, IoError>(v as usize) && final(self).input() == old(self).input().skip(n as int),
                Err(e) => r == Err::<usize, IoError>(e),
            },
    ;

    /// Reads a signed 64 bit integer, using variable-length encoding.
    fn read_var_i64(&mut self) -> (r: Result<i64, IoError>)
        ensures
            decoded(old(self).input(), final(self).input(), ext_var_i64_decode(old(self).input()), r),
    ;

    /// Reads bytes prefixed by their count as a VarInt.
    fn read_bytes_var_i32(&mut self) -> (r: Result<Vec<u8>, IoError>)
        ensures
            match bytes_var_i32_decode(old(self).input()) {
                Ok((b, n)) => r matches Ok(v) && v@ == b && final(self).input() == old(self).input().skip(n as int),
                Err(e) => r matches Err(e2) && e2 == e,
            },
    ;

    /// Reads all remaining bytes.
    fn read_bytes_remaining(&mut self) -> (r: Result<Vec<u8>, IoError>)
        ensures
            r matches Ok(v) && v@ == old(self).input() && final(self).input().len() == 0,
    ;

    /// Reads a string prefixed by its byte count as a VarInt.
    fn read_string(&mut self) -> (r: Result<String, IoError>)
        ensures
            match string_decode(old(self).input()) {
                Ok((c, n)) => r matches Ok(v) && v@ == c && final(self).input() == old(self).input().skip(n as int),
                Err(e) => r matches Err(e2) && e2 == e,
            },
    ;

    /// Reads a single packet.
    fn read_packet(&mut self) -> (r: Result<RawPacket, IoError>)
        ensures
            match packet_decode(old(self).input()) {
                Ok((id, body, n)) => r matches Ok(p) && p.id == id && p.body@ == body && final(self).input() == old(self).input().skip(n as int)
                    && final(self).offset() == old(self).offset() + n,
                Err(e) => r matches Err(e2) && e2 == e,
            },
    ;
}

/// Reads one byte from a cursor.
fn cursor_read_u8(c: &mut Cursor<&[u8]>) -> (r: Result<u8, IoError>)
    ensures
        fixed_read(unread(*old(c)), unread(*final(c)), 1, r, unread(*old(c))[0]),
{
    let ghost before = unread(*c);
    match read_byte(c) {
        Some(x) => {
            assert(unread(*c) =~= before.skip(1));
            Ok(x)
        },
        None => Err(IoError::UnexpectedEof),
    }
}

impl<'a> ReadMinecraftExt for Cursor<&'a [u8]> {
    open spec fn input(&self) -> Seq<u8> {
        unread(*self)
    }

    open spec fn offset(&self) -> int {
        cursor_pos(*self) as int
    }

    fn read_bool(&mut self) -> (r: Result<bool, IoError>) {
        Ok(self.read_u8()? != 0x00)
    }

    fn read_u8(&mut self) -> (r: Result<u8, IoError>) {
        let r = cursor_read_u8(self);
        assert(old(self).input() == unread(*old(self)));
        assert(self.input() == unread(*self));
        r
    }

    fn read_u16(&mut self) -> (r: Result<u16, IoError>) {
        proof {
            lemma_be_value_bound(unread(*self).take(2));
            reveal_with_fuel(pow256, 3);
        }
        match read_be(self, 2) {
            Some(v) => Ok(v as u16),
            None => Err(IoError::UnexpectedEof),
        }
    }

    fn read_u32(&mut self) -> (r: Result<u32, IoError>) {
        proof {
            lemma_be_value_bound(unread(*self).take(4));
            reveal_with_fuel(pow256, 5);
        }
        match read_be(self, 4) {
            Some(v) => Ok(v as u32),
            None => Err(IoError::UnexpectedEof),
        }
    }

    fn read_u64(&mut self) -> (r: Result<u64, IoError>) {
        proof {
            lemma_be_value_bound(unread(*self).take(8));
            reveal_with_fuel(pow256, 9);
        }
        match read_be(self, 8) {
            Some(v) => Ok(v as u64),
            None => Err(IoError::UnexpectedEof),
        }
    }

    fn read_u128(&mut self) -> (r: Result<u128, IoError>) {
        match read_be(self, 16) {
            Some(v) => Ok(v),
            None => Err(IoError::UnexpectedEof),
        }
    }

    fn read_i8(&mut self) -> (r: Result<i8, IoError>) {
        Ok(self.read_u8()? as i8)
    }

    fn read_i16(&mut self) -> (r: Result<i16, IoError>) {
        Ok(self.read_u16()? as i16)
    }

    fn read_i32(&mut self) -> (r: Result<i32, IoError>) {
        Ok(self.read_u32()? as i32)
    }

    fn read_i64(&mut self) -> (r: Result<i64, IoError>) {
        Ok(self.read_u64()? as i64)
    }

    fn read_i128(&mut self) -> (r: Result<i128, IoError>) {
        Ok(self.read_u128()? as i128)
    }

    fn read_uuid(&mut self) -> (r: Result<Uuid, IoError>) {
        proof {
            lemma_be_value_bound(unread(*self).take(16));
            crate::io::be::lemma_pow256_values();
        }
        Ok(Uuid::from_u128(self.read_u128()?))
    }

    fn read_var_i32(&mut self) -> (r: Result<i32, IoError>) {
        let r = crate::varint::read_var_i32(self);
        assert(old(self).input() == unread(*old(self)));
        assert(self.input() == unread(*self));
        r
    }

    fn read_var_i32_len(&mut self) -> (r: Result<usize, IoError>) {
        let value = self.read_var_i32()?;
        if value < 0 {
            return Err(IoError::InvalidData);
        }
        Ok(value as usize)
    }

    fn read_var_i64(&mut self) -> (r: Result<i64, IoError>) {
        let ghost s = unread(*self);
        proof {
            lemma_var_decode_len(s, 10, 10);
        }
        let mut value: u64 = 0;
        let mut position: u8 = 0;
        loop
            invariant
                s == old(self).input(),
                position % 7 == 0,
                position <= 63,
                unread(*self) == s.skip((position / 7) as int),
                position / 7 <= s.len(),
                forall|j: int| 0 <= j < position / 7 ==> s[j] >= 128,
                value as nat == group_sum(s, (position / 7) as nat),
            decreases 63 - position,
        {
            let ghost k = (position / 7) as nat;
            proof {
                lemma_var_end_skip(s, k, 10);
                lemma_pow128_values();
            }
            let byte = self.read_u8()?;
            proof {
                assert(unread(*self) =~= s.skip((k + 1) as int));
            }
            if position == 63 {
                proof {
                    lemma_accumulate_u64_last(s, value, byte);
                }
                value = value | (((byte & 0x7F) as u64) << 63u8);
                if byte & 0x80 != 0x80 {
                    assert((byte & 0x80) != 0x80 ==> byte < 128) by (bit_vector);
                    proof {
                        assert(var_end(s, 9, 10) == Some(9nat));
                    }
                    return Ok(value as i64);
                }
                assert((byte & 0x80) == 0x80 ==> byte >= 128) by (bit_vector);
                proof {
                    lemma_var_end_skip(s, 10, 10);
                }
                return Err(IoError::InvalidData);
            }
            proof {
                lemma_accumulate_u64(s, k, value, byte);
            }
            value = value | (((byte & 0x7F) as u64) << position);
            position = position + 7;
            if byte & 0x80 != 0x80 {
                assert((byte & 0x80) != 0x80 ==> byte < 128) by (bit_vector);
                proof {
                    assert(var_end(s, k, 10) == Some(k));
                    reveal_with_fuel(pow128, 10);
                }
                return Ok(value as i64);
            }
            assert((byte & 0x80) == 0x80 ==> byte >= 128) by (bit_vector);
        }
    }

    fn read_bytes_var_i32(&mut self) -> (r: Result<Vec<u8>, IoError>) {
        let ghost s = unread(*self);
        proof {
            lemma_var_decode_len(s, 5, 5);
        }
        let len = self.read_var_i32_len()?;
        let ghost t = unread(*self);
        let ghost n = (s.len() - t.len()) as nat;
        if remaining(self) < len {
            return Err(IoError::UnexpectedEof);
        }
        let mut bytes: Vec<u8> = Vec::new();
        let mut i: usize = 0;
        while i < len
            invariant
                i <= len <= t.len(),
                unread(*self) == t.skip(i as int),
                bytes@ == t.take(i as int),
            decreases len - i,
        {
            let b = match read_byte(self) {
                Some(b) => b,
                None => {
                    return Err(IoError::UnexpectedEof);
                },
            };
            proof {
                assert(t.skip(i as int).drop_first() =~= t.skip(i + 1));
                assert(t.take(i + 1) =~= t.take(i as int).push(b));
            }
            bytes.push(b);
            i = i + 1;
        }
        proof {
            assert(t =~= s.skip(n as int));
            assert(t.take(len as int) =~= s.subrange(n as int, n + len));
            assert(t.skip(len as int) =~= s.skip(n + len));
        }
        Ok(bytes)
    }

    fn read_bytes_remaining(&mut self) -> (r: Result<Vec<u8>, IoError>) {
        let ghost s = unread(*self);
        let mut bytes: Vec<u8> = Vec::new();
        let mut done = false;
        while !done
            invariant
                s == old(self).input(),
                s == bytes@ + unread(*self),
                done ==> unread(*self).len() == 0,
            decreases unread(*self).len() + if done {
                0int
            } else {
                1int
            },
        {
            match read_byte(self) {
                Some(b) => {
                    bytes.push(b);
                },
                None => {
                    done = true;
                },
            }
        }
        assert(bytes@ =~= s);
        Ok(bytes)
    }

    fn read_string(&mut self) -> (r: Result<String, IoError>) {
        let bytes = self.read_bytes_var_i32()?;
        match string_from_utf8(bytes) {
            Some(string) => Ok(string),
            None => Err(IoError::InvalidData),
        }
    }

    fn read_packet(&mut self) -> (r: Result<RawPacket, IoError>) {
        let ghost s = unread(*self);
        let ghost c0 = *self;
        let value = crate::varint::read_var_i32(self)?;
        if value < 0 {
            return Err(IoError::InvalidData);
        }
        let len = value as usize;
        let ghost n = (s.len() - unread(*self).len()) as nat;
        let ghost c1 = *self;
        proof {
            crate::varint::lemma_var_i32_decode_len(s);
            lemma_unread_pos(c0, c1, n);
        }
        let window = read_exact_bytes(self, len)?;
        proof {
            assert(window@ =~= s.subrange(n as int, (n + len) as int));
            assert(unread(*self) =~= s.skip(n + len));
        }
        let mut reader = cursor_new(window.as_slice());
        assert(reader.input() =~= window@);
        let id = reader.read_var_i32()?;
        let body = reader.read_bytes_remaining()?;
        Ok(RawPacket { id, body })
    }
}

/// The bytes the io writer produces for a VarInt: the seven-bit groups of
/// the value's 32 bits.
pub open spec fn ext_var_i32_bytes(v: i32) -> Seq<u8> {
    var_i32_bytes(v)
}

/// The io writer's VarInt takes at most five bytes.
pub proof fn lemma_ext_var_i32_bytes_len(v: i32)
    ensures
        1 <= ext_var_i32_bytes(v).len() <= 5,
{
    lemma_var_i32_bytes_len(v);
}

/// The bytes of a VarLong as the io writer produces them: the seven-bit
/// groups of the value's 64 bits.
pub open spec fn ext_var_i64_bytes(v: i64) -> Seq<u8> {
    leb128((v as u64) as nat)
}

/// Appends the `n` low bytes of `x`, most significant first.
pub fn write_be(out: &mut Vec<u8>, x: u128, n: usize)
    ensures
        final(out)@ == old(out)@ + be_bytes(x as nat, n as nat),
    decreases n,
{
    if n > 0 {
        write_be(out, x / 256, n - 1);
        out.push((x % 256) as u8);
    } else {
        assert(old(out)@ + be_bytes(x as nat, 0) =~= old(out)@);
    }
}

/// Extends a byte writer with methods for writing Minecraft protocol data
/// types.
pub trait WriteMinecraftExt: Sized {
    /// The bytes written so far.
    spec fn output(&self) -> Seq<u8>;

    /// Writes a boolean as an unsigned 8 bit integer: `1` or `0`.
    fn write_bool(&mut self, v: bool) -> (r: Result<(), IoError>)
        ensures
            r is Ok,
            final(self).output() == old(self).output().push(
                if v {
                    1u8
                } else {
                    0u8
                },
            ),
    ;

    /// Writes an unsigned 8 bit integer.
    fn write_u8(&mut self, v: u8) -> (r: Result<(), IoError>)
        ensures
            r is Ok,
            final(self).output() == old(self).output().push(v),
    ;

    /// Writes an unsigned 16 bit integer.
    fn write_u16(&mut self, v: u16) -> (r: Result<(), IoError>)
        ensures
            r is Ok,
            final(self).output() == old(self).output() + be_bytes(v as nat, 2),
    ;

    /// Writes an unsigned 32 bit integer.
    fn write_u32(&mut self, v: u32) -> (r: Result<(), IoError>)
        ensures
            r is Ok,
            final(self).output() == old(self).output() + be_bytes(v as nat, 4),
    ;

    /// Writes an unsigned 64 bit integer.
    fn write_u64(&mut self, v: u64) -> (r: Result<(), IoError>)
        ensures
            r is Ok,
            final(self).output() == old(self).output() + be_bytes(v as nat, 8),
    ;

    /// Writes an unsigned 128 bit integer.
    fn write_u128(&mut self, v: u128) -> (r: Result<(), IoError>)
        ensures
            r is Ok,
            final(self).output() == old(self).output() + be_bytes(v as nat, 16),
    ;

    /// Writes a signed 8 bit integer (two's complement).
    fn write_i8(&mut self, v: i8) -> (r: Result<(), IoError>)
        ensures
            r is Ok,
            final(self).output() == old(self).output().push(v as u8),
    ;

    /// Writes a signed 16 bit integer (two's complement).
    fn write_i16(&mut self, v: i16) -> (r: Result<(), IoError>)
        ensures
            r is Ok,
            final(self).output() == old(self).output() + be_bytes((v as u16) as nat, 2),
    ;

    /// Writes a signed 32 bit integer (two's complement).
    fn write_i32(&mut self, v: i32) -> (r: Result<(), IoError>)
        ensures
            r is Ok,
            final(self).output() == old(self).output() + be_bytes((v as u32) as nat, 4),
    ;

    /// Writes a signed 64 bit integer (two's complement).
    fn write_i64(&mut self, v: i64) -> (r: Result<(), IoError>)
        ensures
            r is Ok,
            final(self).output() == old(self).output() + be_bytes((v as u64) as nat, 8),
    ;

    /// Writes a signed 128 bit integer (two's complement).
    fn write_i128(&mut self, v: i128) -> (r: Result<(), IoError>)
        ensures
            r is Ok,
            final(self).output() == old(self).output() + be_bytes((v as u128) as nat, 16),
    ;

    /// Writes a UUID as an unsigned 128 bit integer.
    fn write_uuid(&mut self, v: Uuid) -> (r: Result<(), IoError>)
        ensures
            r is Ok,
            final(self).output() == old(self).output() + be_bytes(v@ as nat, 16),
    ;

    /// Writes a signed 32 bit integer, using variable-length encoding.
    fn write_var_i32(&mut self, v: i32) -> (r: Result<(), IoError>)
        ensures
            r is Ok,
            final(self).output() == old(self).output() + ext_var_i32_bytes(v),
    ;

    /// Writes a `usize` as a signed 32 bit integer, using variable-length
    /// encoding; fails with `InvalidData`, writing nothing, when it exceeds
    /// `i32::MAX`.
    fn write_var_i32_len(&mut self, v: usize) -> (r: Result<(), IoError>)
        ensures
            v <= i32::MAX ==> r is Ok && final(self).output() == old(self).output()
                + ext_var_i32_bytes(v as i32),
            v > i32::MAX ==> r == Err::<(), IoError>(IoError::InvalidData) && final(self).output()
                == old(self).output(),
    ;

    /// Writes a signed 64 bit integer, using variable-length encoding.
    fn write_var_i64(&mut self, v: i64) -> (r: Result<(), IoError>)
        ensures
            r is Ok,
            final(self).output() == old(self).output() + ext_var_i64_bytes(v),
    ;

    /// Writes bytes prefixed by their count as a VarInt; fails like
    /// `write_var_i32_len` when there are too many.
    fn write_bytes_var_i32(&mut self, v: &[u8]) -> (r: Result<(), IoError>)
        ensures
            v@.len() <= i32::MAX ==> r is Ok && final(self).output() == old(self).output()
                + ext_var_i32_bytes(v@.len() as i32) + v@,
            v@.len() > i32::MAX ==> r == Err::<(), IoError>(IoError::InvalidData) && final(self).output() == old(self).output(),
    ;

    /// Writes all the bytes, with no prefix.
    fn write_bytes_remaining(&mut self, v: &[u8]) -> (r: Result<(), IoError>)
        ensures
            r is Ok,
            final(self).output() == old(self).output() + v@,
    ;

    /// Writes a string's UTF-8 bytes prefixed by their count as a VarInt.
    fn write_string(&mut self, v: &str) -> (r: Result<(), IoError>)
        ensures
            v.spec_bytes().len() <= i32::MAX ==> r is Ok && final(self).output() == old(self).output() + ext_var_i32_bytes(v.spec_bytes().len() as i32) + v.spec_bytes(),
            v.spec_bytes().len() > i32::MAX ==> r == Err::<(), IoError>(IoError::InvalidData)
                && final(self).output() == old(self).output(),
    ;

    /// Writes a single packet: its length, its ID and its body.
    fn write_packet(&mut self, packet: &RawPacket) -> (r: Result<(), IoError>)
        requires
            packet.body@.len() + 5 <= usize::MAX,
        ensures
            packet_len(packet.id, packet.body@) <= i32::MAX ==> r is Ok && final(self).output()
                == old(self).output() + ext_var_i32_bytes(
                packet_len(packet.id, packet.body@) as i32,
            ) + ext_var_i32_bytes(packet.id) + packet.body@,
            packet_len(packet.id, packet.body@) > i32::MAX ==> r == Err::<(), IoError>(
                IoError::InvalidData,
            ) && final(self).output() == old(self).output(),
    ;
}

impl WriteMinecraftExt for Vec<u8> {
    open spec fn output(&self) -> Seq<u8> {
        self@
    }

    fn write_bool(&mut self, v: bool) -> (r: Result<(), IoError>) {
        self.write_u8(
            if v {
                0x01
            } else {
                0x00
            },
        )
    }

    fn write_u8(&mut self, v: u8) -> (r: Result<(), IoError>) {
        self.push(v);
        Ok(())
    }

    fn write_u16(&mut self, v: u16) -> (r: Result<(), IoError>) {
        write_be(self, v as u128, 2);
        Ok(())
    }

    fn write_u32(&mut self, v: u32) -> (r: Result<(), IoError>) {
        write_be(self, v as u128, 4);
        Ok(())
    }

    fn write_u64(&mut self, v: u64) -> (r: Result<(), IoError>) {
        write_be(self, v as u128, 8);
        Ok(())
    }

    fn write_u128(&mut self, v: u128) -> (r: Result<(), IoError>) {
        write_be(self, v, 16);
        Ok(())
    }

    fn write_i8(&mut self, v: i8) -> (r: Result<(), IoError>) {
        self.write_u8(v as u8)
    }

    fn write_i16(&mut self, v: i16) -> (r: Result<(), IoError>) {
        self.write_u16(v as u16)
    }

    fn write_i32(&mut self, v: i32) -> (r: Result<(), IoError>) {
        self.write_u32(v as u32)
    }

    fn write_i64(&mut self, v: i64) -> (r: Result<(), IoError>) {
        self.write_u64(v as u64)
    }

    fn write_i128(&mut self, v: i128) -> (r: Result<(), IoError>) {
        self.write_u128(v as u128)
    }

    fn write_uuid(&mut self, v: Uuid) -> (r: Result<(), IoError>) {
        self.write_u128(v.as_u128())
    }

    fn write_var_i32(&mut self, v: i32) -> (r: Result<(), IoError>) {
        let value = v as u32;
        proof {
            lemma_leb128_shape(value as nat);
            lemma_low_group(value);
            crate::bits::lemma_length_masks(value);
        }
        if (value & (0xFFFF_FFFFu32 << 7u32)) == 0 {
            self.write_u8(value as u8)?;
        } else if (value & (0xFFFF_FFFFu32 << 14u32)) == 0 {
            let g0 = (value & 0x7F) | 0x80;
            let w = (g0 << 8u32) | (value >> 7u32);
            proof {
                lemma_word_2(value, g0, w);
                lemma_be_bytes_shape(w as nat);
            }
            self.write_u16(w as u16)?;
        } else if (value & (0xFFFF_FFFFu32 << 21u32)) == 0 {
            let g0 = (value & 0x7F) | 0x80;
            let g1 = ((value >> 7u32) & 0x7F) | 0x80;
            let w = (g0 << 16u32) | (g1 << 8u32) | (value >> 14u32);
            proof {
                lemma_word_3(value, g0, g1, w);
                lemma_be_bytes_shape(w as nat);
            }
            write_be(self, w as u128, 3);
        } else if (value & (0xFFFF_FFFFu32 << 28u32)) == 0 {
            let g0 = (value & 0x7F) | 0x80;
            let g1 = ((value >> 7u32) & 0x7F) | 0x80;
            let g2 = ((value >> 14u32) & 0x7F) | 0x80;
            let w = (g0 << 24u32) | (g1 << 16u32) | (g2 << 8u32) | (value >> 21u32);
            proof {
                lemma_word_4(value, g0, g1, g2, w);
                lemma_be_bytes_shape(w as nat);
            }
            self.write_u32(w)?;
        } else {
            let g0 = (value & 0x7F) | 0x80;
            let g1 = ((value >> 7u32) & 0x7F) | 0x80;
            let g2 = ((value >> 14u32) & 0x7F) | 0x80;
            let g3 = ((value >> 21u32) & 0x7F) | 0x80;
            let w = (g0 << 24u32) | (g1 << 16u32) | (g2 << 8u32) | g3;
            proof {
                lemma_word_5(value, g0, g1, g2, g3, w);
                lemma_be_bytes_shape(w as nat);
            }
            self.write_u32(w)?;
            self.write_u8((value >> 28u32) as u8)?;
        }
        assert(self@ =~= old(self)@ + ext_var_i32_bytes(v));
        Ok(())
    }

    fn write_var_i32_len(&mut self, v: usize) -> (r: Result<(), IoError>) {
        if v > i32::MAX as usize {
            return Err(IoError::InvalidData);
        }
        self.write_var_i32(v as i32)
    }

    fn write_var_i64(&mut self, v: i64) -> (r: Result<(), IoError>) {
        let mut bits = v as u64;
        let ghost start = self@;
        loop
            invariant
                start == old(self)@,
                start + ext_var_i64_bytes(v) == self@ + leb128(bits as nat),
            decreases bits,
        {
            proof {
                lemma_low_group_u64(bits);
                reveal_with_fuel(leb128, 2);
            }
            if (bits & !0x7F) == 0 {
                self.write_u8(bits as u8)?;
                assert(self@ =~= start + ext_var_i64_bytes(v));
                return Ok(());
            }
            self.write_u8(((bits & 0x7F) | 0x80) as u8)?;
            proof {
                assert(leb128(bits as nat) =~= seq![(bits % 128 + 128) as u8] + leb128(
                    (bits / 128) as nat,
                ));
            }
            bits = bits >> 7;
        }
    }

    fn write_bytes_var_i32(&mut self, v: &[u8]) -> (r: Result<(), IoError>) {
        self.write_var_i32_len(v.len())?;
        self.write_bytes_remaining(v)
    }

    fn write_bytes_remaining(&mut self, v: &[u8]) -> (r: Result<(), IoError>) {
        let ghost start = self@;
        let mut i: usize = 0;
        while i < v.len()
            invariant
                i <= v@.len(),
                start == old(self)@,
                self@ == start + v@.take(i as int),
            decreases v@.len() - i,
        {
            self.push(v[i]);
            assert(v@.take(i + 1) =~= v@.take(i as int).push(v@[i as int]));
            i = i + 1;
        }
        assert(v@.take(v@.len() as int) =~= v@);
        Ok(())
    }

    fn write_string(&mut self, v: &str) -> (r: Result<(), IoError>) {
        self.write_bytes_var_i32(v.as_bytes())
    }

    fn write_packet(&mut self, packet: &RawPacket) -> (r: Result<(), IoError>) {
        self.write_var_i32_len(packet.len())?;
        self.write_var_i32(packet.id)?;
        self.write_bytes_remaining(packet.body.as_slice())?;
        Ok(())
    }
}

/// The values a VarInt length can take: those from zero to `i32::MAX`.
pub open spec fn ext_var_i32_roundtrips(v: int) -> bool {
    0 <= v <= i32::MAX
}

/// Reading back what the io writer writes as a VarInt: the value, using
/// exactly the bytes written.
pub proof fn lemma_ext_var_i32_roundtrip(v: i32, rest: Seq<u8>)
    ensures
        ext_var_i32_decode(ext_var_i32_bytes(v) + rest) == Ok::<(i32, nat), IoError>(
            (v, ext_var_i32_bytes(v).len()),
        ),
        1 <= ext_var_i32_bytes(v).len() <= 5,
{
    lemma_var_i32_roundtrip(v, rest);
    lemma_var_i32_bytes_len(v);
}

/// Reading back a length-prefixed byte array that the io writer wrote, when
/// its length is one a VarInt length holds.
pub proof fn lemma_bytes_roundtrip(b: Seq<u8>, rest: Seq<u8>)
    requires
        ext_var_i32_roundtrips(b.len() as int),
    ensures
        bytes_var_i32_decode(ext_var_i32_bytes(b.len() as i32) + b + rest) == Ok::<
            (Seq<u8>, nat),
            IoError,
        >((b, ext_var_i32_bytes(b.len() as i32).len() + b.len())),
{
    let p = ext_var_i32_bytes(b.len() as i32);
    let s = p + b + rest;
    assert(s =~= p + (b + rest));
    lemma_ext_var_i32_roundtrip(b.len() as i32, b + rest);
    assert(s.subrange(p.len() as int, (p.len() + b.len()) as int) =~= b);
}

/// Reading back a string that the io writer wrote, when its UTF-8 length is
/// one a VarInt length holds: the same characters, using exactly the bytes
/// written.
pub proof fn lemma_string_roundtrip(chars: Seq<char>, rest: Seq<u8>)
    requires
        ext_var_i32_roundtrips(encode_utf8(chars).len() as int),
    ensures
        string_decode(
            ext_var_i32_bytes(encode_utf8(chars).len() as i32) + encode_utf8(chars) + rest,
        ) == Ok::<(Seq<char>, nat), IoError>(
            (chars, ext_var_i32_bytes(encode_utf8(chars).len() as i32).len() + encode_utf8(
                chars,
            ).len()),
        ),
{
    let b = encode_utf8(chars);
    lemma_bytes_roundtrip(b, rest);
    encode_utf8_valid_utf8(chars);
    encode_utf8_decode_utf8(chars);
}

/// Reading back a VarLong that the io writer wrote: the value, using exactly
/// the bytes written.
pub proof fn lemma_ext_var_i64_roundtrip(v: i64, rest: Seq<u8>)
    ensures
        ext_var_i64_decode(ext_var_i64_bytes(v) + rest) == Ok::<(i64, nat), IoError>(
            (v, ext_var_i64_bytes(v).len()),
        ),
{
    let x = (v as u64) as nat;
    let e = ext_var_i64_bytes(v);
    let t = e + rest;
    lemma_pow128_values();
    lemma_leb128_len(x, 10);
    lemma_leb128_decodes(x, rest);
    let n = e.len();
    assert forall|j: int| 0 <= j < n - 1 implies t[j] >= 128 by {
        assert(t[j] == e[j]);
    }
    lemma_var_end_skip(t, (n - 1) as nat, 10);
    assert(t[n - 1] == e[n - 1]);
    assert(var_end(t, (n - 1) as nat, 10) == Some((n - 1) as nat));
    assert(x % 0x1_0000_0000_0000_0000 == x);
    crate::varint::lemma_u64_i64_roundtrip(v);
}

/// Reading back a packet that the io writer wrote, when its length is one a
/// VarInt length holds: the same ID and body, using exactly the bytes
/// written.
pub proof fn lemma_packet_roundtrip(id: i32, body: Seq<u8>, rest: Seq<u8>)
    requires
        ext_var_i32_roundtrips(packet_len(id, body) as int),
    ensures
        ({
            let written = ext_var_i32_bytes(packet_len(id, body) as i32) + ext_var_i32_bytes(id)
                + body;
            packet_decode(written + rest) == Ok::<(i32, Seq<u8>, nat), IoError>(
                (id, body, written.len()),
            )
        }),
{
    let len = packet_len(id, body);
    let lp = ext_var_i32_bytes(len as i32);
    let ib = ext_var_i32_bytes(id);
    let written = lp + ib + body;
    let s = written + rest;
    assert(s =~= lp + (ib + body + rest));
    lemma_ext_var_i32_roundtrip(len as i32, ib + body + rest);
    // the ID is written in its canonical length, like `packet_len` counts it
    lemma_leb128_shape(unsigned32(id));
    assert(ib =~= var_i32_bytes(id));
    let n = lp.len();
    assert(min_nat((n + len) as nat, s.len()) == n + len);
    let w = s.subrange(n as int, (n + len) as int);
    assert(w =~= ib + body);
    lemma_ext_var_i32_roundtrip(id, body);
    assert((ib + body).skip(ib.len() as int) =~= body);
}

} // verus!
