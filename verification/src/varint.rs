//! Variable-length integers (VarInt) as the protocol frames packets with them.
//!
//! A VarInt stores an integer in groups of seven bits, least significant group
//! first; every byte but the last has its high bit set.

use crate::bytes_buf::{bytes_mut_put_slice, bytes_mut_put_u16, bytes_mut_put_u32, bytes_mut_put_u8, bytes_mut_view, bytes_mut_limit};
use crate::cursor::{cursor_data, cursor_pos, read_byte, remaining, unread};
use crate::error::IoError;
use crate::bits::{lemma_groups_2, lemma_groups_3, lemma_groups_4, lemma_groups_5, lemma_length_masks};
use bytes::BytesMut;
use std::io::Cursor;
use vstd::prelude::*;

verus! {

/// `128` raised to the power `k`.
pub open spec fn pow128(k: nat) -> nat
    decreases k,
{
    if k == 0 {
        1
    } else {
        128 * pow128((k - 1) as nat)
    }
}

/// The canonical seven-bit-group encoding of a natural number.
pub open spec fn leb128(x: nat) -> Seq<u8>
    decreases x,
{
    if x < 128 {
        seq![x as u8]
    } else {
        seq![(x % 128 + 128) as u8] + leb128(x / 128)
    }
}

/// The number that the first `n` bytes of `s` stand for as seven-bit groups,
/// least significant group first (the high bit of each byte is ignored).
pub open spec fn group_sum(s: Seq<u8>, n: nat) -> nat
    decreases n,
{
    if n == 0 {
        0
    } else {
        group_sum(s, (n - 1) as nat) + (s[n - 1] % 128) as nat * pow128((n - 1) as nat)
    }
}

/// The index of the first byte at or after `i`, and before `accept` and the end
/// of `s`, whose high bit is clear.
pub open spec fn var_end(s: Seq<u8>, i: nat, accept: nat) -> Option<nat>
    decreases accept - i,
{
    if i >= accept || i >= s.len() {
        None
    } else if s[i as int] < 128 {
        Some(i)
    } else {
        var_end(s, i + 1, accept)
    }
}

/// Decoding a VarInt from the front of `s`: the last byte must be among the
/// first `accept`; if none is, the input is invalid when it holds at least
/// `width` bytes and has ended too early otherwise. On success: the number and
/// the count of bytes used.
pub open spec fn var_decode(s: Seq<u8>, accept: nat, width: nat) -> Result<(nat, nat), IoError> {
    match var_end(s, 0, accept) {
        Some(i) => Ok((group_sum(s, i + 1), i + 1)),
        None => if s.len() >= width {
            Err(IoError::InvalidData)
        } else {
            Err(IoError::UnexpectedEof)
        },
    }
}

/// The `i32` whose two's-complement bits are the low 32 bits of `n`.
pub open spec fn wrap_i32(n: nat) -> i32 {
    (n % 0x1_0000_0000) as u32 as i32
}

/// The two's-complement bits of `v`, read as an unsigned number.
pub open spec fn unsigned32(v: i32) -> nat {
    (v as u32) as nat
}

/// The bytes that encode `v` as a VarInt.
pub open spec fn var_i32_bytes(v: i32) -> Seq<u8> {
    leb128(unsigned32(v))
}

/// What reading a VarInt from the front of `s` gives: the value and the
/// number of bytes it took, or the error.
pub open spec fn var_i32_decode(s: Seq<u8>) -> Result<(i32, nat), IoError> {
    match var_decode(s, 5, 5) {
        Ok((x, n)) => Ok((wrap_i32(x), n)),
        Err(e) => Err(e),
    }
}

pub proof fn lemma_pow128_values()
    ensures
        pow128(0) == 1,
        pow128(1) == 128,
        pow128(2) == 16384,
        pow128(3) == 2097152,
        pow128(4) == 268435456,
        pow128(5) == 34359738368,
        pow128(6) == 4398046511104,
        pow128(7) == 562949953421312,
        pow128(8) == 72057594037927936,
        pow128(9) == 9223372036854775808,
{
    reveal_with_fuel(pow128, 10);
}

/// The seven-bit groups of `n` bytes stand for less than `128^n`.
pub proof fn lemma_group_sum_bound(s: Seq<u8>, n: nat)
    ensures
        group_sum(s, n) < pow128(n),
    decreases n,
{
    if n > 0 {
        let k = (n - 1) as nat;
        lemma_group_sum_bound(s, k);
        let d = (s[k as int] % 128) as nat;
        let p = pow128(k);
        assert(group_sum(s, k) + d * p < 128 * p) by (nonlinear_arith)
            requires
                group_sum(s, k) < p,
                d < 128,
        ;
    }
}

/// A `var_end` search may start past bytes whose high bit is set.
pub proof fn lemma_var_end_skip(s: Seq<u8>, i: nat, accept: nat)
    requires
        i <= accept,
        i <= s.len(),
        forall|j: int| 0 <= j < i ==> s[j] >= 128,
    ensures
        var_end(s, 0, accept) == var_end(s, i, accept),
    decreases i,
{
    if i > 0 {
        lemma_var_end_skip(s, (i - 1) as nat, accept);
    }
}

/// Where `var_end` finds a last byte, it lies within the searched range.
pub proof fn lemma_var_end_bounds(s: Seq<u8>, i: nat, accept: nat)
    ensures
        var_end(s, i, accept) matches Some(k) ==> i <= k && k < s.len() && k < accept && s[k as int]
            < 128,
    decreases accept - i,
{
    if i < accept && i < s.len() && s[i as int] >= 128 {
        lemma_var_end_bounds(s, i + 1, accept);
    }
}

/// A successful decode uses at least one and at most all of the input bytes.
pub proof fn lemma_var_i32_decode_len(s: Seq<u8>)
    ensures
        var_i32_decode(s) matches Ok((_, n)) ==> 1 <= n <= s.len() && n <= 5,
{
    lemma_var_end_bounds(s, 0, 5);
}

/// The encoding of a 32-bit number, spelled out byte by byte.
pub proof fn lemma_leb128_shape(x: nat)
    requires
        x < 0x1_0000_0000,
    ensures
        x < 128 ==> leb128(x) == seq![x as u8],
        128 <= x < 16384 ==> leb128(x) == seq![(x % 128 + 128) as u8, (x / 128) as u8],
        16384 <= x < 2097152 ==> leb128(x) == seq![
            (x % 128 + 128) as u8,
            (x / 128 % 128 + 128) as u8,
            (x / 128 / 128) as u8,
        ],
        2097152 <= x < 268435456 ==> leb128(x) == seq![
            (x % 128 + 128) as u8,
            (x / 128 % 128 + 128) as u8,
            (x / 128 / 128 % 128 + 128) as u8,
            (x / 128 / 128 / 128) as u8,
        ],
        268435456 <= x ==> leb128(x) == seq![
            (x % 128 + 128) as u8,
            (x / 128 % 128 + 128) as u8,
            (x / 128 / 128 % 128 + 128) as u8,
            (x / 128 / 128 / 128 % 128 + 128) as u8,
            (x / 128 / 128 / 128 / 128) as u8,
        ],
{
    reveal_with_fuel(leb128, 6);
    if x >= 128 {
        let x1 = x / 128;
        if x1 >= 128 {
            let x2 = x1 / 128;
            if x2 >= 128 {
                let x3 = x2 / 128;
                if x3 >= 128 {
                    let x4 = x3 / 128;
                    assert(x4 < 128);
                    assert(leb128(x3) == seq![(x3 % 128 + 128) as u8] + leb128(x4));
                }
                assert(leb128(x2) == seq![(x2 % 128 + 128) as u8] + leb128(x3));
            }
            assert(leb128(x1) == seq![(x1 % 128 + 128) as u8] + leb128(x2));
        }
        assert(leb128(x) == seq![(x % 128 + 128) as u8] + leb128(x1));
    }
}

/// Number of bytes that the VarInt encoding of `v` takes.
pub open spec fn var_i32_len(v: i32) -> nat {
    let u = unsigned32(v);
    if u < 128 {
        1
    } else if u < 16384 {
        2
    } else if u < 2097152 {
        3
    } else if u < 268435456 {
        4
    } else {
        5
    }
}

pub proof fn lemma_var_i32_bytes_len(v: i32)
    ensures
        var_i32_bytes(v).len() == var_i32_len(v),
{
    lemma_leb128_shape(unsigned32(v));
}

/// Returns the number of bytes required to encode `value` as a VarInt.
pub fn var_i32_size(value: i32) -> (n: usize)
    ensures
        n == var_i32_bytes(value).len(),
        1 <= n <= 5,
{
    proof {
        lemma_var_i32_bytes_len(value);
    }
    let u = value as u32;
    if u < 0x80 {
        1
    } else if u < 0x4000 {
        2
    } else if u < 0x20_0000 {
        3
    } else if u < 0x1000_0000 {
        4
    } else {
        5
    }
}


/// One more seven-bit group joined to the groups read so far.
pub proof fn lemma_accumulate(s: Seq<u8>, len: nat, v: u32, b: u8)
    requires
        1 <= len <= 4,
        len < s.len(),
        b == s[len as int],
        v as nat == group_sum(s, len) % 4294967296,
    ensures
        (v | (((b & 0x7f) as u32) << ((len * 7) as u32))) as nat == group_sum(s, len + 1)
            % 4294967296,
{
    lemma_group_sum_bound(s, len);
    lemma_pow128_values();
    reveal_with_fuel(pow128, 5);
    assert(group_sum(s, len + 1) == group_sum(s, len) + (b % 128) as nat * pow128(len));
    assert(pow128(len) <= 268435456) by {
        if len == 1 {
        } else if len == 2 {
        } else if len == 3 {
        } else {
        }
    }
    assert(v as nat == group_sum(s, len));
    if len == 1 {
        assert(v < 128 ==> (v | (((b & 0x7f) as u32) << 7u32)) == v + (b % 128) as u32 * 128)
            by (bit_vector);
    } else if len == 2 {
        assert(v < 16384 ==> (v | (((b & 0x7f) as u32) << 14u32)) == v + (b % 128) as u32
            * 16384) by (bit_vector);
    } else if len == 3 {
        assert(v < 2097152 ==> (v | (((b & 0x7f) as u32) << 21u32)) == v + (b % 128) as u32
            * 2097152) by (bit_vector);
    } else {
        assert(v < 268435456 ==> (v | (((b & 0x7f) as u32) << 28u32)) == ((v as u64 + (b % 128) as u64
            * 268435456) % 4294967296) as u32) by (bit_vector);
    }
}

/// One more seven-bit group joined to the groups read so far, in 64 bits,
/// for up to nine groups.
pub proof fn lemma_accumulate_u64(s: Seq<u8>, k: nat, v: u64, b: u8)
    requires
        k <= 8,
        k < s.len(),
        b == s[k as int],
        v as nat == group_sum(s, k),
    ensures
        (v | (((b & 0x7f) as u64) << ((7 * k) as u64))) as nat == group_sum(s, k + 1),
        group_sum(s, k + 1) < pow128(k + 1),
{
    lemma_group_sum_bound(s, k);
    lemma_group_sum_bound(s, k + 1);
    lemma_pow128_values();
    assert(group_sum(s, k + 1) == group_sum(s, k) + (b % 128) as nat * pow128(k));
    assert((b & 0x7f) == b % 128) by (bit_vector);
    let c = (b % 128) as u64;
    assert(((b & 0x7f) as u64) == c);
    let sh = (7 * k) as u64;
    let p = pow128(k);
    assert(group_sum(s, k + 1) == v as nat + c as nat * p);
    if k == 0 {
        assert(sh == 0);
        assert(v == 0 ==> (v | (c << 0u64)) == c) by (bit_vector);
        assert(c as nat * p == c as nat) by (nonlinear_arith)
            requires
                p == 1,
        ;
    } else if k == 1 {
        assert(v < 128 && c < 128 ==> (v | (c << 7u64)) == v + c * 128) by (bit_vector);
    } else if k == 2 {
        assert(v < 16384 && c < 128 ==> (v | (c << 14u64)) == v + c * 16384) by (bit_vector);
    } else if k == 3 {
        assert(v < 2097152 && c < 128 ==> (v | (c << 21u64)) == v + c * 2097152) by (bit_vector);
    } else if k == 4 {
        assert(v < 268435456 && c < 128 ==> (v | (c << 28u64)) == v + c * 268435456)
            by (bit_vector);
    } else if k == 5 {
        assert(v < 34359738368 && c < 128 ==> (v | (c << 35u64)) == v + c * 34359738368)
            by (bit_vector);
    } else if k == 6 {
        assert(v < 4398046511104 && c < 128 ==> (v | (c << 42u64)) == v + c * 4398046511104)
            by (bit_vector);
    } else if k == 7 {
        assert(v < 562949953421312 && c < 128 ==> (v | (c << 49u64)) == v + c * 562949953421312)
            by (bit_vector);
    } else {
        assert(v < 72057594037927936 && c < 128 ==> (v | (c << 56u64)) == v + c
            * 72057594037927936) by (bit_vector);
    }
}

/// Reads a VarInt from `src`. At most five bytes are read; the value is the
/// low 32 bits of the groups read. Fails with `UnexpectedEof` when the input
/// ends before the last byte and with `InvalidData` when five bytes all have
/// their high bit set.
pub fn read_var_i32(src: &mut Cursor<&[u8]>) -> (r: Result<i32, IoError>)
    ensures
        match var_i32_decode(unread(*old(src))) {
            Ok((v, n)) => r == Ok::<i32, IoError>(v) && unread(*final(src)) == unread(
                *old(src),
            ).skip(n as int) && cursor_pos(*final(src)) <= cursor_data(*final(src)).len(),
            Err(e) => r == Err::<i32, IoError>(e),
        },
        cursor_data(*final(src)) == cursor_data(*old(src)),
{
    let ghost s = unread(*src);
    let readable = remaining(src);
    if readable == 0 {
        return Err(IoError::UnexpectedEof);
    }
    let first = read_byte(src);
    let mut byte = match first {
        Some(b) => b,
        None => {
            return Err(IoError::UnexpectedEof);
        },
    };
    assert(s.skip(1) =~= s.drop_first());
    proof {
        reveal_with_fuel(group_sum, 2);
        lemma_pow128_values();
        let a = (s[0] % 128) as nat;
        assert(a * pow128(0) == a) by (nonlinear_arith)
            requires
                pow128(0) == 1,
        ;
        assert(group_sum(s, 1) == (s[0] % 128) as nat);
    }
    if (byte & 0x80) != 0x80 {
        assert((byte & 0x80) != 0x80 ==> byte < 128) by (bit_vector);
        proof {
            reveal_with_fuel(group_sum, 2);
            lemma_pow128_values();
            assert(var_end(s, 0, 5) == Some(0nat));
        }
        return Ok(byte as i32);
    }
    assert((byte & 0x80) == 0x80 ==> byte >= 128) by (bit_vector);
    let max_read = if readable < 5 {
        readable
    } else {
        5
    };
    assert((byte & 0x7f) == byte % 128) by (bit_vector);
    let mut value: u32 = (byte & 0x7f) as u32;
    proof {
        reveal_with_fuel(group_sum, 2);
        lemma_pow128_values();
    }
    let mut len: usize = 1;
    while len < max_read
        invariant
            s == unread(*old(src)),
            readable == s.len(),
            max_read == if readable < 5 {
                readable
            } else {
                5
            },
            1 <= len <= max_read,
            unread(*src) == s.skip(len as int),
            forall|j: int| 0 <= j < len ==> s[j] >= 128,
            value as nat == group_sum(s, len as nat) % 4294967296,
            byte == s[len - 1],
            cursor_data(*src) == cursor_data(*old(src)),
            cursor_pos(*src) <= cursor_data(*src).len(),
        decreases max_read - len,
    {
        let next = read_byte(src);
        byte = match next {
            Some(b) => b,
            None => {
                return Err(IoError::UnexpectedEof);
            },
        };
        assert(s.skip(len as int).drop_first() =~= s.skip(len + 1));
        proof {
            lemma_accumulate(s, len as nat, value, byte);
        }
        value = value | (((byte & 0x7f) as u32) << ((len * 7) as u32));
        if (byte & 0x80) != 0x80 {
            assert((byte & 0x80) != 0x80 ==> byte < 128) by (bit_vector);
            proof {
                lemma_var_end_skip(s, len as nat, 5);
            }
            return Ok(value as i32);
        }
        assert((byte & 0x80) == 0x80 ==> byte >= 128) by (bit_vector);
        len = len + 1;
    }
    proof {
        lemma_var_end_skip(s, len as nat, 5);
        assert(var_end(s, len as nat, 5) is None);
    }
    assert(byte >= 128 ==> (byte & 0x80) == 0x80) by (bit_vector);
    if len == 5 && (byte & 0x80) == 0x80 {
        Err(IoError::InvalidData)
    } else {
        Err(IoError::UnexpectedEof)
    }
}






/// Writes `value` to `dst` as a VarInt.
pub fn write_var_i32(dst: &mut BytesMut, value: i32)
    requires
        bytes_mut_view(*old(dst)).len() + 5 <= bytes_mut_limit(),
    ensures
        bytes_mut_view(*final(dst)) == bytes_mut_view(*old(dst)) + var_i32_bytes(value),
{
    let value = value as u32;
    proof {
        lemma_leb128_shape(value as nat);
        lemma_length_masks(value);
    }
    if (value & (0xFFFF_FFFFu32 << 7u32)) == 0 {
        bytes_mut_put_u8(dst, value as u8);
        assert(bytes_mut_view(*dst) =~= bytes_mut_view(*old(dst)) + seq![value as u8]);
    } else if (value & (0xFFFF_FFFFu32 << 14u32)) == 0 {
        let g0 = (value & 0x7F) | 0x80;
        let w = (g0 << 8u32) | (value >> 7u32);
        proof {
            lemma_groups_2(value, g0, w);
        }
        bytes_mut_put_u16(dst, w as u16);
    } else if (value & (0xFFFF_FFFFu32 << 21u32)) == 0 {
        let g0 = (value & 0x7F) | 0x80;
        let g1 = ((value >> 7u32) & 0x7F) | 0x80;
        let w = (g0 << 16u32) | (g1 << 8u32) | (value >> 14u32);
        proof {
            lemma_groups_3(value, g0, g1, w);
        }
        // the three low bytes of `w`, most significant first
        let b = [(w >> 16u32) as u8, (w >> 8u32) as u8, w as u8];
        bytes_mut_put_slice(dst, &b);
        assert(b@ =~= seq![(w >> 16u32) as u8, (w >> 8u32) as u8, w as u8]);
    } else if (value & (0xFFFF_FFFFu32 << 28u32)) == 0 {
        let g0 = (value & 0x7F) | 0x80;
        let g1 = ((value >> 7u32) & 0x7F) | 0x80;
        let g2 = ((value >> 14u32) & 0x7F) | 0x80;
        let w = (g0 << 24u32) | (g1 << 16u32) | (g2 << 8u32) | (value >> 21u32);
        proof {
            lemma_groups_4(value, g0, g1, g2, w);
        }
        bytes_mut_put_u32(dst, w);
    } else {
        let g0 = (value & 0x7F) | 0x80;
        let g1 = ((value >> 7u32) & 0x7F) | 0x80;
        let g2 = ((value >> 14u32) & 0x7F) | 0x80;
        let g3 = ((value >> 21u32) & 0x7F) | 0x80;
        let w = (g0 << 24u32) | (g1 << 16u32) | (g2 << 8u32) | g3;
        proof {
            lemma_groups_5(value, g0, g1, g2, g3, w);
        }
        bytes_mut_put_u32(dst, w);
        bytes_mut_put_u8(dst, (value >> 28u32) as u8);
    }
}

/// Peeling off the first group: the remaining groups count 128 times as much.
pub proof fn lemma_group_sum_front(s: Seq<u8>, n: nat)
    requires
        n + 1 <= s.len(),
    ensures
        group_sum(s, n + 1) == (s[0] % 128) as nat + 128 * group_sum(s.drop_first(), n),
    decreases n,
{
    reveal_with_fuel(group_sum, 2);
    reveal_with_fuel(pow128, 2);
    if n == 0 {
        assert(group_sum(s, 1) == group_sum(s, 0) + (s[0] % 128) as nat * pow128(0));
        let a = (s[0] % 128) as nat;
        assert(a * pow128(0) == a) by (nonlinear_arith)
            requires
                pow128(0) == 1,
        ;
    } else {
        let t = s.drop_first();
        let k = (n - 1) as nat;
        lemma_group_sum_front(s, k);
        let a = (s[0] % 128) as nat;
        let g = group_sum(t, k);
        let d = (t[k as int] % 128) as nat;
        let p = pow128(k);
        assert(s[n as int] == t[k as int]);
        assert(group_sum(s, n + 1) == group_sum(s, n) + d * (128 * p));
        assert(group_sum(t, n) == g + d * p);
        assert(a + 128 * g + d * (128 * p) == a + 128 * (g + d * p)) by (nonlinear_arith);
    }
}

/// The groups of `leb128(x)` stand for `x`, and its last byte is the first one
/// with a clear high bit.
pub proof fn lemma_leb128_decodes(x: nat, rest: Seq<u8>)
    ensures
        group_sum(leb128(x) + rest, leb128(x).len()) == x,
        forall|j: int| 0 <= j < leb128(x).len() - 1 ==> #[trigger] leb128(x)[j] >= 128,
        leb128(x)[leb128(x).len() - 1] < 128,
        leb128(x).len() >= 1,
    decreases x,
{
    let e = leb128(x);
    let t = e + rest;
    if x < 128 {
        reveal_with_fuel(group_sum, 2);
        reveal_with_fuel(pow128, 1);
        assert(group_sum(t, 1) == group_sum(t, 0) + (t[0] % 128) as nat * pow128(0));
        let a = (t[0] % 128) as nat;
        assert(a * pow128(0) == a) by (nonlinear_arith)
            requires
                pow128(0) == 1,
        ;
    } else {
        let y = x / 128;
        let f = leb128(y);
        lemma_leb128_decodes(y, rest);
        assert(e == seq![(x % 128 + 128) as u8] + f);
        assert(t.drop_first() =~= f + rest);
        lemma_group_sum_front(t, f.len());
        assert(forall|j: int| 1 <= j < e.len() ==> e[j] == f[j - 1]);
    }
}

/// Reading back what `write_var_i32` writes: any `i32`, followed by any bytes,
/// decodes to itself and takes exactly the bytes written.
pub proof fn lemma_var_i32_roundtrip(v: i32, rest: Seq<u8>)
    ensures
        var_i32_decode(var_i32_bytes(v) + rest) == Ok::<(i32, nat), IoError>(
            (v, var_i32_bytes(v).len()),
        ),
{
    let x = unsigned32(v);
    let e = var_i32_bytes(v);
    let t = e + rest;
    lemma_leb128_shape(x);
    lemma_leb128_decodes(x, rest);
    let n = e.len();
    assert(1 <= n <= 5);
    assert forall|j: int| 0 <= j < n - 1 implies t[j] >= 128 by {
        assert(t[j] == e[j]);
    }
    lemma_var_end_skip(t, (n - 1) as nat, 5);
    assert(t[n - 1] == e[n - 1]);
    assert(var_end(t, (n - 1) as nat, 5) == Some((n - 1) as nat));
    assert(wrap_i32(x) == v) by {
        assert(x < 0x1_0000_0000);
        assert(x % 0x1_0000_0000 == x);
        lemma_u32_i32_roundtrip(v);
    }
}

/// The tenth seven-bit group joined to the nine read so far, in 64 bits: the
/// bits past the 64th are lost.
pub proof fn lemma_accumulate_u64_last(s: Seq<u8>, v: u64, b: u8)
    requires
        9 < s.len(),
        b == s[9],
        v as nat == group_sum(s, 9),
    ensures
        (v | (((b & 0x7f) as u64) << 63u64)) as nat == group_sum(s, 10) % 0x1_0000_0000_0000_0000,
{
    lemma_group_sum_bound(s, 9);
    lemma_pow128_values();
    assert(group_sum(s, 10) == group_sum(s, 9) + (b % 128) as nat * pow128(9));
    assert((b & 0x7f) == b % 128) by (bit_vector);
    let c = (b % 128) as u64;
    assert(((b & 0x7f) as u64) == c);
    assert(v < 9223372036854775808u64 && c < 128 ==> (v | (c << 63u64)) == (if c % 2 == 0 { v } else {
        (v + 9223372036854775808u64) as u64
    })) by (bit_vector);
    let g = v as nat + c as nat * 9223372036854775808;
    assert(g % 0x1_0000_0000_0000_0000 == if c % 2 == 0 { v as nat } else { v as nat + 9223372036854775808 })
        by (nonlinear_arith)
        requires
            g == v as nat + c as nat * 9223372036854775808,
            v < 9223372036854775808,
            c < 128,
    ;
}

/// A number below `128^k`, for `k` of at least one, takes at most `k`
/// groups.
pub proof fn lemma_leb128_len(x: nat, k: nat)
    requires
        1 <= k,
        x < pow128(k),
    ensures
        leb128(x).len() <= k,
    decreases x,
{
    if x < 128 {
        assert(leb128(x) == seq![x as u8]);
    } else {
        if k == 1 {
            assert(pow128(1) == 128) by {
                reveal_with_fuel(pow128, 2);
            }
        }
        assert(x / 128 < pow128((k - 1) as nat)) by (nonlinear_arith)
            requires
                x < 128 * pow128((k - 1) as nat),
        ;
        lemma_leb128_len(x / 128, (k - 1) as nat);
        assert(leb128(x) == seq![(x % 128 + 128) as u8] + leb128(x / 128));
    }
}

/// Reinterpreting the bits of an `i64` as unsigned and back gives the `i64`.
pub proof fn lemma_u64_i64_roundtrip(v: i64)
    by (bit_vector)
    ensures
        (v as u64) as i64 == v,
{
}

/// The form of a written VarInt: `var_i32_len(v)` bytes, each but the last
/// with its high bit (`0x80`) set and the last with it clear, whose low seven
/// bits, least significant group first (the `k`-th group counting
/// `128^k`, i.e. shifted left by `7 * k`), add up to the value's 32 bits.
pub proof fn lemma_var_i32_bytes_form(v: i32)
    ensures
        ({
            let e = var_i32_bytes(v);
            &&& e.len() == var_i32_len(v)
            &&& forall|k: int| 0 <= k < e.len() - 1 ==> #[trigger] e[k] >= 128 && (e[k] & 0x80u8) != 0
            &&& e[e.len() - 1] < 128 && (e[e.len() - 1] & 0x80u8) == 0
            &&& group_sum(e, e.len()) == unsigned32(v)
        }),
{
    let e = var_i32_bytes(v);
    lemma_var_i32_bytes_len(v);
    lemma_leb128_decodes(unsigned32(v), Seq::empty());
    assert(e + Seq::<u8>::empty() =~= e);
    assert forall|k: int| 0 <= k < e.len() - 1 implies #[trigger] e[k] >= 128 && (e[k] & 0x80u8) != 0 by {
        lemma_high_bit(e[k]);
    }
    lemma_high_bit(e[e.len() - 1]);
}

/// A byte's high bit is set exactly when it is at least 128.
proof fn lemma_high_bit(b: u8)
    by (bit_vector)
    ensures
        b >= 128 <==> (b & 0x80u8) != 0,
{
}

/// Reinterpreting the bits of an `i32` as unsigned and back gives the `i32`.
pub proof fn lemma_u32_i32_roundtrip(v: i32)
    by (bit_vector)
    ensures
        (v as u32) as i32 == v,
{
}

} // verus!
