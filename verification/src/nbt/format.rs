//! The NBT byte format: what reading bytes gives and what writing a value
//! gives. Numbers are big-endian; strings carry a 16-bit byte count.

use crate::error::IoError;
use crate::io::be::{be_bytes, lemma_be_bytes_len, lemma_be_roundtrip, lemma_pow256_values, pow256};
use crate::io::impls::lists::prefixed;
use crate::io::mc::fixed_decode;
use crate::io::be::be_value;
use crate::nbt::compound::{find_name, insert_all};
use crate::nbt::value::{value_tag, NbtList, NbtValue, Tag};
use vstd::prelude::*;
use vstd::utf8::{decode_utf8, encode_utf8, encode_utf8_decode_utf8, encode_utf8_valid_utf8, valid_utf8};

verus! {

/// Reading a tag byte.
pub open spec fn decode_tag(s: Seq<u8>) -> Result<(Tag, nat), IoError> {
    if s.len() < 1 {
        Err(IoError::UnexpectedEof)
    } else {
        match Tag::spec_from_id(s[0]) {
            Some(t) => Ok((t, 1)),
            None => Err(IoError::InvalidData),
        }
    }
}

/// Reading a big-endian `i32`.
pub open spec fn decode_i32(s: Seq<u8>) -> Result<(i32, nat), IoError> {
    match fixed_decode(s, 4) {
        Ok((x, n)) => Ok(((x as u32) as i32, n)),
        Err(e) => Err(e),
    }
}

/// `count` big-endian `i32`s from the front of `s`.
pub open spec fn be_ints(s: Seq<u8>, count: nat) -> Seq<i32> {
    Seq::new(count, |i: int| (be_value(s.subrange(4 * i, 4 * i + 4)) as u32) as i32)
}

/// `count` big-endian `i64`s from the front of `s`.
pub open spec fn be_longs(s: Seq<u8>, count: nat) -> Seq<i64> {
    Seq::new(count, |i: int| (be_value(s.subrange(8 * i, 8 * i + 8)) as u64) as i64)
}

/// Reading a string: a big-endian `u16` byte count, then that many bytes of
/// valid UTF-8.
pub open spec fn decode_nbt_string(s: Seq<u8>) -> Result<(Seq<char>, nat), IoError> {
    match fixed_decode(s, 2) {
        Err(e) => Err(e),
        Ok((len, _)) => if s.len() < 2 + len {
            Err(IoError::UnexpectedEof)
        } else if valid_utf8(s.subrange(2, (2 + len) as int)) {
            Ok((decode_utf8(s.subrange(2, (2 + len) as int)), 2 + len))
        } else {
            Err(IoError::InvalidData)
        },
    }
}

/// Reading the payload of a value that holds no other values. An integer
/// array is read after as many zeros as it has elements.
pub open spec fn decode_simple(t: Tag, s: Seq<u8>) -> Result<(NbtValue, nat), IoError> {
    match t {
        Tag::Byte => if s.len() < 1 {
            Err(IoError::UnexpectedEof)
        } else {
            Ok((NbtValue::Byte(s[0] as i8), 1))
        },
        Tag::Short => match fixed_decode(s, 2) {
            Ok((x, n)) => Ok((NbtValue::Short((x as u16) as i16), n)),
            Err(e) => Err(e),
        },
        Tag::Int => match decode_i32(s) {
            Ok((x, n)) => Ok((NbtValue::Int(x), n)),
            Err(e) => Err(e),
        },
        Tag::Long => match fixed_decode(s, 8) {
            Ok((x, n)) => Ok((NbtValue::Long((x as u64) as i64), n)),
            Err(e) => Err(e),
        },
        Tag::Float => match fixed_decode(s, 4) {
            Ok((x, n)) => Ok((NbtValue::Float(x as u32), n)),
            Err(e) => Err(e),
        },
        Tag::Double => match fixed_decode(s, 8) {
            Ok((x, n)) => Ok((NbtValue::Double(x as u64), n)),
            Err(e) => Err(e),
        },
        Tag::ByteArray => match decode_i32(s) {
            Err(e) => Err(e),
            Ok((len, _)) => if len < 0 {
                Err(IoError::InvalidData)
            } else if s.len() < 4 + len {
                Err(IoError::UnexpectedEof)
            } else {
                Ok((NbtValue::ByteArray(Seq::new(len as nat, |i: int| s[4 + i] as i8)), (4 + len) as nat))
            },
        },
        Tag::String => match decode_nbt_string(s) {
            Ok((cs, n)) => Ok((NbtValue::String(cs), n)),
            Err(e) => Err(e),
        },
        Tag::IntArray => match decode_i32(s) {
            Err(e) => Err(e),
            Ok((len, _)) => if len < 0 {
                Err(IoError::InvalidData)
            } else if s.len() < 4 + 4 * len {
                Err(IoError::UnexpectedEof)
            } else {
                Ok((
                    NbtValue::IntArray(Seq::new(len as nat, |i: int| 0i32) + be_ints(s.skip(4), len as nat)),
                    (4 + 4 * len) as nat,
                ))
            },
        },
        Tag::LongArray => match decode_i32(s) {
            Err(e) => Err(e),
            Ok((len, _)) => if len < 0 {
                Err(IoError::InvalidData)
            } else if s.len() < 4 + 8 * len {
                Err(IoError::UnexpectedEof)
            } else {
                Ok((
                    NbtValue::LongArray(Seq::new(len as nat, |i: int| 0i64) + be_longs(s.skip(4), len as nat)),
                    (4 + 8 * len) as nat,
                ))
            },
        },
        _ => Err(IoError::InvalidData),
    }
}

/// Reading the payload of a value with tag `t`. The `End` tag stands for
/// no value and is invalid here.
pub open spec fn decode_payload(t: Tag, s: Seq<u8>) -> Result<(NbtValue, nat), IoError>
    decreases s.len(), 1nat, 0nat,
{
    match t {
        Tag::List => match decode_list(s) {
            Ok((l, n)) => Ok((NbtValue::List(l), n)),
            Err(e) => Err(e),
        },
        Tag::Compound => match decode_compound(s) {
            Ok((raw, n)) => Ok((NbtValue::Compound(insert_all(raw)), n)),
            Err(e) => Err(e),
        },
        _ => decode_simple(t, s),
    }
}

/// Reading a list: the tag of its elements, a big-endian `i32` count (which
/// must be 1 for the `End` tag and not negative otherwise), then the
/// elements' payloads.
pub open spec fn decode_list(s: Seq<u8>) -> Result<(NbtList, nat), IoError>
    decreases s.len(), 0nat, 0nat,
{
    match decode_tag(s) {
        Err(e) => Err(e),
        Ok((t, _)) => match decode_i32(s.skip(1)) {
            Err(e) => Err(e),
            Ok((len, _)) => if t == Tag::End {
                if len == 1 {
                    Ok((NbtList::End, 5))
                } else {
                    Err(IoError::InvalidData)
                }
            } else if len < 0 {
                Err(IoError::InvalidData)
            } else {
                match decode_elems(t, len as nat, s.skip(5)) {
                    Ok((vs, n)) => Ok((NbtList::Of(t, vs), n + 5)),
                    Err(e) => Err(e),
                }
            },
        },
    }
}

/// Reading `count` payloads of tag `t` one after another. (The last branch
/// does not arise: a read takes no more than its input.)
pub open spec fn decode_elems(t: Tag, count: nat, s: Seq<u8>) -> Result<(Seq<NbtValue>, nat), IoError>
    decreases s.len(), 2nat, count,
{
    if count == 0 {
        Ok((Seq::empty(), 0))
    } else {
        match decode_elems(t, (count - 1) as nat, s) {
            Err(e) => Err(e),
            Ok((vs, c)) => if c <= s.len() {
                match decode_payload(t, s.skip(c as int)) {
                    Ok((v, n)) => Ok((vs.push(v), c + n)),
                    Err(e) => Err(e),
                }
            } else {
                Err(IoError::InvalidData)
            },
        }
    }
}

/// Reading the entries of a compound, each a tag, a name and a payload, up
/// to an `End` tag. The entries come as they were read; a compound holds
/// them inserted one after another. (The branches that fail with invalid
/// data after a successful read do not arise.)
pub open spec fn decode_compound(s: Seq<u8>) -> Result<(Seq<(Seq<char>, NbtValue)>, nat), IoError>
    decreases s.len(), 0nat, 0nat,
{
    match decode_tag(s) {
        Err(e) => Err(e),
        Ok((t, _)) => if t == Tag::End {
            Ok((Seq::empty(), 1))
        } else {
            match decode_nbt_string(s.skip(1)) {
                Err(e) => Err(e),
                Ok((name, k)) => if 1 + k <= s.len() {
                    match decode_payload(t, s.skip((1 + k) as int)) {
                        Err(e) => Err(e),
                        Ok((v, m)) => if 1 + k + m <= s.len() {
                            match decode_compound(s.skip((1 + k + m) as int)) {
                                Err(e) => Err(e),
                                Ok((es, r)) => Ok((seq![(name, v)] + es, 1 + k + m + r)),
                            }
                        } else {
                            Err(IoError::InvalidData)
                        },
                    }
                } else {
                    Err(IoError::InvalidData)
                },
            }
        },
    }
}

/// Writing a string: its UTF-8 byte count as a big-endian `u16` (more than
/// `u16::MAX` bytes are invalid), then the bytes.
pub open spec fn encode_nbt_string(cs: Seq<char>) -> Result<Seq<u8>, IoError> {
    let b = encode_utf8(cs);
    if b.len() > u16::MAX {
        Err(IoError::InvalidData)
    } else {
        Ok(be_bytes(b.len(), 2) + b)
    }
}

/// Big-endian bytes of `i32`s.
pub open spec fn ints_bytes(xs: Seq<i32>) -> Seq<u8>
    decreases xs.len(),
{
    if xs.len() == 0 {
        Seq::empty()
    } else {
        ints_bytes(xs.drop_last()) + be_bytes((xs.last() as u32) as nat, 4)
    }
}

/// Big-endian bytes of `i64`s.
pub open spec fn longs_bytes(xs: Seq<i64>) -> Seq<u8>
    decreases xs.len(),
{
    if xs.len() == 0 {
        Seq::empty()
    } else {
        longs_bytes(xs.drop_last()) + be_bytes((xs.last() as u64) as nat, 8)
    }
}

/// Writing the payload of a value. Arrays and lists carry a big-endian
/// `i32` count (more than `i32::MAX` elements are invalid); a compound ends
/// with an `End` tag.
pub open spec fn encode_payload(v: NbtValue) -> Result<Seq<u8>, IoError>
    decreases v,
{
    match v {
        NbtValue::Byte(b) => Ok(seq![b as u8]),
        NbtValue::Short(x) => Ok(be_bytes((x as u16) as nat, 2)),
        NbtValue::Int(x) => Ok(be_bytes((x as u32) as nat, 4)),
        NbtValue::Long(x) => Ok(be_bytes((x as u64) as nat, 8)),
        NbtValue::Float(x) => Ok(be_bytes(x as nat, 4)),
        NbtValue::Double(x) => Ok(be_bytes(x as nat, 8)),
        NbtValue::ByteArray(bs) => if bs.len() > i32::MAX {
            Err(IoError::InvalidData)
        } else {
            Ok(be_bytes(bs.len(), 4) + Seq::new(bs.len(), |i: int| bs[i] as u8))
        },
        NbtValue::String(cs) => encode_nbt_string(cs),
        NbtValue::List(l) => encode_list(l),
        NbtValue::Compound(es) => match encode_entries(es) {
            Ok(b) => Ok(b.push(0u8)),
            Err(e) => Err(e),
        },
        NbtValue::IntArray(xs) => if xs.len() > i32::MAX {
            Err(IoError::InvalidData)
        } else {
            Ok(be_bytes(xs.len(), 4) + ints_bytes(xs))
        },
        NbtValue::LongArray(xs) => if xs.len() > i32::MAX {
            Err(IoError::InvalidData)
        } else {
            Ok(be_bytes(xs.len(), 4) + longs_bytes(xs))
        },
    }
}

/// Writing a list. The `End` list is its tag and a zero count; another list
/// is its count and its elements' payloads, with no tag before them.
pub open spec fn encode_list(l: NbtList) -> Result<Seq<u8>, IoError>
    decreases l,
{
    match l {
        NbtList::End => Ok(seq![0u8, 0u8, 0u8, 0u8, 0u8]),
        NbtList::Of(_, vs) => if vs.len() > i32::MAX {
            Err(IoError::InvalidData)
        } else {
            prefixed(be_bytes(vs.len(), 4), encode_values(vs))
        },
    }
}

/// Writing payloads one after another, or the first error.
pub open spec fn encode_values(vs: Seq<NbtValue>) -> Result<Seq<u8>, IoError>
    decreases vs,
{
    if vs.len() == 0 {
        Ok(Seq::empty())
    } else {
        match encode_values(vs.drop_last()) {
            Err(e) => Err(e),
            Ok(b) => prefixed(b, encode_payload(vs.last())),
        }
    }
}

/// Writing compound entries one after another: each its value's tag, its
/// name and its value's payload; or the first error.
pub open spec fn encode_entries(es: Seq<(Seq<char>, NbtValue)>) -> Result<Seq<u8>, IoError>
    decreases es,
{
    if es.len() == 0 {
        Ok(Seq::empty())
    } else {
        match encode_entries(es.drop_last()) {
            Err(e) => Err(e),
            Ok(b) => match encode_nbt_string(es.last().0) {
                Err(e) => Err(e),
                Ok(name) => prefixed(
                    b.push(value_tag(es.last().1).spec_id()) + name,
                    encode_payload(es.last().1),
                ),
            },
        }
    }
}

/// A value that the NBT reader gives back as written: a number, a byte
/// array, a string, or a compound whose names differ from one another and
/// whose values read back. (Integer arrays read back after as many zeros as
/// they have elements, and lists are written in a form the reader does not
/// take, so neither reads back.)
pub open spec fn reads_back(v: NbtValue) -> bool
    decreases v, 1nat, 0nat,
{
    match v {
        NbtValue::Byte(_) | NbtValue::Short(_) | NbtValue::Int(_) | NbtValue::Long(_) | NbtValue::Float(
            _,
        ) | NbtValue::Double(_) | NbtValue::ByteArray(_) | NbtValue::String(_) => true,
        NbtValue::Compound(es) => names_distinct(es) && entries_read_back(v, es.len()),
        _ => false,
    }
}

/// The values of the first `n` entries of the compound `v` read back.
pub open spec fn entries_read_back(v: NbtValue, n: nat) -> bool
    decreases v, 0nat, n,
{
    match v {
        NbtValue::Compound(es) => if n == 0 || n > es.len() {
            true
        } else {
            entries_read_back(v, (n - 1) as nat) && reads_back(es[n - 1].1)
        },
        _ => true,
    }
}

/// No name occurs twice among the entries.
pub open spec fn names_distinct(es: Seq<(Seq<char>, NbtValue)>) -> bool {
    forall|i: int, j: int| 0 <= i < j < es.len() ==> es[i].0 != es[j].0
}

/// Reading `n` big-endian bytes of `x` back.
proof fn lemma_fixed_roundtrip(x: nat, n: nat, rest: Seq<u8>)
    requires
        x < pow256(n),
    ensures
        fixed_decode(be_bytes(x, n) + rest, n) == Ok::<(nat, nat), IoError>((x, n)),
        be_bytes(x, n).len() == n,
{
    lemma_be_roundtrip(x, n);
    lemma_be_bytes_len(x, n);
    assert((be_bytes(x, n) + rest).take(n as int) =~= be_bytes(x, n));
}

/// Reading back the payload of a number, a byte array or a string that was
/// written gives it back, using exactly the bytes written.
proof fn lemma_simple_roundtrip(v: NbtValue, rest: Seq<u8>)
    requires
        v !is Compound,
        reads_back(v),
        encode_payload(v) is Ok,
    ensures
        decode_payload(value_tag(v), encode_payload(v)->Ok_0 + rest) == Ok::<(NbtValue, nat), IoError>(
            (v, encode_payload(v)->Ok_0.len()),
        ),
{
    lemma_pow256_values();
    let b = encode_payload(v)->Ok_0;
    let s = b + rest;
    match v {
        NbtValue::Byte(x) => {
            assert(b =~= seq![x as u8]);
            assert(s[0] == x as u8);
            assert((x as u8) as i8 == x) by (bit_vector);
        },
        NbtValue::Short(x) => {
            lemma_fixed_roundtrip((x as u16) as nat, 2, rest);
            assert(((x as u16) as nat) as u16 == x as u16);
            assert((x as u16) as i16 == x) by (bit_vector);
        },
        NbtValue::Int(x) => {
            lemma_fixed_roundtrip((x as u32) as nat, 4, rest);
            assert((x as u32) as i32 == x) by (bit_vector);
        },
        NbtValue::Long(x) => {
            lemma_fixed_roundtrip((x as u64) as nat, 8, rest);
            assert((x as u64) as i64 == x) by (bit_vector);
        },
        NbtValue::Float(x) => {
            lemma_fixed_roundtrip(x as nat, 4, rest);
        },
        NbtValue::Double(x) => {
            lemma_fixed_roundtrip(x as nat, 8, rest);
        },
        NbtValue::ByteArray(bs) => {
            let len = bs.len();
            let body = Seq::new(len, |i: int| bs[i] as u8);
            lemma_be_bytes_len(len, 4);
            assert(s =~= be_bytes(len, 4) + (body + rest));
            lemma_fixed_roundtrip(len, 4, body + rest);
            assert(((len as u32) as i32) == len);
            assert forall|i: int| 0 <= i < len implies #[trigger] (s[4 + i] as i8) == bs[i] by {
                let x = bs[i];
                assert((x as u8) as i8 == x) by (bit_vector);
            }
            assert(Seq::new(len, |i: int| s[4 + i] as i8) =~= bs);
        },
        NbtValue::String(cs) => {
            let e = encode_utf8(cs);
            lemma_be_bytes_len(e.len(), 2);
            assert(s =~= be_bytes(e.len(), 2) + (e + rest));
            lemma_fixed_roundtrip(e.len(), 2, e + rest);
            assert(s.subrange(2, (2 + e.len()) as int) =~= e);
            encode_utf8_valid_utf8(cs);
            encode_utf8_decode_utf8(cs);
        },
        _ => {},
    }
}

/// The bytes of one compound entry: its value's tag, its name, then its
/// value's payload.
spec fn encode_entry(e: (Seq<char>, NbtValue)) -> Result<Seq<u8>, IoError> {
    match encode_nbt_string(e.0) {
        Err(err) => Err(err),
        Ok(name) => prefixed(seq![value_tag(e.1).spec_id()] + name, encode_payload(e.1)),
    }
}

/// Written entries are the first entry's bytes, then the others'.
proof fn lemma_entries_split(es: Seq<(Seq<char>, NbtValue)>)
    requires
        es.len() > 0,
        encode_entries(es) is Ok,
    ensures
        encode_entry(es[0]) is Ok,
        encode_entries(es.skip(1)) is Ok,
        encode_entries(es)->Ok_0 == encode_entry(es[0])->Ok_0 + encode_entries(es.skip(1))->Ok_0,
    decreases es.len(),
{
    let d = es.drop_last();
    if es.len() == 1 {
        assert(d =~= Seq::<(Seq<char>, NbtValue)>::empty());
        assert(es.skip(1) =~= Seq::<(Seq<char>, NbtValue)>::empty());
        let name = encode_nbt_string(es[0].0)->Ok_0;
        let pay = encode_payload(es[0].1)->Ok_0;
        assert(Seq::<u8>::empty().push(value_tag(es[0].1).spec_id()) + name + pay
            =~= seq![value_tag(es[0].1).spec_id()] + name + pay + Seq::<u8>::empty());
    } else {
        lemma_entries_split(d);
        assert(es.skip(1).drop_last() =~= d.skip(1));
        assert(es.skip(1).last() == es.last());
        assert(d[0] == es[0]);
        let e0 = encode_entry(es[0])->Ok_0;
        let b1 = encode_entries(d.skip(1))->Ok_0;
        let tag = value_tag(es.last().1).spec_id();
        let name = encode_nbt_string(es.last().0)->Ok_0;
        let pay = encode_payload(es.last().1)->Ok_0;
        assert((e0 + b1).push(tag) + name + pay =~= e0 + (b1.push(tag) + name + pay));
    }
}

/// A name that no entry has is not found.
proof fn lemma_find_absent(es: Seq<(Seq<char>, NbtValue)>, name: Seq<char>)
    requires
        forall|i: int| 0 <= i < es.len() ==> es[i].0 != name,
    ensures
        find_name(es, name) == -1,
    decreases es.len(),
{
    if es.len() > 0 {
        lemma_find_absent(es.drop_last(), name);
    }
}

/// Inserting entries with distinct names one after another keeps them all,
/// in order.
proof fn lemma_insert_all_distinct(es: Seq<(Seq<char>, NbtValue)>)
    requires
        names_distinct(es),
    ensures
        insert_all(es) == es,
    decreases es.len(),
{
    if es.len() > 0 {
        let d = es.drop_last();
        lemma_insert_all_distinct(d);
        assert forall|i: int| 0 <= i < d.len() implies d[i].0 != es.last().0 by {
            assert(es[i] == d[i]);
        }
        lemma_find_absent(d, es.last().0);
        assert(d.push((es.last().0, es.last().1)) =~= es);
    }
}

/// The values of a compound that reads back read back, and its names differ.
proof fn lemma_entry_reads_back(parent: NbtValue, i: int)
    requires
        parent is Compound,
        reads_back(parent),
        0 <= i < parent->Compound_0.len(),
    ensures
        reads_back(parent->Compound_0[i].1),
        names_distinct(parent->Compound_0),
{
    match parent {
        NbtValue::Compound(es) => lemma_entries_prefix(parent, es.len(), i),
        _ => {},
    }
}

proof fn lemma_entries_prefix(v: NbtValue, n: nat, i: int)
    requires
        v is Compound,
        entries_read_back(v, n),
        n <= v->Compound_0.len(),
        0 <= i < n,
    ensures
        reads_back(v->Compound_0[i].1),
    decreases n,
{
    if i < n - 1 {
        lemma_entries_prefix(v, (n - 1) as nat, i);
    }
}

#[verifier::spinoff_prover]
#[verifier::rlimit(100)]
/// One step of reading compound entries: a tag, a name that reads back, a
/// payload that reads back, then the entries after it.
proof fn lemma_compound_step(
    name: Seq<char>,
    v: NbtValue,
    more: Seq<u8>,
    more_es: Seq<(Seq<char>, NbtValue)>,
    more_len: nat,
)
    requires
        encode_nbt_string(name) is Ok,
        encode_payload(v) is Ok,
        decode_payload(value_tag(v), encode_payload(v)->Ok_0 + more) == Ok::<(NbtValue, nat), IoError>(
            (v, encode_payload(v)->Ok_0.len()),
        ),
        decode_compound(more) == Ok::<(Seq<(Seq<char>, NbtValue)>, nat), IoError>((more_es, more_len)),
    ensures
        decode_compound(
            seq![value_tag(v).spec_id()] + (encode_nbt_string(name)->Ok_0 + (encode_payload(v)->Ok_0
                + more)),
        ) == Ok::<(Seq<(Seq<char>, NbtValue)>, nat), IoError>((
            seq![(name, v)] + more_es,
            1 + encode_nbt_string(name)->Ok_0.len() + encode_payload(v)->Ok_0.len() + more_len,
        )),
{
    let tag = value_tag(v);
    let nb = encode_nbt_string(name)->Ok_0;
    let pay = encode_payload(v)->Ok_0;
    let s = seq![tag.spec_id()] + (nb + (pay + more));
    assert(Tag::spec_from_id(tag.spec_id()) == Some(tag));
    assert(decode_tag(s) == Ok::<(Tag, nat), IoError>((tag, 1)));
    assert(s.skip(1) =~= nb + (pay + more));
    lemma_simple_roundtrip(NbtValue::String(name), pay + more);
    assert(decode_nbt_string(s.skip(1)) == Ok::<(Seq<char>, nat), IoError>((name, nb.len())));
    assert(s.skip((1 + nb.len()) as int) =~= pay + more);
    assert(s.skip((1 + nb.len() + pay.len()) as int) =~= more);
}

#[verifier::spinoff_prover]
#[verifier::rlimit(100)]
/// Reading back the entries of `parent` from the `i`-th on, written and
/// followed by an `End` tag, gives them back and uses exactly those bytes.
proof fn lemma_entries_roundtrip(parent: NbtValue, i: nat, rest: Seq<u8>)
    requires
        parent is Compound,
        reads_back(parent),
        i <= parent->Compound_0.len(),
        encode_entries(parent->Compound_0.skip(i as int)) is Ok,
    ensures
        decode_compound(encode_entries(parent->Compound_0.skip(i as int))->Ok_0 + (seq![0u8] + rest))
            == Ok::<(Seq<(Seq<char>, NbtValue)>, nat), IoError>((
            parent->Compound_0.skip(i as int),
            encode_entries(parent->Compound_0.skip(i as int))->Ok_0.len() + 1,
        )),
    decreases parent, 0nat, parent->Compound_0.len() - i,
{
    let es = parent->Compound_0;
    let t = es.skip(i as int);
    if i == es.len() {
        assert(t =~= Seq::<(Seq<char>, NbtValue)>::empty());
        assert(Seq::<u8>::empty() + (seq![0u8] + rest) =~= seq![0u8] + rest);
        assert(Tag::spec_from_id(0u8) == Some(Tag::End));
    } else {
        lemma_entries_split(t);
        assert(t.skip(1) =~= es.skip(i + 1int));
        assert(t[0] == es[i as int]);
        let name = es[i as int].0;
        let v = es[i as int].1;
        lemma_entry_reads_back(parent, i as int);
        let nb = encode_nbt_string(name)->Ok_0;
        let pay = encode_payload(v)->Ok_0;
        let more = encode_entries(es.skip(i + 1int))->Ok_0 + (seq![0u8] + rest);
        assert(decreases_to!(parent => es));
        assert(decreases_to!(es => es[i as int]));
        lemma_value_roundtrip(v, more);
        lemma_entries_roundtrip(parent, i + 1, rest);
        lemma_compound_step(name, v, more, es.skip(i + 1int), encode_entries(es.skip(i + 1int))->Ok_0.len() + 1);
        assert(encode_entries(t)->Ok_0 + (seq![0u8] + rest) =~= seq![value_tag(v).spec_id()] + (nb + (pay + more)));
        assert(seq![(name, v)] + es.skip(i + 1int) =~= t);
    }
}

/// Reading back the payload of a value that reads back (a number, a byte
/// array, a string, or a compound of such values under distinct names)
/// gives it back, using exactly the bytes written.
pub proof fn lemma_payload_roundtrip(v: NbtValue, rest: Seq<u8>)
    requires
        reads_back(v),
        encode_payload(v) is Ok,
    ensures
        decode_payload(value_tag(v), encode_payload(v)->Ok_0 + rest) == Ok::<(NbtValue, nat), IoError>(
            (v, encode_payload(v)->Ok_0.len()),
        ),
{
    lemma_value_roundtrip(v, rest);
}

proof fn lemma_value_roundtrip(v: NbtValue, rest: Seq<u8>)
    requires
        reads_back(v),
        encode_payload(v) is Ok,
    ensures
        decode_payload(value_tag(v), encode_payload(v)->Ok_0 + rest) == Ok::<(NbtValue, nat), IoError>(
            (v, encode_payload(v)->Ok_0.len()),
        ),
    decreases v, 1nat, 0nat,
{
    match v {
        NbtValue::Compound(es) => {
            assert(es.skip(0) =~= es);
            lemma_entries_roundtrip(v, 0, rest);
            let b = encode_entries(es)->Ok_0;
            assert(b.push(0u8) + rest =~= b + (seq![0u8] + rest));
            lemma_insert_all_distinct(es);
        },
        _ => lemma_simple_roundtrip(v, rest),
    }
}

} // verus!
