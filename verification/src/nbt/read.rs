//! Reading NBT values from bytes.

use crate::cursor::{remaining, unread};
use crate::error::IoError;
use crate::io::ext::{read_exact_bytes, ReadMinecraftExt};
use crate::io::be::{lemma_be_value_bound, lemma_pow256_values};
use crate::io::mc::{fixed_decode, write_outcome};
use crate::nbt::compound::{compound_entries, insert_all, lemma_insert_all_names_distinct, map_insert, map_new, Compound};
use crate::nbt::format::{
    be_ints, be_longs, decode_compound, decode_elems, decode_i32, decode_list, decode_nbt_string,
    decode_payload, decode_simple, decode_tag, encode_payload,
};
use crate::nbt::value::{lists_view, List, NbtList, NbtValue, Tag, Value};
use crate::text::string_from_utf8;
use std::io::Cursor;
use vstd::prelude::*;

verus! {

/// How a read's result matches its outcome, the result taken by its view.
pub open spec fn read_as<T: View>(
    before: Seq<u8>,
    after: Seq<u8>,
    outcome: Result<(T::V, nat), IoError>,
    r: Result<T, IoError>,
) -> bool {
    match outcome {
        Ok((v, n)) => (r matches Ok(x) && x@ == v) && after == before.skip(n as int),
        Err(e) => r matches Err(e2) && e2 == e,
    }
}

/// What the payload of an integer array reads as, when it reads as one.
pub open spec fn ints_of(outcome: Result<(NbtValue, nat), IoError>) -> Result<(Seq<i32>, nat), IoError> {
    match outcome {
        Ok((NbtValue::IntArray(xs), n)) => Ok((xs, n)),
        Ok(_) => Err(IoError::InvalidData),
        Err(e) => Err(e),
    }
}

/// What the payload of a long array reads as, when it reads as one.
pub open spec fn longs_of(outcome: Result<(NbtValue, nat), IoError>) -> Result<(Seq<i64>, nat), IoError> {
    match outcome {
        Ok((NbtValue::LongArray(xs), n)) => Ok((xs, n)),
        Ok(_) => Err(IoError::InvalidData),
        Err(e) => Err(e),
    }
}

/// What the payload of a byte array reads as, when it reads as one.
pub open spec fn bytes_of(outcome: Result<(NbtValue, nat), IoError>) -> Result<(Seq<i8>, nat), IoError> {
    match outcome {
        Ok((NbtValue::ByteArray(xs), n)) => Ok((xs, n)),
        Ok(_) => Err(IoError::InvalidData),
        Err(e) => Err(e),
    }
}

/// What a string payload reads as, when it reads as one.
pub open spec fn chars_of(outcome: Result<(NbtValue, nat), IoError>) -> Result<(Seq<char>, nat), IoError> {
    match outcome {
        Ok((NbtValue::String(cs), n)) => Ok((cs, n)),
        Ok(_) => Err(IoError::InvalidData),
        Err(e) => Err(e),
    }
}

/// What a compound payload reads as: its entries, inserted one after
/// another.
pub open spec fn entries_of(s: Seq<u8>) -> Result<(Seq<(Seq<char>, NbtValue)>, nat), IoError> {
    match decode_compound(s) {
        Ok((raw, n)) => Ok((insert_all(raw), n)),
        Err(e) => Err(e),
    }
}

/// The entries a compound payload reads as have distinct names.
pub proof fn lemma_entries_of_distinct(s: Seq<u8>)
    ensures
        entries_of(s) matches Ok((es, _)) ==> crate::nbt::format::names_distinct(es),
{
    if let Ok((raw, _)) = decode_compound(s) {
        lemma_insert_all_names_distinct(raw);
    }
}

/// A value that can be an element of a list and holds no other values.
pub trait NbtElem: Sized {
    /// The tag of this type's values.
    spec fn elem_tag() -> Tag;

    /// What this value stands for.
    spec fn wrap(self) -> NbtValue;

    /// Reads a payload of this type.
    fn read_elem(reader: &mut Cursor<&[u8]>) -> (r: Result<Self, IoError>)
        ensures
            Self::elem_tag() != Tag::List && Self::elem_tag() != Tag::Compound,
            match decode_simple(Self::elem_tag(), unread(*old(reader))) {
                Ok((v, n)) => (r matches Ok(x) && x.wrap() == v) && unread(*final(reader))
                    == unread(*old(reader)).skip(n as int),
                Err(e) => r matches Err(e2) && e2 == e,
            },
    ;

    /// Writes the payload of this value.
    fn write_elem(&self, writer: &mut Vec<u8>) -> (r: Result<(), IoError>)
        ensures
            write_outcome(old(writer)@, final(writer)@, encode_payload(self.wrap()), r),
    ;
}

/// How a read's result matches its outcome, the result taken by `wrap`.
pub open spec fn read_wrapped<T>(
    before: Seq<u8>,
    after: Seq<u8>,
    outcome: Result<(NbtValue, nat), IoError>,
    r: Result<T, IoError>,
    wrap: spec_fn(T) -> NbtValue,
) -> bool {
    match outcome {
        Ok((v, n)) => (r matches Ok(x) && wrap(x) == v) && after == before.skip(n as int),
        Err(e) => r matches Err(e2) && e2 == e,
    }
}

impl NbtElem for i8 {
    open spec fn elem_tag() -> Tag {
        Tag::Byte
    }

    open spec fn wrap(self) -> NbtValue {
        NbtValue::Byte(self)
    }

    fn read_elem(reader: &mut Cursor<&[u8]>) -> (r: Result<i8, IoError>) {
        Value::read_byte(reader)
    }

    fn write_elem(&self, writer: &mut Vec<u8>) -> (r: Result<(), IoError>) {
        Value::write_byte(writer, *self)
    }
}

impl NbtElem for i16 {
    open spec fn elem_tag() -> Tag {
        Tag::Short
    }

    open spec fn wrap(self) -> NbtValue {
        NbtValue::Short(self)
    }

    fn read_elem(reader: &mut Cursor<&[u8]>) -> (r: Result<i16, IoError>) {
        Value::read_short(reader)
    }

    fn write_elem(&self, writer: &mut Vec<u8>) -> (r: Result<(), IoError>) {
        Value::write_short(writer, *self)
    }
}

impl NbtElem for i32 {
    open spec fn elem_tag() -> Tag {
        Tag::Int
    }

    open spec fn wrap(self) -> NbtValue {
        NbtValue::Int(self)
    }

    fn read_elem(reader: &mut Cursor<&[u8]>) -> (r: Result<i32, IoError>) {
        Value::read_int(reader)
    }

    fn write_elem(&self, writer: &mut Vec<u8>) -> (r: Result<(), IoError>) {
        Value::write_int(writer, *self)
    }
}

impl NbtElem for i64 {
    open spec fn elem_tag() -> Tag {
        Tag::Long
    }

    open spec fn wrap(self) -> NbtValue {
        NbtValue::Long(self)
    }

    fn read_elem(reader: &mut Cursor<&[u8]>) -> (r: Result<i64, IoError>) {
        Value::read_long(reader)
    }

    fn write_elem(&self, writer: &mut Vec<u8>) -> (r: Result<(), IoError>) {
        Value::write_long(writer, *self)
    }
}

impl NbtElem for u32 {
    open spec fn elem_tag() -> Tag {
        Tag::Float
    }

    open spec fn wrap(self) -> NbtValue {
        NbtValue::Float(self)
    }

    fn read_elem(reader: &mut Cursor<&[u8]>) -> (r: Result<u32, IoError>) {
        Value::read_float(reader)
    }

    fn write_elem(&self, writer: &mut Vec<u8>) -> (r: Result<(), IoError>) {
        Value::write_float(writer, *self)
    }
}

impl NbtElem for u64 {
    open spec fn elem_tag() -> Tag {
        Tag::Double
    }

    open spec fn wrap(self) -> NbtValue {
        NbtValue::Double(self)
    }

    fn read_elem(reader: &mut Cursor<&[u8]>) -> (r: Result<u64, IoError>) {
        Value::read_double(reader)
    }

    fn write_elem(&self, writer: &mut Vec<u8>) -> (r: Result<(), IoError>) {
        Value::write_double(writer, *self)
    }
}

impl NbtElem for Vec<i8> {
    open spec fn elem_tag() -> Tag {
        Tag::ByteArray
    }

    open spec fn wrap(self) -> NbtValue {
        NbtValue::ByteArray(self@)
    }

    fn read_elem(reader: &mut Cursor<&[u8]>) -> (r: Result<Vec<i8>, IoError>) {
        Value::read_byte_array(reader)
    }

    fn write_elem(&self, writer: &mut Vec<u8>) -> (r: Result<(), IoError>) {
        Value::write_byte_array(writer, self.as_slice())
    }
}

impl NbtElem for String {
    open spec fn elem_tag() -> Tag {
        Tag::String
    }

    open spec fn wrap(self) -> NbtValue {
        NbtValue::String(self@)
    }

    fn read_elem(reader: &mut Cursor<&[u8]>) -> (r: Result<String, IoError>) {
        Value::read_string(reader)
    }

    fn write_elem(&self, writer: &mut Vec<u8>) -> (r: Result<(), IoError>) {
        Value::write_string(writer, self.as_str())
    }
}

impl NbtElem for Vec<i32> {
    open spec fn elem_tag() -> Tag {
        Tag::IntArray
    }

    open spec fn wrap(self) -> NbtValue {
        NbtValue::IntArray(self@)
    }

    fn read_elem(reader: &mut Cursor<&[u8]>) -> (r: Result<Vec<i32>, IoError>) {
        Value::read_int_array(reader)
    }

    fn write_elem(&self, writer: &mut Vec<u8>) -> (r: Result<(), IoError>) {
        Value::write_int_array(writer, self.as_slice())
    }
}

impl NbtElem for Vec<i64> {
    open spec fn elem_tag() -> Tag {
        Tag::LongArray
    }

    open spec fn wrap(self) -> NbtValue {
        NbtValue::LongArray(self@)
    }

    fn read_elem(reader: &mut Cursor<&[u8]>) -> (r: Result<Vec<i64>, IoError>) {
        Value::read_long_array(reader)
    }

    fn write_elem(&self, writer: &mut Vec<u8>) -> (r: Result<(), IoError>) {
        Value::write_long_array(writer, self.as_slice())
    }
}

/// What a list of elements stands for.
pub open spec fn wrap_all<T: NbtElem>(v: Seq<T>) -> Seq<NbtValue> {
    Seq::new(v.len(), |i: int| v[i].wrap())
}

/// Reads `count` elements that hold no other values.
pub fn read_list_of<T: NbtElem>(reader: &mut Cursor<&[u8]>, count: usize) -> (r: Result<Vec<T>, IoError>)
    ensures
        match decode_elems(T::elem_tag(), count as nat, unread(*old(reader))) {
            Ok((vs, n)) => (r matches Ok(out) && wrap_all(out@) == vs) && unread(*final(reader))
                == unread(*old(reader)).skip(n as int),
            Err(e) => r matches Err(e2) && e2 == e,
        },
{
    let ghost s0 = unread(*reader);
    let ghost t = T::elem_tag();
    let mut out: Vec<T> = Vec::new();
    let ghost mut c: nat = 0;
    let mut i: usize = 0;
    assert(s0.skip(0) =~= s0);
    assert(wrap_all(out@) =~= Seq::<NbtValue>::empty());
    while i < count
        invariant
            t == T::elem_tag(),
            s0 == unread(*old(reader)),
            i <= count,
            c <= s0.len(),
            decode_elems(t, i as nat, s0) == Ok::<(Seq<NbtValue>, nat), IoError>((wrap_all(out@), c)),
            unread(*reader) == s0.skip(c as int),
        decreases count - i,
    {
        let ghost cur = unread(*reader);
        match T::read_elem(reader) {
            Ok(v) => {
                let ghost n = (cur.len() - unread(*reader).len()) as nat;
                let ghost before = out@;
                proof {
                    assert(decode_payload(t, cur) == decode_simple(t, cur));
                    assert(s0.skip(c as int).skip(n as int) =~= s0.skip((c + n) as int));
                }
                out.push(v);
                proof {
                    assert(wrap_all(out@) =~= wrap_all(before).push(v.wrap()));
                    c = c + n;
                }
                i = i + 1;
            },
            Err(e) => {
                proof {
                    assert(decode_payload(t, cur) == decode_simple(t, cur));
                    lemma_decode_elems_err(t, (i + 1) as nat, count as nat, s0);
                }
                return Err(e);
            },
        }
    }
    Ok(out)
}

/// A failed read of the first elements fails the read of more of them.
proof fn lemma_decode_elems_err(t: Tag, i: nat, count: nat, s: Seq<u8>)
    requires
        i <= count,
        decode_elems(t, i, s) is Err,
    ensures
        decode_elems(t, count, s) == decode_elems(t, i, s),
    decreases count,
{
    if i < count {
        lemma_decode_elems_err(t, i, (count - 1) as nat, s);
    }
}

/// A payload read takes no more than its input.
pub proof fn lemma_payload_len(t: Tag, s: Seq<u8>)
    ensures
        decode_payload(t, s) matches Ok((_, n)) ==> n <= s.len(),
    decreases s.len(), 1nat, 0nat,
{
    match t {
        Tag::List => lemma_list_len(s),
        Tag::Compound => lemma_compound_len(s),
        _ => {},
    }
}

/// A list read takes no more than its input.
pub proof fn lemma_list_len(s: Seq<u8>)
    ensures
        decode_list(s) matches Ok((_, n)) ==> n <= s.len(),
    decreases s.len(), 0nat, 0nat,
{
    if let Ok((t, _)) = decode_tag(s) {
        if let Ok((len, _)) = decode_i32(s.skip(1)) {
            if t != Tag::End && len >= 0 {
                lemma_elems_len(t, len as nat, s.skip(5));
            }
        }
    }
}

/// Reading elements takes no more than the input, and gives as many as
/// asked for.
pub proof fn lemma_elems_len(t: Tag, count: nat, s: Seq<u8>)
    ensures
        decode_elems(t, count, s) matches Ok((vs, c)) ==> c <= s.len() && vs.len() == count,
    decreases s.len(), 2nat, count,
{
    if count > 0 {
        lemma_elems_len(t, (count - 1) as nat, s);
        if let Ok((vs, c)) = decode_elems(t, (count - 1) as nat, s) {
            if c <= s.len() {
                lemma_payload_len(t, s.skip(c as int));
            }
        }
    }
}

/// A compound read takes no more than its input.
pub proof fn lemma_compound_len(s: Seq<u8>)
    ensures
        decode_compound(s) matches Ok((_, n)) ==> n <= s.len(),
    decreases s.len(), 0nat, 0nat,
{
    if let Ok((t, _)) = decode_tag(s) {
        if t != Tag::End {
            if let Ok((name, k)) = decode_nbt_string(s.skip(1)) {
                if 1 + k <= s.len() {
                    lemma_payload_len(t, s.skip((1 + k) as int));
                    if let Ok((v, m)) = decode_payload(t, s.skip((1 + k) as int)) {
                        if 1 + k + m <= s.len() {
                            lemma_compound_len(s.skip((1 + k + m) as int));
                        }
                    }
                }
            }
        }
    }
}

/// A compound read fails when its first tag does.
proof fn lemma_compound_tag_err(cur: Seq<u8>)
    requires
        decode_tag(cur) is Err,
    ensures
        decode_compound(cur) == Err::<(Seq<(Seq<char>, NbtValue)>, nat), IoError>(decode_tag(cur)->Err_0),
{
}

/// A compound read that starts with an `End` tag reads no entries.
proof fn lemma_compound_end(cur: Seq<u8>)
    requires
        decode_tag(cur) == Ok::<(Tag, nat), IoError>((Tag::End, 1)),
    ensures
        decode_compound(cur) == Ok::<(Seq<(Seq<char>, NbtValue)>, nat), IoError>((Seq::empty(), 1)),
{
}

/// A compound read fails when an entry's name does.
proof fn lemma_compound_name_err(cur: Seq<u8>, t: Tag)
    requires
        decode_tag(cur) == Ok::<(Tag, nat), IoError>((t, 1)),
        t != Tag::End,
        decode_nbt_string(cur.skip(1)) is Err,
    ensures
        decode_compound(cur) == Err::<(Seq<(Seq<char>, NbtValue)>, nat), IoError>(
            decode_nbt_string(cur.skip(1))->Err_0,
        ),
{
}

/// A compound read fails when an entry's value does.
proof fn lemma_compound_value_err(cur: Seq<u8>, t: Tag, name: Seq<char>, k: nat)
    requires
        decode_tag(cur) == Ok::<(Tag, nat), IoError>((t, 1)),
        t != Tag::End,
        decode_nbt_string(cur.skip(1)) == Ok::<(Seq<char>, nat), IoError>((name, k)),
        decode_payload(t, cur.skip((1 + k) as int)) is Err,
    ensures
        decode_compound(cur) == Err::<(Seq<(Seq<char>, NbtValue)>, nat), IoError>(
            decode_payload(t, cur.skip((1 + k) as int))->Err_0,
        ),
{
}

/// A compound read is its first entry, then the rest of the compound.
proof fn lemma_compound_entry(cur: Seq<u8>, t: Tag, name: Seq<char>, k: nat, v: NbtValue, m: nat)
    requires
        decode_tag(cur) == Ok::<(Tag, nat), IoError>((t, 1)),
        t != Tag::End,
        decode_nbt_string(cur.skip(1)) == Ok::<(Seq<char>, nat), IoError>((name, k)),
        decode_payload(t, cur.skip((1 + k) as int)) == Ok::<(NbtValue, nat), IoError>((v, m)),
    ensures
        1 + k + m <= cur.len(),
        decode_compound(cur) == match decode_compound(cur.skip((1 + k + m) as int)) {
            Ok((es, r)) => Ok::<(Seq<(Seq<char>, NbtValue)>, nat), IoError>((seq![(name, v)] + es, 1 + k + m + r)),
            Err(e) => Err(e),
        },
{
    lemma_payload_len(t, cur.skip((1 + k) as int));
}

impl Value {
    /// Reads a tag byte; a byte that stands for no tag is invalid.
    pub fn read_tag(reader: &mut Cursor<&[u8]>) -> (r: Result<Tag, IoError>)
        ensures
            match decode_tag(unread(*old(reader))) {
                Ok((t, n)) => r == Ok::<Tag, IoError>(t) && unread(*final(reader)) == unread(*old(reader)).skip(n as int),
                Err(e) => r == Err::<Tag, IoError>(e),
            },
    {
        let b = reader.read_u8()?;
        match Tag::from_id(b) {
            Some(t) => Ok(t),
            None => Err(IoError::InvalidData),
        }
    }

    /// Reads a byte.
    pub fn read_byte(reader: &mut Cursor<&[u8]>) -> (r: Result<i8, IoError>)
        ensures
            read_wrapped::<i8>(unread(*old(reader)), unread(*final(reader)), decode_simple(Tag::Byte, unread(*old(reader))), r, |x: i8| NbtValue::Byte(x)),
    {
        reader.read_i8()
    }

    /// Reads a big-endian `i16`.
    pub fn read_short(reader: &mut Cursor<&[u8]>) -> (r: Result<i16, IoError>)
        ensures
            read_wrapped::<i16>(unread(*old(reader)), unread(*final(reader)), decode_simple(Tag::Short, unread(*old(reader))), r, |x: i16| NbtValue::Short(x)),
    {
        reader.read_i16()
    }

    /// Reads a big-endian `i32`.
    pub fn read_int(reader: &mut Cursor<&[u8]>) -> (r: Result<i32, IoError>)
        ensures
            read_wrapped::<i32>(unread(*old(reader)), unread(*final(reader)), decode_simple(Tag::Int, unread(*old(reader))), r, |x: i32| NbtValue::Int(x)),
    {
        reader.read_i32()
    }

    /// Reads a big-endian `i64`.
    pub fn read_long(reader: &mut Cursor<&[u8]>) -> (r: Result<i64, IoError>)
        ensures
            read_wrapped::<i64>(unread(*old(reader)), unread(*final(reader)), decode_simple(Tag::Long, unread(*old(reader))), r, |x: i64| NbtValue::Long(x)),
    {
        reader.read_i64()
    }

    /// Reads the bits of a big-endian `f32`.
    pub fn read_float(reader: &mut Cursor<&[u8]>) -> (r: Result<u32, IoError>)
        ensures
            read_wrapped::<u32>(unread(*old(reader)), unread(*final(reader)), decode_simple(Tag::Float, unread(*old(reader))), r, |x: u32| NbtValue::Float(x)),
    {
        reader.read_u32()
    }

    /// Reads the bits of a big-endian `f64`.
    pub fn read_double(reader: &mut Cursor<&[u8]>) -> (r: Result<u64, IoError>)
        ensures
            read_wrapped::<u64>(unread(*old(reader)), unread(*final(reader)), decode_simple(Tag::Double, unread(*old(reader))), r, |x: u64| NbtValue::Double(x)),
    {
        reader.read_u64()
    }

    /// Reads a byte array: a big-endian `i32` count (negative is invalid),
    /// then that many bytes.
    pub fn read_byte_array(reader: &mut Cursor<&[u8]>) -> (r: Result<Vec<i8>, IoError>)
        ensures
            read_wrapped::<Vec<i8>>(unread(*old(reader)), unread(*final(reader)), decode_simple(Tag::ByteArray, unread(*old(reader))), r, |x: Vec<i8>| NbtValue::ByteArray(x@)),
    {
        let ghost s = unread(*reader);
        let len = reader.read_i32()?;
        if len < 0 {
            return Err(IoError::InvalidData);
        }
        let bytes = read_exact_bytes(reader, len as usize)?;
        let mut out: Vec<i8> = Vec::new();
        let mut i: usize = 0;
        while i < bytes.len()
            invariant
                i <= bytes@.len(),
                out@ == Seq::new(i as nat, |j: int| bytes@[j] as i8),
            decreases bytes.len() - i,
        {
            out.push(bytes[i] as i8);
            i = i + 1;
            assert(out@ =~= Seq::new(i as nat, |j: int| bytes@[j] as i8));
        }
        proof {
            assert(s.skip(4).skip(len as int) =~= s.skip(4 + len));
            assert(out@ =~= Seq::new(len as nat, |j: int| s[4 + j] as i8));
        }
        Ok(out)
    }

    /// Reads a string: a big-endian `u16` byte count, then that many bytes,
    /// which must be valid UTF-8.
    pub fn read_string(reader: &mut Cursor<&[u8]>) -> (r: Result<String, IoError>)
        ensures
            read_wrapped::<String>(unread(*old(reader)), unread(*final(reader)), decode_simple(Tag::String, unread(*old(reader))), r, |x: String| NbtValue::String(x@)),
    {
        let ghost s = unread(*reader);
        proof {
            lemma_be_value_bound(s.take(2));
            lemma_pow256_values();
        }
        let len = reader.read_u16()?;
        let bytes = read_exact_bytes(reader, len as usize)?;
        proof {
            assert(s.skip(2).take(len as int) =~= s.subrange(2, 2 + len));
            assert(s.skip(2).skip(len as int) =~= s.skip(2 + len));
        }
        match string_from_utf8(bytes) {
            Some(string) => Ok(string),
            None => Err(IoError::InvalidData),
        }
    }

    /// Reads an int array: a big-endian `i32` count (negative is invalid),
    /// then that many big-endian `i32`s, which follow as many zeros in the
    /// result.
    pub fn read_int_array(reader: &mut Cursor<&[u8]>) -> (r: Result<Vec<i32>, IoError>)
        ensures
            read_wrapped::<Vec<i32>>(unread(*old(reader)), unread(*final(reader)), decode_simple(Tag::IntArray, unread(*old(reader))), r, |x: Vec<i32>| NbtValue::IntArray(x@)),
    {
        let ghost s = unread(*reader);
        let len = reader.read_i32()?;
        if len < 0 {
            return Err(IoError::InvalidData);
        }
        let count = len as usize;
        if remaining(reader) / 4 < count {
            return Err(IoError::UnexpectedEof);
        }
        let mut buf: Vec<i32> = Vec::new();
        let mut i: usize = 0;
        while i < count
            invariant
                i <= count,
                buf@ == Seq::new(i as nat, |j: int| 0i32),
            decreases count - i,
        {
            buf.push(0);
            i = i + 1;
            assert(buf@ =~= Seq::new(i as nat, |j: int| 0i32));
        }
        let ghost zeros = buf@;
        let ghost body = s.skip(4);
        i = 0;
        assert(zeros + be_ints(body, 0) =~= zeros);
        assert(body.skip(0) =~= body);
        while i < count
            invariant
                i <= count,
                count == len,
                4 + 4 * count <= s.len(),
                body == s.skip(4),
                buf@ == zeros + be_ints(body, i as nat),
                unread(*reader) == body.skip(4 * i),
            decreases count - i,
        {
            let ghost cur = unread(*reader);
            let x = reader.read_i32()?;
            proof {
                assert(cur.take(4) =~= body.subrange(4 * i, 4 * i + 4));
                assert(body.skip(4 * i).skip(4) =~= body.skip(4 * i + 4));
            }
            buf.push(x);
            i = i + 1;
            assert(buf@ =~= zeros + be_ints(body, i as nat));
        }
        proof {
            assert(body.skip(4 * count) =~= s.skip(4 + 4 * len));
        }
        Ok(buf)
    }

    /// Reads a long array: a big-endian `i32` count (negative is invalid),
    /// then that many big-endian `i64`s, which follow as many zeros in the
    /// result.
    pub fn read_long_array(reader: &mut Cursor<&[u8]>) -> (r: Result<Vec<i64>, IoError>)
        ensures
            read_wrapped::<Vec<i64>>(unread(*old(reader)), unread(*final(reader)), decode_simple(Tag::LongArray, unread(*old(reader))), r, |x: Vec<i64>| NbtValue::LongArray(x@)),
    {
        let ghost s = unread(*reader);
        let len = reader.read_i32()?;
        if len < 0 {
            return Err(IoError::InvalidData);
        }
        let count = len as usize;
        if remaining(reader) / 8 < count {
            return Err(IoError::UnexpectedEof);
        }
        let mut buf: Vec<i64> = Vec::new();
        let mut i: usize = 0;
        while i < count
            invariant
                i <= count,
                buf@ == Seq::new(i as nat, |j: int| 0i64),
            decreases count - i,
        {
            buf.push(0);
            i = i + 1;
            assert(buf@ =~= Seq::new(i as nat, |j: int| 0i64));
        }
        let ghost zeros = buf@;
        let ghost body = s.skip(4);
        i = 0;
        assert(zeros + be_longs(body, 0) =~= zeros);
        assert(body.skip(0) =~= body);
        while i < count
            invariant
                i <= count,
                count == len,
                4 + 8 * count <= s.len(),
                body == s.skip(4),
                buf@ == zeros + be_longs(body, i as nat),
                unread(*reader) == body.skip(8 * i),
            decreases count - i,
        {
            let ghost cur = unread(*reader);
            let x = reader.read_i64()?;
            proof {
                assert(cur.take(8) =~= body.subrange(8 * i, 8 * i + 8));
                assert(body.skip(8 * i).skip(8) =~= body.skip(8 * i + 8));
            }
            buf.push(x);
            i = i + 1;
            assert(buf@ =~= zeros + be_longs(body, i as nat));
        }
        proof {
            assert(body.skip(8 * count) =~= s.skip(4 + 8 * len));
        }
        Ok(buf)
    }

    /// Reads the payload of a value with the given tag; the `End` tag
    /// stands for no value and is invalid.
    pub fn read_value(reader: &mut Cursor<&[u8]>, tag: Tag) -> (r: Result<Value, IoError>)
        ensures
            read_as::<Value>(unread(*old(reader)), unread(*final(reader)), decode_payload(tag, unread(*old(reader))), r),
        decreases unread(*old(reader)).len(), 1nat,
    {
        match tag {
            Tag::End => Err(IoError::InvalidData),
            Tag::Byte => Ok(Value::Byte(Self::read_byte(reader)?)),
            Tag::Short => Ok(Value::Short(Self::read_short(reader)?)),
            Tag::Int => Ok(Value::Int(Self::read_int(reader)?)),
            Tag::Long => Ok(Value::Long(Self::read_long(reader)?)),
            Tag::Float => Ok(Value::Float(Self::read_float(reader)?)),
            Tag::Double => Ok(Value::Double(Self::read_double(reader)?)),
            Tag::ByteArray => Ok(Value::ByteArray(Self::read_byte_array(reader)?)),
            Tag::String => Ok(Value::String(Self::read_string(reader)?)),
            Tag::List => Ok(Value::List(Self::read_list(reader)?)),
            Tag::Compound => Ok(Value::Compound(Self::read_component(reader)?)),
            Tag::IntArray => Ok(Value::IntArray(Self::read_int_array(reader)?)),
            Tag::LongArray => Ok(Value::LongArray(Self::read_long_array(reader)?)),
        }
    }

    /// Reads a list: the elements' tag, a big-endian `i32` count (1 for
    /// the `End` tag, not negative otherwise), then the elements.
    pub fn read_list(reader: &mut Cursor<&[u8]>) -> (r: Result<List, IoError>)
        ensures
            read_as::<List>(unread(*old(reader)), unread(*final(reader)), decode_list(unread(*old(reader))), r),
        decreases unread(*old(reader)).len(), 0nat,
    {
        let ghost s = unread(*reader);
        let tag = Self::read_tag(reader)?;
        let len = reader.read_i32()?;
        proof {
            assert(s.skip(1).skip(4) =~= s.skip(5));
        }
        if tag == Tag::End {
            if len == 1 {
                return Ok(List::End);
            }
            return Err(IoError::InvalidData);
        }
        if len < 0 {
            return Err(IoError::InvalidData);
        }
        let count = len as usize;
        proof {
            lemma_elems_len(tag, count as nat, s.skip(5));
            if let Ok((_, n)) = decode_elems(tag, count as nat, s.skip(5)) {
                assert(s.skip(5).skip(n as int) =~= s.skip((n + 5) as int));
            }
        }
        match tag {
            Tag::List => Ok(List::List(Self::read_lists(reader, count)?)),
            Tag::Compound => Ok(List::Compound(Self::read_compounds(reader, count)?)),
            _ => Self::read_simple_list(reader, tag, count),
        }
    }

    /// Reads `count` elements of a tag whose values hold no other values.
    #[verifier::rlimit(40)]
    fn read_simple_list(reader: &mut Cursor<&[u8]>, tag: Tag, count: usize) -> (r: Result<List, IoError>)
        requires
            tag != Tag::End && tag != Tag::List && tag != Tag::Compound,
        ensures
            match decode_elems(tag, count as nat, unread(*old(reader))) {
                Ok((vs, n)) => (r matches Ok(l) && l@ == NbtList::Of(tag, vs)) && unread(*final(reader))
                    == unread(*old(reader)).skip(n as int),
                Err(e) => r matches Err(e2) && e2 == e,
            },
    {
        match tag {
            Tag::Byte => {
                let v = read_list_of::<i8>(reader, count)?;
                assert(wrap_all(v@) =~= Seq::new(v@.len(), |i: int| NbtValue::Byte(v@[i])));
                Ok(List::Byte(v))
            },
            Tag::Short => {
                let v = read_list_of::<i16>(reader, count)?;
                assert(wrap_all(v@) =~= Seq::new(v@.len(), |i: int| NbtValue::Short(v@[i])));
                Ok(List::Short(v))
            },
            Tag::Int => {
                let v = read_list_of::<i32>(reader, count)?;
                assert(wrap_all(v@) =~= Seq::new(v@.len(), |i: int| NbtValue::Int(v@[i])));
                Ok(List::Int(v))
            },
            Tag::Long => {
                let v = read_list_of::<i64>(reader, count)?;
                assert(wrap_all(v@) =~= Seq::new(v@.len(), |i: int| NbtValue::Long(v@[i])));
                Ok(List::Long(v))
            },
            Tag::Float => {
                let v = read_list_of::<u32>(reader, count)?;
                assert(wrap_all(v@) =~= Seq::new(v@.len(), |i: int| NbtValue::Float(v@[i])));
                Ok(List::Float(v))
            },
            Tag::Double => {
                let v = read_list_of::<u64>(reader, count)?;
                assert(wrap_all(v@) =~= Seq::new(v@.len(), |i: int| NbtValue::Double(v@[i])));
                Ok(List::Double(v))
            },
            Tag::ByteArray => {
                let v = read_list_of::<Vec<i8>>(reader, count)?;
                assert(wrap_all(v@) =~= Seq::new(v@.len(), |i: int| NbtValue::ByteArray(v@[i]@)));
                Ok(List::ByteArray(v))
            },
            Tag::String => {
                let v = read_list_of::<String>(reader, count)?;
                assert(wrap_all(v@) =~= Seq::new(v@.len(), |i: int| NbtValue::String(v@[i]@)));
                Ok(List::String(v))
            },
            Tag::IntArray => {
                let v = read_list_of::<Vec<i32>>(reader, count)?;
                assert(wrap_all(v@) =~= Seq::new(v@.len(), |i: int| NbtValue::IntArray(v@[i]@)));
                Ok(List::IntArray(v))
            },
            Tag::LongArray => {
                let v = read_list_of::<Vec<i64>>(reader, count)?;
                assert(wrap_all(v@) =~= Seq::new(v@.len(), |i: int| NbtValue::LongArray(v@[i]@)));
                Ok(List::LongArray(v))
            },
            _ => Err(IoError::InvalidData),
        }
    }

    /// Reads `count` lists.
    fn read_lists(reader: &mut Cursor<&[u8]>, count: usize) -> (r: Result<Vec<List>, IoError>)
        ensures
            match decode_elems(Tag::List, count as nat, unread(*old(reader))) {
                Ok((vs, n)) => (r matches Ok(out) && lists_view(out@) == vs) && unread(*final(reader))
                    == unread(*old(reader)).skip(n as int),
                Err(e) => r matches Err(e2) && e2 == e,
            },
        decreases unread(*old(reader)).len(), 2nat,
    {
        let ghost s0 = unread(*reader);
        let mut out: Vec<List> = Vec::new();
        let ghost mut c: nat = 0;
        let mut i: usize = 0;
        assert(s0.skip(0) =~= s0);
        while i < count
            invariant
                s0 == unread(*old(reader)),
                i <= count,
                c <= s0.len(),
                decode_elems(Tag::List, i as nat, s0) == Ok::<(Seq<NbtValue>, nat), IoError>((lists_view(out@), c)),
                unread(*reader) == s0.skip(c as int),
            decreases count - i,
        {
            let ghost cur = unread(*reader);
            proof {
                lemma_list_len(cur);
                assert(decode_payload(Tag::List, cur) == (match decode_list(cur) {
                    Ok((l, n)) => Ok::<(NbtValue, nat), IoError>((NbtValue::List(l), n)),
                    Err(e) => Err(e),
                }));
            }
            match Self::read_list(reader) {
                Ok(l) => {
                    let ghost n = (cur.len() - unread(*reader).len()) as nat;
                    let ghost before = out@;
                    proof {
                        assert(s0.skip(c as int).skip(n as int) =~= s0.skip((c + n) as int));
                    }
                    out.push(l);
                    proof {
                        assert(out@.drop_last() =~= before);
                        c = c + n;
                    }
                    i = i + 1;
                },
                Err(e) => {
                    proof {
                        lemma_decode_elems_err(Tag::List, (i + 1) as nat, count as nat, s0);
                    }
                    return Err(e);
                },
            }
        }
        Ok(out)
    }

    /// Reads `count` compounds.
    fn read_compounds(reader: &mut Cursor<&[u8]>, count: usize) -> (r: Result<Vec<Compound>, IoError>)
        ensures
            match decode_elems(Tag::Compound, count as nat, unread(*old(reader))) {
                Ok((vs, n)) => (r matches Ok(out) && Seq::new(out@.len(), |i: int| NbtValue::Compound(out@[i]@)) == vs)
                    && unread(*final(reader)) == unread(*old(reader)).skip(n as int),
                Err(e) => r matches Err(e2) && e2 == e,
            },
        decreases unread(*old(reader)).len(), 2nat,
    {
        let ghost s0 = unread(*reader);
        let mut out: Vec<Compound> = Vec::new();
        let ghost mut c: nat = 0;
        let mut i: usize = 0;
        assert(s0.skip(0) =~= s0);
        assert(Seq::new(out@.len(), |j: int| NbtValue::Compound(out@[j]@)) =~= Seq::<NbtValue>::empty());
        while i < count
            invariant
                s0 == unread(*old(reader)),
                i <= count,
                c <= s0.len(),
                decode_elems(Tag::Compound, i as nat, s0) == Ok::<(Seq<NbtValue>, nat), IoError>((
                    Seq::new(out@.len(), |j: int| NbtValue::Compound(out@[j]@)),
                    c,
                )),
                unread(*reader) == s0.skip(c as int),
            decreases count - i,
        {
            let ghost cur = unread(*reader);
            proof {
                lemma_compound_len(cur);
                assert(decode_payload(Tag::Compound, cur) == (match entries_of(cur) {
                    Ok((es, n)) => Ok::<(NbtValue, nat), IoError>((NbtValue::Compound(es), n)),
                    Err(e) => Err(e),
                }));
            }
            match Self::read_component(reader) {
                Ok(m) => {
                    let ghost n = (cur.len() - unread(*reader).len()) as nat;
                    let ghost before = Seq::new(out@.len(), |j: int| NbtValue::Compound(out@[j]@));
                    proof {
                        assert(s0.skip(c as int).skip(n as int) =~= s0.skip((c + n) as int));
                    }
                    out.push(m);
                    proof {
                        assert(Seq::new(out@.len(), |j: int| NbtValue::Compound(out@[j]@)) =~= before.push(
                            NbtValue::Compound(m@),
                        ));
                        c = c + n;
                    }
                    i = i + 1;
                },
                Err(e) => {
                    proof {
                        lemma_decode_elems_err(Tag::Compound, (i + 1) as nat, count as nat, s0);
                    }
                    return Err(e);
                },
            }
        }
        Ok(out)
    }

    /// Reads the entries of a compound up to an `End` tag, inserting each
    /// into the compound as it comes.
    #[verifier::rlimit(40)]
    pub fn read_component(reader: &mut Cursor<&[u8]>) -> (r: Result<Compound, IoError>)
        ensures
            read_as::<Compound>(unread(*old(reader)), unread(*final(reader)), entries_of(unread(*old(reader))), r),
            r matches Ok(c) ==> crate::nbt::format::names_distinct(c@),
        decreases unread(*old(reader)).len(), 0nat,
    {
        let ghost s0 = unread(*reader);
        let mut map = map_new();
        let ghost mut raw: Seq<(Seq<char>, NbtValue)> = Seq::empty();
        let ghost mut c: nat = 0;
        assert(s0.skip(0) =~= s0);
        proof {
            match decode_compound(s0) {
                Ok((es, m)) => {
                    assert(raw + es =~= es);
                },
                Err(_) => {},
            }
        }
        loop
            invariant
                s0 == unread(*old(reader)),
                c <= s0.len(),
                unread(*reader) == s0.skip(c as int),
                compound_entries(map) == insert_all(raw),
                decode_compound(s0) == match decode_compound(s0.skip(c as int)) {
                    Ok((es, m)) => Ok::<(Seq<(Seq<char>, NbtValue)>, nat), IoError>((raw + es, c + m)),
                    Err(e) => Err(e),
                },
            decreases s0.len() - c,
        {
            let ghost cur = unread(*reader);
            let tag = match Self::read_tag(reader) {
                Ok(t) => t,
                Err(e) => {
                    proof {
                        lemma_compound_tag_err(cur);
                    }
                    return Err(e);
                },
            };
            if tag == Tag::End {
                proof {
                    lemma_compound_end(cur);
                    lemma_insert_all_names_distinct(raw);
                    assert(raw + Seq::<(Seq<char>, NbtValue)>::empty() =~= raw);
                    assert(s0.skip(c as int).skip(1) =~= s0.skip((c + 1) as int));
                }
                return Ok(map);
            }
            let name = match Self::read_string(reader) {
                Ok(n) => n,
                Err(e) => {
                    proof {
                        lemma_compound_name_err(cur, tag);
                    }
                    return Err(e);
                },
            };
            let ghost k = (cur.len() - 1 - unread(*reader).len()) as nat;
            proof {
                assert(cur.skip(1).skip(k as int) =~= cur.skip((1 + k) as int));
                lemma_payload_len(tag, cur.skip((1 + k) as int));
            }
            let value = match Self::read_value(reader, tag) {
                Ok(v) => v,
                Err(e) => {
                    proof {
                        lemma_compound_value_err(cur, tag, name@, k);
                    }
                    return Err(e);
                },
            };
            let ghost m = (cur.len() - 1 - k - unread(*reader).len()) as nat;
            proof {
                lemma_compound_entry(cur, tag, name@, k, value@, m);
                assert(cur.skip((1 + k) as int).skip(m as int) =~= cur.skip((1 + k + m) as int));
                assert(s0.skip(c as int).skip((1 + k + m) as int) =~= s0.skip((c + 1 + k + m) as int));
                let e = (name@, value@);
                match decode_compound(s0.skip((c + 1 + k + m) as int)) {
                    Ok((es, _)) => {
                        assert(raw + (seq![e] + es) =~= raw.push(e) + es);
                    },
                    Err(_) => {},
                }
                assert(raw.push(e).drop_last() =~= raw);
            }
            map_insert(&mut map, name, value);
            proof {
                raw = raw.push((name@, value@));
                c = c + 1 + k + m;
            }
        }
    }
}

/// Reading a compound sent without a name: a `Compound` tag (another tag
/// is invalid), then the compound's entries.
pub open spec fn decode_network(s: Seq<u8>) -> Result<(Seq<(Seq<char>, NbtValue)>, nat), IoError> {
    match decode_tag(s) {
        Err(e) => Err(e),
        Ok((t, _)) => if t != Tag::Compound {
            Err(IoError::InvalidData)
        } else {
            match entries_of(s.skip(1)) {
                Ok((es, n)) => Ok((es, n + 1)),
                Err(e) => Err(e),
            }
        },
    }
}

/// Reading a named compound: a `Compound` tag (another tag is invalid), the
/// name, then the compound's entries.
pub open spec fn decode_named(s: Seq<u8>) -> Result<((Seq<char>, Seq<(Seq<char>, NbtValue)>), nat), IoError> {
    match decode_tag(s) {
        Err(e) => Err(e),
        Ok((t, _)) => if t != Tag::Compound {
            Err(IoError::InvalidData)
        } else {
            match decode_nbt_string(s.skip(1)) {
                Err(e) => Err(e),
                Ok((name, k)) => match entries_of(s.skip((1 + k) as int)) {
                    Ok((es, n)) => Ok(((name, es), 1 + k + n)),
                    Err(e) => Err(e),
                },
            }
        },
    }
}

/// Reading back a compound written as the network sends it, when its values
/// read back (numbers, byte arrays, strings, and compounds of such values
/// under distinct names) and its names differ: the same entries in the same
/// order, using exactly the bytes written.
pub proof fn lemma_network_roundtrip(es: Seq<(Seq<char>, NbtValue)>, rest: Seq<u8>)
    requires
        crate::nbt::format::reads_back(NbtValue::Compound(es)),
        encode_payload(NbtValue::Compound(es)) is Ok,
    ensures
        decode_network(seq![10u8] + encode_payload(NbtValue::Compound(es))->Ok_0 + rest)
            == Ok::<(Seq<(Seq<char>, NbtValue)>, nat), IoError>(
            (es, 1 + encode_payload(NbtValue::Compound(es))->Ok_0.len()),
        ),
{
    let b = encode_payload(NbtValue::Compound(es))->Ok_0;
    let s = seq![10u8] + b + rest;
    crate::nbt::format::lemma_payload_roundtrip(NbtValue::Compound(es), rest);
    assert(Tag::spec_from_id(10u8) == Some(Tag::Compound));
    assert(s.skip(1) =~= b + rest);
}

impl Compound {
    /// Reads a compound without a root name, as the network protocol sends
    /// it.
    pub fn read_network(reader: &mut Cursor<&[u8]>) -> (r: Result<Compound, IoError>)
        ensures
            read_as::<Compound>(unread(*old(reader)), unread(*final(reader)), decode_network(unread(*old(reader))), r),
            r matches Ok(c) ==> crate::nbt::format::names_distinct(c@),
    {
        let ghost s = unread(*reader);
        proof {
            lemma_entries_of_distinct(s.skip(1));
        }
        let root = Value::read_tag(reader)?;
        if root != Tag::Compound {
            return Err(IoError::InvalidData);
        }
        let root = Value::read_component(reader)?;
        proof {
            lemma_compound_len(s.skip(1));
            if let Ok((_, n)) = entries_of(s.skip(1)) {
                assert(s.skip(1).skip(n as int) =~= s.skip((n + 1) as int));
            }
        }
        Ok(root)
    }

    /// Reads a compound with its root name.
    pub fn read(reader: &mut Cursor<&[u8]>) -> (r: Result<(String, Compound), IoError>)
        ensures
            match decode_named(unread(*old(reader))) {
                Ok(((name, es), n)) => (r matches Ok((x, c)) && x@ == name && c@ == es) && unread(*final(reader))
                    == unread(*old(reader)).skip(n as int),
                Err(e) => r matches Err(e2) && e2 == e,
            },
            r matches Ok((_, c)) ==> crate::nbt::format::names_distinct(c@),
    {
        let ghost s = unread(*reader);
        let root = Value::read_tag(reader)?;
        if root != Tag::Compound {
            return Err(IoError::InvalidData);
        }
        let root_name = Value::read_string(reader)?;
        let ghost k = (s.len() - 1 - unread(*reader).len()) as nat;
        proof {
            assert(s.skip(1).skip(k as int) =~= s.skip((1 + k) as int));
        }
        let root = Value::read_component(reader)?;
        proof {
            lemma_compound_len(s.skip((1 + k) as int));
            if let Ok((_, n)) = entries_of(s.skip((1 + k) as int)) {
                assert(s.skip((1 + k) as int).skip(n as int) =~= s.skip((1 + k + n) as int));
            }
        }
        Ok((root_name, root))
    }
}

} // verus!
