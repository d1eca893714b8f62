//! Writing NBT values as bytes.

use crate::error::IoError;
use crate::io::be::{be_bytes, lemma_be_bytes_shape};
use crate::io::ext::WriteMinecraftExt;
use crate::io::impls::lists::prefixed;
use crate::io::mc::write_outcome;
use crate::nbt::compound::{compound_entries, map_get_index, map_len, Compound};
use crate::nbt::format::{
    encode_entries, encode_list, encode_nbt_string, encode_payload, encode_values, ints_bytes,
    longs_bytes,
};
use crate::nbt::read::{wrap_all, NbtElem};
use crate::nbt::value::{list_view, lists_view, value_tag, List, NbtList, NbtValue, Tag, Value};
use vstd::prelude::*;
use vstd::string::StringSliceAdditionalSpecFns;

verus! {

/// The values that a list of lists stands for are the lists' own.
proof fn lemma_lists_view(v: Seq<List>)
    ensures
        lists_view(v).len() == v.len(),
        forall|i: int| 0 <= i < v.len() ==> #[trigger] lists_view(v)[i] == NbtValue::List(list_view(v[i])),
    decreases v.len(),
{
    if v.len() > 0 {
        lemma_lists_view(v.drop_last());
    }
}

/// A failed write of the first values fails the write of all of them.
proof fn lemma_encode_values_err(vs: Seq<NbtValue>, j: int)
    requires
        0 <= j <= vs.len(),
        encode_values(vs.take(j)) is Err,
    ensures
        encode_values(vs) == encode_values(vs.take(j)),
    decreases vs.len(),
{
    if j == vs.len() {
        assert(vs.take(j) =~= vs);
    } else {
        assert(vs.drop_last().take(j) =~= vs.take(j));
        lemma_encode_values_err(vs.drop_last(), j);
    }
}

/// A failed write of the first entries fails the write of all of them.
proof fn lemma_encode_entries_err(es: Seq<(Seq<char>, NbtValue)>, j: int)
    requires
        0 <= j <= es.len(),
        encode_entries(es.take(j)) is Err,
    ensures
        encode_entries(es) == encode_entries(es.take(j)),
    decreases es.len(),
{
    if j == es.len() {
        assert(es.take(j) =~= es);
    } else {
        assert(es.drop_last().take(j) =~= es.take(j));
        lemma_encode_entries_err(es.drop_last(), j);
    }
}

/// Writes a list of elements that hold no other values: a big-endian `i32`
/// count (more than `i32::MAX` elements are invalid), then each payload.
pub fn write_list_of<T: NbtElem>(writer: &mut Vec<u8>, list: &[T]) -> (r: Result<(), IoError>)
    ensures
        write_outcome(old(writer)@, final(writer)@, encode_list(NbtList::Of(T::elem_tag(), wrap_all(list@))), r),
{
    if list.len() > i32::MAX as usize {
        return Err(IoError::InvalidData);
    }
    let ghost start = writer@;
    writer.write_i32(list.len() as i32)?;
    let ghost vs = wrap_all(list@);
    let ghost prefix = be_bytes(list@.len(), 4);
    let mut i: usize = 0;
    assert(vs.take(0) =~= Seq::<NbtValue>::empty());
    assert(writer@ =~= start + prefix + Seq::<u8>::empty());
    while i < list.len()
        invariant
            vs == wrap_all(list@),
            vs.len() == list@.len(),
            list@.len() <= i32::MAX,
            prefix == be_bytes(list@.len(), 4),
            i <= list.len(),
            encode_values(vs.take(i as int)) matches Ok(b) && writer@ == start + prefix + b,
        decreases list.len() - i,
    {
        let ghost b = encode_values(vs.take(i as int))->Ok_0;
        assert(vs.take((i + 1) as int).drop_last() =~= vs.take(i as int));
        assert(vs.take((i + 1) as int).last() == list[i as int].wrap());
        match list[i].write_elem(writer) {
            Ok(()) => {
                proof {
                    let w = encode_payload(list[i as int].wrap())->Ok_0;
                    assert(writer@ =~= start + prefix + (b + w));
                }
            },
            Err(e) => {
                proof {
                    lemma_encode_values_err(vs, (i + 1) as int);
                }
                return Err(e);
            },
        }
        i = i + 1;
    }
    proof {
        assert(vs.take(i as int) =~= vs);
        let b = encode_values(vs)->Ok_0;
        assert(start + prefix + b =~= start + (prefix + b));
    }
    Ok(())
}

impl Value {
    /// Writes a tag byte.
    pub fn write_tag(writer: &mut Vec<u8>, tag: Tag) -> (r: Result<(), IoError>)
        ensures
            r is Ok,
            final(writer)@ == old(writer)@.push(tag.spec_id()),
    {
        writer.write_u8(tag.id())
    }

    /// Writes a byte.
    pub fn write_byte(writer: &mut Vec<u8>, value: i8) -> (r: Result<(), IoError>)
        ensures
            write_outcome(old(writer)@, final(writer)@, encode_payload(NbtValue::Byte(value)), r),
    {
        let r = writer.write_i8(value);
        assert(writer@ =~= old(writer)@ + seq![value as u8]);
        r
    }

    /// Writes a big-endian `i16`.
    pub fn write_short(writer: &mut Vec<u8>, value: i16) -> (r: Result<(), IoError>)
        ensures
            write_outcome(old(writer)@, final(writer)@, encode_payload(NbtValue::Short(value)), r),
    {
        writer.write_i16(value)
    }

    /// Writes a big-endian `i32`.
    pub fn write_int(writer: &mut Vec<u8>, value: i32) -> (r: Result<(), IoError>)
        ensures
            write_outcome(old(writer)@, final(writer)@, encode_payload(NbtValue::Int(value)), r),
    {
        writer.write_i32(value)
    }

    /// Writes a big-endian `i64`.
    pub fn write_long(writer: &mut Vec<u8>, value: i64) -> (r: Result<(), IoError>)
        ensures
            write_outcome(old(writer)@, final(writer)@, encode_payload(NbtValue::Long(value)), r),
    {
        writer.write_i64(value)
    }

    /// Writes the bits of a big-endian `f32`.
    pub fn write_float(writer: &mut Vec<u8>, value: u32) -> (r: Result<(), IoError>)
        ensures
            write_outcome(old(writer)@, final(writer)@, encode_payload(NbtValue::Float(value)), r),
    {
        writer.write_u32(value)
    }

    /// Writes the bits of a big-endian `f64`.
    pub fn write_double(writer: &mut Vec<u8>, value: u64) -> (r: Result<(), IoError>)
        ensures
            write_outcome(old(writer)@, final(writer)@, encode_payload(NbtValue::Double(value)), r),
    {
        writer.write_u64(value)
    }

    /// Writes a byte array: a big-endian `i32` count (more than `i32::MAX`
    /// bytes are invalid), then the bytes.
    pub fn write_byte_array(writer: &mut Vec<u8>, value: &[i8]) -> (r: Result<(), IoError>)
        ensures
            write_outcome(old(writer)@, final(writer)@, encode_payload(NbtValue::ByteArray(value@)), r),
    {
        if value.len() > i32::MAX as usize {
            return Err(IoError::InvalidData);
        }
        let ghost start = writer@;
        writer.write_i32(value.len() as i32)?;
        let ghost mid = writer@;
        let mut i: usize = 0;
        assert(mid =~= mid + Seq::new(0, |j: int| value@[j] as u8));
        while i < value.len()
            invariant
                i <= value.len(),
                writer@ == mid + Seq::new(i as nat, |j: int| value@[j] as u8),
            decreases value.len() - i,
        {
            writer.write_i8(value[i]);
            i = i + 1;
            assert(writer@ =~= mid + Seq::new(i as nat, |j: int| value@[j] as u8));
        }
        assert(writer@ =~= start + (be_bytes(value@.len(), 4) + Seq::new(value@.len(), |j: int| value@[j] as u8)));
        Ok(())
    }

    /// Writes a string: its UTF-8 byte count as a big-endian `u16` (more than
    /// `u16::MAX` bytes are invalid), then the bytes.
    pub fn write_string(writer: &mut Vec<u8>, value: &str) -> (r: Result<(), IoError>)
        ensures
            write_outcome(old(writer)@, final(writer)@, encode_payload(NbtValue::String(value@)), r),
    {
        let bytes = value.as_bytes();
        if bytes.len() > u16::MAX as usize {
            return Err(IoError::InvalidData);
        }
        let ghost start = writer@;
        writer.write_u16(bytes.len() as u16)?;
        writer.write_bytes_remaining(bytes)?;
        assert(writer@ =~= start + (be_bytes(bytes@.len(), 2) + bytes@));
        Ok(())
    }

    /// Writes an int array: a big-endian `i32` count (more than `i32::MAX`
    /// elements are invalid), then each element as a big-endian `i32`.
    pub fn write_int_array(writer: &mut Vec<u8>, array: &[i32]) -> (r: Result<(), IoError>)
        ensures
            write_outcome(old(writer)@, final(writer)@, encode_payload(NbtValue::IntArray(array@)), r),
    {
        if array.len() > i32::MAX as usize {
            return Err(IoError::InvalidData);
        }
        let ghost start = writer@;
        writer.write_i32(array.len() as i32)?;
        let ghost mid = writer@;
        let mut i: usize = 0;
        assert(array@.take(0) =~= Seq::<i32>::empty());
        assert(mid =~= mid + ints_bytes(array@.take(0)));
        while i < array.len()
            invariant
                i <= array.len(),
                writer@ == mid + ints_bytes(array@.take(i as int)),
            decreases array.len() - i,
        {
            let ghost before = writer@;
            writer.write_i32(array[i]);
            assert(array@.take((i + 1) as int).drop_last() =~= array@.take(i as int));
            i = i + 1;
            assert(writer@ =~= mid + ints_bytes(array@.take(i as int)));
        }
        assert(array@.take(i as int) =~= array@);
        assert(writer@ =~= start + (be_bytes(array@.len(), 4) + ints_bytes(array@)));
        Ok(())
    }

    /// Writes a long array: a big-endian `i32` count (more than `i32::MAX`
    /// elements are invalid), then each element as a big-endian `i64`.
    pub fn write_long_array(writer: &mut Vec<u8>, array: &[i64]) -> (r: Result<(), IoError>)
        ensures
            write_outcome(old(writer)@, final(writer)@, encode_payload(NbtValue::LongArray(array@)), r),
    {
        if array.len() > i32::MAX as usize {
            return Err(IoError::InvalidData);
        }
        let ghost start = writer@;
        writer.write_i32(array.len() as i32)?;
        let ghost mid = writer@;
        let mut i: usize = 0;
        assert(array@.take(0) =~= Seq::<i64>::empty());
        assert(mid =~= mid + longs_bytes(array@.take(0)));
        while i < array.len()
            invariant
                i <= array.len(),
                writer@ == mid + longs_bytes(array@.take(i as int)),
            decreases array.len() - i,
        {
            writer.write_i64(array[i]);
            assert(array@.take((i + 1) as int).drop_last() =~= array@.take(i as int));
            i = i + 1;
            assert(writer@ =~= mid + longs_bytes(array@.take(i as int)));
        }
        assert(array@.take(i as int) =~= array@);
        assert(writer@ =~= start + (be_bytes(array@.len(), 4) + longs_bytes(array@)));
        Ok(())
    }

    /// Writes the payload of a value.
    pub fn write_value(writer: &mut Vec<u8>, value: &Value) -> (r: Result<(), IoError>)
        ensures
            write_outcome(old(writer)@, final(writer)@, encode_payload(value@), r),
        decreases value@,
    {
        match value {
            Value::Byte(v) => Self::write_byte(writer, *v),
            Value::Short(v) => Self::write_short(writer, *v),
            Value::Int(v) => Self::write_int(writer, *v),
            Value::Long(v) => Self::write_long(writer, *v),
            Value::Float(v) => Self::write_float(writer, *v),
            Value::Double(v) => Self::write_double(writer, *v),
            Value::ByteArray(v) => Self::write_byte_array(writer, v.as_slice()),
            Value::String(v) => Self::write_string(writer, v.as_str()),
            Value::List(v) => Self::write_list(writer, v),
            Value::Compound(v) => Self::write_component(writer, v),
            Value::IntArray(v) => Self::write_int_array(writer, v.as_slice()),
            Value::LongArray(v) => Self::write_long_array(writer, v.as_slice()),
        }
    }

    /// Writes a list. The `End` list is its tag and a zero count; another
    /// list is its count and its elements, with no tag before them.
    pub fn write_list(writer: &mut Vec<u8>, list: &List) -> (r: Result<(), IoError>)
        ensures
            write_outcome(old(writer)@, final(writer)@, encode_list(list@), r),
        decreases list@,
    {
        match list {
            List::End => {
                let ghost start = writer@;
                Self::write_tag(writer, Tag::End)?;
                writer.write_i32(0)?;
                proof {
                    lemma_be_bytes_shape(0);
                    assert(writer@ =~= start + seq![0u8, 0u8, 0u8, 0u8, 0u8]);
                }
                Ok(())
            },
            List::Byte(vec) => {
                assert(wrap_all(vec@) =~= Seq::new(vec@.len(), |i: int| NbtValue::Byte(vec@[i])));
                write_list_of(writer, vec.as_slice())
            },
            List::Short(vec) => {
                assert(wrap_all(vec@) =~= Seq::new(vec@.len(), |i: int| NbtValue::Short(vec@[i])));
                write_list_of(writer, vec.as_slice())
            },
            List::Int(vec) => {
                assert(wrap_all(vec@) =~= Seq::new(vec@.len(), |i: int| NbtValue::Int(vec@[i])));
                write_list_of(writer, vec.as_slice())
            },
            List::Long(vec) => {
                assert(wrap_all(vec@) =~= Seq::new(vec@.len(), |i: int| NbtValue::Long(vec@[i])));
                write_list_of(writer, vec.as_slice())
            },
            List::Float(vec) => {
                assert(wrap_all(vec@) =~= Seq::new(vec@.len(), |i: int| NbtValue::Float(vec@[i])));
                write_list_of(writer, vec.as_slice())
            },
            List::Double(vec) => {
                assert(wrap_all(vec@) =~= Seq::new(vec@.len(), |i: int| NbtValue::Double(vec@[i])));
                write_list_of(writer, vec.as_slice())
            },
            List::ByteArray(vec) => {
                assert(wrap_all(vec@) =~= Seq::new(vec@.len(), |i: int| NbtValue::ByteArray(vec@[i]@)));
                write_list_of(writer, vec.as_slice())
            },
            List::String(vec) => {
                assert(wrap_all(vec@) =~= Seq::new(vec@.len(), |i: int| NbtValue::String(vec@[i]@)));
                write_list_of(writer, vec.as_slice())
            },
            List::List(vec) => Self::write_lists(writer, vec.as_slice()),
            List::Compound(vec) => Self::write_compounds(writer, vec.as_slice()),
            List::IntArray(vec) => {
                assert(wrap_all(vec@) =~= Seq::new(vec@.len(), |i: int| NbtValue::IntArray(vec@[i]@)));
                write_list_of(writer, vec.as_slice())
            },
            List::LongArray(vec) => {
                assert(wrap_all(vec@) =~= Seq::new(vec@.len(), |i: int| NbtValue::LongArray(vec@[i]@)));
                write_list_of(writer, vec.as_slice())
            },
        }
    }

    /// Writes a list of lists: the count, then each list.
    fn write_lists(writer: &mut Vec<u8>, list: &[List]) -> (r: Result<(), IoError>)
        ensures
            write_outcome(old(writer)@, final(writer)@, encode_list(NbtList::Of(Tag::List, lists_view(list@))), r),
        decreases lists_view(list@),
    {
        proof {
            lemma_lists_view(list@);
        }
        if list.len() > i32::MAX as usize {
            return Err(IoError::InvalidData);
        }
        let ghost start = writer@;
        writer.write_i32(list.len() as i32)?;
        let ghost vs = lists_view(list@);
        let ghost prefix = be_bytes(list@.len(), 4);
        let mut i: usize = 0;
        assert(vs.take(0) =~= Seq::<NbtValue>::empty());
        assert(writer@ =~= start + prefix + Seq::<u8>::empty());
        while i < list.len()
            invariant
                vs == lists_view(list@),
                vs.len() == list@.len(),
                forall|j: int| 0 <= j < list@.len() ==> #[trigger] vs[j] == NbtValue::List(list_view(list@[j])),
                list@.len() <= i32::MAX,
                prefix == be_bytes(list@.len(), 4),
                i <= list.len(),
                encode_values(vs.take(i as int)) matches Ok(b) && writer@ == start + prefix + b,
            decreases list.len() - i,
        {
            let ghost b = encode_values(vs.take(i as int))->Ok_0;
            assert(vs.take((i + 1) as int).drop_last() =~= vs.take(i as int));
            assert(vs.take((i + 1) as int).last() == vs[i as int]);
            assert(vs[i as int] == NbtValue::List(list_view(list@[i as int])));
            assert(decreases_to!(vs => list@[i as int]@));
            assert(encode_payload(vs[i as int]) == encode_list(list@[i as int]@));
            match Self::write_list(writer, &list[i]) {
                Ok(()) => {
                    proof {
                        let w = encode_list(list@[i as int]@)->Ok_0;
                        assert(writer@ =~= start + prefix + (b + w));
                    }
                },
                Err(e) => {
                    proof {
                        lemma_encode_values_err(vs, (i + 1) as int);
                    }
                    return Err(e);
                },
            }
            i = i + 1;
        }
        proof {
            assert(vs.take(i as int) =~= vs);
            let b = encode_values(vs)->Ok_0;
            assert(start + prefix + b =~= start + (prefix + b));
        }
        Ok(())
    }

    /// Writes a list of compounds: the count, then each compound.
    fn write_compounds(writer: &mut Vec<u8>, list: &[Compound]) -> (r: Result<(), IoError>)
        ensures
            write_outcome(
                old(writer)@,
                final(writer)@,
                encode_list(NbtList::Of(Tag::Compound, Seq::new(list@.len(), |i: int| NbtValue::Compound(list@[i]@)))),
                r,
            ),
        decreases Seq::new(list@.len(), |i: int| NbtValue::Compound(list@[i]@)),
    {
        if list.len() > i32::MAX as usize {
            return Err(IoError::InvalidData);
        }
        let ghost start = writer@;
        writer.write_i32(list.len() as i32)?;
        let ghost vs = Seq::new(list@.len(), |i: int| NbtValue::Compound(list@[i]@));
        let ghost prefix = be_bytes(list@.len(), 4);
        let mut i: usize = 0;
        assert(vs.take(0) =~= Seq::<NbtValue>::empty());
        assert(writer@ =~= start + prefix + Seq::<u8>::empty());
        while i < list.len()
            invariant
                vs == Seq::new(list@.len(), |j: int| NbtValue::Compound(list@[j]@)),
                list@.len() <= i32::MAX,
                prefix == be_bytes(list@.len(), 4),
                i <= list.len(),
                encode_values(vs.take(i as int)) matches Ok(b) && writer@ == start + prefix + b,
            decreases list.len() - i,
        {
            let ghost b = encode_values(vs.take(i as int))->Ok_0;
            assert(vs.take((i + 1) as int).drop_last() =~= vs.take(i as int));
            assert(vs.take((i + 1) as int).last() == vs[i as int]);
            assert(decreases_to!(vs => list@[i as int]@));
            match Self::write_component(writer, &list[i]) {
                Ok(()) => {
                    proof {
                        let w = encode_payload(vs[i as int])->Ok_0;
                        assert(writer@ =~= start + prefix + (b + w));
                    }
                },
                Err(e) => {
                    proof {
                        lemma_encode_values_err(vs, (i + 1) as int);
                    }
                    return Err(e);
                },
            }
            i = i + 1;
        }
        proof {
            assert(vs.take(i as int) =~= vs);
            let b = encode_values(vs)->Ok_0;
            assert(start + prefix + b =~= start + (prefix + b));
        }
        Ok(())
    }

    /// Writes the entries of a compound in order, each its value's tag, its
    /// name and its value, then an `End` tag.
    pub fn write_component(writer: &mut Vec<u8>, compound: &Compound) -> (r: Result<(), IoError>)
        ensures
            write_outcome(old(writer)@, final(writer)@, encode_payload(NbtValue::Compound(compound@)), r),
        decreases compound@,
    {
        let ghost start = writer@;
        let ghost es = compound@;
        let n = map_len(compound);
        let mut i: usize = 0;
        assert(es.take(0) =~= Seq::<(Seq<char>, NbtValue)>::empty());
        assert(writer@ =~= start + Seq::<u8>::empty());
        while i < n
            invariant
                es == compound@,
                n == es.len(),
                i <= n,
                encode_entries(es.take(i as int)) matches Ok(b) && writer@ == start + b,
            decreases n - i,
        {
            let ghost b = encode_entries(es.take(i as int))->Ok_0;
            let (name, value) = map_get_index(compound, i);
            assert(es.take((i + 1) as int).drop_last() =~= es.take(i as int));
            assert(es.take((i + 1) as int).last() == es[i as int]);
            let tag = value.tag();
            Self::write_tag(writer, tag)?;
            if let Err(e) = Self::write_string(writer, name.as_str()) {
                proof {
                    lemma_encode_entries_err(es, (i + 1) as int);
                }
                return Err(e);
            }
            let ghost mid = writer@;
            assert(decreases_to!(es => es[i as int].1));
            match Self::write_value(writer, value) {
                Ok(()) => {
                    proof {
                        let nm = encode_nbt_string(name@)->Ok_0;
                        let w = encode_payload(value@)->Ok_0;
                        assert(writer@ =~= start + (b.push(tag.spec_id()) + nm + w));
                    }
                },
                Err(e) => {
                    proof {
                        lemma_encode_entries_err(es, (i + 1) as int);
                    }
                    return Err(e);
                },
            }
            i = i + 1;
        }
        assert(es.take(i as int) =~= es);
        let ghost b = writer@;
        Self::write_tag(writer, Tag::End)?;
        assert(writer@ =~= start + encode_entries(es)->Ok_0.push(0u8));
        Ok(())
    }
}

impl Compound {
    /// Writes this compound without a root name, as the network protocol
    /// sends it: a `Compound` tag, then the entries.
    pub fn write_network(&self, writer: &mut Vec<u8>) -> (r: Result<(), IoError>)
        ensures
            write_outcome(old(writer)@, final(writer)@, prefixed(seq![10u8], encode_payload(NbtValue::Compound(self@))), r),
    {
        let ghost start = writer@;
        Value::write_tag(writer, Tag::Compound)?;
        Value::write_component(writer, self)?;
        proof {
            let b = encode_payload(NbtValue::Compound(self@))->Ok_0;
            assert(writer@ =~= start + (seq![10u8] + b));
        }
        Ok(())
    }

    /// Writes this compound with a root name: a `Compound` tag, the name,
    /// then the entries.
    pub fn write(&self, writer: &mut Vec<u8>, name: &str) -> (r: Result<(), IoError>)
        ensures
            write_outcome(
                old(writer)@,
                final(writer)@,
                match encode_nbt_string(name@) {
                    Ok(nm) => prefixed(seq![10u8] + nm, encode_payload(NbtValue::Compound(self@))),
                    Err(e) => Err(e),
                },
                r,
            ),
    {
        let ghost start = writer@;
        Value::write_tag(writer, Tag::Compound)?;
        Value::write_string(writer, name)?;
        Value::write_component(writer, self)?;
        proof {
            let nm = encode_nbt_string(name@)->Ok_0;
            let b = encode_payload(NbtValue::Compound(self@))->Ok_0;
            assert(writer@ =~= start + (seq![10u8] + nm + b));
        }
        Ok(())
    }
}

} // verus!
