//! NBT values, lists and tags, and what they stand for.

use crate::nbt::compound::Compound;
use vstd::prelude::*;

verus! {

/// The type of an NBT value, as written before it.
#[derive(Clone, Copy, PartialEq, Eq, Structural, Debug)]
pub enum Tag {
    End,
    Byte,
    Short,
    Int,
    Long,
    Float,
    Double,
    ByteArray,
    String,
    List,
    Compound,
    IntArray,
    LongArray,
}

impl Tag {
    /// The byte that stands for this tag.
    pub open spec fn spec_id(self) -> u8 {
        match self {
            Tag::End => 0,
            Tag::Byte => 1,
            Tag::Short => 2,
            Tag::Int => 3,
            Tag::Long => 4,
            Tag::Float => 5,
            Tag::Double => 6,
            Tag::ByteArray => 7,
            Tag::String => 8,
            Tag::List => 9,
            Tag::Compound => 10,
            Tag::IntArray => 11,
            Tag::LongArray => 12,
        }
    }

    /// The tag that a byte stands for, if any.
    pub open spec fn spec_from_id(b: u8) -> Option<Tag> {
        if b == 0 {
            Some(Tag::End)
        } else if b == 1 {
            Some(Tag::Byte)
        } else if b == 2 {
            Some(Tag::Short)
        } else if b == 3 {
            Some(Tag::Int)
        } else if b == 4 {
            Some(Tag::Long)
        } else if b == 5 {
            Some(Tag::Float)
        } else if b == 6 {
            Some(Tag::Double)
        } else if b == 7 {
            Some(Tag::ByteArray)
        } else if b == 8 {
            Some(Tag::String)
        } else if b == 9 {
            Some(Tag::List)
        } else if b == 10 {
            Some(Tag::Compound)
        } else if b == 11 {
            Some(Tag::IntArray)
        } else if b == 12 {
            Some(Tag::LongArray)
        } else {
            None
        }
    }

    /// The byte that stands for this tag.
    pub fn id(self) -> (b: u8)
        ensures
            b == self.spec_id(),
    {
        match self {
            Tag::End => 0,
            Tag::Byte => 1,
            Tag::Short => 2,
            Tag::Int => 3,
            Tag::Long => 4,
            Tag::Float => 5,
            Tag::Double => 6,
            Tag::ByteArray => 7,
            Tag::String => 8,
            Tag::List => 9,
            Tag::Compound => 10,
            Tag::IntArray => 11,
            Tag::LongArray => 12,
        }
    }

    /// The tag that a byte stands for, if any.
    pub fn from_id(b: u8) -> (t: Option<Tag>)
        ensures
            t == Tag::spec_from_id(b),
    {
        match b {
            0 => Some(Tag::End),
            1 => Some(Tag::Byte),
            2 => Some(Tag::Short),
            3 => Some(Tag::Int),
            4 => Some(Tag::Long),
            5 => Some(Tag::Float),
            6 => Some(Tag::Double),
            7 => Some(Tag::ByteArray),
            8 => Some(Tag::String),
            9 => Some(Tag::List),
            10 => Some(Tag::Compound),
            11 => Some(Tag::IntArray),
            12 => Some(Tag::LongArray),
            _ => None,
        }
    }
}

/// An NBT value. Floating-point values are held as their IEEE 754 bits,
/// which is also how they are written.
#[derive(Debug)]
pub enum Value {
    Byte(i8),
    Short(i16),
    Int(i32),
    Long(i64),
    Float(u32),
    Double(u64),
    ByteArray(Vec<i8>),
    String(String),
    List(List),
    Compound(Compound),
    IntArray(Vec<i32>),
    LongArray(Vec<i64>),
}

/// A list of NBT values that share one tag.
#[derive(Debug)]
pub enum List {
    End,
    Byte(Vec<i8>),
    Short(Vec<i16>),
    Int(Vec<i32>),
    Long(Vec<i64>),
    Float(Vec<u32>),
    Double(Vec<u64>),
    ByteArray(Vec<Vec<i8>>),
    String(Vec<String>),
    List(Vec<List>),
    Compound(Vec<Compound>),
    IntArray(Vec<Vec<i32>>),
    LongArray(Vec<Vec<i64>>),
}

/// What an NBT value stands for.
pub enum NbtValue {
    Byte(i8),
    Short(i16),
    Int(i32),
    Long(i64),
    Float(u32),
    Double(u64),
    ByteArray(Seq<i8>),
    String(Seq<char>),
    List(NbtList),
    Compound(Seq<(Seq<char>, NbtValue)>),
    IntArray(Seq<i32>),
    LongArray(Seq<i64>),
}

/// What an NBT list stands for: the empty list of the `End` tag, or the
/// values of a list of another tag.
pub enum NbtList {
    End,
    Of(Tag, Seq<NbtValue>),
}

/// The tag of a value.
pub open spec fn value_tag(v: NbtValue) -> Tag {
    match v {
        NbtValue::Byte(_) => Tag::Byte,
        NbtValue::Short(_) => Tag::Short,
        NbtValue::Int(_) => Tag::Int,
        NbtValue::Long(_) => Tag::Long,
        NbtValue::Float(_) => Tag::Float,
        NbtValue::Double(_) => Tag::Double,
        NbtValue::ByteArray(_) => Tag::ByteArray,
        NbtValue::String(_) => Tag::String,
        NbtValue::List(_) => Tag::List,
        NbtValue::Compound(_) => Tag::Compound,
        NbtValue::IntArray(_) => Tag::IntArray,
        NbtValue::LongArray(_) => Tag::LongArray,
    }
}

/// What a list of lists stands for, one value per list.
pub open spec fn lists_view(v: Seq<List>) -> Seq<NbtValue>
    decreases v,
{
    if v.len() == 0 {
        Seq::empty()
    } else {
        lists_view(v.drop_last()).push(NbtValue::List(list_view(v.last())))
    }
}

/// What a list stands for.
pub open spec fn list_view(l: List) -> NbtList
    decreases l,
{
    match l {
        List::End => NbtList::End,
        List::Byte(v) => NbtList::Of(Tag::Byte, Seq::new(v@.len(), |i: int| NbtValue::Byte(v@[i]))),
        List::Short(v) => NbtList::Of(Tag::Short, Seq::new(v@.len(), |i: int| NbtValue::Short(v@[i]))),
        List::Int(v) => NbtList::Of(Tag::Int, Seq::new(v@.len(), |i: int| NbtValue::Int(v@[i]))),
        List::Long(v) => NbtList::Of(Tag::Long, Seq::new(v@.len(), |i: int| NbtValue::Long(v@[i]))),
        List::Float(v) => NbtList::Of(Tag::Float, Seq::new(v@.len(), |i: int| NbtValue::Float(v@[i]))),
        List::Double(v) => NbtList::Of(Tag::Double, Seq::new(v@.len(), |i: int| NbtValue::Double(v@[i]))),
        List::ByteArray(v) => NbtList::Of(
            Tag::ByteArray,
            Seq::new(v@.len(), |i: int| NbtValue::ByteArray(v@[i]@)),
        ),
        List::String(v) => NbtList::Of(Tag::String, Seq::new(v@.len(), |i: int| NbtValue::String(v@[i]@))),
        List::List(v) => NbtList::Of(Tag::List, lists_view(v@)),
        List::Compound(v) => NbtList::Of(
            Tag::Compound,
            Seq::new(v@.len(), |i: int| NbtValue::Compound(v@[i]@)),
        ),
        List::IntArray(v) => NbtList::Of(Tag::IntArray, Seq::new(v@.len(), |i: int| NbtValue::IntArray(v@[i]@))),
        List::LongArray(v) => NbtList::Of(
            Tag::LongArray,
            Seq::new(v@.len(), |i: int| NbtValue::LongArray(v@[i]@)),
        ),
    }
}

impl View for List {
    type V = NbtList;

    open spec fn view(&self) -> NbtList {
        list_view(*self)
    }
}

impl View for Value {
    type V = NbtValue;

    open spec fn view(&self) -> NbtValue {
        match self {
            Value::Byte(b) => NbtValue::Byte(*b),
            Value::Short(x) => NbtValue::Short(*x),
            Value::Int(x) => NbtValue::Int(*x),
            Value::Long(x) => NbtValue::Long(*x),
            Value::Float(x) => NbtValue::Float(*x),
            Value::Double(x) => NbtValue::Double(*x),
            Value::ByteArray(v) => NbtValue::ByteArray(v@),
            Value::String(s) => NbtValue::String(s@),
            Value::List(l) => NbtValue::List(l@),
            Value::Compound(c) => NbtValue::Compound(c@),
            Value::IntArray(v) => NbtValue::IntArray(v@),
            Value::LongArray(v) => NbtValue::LongArray(v@),
        }
    }
}

impl Value {
    /// The tag of this value.
    pub fn tag(&self) -> (t: Tag)
        ensures
            t == value_tag(self@),
    {
        match self {
            Value::Byte(_) => Tag::Byte,
            Value::Short(_) => Tag::Short,
            Value::Int(_) => Tag::Int,
            Value::Long(_) => Tag::Long,
            Value::Float(_) => Tag::Float,
            Value::Double(_) => Tag::Double,
            Value::ByteArray(_) => Tag::ByteArray,
            Value::String(_) => Tag::String,
            Value::List(_) => Tag::List,
            Value::Compound(_) => Tag::Compound,
            Value::IntArray(_) => Tag::IntArray,
            Value::LongArray(_) => Tag::LongArray,
        }
    }
}

/// The byte of each tag, as the NBT format fixes it.
pub proof fn lemma_tag_ids()
    ensures
        Tag::End.spec_id() == 0,
        Tag::Byte.spec_id() == 1,
        Tag::Short.spec_id() == 2,
        Tag::Int.spec_id() == 3,
        Tag::Long.spec_id() == 4,
        Tag::Float.spec_id() == 5,
        Tag::Double.spec_id() == 6,
        Tag::ByteArray.spec_id() == 7,
        Tag::String.spec_id() == 8,
        Tag::List.spec_id() == 9,
        Tag::Compound.spec_id() == 10,
        Tag::IntArray.spec_id() == 11,
        Tag::LongArray.spec_id() == 12,
{
}

/// A byte stands for a tag exactly when it is that tag's byte.
pub proof fn lemma_from_id_exact(b: u8, t: Tag)
    ensures
        Tag::spec_from_id(b) == Some(t) <==> t.spec_id() == b,
        Tag::spec_from_id(b) is None <==> b > 12,
{
}

} // verus!
