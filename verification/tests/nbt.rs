use minecrevy::error::IoError;
use minecrevy::nbt::compound::Compound;
use minecrevy::nbt::value::{List, Tag, Value};
use std::io::Cursor;

fn read_value(bytes: &[u8], tag: Tag) -> (Result<Value, IoError>, u64) {
    let mut c = Cursor::new(bytes);
    let r = Value::read_value(&mut c, tag);
    (r, c.position())
}

fn write_value(v: &Value) -> Result<Vec<u8>, IoError> {
    let mut out = Vec::new();
    Value::write_value(&mut out, v)?;
    Ok(out)
}

fn tag_of(v: &Value) -> Tag {
    v.tag()
}

#[test]
fn tags_and_their_ids() {
    assert_eq!(Tag::from_id(0), Some(Tag::End));
    assert_eq!(Tag::from_id(10), Some(Tag::Compound));
    assert_eq!(Tag::from_id(13), None);
    assert_eq!(Tag::LongArray.id(), 12);
    let mut c = Cursor::new(&[13u8][..]);
    assert_eq!(Value::read_tag(&mut c), Err(IoError::InvalidData));
}

#[test]
fn numbers_roundtrip() {
    for v in [Value::Byte(-3), Value::Short(-300), Value::Int(1 << 20), Value::Long(-5), Value::Float(1.5f32.to_bits()), Value::Double(0.25f64.to_bits())] {
        let bytes = write_value(&v).unwrap();
        let (r, pos) = read_value(&bytes, tag_of(&v));
        assert_eq!(format!("{:?}", r.unwrap()), format!("{:?}", v));
        assert_eq!(pos as usize, bytes.len());
    }
    assert_eq!(write_value(&Value::Short(-300)).unwrap(), vec![0xFE, 0xD4]);
    assert_eq!(write_value(&Value::Float(1.5f32.to_bits())).unwrap(), 1.5f32.to_be_bytes().to_vec());
}

#[test]
fn strings_carry_a_sixteen_bit_length() {
    let bytes = write_value(&Value::String(String::from("hi"))).unwrap();
    assert_eq!(bytes, vec![0, 2, b'h', b'i']);
    match read_value(&bytes, Tag::String).0.unwrap() {
        Value::String(s) => assert_eq!(s, "hi"),
        _ => panic!("not a string"),
    }
    assert_eq!(read_value(&[0, 2, 0xFF, 0xFF], Tag::String).0.unwrap_err(), IoError::InvalidData);
    let long = "a".repeat(65536);
    assert_eq!(write_value(&Value::String(long)), Err(IoError::InvalidData));
}

#[test]
fn byte_arrays_roundtrip_and_refuse_negative_lengths() {
    let bytes = write_value(&Value::ByteArray(vec![-1, 2])).unwrap();
    assert_eq!(bytes, vec![0, 0, 0, 2, 0xFF, 2]);
    match read_value(&bytes, Tag::ByteArray).0.unwrap() {
        Value::ByteArray(v) => assert_eq!(v, vec![-1, 2]),
        _ => panic!("not a byte array"),
    }
    assert_eq!(read_value(&[0xFF, 0xFF, 0xFF, 0xFF], Tag::ByteArray).0.unwrap_err(), IoError::InvalidData);
    assert_eq!(read_value(&[0, 0, 0, 3, 1], Tag::ByteArray).0.unwrap_err(), IoError::UnexpectedEof);
}

#[test]
fn int_arrays_read_after_as_many_zeros() {
    let bytes = write_value(&Value::IntArray(vec![7, -1])).unwrap();
    assert_eq!(bytes, vec![0, 0, 0, 2, 0, 0, 0, 7, 0xFF, 0xFF, 0xFF, 0xFF]);
    match read_value(&bytes, Tag::IntArray).0.unwrap() {
        Value::IntArray(v) => assert_eq!(v, vec![0, 0, 7, -1]),
        _ => panic!("not an int array"),
    }
    match read_value(&[0, 0, 0, 1, 0, 0, 0, 0, 0, 0, 0, 9], Tag::LongArray).0.unwrap() {
        Value::LongArray(v) => assert_eq!(v, vec![0, 9]),
        _ => panic!("not a long array"),
    }
    assert_eq!(read_value(&[0, 0, 0, 2, 0, 0, 0, 7], Tag::IntArray).0.unwrap_err(), IoError::UnexpectedEof);
}

#[test]
fn end_tag_is_no_value() {
    assert_eq!(read_value(&[1, 2, 3], Tag::End).0.unwrap_err(), IoError::InvalidData);
}

#[test]
fn lists_of_numbers() {
    let bytes = [1u8, 0, 0, 0, 3, 5, 6, 7];
    match read_value(&bytes, Tag::List).0.unwrap() {
        Value::List(List::Byte(v)) => assert_eq!(v, vec![5, 6, 7]),
        _ => panic!("not a byte list"),
    }
    // Lists are written without their elements' tag.
    assert_eq!(write_value(&Value::List(List::Int(vec![1]))).unwrap(), vec![0, 0, 0, 1, 0, 0, 0, 1]);
}

#[test]
fn end_lists_need_a_count_of_one() {
    assert!(matches!(read_value(&[0, 0, 0, 0, 1], Tag::List).0.unwrap(), Value::List(List::End)));
    assert_eq!(read_value(&[0, 0, 0, 0, 0], Tag::List).0.unwrap_err(), IoError::InvalidData);
    // ... but are written with a count of zero.
    assert_eq!(write_value(&Value::List(List::End)).unwrap(), vec![0, 0, 0, 0, 0]);
    assert_eq!(read_value(&[1, 0xFF, 0xFF, 0xFF, 0xFF], Tag::List).0.unwrap_err(), IoError::InvalidData);
}

#[test]
fn nested_lists_and_compounds() {
    // a list of one list of two shorts
    let bytes = [9u8, 0, 0, 0, 1, 2, 0, 0, 0, 2, 0, 1, 0, 2];
    match read_value(&bytes, Tag::List).0.unwrap() {
        Value::List(List::List(v)) => {
            assert_eq!(v.len(), 1);
            assert!(matches!(&v[0], List::Short(s) if s == &vec![1, 2]));
        }
        _ => panic!("not a list of lists"),
    }
    // a list of two compounds, the first with one byte entry
    let bytes = [10u8, 0, 0, 0, 2, 1, 0, 1, b'a', 5, 0, 0];
    match read_value(&bytes, Tag::List).0.unwrap() {
        Value::List(List::Compound(v)) => {
            assert_eq!(v.len(), 2);
            assert_eq!(v[0].len(), 1);
            assert_eq!(v[1].len(), 0);
        }
        _ => panic!("not a list of compounds"),
    }
}

#[test]
fn compounds_keep_insertion_order_and_replace_repeated_names() {
    // entries: b = 1, a = 2, b = 3, end
    let bytes = [1u8, 0, 1, b'b', 1, 1, 0, 1, b'a', 2, 1, 0, 1, b'b', 3, 0];
    let mut c = Cursor::new(&bytes[..]);
    let compound = Value::read_component(&mut c).unwrap();
    assert_eq!(c.position() as usize, bytes.len());
    assert_eq!(compound.len(), 2);
    let (name, value) = compound.get_index(0);
    assert_eq!(name, "b");
    assert!(matches!(value, Value::Byte(3)));
    let (name, value) = compound.get_index(1);
    assert_eq!(name, "a");
    assert!(matches!(value, Value::Byte(2)));
    // written back in that order
    let mut out = Vec::new();
    Value::write_component(&mut out, &compound).unwrap();
    assert_eq!(out, vec![1, 0, 1, b'b', 3, 1, 0, 1, b'a', 2, 0]);
}

#[test]
fn named_and_network_compounds() {
    let bytes = [10u8, 0, 4, b'r', b'o', b'o', b't', 3, 0, 1, b'x', 0, 0, 0, 9, 0];
    let mut c = Cursor::new(&bytes[..]);
    let (name, compound) = Compound::read(&mut c).unwrap();
    assert_eq!(name, "root");
    assert_eq!(compound.len(), 1);
    let mut out = Vec::new();
    compound.write(&mut out, "root").unwrap();
    assert_eq!(out, bytes.to_vec());

    let mut out = Vec::new();
    compound.write_network(&mut out).unwrap();
    assert_eq!(out, vec![10, 3, 0, 1, b'x', 0, 0, 0, 9, 0]);
    let mut c = Cursor::new(&out[..]);
    assert_eq!(Compound::read_network(&mut c).unwrap().len(), 1);

    let mut c = Cursor::new(&[9u8, 0][..]);
    assert_eq!(Compound::read_network(&mut c).unwrap_err(), IoError::InvalidData);
}

#[test]
fn building_compounds() {
    let mut compound = Compound::new();
    compound.insert(String::from("k"), Value::Int(1));
    compound.insert(String::from("k"), Value::Int(2));
    assert_eq!(compound.len(), 1);
    assert!(matches!(compound.get_index(0).1, Value::Int(2)));
}

#[test]
fn nested_compounds_roundtrip() {
    let mut inner = Compound::new();
    inner.insert(String::from("s"), Value::String(String::from("ok")));
    let mut outer = Compound::new();
    outer.insert(String::from("n"), Value::Int(7));
    outer.insert(String::from("c"), Value::Compound(inner));
    outer.insert(String::from("b"), Value::ByteArray(vec![1, -1]));
    let v = Value::Compound(outer);
    let bytes = write_value(&v).unwrap();
    let (r, pos) = read_value(&bytes, Tag::Compound);
    assert_eq!(pos as usize, bytes.len());
    assert_eq!(format!("{:?}", r.unwrap()), format!("{:?}", v));
}
