use minecrevy::error::IoError;
use minecrevy::io::args::{IntArgs, ListArgs, ListLength, OptionArgs, OptionTag, StringArgs};
use minecrevy::io::mc::{McRead, McWrite};
use minecrevy::uuid::Uuid;
use std::collections::HashMap;
use std::io::Cursor;

fn write<T: McWrite>(v: &T, args: &T::Args) -> Result<Vec<u8>, IoError> {
    let mut out = Vec::new();
    v.write(&mut out, args)?;
    Ok(out)
}

fn read<T: McRead>(bytes: &[u8], args: &T::Args) -> (Result<T, IoError>, u64) {
    let mut c = Cursor::new(bytes);
    let r = T::read(&mut c, args);
    (r, c.position())
}

const VARINT: IntArgs = IntArgs { varint: true };
const FIXED: IntArgs = IntArgs { varint: false };

#[test]
fn integers_fixed_or_varint() {
    assert_eq!(write(&300i32, &VARINT).unwrap(), vec![0xAC, 0x02]);
    assert_eq!(write(&300i32, &FIXED).unwrap(), vec![0, 0, 1, 0x2C]);
    assert_eq!(read::<i32>(&[0xAC, 0x02], &VARINT).0.unwrap(), 300);
    assert_eq!(read::<i64>(&[0, 0, 0, 0, 0, 0, 1, 0x2C], &FIXED).0.unwrap(), 300);
    assert_eq!(write(&-1i64, &FIXED).unwrap(), vec![0xFF; 8]);
    assert_eq!(read::<u16>(&[1, 2], &()).0.unwrap(), 0x0102);
    assert_eq!(write(&0x0102u16, &()).unwrap(), vec![1, 2]);
}

#[test]
fn bools_read_nonzero_as_true() {
    assert_eq!(read::<bool>(&[2], &()).0.unwrap(), true);
    assert_eq!(read::<bool>(&[0], &()).0.unwrap(), false);
    assert_eq!(write(&true, &()).unwrap(), vec![1]);
}

#[test]
fn strings_respect_their_maximum_length() {
    let args = StringArgs { max_len: Some(3) };
    assert_eq!(write(&String::from("abc"), &args).unwrap(), vec![3, b'a', b'b', b'c']);
    assert_eq!(write(&String::from("abcd"), &args), Err(IoError::InvalidData));
    assert_eq!(read::<String>(&[3, b'a', b'b', b'c'], &args).0.unwrap(), "abc");
    assert_eq!(read::<String>(&[4, b'a', b'b', b'c', b'd'], &args).0, Err(IoError::InvalidData));
    assert_eq!(read::<String>(&[4, b'a'], &StringArgs { max_len: None }).0, Err(IoError::UnexpectedEof));
}

#[test]
fn lists_with_varint_length() {
    let args = ListArgs { length: ListLength::VarInt, inner: () };
    let v: Vec<u8> = vec![7, 8, 9];
    assert_eq!(write(&v, &args).unwrap(), vec![3, 7, 8, 9]);
    let (r, pos) = read::<Vec<u8>>(&[2, 7, 8, 9], &args);
    assert_eq!(r.unwrap(), vec![7, 8]);
    assert_eq!(pos, 3);
    assert_eq!(read::<Vec<u8>>(&[3, 7], &args).0, Err(IoError::UnexpectedEof));
}

#[test]
fn lists_with_byte_length() {
    let args = ListArgs { length: ListLength::Byte, inner: () };
    let v: Vec<u8> = vec![1, 2];
    assert_eq!(write(&v, &args).unwrap(), vec![2, 1, 2]);
    assert_eq!(read::<Vec<u8>>(&[0xFF, 1], &args).0, Err(IoError::InvalidData));
    let long: Vec<u8> = vec![0; 128];
    assert_eq!(write(&long, &args), Err(IoError::InvalidData));
}

#[test]
fn lists_up_to_the_end_of_the_input() {
    let args = ListArgs { length: ListLength::Remaining, inner: () };
    let (r, pos) = read::<Vec<u16>>(&[0, 1, 0, 2, 0], &args);
    assert_eq!(r.unwrap(), vec![1, 2]);
    assert_eq!(pos, 5);
    assert_eq!(read::<Vec<u16>>(&[], &args).0.unwrap(), Vec::<u16>::new());
    let v: Vec<u16> = vec![1, 2];
    assert_eq!(write(&v, &args).unwrap(), vec![0, 1, 0, 2]);
}

#[test]
fn list_elements_pass_their_arguments_on() {
    let args = ListArgs { length: ListLength::VarInt, inner: VARINT };
    let v: Vec<i32> = vec![1, 300];
    assert_eq!(write(&v, &args).unwrap(), vec![2, 1, 0xAC, 0x02]);
    let strings = ListArgs { length: ListLength::VarInt, inner: StringArgs { max_len: Some(1) } };
    let v = vec![String::from("ab")];
    assert_eq!(write(&v, &strings), Err(IoError::InvalidData));
}

#[test]
fn options_with_a_boolean_tag() {
    let args = OptionArgs { tag: OptionTag::Bool, inner: () };
    assert_eq!(write(&Some(5u8), &args).unwrap(), vec![1, 5]);
    assert_eq!(write(&None::<u8>, &args).unwrap(), vec![0]);
    assert_eq!(read::<Option<u8>>(&[1, 5], &args).0.unwrap(), Some(5));
    assert_eq!(read::<Option<u8>>(&[0, 5], &args).0.unwrap(), None);
    assert_eq!(read::<Option<u8>>(&[1], &args).0, Err(IoError::UnexpectedEof));
}

#[test]
fn options_by_what_remains() {
    let args = OptionArgs { tag: OptionTag::Remaining, inner: () };
    assert_eq!(read::<Option<u16>>(&[0, 5], &args).0.unwrap(), Some(5));
    let (r, pos) = read::<Option<u16>>(&[7], &args);
    assert_eq!(r.unwrap(), None);
    assert_eq!(pos, 1);
    assert_eq!(write(&Some(5u8), &args).unwrap(), vec![5]);
    assert_eq!(write(&None::<u8>, &args).unwrap(), Vec::<u8>::new());
}

#[test]
fn tuples_are_their_parts_in_order() {
    let args = (VARINT, StringArgs { max_len: None });
    let v = (300i32, String::from("a"));
    let bytes = write(&v, &args).unwrap();
    assert_eq!(bytes, vec![0xAC, 0x02, 1, b'a']);
    let (r, pos) = read::<(i32, String)>(&bytes, &args);
    assert_eq!(r.unwrap(), v);
    assert_eq!(pos, 4);
    let t = (1u8, 2u8, 3u8);
    assert_eq!(write(&t, &((), (), ())).unwrap(), vec![1, 2, 3]);
    assert_eq!(read::<(u8, u8, u8)>(&[1, 2, 3], &((), (), ())).0.unwrap(), t);
}

#[test]
fn uuids_as_mc_types() {
    let u = Uuid::from_u128(42);
    let bytes = write(&u, &()).unwrap();
    assert_eq!(bytes.len(), 16);
    assert_eq!(bytes[15], 42);
    assert_eq!(read::<Uuid>(&bytes, &()).0.unwrap(), u);
}

fn read_map(bytes: &[u8], length: ListLength) -> (Result<HashMap<u8, u8>, IoError>, u64) {
    let mut c = Cursor::new(bytes);
    let r = <HashMap<u8, u8> as McRead>::read(&mut c, &ListArgs { length, inner: ((), ()) });
    (r, c.position())
}

#[test]
fn maps_read_pairs_in_order() {
    let (m, pos) = read_map(&[2, 1, 10, 2, 20, 99], ListLength::VarInt);
    let m = m.unwrap();
    assert_eq!(pos, 5);
    assert_eq!(m.len(), 2);
    assert_eq!(m[&1], 10);
    assert_eq!(m[&2], 20);
    // a later pair replaces an earlier one with the same key
    let (m, _) = read_map(&[2, 1, 10, 1, 30], ListLength::Byte);
    let m = m.unwrap();
    assert_eq!(m.len(), 1);
    assert_eq!(m[&1], 30);
    // negative byte length, and pairs cut short
    assert_eq!(read_map(&[0xFF], ListLength::Byte).0.unwrap_err(), IoError::InvalidData);
    assert_eq!(read_map(&[2, 1, 10, 2], ListLength::VarInt).0.unwrap_err(), IoError::UnexpectedEof);
    // up to the end of the input: a pair cut short ends the map
    let (m, _) = read_map(&[1, 10, 2], ListLength::Remaining);
    let m = m.unwrap();
    assert_eq!(m.len(), 1);
    assert_eq!(m[&1], 10);
}
