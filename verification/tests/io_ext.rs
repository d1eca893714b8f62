use minecrevy::error::IoError;
use minecrevy::io::ext::{ReadMinecraftExt, WriteMinecraftExt};
use minecrevy::io::packet::RawPacket;
use minecrevy::io::util::varint_bytes;
use minecrevy::uuid::Uuid;
use std::io::Cursor;

fn written(f: impl FnOnce(&mut Vec<u8>)) -> Vec<u8> {
    let mut out = Vec::new();
    f(&mut out);
    out
}

#[test]
fn fixed_width_numbers_are_big_endian() {
    let mut c = Cursor::new(&[0x12, 0x34, 0xFF, 0xFF, 0xFF, 0xFE, 0x01][..]);
    assert_eq!(c.read_u16().unwrap(), 0x1234);
    assert_eq!(c.read_i32().unwrap(), -2);
    assert_eq!(c.read_bool().unwrap(), true);
    assert_eq!(c.read_u8(), Err(IoError::UnexpectedEof));
    assert_eq!(written(|w| { w.write_u32(0x0102_0304).unwrap(); }), vec![1, 2, 3, 4]);
    assert_eq!(written(|w| { w.write_i16(-2).unwrap(); }), vec![0xFF, 0xFE]);
    assert_eq!(written(|w| { w.write_bool(true).unwrap(); w.write_bool(false).unwrap(); }), vec![1, 0]);
}

#[test]
fn short_input_is_unexpected_eof() {
    let mut c = Cursor::new(&[0x00, 0x01, 0x02][..]);
    assert_eq!(c.read_u32(), Err(IoError::UnexpectedEof));
    let mut c = Cursor::new(&[][..]);
    assert_eq!(c.read_bool(), Err(IoError::UnexpectedEof));
}

#[test]
fn uuid_is_sixteen_big_endian_bytes() {
    let u = Uuid::from_u128(0x0011_2233_4455_6677_8899_aabb_ccdd_eeff);
    let bytes = written(|w| { w.write_uuid(u).unwrap(); });
    assert_eq!(bytes, vec![0x00, 0x11, 0x22, 0x33, 0x44, 0x55, 0x66, 0x77, 0x88, 0x99, 0xaa, 0xbb, 0xcc, 0xdd, 0xee, 0xff]);
    let mut c = Cursor::new(&bytes[..]);
    assert_eq!(c.read_uuid().unwrap().as_u128(), u.as_u128());
}

#[test]
fn var_i32_reads_up_to_four_bytes() {
    let mut c = Cursor::new(&[0xFF, 0xFF, 0xFF, 0x7F][..]);
    assert_eq!(c.read_var_i32().unwrap(), 268435455);
    let mut c = Cursor::new(&[0x80, 0x01, 0x05][..]);
    assert_eq!(c.read_var_i32().unwrap(), 128);
    assert_eq!(c.read_u8().unwrap(), 0x05);
}

#[test]
fn var_i32_of_five_bytes_is_read() {
    let mut c = Cursor::new(&[0xFF, 0xFF, 0xFF, 0xFF, 0x0F][..]);
    assert_eq!(c.read_var_i32(), Ok(-1));
    let mut c = Cursor::new(&[0x80, 0x80, 0x80, 0x80, 0x01][..]);
    assert_eq!(c.read_var_i32(), Ok(268435456));
    let mut c = Cursor::new(&[0x80, 0x80, 0x80, 0x80, 0x80, 0x01][..]);
    assert_eq!(c.read_var_i32(), Err(IoError::InvalidData));
}

#[test]
fn var_i32_cut_short_is_unexpected_eof() {
    let mut c = Cursor::new(&[0x80, 0x80][..]);
    assert_eq!(c.read_var_i32(), Err(IoError::UnexpectedEof));
}

#[test]
fn var_i32_writes() {
    assert_eq!(written(|w| { w.write_var_i32(0).unwrap(); }), vec![0x00]);
    assert_eq!(written(|w| { w.write_var_i32(127).unwrap(); }), vec![0x7F]);
    assert_eq!(written(|w| { w.write_var_i32(128).unwrap(); }), vec![0x80, 0x01]);
    assert_eq!(written(|w| { w.write_var_i32(16383).unwrap(); }), vec![0xFF, 0x7F]);
    assert_eq!(written(|w| { w.write_var_i32(2097152).unwrap(); }), vec![0x80, 0x80, 0x80, 0x01]);
    assert_eq!(written(|w| { w.write_var_i32(-1).unwrap(); }), vec![0xFF, 0xFF, 0xFF, 0xFF, 0x0F]);
}

#[test]
fn var_i32_three_byte_writes() {
    assert_eq!(written(|w| { w.write_var_i32(16384).unwrap(); }), vec![0x80, 0x80, 0x01]);
    assert_eq!(written(|w| { w.write_var_i32(2097151).unwrap(); }), vec![0xFF, 0xFF, 0x7F]);
}

#[test]
fn var_i32_roundtrips() {
    for v in [0, 1, 127, 128, 300, 16383, 16384, 2097151, 2097152, 100_000_000, 268435455, 268435456, i32::MAX, -1, i32::MIN] {
        let bytes = written(|w| { w.write_var_i32(v).unwrap(); });
        assert_eq!(bytes.len(), varint_bytes(v));
        let mut c = Cursor::new(&bytes[..]);
        assert_eq!(c.read_var_i32().unwrap(), v);
    }
}

#[test]
fn var_i32_len_refuses_negative_lengths() {
    let mut c = Cursor::new(&[0x05][..]);
    assert_eq!(c.read_var_i32_len().unwrap(), 5);
    let mut out = Vec::new();
    assert_eq!(out.write_var_i32_len(3_000_000_000), Err(IoError::InvalidData));
    assert!(out.is_empty());
}

#[test]
fn var_i64_writes_all_sixty_four_bits() {
    assert_eq!(written(|w| { w.write_var_i64(300).unwrap(); }), vec![0xAC, 0x02]);
    assert_eq!(written(|w| { w.write_var_i64(1 << 32).unwrap(); }), vec![0x80, 0x80, 0x80, 0x80, 0x10]);
    let mut minus_one = vec![0xFF; 9];
    minus_one.push(0x01);
    assert_eq!(written(|w| { w.write_var_i64(-1).unwrap(); }), minus_one);
    let mut c = Cursor::new(&minus_one[..]);
    assert_eq!(c.read_var_i64().unwrap(), -1);
    let mut c = Cursor::new(&[0x80, 0x80, 0x80, 0x80, 0x10][..]);
    assert_eq!(c.read_var_i64().unwrap(), 1 << 32);
    let mut too_long = vec![0x80; 10];
    too_long.push(0x01);
    let mut c = Cursor::new(&too_long[..]);
    assert_eq!(c.read_var_i64(), Err(IoError::InvalidData));
    let mut c = Cursor::new(&[0xAC, 0x02][..]);
    assert_eq!(c.read_var_i64().unwrap(), 300);
}

#[test]
fn varint_bytes_counts() {
    assert_eq!(varint_bytes(0), 1);
    assert_eq!(varint_bytes(127), 1);
    assert_eq!(varint_bytes(128), 2);
    assert_eq!(varint_bytes(16384), 3);
    assert_eq!(varint_bytes(2097152), 4);
    assert_eq!(varint_bytes(268435456), 5);
    assert_eq!(varint_bytes(-1), 5);
}

#[test]
fn strings_roundtrip_and_refuse_bad_utf8() {
    let bytes = written(|w| { w.write_string("héllo").unwrap(); });
    assert_eq!(bytes, vec![6, b'h', 0xC3, 0xA9, b'l', b'l', b'o']);
    let mut c = Cursor::new(&bytes[..]);
    assert_eq!(c.read_string().unwrap(), "héllo");
    let mut c = Cursor::new(&[2, 0xFF, 0xFE][..]);
    assert_eq!(c.read_string(), Err(IoError::InvalidData));
    let mut c = Cursor::new(&[5, b'a'][..]);
    assert_eq!(c.read_string(), Err(IoError::UnexpectedEof));
}

#[test]
fn byte_arrays_with_and_without_length() {
    let bytes = written(|w| { w.write_bytes_var_i32(&[9, 8, 7]).unwrap(); });
    assert_eq!(bytes, vec![3, 9, 8, 7]);
    let mut c = Cursor::new(&bytes[..]);
    assert_eq!(c.read_bytes_var_i32().unwrap(), vec![9, 8, 7]);
    let mut c = Cursor::new(&[1, 2, 3][..]);
    assert_eq!(c.read_bytes_remaining().unwrap(), vec![1, 2, 3]);
}

#[test]
fn packets_roundtrip() {
    let packet = RawPacket { id: 0x26, body: vec![1, 2, 3] };
    assert_eq!(packet.len(), 4);
    let bytes = written(|w| { w.write_packet(&packet).unwrap(); });
    assert_eq!(bytes, vec![4, 0x26, 1, 2, 3]);
    let mut c = Cursor::new(&bytes[..]);
    assert_eq!(c.read_packet().unwrap(), packet);
}

#[test]
fn packet_reader_takes_exactly_the_length() {
    let mut c = Cursor::new(&[0x03, 0x01, 0x02, 0x03, 0xAA][..]);
    assert_eq!(c.read_packet().unwrap(), RawPacket { id: 1, body: vec![2, 3] });
    assert_eq!(c.position(), 4);
    let mut c = Cursor::new(&[0x03, 0x01][..]);
    assert_eq!(c.read_packet(), Err(IoError::UnexpectedEof));
}

#[test]
fn packet_reader_reads_the_body() {
    let packet = RawPacket { id: 1, body: vec![0, 5] };
    let mut reader = packet.reader();
    assert_eq!(reader.read_u16().unwrap(), 5);
}
