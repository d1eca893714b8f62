use bytes::BytesMut;
use minecrevy::net::packet::{RawPacket, RawPacketCodec};
use minecrevy::varint::{read_var_i32, var_i32_size, write_var_i32};

#[test]
fn test_var_i32_size() {
    assert_eq!(var_i32_size(0), 1);
    assert_eq!(var_i32_size(1), 1);
    assert_eq!(var_i32_size(127), 1);
    assert_eq!(var_i32_size(128), 2);
    assert_eq!(var_i32_size(16383), 2);
    assert_eq!(var_i32_size(16384), 3);
    assert_eq!(var_i32_size(2097151), 3);
    assert_eq!(var_i32_size(2097152), 4);
    assert_eq!(var_i32_size(268435455), 4);
    assert_eq!(var_i32_size(268435456), 5);
    assert_eq!(var_i32_size(-1), 5);
    assert_eq!(var_i32_size(-268435456), 5);
}

#[test]
fn test_read_var_i32() {
    let mut cursor = std::io::Cursor::new(&[0x00][..]);
    assert_eq!(read_var_i32(&mut cursor).unwrap(), 0);

    let mut cursor = std::io::Cursor::new(&[0x01][..]);
    assert_eq!(read_var_i32(&mut cursor).unwrap(), 1);

    let mut cursor = std::io::Cursor::new(&[0x7F][..]);
    assert_eq!(read_var_i32(&mut cursor).unwrap(), 127);

    let mut cursor = std::io::Cursor::new(&[0x80, 0x01][..]);
    assert_eq!(read_var_i32(&mut cursor).unwrap(), 128);

    let mut cursor = std::io::Cursor::new(&[0xFF, 0x7F][..]);
    assert_eq!(read_var_i32(&mut cursor).unwrap(), 16383);

    let mut cursor = std::io::Cursor::new(&[0x80, 0x80, 0x01][..]);
    assert_eq!(read_var_i32(&mut cursor).unwrap(), 16384);

    let mut cursor = std::io::Cursor::new(&[0xFF, 0xFF, 0x7F][..]);
    assert_eq!(read_var_i32(&mut cursor).unwrap(), 2097151);

    let mut cursor = std::io::Cursor::new(&[0x80, 0x80, 0x80, 0x01][..]);
    assert_eq!(read_var_i32(&mut cursor).unwrap(), 2097152);

    let mut cursor = std::io::Cursor::new(&[0xFF, 0xFF, 0xFF, 0x7F][..]);
    assert_eq!(read_var_i32(&mut cursor).unwrap(), 268435455);

    let mut cursor = std::io::Cursor::new(&[0x80, 0x80, 0x80, 0x80, 0x01][..]);
    assert_eq!(read_var_i32(&mut cursor).unwrap(), 268435456);

    let mut cursor = std::io::Cursor::new(&[0xFF, 0xFF, 0xFF, 0xFF, 0x0F][..]);
    assert_eq!(read_var_i32(&mut cursor).unwrap(), -1);
}

#[test]
fn test_write_var_i32() {
    let mut buf = BytesMut::new();
    write_var_i32(&mut buf, 0);
    assert_eq!(buf, BytesMut::from(&[0x00][..]));

    let mut buf = BytesMut::new();
    write_var_i32(&mut buf, 1);
    assert_eq!(buf, BytesMut::from(&[0x01][..]));

    let mut buf = BytesMut::new();
    write_var_i32(&mut buf, 127);
    assert_eq!(buf, BytesMut::from(&[0x7F][..]));

    let mut buf = BytesMut::new();
    write_var_i32(&mut buf, 128);
    assert_eq!(buf, BytesMut::from(&[0x80, 0x01][..]));

    let mut buf = BytesMut::new();
    write_var_i32(&mut buf, 16383);
    assert_eq!(buf, BytesMut::from(&[0xFF, 0x7F][..]));

    let mut buf = BytesMut::new();
    write_var_i32(&mut buf, 16384);
    assert_eq!(buf, BytesMut::from(&[0x80, 0x80, 0x01][..]));

    let mut buf = BytesMut::new();
    write_var_i32(&mut buf, 2097151);
    assert_eq!(buf, BytesMut::from(&[0xFF, 0xFF, 0x7F][..]));

    let mut buf = BytesMut::new();
    write_var_i32(&mut buf, 2097152);
    assert_eq!(buf, BytesMut::from(&[0x80, 0x80, 0x80, 0x01][..]));

    let mut buf = BytesMut::new();
    write_var_i32(&mut buf, 268435455);
    assert_eq!(buf, BytesMut::from(&[0xFF, 0xFF, 0xFF, 0x7F][..]));

    let mut buf = BytesMut::new();
    write_var_i32(&mut buf, 268435456);
    assert_eq!(buf, BytesMut::from(&[0x80, 0x80, 0x80, 0x80, 0x01][..]));

    let mut buf = BytesMut::new();
    write_var_i32(&mut buf, -1);
    assert_eq!(buf, BytesMut::from(&[0xFF, 0xFF, 0xFF, 0xFF, 0x0F][..]));
}

#[test]
fn test_decode_raw_packet() {
    let mut codec = RawPacketCodec {
        compression_threshold: None,
    };
    let mut buf = BytesMut::from(&[0x03, 0x01, 0x02, 0x03][..]);
    let packet = codec.decode(&mut buf).unwrap().unwrap();
    assert_eq!(
        packet,
        RawPacket {
            id: 1,
            data: vec![0x02, 0x03],
        }
    );
}

#[test]
fn test_encode_raw_packet() {
    let mut codec = RawPacketCodec {
        compression_threshold: None,
    };
    let mut buf = BytesMut::new();
    let packet = RawPacket {
        id: 1,
        data: vec![0x02, 0x03],
    };
    codec.encode(packet, &mut buf).unwrap();
    assert_eq!(buf, BytesMut::from(&[0x03, 0x01, 0x02, 0x03][..]));
}

#[test]
fn read_var_i32_errors() {
    // a five-byte VarInt whose last byte still has the continuation bit
    let mut cursor = std::io::Cursor::new(&[0xFF, 0xFF, 0xFF, 0xFF, 0xFF][..]);
    assert_eq!(
        read_var_i32(&mut cursor),
        Err(minecrevy::error::IoError::InvalidData)
    );
    // input ends before the last byte
    let mut cursor = std::io::Cursor::new(&[0x80, 0x80][..]);
    assert_eq!(
        read_var_i32(&mut cursor),
        Err(minecrevy::error::IoError::UnexpectedEof)
    );
    let mut cursor = std::io::Cursor::new(&[][..]);
    assert_eq!(
        read_var_i32(&mut cursor),
        Err(minecrevy::error::IoError::UnexpectedEof)
    );
    // the cursor moves past exactly the bytes of the VarInt
    let mut cursor = std::io::Cursor::new(&[0x80, 0x01, 0x2A][..]);
    assert_eq!(read_var_i32(&mut cursor), Ok(128));
    assert_eq!(cursor.position(), 2);
}

#[test]
fn var_i32_roundtrip_values() {
    for v in [0, 1, 127, 128, 300, 16384, 2097152, 268435456, i32::MAX, i32::MIN, -1, -300] {
        let mut buf = BytesMut::new();
        write_var_i32(&mut buf, v);
        assert_eq!(buf.len(), var_i32_size(v));
        let mut cursor = std::io::Cursor::new(&buf[..]);
        assert_eq!(read_var_i32(&mut cursor), Ok(v));
    }
}

#[test]
fn decode_incomplete_and_invalid_frames() {
    let mut codec = RawPacketCodec {
        compression_threshold: None,
    };
    // empty input: wait for more
    let mut buf = BytesMut::new();
    assert_eq!(codec.decode(&mut buf), Ok(None));
    // length prefix not complete yet
    let mut buf = BytesMut::from(&[0x80][..]);
    assert_eq!(codec.decode(&mut buf), Ok(None));
    assert_eq!(buf.len(), 1);
    // negative length
    let mut buf = BytesMut::from(&[0xFF, 0xFF, 0xFF, 0xFF, 0x0F][..]);
    assert_eq!(codec.decode(&mut buf), Err(minecrevy::error::IoError::InvalidData));
    // only the length prefix is taken off the buffer
    let mut buf = BytesMut::from(&[0x02, 0x05, 0x09, 0x7F][..]);
    let packet = codec.decode(&mut buf).unwrap().unwrap();
    assert_eq!(packet, RawPacket { id: 5, data: vec![0x09] });
    assert_eq!(&buf[..], &[0x05, 0x09, 0x7F][..]);
}

#[test]
fn encode_then_decode() {
    let mut codec = RawPacketCodec {
        compression_threshold: Some(256),
    };
    let packet = RawPacket {
        id: 300,
        data: (0..200u8).collect(),
    };
    let mut buf = BytesMut::new();
    codec.encode(packet.clone(), &mut buf).unwrap();
    assert_eq!(&buf[..3], &[0xCA, 0x01, 0xAC]);
    let decoded = codec.decode(&mut buf).unwrap().unwrap();
    assert_eq!(decoded, packet);
}
