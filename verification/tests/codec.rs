use bytes::BytesMut;
use minecrevy::error::IoError;
use minecrevy::io::codec::{CodecSettings, RawPacketCodec as PrivateCodec};
use minecrevy::io::packet::codec::{PacketCodecSettings, RawPacketCodec};
use minecrevy::io::packet::RawPacket;
use std::sync::Arc;
use std::time::Duration;

#[test]
fn settings_defaults() {
    let s = PacketCodecSettings::default();
    assert_eq!(s.timeout, Duration::from_secs(30));
    assert_eq!(s.compression_threshold, None);
    assert_eq!(s.encryption_key, None);
    let s = CodecSettings::default();
    assert_eq!(s.compression_threshold, None);
    assert_eq!(s.encryption_key, None);
}

#[test]
fn codec_switches() {
    let mut codec = RawPacketCodec::new(Arc::new(PacketCodecSettings::default()));
    assert!(!codec.compress && !codec.encrypt);
    codec.enable_compression();
    assert!(codec.compress && !codec.encrypt);
    codec.enable_encryption();
    assert!(codec.compress && codec.encrypt);
}

#[test]
fn codec_encode_then_decode() {
    let mut codec = RawPacketCodec::new(Arc::new(PacketCodecSettings::default()));
    let mut buf = BytesMut::new();
    codec.encode(RawPacket { id: 2, body: vec![9, 9] }, &mut buf).unwrap();
    assert_eq!(&buf[..], &[3, 2, 9, 9][..]);
    buf.extend_from_slice(&[1]);
    let packet = codec.decode(&mut buf).unwrap().unwrap();
    assert_eq!(packet, RawPacket { id: 2, body: vec![9, 9] });
    assert_eq!(&buf[..], &[1][..]);
}

#[test]
fn decode_waits_for_more_input() {
    let mut codec = RawPacketCodec::new(Arc::new(PacketCodecSettings::default()));
    let mut buf = BytesMut::from(&[0x80][..]);
    assert_eq!(codec.decode(&mut buf), Ok(None));
    assert_eq!(&buf[..], &[0x80][..]);
    let mut buf = BytesMut::new();
    assert_eq!(codec.decode(&mut buf), Ok(None));
    let mut buf = BytesMut::from(&[0x03, 0x01][..]);
    assert_eq!(codec.decode(&mut buf), Ok(None));
    assert_eq!(&buf[..], &[0x03, 0x01][..]);
}

#[test]
fn decode_refuses_bad_lengths() {
    let mut codec = PrivateCodec::new(Arc::new(CodecSettings::default()));
    let mut buf = BytesMut::from(&[0xFF, 0xFF, 0xFF, 0xFF, 0x0F][..]);
    assert_eq!(codec.decode(&mut buf), Err(IoError::InvalidData));
    let mut out = BytesMut::new();
    codec.encode(RawPacket { id: 300, body: vec![] }, &mut out).unwrap();
    assert_eq!(&out[..], &[2, 0xAC, 0x02][..]);
}

#[test]
fn buffer_length_is_what_it_holds() {
    let buf = BytesMut::from(&[1u8, 2, 3][..]);
    assert_eq!(minecrevy::bytes_buf::bytes_mut_len(&buf), 3);
}
