use minecrevy::error::IoError;
use minecrevy::io::args::IVec3Args;
use minecrevy::io::ivec::{compress_ivec3, uncompress_ivec3, IVec3};
use minecrevy::io::mc::{McRead, McWrite};
use std::io::Cursor;

#[test]
fn compress_ivec3_layout() {
    assert_eq!(compress_ivec3(IVec3::new(1, 2, 3)), (1u64 << 38) | (3u64 << 12) | 2);
    assert_eq!(compress_ivec3(IVec3::new(0, 0xFFF, 0)), 0xFFF);
    // Coordinates are cut to their fields.
    assert_eq!(compress_ivec3(IVec3::new(0, 0x1001, 0)), 1);
}

#[test]
fn uncompress_ivec3_layout() {
    assert_eq!(uncompress_ivec3((5u64 << 38) | (7u64 << 12) | 9), IVec3::new(5, 9, 7));
}

#[test]
fn compression_roundtrips_for_signed_coordinates() {
    for v in [IVec3::new(0, 0, 0), IVec3::new(123, 64, 456), IVec3::new((1 << 25) - 1, 2047, (1 << 25) - 1)] {
        assert_eq!(uncompress_ivec3(compress_ivec3(v)), v);
    }
    assert_eq!(uncompress_ivec3(compress_ivec3(IVec3::new(-1, 0, 0))), IVec3::new(-1, 0, 0));
    assert_eq!(uncompress_ivec3(u64::MAX), IVec3::new(-1, -1, -1));
    let low = IVec3::new(-(1 << 25), -(1 << 11), -(1 << 25));
    assert_eq!(uncompress_ivec3(compress_ivec3(low)), low);
}

#[test]
fn ivec3_read_write() {
    let v = IVec3::new(1, -2, 3);
    let mut out = Vec::new();
    v.write(&mut out, &IVec3Args { compressed: false }).unwrap();
    assert_eq!(out, vec![0, 0, 0, 1, 0xFF, 0xFF, 0xFF, 0xFE, 0, 0, 0, 3]);
    let mut c = Cursor::new(&out[..]);
    assert_eq!(IVec3::read(&mut c, &IVec3Args { compressed: false }).unwrap(), v);

    let p = IVec3::new(10, 20, 30);
    let mut out = Vec::new();
    p.write(&mut out, &IVec3Args { compressed: true }).unwrap();
    assert_eq!(out, compress_ivec3(p).to_be_bytes().to_vec());
    let mut c = Cursor::new(&out[..]);
    assert_eq!(IVec3::read(&mut c, &IVec3Args { compressed: true }).unwrap(), p);

    let mut c = Cursor::new(&[0u8; 11][..]);
    assert_eq!(IVec3::read(&mut c, &IVec3Args { compressed: false }), Err(IoError::UnexpectedEof));
}
