//! Raw packets and their framing: a VarInt length, then a VarInt packet ID
//! and the packet's data.

use crate::bytes_buf::{
    bytes_mut_advance, bytes_mut_as_slice, bytes_mut_limit, bytes_mut_put_slice,
    bytes_mut_reserve, bytes_mut_view,
};
use crate::cursor::{cursor_data, cursor_get_ref, cursor_new, cursor_pos, cursor_position, remaining, unread};
use crate::error::IoError;
use crate::varint::{
    lemma_var_i32_decode_len, lemma_var_i32_roundtrip, read_var_i32, var_i32_bytes, var_i32_decode, var_i32_size,
    write_var_i32,
};
use bytes::BytesMut;
use std::io::Cursor;
use vstd::prelude::*;

verus! {

/// A packet as it travels on the wire: its ID and its undecoded data.
#[derive(Clone, PartialEq, Eq, Debug)]
pub struct RawPacket {
    pub id: i32,
    pub data: Vec<u8>,
}

/// Frames [`RawPacket`]s on a byte stream.
pub struct RawPacketCodec {
    /// The size from which packets would be compressed; not applied yet.
    pub compression_threshold: Option<i32>,
}

/// What reading one frame from the front of `s` gives: the packet's ID and
/// data, and how many bytes the reader moves past (the length prefix only;
/// the frame's contents are read from a separate view of the input).
pub open spec fn read_raw_packet_spec(s: Seq<u8>) -> Result<(i32, Seq<u8>, nat), IoError> {
    match var_i32_decode(s) {
        Err(e) => Err(e),
        Ok((len, n)) => if len < 0 {
            Err(IoError::InvalidData)
        } else {
            let body = s.subrange(n as int, n + len);
            match var_i32_decode(body) {
                Err(e) => Err(e),
                Ok((id, m)) => Ok((id, body.skip(m as int), n)),
            }
        },
    }
}

/// The frame's length prefix, when readable and not negative, does not claim
/// more bytes than `s` holds (reading such a frame would slice out of bounds).
pub open spec fn frame_in_bounds(s: Seq<u8>) -> bool {
    match var_i32_decode(s) {
        Ok((len, n)) => len >= 0 ==> n + len <= s.len(),
        Err(_) => true,
    }
}

/// Reads one frame from `src`. The cursor is moved past the length prefix.
pub fn read_raw_packet(src: &mut Cursor<&[u8]>) -> (r: Result<RawPacket, IoError>)
    requires
        frame_in_bounds(unread(*old(src))),
    ensures
        match read_raw_packet_spec(unread(*old(src))) {
            Ok((id, data, n)) => r matches Ok(p) && p.id == id && p.data@ == data && unread(
                *final(src),
            ) == unread(*old(src)).skip(n as int) && cursor_pos(*final(src)) <= cursor_data(
                *final(src),
            ).len() && cursor_data(*final(src)) == cursor_data(*old(src)),
            Err(e) => r == Err::<RawPacket, IoError>(e),
        },
{
    let ghost s = unread(*src);
    proof {
        lemma_var_i32_decode_len(s);
    }
    let len = read_var_i32(src)?;
    if len < 0 {
        return Err(IoError::InvalidData);
    }
    let len = len as usize;
    let all = cursor_get_ref(src);
    let pos = cursor_position(src);
    let ghost n = match var_i32_decode(s) {
        Ok((_, k)) => k,
        Err(_) => 0,
    };
    assert(unread(*src) == s.skip(n as int));
    assert(unread(*src) =~= all@.skip(pos as int));
    let all_len = all.len();
    let mut body: Vec<u8> = Vec::new();
    let mut i: usize = 0;
    while i < len
        invariant
            0 <= i <= len,
            pos + len <= all@.len(),
            all@.len() == all_len,
            body@ =~= all@.subrange(pos as int, pos + i),
        decreases len - i,
    {
        body.push(all[pos as usize + i]);
        i = i + 1;
    }
    assert(body@ =~= s.subrange(n as int, n + len));
    proof {
        lemma_var_i32_decode_len(body@);
    }
    let mut inner = cursor_new(body.as_slice());
    assert(unread(inner) =~= body@);
    let id = read_var_i32(&mut inner)?;
    let rest = cursor_get_ref(&inner);
    let start = cursor_position(&inner);
    let mut data: Vec<u8> = Vec::new();
    assert(start <= rest@.len());
    assert(unread(inner) =~= rest@.skip(start as int));
    let mut j: usize = start as usize;
    while j < rest.len()
        invariant
            start <= j <= rest@.len(),
            data@ =~= rest@.subrange(start as int, j as int),
        decreases rest@.len() - j,
    {
        data.push(rest[j]);
        j = j + 1;
    }
    assert(data@ =~= body@.skip((body@.len() - unread(inner).len()) as int));
    Ok(RawPacket { id, data })
}

/// The Length field of a frame for a packet with this ID and data: the size
/// of the VarInt ID plus the data.
pub open spec fn frame_len(id: i32, data: Seq<u8>) -> nat {
    var_i32_bytes(id).len() + data.len()
}

/// The bytes of a whole frame: Length, then ID, then data.
pub open spec fn frame_bytes(id: i32, data: Seq<u8>) -> Seq<u8> {
    var_i32_bytes(frame_len(id, data) as i32) + var_i32_bytes(id) + data
}

impl RawPacketCodec {
    /// Whether the frame at the front of `src` lies within it: its length,
    /// when readable and not negative, claims no more than what follows it.
    pub fn frame_fits(&self, src: &BytesMut) -> (b: bool)
        ensures
            b == frame_in_bounds(bytes_mut_view(*src)),
    {
        let bytes = bytes_mut_as_slice(src);
        let mut cursor = cursor_new(bytes);
        assert(unread(cursor) =~= bytes@);
        proof {
            lemma_var_i32_decode_len(bytes@);
        }
        match read_var_i32(&mut cursor) {
            Ok(len) => len < 0 || len as usize <= remaining(&cursor),
            Err(_) => true,
        }
    }

    /// Appends the frame of `item` to `dst`. Fails with `InvalidData`, leaving
    /// `dst` as it was, when the frame's length does not fit an `i32`.
    pub fn encode(&mut self, item: RawPacket, dst: &mut BytesMut) -> (r: Result<(), IoError>)
        requires
            bytes_mut_view(*old(dst)).len() + item.data@.len() + 10 <= bytes_mut_limit(),
        ensures
            *final(self) == *old(self),
            frame_len(item.id, item.data@) <= i32::MAX ==> r is Ok && bytes_mut_view(*final(dst))
                == bytes_mut_view(*old(dst)) + frame_bytes(item.id, item.data@),
            frame_len(item.id, item.data@) > i32::MAX ==> r == Err::<(), IoError>(
                IoError::InvalidData,
            ) && bytes_mut_view(*final(dst)) == bytes_mut_view(*old(dst)),
    {
        let len = var_i32_size(item.id) + item.data.len();
        if len > i32::MAX as usize {
            return Err(IoError::InvalidData);
        }
        let len_i32 = len as i32;
        bytes_mut_reserve(dst, var_i32_size(len_i32) + len);
        write_var_i32(dst, len_i32);
        write_var_i32(dst, item.id);
        bytes_mut_put_slice(dst, item.data.as_slice());
        assert(bytes_mut_view(*final(dst)) =~= bytes_mut_view(*old(dst)) + frame_bytes(
            item.id,
            item.data@,
        ));
        Ok(())
    }

    /// Takes one frame from the front of `src`. Returns `None`, leaving `src`
    /// as it was, when the input ends too early; on success only the length
    /// prefix is taken off `src`.
    pub fn decode(&mut self, src: &mut BytesMut) -> (r: Result<Option<RawPacket>, IoError>)
        requires
            frame_in_bounds(bytes_mut_view(*old(src))),
        ensures
            *final(self) == *old(self),
            match read_raw_packet_spec(bytes_mut_view(*old(src))) {
                Ok((id, data, n)) => r matches Ok(Some(p)) && p.id == id && p.data@ == data
                    && bytes_mut_view(*final(src)) == bytes_mut_view(*old(src)).skip(n as int),
                Err(IoError::UnexpectedEof) => r matches Ok(None) && bytes_mut_view(*final(src))
                    == bytes_mut_view(*old(src)),
                Err(e) => r == Err::<Option<RawPacket>, IoError>(e) && bytes_mut_view(*final(src))
                    == bytes_mut_view(*old(src)),
            },
    {
        let bytes = bytes_mut_as_slice(src);
        let mut cursor = cursor_new(bytes);
        assert(unread(cursor) =~= bytes_mut_view(*src));
        match read_raw_packet(&mut cursor) {
            Ok(packet) => {
                let position = cursor_position(&cursor);
                proof {
                    lemma_var_i32_decode_len(bytes@);
                    assert(unread(cursor) =~= bytes@.skip(position as int));
                }
                bytes_mut_advance(src, position as usize);
                Ok(Some(packet))
            },
            Err(e) => {
                match e {
                    IoError::UnexpectedEof => Ok(None),
                    _ => Err(e),
                }
            },
        }
    }
}

/// Framing and reading back: a packet whose frame length fits an `i32`,
/// followed by anything, is read back with its ID and data, and the reader
/// moves past the Length field.
pub proof fn lemma_frame_roundtrip(id: i32, data: Seq<u8>, rest: Seq<u8>)
    requires
        frame_len(id, data) <= i32::MAX,
    ensures
        read_raw_packet_spec(frame_bytes(id, data) + rest) == Ok::<(i32, Seq<u8>, nat), IoError>(
            (id, data, var_i32_bytes(frame_len(id, data) as i32).len()),
        ),
        frame_in_bounds(frame_bytes(id, data) + rest),
{
    let len = frame_len(id, data) as i32;
    let lb = var_i32_bytes(len);
    let ib = var_i32_bytes(id);
    let s = frame_bytes(id, data) + rest;
    assert(s =~= lb + (ib + data + rest));
    lemma_var_i32_roundtrip(len, ib + data + rest);
    let n = lb.len();
    let body = s.subrange(n as int, n + len);
    assert(body =~= ib + data);
    lemma_var_i32_roundtrip(id, data);
    assert((ib + data).skip(ib.len() as int) =~= data);
}

} // verus!
