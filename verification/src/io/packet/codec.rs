//! Framing of [`RawPacket`]s on a byte stream: each packet is read from or
//! written to a `BytesMut` buffer as its length, its ID and its body.

use crate::bytes_buf::{bytes_mut_advance, bytes_mut_as_slice, bytes_mut_limit, bytes_mut_put_slice, bytes_mut_view};
use crate::cursor::{cursor_new, remaining, unread};
use crate::error::IoError;
use crate::io::ext::{ext_var_i32_bytes, packet_decode, ReadMinecraftExt, WriteMinecraftExt};
use crate::io::packet::{packet_len, RawPacket};
use bytes::BytesMut;
use std::sync::Arc;
use std::time::Duration;
use vstd::prelude::*;

verus! {

/// The duration of `secs` whole seconds.
pub uninterp spec fn duration_secs(secs: u64) -> Duration;

/// `Duration::from_secs`: the duration of `secs` whole seconds.
#[verifier::external_body]
fn duration_from_secs(secs: u64) -> (d: Duration)
    ensures
        d == duration_secs(secs),
{
    Duration::from_secs(secs)
}

/// The bytes that frame a packet: its length, its ID and its body.
pub open spec fn packet_frame(id: i32, body: Seq<u8>) -> Seq<u8> {
    ext_var_i32_bytes(packet_len(id, body) as i32) + ext_var_i32_bytes(id) + body
}

/// Takes one packet from the front of `src`: `None` (leaving `src` alone)
/// when the input ends too early, the packet (and `src` without its bytes)
/// otherwise, or the error.
pub(crate) fn decode_packet(src: &mut BytesMut) -> (r: Result<Option<RawPacket>, IoError>)
    ensures
        match packet_decode(bytes_mut_view(*old(src))) {
            Ok((id, body, n)) => r matches Ok(Some(p)) && p.id == id && p.body@ == body
                && bytes_mut_view(*final(src)) == bytes_mut_view(*old(src)).skip(n as int),
            Err(IoError::UnexpectedEof) => r matches Ok(None) && bytes_mut_view(*final(src))
                == bytes_mut_view(*old(src)),
            Err(e) => r == Err::<Option<RawPacket>, IoError>(e) && bytes_mut_view(*final(src))
                == bytes_mut_view(*old(src)),
        },
{
    let bytes = bytes_mut_as_slice(src);
    let mut cursor = cursor_new(bytes);
    assert(unread(cursor) =~= bytes_mut_view(*src));
    proof {
        crate::io::ext::lemma_var_decode_len(bytes@, 5, 5);
    }
    match cursor.read_packet() {
        Ok(packet) => {
            // reading was successful, advance the outer buffer and return
            let consumed = bytes.len() - remaining(&cursor);
            bytes_mut_advance(src, consumed);
            Ok(Some(packet))
        },
        Err(e) => {
            match e {
                IoError::UnexpectedEof => Ok(None),
                _ => Err(e),
            }
        },
    }
}

/// Appends the frame of `packet` to `dst`; a packet whose length does not
/// fit an `i32` is invalid and leaves `dst` alone.
pub(crate) fn encode_packet(packet: &RawPacket, dst: &mut BytesMut) -> (r: Result<(), IoError>)
    requires
        bytes_mut_view(*old(dst)).len() + packet.body@.len() + 10 <= bytes_mut_limit(),
    ensures
        packet_len(packet.id, packet.body@) <= i32::MAX ==> r is Ok && bytes_mut_view(*final(dst))
            == bytes_mut_view(*old(dst)) + packet_frame(packet.id, packet.body@),
        packet_len(packet.id, packet.body@) > i32::MAX ==> r == Err::<(), IoError>(IoError::InvalidData)
            && bytes_mut_view(*final(dst)) == bytes_mut_view(*old(dst)),
{
    let mut bytes: Vec<u8> = Vec::new();
    bytes.write_packet(packet)?;
    proof {
        assert(bytes@ =~= packet_frame(packet.id, packet.body@));
        crate::io::ext::lemma_ext_var_i32_bytes_len(packet_len(packet.id, packet.body@) as i32);
        crate::io::ext::lemma_ext_var_i32_bytes_len(packet.id);
    }
    bytes_mut_put_slice(dst, bytes.as_slice());
    Ok(())
}

/// Settings for a [`RawPacketCodec`].
#[derive(Clone, Copy, PartialEq, Eq, Debug)]
pub struct PacketCodecSettings {
    /// The timeout for reading packets.
    pub timeout: Duration,
    /// How large a packet must be before it is compressed.
    pub compression_threshold: Option<i32>,
    /// The public key used to encrypt packets.
    pub encryption_key: Option<[u8; 16]>,
}

impl Default for PacketCodecSettings {
    fn default() -> (s: PacketCodecSettings)
        ensures
            s.timeout == duration_secs(30),
            s.compression_threshold is None,
            s.encryption_key is None,
    {
        PacketCodecSettings {
            timeout: duration_from_secs(30),
            compression_threshold: None,
            encryption_key: None,
        }
    }
}

/// Encoder and decoder for [`RawPacket`]s. Compression and encryption can be
/// switched on, but are not applied yet.
pub struct RawPacketCodec {
    /// The settings for this codec.
    pub settings: Arc<PacketCodecSettings>,
    /// True if packets should be compressed/decompressed.
    pub compress: bool,
    /// True if packets should be encrypted/decrypted.
    pub encrypt: bool,
}

impl RawPacketCodec {
    /// Creates a new codec with the given settings, with compression and
    /// encryption off.
    pub fn new(settings: Arc<PacketCodecSettings>) -> (c: RawPacketCodec)
        ensures
            c.settings == settings,
            !c.compress,
            !c.encrypt,
    {
        RawPacketCodec { settings, compress: false, encrypt: false }
    }

    /// Enables compression for this codec.
    pub fn enable_compression(&mut self)
        ensures
            final(self).compress,
            final(self).encrypt == old(self).encrypt,
            final(self).settings == old(self).settings,
    {
        self.compress = true;
    }

    /// Enables encryption for this codec.
    pub fn enable_encryption(&mut self)
        ensures
            final(self).encrypt,
            final(self).compress == old(self).compress,
            final(self).settings == old(self).settings,
    {
        self.encrypt = true;
    }

    /// Appends the frame of `packet` to `dst`: its length, its ID and its
    /// body. A packet whose length does not fit an `i32` is invalid.
    pub fn encode(&mut self, packet: RawPacket, dst: &mut BytesMut) -> (r: Result<(), IoError>)
        requires
            bytes_mut_view(*old(dst)).len() + packet.body@.len() + 10 <= bytes_mut_limit(),
        ensures
            *final(self) == *old(self),
            packet_len(packet.id, packet.body@) <= i32::MAX ==> r is Ok && bytes_mut_view(*final(dst))
                == bytes_mut_view(*old(dst)) + packet_frame(packet.id, packet.body@),
            packet_len(packet.id, packet.body@) > i32::MAX ==> r == Err::<(), IoError>(IoError::InvalidData)
                && bytes_mut_view(*final(dst)) == bytes_mut_view(*old(dst)),
    {
        encode_packet(&packet, dst)
    }

    /// Takes one packet from the front of `src`; `None` when more input is
    /// needed.
    pub fn decode(&mut self, src: &mut BytesMut) -> (r: Result<Option<RawPacket>, IoError>)
        ensures
            *final(self) == *old(self),
            match packet_decode(bytes_mut_view(*old(src))) {
                Ok((id, body, n)) => r matches Ok(Some(p)) && p.id == id && p.body@ == body
                    && bytes_mut_view(*final(src)) == bytes_mut_view(*old(src)).skip(n as int),
                Err(IoError::UnexpectedEof) => r matches Ok(None) && bytes_mut_view(*final(src))
                    == bytes_mut_view(*old(src)),
                Err(e) => r == Err::<Option<RawPacket>, IoError>(e) && bytes_mut_view(*final(src))
                    == bytes_mut_view(*old(src)),
            },
    {
        decode_packet(src)
    }
}

} // verus!
