//! A packet codec whose settings and switches are kept private.

use crate::bytes_buf::{bytes_mut_limit, bytes_mut_view};
use crate::error::IoError;
use crate::io::ext::packet_decode;
use crate::io::packet::codec::{decode_packet, encode_packet, packet_frame};
use crate::io::packet::{packet_len, RawPacket};
use bytes::BytesMut;
use std::sync::Arc;
use vstd::prelude::*;

verus! {

/// Settings for the [`RawPacketCodec`].
#[derive(Clone, Debug, PartialEq, Eq, Hash)]
pub struct CodecSettings {
    /// How large a [`RawPacket`] needs to be before it's compressed.
    pub compression_threshold: Option<i32>,
    /// The public key used to encrypt the [`RawPacket`].
    pub encryption_key: Option<[u8; 16]>,
}

impl Default for CodecSettings {
    fn default() -> (s: CodecSettings)
        ensures
            s.compression_threshold is None,
            s.encryption_key is None,
    {
        CodecSettings { compression_threshold: None, encryption_key: None }
    }
}

/// A decoder and encoder of [`RawPacket`]s. Compression and encryption can
/// be switched on, but are not applied yet.
#[derive(Clone, Debug, PartialEq, Eq, Hash)]
pub struct RawPacketCodec {
    settings: Arc<CodecSettings>,
    compress: bool,
    encrypt: bool,
}

impl RawPacketCodec {
    /// The settings the codec was made with.
    pub closed spec fn settings_spec(&self) -> Arc<CodecSettings> {
        self.settings
    }

    /// Whether compression is on.
    pub closed spec fn compressing(&self) -> bool {
        self.compress
    }

    /// Whether encryption is on.
    pub closed spec fn encrypting(&self) -> bool {
        self.encrypt
    }

    /// Constructs a new codec with the given settings, with compression and
    /// encryption off.
    pub fn new(settings: Arc<CodecSettings>) -> (c: RawPacketCodec)
        ensures
            c.settings_spec() == settings,
            !c.compressing(),
            !c.encrypting(),
    {
        RawPacketCodec { settings, compress: false, encrypt: false }
    }

    /// Enables compression for the codec.
    pub fn enable_compression(&mut self)
        ensures
            final(self).compressing(),
            final(self).encrypting() == old(self).encrypting(),
            final(self).settings_spec() == old(self).settings_spec(),
    {
        self.compress = true;
    }

    /// Enables encryption for the codec.
    pub fn enable_encryption(&mut self)
        ensures
            final(self).encrypting(),
            final(self).compressing() == old(self).compressing(),
            final(self).settings_spec() == old(self).settings_spec(),
    {
        self.encrypt = true;
    }

    /// Takes one packet from the front of `src`; `None` when more input is
    /// needed.
    pub fn decode(&mut self, src: &mut BytesMut) -> (r: Result<Option<RawPacket>, IoError>)
        ensures
            *final(self) == *old(self),
            match packet_decode(bytes_mut_view(*old(src))) {
                Ok((id, body, n)) => r matches Ok(Some(p)) && p.id == id && p.body@ == body
                    && bytes_mut_view(*final(src)) == bytes_mut_view(*old(src)).skip(n as int),
                Err(IoError::UnexpectedEof) => r matches Ok(None) && bytes_mut_view(*final(src))
                    == bytes_mut_view(*old(src)),
                Err(e) => r == Err::<Option<RawPacket>, IoError>(e) && bytes_mut_view(*final(src))
                    == bytes_mut_view(*old(src)),
            },
    {
        decode_packet(src)
    }

    /// Appends the frame of `packet` to `dst`: its length, its ID and its
    /// body. A packet whose length does not fit an `i32` is invalid.
    pub fn encode(&mut self, packet: RawPacket, dst: &mut BytesMut) -> (r: Result<(), IoError>)
        requires
            bytes_mut_view(*old(dst)).len() + packet.body@.len() + 10 <= bytes_mut_limit(),
        ensures
            *final(self) == *old(self),
            packet_len(packet.id, packet.body@) <= i32::MAX ==> r is Ok && bytes_mut_view(*final(dst))
                == bytes_mut_view(*old(dst)) + packet_frame(packet.id, packet.body@),
            packet_len(packet.id, packet.body@) > i32::MAX ==> r == Err::<(), IoError>(IoError::InvalidData)
                && bytes_mut_view(*final(dst)) == bytes_mut_view(*old(dst)),
    {
        encode_packet(&packet, dst)
    }
}

} // verus!
