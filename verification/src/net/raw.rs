//! The decisions of a raw client's connection handler: what to do with each
//! packet that arrives and each write the server asks for.

use crate::error::IoError;
use crate::io::codec::RawPacketCodec;
use crate::io::packet::RawPacket;
use vstd::prelude::*;

verus! {

/// Changes to how packets are framed on a connection.
#[derive(Clone, Copy, PartialEq, Eq, Structural, Debug)]
pub enum PacketMeta {
    EnableCompression,
    EnableEncryption,
}

/// What the server asks a connection handler to write.
pub enum WriteOp {
    Packet(RawPacket),
    Meta(PacketMeta),
    Flush,
}

/// What happened on a raw client's connection.
pub enum RawClientEvent {
    /// The connection gave a packet or an error, or `None` when the client
    /// disconnected.
    Incoming(Option<Result<RawPacket, IoError>>),
    /// The server asked for a write, or `None` when it let go of the client.
    Outgoing(Option<WriteOp>),
}

/// What the connection handler does next.
pub enum RawClientAction {
    /// Hand a received packet to the server.
    Deliver(RawPacket),
    /// Report an error to the server and go on.
    Report(IoError),
    /// Send a packet to the client.
    Send(RawPacket),
    /// Flush what was sent.
    Flush,
    /// Nothing to do but go on (the codec may have changed).
    Continue,
    /// End the connection handler.
    Stop,
}

/// Decides what the connection handler does with one event. A framing
/// change switches compression or encryption on in the codec; nothing else
/// changes it.
pub fn raw_client_step(codec: &mut RawPacketCodec, event: RawClientEvent) -> (a: RawClientAction)
    ensures
        match event {
            RawClientEvent::Incoming(Some(Ok(p))) => a == RawClientAction::Deliver(p) && *final(codec) == *old(codec),
            RawClientEvent::Incoming(Some(Err(e))) => a == RawClientAction::Report(e) && *final(codec) == *old(codec),
            RawClientEvent::Incoming(None) => a == RawClientAction::Stop && *final(codec) == *old(codec),
            RawClientEvent::Outgoing(Some(WriteOp::Packet(p))) => a == RawClientAction::Send(p) && *final(codec)
                == *old(codec),
            RawClientEvent::Outgoing(Some(WriteOp::Meta(PacketMeta::EnableCompression))) => a
                == RawClientAction::Continue && final(codec).compressing() && final(codec).encrypting()
                == old(codec).encrypting() && final(codec).settings_spec() == old(codec).settings_spec(),
            RawClientEvent::Outgoing(Some(WriteOp::Meta(PacketMeta::EnableEncryption))) => a
                == RawClientAction::Continue && final(codec).encrypting() && final(codec).compressing()
                == old(codec).compressing() && final(codec).settings_spec() == old(codec).settings_spec(),
            RawClientEvent::Outgoing(Some(WriteOp::Flush)) => a == RawClientAction::Flush && *final(codec) == *old(codec),
            RawClientEvent::Outgoing(None) => a == RawClientAction::Stop && *final(codec) == *old(codec),
        },
{
    match event {
        RawClientEvent::Incoming(Some(Ok(packet))) => RawClientAction::Deliver(packet),
        RawClientEvent::Incoming(Some(Err(error))) => RawClientAction::Report(error),
        RawClientEvent::Incoming(None) => RawClientAction::Stop,
        RawClientEvent::Outgoing(Some(WriteOp::Packet(packet))) => RawClientAction::Send(packet),
        RawClientEvent::Outgoing(Some(WriteOp::Meta(PacketMeta::EnableCompression))) => {
            codec.enable_compression();
            RawClientAction::Continue
        },
        RawClientEvent::Outgoing(Some(WriteOp::Meta(PacketMeta::EnableEncryption))) => {
            codec.enable_encryption();
            RawClientAction::Continue
        },
        RawClientEvent::Outgoing(Some(WriteOp::Flush)) => RawClientAction::Flush,
        RawClientEvent::Outgoing(None) => RawClientAction::Stop,
    }
}

} // verus!
