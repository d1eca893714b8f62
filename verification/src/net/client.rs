//! The decisions of a client connection's I/O loop: what to do with each
//! thing that happens on the connection. The loop itself, which waits on
//! the socket, the outgoing channel and a timer, performs the actions.

use crate::error::IoError;
use crate::net::packet::{RawPacket, RawPacketCodec};
use vstd::prelude::*;

verus! {

/// Why a client connection ended.
#[derive(Clone, Copy, PartialEq, Eq, Structural, Debug)]
pub enum ClientIoError {
    /// The sending side of the outgoing channel was dropped.
    Dropped,
    /// The peer closed the connection.
    Disconnected,
    /// Nothing happened for the whole timeout.
    TimedOut,
    /// Reading a packet failed.
    Io(IoError),
}

/// Events that are returned by a client.
pub enum IncomingClientEvent {
    Packet(RawPacket),
    Error(ClientIoError),
}

/// Events that are sent to a client.
#[derive(Clone, PartialEq, Eq, Debug)]
pub enum OutgoingClientEvent {
    Packet(RawPacket),
    Flush,
    SetCompression { threshold: i32 },
}

/// What happened on a client connection.
pub enum ClientIoEvent {
    /// The outgoing channel gave an event, or `None` when its sender is gone.
    Outgoing(Option<OutgoingClientEvent>),
    /// The connection gave a packet or an error, or `None` at its end.
    Incoming(Option<Result<RawPacket, IoError>>),
    /// The timeout passed with nothing else happening.
    TimedOut,
}

/// What the I/O loop does next.
pub enum ClientIoAction {
    /// Send a packet to the peer.
    Send(RawPacket),
    /// Flush what was sent.
    Flush,
    /// Start compressing packets from the given size on, which the loop
    /// cannot do yet.
    Compress(i32),
    /// Hand a received packet to the client's owner.
    Deliver(RawPacket),
    /// Hand an error to the client's owner and end the loop.
    Stop(ClientIoError),
}

/// Decides what the I/O loop does with one event. A compression request
/// also records its threshold in the codec; nothing else changes it.
pub fn client_io_step(codec: &mut RawPacketCodec, event: ClientIoEvent) -> (a: ClientIoAction)
    ensures
        match event {
            ClientIoEvent::Outgoing(Some(OutgoingClientEvent::Packet(p))) => a == ClientIoAction::Send(p)
                && final(codec).compression_threshold == old(codec).compression_threshold,
            ClientIoEvent::Outgoing(Some(OutgoingClientEvent::Flush)) => a == ClientIoAction::Flush
                && final(codec).compression_threshold == old(codec).compression_threshold,
            ClientIoEvent::Outgoing(Some(OutgoingClientEvent::SetCompression { threshold })) => a
                == ClientIoAction::Compress(threshold) && final(codec).compression_threshold == Some(
                threshold,
            ),
            ClientIoEvent::Outgoing(None) => a == ClientIoAction::Stop(ClientIoError::Dropped)
                && final(codec).compression_threshold == old(codec).compression_threshold,
            ClientIoEvent::Incoming(Some(Ok(p))) => a == ClientIoAction::Deliver(p)
                && final(codec).compression_threshold == old(codec).compression_threshold,
            ClientIoEvent::Incoming(Some(Err(e))) => a == ClientIoAction::Stop(ClientIoError::Io(e))
                && final(codec).compression_threshold == old(codec).compression_threshold,
            ClientIoEvent::Incoming(None) => a == ClientIoAction::Stop(ClientIoError::Disconnected)
                && final(codec).compression_threshold == old(codec).compression_threshold,
            ClientIoEvent::TimedOut => a == ClientIoAction::Stop(ClientIoError::TimedOut)
                && final(codec).compression_threshold == old(codec).compression_threshold,
        },
{
    match event {
        ClientIoEvent::Outgoing(Some(OutgoingClientEvent::Packet(packet))) => ClientIoAction::Send(packet),
        ClientIoEvent::Outgoing(Some(OutgoingClientEvent::Flush)) => ClientIoAction::Flush,
        ClientIoEvent::Outgoing(Some(OutgoingClientEvent::SetCompression { threshold })) => {
            codec.compression_threshold = Some(threshold);
            ClientIoAction::Compress(threshold)
        },
        ClientIoEvent::Outgoing(None) => ClientIoAction::Stop(ClientIoError::Dropped),
        ClientIoEvent::Incoming(Some(Ok(packet))) => ClientIoAction::Deliver(packet),
        ClientIoEvent::Incoming(Some(Err(e))) => ClientIoAction::Stop(ClientIoError::Io(e)),
        ClientIoEvent::Incoming(None) => ClientIoAction::Stop(ClientIoError::Disconnected),
        ClientIoEvent::TimedOut => ClientIoAction::Stop(ClientIoError::TimedOut),
    }
}

/// The events that send packets and then flush them: one `Packet` event per
/// packet, in order, then one `Flush`.
pub fn send_all_events(packets: Vec<RawPacket>) -> (events: Vec<OutgoingClientEvent>)
    ensures
        events@.len() == packets@.len() + 1,
        forall|i: int| 0 <= i < packets@.len() ==> events@[i] == OutgoingClientEvent::Packet(#[trigger] packets@[i]),
        events@.last() == OutgoingClientEvent::Flush,
{
    let mut events: Vec<OutgoingClientEvent> = Vec::new();
    let mut rest = packets;
    let ghost all = rest@;
    let mut reversed: Vec<RawPacket> = Vec::new();
    while rest.len() > 0
        invariant
            reversed@.len() + rest@.len() == all.len(),
            rest@ == all.take(rest@.len() as int),
            forall|j: int| 0 <= j < reversed@.len() ==> #[trigger] reversed@[j] == all[all.len() - 1 - j],
        decreases rest.len(),
    {
        let p = rest.pop().unwrap();
        reversed.push(p);
        assert(rest@ =~= all.take(rest@.len() as int));
    }
    while reversed.len() > 0
        invariant
            events@.len() + reversed@.len() == all.len(),
            forall|j: int| 0 <= j < reversed@.len() ==> #[trigger] reversed@[j] == all[all.len() - 1 - j],
            forall|j: int| 0 <= j < events@.len() ==> #[trigger] events@[j] == OutgoingClientEvent::Packet(all[j]),
        decreases reversed.len(),
    {
        let p = reversed.pop().unwrap();
        events.push(OutgoingClientEvent::Packet(p));
    }
    events.push(OutgoingClientEvent::Flush);
    events
}

} // verus!
