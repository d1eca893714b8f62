//! Minecraft protocol packet definitions in the `Handshake` state.

use crate::cursor::unread;
use crate::error::IoError;
use crate::io::args::{IntArgs, ListArgs, ListLength, OptionArgs, OptionTag, StringArgs};
use crate::io::mc::{read_outcome, then_write, write_outcome, McRead, McWrite};
use crate::uuid::Uuid;
use std::io::Cursor;
use vstd::prelude::*;

verus! {

/// A packet sent by the client to initiate a connection.
#[derive(Clone, PartialEq, Eq, Debug)]
pub struct Handshake {
    /// The protocol version of the client.
    pub protocol_version: i32,
    /// The address of the server the client is connecting to.
    pub server_address: String,
    /// The port of the server the client is connecting to.
    pub server_port: u16,
    /// The next state the client wants to transition to.
    ///
    /// `1` for status, `2` for login.
    pub next_state: i32,
}

/// The fields of a handshake in the order they are read, in pairs.
impl DeepView for Handshake {
    type V = ((i32, Seq<char>), (u16, i32));

    open spec fn deep_view(&self) -> ((i32, Seq<char>), (u16, i32)) {
        ((self.protocol_version, self.server_address@), (self.server_port, self.next_state))
    }
}

impl McRead for Handshake {
    type Args = ();

    open spec fn spec_read(args: (), input: Seq<u8>) -> Result<(((i32, Seq<char>), (u16, i32)), nat), IoError> {
        <((i32, String), (u16, i32)) as McRead>::spec_read((((IntArgs { varint: true }), (StringArgs { max_len: Some(255) })), ((), (IntArgs { varint: true }))), input)
    }

    open spec fn read_ok(args: ()) -> bool {
        true
    }

    open spec fn progresses(args: ()) -> bool {
        true
    }

    proof fn lemma_read_len(args: (), input: Seq<u8>) {
        <((i32, String), (u16, i32)) as McRead>::lemma_read_len((((IntArgs { varint: true }), (StringArgs { max_len: Some(255) })), ((), (IntArgs { varint: true }))), input);
    }

    fn read(reader: &mut Cursor<&[u8]>, args: &()) -> (r: Result<Handshake, IoError>) {
        let ((protocol_version, server_address), (server_port, next_state)) = <((i32, String), (u16, i32)) as McRead>::read(reader, &(((IntArgs { varint: true }), (StringArgs { max_len: Some(255) })), ((), (IntArgs { varint: true }))))?;
        Ok(Handshake { protocol_version, server_address, server_port, next_state })
    }
}

/// A handshake is read as the protocol version (a VarInt), the server
/// address (a string of at most 255 bytes), the port (2 big-endian bytes)
/// and the next state (a VarInt), in that order.
pub proof fn lemma_handshake_fields(h: Handshake)
    ensures
        h.deep_view().0.0 == h.protocol_version,
        h.deep_view().0.1 == h.server_address@,
        h.deep_view().1.0 == h.server_port,
        h.deep_view().1.1 == h.next_state,
{
}

} // verus!
