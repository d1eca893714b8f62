//! An untyped, raw Minecraft packet.

use crate::cursor::{cursor_data, cursor_new, cursor_pos};
use crate::io::util::varint_bytes;
use crate::varint::var_i32_bytes;
use std::io::Cursor;
use vstd::prelude::*;

verus! {

/// A single packet in the Minecraft protocol.
///
/// # [Packet format][1]
/// | Field Name | Field Type | Notes                        |
/// |------------|------------|------------------------------|
/// | Length     | `VarInt`   | Length of (Packet ID + Data) |
/// | Packet ID  | `VarInt`   |                              |
/// | Data       | Byte Array | Contents depend on Packet ID |
///
/// [1]: https://wiki.vg/Protocol#Packet_format
#[derive(Clone, PartialEq, Eq, Debug)]
pub struct RawPacket {
    /// The ID of the packet.
    pub id: i32,
    /// The packet's contents.
    pub body: Vec<u8>,
}

/// The Length field of a packet: the size of its VarInt ID plus its body.
pub open spec fn packet_len(id: i32, body: Seq<u8>) -> nat {
    var_i32_bytes(id).len() + body.len()
}

impl RawPacket {
    /// Returns the length of the packet: the Length field of the packet
    /// format.
    pub fn len(&self) -> (n: usize)
        requires
            self.body@.len() + 5 <= usize::MAX,
        ensures
            n == packet_len(self.id, self.body@),
    {
        let id_len = varint_bytes(self.id);
        let body_len = self.body.len();
        id_len + body_len
    }

    /// Returns a reader over this packet's body.
    pub fn reader(&self) -> (r: Cursor<&[u8]>)
        ensures
            cursor_data(r) == self.body@,
            cursor_pos(r) == 0,
    {
        cursor_new(self.body.as_slice())
    }
}

} // verus!

pub mod codec;
