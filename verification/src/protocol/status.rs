//! Minecraft protocol packet definitions in the `Status` state.

use crate::cursor::unread;
use crate::error::IoError;
use crate::io::args::{IntArgs, ListArgs, ListLength, OptionArgs, OptionTag, StringArgs};
use crate::io::mc::{read_outcome, then_write, write_outcome, McRead, McWrite};
use crate::io::version::ProtocolVersion;
use crate::uuid::Uuid;
use std::io::Cursor;
use vstd::prelude::*;

verus! {

/// A packet sent by the client to determine latency.
///
/// The server should respond with a [`Ping`] packet containing the same payload.
#[derive(Clone, PartialEq, Eq, Debug)]
pub struct Ping(pub i64);

impl DeepView for Ping {
    type V = i64;

    open spec fn deep_view(&self) -> i64 {
        self.0
    }
}

impl McRead for Ping {
    type Args = ();

    open spec fn spec_read(args: (), input: Seq<u8>) -> Result<(i64, nat), IoError> {
        <i64 as McRead>::spec_read((IntArgs { varint: false }), input)
    }

    open spec fn read_ok(args: ()) -> bool {
        true
    }

    open spec fn progresses(args: ()) -> bool {
        true
    }

    proof fn lemma_read_len(args: (), input: Seq<u8>) {
        <i64 as McRead>::lemma_read_len((IntArgs { varint: false }), input);
    }

    fn read(reader: &mut Cursor<&[u8]>, args: &()) -> (r: Result<Ping, IoError>) {
        Ok(Ping(<i64 as McRead>::read(reader, &(IntArgs { varint: false }))?))
    }
}

impl McWrite for Ping {
    type Args = ();

    open spec fn spec_write(v: i64, args: ()) -> Result<Seq<u8>, IoError> {
        <i64 as McWrite>::spec_write(v, (IntArgs { varint: false }))
    }

    fn write(&self, writer: &mut Vec<u8>, args: &()) -> (r: Result<(), IoError>) {
        self.0.write(writer, &(IntArgs { varint: false }))
    }
}

/// A packet sent by the client to request server MOTD, favicon, and player info.
#[derive(Clone, Copy, PartialEq, Eq, Debug, Default)]
pub struct Request;

impl DeepView for Request {
    type V = ();

    open spec fn deep_view(&self) -> () {
        ()
    }
}

impl McRead for Request {
    type Args = ();

    /// The packet has no contents: reading it takes no bytes.
    open spec fn spec_read(args: (), input: Seq<u8>) -> Result<((), nat), IoError> {
        Ok(((), 0))
    }

    open spec fn read_ok(args: ()) -> bool {
        true
    }

    open spec fn progresses(args: ()) -> bool {
        false
    }

    proof fn lemma_read_len(args: (), input: Seq<u8>) {
    }

    fn read(reader: &mut Cursor<&[u8]>, args: &()) -> (r: Result<Request, IoError>) {
        assert(unread(*reader).skip(0) =~= unread(*reader));
        Ok(Request)
    }
}

/// Version information in a status response.
#[derive(Clone, PartialEq, Eq, Debug)]
pub struct ResponseVersion {
    /// The name of the version of the server.
    pub name: String,
    /// The protocol version of the server.
    pub protocol: i32,
}

impl ResponseVersion {
    /// The version information for a protocol version: its name and number.
    pub fn from_version(version: ProtocolVersion) -> (r: ResponseVersion)
        ensures
            r.name@ == version.spec_name()@,
            r.protocol == version.number(),
    {
        ResponseVersion { name: String::from_str(version.name()), protocol: version.get() }
    }
}

/// Player information in a status response.
#[derive(Clone, PartialEq, Eq, Debug)]
pub struct ResponsePlayers {
    /// The maximum number of players allowed on the server at once.
    pub max: i32,
    /// The number of players currently on the server.
    pub online: i32,
    /// The players currently on the server.
    pub sample: Vec<ResponseProfile>,
}

/// Player profile information in a status response.
#[derive(Clone, PartialEq, Eq, Debug)]
pub struct ResponseProfile {
    /// The name of the player.
    pub name: String,
    /// The UUID of the player.
    pub id: Uuid,
}

impl ResponsePlayers {
    /// The player information of the default status response: at most 1000
    /// players, `online` of them (its low 32 bits, as an `i32`), no sample.
    pub fn default_for(online: usize) -> (p: ResponsePlayers)
        ensures
            p.max == 1000,
            p.online == online as i32,
            p.sample@.len() == 0,
    {
        ResponsePlayers { max: 1000, online: online as i32, sample: Vec::new() }
    }
}

/// The status response a client gets: its own, if it has one; else the
/// server-wide one, if there is one; else the default.
pub fn choose_response<R>(client: Option<R>, global: Option<R>, default: R) -> (r: R)
    ensures
        r == match client {
            Some(c) => c,
            None => match global {
                Some(g) => g,
                None => default,
            },
        },
{
    match client {
        Some(c) => c,
        None => match global {
            Some(g) => g,
            None => default,
        },
    }
}

} // verus!
