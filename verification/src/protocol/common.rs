//! Minecraft protocol packet definitions common to multiple states.

use crate::cursor::unread;
use crate::error::IoError;
use crate::io::args::{IntArgs, ListArgs, ListLength, OptionArgs, OptionTag, StringArgs};
use crate::io::mc::{read_outcome, then_write, write_outcome, McRead, McWrite};
use crate::uuid::Uuid;
use std::io::Cursor;
use vstd::prelude::*;

verus! {

/// A packet sent by the server to indicate that the client should keep the connection alive.
#[derive(Clone, PartialEq, Eq, Debug)]
pub struct KeepAlive(pub i64);

impl DeepView for KeepAlive {
    type V = i64;

    open spec fn deep_view(&self) -> i64 {
        self.0
    }
}

impl McRead for KeepAlive {
    type Args = ();

    open spec fn spec_read(args: (), input: Seq<u8>) -> Result<(i64, nat), IoError> {
        <i64 as McRead>::spec_read((IntArgs { varint: false }), input)
    }

    open spec fn read_ok(args: ()) -> bool {
        true
    }

    open spec fn progresses(args: ()) -> bool {
        true
    }

    proof fn lemma_read_len(args: (), input: Seq<u8>) {
        <i64 as McRead>::lemma_read_len((IntArgs { varint: false }), input);
    }

    fn read(reader: &mut Cursor<&[u8]>, args: &()) -> (r: Result<KeepAlive, IoError>) {
        Ok(KeepAlive(<i64 as McRead>::read(reader, &(IntArgs { varint: false }))?))
    }
}

impl McWrite for KeepAlive {
    type Args = ();

    open spec fn spec_write(v: i64, args: ()) -> Result<Seq<u8>, IoError> {
        <i64 as McWrite>::spec_write(v, (IntArgs { varint: false }))
    }

    fn write(&self, writer: &mut Vec<u8>, args: &()) -> (r: Result<(), IoError>) {
        self.0.write(writer, &(IntArgs { varint: false }))
    }
}

/// A packet sent by the server to indicate that the client should keep the connection alive.
#[derive(Clone, PartialEq, Eq, Debug)]
pub struct Ping(pub i32);

impl DeepView for Ping {
    type V = i32;

    open spec fn deep_view(&self) -> i32 {
        self.0
    }
}

impl McRead for Ping {
    type Args = ();

    open spec fn spec_read(args: (), input: Seq<u8>) -> Result<(i32, nat), IoError> {
        <i32 as McRead>::spec_read((IntArgs { varint: false }), input)
    }

    open spec fn read_ok(args: ()) -> bool {
        true
    }

    open spec fn progresses(args: ()) -> bool {
        true
    }

    proof fn lemma_read_len(args: (), input: Seq<u8>) {
        <i32 as McRead>::lemma_read_len((IntArgs { varint: false }), input);
    }

    fn read(reader: &mut Cursor<&[u8]>, args: &()) -> (r: Result<Ping, IoError>) {
        Ok(Ping(<i32 as McRead>::read(reader, &(IntArgs { varint: false }))?))
    }
}

impl McWrite for Ping {
    type Args = ();

    open spec fn spec_write(v: i32, args: ()) -> Result<Seq<u8>, IoError> {
        <i32 as McWrite>::spec_write(v, (IntArgs { varint: false }))
    }

    fn write(&self, writer: &mut Vec<u8>, args: &()) -> (r: Result<(), IoError>) {
        self.0.write(writer, &(IntArgs { varint: false }))
    }
}

/// A packet sent by the client to indicate that the client should keep the connection alive.
#[derive(Clone, PartialEq, Eq, Debug)]
pub struct PingRequest(pub i64);

impl DeepView for PingRequest {
    type V = i64;

    open spec fn deep_view(&self) -> i64 {
        self.0
    }
}

impl McRead for PingRequest {
    type Args = ();

    open spec fn spec_read(args: (), input: Seq<u8>) -> Result<(i64, nat), IoError> {
        <i64 as McRead>::spec_read((IntArgs { varint: false }), input)
    }

    open spec fn read_ok(args: ()) -> bool {
        true
    }

    open spec fn progresses(args: ()) -> bool {
        true
    }

    proof fn lemma_read_len(args: (), input: Seq<u8>) {
        <i64 as McRead>::lemma_read_len((IntArgs { varint: false }), input);
    }

    fn read(reader: &mut Cursor<&[u8]>, args: &()) -> (r: Result<PingRequest, IoError>) {
        Ok(PingRequest(<i64 as McRead>::read(reader, &(IntArgs { varint: false }))?))
    }
}

impl McWrite for PingRequest {
    type Args = ();

    open spec fn spec_write(v: i64, args: ()) -> Result<Seq<u8>, IoError> {
        <i64 as McWrite>::spec_write(v, (IntArgs { varint: false }))
    }

    fn write(&self, writer: &mut Vec<u8>, args: &()) -> (r: Result<(), IoError>) {
        self.0.write(writer, &(IntArgs { varint: false }))
    }
}

} // verus!
