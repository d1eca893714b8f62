use minecrevy::io::packet::RawPacket;
use minecrevy::net::state::ProtocolQueue;
use std::collections::{HashMap, VecDeque};

fn packet(id: i32, tag: u8) -> RawPacket {
    RawPacket { id, body: vec![tag] }
}

#[test]
fn packets_come_out_per_id_in_order() {
    let mut queue: HashMap<i32, VecDeque<RawPacket>> = HashMap::new();
    queue.push(packet(1, 10));
    queue.push(packet(2, 20));
    queue.push(packet(1, 11));
    assert_eq!(queue.pop(1), Some(packet(1, 10)));
    assert_eq!(queue.pop(2), Some(packet(2, 20)));
    assert_eq!(queue.pop(1), Some(packet(1, 11)));
    assert_eq!(queue.pop(1), None);
    assert_eq!(queue.pop(3), None);
}

#[test]
fn the_unit_queue_keeps_nothing() {
    let mut queue = ();
    queue.push(packet(1, 1));
    assert_eq!(queue.pop(1), None);
}

use minecrevy::error::IoError;
use minecrevy::io::args::IntArgs;
use minecrevy::net::state::{encode_body, read_queued, take_packet};

#[test]
fn take_packet_prefers_the_queue() {
    let mut queue: HashMap<i32, VecDeque<RawPacket>> = HashMap::new();
    queue.push(packet(1, 10));
    let mut incoming: VecDeque<RawPacket> = VecDeque::from(vec![packet(1, 11)]);
    assert_eq!(take_packet(&mut queue, &mut incoming, 1), Some(packet(1, 10)));
    assert_eq!(incoming.len(), 1);
}

#[test]
fn take_packet_stores_what_comes_before() {
    let mut queue: HashMap<i32, VecDeque<RawPacket>> = HashMap::new();
    let mut incoming: VecDeque<RawPacket> = VecDeque::from(vec![packet(2, 20), packet(3, 30), packet(1, 10), packet(2, 21)]);
    assert_eq!(take_packet(&mut queue, &mut incoming, 1), Some(packet(1, 10)));
    assert_eq!(incoming, VecDeque::from(vec![packet(2, 21)]));
    assert_eq!(queue.pop(2), Some(packet(2, 20)));
    assert_eq!(queue.pop(3), Some(packet(3, 30)));
    // none with the ID: everything is stored
    assert_eq!(take_packet(&mut queue, &mut incoming, 9), None);
    assert!(incoming.is_empty());
    assert_eq!(queue.pop(2), Some(packet(2, 21)));
}

#[test]
fn read_queued_decodes_the_body() {
    let mut queue: HashMap<i32, VecDeque<RawPacket>> = HashMap::new();
    let mut incoming: VecDeque<RawPacket> = VecDeque::from(vec![RawPacket { id: 5, body: vec![0xAC, 0x02] }]);
    let r: Option<Result<i32, IoError>> = read_queued(&mut queue, &mut incoming, 5, &IntArgs { varint: true });
    assert_eq!(r, Some(Ok(300)));
    let mut incoming: VecDeque<RawPacket> = VecDeque::from(vec![RawPacket { id: 5, body: vec![0x80] }]);
    let r: Option<Result<i32, IoError>> = read_queued(&mut queue, &mut incoming, 5, &IntArgs { varint: true });
    assert_eq!(r, Some(Err(IoError::UnexpectedEof)));
    let r: Option<Result<i32, IoError>> = read_queued(&mut queue, &mut incoming, 5, &IntArgs { varint: true });
    assert_eq!(r, None);
}

#[test]
fn encode_body_writes_the_packet() {
    let p = encode_body(&300i32, 7, &IntArgs { varint: true }).unwrap();
    assert_eq!(p, RawPacket { id: 7, body: vec![0xAC, 0x02] });
}

#[test]
fn read_queued_keeps_the_packets_around_the_one_read() {
    let mut queue: HashMap<i32, VecDeque<RawPacket>> = HashMap::new();
    let mut incoming: VecDeque<RawPacket> = VecDeque::from(vec![
        packet(2, 20),
        RawPacket { id: 5, body: vec![0x01] },
        packet(3, 30),
    ]);
    let r: Option<Result<i32, IoError>> = read_queued(&mut queue, &mut incoming, 5, &IntArgs { varint: true });
    assert_eq!(r, Some(Ok(1)));
    assert_eq!(incoming, VecDeque::from(vec![packet(3, 30)]));
    assert_eq!(queue.pop(2), Some(packet(2, 20)));
    assert_eq!(queue.pop(2), None);
}
