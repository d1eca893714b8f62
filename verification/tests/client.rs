use minecrevy::net::server::{listen_step, ListenAction, ListenEvent, ServerError};
use minecrevy::error::IoError;
use minecrevy::io::codec::{CodecSettings, RawPacketCodec};
use minecrevy::io::packet::RawPacket as IoPacket;
use minecrevy::net::client::{client_io_step, send_all_events, ClientIoAction, ClientIoError, ClientIoEvent, OutgoingClientEvent};
use minecrevy::key::Key;
use minecrevy::net::login::{finish_login, FinishedLoginHandlers, LoginFinish, LoginHandler, LoginHandlers, Player, PlayerInfo};
use minecrevy::net::packet::{RawPacket, RawPacketCodec as NetCodec};
use minecrevy::net::raw::{raw_client_step, PacketMeta, RawClientAction, RawClientEvent, WriteOp};
use minecrevy::uuid::Uuid;
use std::sync::Arc;

fn packet(id: i32) -> RawPacket {
    RawPacket { id, data: vec![] }
}

#[test]
fn client_loop_decisions() {
    let mut codec = NetCodec { compression_threshold: None };
    assert!(matches!(client_io_step(&mut codec, ClientIoEvent::Outgoing(Some(OutgoingClientEvent::Packet(packet(1))))), ClientIoAction::Send(p) if p == packet(1)));
    assert!(matches!(client_io_step(&mut codec, ClientIoEvent::Outgoing(Some(OutgoingClientEvent::Flush))), ClientIoAction::Flush));
    assert!(matches!(client_io_step(&mut codec, ClientIoEvent::Outgoing(None)), ClientIoAction::Stop(ClientIoError::Dropped)));
    assert!(matches!(client_io_step(&mut codec, ClientIoEvent::Incoming(Some(Ok(packet(2))))), ClientIoAction::Deliver(p) if p == packet(2)));
    assert!(matches!(client_io_step(&mut codec, ClientIoEvent::Incoming(Some(Err(IoError::InvalidData)))), ClientIoAction::Stop(ClientIoError::Io(IoError::InvalidData))));
    assert!(matches!(client_io_step(&mut codec, ClientIoEvent::Incoming(None)), ClientIoAction::Stop(ClientIoError::Disconnected)));
    assert!(matches!(client_io_step(&mut codec, ClientIoEvent::TimedOut), ClientIoAction::Stop(ClientIoError::TimedOut)));
    assert_eq!(codec.compression_threshold, None);
    assert!(matches!(client_io_step(&mut codec, ClientIoEvent::Outgoing(Some(OutgoingClientEvent::SetCompression { threshold: 256 }))), ClientIoAction::Compress(256)));
    assert_eq!(codec.compression_threshold, Some(256));
}

#[test]
fn send_all_flushes_once_at_the_end() {
    let events = send_all_events(vec![packet(1), packet(2)]);
    assert_eq!(events, vec![OutgoingClientEvent::Packet(packet(1)), OutgoingClientEvent::Packet(packet(2)), OutgoingClientEvent::Flush]);
    assert_eq!(send_all_events(vec![]), vec![OutgoingClientEvent::Flush]);
}

#[test]
fn raw_client_decisions() {
    let mut codec = RawPacketCodec::new(Arc::new(CodecSettings::default()));
    let p = IoPacket { id: 1, body: vec![2] };
    assert!(matches!(raw_client_step(&mut codec, RawClientEvent::Incoming(Some(Ok(p.clone())))), RawClientAction::Deliver(q) if q == p));
    assert!(matches!(raw_client_step(&mut codec, RawClientEvent::Incoming(Some(Err(IoError::UnexpectedEof)))), RawClientAction::Report(IoError::UnexpectedEof)));
    assert!(matches!(raw_client_step(&mut codec, RawClientEvent::Incoming(None)), RawClientAction::Stop));
    assert!(matches!(raw_client_step(&mut codec, RawClientEvent::Outgoing(Some(WriteOp::Packet(p.clone())))), RawClientAction::Send(q) if q == p));
    assert!(matches!(raw_client_step(&mut codec, RawClientEvent::Outgoing(Some(WriteOp::Flush))), RawClientAction::Flush));
    let before = codec.clone();
    assert!(matches!(raw_client_step(&mut codec, RawClientEvent::Outgoing(Some(WriteOp::Meta(PacketMeta::EnableCompression)))), RawClientAction::Continue));
    assert_ne!(codec, before);
    assert!(matches!(raw_client_step(&mut codec, RawClientEvent::Outgoing(None)), RawClientAction::Stop));
}

#[test]
fn offline_players_get_a_name_based_uuid() {
    let info = PlayerInfo { name: String::from("Notch"), id: None };
    let player = Player::from_info(&info);
    assert_eq!(player.name, "Notch");
    assert_eq!(player.id, Uuid::from_u128(0xc1907ab3d02433668fd63ec8f4db0434));
    let info = PlayerInfo { name: String::from("Notch"), id: Some(Uuid::from_u128(7)) };
    assert_eq!(Player::from_info(&info).id, Uuid::from_u128(7));
}

#[test]
fn listening_binds_then_accepts_until_an_error() {
    assert!(matches!(listen_step::<u8, &str>(ListenEvent::Bound(Ok(()))), ListenAction::Accept));
    assert!(matches!(
        listen_step::<u8, &str>(ListenEvent::Bound(Err("in use"))),
        ListenAction::Stop(ServerError::Bind("in use"))
    ));
    assert!(matches!(listen_step::<u8, &str>(ListenEvent::Accepted(Ok(7))), ListenAction::Connected(7)));
    assert!(matches!(
        listen_step::<u8, &str>(ListenEvent::Accepted(Err("reset"))),
        ListenAction::Stop(ServerError::Accept("reset"))
    ));
}

fn handler(path: &str) -> LoginHandler {
    LoginHandler(Key::new("minecrevy", path).unwrap())
}

#[test]
fn login_finishes_once_every_handler_has() {
    let mut all = LoginHandlers::default();
    all.insert(handler("a"));
    all.insert(handler("b"));
    let mut done = FinishedLoginHandlers::default();
    assert!(!done.is_finished(&all));
    done.finish(handler("a"));
    done.finish(handler("a"));
    assert!(!done.is_finished(&all));
    done.finish(handler("b"));
    assert!(done.is_finished(&all));
    done.finish(handler("c"));
    assert!(done.is_finished(&all));
    assert!(FinishedLoginHandlers::default().is_finished(&LoginHandlers::default()));
}

#[test]
fn finishing_login_sends_success_once_handlers_are_done() {
    let info = PlayerInfo { name: String::from("Steve"), id: None };
    let mut all = LoginHandlers::default();
    all.insert(handler("a"));
    let mut done = FinishedLoginHandlers::default();
    assert!(matches!(finish_login(&info, &done, &all, true), LoginFinish::Waiting));
    done.finish(handler("a"));
    assert!(matches!(finish_login(&info, &done, &all, false), LoginFinish::MissingPlayRegistry));
    match finish_login(&info, &done, &all, true) {
        LoginFinish::Success(player, success) => {
            assert_eq!(player.name, "Steve");
            assert_eq!(player.id, Player::from_info(&info).id);
            assert_eq!(success.uuid, player.id);
            assert_eq!(success.username, "Steve");
            assert!(success.properties.is_empty());
        }
        _ => panic!("login did not succeed"),
    }
}

#[test]
fn player_info_from_a_login_start() {
    let start = minecrevy::protocol::login::LoginStart { username: String::from("Alex"), uuid: Uuid::from_u128(7) };
    let info = PlayerInfo::from_start(start);
    assert_eq!(info.name, "Alex");
    assert_eq!(info.id, Some(Uuid::from_u128(7)));
}
