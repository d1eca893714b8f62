use minecrevy::error::IoError;
use minecrevy::io::mc::{McRead, McWrite};
use minecrevy::protocol::common::KeepAlive;
use minecrevy::protocol::config::{AcknowledgeFinish, ClientInformation, DataPack, Finish, KnownDataPacks, RegistryDataEntry};
use minecrevy::net::handshake::{handshake_step, ClientInfo, HandshakeOutcome, NextState};
use minecrevy::net::version::ProtocolVersion;
use minecrevy::protocol::handshake::Handshake;
use minecrevy::protocol::login::{LoginStart, LoginSuccess, Property};
use minecrevy::protocol::play::{ConfirmTeleport, GameEvent, Login, PlayerAbilities, SetPlayerOnGround, SyncPlayerPositionFlags, Vec3Bits};
use minecrevy::io::version::ProtocolVersion as IoVersion;
use minecrevy::protocol::status::{choose_response, Ping, Request, ResponsePlayers, ResponseVersion};
use minecrevy::uuid::Uuid;
use std::io::Cursor;

fn written<T: McWrite<Args = ()>>(v: &T) -> Result<Vec<u8>, IoError> {
    let mut out = Vec::new();
    v.write(&mut out, &())?;
    Ok(out)
}

fn read<T: McRead<Args = ()>>(bytes: &[u8]) -> Result<T, IoError> {
    T::read(&mut Cursor::new(bytes), &())
}

#[test]
fn keep_alive_and_ping() {
    assert_eq!(written(&KeepAlive(1)).unwrap(), vec![0, 0, 0, 0, 0, 0, 0, 1]);
    assert_eq!(read::<KeepAlive>(&[0, 0, 0, 0, 0, 0, 0, 2]).unwrap(), KeepAlive(2));
    assert_eq!(read::<Ping>(&[0xFF; 8]).unwrap(), Ping(-1));
    assert_eq!(read::<Ping>(&[0; 7]), Err(IoError::UnexpectedEof));
}

#[test]
fn handshake_fields() {
    let bytes = [0xFA, 0x05, 9, b'l', b'o', b'c', b'a', b'l', b'h', b'o', b's', b't', 0x63, 0xDD, 0x02];
    let h = read::<Handshake>(&bytes).unwrap();
    assert_eq!(h.protocol_version, 762);
    assert_eq!(h.server_address, "localhost");
    assert_eq!(h.server_port, 25565);
    assert_eq!(h.next_state, 2);
}

#[test]
fn handshake_address_is_at_most_255_bytes() {
    let mut bytes = vec![0x01, 0x80, 0x02];
    bytes.extend(std::iter::repeat(b'a').take(256));
    bytes.extend([0, 0, 1]);
    assert_eq!(read::<Handshake>(&bytes), Err(IoError::InvalidData));
}

#[test]
fn login_start_username_is_at_most_16_bytes() {
    let mut bytes = vec![5, b'N', b'o', b't', b'c', b'h'];
    bytes.extend(0x1234u128.to_be_bytes());
    let start = read::<LoginStart>(&bytes).unwrap();
    assert_eq!(start.username, "Notch");
    assert_eq!(start.uuid, Uuid::from_u128(0x1234));
    let mut long = vec![17];
    long.extend([b'a'; 17]);
    long.extend([0u8; 16]);
    assert_eq!(read::<LoginStart>(&long), Err(IoError::InvalidData));
}

#[test]
fn empty_packets_read_nothing() {
    assert_eq!(read::<Request>(&[]).unwrap(), Request);
    assert_eq!(read::<AcknowledgeFinish>(&[1, 2]).unwrap(), AcknowledgeFinish);
    assert_eq!(written(&Finish).unwrap(), Vec::<u8>::new());
}

#[test]
fn data_packs() {
    let pack = DataPack { namespace: String::from("minecraft"), id: String::from("core"), version: String::from("1.20") };
    let packs = KnownDataPacks { packs: vec![pack.clone()] };
    let bytes = written(&packs).unwrap();
    assert_eq!(bytes[0], 1);
    assert_eq!(read::<KnownDataPacks>(&bytes).unwrap(), packs);
    assert_eq!(read::<DataPack>(&bytes[1..]).unwrap(), pack);
}

#[test]
fn client_information_fields() {
    let bytes = [5, b'e', b'n', b'_', b'u', b's', 12, 0, 1, 0x7F, 1, 0, 1];
    let info = read::<ClientInformation>(&bytes).unwrap();
    assert_eq!(info.locale, "en_us");
    assert_eq!(info.view_distance, 12);
    assert_eq!(info.chat_mode, 0);
    assert!(info.chat_colors);
    assert_eq!(info.displayed_skin_parts, 0x7F);
    assert_eq!(info.main_hand, 1);
    assert!(!info.enable_text_filtering);
    assert!(info.allow_server_listings);
}

#[test]
fn login_success_and_properties() {
    let success = LoginSuccess {
        uuid: Uuid::from_u128(1),
        username: String::from("Steve"),
        properties: vec![Property { name: String::from("t"), value: String::from("v"), signature: None }],
    };
    let bytes = written(&success).unwrap();
    let mut expected = 1u128.to_be_bytes().to_vec();
    expected.extend([5, b'S', b't', b'e', b'v', b'e', 1, 1, b't', 1, b'v', 0]);
    assert_eq!(bytes, expected);
    let long = LoginSuccess { uuid: Uuid::from_u128(1), username: "a".repeat(17), properties: vec![] };
    assert_eq!(written(&long), Err(IoError::InvalidData));
    let signed = Property { name: String::new(), value: String::new(), signature: Some(String::from("s")) };
    assert_eq!(written(&signed).unwrap(), vec![0, 0, 1, 1, b's']);
}

#[test]
fn play_packets() {
    assert_eq!(read::<ConfirmTeleport>(&[0xAC, 0x02]).unwrap().teleport_id, 300);
    assert!(read::<SetPlayerOnGround>(&[1]).unwrap().on_ground);
    let event = GameEvent::wait_on_chunks();
    assert_eq!(written(&event).unwrap(), vec![13, 0, 0, 0, 0]);
    assert_eq!(written(&Vec3Bits { x: 1.0f32.to_bits(), y: 0, z: 0 }).unwrap()[..4], 1.0f32.to_be_bytes());
    assert_eq!(SyncPlayerPositionFlags::Yaw.bits(), 0x10);
    assert_eq!(PlayerAbilities::InstantBreak.bits(), 0x08);
}

#[test]
fn login_packet_fields_in_order() {
    let login = Login {
        entity_id: 1,
        is_hardcore: false,
        dimensions: vec![String::from("a")],
        max_players: 20,
        view_distance: 10,
        simulation_distance: 8,
        reduced_debug_info: false,
        enable_respawn_screen: true,
        do_limited_crafting: false,
        dimension_type: 0,
        dimension_name: String::from("a"),
        hashed_seed: 7,
        game_mode: 1,
        previous_game_mode: -1,
        is_debug: false,
        is_flat: true,
        death_dimension_name_and_location: None,
        portal_cooldown: 0,
        enforces_secure_chat: true,
    };
    let expected = vec![
        0, 0, 0, 1, 0, 1, 1, b'a', 20, 10, 8, 0, 1, 0, 0, 1, b'a', 0, 0, 0, 0, 0, 0, 0, 7, 1, 0xFF, 0, 1, 0, 0, 1,
    ];
    assert_eq!(written(&login).unwrap(), expected);
    let died = Login {
        death_dimension_name_and_location: Some((String::from("a"), Vec3Bits { x: 0, y: 0, z: 0 })),
        ..login.clone()
    };
    assert_eq!(written(&died).unwrap().len(), expected.len() + 2 + 12);
}

#[test]
fn registry_entry_headers() {
    let entry: RegistryDataEntry<u8> = RegistryDataEntry { entry_id: String::from("x"), data: Some(1) };
    let mut out = Vec::new();
    entry.write_header(&mut out).unwrap();
    assert_eq!(out, vec![1, b'x', 1]);
    let mut c = Cursor::new(&out[..]);
    assert_eq!(RegistryDataEntry::<u8>::read_header(&mut c).unwrap(), (String::from("x"), true));
}

#[test]
fn client_info_keeps_what_the_handshake_announced() {
    let h = Handshake { protocol_version: 763, server_address: String::from("localhost"), server_port: 25565, next_state: 2 };
    let info = ClientInfo::from(h);
    assert_eq!(info.version, ProtocolVersion(763));
    assert_eq!(info.server_address, "localhost");
    assert_eq!(info.server_port, 25565);
}

#[test]
fn status_version_names_the_protocol_version() {
    let v = ResponseVersion::from_version(IoVersion::V1_19_4);
    assert_eq!(v.name, "1.19.4");
    assert_eq!(v.protocol, 762);
}

#[test]
fn status_response_prefers_the_clients_then_the_global_one() {
    assert_eq!(choose_response(Some(1), Some(2), 3), 1);
    assert_eq!(choose_response(None, Some(2), 3), 2);
    assert_eq!(choose_response(None, None, 3), 3);
    let p = ResponsePlayers::default_for(7);
    assert_eq!((p.max, p.online, p.sample.len()), (1000, 7, 0));
}

#[test]
fn handshake_enters_the_flow_asked_for() {
    let h = |next: i32| Handshake { protocol_version: 763, server_address: String::from("a"), server_port: 1, next_state: next };
    match handshake_step(h(1), true, false) {
        HandshakeOutcome::Enter(NextState::Status, info) => assert_eq!(info.version, ProtocolVersion(763)),
        _ => panic!("not the status flow"),
    }
    assert!(matches!(handshake_step(h(2), true, false), HandshakeOutcome::MissingRegistry(NextState::Login)));
    assert!(matches!(handshake_step(h(2), false, true), HandshakeOutcome::Enter(NextState::Login, _)));
    assert!(matches!(handshake_step(h(3), true, true), HandshakeOutcome::InvalidNextState));
    assert_eq!(NextState::from_id(1), Some(NextState::Status));
    assert_eq!(NextState::from_id(0), None);
}
