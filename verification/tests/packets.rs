use amethyst_proto::error::DecodeError;
use amethyst_proto::error::EncodeError;
use amethyst_proto::packets::Packet;
use amethyst_proto::packets::PlayerInfoAction;
use amethyst_proto::packets::PlayerInfoPlayer;
use amethyst_proto::packets::PlayerInfoProperties;
use amethyst_proto::ping::PingPacket;
use amethyst_proto::position::Position;
use amethyst_proto::reader::DataReader;
use amethyst_proto::state::ConnectionState;

fn read(id: i32, payload: &[u8], state: ConnectionState) -> Result<Packet, DecodeError> {
    let mut reader = DataReader::new(payload);
    Packet::read(id, &mut reader, state)
}

fn handshake_payload(next_state: u8) -> Vec<u8> {
    let mut payload = vec![0x2f, 0x09];
    payload.extend_from_slice(b"localhost");
    payload.extend_from_slice(&[0x63, 0xdd, next_state]);
    payload
}

#[test]
fn writes_encryption_request() {
    let packet = Packet::EncryptionRequest {
        server: String::new(),
        public_key: vec![1, 2, 3],
        verify_token: vec![9, 8, 7, 6],
    };
    assert_eq!(packet.serialize(), Ok(vec![0x01, 0x00, 0x03, 1, 2, 3, 0x04, 9, 8, 7, 6]));
}

#[test]
fn encryption_request_lengths_follow_the_data() {
    let packet = Packet::EncryptionRequest {
        server: "srv".to_string(),
        public_key: vec![0xaa; 162],
        verify_token: vec![],
    };
    let bytes = packet.serialize().unwrap();
    assert_eq!(&bytes[..7], &[0x01, 0x03, b's', b'r', b'v', 0xa2, 0x01]);
    assert_eq!(bytes.len(), 7 + 162 + 1);
    assert_eq!(bytes[bytes.len() - 1], 0x00);
}

#[test]
fn writes_disconnects() {
    let login = Packet::DisconnectLogin { reason: "bye".to_string() };
    assert_eq!(login.serialize(), Ok(vec![0x00, 0x03, b'b', b'y', b'e']));
    let play = Packet::DisconnectPlay { reason: "bye".to_string() };
    assert_eq!(play.serialize(), Ok(vec![0x40, 0x03, b'b', b'y', b'e']));
}

#[test]
fn writes_status_response_and_pong() {
    let status = Packet::StatusResponse { json: "{}".to_string() };
    assert_eq!(status.serialize(), Ok(vec![0x00, 0x02, b'{', b'}']));
    let pong = Packet::Pong { pong: 0x0102_0304_0506_0708 };
    assert_eq!(pong.serialize(), Ok(vec![0x01, 1, 2, 3, 4, 5, 6, 7, 8]));
    let negative = Packet::Pong { pong: -2 };
    assert_eq!(
        negative.serialize(),
        Ok(vec![0x01, 0xff, 0xff, 0xff, 0xff, 0xff, 0xff, 0xff, 0xfe])
    );
}

#[test]
fn writes_login_success_with_hyphenated_uuid() {
    let packet = Packet::LoginSuccess {
        uuid: [0, 1, 2, 3, 4, 5, 6, 7, 8, 9, 0x0a, 0x0b, 0x0c, 0x0d, 0x0e, 0x0f],
        nickname: "Notch".to_string(),
    };
    let mut expected = vec![0x02, 36];
    expected.extend_from_slice(b"00010203-0405-0607-0809-0a0b0c0d0e0f");
    expected.push(5);
    expected.extend_from_slice(b"Notch");
    assert_eq!(packet.serialize(), Ok(expected));
}

#[test]
fn writes_the_nil_uuid_and_upper_hex_bytes_in_lower_case() {
    let nil = Packet::LoginSuccess { uuid: [0; 16], nickname: String::new() };
    let mut expected = vec![0x02, 36];
    expected.extend_from_slice(b"00000000-0000-0000-0000-000000000000");
    expected.push(0);
    assert_eq!(nil.serialize(), Ok(expected));
    let high = Packet::LoginSuccess {
        uuid: [
            0x06, 0x9a, 0x79, 0xf4, 0x44, 0xe9, 0x47, 0x26, 0xa5, 0xbe, 0xfc, 0xa9, 0x0e, 0x38, 0xaa,
            0xf5,
        ],
        nickname: "x".to_string(),
    };
    let mut expected = vec![0x02, 36];
    expected.extend_from_slice(b"069a79f4-44e9-4726-a5be-fca90e38aaf5");
    expected.extend_from_slice(&[1, b'x']);
    assert_eq!(high.serialize(), Ok(expected));
}

#[test]
fn writes_keep_alive() {
    assert_eq!(Packet::KeepAlive { id: 300 }.serialize(), Ok(vec![0x00, 0xac, 0x02]));
    assert_eq!(Packet::KeepAlive { id: 0 }.serialize(), Ok(vec![0x00, 0x00]));
    assert_eq!(
        Packet::KeepAlive { id: -1 }.serialize(),
        Ok(vec![0x00, 0xff, 0xff, 0xff, 0xff, 0x0f])
    );
}

#[test]
fn writes_join_game() {
    let packet = Packet::JoinGame {
        entity_id: 1,
        gamemode: 0,
        dimension: -1,
        difficulty: 2,
        max_players: 20,
        level_type: "default".to_string(),
        reduced_debug_info: false,
    };
    let mut expected = vec![0x01, 0, 0, 0, 1, 0, 0xff, 2, 20, 7];
    expected.extend_from_slice(b"default");
    expected.push(0);
    assert_eq!(packet.serialize(), Ok(expected));
}

#[test]
fn writes_join_game_with_negative_entity_and_debug_flag() {
    let packet = Packet::JoinGame {
        entity_id: -2,
        gamemode: 3,
        dimension: 1,
        difficulty: 0,
        max_players: 255,
        level_type: String::new(),
        reduced_debug_info: true,
    };
    assert_eq!(packet.serialize(), Ok(vec![0x01, 0xff, 0xff, 0xff, 0xfe, 3, 1, 0, 255, 0, 1]));
}

#[test]
fn writes_spawn_position_and_held_item() {
    let spawn = Packet::SpawnPosition { location: Position { x: 1, y: 2, z: 3 } };
    assert_eq!(spawn.serialize(), Ok(vec![0x05, 0, 0, 0, 0x40, 0x08, 0, 0, 3]));
    let held = Packet::HeldItemChange { slot: 4 };
    assert_eq!(held.serialize(), Ok(vec![0x09, 4]));
}

#[test]
fn writes_player_info_add_player() {
    let packet = Packet::PlayerInfo {
        action_id: 0,
        players: vec![PlayerInfoPlayer {
            uuid: [0x11; 16],
            action: PlayerInfoAction::AddPlayer {
                name: "bob".to_string(),
                properties: vec![
                    PlayerInfoProperties {
                        name: "textures".to_string(),
                        value: "abc".to_string(),
                        signature: Some("sig".to_string()),
                    },
                    PlayerInfoProperties {
                        name: "n".to_string(),
                        value: "v".to_string(),
                        signature: None,
                    },
                ],
                gamemode: 1,
                ping: 42,
                display_name: Some("Bob".to_string()),
            },
        }],
    };
    let mut expected = vec![0x38, 0x00, 0x01];
    expected.extend_from_slice(&[0x11; 16]);
    expected.extend_from_slice(&[3, b'b', b'o', b'b', 2]);
    expected.push(8);
    expected.extend_from_slice(b"textures");
    expected.extend_from_slice(&[3, b'a', b'b', b'c', 1, 3, b's', b'i', b'g']);
    expected.extend_from_slice(&[1, b'n', 1, b'v', 0]);
    expected.extend_from_slice(&[1, 42, 1, 3, b'B', b'o', b'b']);
    assert_eq!(packet.serialize(), Ok(expected));
}

#[test]
fn writes_player_info_other_actions_in_order() {
    let packet = Packet::PlayerInfo {
        action_id: 2,
        players: vec![
            PlayerInfoPlayer {
                uuid: [1; 16],
                action: PlayerInfoAction::UpdateGameMode { gamemode: 2 },
            },
            PlayerInfoPlayer { uuid: [2; 16], action: PlayerInfoAction::UpdateLatency { ping: 300 } },
            PlayerInfoPlayer {
                uuid: [3; 16],
                action: PlayerInfoAction::UpdateDisplayName { display_name: None },
            },
            PlayerInfoPlayer {
                uuid: [4; 16],
                action: PlayerInfoAction::UpdateDisplayName { display_name: Some("x".to_string()) },
            },
            PlayerInfoPlayer { uuid: [5; 16], action: PlayerInfoAction::RemovePlayer },
        ],
    };
    let mut expected = vec![0x38, 0x02, 0x05];
    expected.extend_from_slice(&[1; 16]);
    expected.push(2);
    expected.extend_from_slice(&[2; 16]);
    expected.extend_from_slice(&[0xac, 0x02]);
    expected.extend_from_slice(&[3; 16]);
    expected.push(0);
    expected.extend_from_slice(&[4; 16]);
    expected.extend_from_slice(&[1, 1, b'x']);
    expected.extend_from_slice(&[5; 16]);
    assert_eq!(packet.serialize(), Ok(expected));
}

#[test]
fn writes_empty_player_info_and_player_without_properties() {
    let empty = Packet::PlayerInfo { action_id: 4, players: vec![] };
    assert_eq!(empty.serialize(), Ok(vec![0x38, 0x04, 0x00]));
    let bare = Packet::PlayerInfo {
        action_id: 0,
        players: vec![PlayerInfoPlayer {
            uuid: [7; 16],
            action: PlayerInfoAction::AddPlayer {
                name: String::new(),
                properties: vec![],
                gamemode: 0,
                ping: 0,
                display_name: None,
            },
        }],
    };
    let mut expected = vec![0x38, 0x00, 0x01];
    expected.extend_from_slice(&[7; 16]);
    expected.extend_from_slice(&[0, 0, 0, 0, 0]);
    assert_eq!(bare.serialize(), Ok(expected));
}

#[test]
fn inbound_packets_are_not_encodable() {
    let inbound = vec![
        Packet::Handshake {
            protocol_version: 47,
            server_address: "localhost".to_string(),
            server_port: 25565,
            next_state: 1,
        },
        Packet::StatusRequest,
        Packet::Ping { ping: 1 },
        Packet::LoginStart { nickname: "bob".to_string() },
        Packet::EncryptionResponse { shared_secret: vec![1], verify_token: vec![2] },
    ];
    for packet in inbound.iter() {
        assert_eq!(packet.serialize(), Err(EncodeError::NotEncodable));
    }
}

#[test]
fn serialize_is_deterministic() {
    let packet = Packet::PlayerInfo {
        action_id: 0,
        players: vec![PlayerInfoPlayer {
            uuid: [9; 16],
            action: PlayerInfoAction::AddPlayer {
                name: "alice".to_string(),
                properties: vec![PlayerInfoProperties {
                    name: "k".to_string(),
                    value: "v".to_string(),
                    signature: None,
                }],
                gamemode: 0,
                ping: 5,
                display_name: None,
            },
        }],
    };
    let first = packet.serialize();
    let second = packet.serialize();
    let third = packet.clone().serialize();
    assert!(first.is_ok());
    assert_eq!(first, second);
    assert_eq!(first, third);
}

#[test]
fn reads_handshake() {
    assert_eq!(
        read(0x00, &handshake_payload(1), ConnectionState::Handshaking),
        Ok(Packet::Handshake {
            protocol_version: 47,
            server_address: "localhost".to_string(),
            server_port: 25565,
            next_state: 1,
        })
    );
    assert_eq!(
        read(0x00, &handshake_payload(7), ConnectionState::Handshaking),
        Ok(Packet::Handshake {
            protocol_version: 47,
            server_address: "localhost".to_string(),
            server_port: 25565,
            next_state: 7,
        })
    );
}

#[test]
fn handshake_cut_short_fails_and_moves_nothing() {
    let payload = handshake_payload(1);
    let cut = &payload[..payload.len() - 1];
    let mut reader = DataReader::new(cut);
    assert_eq!(
        Packet::read(0x00, &mut reader, ConnectionState::Handshaking),
        Err(DecodeError::UnexpectedEof)
    );
    assert_eq!(reader.remaining(), cut.len());
    let port_cut = &payload[..payload.len() - 2];
    assert_eq!(read(0x00, port_cut, ConnectionState::Handshaking), Err(DecodeError::UnexpectedEof));
    assert_eq!(read(0x00, &payload[..5], ConnectionState::Handshaking), Err(DecodeError::UnexpectedEof));
    assert_eq!(read(0x00, &[], ConnectionState::Handshaking), Err(DecodeError::MalformedVarint));
}

#[test]
fn read_leaves_the_reader_behind_the_packet() {
    let mut payload = handshake_payload(2);
    payload.extend_from_slice(&[0xaa, 0xbb]);
    let mut reader = DataReader::new(&payload);
    assert!(Packet::read(0x00, &mut reader, ConnectionState::Handshaking).is_ok());
    assert_eq!(reader.remaining(), 2);
    assert_eq!(reader.read_u16(), Ok(0xaabb));
}

#[test]
fn reads_status_packets() {
    assert_eq!(read(0x00, &[], ConnectionState::Status), Ok(Packet::StatusRequest));
    assert_eq!(
        read(0x01, &[0, 0, 0, 0, 0, 0, 0x30, 0x39], ConnectionState::Status),
        Ok(Packet::Ping { ping: 12345 })
    );
    assert_eq!(
        read(0x01, &[0xff; 8], ConnectionState::Status),
        Ok(Packet::Ping { ping: -1 })
    );
    assert_eq!(read(0x01, &[0; 7], ConnectionState::Status), Err(DecodeError::UnexpectedEof));
}

#[test]
fn reads_login_start() {
    assert_eq!(
        read(0x00, &[3, b'b', b'o', b'b'], ConnectionState::Login),
        Ok(Packet::LoginStart { nickname: "bob".to_string() })
    );
    assert_eq!(read(0x00, &[3, 0xff, 0xfe, 0xfd], ConnectionState::Login), Err(DecodeError::InvalidValue));
    assert_eq!(read(0x00, &[4, b'b', b'o', b'b'], ConnectionState::Login), Err(DecodeError::UnexpectedEof));
}

#[test]
fn reads_encryption_response() {
    assert_eq!(
        read(0x01, &[2, 0xaa, 0xbb, 3, 1, 2, 3], ConnectionState::Login),
        Ok(Packet::EncryptionResponse { shared_secret: vec![0xaa, 0xbb], verify_token: vec![1, 2, 3] })
    );
    assert_eq!(
        read(0x01, &[0, 0], ConnectionState::Login),
        Ok(Packet::EncryptionResponse { shared_secret: vec![], verify_token: vec![] })
    );
    assert_eq!(read(0x01, &[2, 0xaa, 0xbb, 3, 1, 2], ConnectionState::Login), Err(DecodeError::UnexpectedEof));
    assert_eq!(read(0x01, &[2, 0xaa, 0xbb], ConnectionState::Login), Err(DecodeError::MalformedVarint));
    assert_eq!(read(0x01, &[5, 0xaa], ConnectionState::Login), Err(DecodeError::UnexpectedEof));
}

#[test]
fn reads_keep_alive_during_play() {
    assert_eq!(read(0x00, &[0xac, 0x02], ConnectionState::Play), Ok(Packet::KeepAlive { id: 300 }));
    assert_eq!(read(0x00, &[], ConnectionState::Play), Err(DecodeError::MalformedVarint));
}

#[test]
fn keep_alive_round_trips() {
    for id in [0, 1, 127, 128, i32::MAX, -1, i32::MIN].iter() {
        let bytes = Packet::KeepAlive { id: *id }.serialize().unwrap();
        assert_eq!(bytes[0], 0x00);
        assert_eq!(read(0x00, &bytes[1..], ConnectionState::Play), Ok(Packet::KeepAlive { id: *id }));
    }
}

#[test]
fn ids_without_a_packet_are_unknown() {
    assert_eq!(read(0x01, &handshake_payload(1), ConnectionState::Handshaking), Err(DecodeError::UnknownPacketId));
    assert_eq!(read(-1, &[], ConnectionState::Handshaking), Err(DecodeError::UnknownPacketId));
    assert_eq!(read(0x02, &[], ConnectionState::Status), Err(DecodeError::UnknownPacketId));
    assert_eq!(read(0x02, &[0], ConnectionState::Login), Err(DecodeError::UnknownPacketId));
    assert_eq!(read(0x7f, &[0], ConnectionState::Login), Err(DecodeError::UnknownPacketId));
    assert_eq!(read(0x01, &[0], ConnectionState::Play), Err(DecodeError::UnknownPacketId));
    assert_eq!(read(0x40, &[0], ConnectionState::Play), Err(DecodeError::UnknownPacketId));
}

#[test]
fn status_request_in_login_state_does_not_decode() {
    let result = read(0x00, &[], ConnectionState::Login);
    assert!(result.is_err());
    assert!(!matches!(result, Ok(Packet::LoginStart { .. })));
    assert!(!matches!(result, Ok(Packet::StatusRequest)));
    assert_eq!(result, Err(DecodeError::MalformedVarint));
}

#[test]
fn the_phase_decides_what_an_id_means() {
    let payload = [3, b'b', b'o', b'b'];
    assert_eq!(read(0x00, &payload, ConnectionState::Status), Ok(Packet::StatusRequest));
    assert_eq!(
        read(0x00, &payload, ConnectionState::Login),
        Ok(Packet::LoginStart { nickname: "bob".to_string() })
    );
    assert_eq!(read(0x00, &payload, ConnectionState::Play), Ok(Packet::KeepAlive { id: 3 }));
    let ping = [0, 0, 0, 0, 0, 0, 0, 1];
    assert_eq!(read(0x01, &ping, ConnectionState::Status), Ok(Packet::Ping { ping: 1 }));
    assert_eq!(
        read(0x01, &ping, ConnectionState::Login),
        Ok(Packet::EncryptionResponse { shared_secret: vec![], verify_token: vec![] })
    );
}

#[test]
fn reads_a_ping_packet() {
    let bytes = [0, 0, 0, 0, 0, 0, 0x30, 0x39, 0x55];
    let mut reader = DataReader::new(&bytes);
    assert_eq!(PingPacket::read(&mut reader), Ok(PingPacket { ping: 12345 }));
    assert_eq!(reader.remaining(), 1);
    assert_eq!(PingPacket::read(&mut reader), Err(DecodeError::UnexpectedEof));
    assert_eq!(reader.remaining(), 1);
    assert_eq!(PingPacket { ping: 12345 }.into_packet(), Packet::Ping { ping: 12345 });
}
