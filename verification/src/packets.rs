//! The packets of the handshake, status, login and play phases: what each
//! holds, how the inbound ones are read and how the outbound ones are
//! written.

use crate::bigendian::be_bytes;
use crate::bigendian::unsigned_of;
use crate::error::DecodeError;
use crate::error::EncodeError;
use crate::identity::hyphenated;
use crate::identity::hyphenated_text;
use crate::identity::text_view;
use crate::identity::PlayerId;
use crate::position::Position;
use crate::reader::advanced_view;
use crate::reader::parse_i64;
use crate::reader::parse_prefixed;
use crate::reader::parse_string;
use crate::reader::parse_u16;
use crate::reader::parse_u8;
use crate::reader::DataReader;
use crate::state::ConnectionState;
use crate::varint::parse_varint;
use crate::varint::varint_bytes;
use crate::writer::bool_bytes;
use crate::writer::fits;
use crate::writer::position_bytes;
use crate::writer::prefixed_bytes;
use crate::writer::string_bytes;
use crate::writer::wrote;
use crate::writer::DataWriter;
use vstd::prelude::*;
use vstd::utf8::encode_utf8;

verus! {

/// One property of a player's profile, as the roster shows it.
#[derive(Clone, Debug, PartialEq, Eq)]
pub struct PlayerInfoProperties {
    pub name: String,
    pub value: String,
    pub signature: Option<String>,
}

/// What is done to one entry of the player roster.
#[derive(Clone, Debug, PartialEq, Eq)]
pub enum PlayerInfoAction {
    AddPlayer {
        name: String,
        properties: Vec<PlayerInfoProperties>,
        gamemode: i32,
        ping: i32,
        display_name: Option<String>,
    },
    UpdateGameMode { gamemode: i32 },
    UpdateLatency { ping: i32 },
    UpdateDisplayName { display_name: Option<String> },
    RemovePlayer,
}

/// One entry of a roster update.
#[derive(Clone, Debug, PartialEq, Eq)]
pub struct PlayerInfoPlayer {
    pub uuid: PlayerId,
    pub action: PlayerInfoAction,
}

/// A protocol message. Length-prefixed fields hold their data only; the
/// length on the wire is that of the data.
#[derive(Clone, Debug, PartialEq, Eq)]
pub enum Packet {
    Handshake { protocol_version: i32, server_address: String, server_port: u16, next_state: u8 },
    StatusRequest,
    Ping { ping: i64 },
    StatusResponse { json: String },
    Pong { pong: i64 },
    LoginStart { nickname: String },
    EncryptionRequest { server: String, public_key: Vec<u8>, verify_token: Vec<u8> },
    EncryptionResponse { shared_secret: Vec<u8>, verify_token: Vec<u8> },
    LoginSuccess { uuid: PlayerId, nickname: String },
    DisconnectLogin { reason: String },
    KeepAlive { id: i32 },
    JoinGame {
        entity_id: i32,
        gamemode: u8,
        dimension: i8,
        difficulty: u8,
        max_players: u8,
        level_type: String,
        reduced_debug_info: bool,
    },
    SpawnPosition { location: Position },
    HeldItemChange { slot: u8 },
    PlayerInfo { action_id: i32, players: Vec<PlayerInfoPlayer> },
    DisconnectPlay { reason: String },
}

/// What a property is known by in contracts.
pub struct PropertyView {
    pub name: Seq<char>,
    pub value: Seq<char>,
    pub signature: Option<Seq<char>>,
}

/// What a roster action is known by in contracts.
pub enum PlayerActionView {
    AddPlayer {
        name: Seq<char>,
        properties: Seq<PropertyView>,
        gamemode: i32,
        ping: i32,
        display_name: Option<Seq<char>>,
    },
    UpdateGameMode { gamemode: i32 },
    UpdateLatency { ping: i32 },
    UpdateDisplayName { display_name: Option<Seq<char>> },
    RemovePlayer,
}

/// What a roster entry is known by in contracts.
pub struct PlayerView {
    pub uuid: Seq<u8>,
    pub action: PlayerActionView,
}

/// What a packet is known by in contracts.
pub enum PacketView {
    Handshake { protocol_version: i32, server_address: Seq<char>, server_port: u16, next_state: u8 },
    StatusRequest,
    Ping { ping: i64 },
    StatusResponse { json: Seq<char> },
    Pong { pong: i64 },
    LoginStart { nickname: Seq<char> },
    EncryptionRequest { server: Seq<char>, public_key: Seq<u8>, verify_token: Seq<u8> },
    EncryptionResponse { shared_secret: Seq<u8>, verify_token: Seq<u8> },
    LoginSuccess { uuid: Seq<u8>, nickname: Seq<char> },
    DisconnectLogin { reason: Seq<char> },
    KeepAlive { id: i32 },
    JoinGame {
        entity_id: i32,
        gamemode: u8,
        dimension: i8,
        difficulty: u8,
        max_players: u8,
        level_type: Seq<char>,
        reduced_debug_info: bool,
    },
    SpawnPosition { location: Position },
    HeldItemChange { slot: u8 },
    PlayerInfo { action_id: i32, players: Seq<PlayerView> },
    DisconnectPlay { reason: Seq<char> },
}

impl View for PlayerInfoProperties {
    type V = PropertyView;

    open spec fn view(&self) -> PropertyView {
        PropertyView { name: self.name@, value: self.value@, signature: text_view(self.signature) }
    }
}

/// The views of a list of properties, in order.
pub open spec fn properties_view(list: Seq<PlayerInfoProperties>) -> Seq<PropertyView> {
    list.map_values(|p: PlayerInfoProperties| p@)
}

impl View for PlayerInfoAction {
    type V = PlayerActionView;

    open spec fn view(&self) -> PlayerActionView {
        match *self {
            PlayerInfoAction::AddPlayer { name, properties, gamemode, ping, display_name } => {
                PlayerActionView::AddPlayer {
                    name: name@,
                    properties: properties_view(properties@),
                    gamemode,
                    ping,
                    display_name: text_view(display_name),
                }
            },
            PlayerInfoAction::UpdateGameMode { gamemode } => PlayerActionView::UpdateGameMode {
                gamemode,
            },
            PlayerInfoAction::UpdateLatency { ping } => PlayerActionView::UpdateLatency { ping },
            PlayerInfoAction::UpdateDisplayName { display_name } => {
                PlayerActionView::UpdateDisplayName { display_name: text_view(display_name) }
            },
            PlayerInfoAction::RemovePlayer => PlayerActionView::RemovePlayer,
        }
    }
}

impl View for PlayerInfoPlayer {
    type V = PlayerView;

    open spec fn view(&self) -> PlayerView {
        PlayerView { uuid: self.uuid@, action: self.action@ }
    }
}

/// The views of a list of roster entries, in order.
pub open spec fn players_view(list: Seq<PlayerInfoPlayer>) -> Seq<PlayerView> {
    list.map_values(|p: PlayerInfoPlayer| p@)
}

impl View for Packet {
    type V = PacketView;

    open spec fn view(&self) -> PacketView {
        match *self {
            Packet::Handshake { protocol_version, server_address, server_port, next_state } => {
                PacketView::Handshake {
                    protocol_version,
                    server_address: server_address@,
                    server_port,
                    next_state,
                }
            },
            Packet::StatusRequest => PacketView::StatusRequest,
            Packet::Ping { ping } => PacketView::Ping { ping },
            Packet::StatusResponse { json } => PacketView::StatusResponse { json: json@ },
            Packet::Pong { pong } => PacketView::Pong { pong },
            Packet::LoginStart { nickname } => PacketView::LoginStart { nickname: nickname@ },
            Packet::EncryptionRequest { server, public_key, verify_token } => {
                PacketView::EncryptionRequest {
                    server: server@,
                    public_key: public_key@,
                    verify_token: verify_token@,
                }
            },
            Packet::EncryptionResponse { shared_secret, verify_token } => {
                PacketView::EncryptionResponse {
                    shared_secret: shared_secret@,
                    verify_token: verify_token@,
                }
            },
            Packet::LoginSuccess { uuid, nickname } => PacketView::LoginSuccess {
                uuid: uuid@,
                nickname: nickname@,
            },
            Packet::DisconnectLogin { reason } => PacketView::DisconnectLogin { reason: reason@ },
            Packet::KeepAlive { id } => PacketView::KeepAlive { id },
            Packet::JoinGame {
                entity_id,
                gamemode,
                dimension,
                difficulty,
                max_players,
                level_type,
                reduced_debug_info,
            } => PacketView::JoinGame {
                entity_id,
                gamemode,
                dimension,
                difficulty,
                max_players,
                level_type: level_type@,
                reduced_debug_info,
            },
            Packet::SpawnPosition { location } => PacketView::SpawnPosition { location },
            Packet::HeldItemChange { slot } => PacketView::HeldItemChange { slot },
            Packet::PlayerInfo { action_id, players } => PacketView::PlayerInfo {
                action_id,
                players: players_view(players@),
            },
            Packet::DisconnectPlay { reason } => PacketView::DisconnectPlay { reason: reason@ },
        }
    }
}

impl PacketView {
    /// The phase whose packet-id namespace the packet belongs to.
    pub open spec fn phase(self) -> ConnectionState {
        match self {
            PacketView::Handshake { .. } => ConnectionState::Handshaking,
            PacketView::StatusRequest
            | PacketView::Ping { .. }
            | PacketView::StatusResponse { .. }
            | PacketView::Pong { .. } => ConnectionState::Status,
            PacketView::LoginStart { .. }
            | PacketView::EncryptionRequest { .. }
            | PacketView::EncryptionResponse { .. }
            | PacketView::LoginSuccess { .. }
            | PacketView::DisconnectLogin { .. } => ConnectionState::Login,
            _ => ConnectionState::Play,
        }
    }

    /// The packet's id within its phase and direction.
    pub open spec fn id(self) -> i32 {
        match self {
            PacketView::Handshake { .. } => 0x00,
            PacketView::StatusRequest => 0x00,
            PacketView::Ping { .. } => 0x01,
            PacketView::StatusResponse { .. } => 0x00,
            PacketView::Pong { .. } => 0x01,
            PacketView::LoginStart { .. } => 0x00,
            PacketView::EncryptionRequest { .. } => 0x01,
            PacketView::EncryptionResponse { .. } => 0x01,
            PacketView::LoginSuccess { .. } => 0x02,
            PacketView::DisconnectLogin { .. } => 0x00,
            PacketView::KeepAlive { .. } => 0x00,
            PacketView::JoinGame { .. } => 0x01,
            PacketView::SpawnPosition { .. } => 0x05,
            PacketView::HeldItemChange { .. } => 0x09,
            PacketView::PlayerInfo { .. } => 0x38,
            PacketView::DisconnectPlay { .. } => 0x40,
        }
    }

    /// Whether the server reads this packet.
    pub open spec fn inbound(self) -> bool {
        match self {
            PacketView::Handshake { .. }
            | PacketView::StatusRequest
            | PacketView::Ping { .. }
            | PacketView::LoginStart { .. }
            | PacketView::EncryptionResponse { .. }
            | PacketView::KeepAlive { .. } => true,
            _ => false,
        }
    }

    /// Whether the server writes this packet.
    pub open spec fn outbound(self) -> bool {
        match self {
            PacketView::Handshake { .. }
            | PacketView::StatusRequest
            | PacketView::Ping { .. }
            | PacketView::LoginStart { .. }
            | PacketView::EncryptionResponse { .. } => false,
            _ => true,
        }
    }
}

/// Whether a text's length in bytes can stand in its length prefix.
pub open spec fn text_fits(text: Seq<char>) -> bool {
    fits(encode_utf8(text).len())
}

/// Whether a text that may be missing fits, where it is there.
pub open spec fn optional_fits(text: Option<Seq<char>>) -> bool {
    match text {
        Some(t) => text_fits(t),
        None => true,
    }
}

/// Whether each text of a property fits.
pub open spec fn property_fits(p: PropertyView) -> bool {
    text_fits(p.name) && text_fits(p.value) && optional_fits(p.signature)
}

/// Whether each property of a list fits.
pub open spec fn properties_fit(list: Seq<PropertyView>) -> bool {
    forall|i: int| 0 <= i < list.len() ==> property_fits(#[trigger] list[i])
}

/// Whether each text and each count of an action fits.
pub open spec fn action_fits(a: PlayerActionView) -> bool {
    match a {
        PlayerActionView::AddPlayer { name, properties, display_name, .. } => {
            text_fits(name) && fits(properties.len()) && properties_fit(properties)
                && optional_fits(display_name)
        },
        PlayerActionView::UpdateDisplayName { display_name } => optional_fits(display_name),
        _ => true,
    }
}

/// Whether the action of each roster entry fits.
pub open spec fn players_fit(list: Seq<PlayerView>) -> bool {
    forall|i: int| 0 <= i < list.len() ==> action_fits(#[trigger] list[i].action)
}

/// A flag and, where it is set, the text.
pub open spec fn optional_text_bytes(text: Option<Seq<char>>) -> Seq<u8> {
    match text {
        Some(t) => bool_bytes(true) + string_bytes(t),
        None => bool_bytes(false),
    }
}

/// A property: its name, its value, and its signature behind a flag.
pub open spec fn property_bytes(p: PropertyView) -> Seq<u8> {
    string_bytes(p.name) + string_bytes(p.value) + optional_text_bytes(p.signature)
}

/// The properties one after another.
pub open spec fn properties_bytes(list: Seq<PropertyView>) -> Seq<u8>
    decreases list.len(),
{
    if list.len() == 0 {
        Seq::empty()
    } else {
        properties_bytes(list.drop_last()) + property_bytes(list.last())
    }
}

/// The fields that an action adds behind the player's id.
pub open spec fn action_bytes(a: PlayerActionView) -> Seq<u8> {
    match a {
        PlayerActionView::AddPlayer { name, properties, gamemode, ping, display_name } => {
            string_bytes(name) + varint_bytes(properties.len() as i32) + properties_bytes(
                properties,
            ) + varint_bytes(gamemode) + varint_bytes(ping) + optional_text_bytes(display_name)
        },
        PlayerActionView::UpdateGameMode { gamemode } => varint_bytes(gamemode),
        PlayerActionView::UpdateLatency { ping } => varint_bytes(ping),
        PlayerActionView::UpdateDisplayName { display_name } => optional_text_bytes(display_name),
        PlayerActionView::RemovePlayer => Seq::empty(),
    }
}

/// A roster entry: the sixteen bytes of the id, then the fields of the action.
pub open spec fn player_bytes(p: PlayerView) -> Seq<u8> {
    p.uuid + action_bytes(p.action)
}

/// The roster entries one after another.
pub open spec fn players_bytes(list: Seq<PlayerView>) -> Seq<u8>
    decreases list.len(),
{
    if list.len() == 0 {
        Seq::empty()
    } else {
        players_bytes(list.drop_last()) + player_bytes(list.last())
    }
}

/// Whether the packet can be written: it is one the server sends, and each
/// of its lengths can stand in its prefix.
pub open spec fn encodable(p: PacketView) -> bool {
    match p {
        PacketView::EncryptionRequest { server, public_key, verify_token } => {
            text_fits(server) && fits(public_key.len()) && fits(verify_token.len())
        },
        PacketView::DisconnectLogin { reason } => text_fits(reason),
        PacketView::DisconnectPlay { reason } => text_fits(reason),
        PacketView::StatusResponse { json } => text_fits(json),
        PacketView::Pong { .. } => true,
        PacketView::LoginSuccess { uuid, nickname } => {
            text_fits(hyphenated_text(uuid)) && text_fits(nickname)
        },
        PacketView::KeepAlive { .. } => true,
        PacketView::JoinGame { level_type, .. } => text_fits(level_type),
        PacketView::SpawnPosition { .. } => true,
        PacketView::HeldItemChange { .. } => true,
        PacketView::PlayerInfo { players, .. } => fits(players.len()) && players_fit(players),
        _ => false,
    }
}

/// The bytes of an outbound packet: its id, then its fields in order.
pub open spec fn wire_bytes(p: PacketView) -> Seq<u8> {
    match p {
        PacketView::EncryptionRequest { server, public_key, verify_token } => {
            seq![0x01u8] + string_bytes(server) + prefixed_bytes(public_key) + prefixed_bytes(
                verify_token,
            )
        },
        PacketView::DisconnectLogin { reason } => seq![0x00u8] + string_bytes(reason),
        PacketView::DisconnectPlay { reason } => seq![0x40u8] + string_bytes(reason),
        PacketView::StatusResponse { json } => seq![0x00u8] + string_bytes(json),
        PacketView::Pong { pong } => seq![0x01u8] + be_bytes(unsigned_of(pong as int, 8), 8),
        PacketView::LoginSuccess { uuid, nickname } => {
            seq![0x02u8] + string_bytes(hyphenated_text(uuid)) + string_bytes(nickname)
        },
        PacketView::KeepAlive { id } => seq![0x00u8] + varint_bytes(id),
        PacketView::JoinGame {
            entity_id,
            gamemode,
            dimension,
            difficulty,
            max_players,
            level_type,
            reduced_debug_info,
        } => {
            seq![0x01u8] + be_bytes(unsigned_of(entity_id as int, 4), 4) + seq![gamemode]
                + be_bytes(unsigned_of(dimension as int, 1), 1) + seq![difficulty] + seq![
                max_players,
            ] + string_bytes(level_type) + bool_bytes(reduced_debug_info)
        },
        PacketView::SpawnPosition { location } => seq![0x05u8] + position_bytes(location),
        PacketView::HeldItemChange { slot } => seq![0x09u8] + seq![slot],
        PacketView::PlayerInfo { action_id, players } => {
            seq![0x38u8] + varint_bytes(action_id) + varint_bytes(players.len() as i32)
                + players_bytes(players)
        },
        _ => Seq::empty(),
    }
}

/// What writing a packet gives: its bytes, or the refusal of a packet that
/// cannot be written.
pub open spec fn encoding(p: PacketView) -> Result<Seq<u8>, EncodeError> {
    if encodable(p) {
        Ok(wire_bytes(p))
    } else {
        Err(EncodeError::NotEncodable)
    }
}

/// How the answer of a write relates to what the write should give.
pub open spec fn encoded_as(
    answer: Result<Vec<u8>, EncodeError>,
    expected: Result<Seq<u8>, EncodeError>,
) -> bool {
    match expected {
        Ok(bytes) => match answer {
            Ok(written) => written@ == bytes,
            Err(_) => false,
        },
        Err(e) => answer == Err::<Vec<u8>, EncodeError>(e),
    }
}

/// Appends a flag and, where the text is there, the text.
fn write_optional_text(w: &mut DataWriter, text: &Option<String>) -> (r: Result<(), EncodeError>)
    ensures
        wrote(
            old(w)@,
            final(w)@,
            r,
            optional_fits(text_view(*text)),
            optional_text_bytes(text_view(*text)),
        ),
{
    match text {
        Some(t) => {
            w.write_bool(true);
            w.write_string(t.as_str())?;
            assert(w@ == old(w)@ + (bool_bytes(true) + string_bytes(t@)));
        },
        None => {
            w.write_bool(false);
        },
    }
    Ok(())
}

/// Appends one property.
fn write_property(w: &mut DataWriter, p: &PlayerInfoProperties) -> (r: Result<(), EncodeError>)
    ensures
        wrote(old(w)@, final(w)@, r, property_fits(p@), property_bytes(p@)),
{
    w.write_string(p.name.as_str())?;
    w.write_string(p.value.as_str())?;
    write_optional_text(w, &p.signature)?;
    assert(w@ == old(w)@ + property_bytes(p@));
    Ok(())
}

/// Appends the properties in order.
fn write_properties(w: &mut DataWriter, list: &Vec<PlayerInfoProperties>) -> (r: Result<
    (),
    EncodeError,
>)
    ensures
        wrote(
            old(w)@,
            final(w)@,
            r,
            properties_fit(properties_view(list@)),
            properties_bytes(properties_view(list@)),
        ),
{
    let ghost views = properties_view(list@);
    let mut i: usize = 0;
    while i < list.len()
        invariant
            i <= list@.len(),
            views == properties_view(list@),
            w@ == old(w)@ + properties_bytes(views.take(i as int)),
            forall|j: int| 0 <= j < i ==> property_fits(#[trigger] views[j]),
        decreases list@.len() - i,
    {
        proof {
            assert(views.take(i + 1).drop_last() == views.take(i as int));
            assert(views[i as int] == list@[i as int]@);
        }
        write_property(w, &list[i])?;
        assert(w@ == old(w)@ + properties_bytes(views.take(i + 1)));
        i = i + 1;
    }
    assert(views.take(i as int) == views);
    Ok(())
}

/// Appends the fields of an action.
fn write_action(w: &mut DataWriter, action: &PlayerInfoAction) -> (r: Result<(), EncodeError>)
    ensures
        wrote(old(w)@, final(w)@, r, action_fits(action@), action_bytes(action@)),
{
    match action {
        PlayerInfoAction::AddPlayer { name, properties, gamemode, ping, display_name } => {
            w.write_string(name.as_str())?;
            w.write_len(properties.len())?;
            write_properties(w, properties)?;
            w.write_varint(*gamemode);
            w.write_varint(*ping);
            write_optional_text(w, display_name)?;
            assert(w@ == old(w)@ + action_bytes(action@));
        },
        PlayerInfoAction::UpdateGameMode { gamemode } => {
            w.write_varint(*gamemode);
        },
        PlayerInfoAction::UpdateLatency { ping } => {
            w.write_varint(*ping);
        },
        PlayerInfoAction::UpdateDisplayName { display_name } => {
            write_optional_text(w, display_name)?;
        },
        PlayerInfoAction::RemovePlayer => {
            assert(w@ == old(w)@ + Seq::<u8>::empty());
        },
    }
    Ok(())
}

/// Appends the roster entries in order.
fn write_players(w: &mut DataWriter, list: &Vec<PlayerInfoPlayer>) -> (r: Result<(), EncodeError>)
    ensures
        wrote(
            old(w)@,
            final(w)@,
            r,
            players_fit(players_view(list@)),
            players_bytes(players_view(list@)),
        ),
{
    let ghost views = players_view(list@);
    let mut i: usize = 0;
    while i < list.len()
        invariant
            i <= list@.len(),
            views == players_view(list@),
            w@ == old(w)@ + players_bytes(views.take(i as int)),
            forall|j: int| 0 <= j < i ==> action_fits(#[trigger] views[j].action),
        decreases list@.len() - i,
    {
        proof {
            assert(views.take(i + 1).drop_last() == views.take(i as int));
            assert(views[i as int] == list@[i as int]@);
        }
        let player = &list[i];
        assert(views[i as int].action == player.action@);
        w.write_data(&player.uuid);
        write_action(w, &player.action)?;
        assert(w@ == old(w)@ + players_bytes(views.take(i + 1)));
        i = i + 1;
    }
    assert(views.take(i as int) == views);
    Ok(())
}

impl Packet {
    /// Writes the packet: its id, then its fields in the order of the
    /// protocol. A packet that the server only receives is refused, and so
    /// is one with a field too long for its length prefix.
    pub fn serialize(&self) -> (r: Result<Vec<u8>, EncodeError>)
        ensures
            encoded_as(r, encoding(self@)),
    {
        let mut writer = DataWriter::new();
        match self {
            Packet::EncryptionRequest { server, public_key, verify_token } => {
                writer.write_u8(0x01);
                writer.write_string(server.as_str())?;
                writer.write_prefixed(public_key.as_slice())?;
                writer.write_prefixed(verify_token.as_slice())?;
            },
            Packet::DisconnectLogin { reason } => {
                writer.write_u8(0x00);
                writer.write_string(reason.as_str())?;
            },
            Packet::DisconnectPlay { reason } => {
                writer.write_u8(0x40);
                writer.write_string(reason.as_str())?;
            },
            Packet::StatusResponse { json } => {
                writer.write_u8(0x00);
                writer.write_string(json.as_str())?;
            },
            Packet::Pong { pong } => {
                writer.write_u8(0x01);
                writer.write_i64(*pong);
            },
            Packet::LoginSuccess { uuid, nickname } => {
                writer.write_u8(0x02);
                let text = hyphenated(uuid);
                writer.write_string(text.as_str())?;
                writer.write_string(nickname.as_str())?;
            },
            Packet::KeepAlive { id } => {
                writer.write_u8(0x00);
                writer.write_varint(*id);
            },
            Packet::JoinGame {
                entity_id,
                gamemode,
                dimension,
                difficulty,
                max_players,
                level_type,
                reduced_debug_info,
            } => {
                writer.write_u8(0x01);
                writer.write_i32(*entity_id);
                writer.write_u8(*gamemode);
                writer.write_i8(*dimension);
                writer.write_u8(*difficulty);
                writer.write_u8(*max_players);
                writer.write_string(level_type.as_str())?;
                writer.write_bool(*reduced_debug_info);
            },
            Packet::SpawnPosition { location } => {
                writer.write_u8(0x05);
                writer.write_position(location);
            },
            Packet::HeldItemChange { slot } => {
                writer.write_u8(0x09);
                writer.write_u8(*slot);
            },
            Packet::PlayerInfo { action_id, players } => {
                writer.write_u8(0x38);
                writer.write_varint(*action_id);
                writer.write_len(players.len())?;
                write_players(&mut writer, players)?;
            },
            _ => {
                return Err(EncodeError::NotEncodable);
            },
        }
        assert(writer@ == wire_bytes(self@));
        Ok(writer.into_bytes())
    }
}

/// A handshake: protocol version, server address, server port, next state.
pub open spec fn parse_handshake(s: Seq<u8>) -> Result<(PacketView, nat), DecodeError> {
    match parse_varint(s) {
        Err(e) => Err(e),
        Ok((protocol_version, a)) => match parse_string(s.skip(a as int)) {
            Err(e) => Err(e),
            Ok((server_address, b)) => match parse_u16(s.skip((a + b) as int)) {
                Err(e) => Err(e),
                Ok((server_port, c)) => match parse_u8(s.skip((a + b + c) as int)) {
                    Err(e) => Err(e),
                    Ok((next_state, d)) => Ok(
                        (
                            PacketView::Handshake {
                                protocol_version,
                                server_address,
                                server_port,
                                next_state,
                            },
                            a + b + c + d,
                        ),
                    ),
                },
            },
        },
    }
}

/// A ping: a signed number of eight bytes.
pub open spec fn parse_ping(s: Seq<u8>) -> Result<(PacketView, nat), DecodeError> {
    match parse_i64(s) {
        Err(e) => Err(e),
        Ok((ping, n)) => Ok((PacketView::Ping { ping }, n)),
    }
}

/// A login start: the claimed name.
pub open spec fn parse_login_start(s: Seq<u8>) -> Result<(PacketView, nat), DecodeError> {
    match parse_string(s) {
        Err(e) => Err(e),
        Ok((nickname, n)) => Ok((PacketView::LoginStart { nickname }, n)),
    }
}

/// An encryption response: the shared secret, then the verify token, each
/// behind its length.
pub open spec fn parse_encryption_response(s: Seq<u8>) -> Result<(PacketView, nat), DecodeError> {
    match parse_prefixed(s) {
        Err(e) => Err(e),
        Ok((shared_secret, a)) => match parse_prefixed(s.skip(a as int)) {
            Err(e) => Err(e),
            Ok((verify_token, b)) => Ok(
                (PacketView::EncryptionResponse { shared_secret, verify_token }, a + b),
            ),
        },
    }
}

/// A keep-alive: its number.
pub open spec fn parse_keep_alive(s: Seq<u8>) -> Result<(PacketView, nat), DecodeError> {
    match parse_varint(s) {
        Err(e) => Err(e),
        Ok((id, n)) => Ok((PacketView::KeepAlive { id }, n)),
    }
}

/// What reading the payload of packet `id` gives in phase `state`: the
/// packet and the number of bytes it took. The phase decides what an id
/// means; an id with no meaning in the phase is unknown.
pub open spec fn parse_packet(state: ConnectionState, id: i32, s: Seq<u8>) -> Result<
    (PacketView, nat),
    DecodeError,
> {
    match state {
        ConnectionState::Handshaking => if id == 0x00 {
            parse_handshake(s)
        } else {
            Err(DecodeError::UnknownPacketId)
        },
        ConnectionState::Status => if id == 0x00 {
            Ok((PacketView::StatusRequest, 0))
        } else if id == 0x01 {
            parse_ping(s)
        } else {
            Err(DecodeError::UnknownPacketId)
        },
        ConnectionState::Login => if id == 0x00 {
            parse_login_start(s)
        } else if id == 0x01 {
            parse_encryption_response(s)
        } else {
            Err(DecodeError::UnknownPacketId)
        },
        ConnectionState::Play => if id == 0x00 {
            parse_keep_alive(s)
        } else {
            Err(DecodeError::UnknownPacketId)
        },
    }
}

/// How a read of several fields relates what it returns to the bytes left
/// before and after: on success the value and the input past it, on failure
/// the error alone.
pub open spec fn decoded(
    before: Seq<u8>,
    after: Seq<u8>,
    got: Result<Packet, DecodeError>,
    expected: Result<(PacketView, nat), DecodeError>,
) -> bool {
    match expected {
        Ok((v, n)) => (match got {
            Ok(x) => x@ == v,
            Err(_) => false,
        }) && n <= before.len() && after == before.skip(n as int),
        Err(e) => got == Err::<Packet, DecodeError>(e),
    }
}

/// Reads the fields of a handshake.
fn read_handshake(reader: &mut DataReader) -> (r: Result<Packet, DecodeError>)
    ensures
        decoded(old(reader)@, final(reader)@, r, parse_handshake(old(reader)@)),
{
    let ghost s = reader@;
    let protocol_version: i32 = reader.read_varint()?;
    let ghost a = s.len() - reader@.len();
    let server_address = reader.read_string()?;
    let ghost b = s.len() - a - reader@.len();
    assert(reader@ == s.skip(a + b));
    let server_port: u16 = reader.read_u16()?;
    let ghost c = s.len() - a - b - reader@.len();
    assert(reader@ == s.skip(a + b + c));
    let next_state: u8 = reader.read_u8()?;
    assert(reader@ == s.skip(a + b + c + 1));
    Ok(Packet::Handshake { protocol_version, server_address, server_port, next_state })
}

/// Reads the fields of an encryption response.
fn read_encryption_response(reader: &mut DataReader) -> (r: Result<Packet, DecodeError>)
    ensures
        decoded(old(reader)@, final(reader)@, r, parse_encryption_response(old(reader)@)),
{
    let ghost s = reader@;
    let shared_secret = reader.read_data()?;
    let ghost a = s.len() - reader@.len();
    let verify_token = reader.read_data()?;
    let ghost b = s.len() - a - reader@.len();
    assert(reader@ == s.skip(a + b));
    Ok(Packet::EncryptionResponse { shared_secret, verify_token })
}

/// Reads the fields of packet `id` as the phase says. On failure the reader
/// stands where the failing field left it.
fn read_fields(id: i32, reader: &mut DataReader, state: ConnectionState) -> (r: Result<
    Packet,
    DecodeError,
>)
    ensures
        decoded(old(reader)@, final(reader)@, r, parse_packet(state, id, old(reader)@)),
{
    match state {
        ConnectionState::Handshaking => {
            if id == 0x00 {
                read_handshake(reader)
            } else {
                Err(DecodeError::UnknownPacketId)
            }
        },
        ConnectionState::Status => {
            if id == 0x00 {
                assert(reader@ == reader@.skip(0));
                Ok(Packet::StatusRequest)
            } else if id == 0x01 {
                Ok(Packet::Ping { ping: reader.read_i64()? })
            } else {
                Err(DecodeError::UnknownPacketId)
            }
        },
        ConnectionState::Login => {
            if id == 0x00 {
                Ok(Packet::LoginStart { nickname: reader.read_string()? })
            } else if id == 0x01 {
                read_encryption_response(reader)
            } else {
                Err(DecodeError::UnknownPacketId)
            }
        },
        ConnectionState::Play => {
            if id == 0x00 {
                Ok(Packet::KeepAlive { id: reader.read_varint()? })
            } else {
                Err(DecodeError::UnknownPacketId)
            }
        },
    }
}

impl Packet {
    /// Reads the payload of packet `id` as the phase `state` says: the
    /// packet, with the reader behind it, or the error, with the reader
    /// where it was.
    pub fn read(id: i32, reader: &mut DataReader, state: ConnectionState) -> (r: Result<
        Packet,
        DecodeError,
    >)
        ensures
            advanced_view(old(reader)@, final(reader)@, r, parse_packet(state, id, old(reader)@)),
    {
        let start = *reader;
        match read_fields(id, reader, state) {
            Ok(packet) => Ok(packet),
            Err(e) => {
                *reader = start;
                Err(e)
            },
        }
    }
}

} // verus!
