//! The handling of what a client sends: each packet is decoded in the phase
//! the connection is in, and moves the session on.

use crate::crypto::decrypted;
use crate::crypto::random_token;
use crate::crypto::ServerKeys;
use crate::error::HandshakeError;
use crate::packets::parse_packet;
use crate::packets::Packet;
use crate::packets::PacketView;
use crate::reader::DataReader;
use crate::session::bytes_view;
use crate::session::on_handshake;
use crate::session::on_keep_alive;
use crate::session::on_key_exchange;
use crate::session::on_login_start;
use crate::session::on_ping;
use crate::session::on_status_request;
use crate::session::on_unexpected;
use crate::session::refuse;
use crate::session::Action;
use crate::session::ActionView;
use crate::session::ClientSession;
use crate::session::SessionView;
use crate::state::ConnectionState;
use vstd::prelude::*;

verus! {

/// A packet as the transport hands it over: its id and its payload.
#[derive(Clone, Debug, PartialEq, Eq)]
pub struct RawPacket {
    pub id: i32,
    pub data: Vec<u8>,
}

/// What a raw packet is known by in contracts.
pub struct RawView {
    pub id: i32,
    pub data: Seq<u8>,
}

impl View for RawPacket {
    type V = RawView;

    open spec fn view(&self) -> RawView {
        RawView { id: self.id, data: self.data@ }
    }
}

/// The move that an encryption response makes: the key exchange with what
/// the server's key pair makes of the packet's verify token and of its
/// shared secret.
pub open spec fn on_encryption_response(
    s: SessionView,
    keys: ServerKeys,
    shared_secret: Seq<u8>,
    verify_token: Seq<u8>,
) -> (SessionView, ActionView) {
    on_key_exchange(
        s,
        decrypted(keys.key_pair(), verify_token),
        decrypted(keys.key_pair(), shared_secret),
        keys.public_key_der(),
    )
}

/// The move that a packet makes, with `token` as the verify token where one
/// is drawn.
pub open spec fn on_packet(s: SessionView, p: PacketView, keys: ServerKeys, token: Seq<u8>) -> (
    SessionView,
    ActionView,
) {
    match p {
        PacketView::Handshake { next_state, .. } => on_handshake(s, next_state),
        PacketView::StatusRequest => on_status_request(s),
        PacketView::Ping { ping } => on_ping(s, ping),
        PacketView::LoginStart { nickname } => on_login_start(
            s,
            nickname,
            token,
            keys.public_key_der(),
        ),
        PacketView::EncryptionResponse { shared_secret, verify_token } => on_encryption_response(
            s,
            keys,
            shared_secret,
            verify_token,
        ),
        PacketView::KeepAlive { .. } => on_keep_alive(s),
        _ => on_unexpected(s),
    }
}

/// Whether the move of a packet draws a verify token: a login start that is
/// accepted does, and nothing else.
pub open spec fn draws_token(s: SessionView, p: PacketView) -> bool {
    p is LoginStart && !s.disconnecting && s.state == ConnectionState::Login && s.nickname is None
}

/// The move that a raw packet makes: it is decoded as the phase says and
/// then makes its move; one that cannot be decoded closes the connection. A
/// connection that is being closed reads nothing more.
pub open spec fn on_raw(s: SessionView, raw: RawView, keys: ServerKeys, token: Seq<u8>) -> (
    SessionView,
    ActionView,
) {
    if s.disconnecting {
        (s, ActionView::Nothing)
    } else {
        match parse_packet(s.state, raw.id, raw.data) {
            Ok((p, _)) => on_packet(s, p, keys, token),
            Err(e) => refuse(s, HandshakeError::Decode(e)),
        }
    }
}

/// Whether the move of a raw packet draws a verify token.
pub open spec fn raw_draws_token(s: SessionView, raw: RawView) -> bool {
    !s.disconnecting && match parse_packet(s.state, raw.id, raw.data) {
        Ok((p, _)) => draws_token(s, p),
        Err(_) => false,
    }
}

/// The moves of a batch, one after another, the move of packet `i` with
/// token `i`: the session at the end, and the action of each packet in
/// order.
pub open spec fn run(s: SessionView, raws: Seq<RawView>, keys: ServerKeys, tokens: Seq<Seq<u8>>) -> (
    SessionView,
    Seq<ActionView>,
)
    decreases raws.len(),
{
    if raws.len() == 0 {
        (s, Seq::empty())
    } else {
        let (mid, actions) = run(s, raws.drop_last(), keys, tokens.drop_last());
        let (end, action) = on_raw(mid, raws.last(), keys, tokens.last());
        (end, actions.push(action))
    }
}

/// Whether no move of a batch draws a verify token.
pub open spec fn run_draws_no_token(
    s: SessionView,
    raws: Seq<RawView>,
    keys: ServerKeys,
    tokens: Seq<Seq<u8>>,
) -> bool
    decreases raws.len(),
{
    raws.len() == 0 || (run_draws_no_token(s, raws.drop_last(), keys, tokens.drop_last())
        && !raw_draws_token(run(s, raws.drop_last(), keys, tokens.drop_last()).0, raws.last()))
}

/// A batch that draws no verify token goes one way, whatever tokens it is
/// offered.
pub proof fn lemma_tokenless_run_is_fixed(
    s: SessionView,
    raws: Seq<RawView>,
    keys: ServerKeys,
    a: Seq<Seq<u8>>,
    b: Seq<Seq<u8>>,
)
    requires
        run_draws_no_token(s, raws, keys, a),
    ensures
        run(s, raws, keys, a) == run(s, raws, keys, b),
    decreases raws.len(),
{
    if raws.len() > 0 {
        lemma_tokenless_run_is_fixed(s, raws.drop_last(), keys, a.drop_last(), b.drop_last());
    }
}

/// The views of a batch of raw packets, in order.
pub open spec fn raws_view(raws: Seq<RawPacket>) -> Seq<RawView> {
    raws.map_values(|r: RawPacket| r@)
}

/// The views of a list of actions, in order.
pub open spec fn actions_view(actions: Seq<Action>) -> Seq<ActionView> {
    actions.map_values(|a: Action| a@)
}

/// Whether each token of a list has the four bytes of a verify token.
pub open spec fn tokens_drawn(tokens: Seq<Seq<u8>>) -> bool {
    forall|i: int| 0 <= i < tokens.len() ==> (#[trigger] tokens[i]).len() == 4
}

/// Decrypts what a client encrypted to the server's public key. There is
/// nothing where the cipher text is too long for the key pair to take, or
/// the key pair makes nothing of it.
fn decrypt(keys: &ServerKeys, ciphertext: &Vec<u8>) -> (plain: Option<Vec<u8>>)
    ensures
        bytes_view(plain) == decrypted(keys.key_pair(), ciphertext@),
{
    keys.decrypt(ciphertext.as_slice())
}

/// Makes the move of one packet. A login start that is accepted draws the
/// verify token: of it the contract says only that it has four bytes. An
/// encryption response is decrypted with the server's key pair, its verify
/// token for the token check and its shared secret for the ciphers. Every
/// move but the draw is fixed by the session, the packet and the keys.
pub fn handle_packet(packet: Packet, client: &mut ClientSession, keys: &ServerKeys) -> (action:
    Action)
    ensures
        exists|token: Seq<u8>|
            token.len() == 4 && (final(client)@, action@) == #[trigger] on_packet(
                old(client)@,
                packet@,
                *keys,
                token,
            ),
        !draws_token(old(client)@, packet@) ==> forall|token: Seq<u8>|
            (final(client)@, action@) == #[trigger] on_packet(old(client)@, packet@, *keys, token),
        old(client)@.reachable() ==> final(client)@.reachable(),
{
    let ghost zeros = seq![0u8, 0u8, 0u8, 0u8];
    let ghost before = client@;
    let ghost view = packet@;
    match packet {
        Packet::Handshake { next_state, .. } => {
            let action = client.handshake(next_state);
            assert((client@, action@) == on_packet(before, view, *keys, zeros));
            action
        },
        Packet::StatusRequest => {
            let action = client.status_request();
            assert((client@, action@) == on_packet(before, view, *keys, zeros));
            action
        },
        Packet::Ping { ping } => {
            let action = client.ping(ping);
            assert((client@, action@) == on_packet(before, view, *keys, zeros));
            action
        },
        Packet::LoginStart { nickname } => {
            let token = random_token();
            let action = client.login_start(nickname, token, keys.public_key());
            assert((client@, action@) == on_packet(before, view, *keys, token@));
            action
        },
        Packet::EncryptionResponse { shared_secret, verify_token } => {
            let waiting = !client.is_disconnecting() && client.state() == ConnectionState::Login
                && client.verify_token().is_some();
            let token = if waiting {
                decrypt(keys, &verify_token)
            } else {
                None
            };
            let secret = if client.token_matches(&token) {
                decrypt(keys, &shared_secret)
            } else {
                None
            };
            let action = client.key_exchange(token, secret, keys.public_key());
            assert((client@, action@) == on_packet(before, view, *keys, zeros));
            action
        },
        Packet::KeepAlive { .. } => {
            let action = client.keep_alive();
            assert((client@, action@) == on_packet(before, view, *keys, zeros));
            action
        },
        _ => {
            let action = client.unexpected();
            assert((client@, action@) == on_packet(before, view, *keys, zeros));
            action
        },
    }
}

/// Decodes one raw packet in the phase of the connection and makes its
/// move. Every move but the draw of a verify token is fixed by the session,
/// the packet and the keys.
pub fn handle_raw(raw: &RawPacket, client: &mut ClientSession, keys: &ServerKeys) -> (action:
    Action)
    ensures
        exists|token: Seq<u8>|
            token.len() == 4 && (final(client)@, action@) == #[trigger] on_raw(
                old(client)@,
                raw@,
                *keys,
                token,
            ),
        !raw_draws_token(old(client)@, raw@) ==> forall|token: Seq<u8>|
            (final(client)@, action@) == #[trigger] on_raw(old(client)@, raw@, *keys, token),
        old(client)@.reachable() ==> final(client)@.reachable(),
{
    let ghost zeros = seq![0u8, 0u8, 0u8, 0u8];
    let ghost before = client@;
    if client.is_disconnecting() {
        assert((client@, ActionView::Nothing) == on_raw(before, raw@, *keys, zeros));
        return Action::Nothing;
    }
    let mut reader = DataReader::new(raw.data.as_slice());
    match Packet::read(raw.id, &mut reader, client.state()) {
        Ok(packet) => {
            let ghost view = packet@;
            let action = handle_packet(packet, client, keys);
            proof {
                let token = choose|token: Seq<u8>|
                    token.len() == 4 && (client@, action@) == #[trigger] on_packet(
                        before,
                        view,
                        *keys,
                        token,
                    );
                assert((client@, action@) == on_raw(before, raw@, *keys, token));
            }
            action
        },
        Err(e) => {
            let action = client.refuse(HandshakeError::Decode(e));
            assert((client@, action@) == on_raw(before, raw@, *keys, zeros));
            action
        },
    }
}

/// Handles a batch of raw packets in the order given, each one only after
/// the one before it has made its move, and returns the action of each. The
/// batch goes the way that its packets take it with the verify tokens that
/// were drawn; where none is drawn, that is the one way it can go.
pub fn handle(packets: Vec<RawPacket>, client: &mut ClientSession, keys: &ServerKeys) -> (actions:
    Vec<Action>)
    ensures
        actions@.len() == packets@.len(),
        exists|tokens: Seq<Seq<u8>>|
            tokens.len() == packets@.len() && tokens_drawn(tokens) && (
                final(client)@,
                actions_view(actions@),
            ) == #[trigger] run(old(client)@, raws_view(packets@), *keys, tokens),
        forall|tokens: Seq<Seq<u8>>| #[trigger]
            run_draws_no_token(old(client)@, raws_view(packets@), *keys, tokens) ==> (
                final(client)@,
                actions_view(actions@),
            ) == run(old(client)@, raws_view(packets@), *keys, tokens),
        old(client)@.reachable() ==> final(client)@.reachable(),
{
    let ghost before = client@;
    let ghost raws = raws_view(packets@);
    let ghost mut tokens = Seq::<Seq<u8>>::empty();
    let mut actions: Vec<Action> = Vec::new();
    let mut i: usize = 0;
    assert(actions_view(actions@) == Seq::<ActionView>::empty());
    while i < packets.len()
        invariant
            i <= packets@.len(),
            raws == raws_view(packets@),
            tokens.len() == i,
            actions@.len() == i,
            tokens_drawn(tokens),
            (client@, actions_view(actions@)) == run(before, raws.take(i as int), *keys, tokens),
            before.reachable() ==> client@.reachable(),
        decreases packets@.len() - i,
    {
        let ghost mid = client@;
        let ghost done = actions_view(actions@);
        let action = handle_raw(&packets[i], client, keys);
        proof {
            let token = choose|token: Seq<u8>|
                token.len() == 4 && (client@, action@) == #[trigger] on_raw(
                    mid,
                    packets@[i as int]@,
                    *keys,
                    token,
                );
            let longer = tokens.push(token);
            assert(raws.take(i + 1).drop_last() == raws.take(i as int));
            assert(raws.take(i + 1).last() == packets@[i as int]@);
            assert(longer.drop_last() == tokens);
            assert(actions_view(actions@.push(action)) == done.push(action@));
            tokens = longer;
        }
        actions.push(action);
        i = i + 1;
    }
    assert(raws.take(i as int) == raws);
    assert forall|other: Seq<Seq<u8>>| #[trigger]
        run_draws_no_token(before, raws, *keys, other) implies (client@, actions_view(actions@))
        == run(before, raws, *keys, other) by {
        lemma_tokenless_run_is_fixed(before, raws, *keys, other, tokens);
    }
    actions
}

} // verus!
