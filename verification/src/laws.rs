//! What holds of the protocol core as a whole, proved from the definitions
//! that the contracts of its functions are stated in.

use crate::bigendian::be_bytes;
use crate::bigendian::be_round_trip;
use crate::bigendian::lemma_pow256_values;
use crate::bigendian::pow256;
use crate::bigendian::signed_round_trip;
use crate::bigendian::unsigned_of;
use crate::envelope::parse_envelope;
use crate::envelope::EnvelopeView;
use crate::crypto::decrypted;
use crate::crypto::ServerKeys;
use crate::error::DecodeError;
use crate::error::EncodeError;
use crate::error::HandshakeError;
use crate::identity::ProfileView;
use crate::login_handler::on_packet;
use crate::login_handler::on_raw;
use crate::login_handler::run;
use crate::login_handler::tokens_drawn;
use crate::login_handler::RawView;
use crate::packets::encoded_as;
use crate::packets::encoding;
use crate::packets::parse_packet;
use crate::packets::text_fits;
use crate::packets::wire_bytes;
use crate::packets::Packet;
use crate::packets::PacketView;
use crate::position::position_round_trip;
use crate::position::Position;
use crate::reader::parse_bool;
use crate::reader::parse_int;
use crate::reader::parse_position;
use crate::reader::parse_prefixed;
use crate::reader::parse_string;
use crate::reader::parse_uint;
use crate::session::on_handshake;
use crate::session::on_key_exchange;
use crate::session::on_confirmation;
use crate::session::refuse;
use crate::session::secret_accepted;
use crate::session::token_matches;
use crate::session::ActionView;
use crate::session::SessionView;
use crate::state::ConnectionState;
use crate::varint::varint_bytes;
use crate::varint::varint_round_trip;
use crate::writer::bool_bytes;
use crate::writer::fits;
use crate::writer::position_bytes;
use crate::writer::prefixed_bytes;
use crate::writer::string_bytes;
use vstd::prelude::*;
use vstd::utf8::encode_utf8;
use vstd::utf8::encode_utf8_decode_utf8;
use vstd::utf8::encode_utf8_valid_utf8;

verus! {

/// Round trip: an unsigned number that fits `width` bytes is read back from
/// the bytes written for it, whatever follows them.
pub proof fn unsigned_round_trip(n: nat, width: nat, rest: Seq<u8>)
    requires
        n < pow256(width),
    ensures
        parse_uint(be_bytes(n, width) + rest, width) == Ok::<(nat, nat), DecodeError>((n, width)),
{
    be_round_trip(n, width);
    assert((be_bytes(n, width) + rest).take(width as int) == be_bytes(n, width));
}

/// Round trip: a signed number that fits `width` bytes is read back from the
/// bytes written for it, whatever follows them.
pub proof fn signed_number_round_trip(v: int, width: nat, rest: Seq<u8>)
    requires
        -(pow256(width) as int) <= 2 * v < pow256(width),
    ensures
        parse_int(be_bytes(unsigned_of(v, width), width) + rest, width) == Ok::<
            (int, nat),
            DecodeError,
        >((v, width)),
{
    signed_round_trip(v, width);
    unsigned_round_trip(unsigned_of(v, width), width, rest);
}

/// Round trip: a boolean is read back from its byte.
pub proof fn bool_round_trip(b: bool, rest: Seq<u8>)
    ensures
        parse_bool(bool_bytes(b) + rest) == Ok::<(bool, nat), DecodeError>((b, 1)),
{
}

/// Round trip: a block of bytes whose length fits the prefix is read back
/// from what was written for it, whatever follows.
pub proof fn prefixed_round_trip(block: Seq<u8>, rest: Seq<u8>)
    requires
        fits(block.len()),
    ensures
        parse_prefixed(prefixed_bytes(block) + rest) == Ok::<(Seq<u8>, nat), DecodeError>(
            (block, prefixed_bytes(block).len()),
        ),
{
    let len = block.len() as i32;
    let head = varint_bytes(len);
    let s = prefixed_bytes(block) + rest;
    assert(s == head + (block + rest));
    varint_round_trip(len, block + rest);
    assert(s.subrange(head.len() as int, head.len() + len) == block);
}

/// Round trip: a text whose length in bytes fits the prefix is read back
/// from what was written for it, whatever follows.
pub proof fn string_round_trip(text: Seq<char>, rest: Seq<u8>)
    requires
        text_fits(text),
    ensures
        parse_string(string_bytes(text) + rest) == Ok::<(Seq<char>, nat), DecodeError>(
            (text, string_bytes(text).len()),
        ),
{
    prefixed_round_trip(encode_utf8(text), rest);
    encode_utf8_valid_utf8(text);
    encode_utf8_decode_utf8(text);
}

/// Round trip: a position in range is read back from its eight bytes.
pub proof fn packed_position_round_trip(p: Position, rest: Seq<u8>)
    requires
        p.in_range(),
    ensures
        parse_position(position_bytes(p) + rest) == Ok::<(Position, nat), DecodeError>((p, 8)),
{
    lemma_pow256_values();
    unsigned_round_trip(p.packed() as nat, 8, rest);
    position_round_trip(p);
}

/// Round trip: a packet that was put into its envelope is taken out of it
/// again, whatever follows the envelope.
pub proof fn envelope_round_trip(id: i32, payload: Seq<u8>, rest: Seq<u8>)
    requires
        fits((varint_bytes(id) + payload).len()),
    ensures
        parse_envelope(prefixed_bytes(varint_bytes(id) + payload) + rest) == (EnvelopeView::Packet {
            raw: RawView { id, data: payload },
            used: prefixed_bytes(varint_bytes(id) + payload).len(),
        }),
{
    let body = varint_bytes(id) + payload;
    prefixed_round_trip(body, rest);
    varint_round_trip(id, payload);
    assert(body.skip(varint_bytes(id).len() as int) == payload);
}

/// Writing is deterministic: two packets with the same contents are written
/// to the same bytes, or are both refused.
pub proof fn serialize_deterministic(
    a: Packet,
    b: Packet,
    written_a: Result<Vec<u8>, EncodeError>,
    written_b: Result<Vec<u8>, EncodeError>,
)
    requires
        a@ == b@,
        encoded_as(written_a, encoding(a@)),
        encoded_as(written_b, encoding(b@)),
    ensures
        match (written_a, written_b) {
            (Ok(x), Ok(y)) => x@ == y@,
            (Err(e), Err(f)) => e == f,
            _ => false,
        },
{
}

/// What is written starts with the id of the packet.
pub proof fn encoding_starts_with_id(p: PacketView)
    requires
        encoding(p) is Ok,
    ensures
        encoding(p)->Ok_0.len() >= 1,
        encoding(p)->Ok_0[0] == p.id(),
        p.outbound(),
{
}

/// State gating: what is read in a phase is a packet that the server
/// receives in that phase under that id, whatever the id means elsewhere.
pub proof fn decode_stays_in_phase(state: ConnectionState, id: i32, payload: Seq<u8>)
    ensures
        match parse_packet(state, id, payload) {
            Ok((p, n)) => p.phase() == state && p.id() == id && p.inbound(),
            Err(_) => true,
        },
{
}

/// State gating: a packet of another phase than the one the connection is
/// in is taken for nothing else; it closes the connection as out of place.
pub proof fn packet_of_another_phase_refused(
    s: SessionView,
    p: PacketView,
    keys: ServerKeys,
    token: Seq<u8>,
)
    requires
        !s.disconnecting,
        p.phase() != s.state,
    ensures
        on_packet(s, p, keys, token) == refuse(s, HandshakeError::WrongStateForPacket),
{
}

/// A status request, which has id 0 and no payload, is no login start: in
/// the login phase it is refused.
pub proof fn status_request_refused_in_login()
    ensures
        parse_packet(ConnectionState::Login, 0x00, Seq::empty()) is Err,
{
}

/// A keep-alive that was written is read back in the play phase.
pub proof fn keep_alive_round_trip(id: i32)
    ensures
        encoding(PacketView::KeepAlive { id }) is Ok,
        parse_packet(ConnectionState::Play, 0x00, encoding(PacketView::KeepAlive { id })->Ok_0.skip(1))
            == Ok::<(PacketView, nat), DecodeError>(
            (PacketView::KeepAlive { id }, varint_bytes(id).len()),
        ),
{
    let bytes = wire_bytes(PacketView::KeepAlive { id });
    assert(bytes.skip(1) == varint_bytes(id) + Seq::<u8>::empty());
    varint_round_trip(id, Seq::empty());
}

/// The handshake decides the phase: 1 leads to status, 2 to login, and any
/// other wish leaves the phase as it was and the connection about to be
/// closed, with no reply.
pub proof fn handshake_transition(s: SessionView, next_state: u8)
    requires
        s.state == ConnectionState::Handshaking,
        !s.disconnecting,
    ensures
        next_state == 1 ==> on_handshake(s, next_state) == (
            SessionView { state: ConnectionState::Status, ..s },
            ActionView::Nothing,
        ),
        next_state == 2 ==> on_handshake(s, next_state) == (
            SessionView { state: ConnectionState::Login, ..s },
            ActionView::Nothing,
        ),
        next_state != 1 && next_state != 2 ==> on_handshake(s, next_state) == (
            SessionView { disconnecting: true, ..s },
            ActionView::Disconnect { error: HandshakeError::InvalidNextState, reply: None },
        ),
{
}

/// A verify token that does not come back as it was sent ends the
/// handshake: the connection is closed for the mismatch, and its ciphers
/// are what they were.
pub proof fn token_mismatch_rejected(
    s: SessionView,
    token: Option<Seq<u8>>,
    secret: Option<Seq<u8>>,
    public_key: Seq<u8>,
)
    requires
        s.state == ConnectionState::Login,
        !s.disconnecting,
        !token_matches(s.verify_token, token),
    ensures
        ({
            let (after, action) = on_key_exchange(s, token, secret, public_key);
            &&& action matches ActionView::Disconnect { error, .. } && error
                == HandshakeError::VerifyTokenMismatch
            &&& after.ciphers == s.ciphers
            &&& after.state == s.state
            &&& after.disconnecting
        }),
{
}

/// The ciphers of a connection are made by the key exchange if and only if
/// the verify token matches and the shared secret is accepted.
pub proof fn ciphers_made_iff_checks_pass(
    s: SessionView,
    token: Option<Seq<u8>>,
    secret: Option<Seq<u8>>,
    public_key: Seq<u8>,
)
    requires
        s.state == ConnectionState::Login,
        !s.disconnecting,
        s.ciphers is None,
    ensures
        on_key_exchange(s, token, secret, public_key).0.ciphers is Some <==> token_matches(
            s.verify_token,
            token,
        ) && secret_accepted(secret),
{
}

/// The same for a shared secret that, where it was decrypted, is a 128-bit
/// key: the ciphers are made if and only if the verify token matches and
/// the decryption of the shared secret succeeded.
pub proof fn ciphers_made_iff_decryption_succeeds(
    s: SessionView,
    token: Option<Seq<u8>>,
    secret: Option<Seq<u8>>,
    public_key: Seq<u8>,
)
    requires
        s.state == ConnectionState::Login,
        !s.disconnecting,
        s.ciphers is None,
        secret matches Some(key) ==> key.len() == 16,
    ensures
        on_key_exchange(s, token, secret, public_key).0.ciphers is Some <==> token_matches(
            s.verify_token,
            token,
        ) && secret is Some,
{
}

/// No move but the key exchange touches the ciphers: a packet that finds
/// the connection without ciphers leaves it so unless it is an encryption
/// response in the login phase whose verify token decrypts to the one that
/// was sent and whose shared secret decrypts to a 128-bit key.
pub proof fn ciphers_only_after_checks(s: SessionView, p: PacketView, keys: ServerKeys, token: Seq<u8>)
    requires
        s.ciphers is None,
        on_packet(s, p, keys, token).0.ciphers is Some,
    ensures
        s.state == ConnectionState::Login,
        p matches PacketView::EncryptionResponse { shared_secret, verify_token } && token_matches(
            s.verify_token,
            decrypted(keys.key_pair(), verify_token),
        ) && secret_accepted(decrypted(keys.key_pair(), shared_secret)),
{
}

/// An encryption response whose verify token does not decrypt to the one
/// that was sent is refused for the mismatch, whatever its shared secret
/// decrypts to: the ciphers are what they were, the phase stays, and the
/// reply is the refusal.
pub proof fn mismatched_response_rejected(
    s: SessionView,
    keys: ServerKeys,
    shared_secret: Seq<u8>,
    verify_token: Seq<u8>,
    token: Seq<u8>,
)
    requires
        s.state == ConnectionState::Login,
        !s.disconnecting,
        !token_matches(s.verify_token, decrypted(keys.key_pair(), verify_token)),
    ensures
        on_packet(s, PacketView::EncryptionResponse { shared_secret, verify_token }, keys, token)
            == refuse(
            SessionView { verify_token: None, ..s },
            HandshakeError::VerifyTokenMismatch,
        ),
{
}

/// An encryption response makes the ciphers if and only if its verify
/// token decrypts to the one that was sent and its shared secret decrypts to
/// a 128-bit key.
pub proof fn response_makes_ciphers_iff_checks_pass(
    s: SessionView,
    keys: ServerKeys,
    shared_secret: Seq<u8>,
    verify_token: Seq<u8>,
    token: Seq<u8>,
)
    requires
        s.state == ConnectionState::Login,
        !s.disconnecting,
        s.ciphers is None,
    ensures
        on_packet(
            s,
            PacketView::EncryptionResponse { shared_secret, verify_token },
            keys,
            token,
        ).0.ciphers is Some <==> token_matches(
            s.verify_token,
            decrypted(keys.key_pair(), verify_token),
        ) && secret_accepted(decrypted(keys.key_pair(), shared_secret)),
{
}

/// The answer of the session-verification service never touches the
/// ciphers either.
pub proof fn confirmation_keeps_ciphers(s: SessionView, confirmed: Option<ProfileView>)
    ensures
        on_confirmation(s, confirmed).0.ciphers == s.ciphers,
{
}

/// A connection never goes back to an earlier phase, and no packet takes it
/// to the play phase.
pub proof fn packet_never_reverts(s: SessionView, p: PacketView, keys: ServerKeys, token: Seq<u8>)
    ensures
        on_packet(s, p, keys, token).0.state.rank() >= s.state.rank(),
        on_packet(s, p, keys, token).0.state == ConnectionState::Play ==> s.state
            == ConnectionState::Play,
        s.state != ConnectionState::Handshaking ==> on_packet(s, p, keys, token).0.state
            == s.state,
{
}

/// The play phase is entered by a confirmed player on an encrypted
/// connection, and by nobody else.
pub proof fn play_only_when_confirmed(s: SessionView, confirmed: Option<ProfileView>)
    requires
        s.state != ConnectionState::Play,
    ensures
        on_confirmation(s, confirmed).0.state == ConnectionState::Play <==> s.state
            == ConnectionState::Login && s.ciphers is Some && !s.disconnecting && confirmed is Some,
        on_confirmation(s, confirmed).0.state.rank() >= s.state.rank(),
{
}

/// A connection that is about to be closed takes nothing more.
pub proof fn closing_connection_is_deaf(s: SessionView, raw: RawView, keys: ServerKeys, token: Seq<u8>)
    requires
        s.disconnecting,
    ensures
        on_raw(s, raw, keys, token) == (s, ActionView::Nothing),
{
}

/// Every packet keeps a session within the states that can be reached.
pub proof fn packet_keeps_reachable(s: SessionView, p: PacketView, keys: ServerKeys, token: Seq<u8>)
    requires
        s.reachable(),
        token.len() == 4,
    ensures
        on_packet(s, p, keys, token).0.reachable(),
{
}

/// So does the answer of the session-verification service.
pub proof fn confirmation_keeps_reachable(s: SessionView, confirmed: Option<ProfileView>)
    requires
        s.reachable(),
    ensures
        on_confirmation(s, confirmed).0.reachable(),
{
}

/// A new session is within the states that can be reached.
pub proof fn fresh_is_reachable()
    ensures
        SessionView::fresh().reachable(),
{
}

/// A batch keeps a session within the states that can be reached, never
/// takes it back to an earlier phase, and answers each packet with one
/// action.
pub proof fn batch_keeps_reachable(
    s: SessionView,
    raws: Seq<RawView>,
    keys: ServerKeys,
    tokens: Seq<Seq<u8>>,
)
    requires
        s.reachable(),
        tokens.len() == raws.len(),
        tokens_drawn(tokens),
    ensures
        run(s, raws, keys, tokens).0.reachable(),
        run(s, raws, keys, tokens).0.state.rank() >= s.state.rank(),
        run(s, raws, keys, tokens).1.len() == raws.len(),
    decreases raws.len(),
{
    if raws.len() > 0 {
        let shorter = tokens.drop_last();
        assert(tokens_drawn(shorter)) by {
            assert forall|i: int| 0 <= i < shorter.len() implies (#[trigger] shorter[i]).len()
                == 4 by {
                assert(shorter[i] == tokens[i]);
            }
        }
        batch_keeps_reachable(s, raws.drop_last(), keys, shorter);
        let mid = run(s, raws.drop_last(), keys, shorter).0;
        let last = tokens.last();
        assert(last == tokens[tokens.len() - 1]);
        if !mid.disconnecting {
            match parse_packet(mid.state, raws.last().id, raws.last().data) {
                Ok((p, _)) => {
                    packet_keeps_reachable(mid, p, keys, last);
                    packet_never_reverts(mid, p, keys, last);
                },
                Err(_) => {},
            }
        }
    }
}

/// As many actions that ask for nothing.
pub open spec fn nothings(n: nat) -> Seq<ActionView> {
    Seq::new(n, |i: int| ActionView::Nothing)
}

/// A batch is the move of its first packet and then the batch of the rest.
pub proof fn batch_by_first_packet(
    s: SessionView,
    raws: Seq<RawView>,
    keys: ServerKeys,
    tokens: Seq<Seq<u8>>,
)
    requires
        raws.len() > 0,
        tokens.len() == raws.len(),
    ensures
        run(s, raws, keys, tokens) == ({
            let (mid, first) = on_raw(s, raws[0], keys, tokens[0]);
            let (end, rest) = run(mid, raws.drop_first(), keys, tokens.drop_first());
            (end, seq![first] + rest)
        }),
    decreases raws.len(),
{
    let (mid, first) = on_raw(s, raws[0], keys, tokens[0]);
    let none = Seq::<ActionView>::empty();
    if raws.len() == 1 {
        assert(raws.drop_last().len() == 0 && raws.drop_first().len() == 0);
        assert(raws.last() == raws[0] && tokens.last() == tokens[0]);
        assert(run(s, raws.drop_last(), keys, tokens.drop_last()) == (s, none));
        assert(run(mid, raws.drop_first(), keys, tokens.drop_first()) == (mid, none));
        assert(run(s, raws, keys, tokens) == (mid, none.push(first)));
        assert(none.push(first) == seq![first] + none);
    } else {
        let front = raws.drop_last();
        let front_tokens = tokens.drop_last();
        let back = raws.drop_first();
        let back_tokens = tokens.drop_first();
        batch_by_first_packet(s, front, keys, front_tokens);
        assert(front[0] == raws[0] && front_tokens[0] == tokens[0]);
        assert(front.drop_first() == back.drop_last());
        assert(front_tokens.drop_first() == back_tokens.drop_last());
        assert(back.last() == raws.last());
        assert(back_tokens.last() == tokens.last());
        let (before, done) = run(mid, back.drop_last(), keys, back_tokens.drop_last());
        let (end, action) = on_raw(before, raws.last(), keys, tokens.last());
        assert(run(s, front, keys, front_tokens) == (before, seq![first] + done));
        assert(run(s, raws, keys, tokens) == (end, (seq![first] + done).push(action)));
        assert(run(mid, back, keys, back_tokens) == (end, done.push(action)));
        assert((seq![first] + done).push(action) == seq![first] + done.push(action));
    }
}

/// A closing connection is deaf to a whole batch: the session stays as it
/// is, and every packet is answered with nothing.
pub proof fn closing_batch_is_deaf(
    s: SessionView,
    raws: Seq<RawView>,
    keys: ServerKeys,
    tokens: Seq<Seq<u8>>,
)
    requires
        s.disconnecting,
    ensures
        run(s, raws, keys, tokens) == (s, nothings(raws.len())),
    decreases raws.len(),
{
    if raws.len() == 0 {
        assert(nothings(0) == Seq::<ActionView>::empty());
    } else {
        closing_batch_is_deaf(s, raws.drop_last(), keys, tokens.drop_last());
        assert(nothings((raws.len() - 1) as nat).push(ActionView::Nothing) == nothings(raws.len()));
    }
}

/// Once the first packet of a batch has closed the connection, no later
/// packet of the batch is taken: the session is the one that the first
/// packet left, and every later packet is answered with nothing.
pub proof fn batch_stops_when_closed(
    s: SessionView,
    raws: Seq<RawView>,
    keys: ServerKeys,
    tokens: Seq<Seq<u8>>,
)
    requires
        raws.len() > 0,
        tokens.len() == raws.len(),
        on_raw(s, raws[0], keys, tokens[0]).0.disconnecting,
    ensures
        run(s, raws, keys, tokens) == (
            on_raw(s, raws[0], keys, tokens[0]).0,
            seq![on_raw(s, raws[0], keys, tokens[0]).1] + nothings((raws.len() - 1) as nat),
        ),
{
    batch_by_first_packet(s, raws, keys, tokens);
    closing_batch_is_deaf(
        on_raw(s, raws[0], keys, tokens[0]).0,
        raws.drop_first(),
        keys,
        tokens.drop_first(),
    );
}

/// A batch that begins with a handshake for a phase other than status or
/// login leaves the connection where it was, about to be closed for an
/// invalid next state; nothing is sent, and no later packet of the batch is
/// taken.
pub proof fn invalid_next_state_stops_batch(
    s: SessionView,
    raws: Seq<RawView>,
    keys: ServerKeys,
    tokens: Seq<Seq<u8>>,
)
    requires
        s.state == ConnectionState::Handshaking,
        !s.disconnecting,
        raws.len() > 0,
        tokens.len() == raws.len(),
        parse_packet(s.state, raws[0].id, raws[0].data) matches Ok((p, _)) && (
        p matches PacketView::Handshake { next_state, .. } && next_state != 1 && next_state != 2),
    ensures
        run(s, raws, keys, tokens) == (
            SessionView { disconnecting: true, ..s },
            seq![
                ActionView::Disconnect { error: HandshakeError::InvalidNextState, reply: None },
            ] + nothings((raws.len() - 1) as nat),
        ),
{
    batch_stops_when_closed(s, raws, keys, tokens);
}

/// A batch that begins with an encryption response whose verify token does
/// not decrypt to the one that was sent is refused for the mismatch: no
/// ciphers are made, the phase stays, the client is told of the mismatch and
/// of nothing else, and no later packet of the batch is taken.
pub proof fn mismatch_stops_batch(
    s: SessionView,
    raws: Seq<RawView>,
    keys: ServerKeys,
    tokens: Seq<Seq<u8>>,
)
    requires
        s.state == ConnectionState::Login,
        !s.disconnecting,
        raws.len() > 0,
        tokens.len() == raws.len(),
        parse_packet(s.state, raws[0].id, raws[0].data) matches Ok((p, _)) && (
        p matches PacketView::EncryptionResponse { verify_token, .. } && !token_matches(
            s.verify_token,
            decrypted(keys.key_pair(), verify_token),
        )),
    ensures
        run(s, raws, keys, tokens) == (
            SessionView { verify_token: None, disconnecting: true, ..s },
            seq![
                ActionView::Disconnect {
                    error: HandshakeError::VerifyTokenMismatch,
                    reply: Some(
                        PacketView::DisconnectLogin {
                            reason: HandshakeError::VerifyTokenMismatch.reason(),
                        },
                    ),
                },
            ] + nothings((raws.len() - 1) as nat),
        ),
        run(s, raws, keys, tokens).0.ciphers == s.ciphers,
{
    batch_stops_when_closed(s, raws, keys, tokens);
}

/// A batch that begins with an encryption response that fails the token
/// check or whose shared secret does not decrypt to a 128-bit key never
/// makes the ciphers: after the batch the connection has none and is about
/// to be closed, and no later packet of the batch is taken.
pub proof fn failed_response_stops_batch(
    s: SessionView,
    raws: Seq<RawView>,
    keys: ServerKeys,
    tokens: Seq<Seq<u8>>,
)
    requires
        s.state == ConnectionState::Login,
        !s.disconnecting,
        s.ciphers is None,
        raws.len() > 0,
        tokens.len() == raws.len(),
        parse_packet(s.state, raws[0].id, raws[0].data) matches Ok((p, _)) && (
        p matches PacketView::EncryptionResponse { shared_secret, verify_token } && !(
        token_matches(s.verify_token, decrypted(keys.key_pair(), verify_token))
            && secret_accepted(decrypted(keys.key_pair(), shared_secret)))),
    ensures
        run(s, raws, keys, tokens).0.ciphers is None,
        run(s, raws, keys, tokens).0.disconnecting,
        run(s, raws, keys, tokens).0.state == ConnectionState::Login,
        run(s, raws, keys, tokens).1.len() == raws.len(),
        forall|i: int| 1 <= i < raws.len() ==> run(s, raws, keys, tokens).1[i] == ActionView::Nothing,
{
    batch_stops_when_closed(s, raws, keys, tokens);
}

} // verus!
