//! The state of one connection and the moves of its state machine.
//!
//! Each move takes the session and what arrived, and gives the session
//! after it and the action that the transport owes the client. The moves
//! are written down once as functions on views; the executable functions are
//! proved to compute them.

use crate::crypto::ciphers_of;
use crate::crypto::pair_view;
use crate::crypto::usable_secret;
use crate::crypto::CipherPair;
use crate::crypto::CipherPairView;
use crate::digest::session_hash;
use crate::digest::session_hash_text;
use crate::error::HandshakeError;
use crate::identity::profile_view;
use crate::identity::text_view;
use crate::identity::Profile;
use crate::identity::ProfileView;
use crate::packets::Packet;
use crate::packets::PacketView;
use crate::state::ConnectionState;
use vstd::prelude::*;
use vstd::slice::slice_to_vec;

verus! {

/// What the transport is to do after a move.
#[derive(Clone, Debug, PartialEq, Eq)]
pub enum Action {
    /// Nothing.
    Nothing,
    /// Send this packet.
    Send(Packet),
    /// Send the status document.
    StatusQuery,
    /// Ask the session-verification service about this player, then report
    /// its answer.
    VerifySession { nickname: String, session_hash: String },
    /// Send the reply, if there is one, and close the connection.
    Disconnect { error: HandshakeError, reply: Option<Packet> },
}

/// What an action is known by in contracts.
pub enum ActionView {
    Nothing,
    Send(PacketView),
    StatusQuery,
    VerifySession { nickname: Seq<char>, session_hash: Seq<char> },
    Disconnect { error: HandshakeError, reply: Option<PacketView> },
}

/// The view of a packet that may be missing.
pub open spec fn packet_view(packet: Option<Packet>) -> Option<PacketView> {
    match packet {
        Some(p) => Some(p@),
        None => None,
    }
}

impl View for Action {
    type V = ActionView;

    open spec fn view(&self) -> ActionView {
        match *self {
            Action::Nothing => ActionView::Nothing,
            Action::Send(packet) => ActionView::Send(packet@),
            Action::StatusQuery => ActionView::StatusQuery,
            Action::VerifySession { nickname, session_hash } => ActionView::VerifySession {
                nickname: nickname@,
                session_hash: session_hash@,
            },
            Action::Disconnect { error, reply } => ActionView::Disconnect {
                error,
                reply: packet_view(reply),
            },
        }
    }
}

/// The state of one connection.
pub struct ClientSession {
    state: ConnectionState,
    nickname: Option<String>,
    verify_token: Option<[u8; 4]>,
    ciphers: Option<CipherPair>,
    disconnecting: bool,
}

/// What a session is known by in contracts.
pub struct SessionView {
    /// The phase of the connection.
    pub state: ConnectionState,
    /// The name the client claimed when it started to log in.
    pub nickname: Option<Seq<char>>,
    /// The verify token that the client has been sent and not yet answered.
    pub verify_token: Option<Seq<u8>>,
    /// The ciphers of the connection, once it is encrypted.
    pub ciphers: Option<CipherPairView>,
    /// Whether the connection is about to be closed.
    pub disconnecting: bool,
}

/// The view of a verify token that may be missing.
pub open spec fn token_view(token: Option<[u8; 4]>) -> Option<Seq<u8>> {
    match token {
        Some(t) => Some(t@),
        None => None,
    }
}

/// The view of bytes that may be missing.
pub open spec fn bytes_view(bytes: Option<Vec<u8>>) -> Option<Seq<u8>> {
    match bytes {
        Some(b) => Some(b@),
        None => None,
    }
}

impl View for ClientSession {
    type V = SessionView;

    closed spec fn view(&self) -> SessionView {
        SessionView {
            state: self.state,
            nickname: text_view(self.nickname),
            verify_token: token_view(self.verify_token),
            ciphers: pair_view(self.ciphers),
            disconnecting: self.disconnecting,
        }
    }
}

impl SessionView {
    /// A connection that has just been opened.
    pub open spec fn fresh() -> SessionView {
        SessionView {
            state: ConnectionState::Handshaking,
            nickname: None,
            verify_token: None,
            ciphers: None,
            disconnecting: false,
        }
    }

    /// What holds of every session that the moves can reach: a verify token
    /// is outstanding only during login, for a client that gave its name
    /// and has no cipher yet; ciphers exist only during login and play; and
    /// play is reached with ciphers only.
    pub open spec fn reachable(self) -> bool {
        &&& self.verify_token is Some ==> self.state == ConnectionState::Login && self.nickname is Some
            && self.ciphers is None && self.verify_token->0.len() == 4
        &&& self.nickname is Some ==> self.state == ConnectionState::Login || self.state
            == ConnectionState::Play
        &&& self.ciphers is Some ==> self.nickname is Some
        &&& self.state == ConnectionState::Play ==> self.ciphers is Some
    }
}

/// The reply that tells a client why its connection is closed. Only the
/// login and play phases have one.
pub open spec fn disconnect_reply(state: ConnectionState, error: HandshakeError) -> Option<
    PacketView,
> {
    match state {
        ConnectionState::Login => Some(PacketView::DisconnectLogin { reason: error.reason() }),
        ConnectionState::Play => Some(PacketView::DisconnectPlay { reason: error.reason() }),
        _ => None,
    }
}

/// Closing a connection: it is marked, its phase stays, and the client is
/// told where the phase has a packet for that.
pub open spec fn refuse(s: SessionView, error: HandshakeError) -> (SessionView, ActionView) {
    (
        SessionView { disconnecting: true, ..s },
        ActionView::Disconnect { error, reply: disconnect_reply(s.state, error) },
    )
}

/// A handshake moves a new connection on to the status phase or to the
/// login phase; any other wish closes it.
pub open spec fn on_handshake(s: SessionView, next_state: u8) -> (SessionView, ActionView) {
    if s.disconnecting {
        (s, ActionView::Nothing)
    } else if s.state != ConnectionState::Handshaking {
        refuse(s, HandshakeError::WrongStateForPacket)
    } else if next_state == 1 {
        (SessionView { state: ConnectionState::Status, ..s }, ActionView::Nothing)
    } else if next_state == 2 {
        (SessionView { state: ConnectionState::Login, ..s }, ActionView::Nothing)
    } else {
        refuse(s, HandshakeError::InvalidNextState)
    }
}

/// A status request is answered with the status document.
pub open spec fn on_status_request(s: SessionView) -> (SessionView, ActionView) {
    if s.disconnecting {
        (s, ActionView::Nothing)
    } else if s.state != ConnectionState::Status {
        refuse(s, HandshakeError::WrongStateForPacket)
    } else {
        (s, ActionView::StatusQuery)
    }
}

/// A ping is answered with a pong of the same number.
pub open spec fn on_ping(s: SessionView, ping: i64) -> (SessionView, ActionView) {
    if s.disconnecting {
        (s, ActionView::Nothing)
    } else if s.state != ConnectionState::Status {
        refuse(s, HandshakeError::WrongStateForPacket)
    } else {
        (s, ActionView::Send(PacketView::Pong { pong: ping }))
    }
}

/// A keep-alive during play needs no answer.
pub open spec fn on_keep_alive(s: SessionView) -> (SessionView, ActionView) {
    if s.disconnecting {
        (s, ActionView::Nothing)
    } else if s.state != ConnectionState::Play {
        refuse(s, HandshakeError::WrongStateForPacket)
    } else {
        (s, ActionView::Nothing)
    }
}

/// A packet that the server does not receive closes the connection.
pub open spec fn on_unexpected(s: SessionView) -> (SessionView, ActionView) {
    if s.disconnecting {
        (s, ActionView::Nothing)
    } else {
        refuse(s, HandshakeError::WrongStateForPacket)
    }
}

/// The start of a login: the session keeps the claimed name and the token,
/// and the client is sent the public key and the token. A client logs in
/// once.
pub open spec fn on_login_start(
    s: SessionView,
    nickname: Seq<char>,
    token: Seq<u8>,
    public_key: Seq<u8>,
) -> (SessionView, ActionView) {
    if s.disconnecting {
        (s, ActionView::Nothing)
    } else if s.state != ConnectionState::Login || s.nickname is Some {
        refuse(s, HandshakeError::WrongStateForPacket)
    } else {
        (
            SessionView { nickname: Some(nickname), verify_token: Some(token), ..s },
            ActionView::Send(
                PacketView::EncryptionRequest {
                    server: Seq::empty(),
                    public_key,
                    verify_token: token,
                },
            ),
        )
    }
}

/// Whether the token that came back is the one that was sent.
pub open spec fn token_matches(sent: Option<Seq<u8>>, returned: Option<Seq<u8>>) -> bool {
    match (sent, returned) {
        (Some(a), Some(b)) => a == b,
        _ => false,
    }
}

/// Whether the shared secret was decrypted and is a 128-bit key.
pub open spec fn secret_accepted(secret: Option<Seq<u8>>) -> bool {
    match secret {
        Some(s) => usable_secret(s),
        None => false,
    }
}

/// The answer to the encryption request, after decryption. The token is
/// used up whatever comes of it. Only where the token matches and the
/// secret is accepted are the ciphers made; then the player's identity is to
/// be confirmed under the session hash.
pub open spec fn on_key_exchange(
    s: SessionView,
    token: Option<Seq<u8>>,
    secret: Option<Seq<u8>>,
    public_key: Seq<u8>,
) -> (SessionView, ActionView) {
    let used = SessionView { verify_token: None, ..s };
    if s.disconnecting {
        (s, ActionView::Nothing)
    } else if s.state != ConnectionState::Login {
        refuse(s, HandshakeError::WrongStateForPacket)
    } else if !token_matches(s.verify_token, token) {
        refuse(used, HandshakeError::VerifyTokenMismatch)
    } else if !secret_accepted(secret) {
        refuse(used, HandshakeError::DecryptionFailed)
    } else {
        (
            SessionView { ciphers: Some(ciphers_of(secret->0)), ..used },
            ActionView::VerifySession {
                nickname: match s.nickname {
                    Some(name) => name,
                    None => Seq::empty(),
                },
                session_hash: session_hash_text(Seq::empty(), secret->0, public_key),
            },
        )
    }
}

/// The answer of the session-verification service. A confirmed player
/// enters the play phase under the confirmed identity; a player that is not
/// confirmed is turned away. There is nothing to confirm before the
/// connection is encrypted.
pub open spec fn on_confirmation(s: SessionView, confirmed: Option<ProfileView>) -> (
    SessionView,
    ActionView,
) {
    if s.disconnecting {
        (s, ActionView::Nothing)
    } else if s.state != ConnectionState::Login || s.ciphers is None {
        refuse(s, HandshakeError::WrongStateForPacket)
    } else {
        match confirmed {
            Some(profile) => (
                SessionView { state: ConnectionState::Play, ..s },
                ActionView::Send(
                    PacketView::LoginSuccess { uuid: profile.uuid, nickname: profile.name },
                ),
            ),
            None => refuse(s, HandshakeError::SessionVerificationRejected),
        }
    }
}

impl ClientSession {
    /// The session of a connection that has just been opened.
    pub fn new() -> (session: ClientSession)
        ensures
            session@ == SessionView::fresh(),
            session@.reachable(),
    {
        ClientSession {
            state: ConnectionState::Handshaking,
            nickname: None,
            verify_token: None,
            ciphers: None,
            disconnecting: false,
        }
    }

    /// The phase of the connection.
    pub fn state(&self) -> (state: ConnectionState)
        ensures
            state == self@.state,
    {
        self.state
    }

    /// The name the client claimed when it started to log in.
    pub fn nickname(&self) -> (nickname: &Option<String>)
        ensures
            text_view(*nickname) == self@.nickname,
    {
        &self.nickname
    }

    /// The verify token that the client has been sent and not yet answered.
    pub fn verify_token(&self) -> (token: Option<[u8; 4]>)
        ensures
            token_view(token) == self@.verify_token,
    {
        self.verify_token
    }

    /// The ciphers of the connection, once it is encrypted.
    pub fn ciphers(&self) -> (ciphers: Option<CipherPair>)
        ensures
            pair_view(ciphers) == self@.ciphers,
    {
        self.ciphers
    }

    /// Whether the connection is encrypted.
    pub fn is_encrypted(&self) -> (encrypted: bool)
        ensures
            encrypted == (self@.ciphers is Some),
    {
        self.ciphers.is_some()
    }

    /// Whether the connection is about to be closed.
    pub fn is_disconnecting(&self) -> (disconnecting: bool)
        ensures
            disconnecting == self@.disconnecting,
    {
        self.disconnecting
    }

    /// Whether `returned` is the verify token that the client was sent.
    pub fn token_matches(&self, returned: &Option<Vec<u8>>) -> (matches: bool)
        ensures
            matches == token_matches(self@.verify_token, bytes_view(*returned)),
    {
        match (self.verify_token, returned) {
            (Some(a), Some(b)) => same_bytes(a.as_slice(), b.as_slice()),
            _ => false,
        }
    }

    /// Marks the connection as about to be closed, as the transport does
    /// when the client is gone: nothing more is taken from it.
    pub fn close(&mut self)
        ensures
            final(self)@ == (SessionView { disconnecting: true, ..old(self)@ }),
            old(self)@.reachable() ==> final(self)@.reachable(),
    {
        self.disconnecting = true;
    }

    /// Closes the connection for `error`.
    pub fn refuse(&mut self, error: HandshakeError) -> (action: Action)
        ensures
            (final(self)@, action@) == refuse(old(self)@, error),
            old(self)@.reachable() ==> final(self)@.reachable(),
    {
        self.disconnecting = true;
        let reply = match self.state {
            ConnectionState::Login => Some(Packet::DisconnectLogin { reason: error.describe() }),
            ConnectionState::Play => Some(Packet::DisconnectPlay { reason: error.describe() }),
            _ => None,
        };
        Action::Disconnect { error, reply }
    }

    /// Takes a handshake.
    pub fn handshake(&mut self, next_state: u8) -> (action: Action)
        ensures
            (final(self)@, action@) == on_handshake(old(self)@, next_state),
            old(self)@.reachable() ==> final(self)@.reachable(),
    {
        if self.disconnecting {
            Action::Nothing
        } else if self.state != ConnectionState::Handshaking {
            self.refuse(HandshakeError::WrongStateForPacket)
        } else if next_state == 1 {
            self.state = ConnectionState::Status;
            Action::Nothing
        } else if next_state == 2 {
            self.state = ConnectionState::Login;
            Action::Nothing
        } else {
            self.refuse(HandshakeError::InvalidNextState)
        }
    }

    /// Takes a status request.
    pub fn status_request(&mut self) -> (action: Action)
        ensures
            (final(self)@, action@) == on_status_request(old(self)@),
            old(self)@.reachable() ==> final(self)@.reachable(),
    {
        if self.disconnecting {
            Action::Nothing
        } else if self.state != ConnectionState::Status {
            self.refuse(HandshakeError::WrongStateForPacket)
        } else {
            Action::StatusQuery
        }
    }

    /// Takes a ping.
    pub fn ping(&mut self, ping: i64) -> (action: Action)
        ensures
            (final(self)@, action@) == on_ping(old(self)@, ping),
            old(self)@.reachable() ==> final(self)@.reachable(),
    {
        if self.disconnecting {
            Action::Nothing
        } else if self.state != ConnectionState::Status {
            self.refuse(HandshakeError::WrongStateForPacket)
        } else {
            Action::Send(Packet::Pong { pong: ping })
        }
    }

    /// Takes a keep-alive.
    pub fn keep_alive(&mut self) -> (action: Action)
        ensures
            (final(self)@, action@) == on_keep_alive(old(self)@),
            old(self)@.reachable() ==> final(self)@.reachable(),
    {
        if self.disconnecting {
            Action::Nothing
        } else if self.state != ConnectionState::Play {
            self.refuse(HandshakeError::WrongStateForPacket)
        } else {
            Action::Nothing
        }
    }

    /// Takes a packet that the server does not receive.
    pub fn unexpected(&mut self) -> (action: Action)
        ensures
            (final(self)@, action@) == on_unexpected(old(self)@),
            old(self)@.reachable() ==> final(self)@.reachable(),
    {
        if self.disconnecting {
            Action::Nothing
        } else {
            self.refuse(HandshakeError::WrongStateForPacket)
        }
    }

    /// Starts a login under the claimed name, with `token` as the verify
    /// token and `public_key` as the key that the client is to encrypt to.
    pub fn login_start(&mut self, nickname: String, token: [u8; 4], public_key: &Vec<u8>) -> (action:
        Action)
        ensures
            (final(self)@, action@) == on_login_start(old(self)@, nickname@, token@, public_key@),
            old(self)@.reachable() ==> final(self)@.reachable(),
    {
        if self.disconnecting {
            Action::Nothing
        } else if self.state != ConnectionState::Login || self.nickname.is_some() {
            self.refuse(HandshakeError::WrongStateForPacket)
        } else {
            self.nickname = Some(nickname);
            self.verify_token = Some(token);
            let verify_token = slice_to_vec(token.as_slice());
            Action::Send(
                Packet::EncryptionRequest {
                    server: String::new(),
                    public_key: public_key.clone(),
                    verify_token,
                },
            )
        }
    }

    /// Completes the key exchange with what the client's answer decrypts
    /// to: the verify token and the shared secret, each missing where its
    /// decryption failed.
    pub fn key_exchange(
        &mut self,
        token: Option<Vec<u8>>,
        secret: Option<Vec<u8>>,
        public_key: &Vec<u8>,
    ) -> (action: Action)
        ensures
            (final(self)@, action@) == on_key_exchange(
                old(self)@,
                bytes_view(token),
                bytes_view(secret),
                public_key@,
            ),
            old(self)@.reachable() ==> final(self)@.reachable(),
    {
        if self.disconnecting {
            return Action::Nothing;
        }
        if self.state != ConnectionState::Login {
            return self.refuse(HandshakeError::WrongStateForPacket);
        }
        let matches = self.token_matches(&token);
        self.verify_token = None;
        if !matches {
            return self.refuse(HandshakeError::VerifyTokenMismatch);
        }
        let secret = match secret {
            Some(s) => s,
            None => {
                return self.refuse(HandshakeError::DecryptionFailed);
            },
        };
        let pair = match CipherPair::from_secret(secret.as_slice()) {
            Some(p) => p,
            None => {
                return self.refuse(HandshakeError::DecryptionFailed);
            },
        };
        self.ciphers = Some(pair);
        let nickname = match &self.nickname {
            Some(name) => name.clone(),
            None => String::new(),
        };
        let server_id: Vec<u8> = Vec::new();
        Action::VerifySession {
            nickname,
            session_hash: session_hash(
                server_id.as_slice(),
                secret.as_slice(),
                public_key.as_slice(),
            ),
        }
    }

    /// Ends the login with the answer of the session-verification service:
    /// the confirmed profile, or nothing where the player was not confirmed.
    pub fn finish_login(&mut self, confirmed: Option<Profile>) -> (action: Action)
        ensures
            (final(self)@, action@) == on_confirmation(old(self)@, profile_view(confirmed)),
            old(self)@.reachable() ==> final(self)@.reachable(),
    {
        if self.disconnecting {
            Action::Nothing
        } else if self.state != ConnectionState::Login || self.ciphers.is_none() {
            self.refuse(HandshakeError::WrongStateForPacket)
        } else {
            match confirmed {
                Some(profile) => {
                    self.state = ConnectionState::Play;
                    Action::Send(
                        Packet::LoginSuccess { uuid: profile.uuid, nickname: profile.name },
                    )
                },
                None => self.refuse(HandshakeError::SessionVerificationRejected),
            }
        }
    }
}

/// Whether two byte strings are the same.
pub fn same_bytes(a: &[u8], b: &[u8]) -> (same: bool)
    ensures
        same == (a@ == b@),
{
    if a.len() != b.len() {
        return false;
    }
    let mut i: usize = 0;
    while i < a.len()
        invariant
            i <= a@.len(),
            a@.len() == b@.len(),
            forall|j: int| 0 <= j < i ==> a@[j] == b@[j],
        decreases a@.len() - i,
    {
        if a[i] != b[i] {
            return false;
        }
        i = i + 1;
    }
    assert(a@ =~= b@);
    true
}

} // verus!
