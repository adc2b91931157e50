//! Wire-protocol core of a multiplayer game server: the binary codec, the
//! packet model, the per-connection phase machine and the login handshake.
//!
//! The codec is in [`varint`], [`bigendian`], [`bytes`], [`position`],
//! [`reader`] and [`writer`]; the packets are in [`packets`] and [`ping`], their envelope
//! in [`envelope`]. A connection is a [`session::ClientSession`], whose
//! phase is a [`state::ConnectionState`]; [`login_handler`] moves it with
//! what the client sends, with the keys of [`crypto`] and the session hash
//! of [`digest`]. What holds of all of it together is proved in [`laws`].

pub mod bigendian;
pub mod bytes;
pub mod crypto;
pub mod digest;
pub mod envelope;
pub mod error;
pub mod hex;
pub mod identity;
pub mod laws;
pub mod login_handler;
pub mod packets;
pub mod ping;
pub mod position;
pub mod reader;
pub mod session;
pub mod state;
pub mod varint;
pub mod writer;
