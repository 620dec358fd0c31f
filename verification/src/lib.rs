//! Core of a peer-to-peer messenger whose identities are vouched for by a
//! single server.

pub mod bytes;
pub mod decimal;
pub mod primitives;
pub mod crypto;
pub mod protocol;
pub mod codec;
pub mod store;
pub mod identity;
pub mod message_id;
pub mod text;
pub mod command;
pub mod chat;
pub mod sync;
pub mod handshake;
pub mod laws;
pub mod login;
pub mod directory;
pub mod server;
