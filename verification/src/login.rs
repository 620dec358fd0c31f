//! What a client says to the server: to register, to log in and to tell where
//! it can be reached.

use vstd::prelude::*;
use vstd::string::StringExecFns;
use vstd::utf8::encode_utf8;

use crate::bytes::copy_bytes;
use crate::crypto::signature_judged;
use crate::identity::LocalIdentity;
use crate::identity::{hashable, password_key};
use crate::primitives::{chacha_nonce, ed25519_generate, random_array};
use crate::primitives::{
    argon2id_key, chacha_open, chacha_seal, ed25519_public_key, ed25519_signature, null_commitment,
};
use crate::protocol::{ClientMessage, ClientMessageView, ServerMessage, ServerMessageView};

verus! {

/// Why a client did not get what it asked of the server.
#[derive(Debug, Clone)]
pub enum RequestError {
    /// The client has no id yet.
    NoDiddyId,
    /// The server refused, and said why.
    Refused(String),
    /// The server said something else.
    Unexpected(ServerMessage),
}

impl RequestError {
    /// What to tell the user, where that takes no account of a whole message.
    pub open spec fn text(self) -> Option<Seq<char>> {
        match self {
            RequestError::NoDiddyId => Some("no diddy_id"@),
            RequestError::Refused(reason) => Some(reason@),
            RequestError::Unexpected(_) => None,
        }
    }

    /// What to tell the user: that there is no id, or the server's reason. What
    /// the server said instead of an answer is left to whoever can print it.
    pub fn message(&self) -> (text: Option<String>)
        ensures
            match text {
                Some(t) => self.text() == Some(t@),
                None => self.text() is None,
            },
            match self {
                RequestError::NoDiddyId => text matches Some(t) && t@ == "no diddy_id"@,
                RequestError::Refused(reason) => text matches Some(t) && t@ == reason@,
                RequestError::Unexpected(_) => text is None,
            },
    {
        match self {
            RequestError::NoDiddyId => Some("no diddy_id".to_owned()),
            RequestError::Refused(reason) => Some(reason.clone()),
            RequestError::Unexpected(_) => None,
        }
    }
}

/// The server refused for `reason`.
pub open spec fn refused(error: RequestError, reason: Seq<char>) -> bool {
    error matches RequestError::Refused(r) && r@ == reason
}

// ---------------------------------------------------------------------------
// Logging in
// ---------------------------------------------------------------------------

/// The request to log in.
pub fn login_request(identity: &LocalIdentity) -> (out: Result<ClientMessage, RequestError>)
    ensures
        match identity.diddy_id {
            Some(diddy_id) => out matches Ok(m) && m@ == (ClientMessageView::LoginRequest {
                diddy_id,
            }),
            None => out matches Err(e) && e is NoDiddyId,
        },
        identity.diddy_id matches Some(id) ==> (out matches Ok(
            ClientMessage::LoginRequest { diddy_id },
        ) && diddy_id == id),
{
    match identity.diddy_id {
        Some(diddy_id) => Ok(ClientMessage::LoginRequest { diddy_id }),
        None => Err(RequestError::NoDiddyId),
    }
}

/// The answer to what the server says to a request to log in as `diddy_id`:
/// a signature on its challenge.
pub fn answer_challenge(
    identity: &LocalIdentity,
    diddy_id: u128,
    reply: ServerMessage,
) -> (out: Result<ClientMessage, RequestError>)
    requires
        reply@ is AuthChallenge ==> identity.seed() is Some,
    ensures
        match reply@ {
            ServerMessageView::AuthChallenge { challenge } => {
                let signature = ed25519_signature(identity.seed()->0, challenge);
                out matches Ok(m) && m@ == (ClientMessageView::LoginChallengeResponse {
                    diddy_id,
                    signature,
                }) && (!null_commitment(signature) ==> signature_judged(
                    ed25519_public_key(identity.seed()->0),
                    challenge,
                    signature,
                ) is Ok)
            },
            ServerMessageView::LoginError { reason } => out matches Err(e) && refused(e, reason),
            _ => out matches Err(RequestError::Unexpected(m)) && m == reply,
        },
        match reply {
            ServerMessage::AuthChallenge { challenge } => out matches Ok(
                ClientMessage::LoginChallengeResponse { diddy_id: id, signature },
            ) && id == diddy_id && signature@ == ed25519_signature(
                identity.signing_key->0@,
                challenge@,
            ),
            ServerMessage::LoginError { reason } => out matches Err(RequestError::Refused(r)) && r
                == reason,
            _ => out matches Err(RequestError::Unexpected(m)) && m == reply,
        },
{
    match reply {
        ServerMessage::AuthChallenge { challenge } => {
            let signature = identity.sign(challenge.as_slice());
            Ok(ClientMessage::LoginChallengeResponse { diddy_id, signature })
        },
        ServerMessage::LoginError { reason } => Err(RequestError::Refused(reason)),
        other => Err(RequestError::Unexpected(other)),
    }
}

/// Whether the server let the client in.
pub fn login_outcome(reply: ServerMessage) -> (out: Result<(), RequestError>)
    ensures
        match reply@ {
            ServerMessageView::LoginSuccess => out is Ok,
            ServerMessageView::LoginError { reason } => out matches Err(e) && refused(e, reason),
            _ => out matches Err(RequestError::Unexpected(m)) && m == reply,
        },
        match reply {
            ServerMessage::LoginSuccess => out is Ok,
            ServerMessage::LoginError { reason } => out matches Err(RequestError::Refused(r)) && r
                == reason,
            _ => out matches Err(RequestError::Unexpected(m)) && m == reply,
        },
{
    match reply {
        ServerMessage::LoginSuccess => Ok(()),
        ServerMessage::LoginError { reason } => Err(RequestError::Refused(reason)),
        other => Err(RequestError::Unexpected(other)),
    }
}

// ---------------------------------------------------------------------------
// Registering
// ---------------------------------------------------------------------------

/// `identity` was just made from `seed` and `salt` and locked with a password
/// and `nonce`.
pub open spec fn newly_locked(
    identity: LocalIdentity,
    seed: Seq<u8>,
    salt: Seq<u8>,
    nonce: Seq<u8>,
    password: Seq<char>,
) -> bool {
    &&& identity.seed() is None
    &&& identity.pubkey@ == ed25519_public_key(seed)
    &&& identity.salt@ == salt
    &&& identity.seal_nonce() == nonce
    &&& identity.sealed_key() == chacha_seal(password_key(password, salt), nonce, seed)
    &&& identity.opens_to(password) == Some(seed)
    &&& seed.len() == 32
    &&& identity.diddy_id is None
    &&& identity.server_signature is None
}

/// The request to register an identity under a password.
pub open spec fn registration_of(identity: LocalIdentity, password: Seq<char>) -> ClientMessageView {
    ClientMessageView::Register {
        pubkey: identity.pubkey@,
        pwd_hash: password_key(password, identity.salt@),
        salt: identity.salt@,
    }
}

/// A new identity with a given signing key, salt and nonce, locked with
/// `password`, and the request to register it.
pub fn start_registration_with(
    seed: &[u8; 32],
    salt: [u8; 16],
    nonce: [u8; 12],
    password: &str,
) -> (out: (LocalIdentity, ClientMessage))
    requires
        hashable(password),
    ensures
        newly_locked(out.0, seed@, salt@, nonce@, password@),
        out.1@ == registration_of(out.0, password@),
        out.1 matches ClientMessage::Register { pubkey, pwd_hash, salt: sent_salt } && {
            &&& pubkey == out.0.pubkey
            &&& pwd_hash@ == argon2id_key(encode_utf8(password@), out.0.salt@)
            &&& sent_salt == out.0.salt
        },
        out.0.signing_key is None,
        out.0.diddy_id is None,
        out.0.server_signature is None,
        out.0.pubkey@ == ed25519_public_key(seed@),
        out.0.salt == salt,
        out.0.nonce == nonce,
        out.0.encrypted_privkey@ == chacha_seal(
            argon2id_key(encode_utf8(password@), salt@),
            nonce@,
            seed@,
        ),
        chacha_open(
            argon2id_key(encode_utf8(password@), salt@),
            nonce@,
            out.0.encrypted_privkey@,
        ) == Some(seed@),
{
    let mut identity = LocalIdentity::from_seed(seed, salt);
    let pwd_hash = identity.pwd_hash(password);
    let request = ClientMessage::Register { pubkey: identity.pubkey, pwd_hash, salt };
    identity.lock_with_nonce(password, nonce);
    (identity, request)
}

/// A new random identity, locked with `password`, and the request to register
/// it.
pub fn start_registration(password: &str) -> (out: (LocalIdentity, ClientMessage))
    requires
        hashable(password),
    ensures
        exists|seed: Seq<u8>| #[trigger]
            newly_locked(out.0, seed, out.0.salt@, out.0.seal_nonce(), password@),
        out.1@ == registration_of(out.0, password@),
        out.1 matches ClientMessage::Register { pubkey, pwd_hash, salt: sent_salt } && {
            &&& pubkey == out.0.pubkey
            &&& pwd_hash@ == argon2id_key(encode_utf8(password@), out.0.salt@)
            &&& sent_salt == out.0.salt
        },
        out.0.signing_key is None,
        out.0.diddy_id is None,
        out.0.server_signature is None,
        chacha_open(
            argon2id_key(encode_utf8(password@), out.0.salt@),
            out.0.nonce@,
            out.0.encrypted_privkey@,
        ) matches Some(seed) && out.0.pubkey@ == ed25519_public_key(seed),
{
    let seed = ed25519_generate();
    let salt: [u8; 16] = random_array();
    let out = start_registration_with(&seed, salt, chacha_nonce(), password);
    assert(newly_locked(out.0, seed@, out.0.salt@, out.0.seal_nonce(), password@));
    out
}

/// Takes the server's answer to a request to register: the id and the
/// signature that it gives become the identity's.
pub fn registration_outcome(identity: &mut LocalIdentity, reply: ServerMessage) -> (out: Result<
    (),
    RequestError,
>)
    ensures
        match reply@ {
            ServerMessageView::RegistrationSuccess { diddy_id, signature } => {
                &&& out is Ok
                &&& final(identity).diddy_id == Some(diddy_id)
                &&& final(identity).server_signature matches Some(s) && s@ == signature
                &&& final(identity).pubkey == old(identity).pubkey
                &&& final(identity).salt == old(identity).salt
                &&& final(identity).sealed_key() == old(identity).sealed_key()
                &&& final(identity).seal_nonce() == old(identity).seal_nonce()
                &&& final(identity).seed() == old(identity).seed()
            },
            ServerMessageView::RegistrationError { reason } => {
                &&& out matches Err(e) && refused(e, reason)
                &&& *final(identity) == *old(identity)
            },
            _ => {
                &&& out matches Err(RequestError::Unexpected(m)) && m == reply
                &&& *final(identity) == *old(identity)
            },
        },
        match reply {
            ServerMessage::RegistrationSuccess { diddy_id, signature } => {
                &&& out is Ok
                &&& final(identity).diddy_id == Some(diddy_id)
                &&& final(identity).server_signature matches Some(s) && s@ == signature@
                &&& final(identity).pubkey == old(identity).pubkey
                &&& final(identity).salt == old(identity).salt
                &&& final(identity).encrypted_privkey == old(identity).encrypted_privkey
                &&& final(identity).nonce == old(identity).nonce
                &&& final(identity).signing_key == old(identity).signing_key
            },
            ServerMessage::RegistrationError { reason } => {
                &&& out matches Err(RequestError::Refused(r)) && r == reason
                &&& *final(identity) == *old(identity)
            },
            _ => {
                &&& out matches Err(RequestError::Unexpected(m)) && m == reply
                &&& *final(identity) == *old(identity)
            },
        },
{
    match reply {
        ServerMessage::RegistrationSuccess { diddy_id, signature } => {
            identity.diddy_id = Some(diddy_id);
            identity.server_signature = Some(copy_bytes(signature.as_slice()));
            Ok(())
        },
        ServerMessage::RegistrationError { reason } => Err(RequestError::Refused(reason)),
        other => Err(RequestError::Unexpected(other)),
    }
}

/// What to tell a user whose registration the server refused.
pub fn registration_refusal(reason: &str) -> (text: String)
    ensures
        text@ == "registration failed: "@ + reason@,
{
    let mut text = "registration failed: ".to_owned();
    text.append(reason);
    text
}

// ---------------------------------------------------------------------------
// Being reachable
// ---------------------------------------------------------------------------

/// The port after `port`; the first comes after the last.
pub open spec fn next_port(port: u16) -> u16 {
    if port == u16::MAX {
        0
    } else {
        (port + 1) as u16
    }
}

/// The announcement that this client waits for peers on `port`.
pub fn announcement(port: u16) -> (request: ClientMessage)
    ensures
        request@ == (ClientMessageView::Announce { tcp_port: port, udp_port: next_port(port) }),
        request matches ClientMessage::Announce { tcp_port, udp_port } && tcp_port == port
            && udp_port as int == (port + 1) % 65536,
{
    ClientMessage::Announce { tcp_port: port, udp_port: port.wrapping_add(1) }
}

/// The port after the last is the first; any other is followed by the one that
/// is greater by one.
pub proof fn law_next_port(port: u16)
    ensures
        next_port(port) as int == (port + 1) % 65536,
{
}

/// Registering shows the server the public key, the salt and the Argon2id key
/// of the whole password, and leaves the signing key sealed under that key.
pub proof fn law_registration_request(
    identity: LocalIdentity,
    seed: Seq<u8>,
    salt: Seq<u8>,
    nonce: Seq<u8>,
    password: Seq<char>,
)
    requires
        newly_locked(identity, seed, salt, nonce, password),
    ensures
        registration_of(identity, password) == (ClientMessageView::Register {
            pubkey: ed25519_public_key(seed),
            pwd_hash: argon2id_key(encode_utf8(password), salt),
            salt,
        }),
        identity.signing_key is None,
        identity.salt@ == salt,
        identity.nonce@ == nonce,
        identity.encrypted_privkey@ == chacha_seal(
            argon2id_key(encode_utf8(password), salt),
            nonce,
            seed,
        ),
        identity.diddy_id is None,
        identity.server_signature is None,
{
}

} // verus!
