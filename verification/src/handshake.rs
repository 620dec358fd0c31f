//! How two peers who connect come to trust each other: each shows that the
//! server vouches for its key, the one who called proves that it holds that
//! key, and both agree on a key for the conversation.
//!
//! Every message says what its sender claims; what a claim is worth depends on
//! the server's public key, which the functions take as an argument where they
//! do not use `SERVER_PUBKEY`.

use vstd::prelude::*;

use crate::bytes::{array_at, copy_bytes};
use crate::crypto::law_both_sides_agree;
use crate::crypto::{agreed, diddy_id_of, signature_judged};
use crate::crypto::{
    compute_diddy_id, derive_shared_secret, verify_diddy, verify_message_sig, EphemeralSecret,
    SignatureError, SERVER_PUBKEY,
};
use crate::identity::LocalIdentity;
use crate::primitives::random_array;
use crate::primitives::{
    ed25519_key_decodes, ed25519_public_key, ed25519_signature, ed25519_verifies, null_commitment,
    reduced_scalar, x25519_product, x25519_public_key,
};
use crate::protocol::{Packet, PacketView};

verus! {

/// Why two peers did not come together.
#[derive(Debug, Clone, Copy, PartialEq, Eq, Structural)]
pub enum HandshakeError {
    /// The caller did not introduce itself.
    ExpectedHandshakeInit,
    /// The one who was called did not ask for proof.
    ExpectedChallenge,
    /// The caller gave no proof.
    ExpectedChallengeResponse,
    /// The peer claims an id that does not go with its key.
    IdMismatch,
    /// The peer shows no signature of the server, or only a part of one.
    Unsigned,
    /// A signature was turned down: the server's or the peer's.
    Signature(SignatureError),
}

impl HandshakeError {
    /// What to tell the user.
    pub open spec fn text(self) -> Seq<char> {
        match self {
            HandshakeError::ExpectedHandshakeInit => "expected HandshakeInit"@,
            HandshakeError::ExpectedChallenge => "expected Challenge"@,
            HandshakeError::ExpectedChallengeResponse => "expected ChallengeResponse"@,
            HandshakeError::IdMismatch => "peer diddy_id mismatch"@,
            HandshakeError::Unsigned => "peer identity unsigned"@,
            HandshakeError::Signature(e) => e.text(),
        }
    }

    /// What to tell the user.
    pub fn message(&self) -> (text: String)
        ensures
            text@ == self.text(),
            match self {
                HandshakeError::ExpectedHandshakeInit => text@ == "expected HandshakeInit"@,
                HandshakeError::ExpectedChallenge => text@ == "expected Challenge"@,
                HandshakeError::ExpectedChallengeResponse => text@
                    == "expected ChallengeResponse"@,
                HandshakeError::IdMismatch => text@ == "peer diddy_id mismatch"@,
                HandshakeError::Unsigned => text@ == "peer identity unsigned"@,
                HandshakeError::Signature(e) => text@ == e.text(),
            },
    {
        match self {
            HandshakeError::ExpectedHandshakeInit => "expected HandshakeInit".to_owned(),
            HandshakeError::ExpectedChallenge => "expected Challenge".to_owned(),
            HandshakeError::ExpectedChallengeResponse => "expected ChallengeResponse".to_owned(),
            HandshakeError::IdMismatch => "peer diddy_id mismatch".to_owned(),
            HandshakeError::Unsigned => "peer identity unsigned".to_owned(),
            HandshakeError::Signature(e) => e.message(),
        }
    }
}

// ---------------------------------------------------------------------------
// Who the peer is
// ---------------------------------------------------------------------------

/// A peer that the server vouches for, and its half of the key agreement.
pub struct Peer {
    pub id: u128,
    pub pubkey: [u8; 32],
    pub encryption_pubkey: [u8; 32],
}

/// What a `Peer` says.
pub struct PeerView {
    pub id: u128,
    pub pubkey: Seq<u8>,
    pub encryption_pubkey: Seq<u8>,
}

impl View for Peer {
    type V = PeerView;

    open spec fn view(&self) -> PeerView {
        PeerView {
            id: self.id,
            pubkey: self.pubkey@,
            encryption_pubkey: self.encryption_pubkey@,
        }
    }
}

/// What to make of a peer's claim to an id: the id must go with the key, and
/// `server_signature` must begin with 64 bytes that are the server's signature
/// on the key.
pub open spec fn claim_judged(
    id: u128,
    pubkey: Seq<u8>,
    server_signature: Seq<u8>,
    server_pubkey: Seq<u8>,
) -> Result<(), HandshakeError> {
    if id as nat != diddy_id_of(pubkey) {
        Err(HandshakeError::IdMismatch)
    } else if server_signature.len() < 64 {
        Err(HandshakeError::Unsigned)
    } else {
        match signature_judged(server_pubkey, pubkey, server_signature.take(64)) {
            Ok(_) => Ok(()),
            Err(e) => Err(HandshakeError::Signature(e)),
        }
    }
}

/// The server's signature in a claim, given the id that goes with the key.
pub fn claimed_signature(id: u128, actual_id: u128, server_signature: &Vec<u8>) -> (out: Result<
    [u8; 64],
    HandshakeError,
>)
    ensures
        if id != actual_id {
            out matches Err(e) && e == HandshakeError::IdMismatch
        } else if server_signature@.len() < 64 {
            out matches Err(e) && e == HandshakeError::Unsigned
        } else {
            out matches Ok(s) && s@ == server_signature@.take(64)
        },
{
    if id != actual_id {
        return Err(HandshakeError::IdMismatch);
    }
    if server_signature.len() < 64 {
        return Err(HandshakeError::Unsigned);
    }
    assert(server_signature@.subrange(0, 64) =~= server_signature@.take(64));
    Ok(array_at(server_signature.as_slice(), 0))
}

fn check_claim(
    id: u128,
    pubkey: &[u8; 32],
    server_signature: &Vec<u8>,
    server_pubkey: &[u8; 32],
) -> (out: Result<(), HandshakeError>)
    ensures
        match claim_judged(id, pubkey@, server_signature@, server_pubkey@) {
            Ok(_) => out is Ok,
            Err(e) => out matches Err(f) && f == e,
        },
        out is Ok <==> id as nat == diddy_id_of(pubkey@) && server_signature@.len() >= 64
            && ed25519_verifies(server_pubkey@, pubkey@, server_signature@.take(64)),
{
    match claimed_signature(id, compute_diddy_id(pubkey), server_signature) {
        Ok(signature) => match verify_diddy(pubkey, &signature, server_pubkey) {
            Ok(_) => Ok(()),
            Err(e) => Err(HandshakeError::Signature(e)),
        },
        Err(e) => Err(e),
    }
}

// ---------------------------------------------------------------------------
// The conversation key
// ---------------------------------------------------------------------------

/// Two peers who trust each other.
pub struct Session {
    pub key: [u8; 32],
    pub peer_pubkey: [u8; 32],
    pub peer_id: u128,
}

impl Session {
    /// The session is with `peer`, under the key that `secret` agrees on with it.
    pub open spec fn is_with(&self, peer: PeerView, secret: Seq<u8>) -> bool {
        &&& self.peer_id == peer.id
        &&& self.peer_pubkey@ == peer.pubkey
        &&& agreed(secret, peer.encryption_pubkey, self.key@)
    }
}

fn session(secret: EphemeralSecret, peer: Peer) -> (s: Session)
    ensures
        s.is_with(peer@, secret.bytes@),
        s.key@ == x25519_product(secret.bytes@, peer.encryption_pubkey@),
        s.peer_pubkey == peer.pubkey,
        s.peer_id == peer.id,
{
    Session {
        key: derive_shared_secret(secret, &peer.encryption_pubkey),
        peer_pubkey: peer.pubkey,
        peer_id: peer.id,
    }
}

// ---------------------------------------------------------------------------
// The one who is called
// ---------------------------------------------------------------------------

/// Who a caller is, from its first packet.
pub open spec fn introduced(packet: PacketView, server_pubkey: Seq<u8>) -> Result<
    PeerView,
    HandshakeError,
> {
    match packet {
        PacketView::HandshakeInit {
            diddy_id,
            identity_pubkey,
            server_signature,
            encryption_pubkey,
        } => match claim_judged(diddy_id, identity_pubkey, server_signature, server_pubkey) {
            Ok(_) => Ok(PeerView { id: diddy_id, pubkey: identity_pubkey, encryption_pubkey }),
            Err(e) => Err(e),
        },
        _ => Err(HandshakeError::ExpectedHandshakeInit),
    }
}

/// If the caller is somebody to be answered, `identity` has an id and a
/// signature of the server to show.
pub open spec fn can_respond(
    identity: &LocalIdentity,
    packet: PacketView,
    server_pubkey: Seq<u8>,
) -> bool {
    introduced(packet, server_pubkey) is Ok ==> identity.registered()
}

/// The packet by which `identity` introduces itself and asks for proof.
pub open spec fn challenge_of(
    identity: &LocalIdentity,
    challenge: Seq<u8>,
    encryption_pubkey: Seq<u8>,
) -> PacketView {
    PacketView::Challenge {
        challenge,
        diddy_id: identity.diddy_id->0,
        identity_pubkey: identity.pubkey@,
        server_signature: identity.server_signature->0@,
        encryption_pubkey,
    }
}

/// Somebody who was called and waits for the caller's proof.
pub struct Responder {
    pub peer: Peer,
    pub challenge: [u8; 32],
    pub secret: EphemeralSecret,
}

/// Who a caller is, from its first packet.
fn introduce(packet: &Packet, server_pubkey: &[u8; 32]) -> (out: Result<Peer, HandshakeError>)
    ensures
        match introduced(packet@, server_pubkey@) {
            Ok(peer) => out matches Ok(p) && p@ == peer,
            Err(e) => out matches Err(f) && f == e,
        },
        out is Ok <==> (packet matches Packet::HandshakeInit {
            diddy_id,
            identity_pubkey,
            server_signature,
            encryption_pubkey,
        } && *diddy_id as nat == diddy_id_of(identity_pubkey@) && server_signature@.len() >= 64
            && ed25519_verifies(server_pubkey@, identity_pubkey@, server_signature@.take(64))),
        out matches Ok(p) ==> {
            &&& p.id == packet->HandshakeInit_diddy_id
            &&& p.pubkey == packet->HandshakeInit_identity_pubkey
            &&& p.encryption_pubkey == packet->HandshakeInit_encryption_pubkey
        },
{
    match packet {
        Packet::HandshakeInit {
            diddy_id,
            identity_pubkey,
            server_signature,
            encryption_pubkey,
        } => match check_claim(*diddy_id, identity_pubkey, server_signature, server_pubkey) {
            Ok(_) => Ok(
                Peer {
                    id: *diddy_id,
                    pubkey: *identity_pubkey,
                    encryption_pubkey: *encryption_pubkey,
                },
            ),
            Err(e) => Err(e),
        },
        _ => Err(HandshakeError::ExpectedHandshakeInit),
    }
}

/// Answers a caller's first packet, with a given challenge and secret.
pub fn respond_with(
    identity: &LocalIdentity,
    packet: &Packet,
    server_pubkey: &[u8; 32],
    challenge: [u8; 32],
    secret: EphemeralSecret,
) -> (out: Result<(Responder, Packet), HandshakeError>)
    requires
        can_respond(identity, packet@, server_pubkey@),
    ensures
        match introduced(packet@, server_pubkey@) {
            Ok(peer) => out matches Ok(r) && {
                &&& r.0.peer@ == peer
                &&& r.0.challenge == challenge
                &&& r.0.secret == secret
                &&& r.1@ == challenge_of(
                    identity,
                    challenge@,
                    x25519_public_key(secret.bytes@),
                )
            },
            Err(e) => out matches Err(f) && f == e,
        },
        out is Ok <==> (packet matches Packet::HandshakeInit {
            diddy_id,
            identity_pubkey,
            server_signature,
            encryption_pubkey,
        } && *diddy_id as nat == diddy_id_of(identity_pubkey@) && server_signature@.len() >= 64
            && ed25519_verifies(server_pubkey@, identity_pubkey@, server_signature@.take(64))),
        out matches Ok(r) ==> {
            &&& r.0.peer.id == packet->HandshakeInit_diddy_id
            &&& r.0.peer.pubkey == packet->HandshakeInit_identity_pubkey
            &&& r.0.peer.encryption_pubkey == packet->HandshakeInit_encryption_pubkey
            &&& r.1 matches Packet::Challenge {
                challenge: sent,
                diddy_id,
                identity_pubkey,
                server_signature,
                encryption_pubkey,
            } && sent == r.0.challenge && diddy_id == identity.diddy_id->0 && identity_pubkey
                == identity.pubkey && server_signature@ == identity.server_signature->0@
                && encryption_pubkey@ == x25519_public_key(r.0.secret.bytes@)
        },
{
    let peer = match introduce(packet, server_pubkey) {
        Ok(peer) => peer,
        Err(e) => {
            return Err(e);
        },
    };
    let encryption_pubkey = secret.public_key();
    let diddy_id: u128 = match identity.diddy_id {
        Some(id) => id,
        None => 0,
    };
    let server_signature = match &identity.server_signature {
        Some(s) => copy_bytes(s.as_slice()),
        None => Vec::new(),
    };
    let reply = Packet::Challenge {
        challenge,
        diddy_id,
        identity_pubkey: identity.pubkey,
        server_signature,
        encryption_pubkey,
    };
    Ok((Responder { peer, challenge, secret }, reply))
}

/// Answers a caller's first packet, with a random challenge and a random
/// secret. `None` where the caller is to be answered, but this identity has no
/// id or no signature of the server to show.
pub fn respond(identity: &LocalIdentity, packet: &Packet) -> (out: Option<
    Result<(Responder, Packet), HandshakeError>,
>)
    ensures
        out is Some <==> can_respond(identity, packet@, SERVER_PUBKEY@),
        out matches Some(answer) ==> match introduced(packet@, SERVER_PUBKEY@) {
            Ok(peer) => answer matches Ok(r) && {
                &&& r.0.peer@ == peer
                &&& r.1@ == challenge_of(
                    identity,
                    r.0.challenge@,
                    x25519_public_key(r.0.secret.bytes@),
                )
            },
            Err(e) => answer matches Err(f) && f == e,
        },
        out is None <==> introduced(packet@, SERVER_PUBKEY@) is Ok && (identity.diddy_id is None
            || identity.server_signature is None),
        out matches Some(Ok(r)) ==> {
            &&& r.0.peer.id == packet->HandshakeInit_diddy_id
            &&& r.0.peer.pubkey == packet->HandshakeInit_identity_pubkey
            &&& r.0.peer.encryption_pubkey == packet->HandshakeInit_encryption_pubkey
            &&& r.1 matches Packet::Challenge {
                challenge: sent,
                diddy_id,
                identity_pubkey,
                server_signature,
                encryption_pubkey,
            } && sent == r.0.challenge && diddy_id == identity.diddy_id->0 && identity_pubkey
                == identity.pubkey && server_signature@ == identity.server_signature->0@
                && encryption_pubkey@ == x25519_public_key(r.0.secret.bytes@)
        },
{
    let server_pubkey = SERVER_PUBKEY;
    if introduce(packet, &server_pubkey).is_ok() && (identity.diddy_id.is_none()
        || identity.server_signature.is_none()) {
        return None;
    }
    let challenge: [u8; 32] = random_array();
    Some(respond_with(identity, packet, &server_pubkey, challenge, EphemeralSecret::random()))
}

/// What to make of a caller's proof: its signature on the challenge.
pub open spec fn proven(pubkey: Seq<u8>, challenge: Seq<u8>, packet: PacketView) -> Result<
    (),
    HandshakeError,
> {
    match packet {
        PacketView::ChallengeResponse { signature } => match signature_judged(
            pubkey,
            challenge,
            signature,
        ) {
            Ok(_) => Ok(()),
            Err(e) => Err(HandshakeError::Signature(e)),
        },
        _ => Err(HandshakeError::ExpectedChallengeResponse),
    }
}

impl Responder {
    /// Takes the caller's proof.
    pub fn finish(self, packet: &Packet) -> (out: Result<Session, HandshakeError>)
        ensures
            match proven(self.peer.pubkey@, self.challenge@, packet@) {
                Ok(_) => out matches Ok(s) && s.is_with(
                    self.peer@,
                    self.secret.bytes@,
                ),
                Err(e) => out matches Err(f) && f == e,
            },
            out is Ok <==> (packet matches Packet::ChallengeResponse { signature }
                && ed25519_verifies(self.peer.pubkey@, self.challenge@, signature@)),
            out matches Ok(s) ==> {
                &&& s.peer_id == self.peer.id
                &&& s.peer_pubkey == self.peer.pubkey
                &&& s.key@ == x25519_product(self.secret.bytes@, self.peer.encryption_pubkey@)
            },
    {
        match packet {
            Packet::ChallengeResponse { signature } => match verify_message_sig(
                &self.peer.pubkey,
                self.challenge.as_slice(),
                signature,
            ) {
                Ok(_) => Ok(session(self.secret, self.peer)),
                Err(e) => Err(HandshakeError::Signature(e)),
            },
            _ => Err(HandshakeError::ExpectedChallengeResponse),
        }
    }
}

// ---------------------------------------------------------------------------
// The one who calls
// ---------------------------------------------------------------------------

/// The packet by which `identity` introduces itself to somebody it calls.
pub open spec fn init_of(identity: &LocalIdentity, encryption_pubkey: Seq<u8>) -> PacketView {
    PacketView::HandshakeInit {
        diddy_id: identity.diddy_id->0,
        identity_pubkey: identity.pubkey@,
        server_signature: identity.server_signature->0@,
        encryption_pubkey,
    }
}

/// Somebody who has called and waits for an answer.
pub struct Initiator {
    pub secret: EphemeralSecret,
}

/// The first packet of a call, with a given secret.
pub fn initiate_with(identity: &LocalIdentity, secret: EphemeralSecret) -> (out: (
    Initiator,
    Packet,
))
    requires
        identity.registered(),
    ensures
        out.0.secret == secret,
        out.1@ == init_of(identity, x25519_public_key(secret.bytes@)),
        out.1 matches Packet::HandshakeInit {
            diddy_id,
            identity_pubkey,
            server_signature,
            encryption_pubkey,
        } && diddy_id == identity.diddy_id->0 && identity_pubkey == identity.pubkey
            && server_signature@ == identity.server_signature->0@ && encryption_pubkey@
            == x25519_public_key(out.0.secret.bytes@),
{
    let encryption_pubkey = secret.public_key();
    let diddy_id: u128 = match identity.diddy_id {
        Some(id) => id,
        None => 0,
    };
    let server_signature = match &identity.server_signature {
        Some(s) => copy_bytes(s.as_slice()),
        None => Vec::new(),
    };
    let packet = Packet::HandshakeInit {
        diddy_id,
        identity_pubkey: identity.pubkey,
        server_signature,
        encryption_pubkey,
    };
    (Initiator { secret }, packet)
}

/// The first packet of a call, with a random secret.
pub fn initiate(identity: &LocalIdentity) -> (out: (Initiator, Packet))
    requires
        identity.registered(),
    ensures
        out.1@ == init_of(identity, x25519_public_key(out.0.secret.bytes@)),
        out.1 matches Packet::HandshakeInit {
            diddy_id,
            identity_pubkey,
            server_signature,
            encryption_pubkey,
        } && diddy_id == identity.diddy_id->0 && identity_pubkey == identity.pubkey
            && server_signature@ == identity.server_signature->0@ && encryption_pubkey@
            == x25519_public_key(out.0.secret.bytes@),
{
    initiate_with(identity, EphemeralSecret::random())
}

/// Who was called, and what they ask to be signed, from their answer.
pub open spec fn challenged(packet: PacketView, server_pubkey: Seq<u8>) -> Result<
    (Seq<u8>, PeerView),
    HandshakeError,
> {
    match packet {
        PacketView::Challenge {
            challenge,
            diddy_id,
            identity_pubkey,
            server_signature,
            encryption_pubkey,
        } => match claim_judged(diddy_id, identity_pubkey, server_signature, server_pubkey) {
            Ok(_) => Ok(
                (challenge, PeerView { id: diddy_id, pubkey: identity_pubkey, encryption_pubkey }),
            ),
            Err(e) => Err(e),
        },
        _ => Err(HandshakeError::ExpectedChallenge),
    }
}

/// If whoever was called is somebody to be answered, `identity` can sign.
pub open spec fn can_answer(
    identity: &LocalIdentity,
    packet: PacketView,
    server_pubkey: Seq<u8>,
) -> bool {
    challenged(packet, server_pubkey) is Ok ==> identity.seed() is Some
}

fn read_challenge(packet: &Packet, server_pubkey: &[u8; 32]) -> (out: Result<
    ([u8; 32], Peer),
    HandshakeError,
>)
    ensures
        match challenged(packet@, server_pubkey@) {
            Ok(c) => out matches Ok(r) && r.0@ == c.0 && r.1@ == c.1,
            Err(e) => out matches Err(f) && f == e,
        },
        out is Ok <==> (packet matches Packet::Challenge {
            challenge,
            diddy_id,
            identity_pubkey,
            server_signature,
            encryption_pubkey,
        } && *diddy_id as nat == diddy_id_of(identity_pubkey@) && server_signature@.len() >= 64
            && ed25519_verifies(server_pubkey@, identity_pubkey@, server_signature@.take(64))),
        out matches Ok(r) ==> {
            &&& r.0 == packet->Challenge_challenge
            &&& r.1.id == packet->Challenge_diddy_id
            &&& r.1.pubkey == packet->Challenge_identity_pubkey
            &&& r.1.encryption_pubkey == packet->Challenge_encryption_pubkey
        },
{
    match packet {
        Packet::Challenge {
            challenge,
            diddy_id,
            identity_pubkey,
            server_signature,
            encryption_pubkey,
        } => match check_claim(*diddy_id, identity_pubkey, server_signature, server_pubkey) {
            Ok(_) => Ok(
                (
                    *challenge,
                    Peer {
                        id: *diddy_id,
                        pubkey: *identity_pubkey,
                        encryption_pubkey: *encryption_pubkey,
                    },
                ),
            ),
            Err(e) => Err(e),
        },
        _ => Err(HandshakeError::ExpectedChallenge),
    }
}

/// `answer` holds the session and the proof that a caller comes to.
pub open spec fn answered(
    identity: &LocalIdentity,
    secret: Seq<u8>,
    challenge: Seq<u8>,
    peer: PeerView,
    answer: (Session, Packet),
) -> bool {
    let signature = ed25519_signature(identity.seed()->0, challenge);
    &&& answer.0.is_with(peer, secret)
    &&& answer.1@ == PacketView::ChallengeResponse { signature }
    &&& !null_commitment(signature) ==> proven(
        ed25519_public_key(identity.seed()->0),
        challenge,
        answer.1@,
    ) is Ok
}

impl Initiator {
    /// Takes the answer of whoever was called, and proves who calls.
    pub fn answer_with(
        self,
        identity: &LocalIdentity,
        packet: &Packet,
        server_pubkey: &[u8; 32],
    ) -> (out: Result<(Session, Packet), HandshakeError>)
        requires
            can_answer(identity, packet@, server_pubkey@),
        ensures
            match challenged(packet@, server_pubkey@) {
                Ok(c) => out matches Ok(a) && answered(
                    identity,
                    self.secret.bytes@,
                    c.0,
                    c.1,
                    a,
                ),
                Err(e) => out matches Err(f) && f == e,
            },
            out is Ok <==> (packet matches Packet::Challenge {
                challenge,
                diddy_id,
                identity_pubkey,
                server_signature,
                encryption_pubkey,
            } && *diddy_id as nat == diddy_id_of(identity_pubkey@) && server_signature@.len() >= 64
                && ed25519_verifies(server_pubkey@, identity_pubkey@, server_signature@.take(64))),
            out matches Ok(a) ==> {
                &&& a.0.peer_id == packet->Challenge_diddy_id
                &&& a.0.peer_pubkey == packet->Challenge_identity_pubkey
                &&& a.0.key@ == x25519_product(
                    self.secret.bytes@,
                    packet->Challenge_encryption_pubkey@,
                )
                &&& a.1 matches Packet::ChallengeResponse { signature } && signature@
                    == ed25519_signature(
                    identity.signing_key->0@,
                    packet->Challenge_challenge@,
                )
            },
    {
        match read_challenge(packet, server_pubkey) {
            Ok((challenge, peer)) => {
                let signature = identity.sign(challenge.as_slice());
                let reply = Packet::ChallengeResponse { signature };
                Ok((session(self.secret, peer), reply))
            },
            Err(e) => Err(e),
        }
    }

    /// Takes the answer of whoever was called, and proves who calls. `None`
    /// where whoever was called is to be answered, but this identity is locked.
    pub fn answer(self, identity: &LocalIdentity, packet: &Packet) -> (out: Option<
        Result<(Session, Packet), HandshakeError>,
    >)
        ensures
            out is Some <==> can_answer(identity, packet@, SERVER_PUBKEY@),
            out matches Some(answer) ==> match challenged(packet@, SERVER_PUBKEY@) {
                Ok(c) => answer matches Ok(a) && answered(
                    identity,
                    self.secret.bytes@,
                    c.0,
                    c.1,
                    a,
                ),
                Err(e) => answer matches Err(f) && f == e,
            },
            out is None <==> challenged(packet@, SERVER_PUBKEY@) is Ok
                && identity.signing_key is None,
            out matches Some(Ok(a)) ==> {
                &&& a.0.peer_id == packet->Challenge_diddy_id
                &&& a.0.peer_pubkey == packet->Challenge_identity_pubkey
                &&& a.0.key@ == x25519_product(
                    self.secret.bytes@,
                    packet->Challenge_encryption_pubkey@,
                )
                &&& a.1 matches Packet::ChallengeResponse { signature } && signature@
                    == ed25519_signature(
                    identity.signing_key->0@,
                    packet->Challenge_challenge@,
                )
            },
    {
        let server_pubkey = SERVER_PUBKEY;
        if read_challenge(packet, &server_pubkey).is_ok() && !identity.is_unlocked() {
            return None;
        }
        Some(self.answer_with(identity, packet, &server_pubkey))
    }
}

// ---------------------------------------------------------------------------
// Both together
// ---------------------------------------------------------------------------

/// The server vouches for `identity`.
pub open spec fn vouched(identity: &LocalIdentity, server_pubkey: Seq<u8>) -> bool {
    &&& identity.registered()
    &&& claim_judged(
        identity.diddy_id->0,
        identity.pubkey@,
        identity.server_signature->0@,
        server_pubkey,
    ) is Ok
}

/// How `identity` appears to a peer.
pub open spec fn peer_of(identity: &LocalIdentity, encryption_pubkey: Seq<u8>) -> PeerView {
    PeerView { id: identity.diddy_id->0, pubkey: identity.pubkey@, encryption_pubkey }
}

/// Two peers that the server vouches for recognise each other, whoever calls.
pub proof fn law_vouched_peers_meet(
    caller: LocalIdentity,
    called: LocalIdentity,
    server_pubkey: Seq<u8>,
    challenge: Seq<u8>,
    caller_half: Seq<u8>,
    called_half: Seq<u8>,
)
    requires
        vouched(&caller, server_pubkey),
        vouched(&called, server_pubkey),
    ensures
        introduced(init_of(&caller, caller_half), server_pubkey) matches Ok(peer) && peer
            == peer_of(&caller, caller_half),
        challenged(challenge_of(&called, challenge, called_half), server_pubkey) matches Ok(c)
            && c.0 == challenge && c.1 == peer_of(&called, called_half),
{
}

/// Two peers that the server vouches for, each of whom holds its key, end up
/// with one key for their conversation: the caller's proof is accepted, and
/// both sessions have the same key.
pub proof fn law_handshake(
    caller: LocalIdentity,
    called: LocalIdentity,
    server_pubkey: Seq<u8>,
    challenge: Seq<u8>,
    caller_secret: Seq<u8>,
    called_secret: Seq<u8>,
    answer: (Session, Packet),
    session: Session,
)
    requires
        vouched(&caller, server_pubkey),
        vouched(&called, server_pubkey),
        called_secret.len() == 32,
        caller.seed() is Some,
        caller.coherent(),
        !null_commitment(ed25519_signature(caller.seed()->0, challenge)),
        answered(
            &caller,
            caller_secret,
            challenge,
            peer_of(&called, x25519_public_key(called_secret)),
            answer,
        ),
        session.is_with(peer_of(&caller, x25519_public_key(caller_secret)), called_secret),
    ensures
        proven(caller.pubkey@, challenge, answer.1@) is Ok,
        answer.0.key@ == session.key@,
        answer.0.peer_id == called.diddy_id->0,
        answer.0.peer_pubkey@ == called.pubkey@,
        session.peer_id == caller.diddy_id->0,
        session.peer_pubkey@ == caller.pubkey@,
{
    law_both_sides_agree(caller_secret, called_secret, answer.0.key@, session.key@);
}

/// An identity that is not signed is invalid: whoever shows no server signature
/// or only a part of one is refused, on either side of a call and whatever else
/// it shows.
pub proof fn law_unsigned_peer_is_refused(
    diddy_id: u128,
    identity_pubkey: Seq<u8>,
    server_signature: Seq<u8>,
    encryption_pubkey: Seq<u8>,
    challenge: Seq<u8>,
    server_pubkey: Seq<u8>,
)
    requires
        server_signature.len() < 64,
    ensures
        introduced(
            PacketView::HandshakeInit {
                diddy_id,
                identity_pubkey,
                server_signature,
                encryption_pubkey,
            },
            server_pubkey,
        ) is Err,
        challenged(
            PacketView::Challenge {
                challenge,
                diddy_id,
                identity_pubkey,
                server_signature,
                encryption_pubkey,
            },
            server_pubkey,
        ) is Err,
{
}

/// Nobody passes for a peer that the server does not vouch for, or under an id
/// that does not go with the key it vouches for.
pub proof fn law_unvouched_peer_is_refused(packet: PacketView, server_pubkey: Seq<u8>)
    ensures
        introduced(packet, server_pubkey) matches Ok(peer) ==> peer.id as nat == diddy_id_of(
            peer.pubkey,
        ) && exists|s: Seq<u8>|
            s.len() == 64 && #[trigger] signature_judged(server_pubkey, peer.pubkey, s) is Ok,
        challenged(packet, server_pubkey) matches Ok(c) ==> c.1.id as nat == diddy_id_of(
            c.1.pubkey,
        ) && exists|s: Seq<u8>|
            s.len() == 64 && #[trigger] signature_judged(server_pubkey, c.1.pubkey, s) is Ok,
{
    if let Ok(peer) = introduced(packet, server_pubkey) {
        let s = packet->HandshakeInit_server_signature.take(64);
        assert(s.len() == 64 && signature_judged(server_pubkey, peer.pubkey, s) is Ok);
    }
    if let Ok(c) = challenged(packet, server_pubkey) {
        let s = packet->Challenge_server_signature.take(64);
        assert(s.len() == 64 && signature_judged(server_pubkey, c.1.pubkey, s) is Ok);
    }
}

// ---------------------------------------------------------------------------
// What becomes of each part of a packet
// ---------------------------------------------------------------------------

/// A claim is good exactly if the id goes with the key and the first sixty-four
/// bytes of what is shown as the server's signature are the server's signature
/// on that key; the first of these that does not hold is the reason why it is
/// refused.
pub proof fn law_claim(id: u128, pubkey: Seq<u8>, server_signature: Seq<u8>, server_pubkey: Seq<u8>)
    ensures
        ({
            let verdict = claim_judged(id, pubkey, server_signature, server_pubkey);
            let shown = server_signature.subrange(0, 64);
            &&& verdict is Ok <==> {
                &&& id as nat == diddy_id_of(pubkey)
                &&& server_signature.len() >= 64
                &&& ed25519_key_decodes(server_pubkey)
                &&& reduced_scalar(shown)
                &&& ed25519_verifies(server_pubkey, pubkey, shown)
            }
            &&& id as nat != diddy_id_of(pubkey) ==> (verdict matches Err(e) && e
                == HandshakeError::IdMismatch)
            &&& id as nat == diddy_id_of(pubkey) && server_signature.len() < 64
                ==> (verdict matches Err(e) && e == HandshakeError::Unsigned)
            &&& id as nat == diddy_id_of(pubkey) && server_signature.len() >= 64
                ==> (verdict matches Err(e) ==> e == HandshakeError::Signature(
                signature_judged(server_pubkey, pubkey, shown)->Err_0,
            ))
        }),
{
    if server_signature.len() >= 64 {
        assert(server_signature.take(64) =~= server_signature.subrange(0, 64));
    }
}

/// A caller is who its first packet says it is, with the half of the key that it
/// sent, if its claim is good. No other packet introduces anybody.
pub proof fn law_introduced(
    diddy_id: u128,
    identity_pubkey: Seq<u8>,
    server_signature: Seq<u8>,
    encryption_pubkey: Seq<u8>,
    server_pubkey: Seq<u8>,
    other: PacketView,
)
    ensures
        ({
            let packet = PacketView::HandshakeInit {
                diddy_id,
                identity_pubkey,
                server_signature,
                encryption_pubkey,
            };
            let claim = claim_judged(diddy_id, identity_pubkey, server_signature, server_pubkey);
            &&& introduced(packet, server_pubkey) is Ok <==> claim is Ok
            &&& introduced(packet, server_pubkey) matches Ok(peer) ==> peer.id == diddy_id
                && peer.pubkey == identity_pubkey && peer.encryption_pubkey == encryption_pubkey
            &&& introduced(packet, server_pubkey) matches Err(e) ==> e == claim->Err_0
        }),
        other !is HandshakeInit ==> (introduced(other, server_pubkey) matches Err(e) && e
            == HandshakeError::ExpectedHandshakeInit),
{
}

/// Whoever was called is who its answer says it is, with the half of the key
/// and the challenge that it sent, if its claim is good. No other packet is an
/// answer.
pub proof fn law_challenged(
    challenge: Seq<u8>,
    diddy_id: u128,
    identity_pubkey: Seq<u8>,
    server_signature: Seq<u8>,
    encryption_pubkey: Seq<u8>,
    server_pubkey: Seq<u8>,
    other: PacketView,
)
    ensures
        ({
            let packet = PacketView::Challenge {
                challenge,
                diddy_id,
                identity_pubkey,
                server_signature,
                encryption_pubkey,
            };
            let claim = claim_judged(diddy_id, identity_pubkey, server_signature, server_pubkey);
            &&& challenged(packet, server_pubkey) is Ok <==> claim is Ok
            &&& challenged(packet, server_pubkey) matches Ok(c) ==> c.0 == challenge && c.1.id
                == diddy_id && c.1.pubkey == identity_pubkey && c.1.encryption_pubkey
                == encryption_pubkey
            &&& challenged(packet, server_pubkey) matches Err(e) ==> e == claim->Err_0
        }),
        other !is Challenge ==> (challenged(other, server_pubkey) matches Err(e) && e
            == HandshakeError::ExpectedChallenge),
{
}

/// A caller proves itself with its signature on the challenge that it was sent,
/// and with nothing else.
pub proof fn law_proven(
    pubkey: Seq<u8>,
    challenge: Seq<u8>,
    signature: Seq<u8>,
    other: PacketView,
)
    ensures
        ({
            let packet = PacketView::ChallengeResponse { signature };
            &&& proven(pubkey, challenge, packet) is Ok <==> ed25519_key_decodes(pubkey)
                && reduced_scalar(signature) && ed25519_verifies(pubkey, challenge, signature)
            &&& proven(pubkey, challenge, packet) matches Err(e) ==> e == HandshakeError::Signature(
                signature_judged(pubkey, challenge, signature)->Err_0,
            )
        }),
        other !is ChallengeResponse ==> (proven(pubkey, challenge, other) matches Err(e) && e
            == HandshakeError::ExpectedChallengeResponse),
{
}

/// An identity shows its own id, key and server signature, on either side of a
/// call, with the half of the key and the challenge that are given.
pub proof fn law_introductions(
    identity: LocalIdentity,
    challenge: Seq<u8>,
    encryption_pubkey: Seq<u8>,
)
    requires
        identity.diddy_id is Some,
        identity.server_signature is Some,
    ensures
        init_of(&identity, encryption_pubkey) matches PacketView::HandshakeInit {
            diddy_id,
            identity_pubkey,
            server_signature,
            encryption_pubkey: half,
        } && Some(diddy_id) == identity.diddy_id && identity_pubkey == identity.pubkey@
            && server_signature == identity.server_signature->0@ && half == encryption_pubkey,
        challenge_of(&identity, challenge, encryption_pubkey) matches PacketView::Challenge {
            challenge: asked,
            diddy_id,
            identity_pubkey,
            server_signature,
            encryption_pubkey: half,
        } && asked == challenge && Some(diddy_id) == identity.diddy_id && identity_pubkey
            == identity.pubkey@ && server_signature == identity.server_signature->0@ && half
            == encryption_pubkey,
        peer_of(&identity, encryption_pubkey).id == identity.diddy_id->0,
        peer_of(&identity, encryption_pubkey).pubkey == identity.pubkey@,
        peer_of(&identity, encryption_pubkey).encryption_pubkey == encryption_pubkey,
{
}

/// A session is with the peer it was made with, under the product of one's own
/// secret and that peer's half of the key.
pub proof fn law_session(session: Session, peer: PeerView, secret: Seq<u8>)
    requires
        session.is_with(peer, secret),
    ensures
        session.peer_id == peer.id,
        session.peer_pubkey@ == peer.pubkey,
        session.key@ == x25519_product(secret, peer.encryption_pubkey),
{
}

/// A caller answers with its own signature on the challenge that it was sent.
pub proof fn law_answer(
    identity: LocalIdentity,
    secret: Seq<u8>,
    challenge: Seq<u8>,
    peer: PeerView,
    answer: (Session, Packet),
)
    requires
        identity.signing_key is Some,
        answered(&identity, secret, challenge, peer, answer),
    ensures
        answer.0.peer_id == peer.id,
        answer.0.peer_pubkey@ == peer.pubkey,
        answer.0.key@ == x25519_product(secret, peer.encryption_pubkey),
        answer.1 matches Packet::ChallengeResponse { signature } && signature@
            == ed25519_signature(identity.signing_key->0@, challenge),
{
}

/// The server vouches for an identity exactly if it is registered under the id
/// that goes with its key and holds the server's signature on that key.
pub proof fn law_vouched(identity: LocalIdentity, server_pubkey: Seq<u8>)
    ensures
        vouched(&identity, server_pubkey) <==> {
            &&& identity.diddy_id matches Some(id) && id as nat == diddy_id_of(identity.pubkey@)
            &&& identity.server_signature matches Some(s) && s@.len() >= 64 && ed25519_key_decodes(
                server_pubkey,
            ) && reduced_scalar(s@.take(64)) && ed25519_verifies(
                server_pubkey,
                identity.pubkey@,
                s@.take(64),
            )
        },
{
}

/// A peer says what each part of it says.
pub proof fn law_peer_says(peer: Peer)
    ensures
        peer@.id == peer.id,
        peer@.pubkey == peer.pubkey@,
        peer@.encryption_pubkey == peer.encryption_pubkey@,
{
}

} // verus!
