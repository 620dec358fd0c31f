//! The server's side of a connection: what it does with each request.
//!
//! A connection asks its owner to look things up and to write them down, one
//! action at a time, and is told what came of each. It never answers for
//! messages: it vouches for identities, lets clients in, and tells them how to
//! reach each other.

use vstd::prelude::*;

use crate::bytes::be_bytes;
use crate::bytes::{lemma_be_injective, lemma_pow256_values, u128_to_bytes};
use crate::crypto::{compute_diddy_id, sign_message, verify_message_sig, SignatureError};
use crate::crypto::{diddy_id_of, law_ids_fit, signature_judged};
use crate::directory::{
    announcement_view, record_view, AnnouncementView, DiddyRecord, PeerAnnouncement, RecordView,
};
use crate::handshake::{claim_judged, vouched};
use crate::identity::LocalIdentity;
use crate::primitives::random_array;
use crate::primitives::{
    ed25519_key_decodes, ed25519_public_key, ed25519_signature, ed25519_verifies, null_commitment,
    reduced_scalar,
};
use crate::protocol::{
    ClientMessage, ClientMessageView, IpAddress, ServerMessage, ServerMessageView,
};

verus! {

/// What a connection wants its owner to do next.
pub enum Action {
    /// Look up who has registered a key, and tell `found`.
    FindByPubkey([u8; 32]),
    /// Look up who has registered under an id, and tell `found`.
    FindById([u8; 16]),
    /// Write a record down, and tell `inserted`.
    Insert(DiddyRecord),
    /// Write an announcement down in place of any older one, and tell
    /// `announced`.
    SaveAnnouncement(PeerAnnouncement),
    /// Look up where a client can be reached, and tell `located`.
    FindAnnouncement([u8; 16]),
    /// See whether a client is connected, and tell `online`.
    AskOnline(u128),
    /// Send a message to another client, if it is connected; then wait for the
    /// next request.
    Forward { to: u128, message: ServerMessage },
    /// Answer the client; then wait for the next request.
    Reply(ServerMessage),
    /// Answer the client that it is let in, and from now on pass on to it what
    /// others send to its id; then wait for the next request.
    LetIn { diddy_id: u128 },
    /// End the connection: a key in the records is no key.
    Close(SignatureError),
}

/// What an `Action` says.
pub enum ActionView {
    FindByPubkey(Seq<u8>),
    FindById(Seq<u8>),
    Insert(RecordView),
    SaveAnnouncement(AnnouncementView),
    FindAnnouncement(Seq<u8>),
    AskOnline(u128),
    Forward { to: u128, message: ServerMessageView },
    Reply(ServerMessageView),
    LetIn { diddy_id: u128 },
    Close(SignatureError),
}

impl View for Action {
    type V = ActionView;

    open spec fn view(&self) -> ActionView {
        match *self {
            Action::FindByPubkey(k) => ActionView::FindByPubkey(k@),
            Action::FindById(id) => ActionView::FindById(id@),
            Action::Insert(r) => ActionView::Insert(r@),
            Action::SaveAnnouncement(a) => ActionView::SaveAnnouncement(a@),
            Action::FindAnnouncement(id) => ActionView::FindAnnouncement(id@),
            Action::AskOnline(id) => ActionView::AskOnline(id),
            Action::Forward { to, message } => ActionView::Forward { to, message: message@ },
            Action::Reply(m) => ActionView::Reply(m@),
            Action::LetIn { diddy_id } => ActionView::LetIn { diddy_id },
            Action::Close(e) => ActionView::Close(e),
        }
    }
}

/// What a connection is waiting for.
pub enum Stage {
    /// The client's next request.
    Idle,
    /// Whether a key that is to be registered has been registered before.
    Registering { pubkey: [u8; 32], pwd_hash: [u8; 32], salt: [u8; 16] },
    /// Whether a new record could be written down.
    Inserting { diddy_id: u128, signature: [u8; 64] },
    /// Whether anybody goes by the id that a client wants to log in with.
    LoggingIn,
    /// Who goes by the id for which a challenge was answered.
    Proving { challenge: [u8; 32], diddy_id: u128, signature: [u8; 64] },
    /// Who goes by an id that was asked about.
    Verifying { diddy_id: u128 },
    /// That an announcement has been written down.
    Announcing,
    /// Where a client can be reached.
    Locating { target: u128 },
    /// Whether a client is connected.
    Checking { target: u128, ip: IpAddress, tcp_port: u16, udp_port: u16 },
}

/// What a `Stage` says.
pub enum StageView {
    Idle,
    Registering { pubkey: Seq<u8>, pwd_hash: Seq<u8>, salt: Seq<u8> },
    Inserting { diddy_id: u128, signature: Seq<u8> },
    LoggingIn,
    Proving { challenge: Seq<u8>, diddy_id: u128, signature: Seq<u8> },
    Verifying { diddy_id: u128 },
    Announcing,
    Locating { target: u128 },
    Checking { target: u128, ip: Seq<u8>, tcp_port: u16, udp_port: u16 },
}

impl View for Stage {
    type V = StageView;

    open spec fn view(&self) -> StageView {
        match *self {
            Stage::Idle => StageView::Idle,
            Stage::Registering { pubkey, pwd_hash, salt } => StageView::Registering {
                pubkey: pubkey@,
                pwd_hash: pwd_hash@,
                salt: salt@,
            },
            Stage::Inserting { diddy_id, signature } => StageView::Inserting {
                diddy_id,
                signature: signature@,
            },
            Stage::LoggingIn => StageView::LoggingIn,
            Stage::Proving { challenge, diddy_id, signature } => StageView::Proving {
                challenge: challenge@,
                diddy_id,
                signature: signature@,
            },
            Stage::Verifying { diddy_id } => StageView::Verifying { diddy_id },
            Stage::Announcing => StageView::Announcing,
            Stage::Locating { target } => StageView::Locating { target },
            Stage::Checking { target, ip, tcp_port, udp_port } => StageView::Checking {
                target,
                ip: ip.octets_seq(),
                tcp_port,
                udp_port,
            },
        }
    }
}

/// A client's connection to the server.
pub struct Connection {
    /// Where the client calls from, if that is known.
    pub peer_ip: Option<IpAddress>,
    /// The challenge that the client has yet to answer.
    pub pending_challenge: Option<[u8; 32]>,
    /// The id under which the client was let in.
    pub authed_id: Option<u128>,
    pub stage: Stage,
}

/// What a `Connection` says.
pub struct ConnectionView {
    pub peer_ip: Option<Seq<u8>>,
    pub pending_challenge: Option<Seq<u8>>,
    pub authed_id: Option<u128>,
    pub stage: StageView,
}

impl View for Connection {
    type V = ConnectionView;

    open spec fn view(&self) -> ConnectionView {
        ConnectionView {
            peer_ip: match self.peer_ip {
                Some(ip) => Some(ip.octets_seq()),
                None => None,
            },
            pending_challenge: match self.pending_challenge {
                Some(c) => Some(c@),
                None => None,
            },
            authed_id: self.authed_id,
            stage: self.stage@,
        }
    }
}

/// A connection and what it wants done.
pub struct Step {
    pub conn: ConnectionView,
    pub action: ActionView,
}

impl ConnectionView {
    /// The connection goes on to `stage` and wants `action` done.
    pub open spec fn goes_to(self, stage: StageView, action: ActionView) -> Step {
        Step { conn: ConnectionView { stage, ..self }, action }
    }

    /// The connection answers, and waits for the next request.
    pub open spec fn replies(self, message: ServerMessageView) -> Step {
        self.goes_to(StageView::Idle, ActionView::Reply(message))
    }
}

/// A client that is refused something because of who it is or is not.
pub open spec fn login_error(reason: &str) -> ServerMessageView {
    ServerMessageView::LoginError { reason: reason@ }
}

/// The key under which the server keeps what belongs to an id.
pub open spec fn row_key(diddy_id: u128) -> Seq<u8> {
    be_bytes(diddy_id as nat, 16)
}

// ---------------------------------------------------------------------------
// Requests
// ---------------------------------------------------------------------------

/// What a connection does with a request.
pub open spec fn requested(conn: ConnectionView, msg: ClientMessageView, now: i64) -> Step {
    match msg {
        ClientMessageView::Register { pubkey, pwd_hash, salt } => conn.goes_to(
            StageView::Registering { pubkey, pwd_hash, salt },
            ActionView::FindByPubkey(pubkey),
        ),
        ClientMessageView::LoginRequest { diddy_id } => conn.goes_to(
            StageView::LoggingIn,
            ActionView::FindById(row_key(diddy_id)),
        ),
        ClientMessageView::LoginChallengeResponse { diddy_id, signature } =>
            match conn.pending_challenge {
            Some(challenge) => (ConnectionView { pending_challenge: None, ..conn }).goes_to(
                StageView::Proving { challenge, diddy_id, signature },
                ActionView::FindById(row_key(diddy_id)),
            ),
            None => conn.replies(login_error("no pending challenge")),
        },
        ClientMessageView::VerifyRequest { diddy_id } => conn.goes_to(
            StageView::Verifying { diddy_id },
            ActionView::FindById(row_key(diddy_id)),
        ),
        ClientMessageView::Announce { tcp_port, udp_port } => match conn.authed_id {
            Some(diddy_id) => conn.goes_to(
                StageView::Announcing,
                ActionView::SaveAnnouncement(
                    AnnouncementView {
                        diddy_id: row_key(diddy_id),
                        ip: match conn.peer_ip {
                            Some(ip) => ip,
                            None => seq![0u8, 0u8, 0u8, 0u8],
                        },
                        tcp_port,
                        udp_port,
                        last_seen: now,
                    },
                ),
            ),
            None => conn.replies(login_error("announce requires auth")),
        },
        ClientMessageView::QueryPeer { diddy_id } => conn.goes_to(
            StageView::Locating { target: diddy_id },
            ActionView::FindAnnouncement(row_key(diddy_id)),
        ),
        ClientMessageView::RelayPacket { to_diddy_id, payload } => match conn.authed_id {
            Some(from_diddy_id) => conn.goes_to(
                StageView::Idle,
                ActionView::Forward {
                    to: to_diddy_id,
                    message: ServerMessageView::RelayForward { from_diddy_id, payload },
                },
            ),
            None => conn.replies(login_error("relay requires auth")),
        },
    }
}

/// The connection is waiting to be told of a record.
pub open spec fn awaits_record(stage: StageView) -> bool {
    stage is Registering || stage is LoggingIn || stage is Proving || stage is Verifying
}

/// The record of a newly registered client.
pub open spec fn new_record(
    server_seed: Seq<u8>,
    pubkey: Seq<u8>,
    pwd_hash: Seq<u8>,
    salt: Seq<u8>,
    now: i64,
) -> RecordView {
    RecordView {
        id: be_bytes(diddy_id_of(pubkey), 16),
        pubkey,
        salt,
        pwd_hash,
        signature: ed25519_signature(server_seed, pubkey),
        created_at: now,
    }
}

/// What a connection does with the judgement on a client's signature.
pub open spec fn proof_judged(
    conn: ConnectionView,
    diddy_id: u128,
    verdict: Result<(), SignatureError>,
) -> Step {
    match verdict {
        Ok(_) => (ConnectionView { authed_id: Some(diddy_id), ..conn }).goes_to(
            StageView::Idle,
            ActionView::LetIn { diddy_id },
        ),
        Err(SignatureError::InvalidKey) => conn.goes_to(
            StageView::Idle,
            ActionView::Close(SignatureError::InvalidKey),
        ),
        Err(_) => conn.replies(login_error("bad signature")),
    }
}

/// What a connection does once it knows the record it asked for, if there is
/// one. `fresh` is the challenge to use if one is called for. No other stage
/// asks for a record.
pub open spec fn record_found(
    conn: ConnectionView,
    record: Option<RecordView>,
    server_seed: Seq<u8>,
    fresh: Seq<u8>,
    now: i64,
) -> Step {
    match conn.stage {
        StageView::Registering { pubkey, pwd_hash, salt } => match record {
            Some(_) => conn.replies(
                ServerMessageView::RegistrationError { reason: "pubkey already registered"@ },
            ),
            None => conn.goes_to(
                StageView::Inserting {
                    diddy_id: diddy_id_of(pubkey) as u128,
                    signature: ed25519_signature(server_seed, pubkey),
                },
                ActionView::Insert(new_record(server_seed, pubkey, pwd_hash, salt, now)),
            ),
        },
        StageView::LoggingIn => match record {
            Some(_) => (ConnectionView { pending_challenge: Some(fresh), ..conn }).replies(
                ServerMessageView::AuthChallenge { challenge: fresh },
            ),
            None => conn.replies(login_error("unknown diddy_id")),
        },
        StageView::Proving { challenge, diddy_id, signature } => match record {
            Some(r) => proof_judged(
                conn,
                diddy_id,
                signature_judged(r.pubkey, challenge, signature),
            ),
            None => conn.replies(login_error("unknown diddy_id")),
        },
        StageView::Verifying { diddy_id } => match record {
            Some(r) => conn.replies(
                ServerMessageView::VerifyResponse {
                    diddy_id,
                    pubkey: r.pubkey,
                    signature: r.signature,
                },
            ),
            None => conn.replies(ServerMessageView::VerifyError { reason: "unknown diddy_id"@ }),
        },
        _ => conn.replies(ServerMessageView::PeerNotFound),
    }
}

/// What a connection does once it knows whether a new record could be written
/// down.
pub open spec fn record_inserted(conn: ConnectionView, written: bool) -> Step {
    if written {
        conn.replies(
            ServerMessageView::RegistrationSuccess {
                diddy_id: conn.stage->Inserting_diddy_id,
                signature: conn.stage->Inserting_signature,
            },
        )
    } else {
        conn.replies(ServerMessageView::RegistrationError { reason: "internal error"@ })
    }
}

/// What a connection does once it knows where a client can be reached, if that
/// is known.
pub open spec fn announcement_found(conn: ConnectionView, ann: Option<AnnouncementView>) -> Step {
    let target = conn.stage->Locating_target;
    match ann {
        Some(a) => if a.ip.len() == 4 || a.ip.len() == 16 {
            conn.goes_to(
                StageView::Checking {
                    target,
                    ip: a.ip,
                    tcp_port: a.tcp_port,
                    udp_port: a.udp_port,
                },
                ActionView::AskOnline(target),
            )
        } else {
            conn.replies(ServerMessageView::PeerNotFound)
        },
        None => conn.replies(ServerMessageView::PeerNotFound),
    }
}

/// What a connection does once it knows whether a client is connected.
pub open spec fn online_known(conn: ConnectionView, online: bool) -> Step {
    conn.replies(
        ServerMessageView::PeerInfo {
            diddy_id: conn.stage->Checking_target,
            ip: conn.stage->Checking_ip,
            tcp_port: conn.stage->Checking_tcp_port,
            udp_port: conn.stage->Checking_udp_port,
            online,
        },
    )
}

impl Connection {
    /// A connection that was just made.
    pub fn new(peer_ip: Option<IpAddress>) -> (conn: Connection)
        ensures
            conn@.stage is Idle,
            conn@.pending_challenge is None,
            conn@.authed_id is None,
            conn.peer_ip == peer_ip,
            conn.stage is Idle,
            conn.pending_challenge is None,
            conn.authed_id is None,
    {
        Connection { peer_ip, pending_challenge: None, authed_id: None, stage: Stage::Idle }
    }

    fn reply(&mut self, message: ServerMessage) -> (action: Action)
        ensures
            (Step { conn: final(self)@, action: action@ }) == old(self)@.replies(message@),
            action == Action::Reply(message),
            final(self).stage is Idle,
            final(self).peer_ip == old(self).peer_ip,
            final(self).pending_challenge == old(self).pending_challenge,
            final(self).authed_id == old(self).authed_id,
    {
        self.stage = Stage::Idle;
        Action::Reply(message)
    }

    fn refuse(&mut self, reason: &str) -> (action: Action)
        ensures
            (Step { conn: final(self)@, action: action@ }) == old(self)@.replies(
                login_error(reason),
            ),
            action matches Action::Reply(ServerMessage::LoginError { reason: r }) && r@ == reason@,
            final(self).stage is Idle,
            final(self).peer_ip == old(self).peer_ip,
            final(self).pending_challenge == old(self).pending_challenge,
            final(self).authed_id == old(self).authed_id,
    {
        self.reply(ServerMessage::LoginError { reason: reason.to_owned() })
    }

    /// Takes a request that arrived at `now`.
    pub fn request(&mut self, msg: ClientMessage, now: i64) -> (action: Action)
        requires
            old(self)@.stage is Idle,
        ensures
            (Step { conn: final(self)@, action: action@ }) == requested(old(self)@, msg@, now),
            final(self).peer_ip == old(self).peer_ip,
            final(self).authed_id == old(self).authed_id,
            msg is LoginChallengeResponse ==> final(self).pending_challenge is None,
            msg !is LoginChallengeResponse ==> final(self).pending_challenge
                == old(self).pending_challenge,
            match msg {
                ClientMessage::Register { pubkey, pwd_hash, salt } => {
                    &&& final(self).stage == Stage::Registering { pubkey, pwd_hash, salt }
                    &&& action == Action::FindByPubkey(pubkey)
                },
                ClientMessage::LoginRequest { diddy_id } => {
                    &&& final(self).stage is LoggingIn
                    &&& action matches Action::FindById(k) && k@ == be_bytes(diddy_id as nat, 16)
                },
                ClientMessage::LoginChallengeResponse { diddy_id, signature } =>
                    match old(self).pending_challenge {
                    Some(challenge) => {
                        &&& final(self).stage == Stage::Proving { challenge, diddy_id, signature }
                        &&& action matches Action::FindById(k) && k@ == be_bytes(
                            diddy_id as nat,
                            16,
                        )
                    },
                    None => {
                        &&& final(self).stage is Idle
                        &&& action matches Action::Reply(ServerMessage::LoginError { reason })
                            && reason@ == "no pending challenge"@
                    },
                },
                ClientMessage::VerifyRequest { diddy_id } => {
                    &&& final(self).stage == Stage::Verifying { diddy_id }
                    &&& action matches Action::FindById(k) && k@ == be_bytes(diddy_id as nat, 16)
                },
                ClientMessage::Announce { tcp_port, udp_port } => match old(self).authed_id {
                    Some(diddy_id) => {
                        &&& final(self).stage is Announcing
                        &&& action matches Action::SaveAnnouncement(a) && {
                            &&& a.diddy_id@ == be_bytes(diddy_id as nat, 16)
                            &&& a.ip@ == match old(self).peer_ip {
                                Some(IpAddress::V4(x)) => x@,
                                Some(IpAddress::V6(x)) => x@,
                                None => seq![0u8, 0u8, 0u8, 0u8],
                            }
                            &&& a.tcp_port == tcp_port
                            &&& a.udp_port == udp_port
                            &&& a.last_seen == now
                        }
                    },
                    None => {
                        &&& final(self).stage is Idle
                        &&& action matches Action::Reply(ServerMessage::LoginError { reason })
                            && reason@ == "announce requires auth"@
                    },
                },
                ClientMessage::QueryPeer { diddy_id } => {
                    &&& final(self).stage == Stage::Locating { target: diddy_id }
                    &&& action matches Action::FindAnnouncement(k) && k@ == be_bytes(
                        diddy_id as nat,
                        16,
                    )
                },
                ClientMessage::RelayPacket { to_diddy_id, payload } => {
                    &&& final(self).stage is Idle
                    &&& match old(self).authed_id {
                        Some(from) => action == (Action::Forward {
                            to: to_diddy_id,
                            message: ServerMessage::RelayForward { from_diddy_id: from, payload },
                        }),
                        None => action matches Action::Reply(ServerMessage::LoginError { reason })
                            && reason@ == "relay requires auth"@,
                    }
                },
            },
    {
        match msg {
            ClientMessage::Register { pubkey, pwd_hash, salt } => {
                self.stage = Stage::Registering { pubkey, pwd_hash, salt };
                Action::FindByPubkey(pubkey)
            },
            ClientMessage::LoginRequest { diddy_id } => {
                self.stage = Stage::LoggingIn;
                Action::FindById(u128_to_bytes(diddy_id))
            },
            ClientMessage::LoginChallengeResponse { diddy_id, signature } => {
                match self.pending_challenge.take() {
                    Some(challenge) => {
                        self.stage = Stage::Proving { challenge, diddy_id, signature };
                        Action::FindById(u128_to_bytes(diddy_id))
                    },
                    None => self.refuse("no pending challenge"),
                }
            },
            ClientMessage::VerifyRequest { diddy_id } => {
                self.stage = Stage::Verifying { diddy_id };
                Action::FindById(u128_to_bytes(diddy_id))
            },
            ClientMessage::Announce { tcp_port, udp_port } => match self.authed_id {
                Some(diddy_id) => {
                    let ip = match self.peer_ip {
                        Some(ip) => ip.octets(),
                        None => IpAddress::V4([0u8; 4]).octets(),
                    };
                    assert(self.peer_ip is None ==> ip@ =~= seq![0u8, 0u8, 0u8, 0u8]);
                    self.stage = Stage::Announcing;
                    Action::SaveAnnouncement(
                        PeerAnnouncement {
                            diddy_id: u128_to_bytes(diddy_id),
                            ip,
                            tcp_port,
                            udp_port,
                            last_seen: now,
                        },
                    )
                },
                None => self.refuse("announce requires auth"),
            },
            ClientMessage::QueryPeer { diddy_id } => {
                self.stage = Stage::Locating { target: diddy_id };
                Action::FindAnnouncement(u128_to_bytes(diddy_id))
            },
            ClientMessage::RelayPacket { to_diddy_id, payload } => match self.authed_id {
                Some(from_diddy_id) => {
                    self.stage = Stage::Idle;
                    Action::Forward {
                        to: to_diddy_id,
                        message: ServerMessage::RelayForward { from_diddy_id, payload },
                    }
                },
                None => self.refuse("relay requires auth"),
            },
        }
    }

    /// Takes the judgement on a client's signature.
    pub fn conclude(&mut self, diddy_id: u128, verdict: Result<(), SignatureError>) -> (action:
        Action)
        ensures
            (Step { conn: final(self)@, action: action@ }) == proof_judged(
                old(self)@,
                diddy_id,
                verdict,
            ),
            final(self).stage is Idle,
            final(self).peer_ip == old(self).peer_ip,
            final(self).pending_challenge == old(self).pending_challenge,
            match verdict {
                Ok(_) => {
                    &&& final(self).authed_id == Some(diddy_id)
                    &&& action == (Action::LetIn { diddy_id })
                },
                Err(e) => {
                    &&& final(self).authed_id == old(self).authed_id
                    &&& e is InvalidKey ==> action == Action::Close(SignatureError::InvalidKey)
                    &&& e !is InvalidKey ==> (action matches Action::Reply(
                        ServerMessage::LoginError { reason },
                    ) && reason@ == "bad signature"@)
                },
            },
    {
        match verdict {
            Ok(_) => {
                self.authed_id = Some(diddy_id);
                self.stage = Stage::Idle;
                Action::LetIn { diddy_id }
            },
            Err(SignatureError::InvalidKey) => {
                self.stage = Stage::Idle;
                Action::Close(SignatureError::InvalidKey)
            },
            Err(_) => self.refuse("bad signature"),
        }
    }

    /// Takes the record that was asked for, with a given challenge in case one
    /// is called for.
    pub fn found_with(
        &mut self,
        record: Option<DiddyRecord>,
        server_seed: &[u8; 32],
        fresh: [u8; 32],
        now: i64,
    ) -> (action: Action)
        requires
            awaits_record(old(self)@.stage),
        ensures
            (Step { conn: final(self)@, action: action@ }) == record_found(
                old(self)@,
                record_view(record),
                server_seed@,
                fresh@,
                now,
            ),
            action@ matches ActionView::Insert(r) ==> (!null_commitment(r.signature)
                ==> signature_judged(
                ed25519_public_key(server_seed@),
                r.pubkey,
                r.signature,
            ) is Ok),
            final(self).peer_ip == old(self).peer_ip,
            match old(self).stage {
                Stage::Registering { pubkey, pwd_hash, salt } => {
                    &&& final(self).pending_challenge == old(self).pending_challenge
                    &&& final(self).authed_id == old(self).authed_id
                    &&& record is None ==> (action matches Action::Insert(r) && {
                        &&& r.pubkey == pubkey
                        &&& r.pwd_hash == pwd_hash
                        &&& r.salt == salt
                        &&& r.created_at == now
                        &&& r.id@ == be_bytes(diddy_id_of(pubkey@), 16)
                        &&& r.signature@ == ed25519_signature(server_seed@, pubkey@)
                        &&& final(self).stage matches Stage::Inserting { diddy_id, signature }
                            && diddy_id as nat == diddy_id_of(pubkey@) && signature == r.signature
                    })
                    &&& record is Some ==> final(self).stage is Idle && (action matches Action::Reply(
                        ServerMessage::RegistrationError { reason },
                    ) && reason@ == "pubkey already registered"@)
                },
                Stage::LoggingIn => {
                    &&& final(self).stage is Idle
                    &&& final(self).authed_id == old(self).authed_id
                    &&& record is Some ==> final(self).pending_challenge == Some(fresh) && action
                        == Action::Reply(ServerMessage::AuthChallenge { challenge: fresh })
                    &&& record is None ==> final(self).pending_challenge
                        == old(self).pending_challenge && (action matches Action::Reply(
                        ServerMessage::LoginError { reason },
                    ) && reason@ == "unknown diddy_id"@)
                },
                Stage::Proving { challenge, diddy_id, signature } => {
                    &&& final(self).stage is Idle
                    &&& final(self).pending_challenge == old(self).pending_challenge
                    &&& match record {
                        Some(r) => {
                            &&& action is LetIn <==> ed25519_verifies(
                                r.pubkey@,
                                challenge@,
                                signature@,
                            )
                            &&& action is LetIn ==> action == (Action::LetIn { diddy_id })
                                && final(self).authed_id == Some(diddy_id)
                            &&& action !is LetIn ==> final(self).authed_id == old(self).authed_id
                            &&& !ed25519_key_decodes(r.pubkey@) ==> action == Action::Close(
                                SignatureError::InvalidKey,
                            )
                            &&& action !is LetIn && ed25519_key_decodes(r.pubkey@) ==> (
                            action matches Action::Reply(ServerMessage::LoginError { reason })
                                && reason@ == "bad signature"@)
                        },
                        None => {
                            &&& final(self).authed_id == old(self).authed_id
                            &&& action matches Action::Reply(ServerMessage::LoginError { reason })
                                && reason@ == "unknown diddy_id"@
                        },
                    }
                },
                Stage::Verifying { diddy_id } => {
                    &&& final(self).stage is Idle
                    &&& final(self).pending_challenge == old(self).pending_challenge
                    &&& final(self).authed_id == old(self).authed_id
                    &&& match record {
                        Some(r) => action == Action::Reply(
                            ServerMessage::VerifyResponse {
                                diddy_id,
                                pubkey: r.pubkey,
                                signature: r.signature,
                            },
                        ),
                        None => action matches Action::Reply(ServerMessage::VerifyError { reason })
                            && reason@ == "unknown diddy_id"@,
                    }
                },
                _ => true,
            },
    {
        match self.stage {
            Stage::Registering { pubkey, pwd_hash, salt } => match record {
                Some(_) => self.reply(
                    ServerMessage::RegistrationError {
                        reason: "pubkey already registered".to_owned(),
                    },
                ),
                None => {
                    let diddy_id = compute_diddy_id(&pubkey);
                    let signature = sign_message(server_seed, pubkey.as_slice());
                    self.stage = Stage::Inserting { diddy_id, signature };
                    Action::Insert(
                        DiddyRecord {
                            id: u128_to_bytes(diddy_id),
                            pubkey,
                            salt,
                            pwd_hash,
                            signature,
                            created_at: now,
                        },
                    )
                },
            },
            Stage::LoggingIn => match record {
                Some(_) => {
                    self.pending_challenge = Some(fresh);
                    self.reply(ServerMessage::AuthChallenge { challenge: fresh })
                },
                None => self.refuse("unknown diddy_id"),
            },
            Stage::Proving { challenge, diddy_id, signature } => match record {
                Some(r) => {
                    let verdict = verify_message_sig(&r.pubkey, challenge.as_slice(), &signature);
                    self.conclude(diddy_id, verdict)
                },
                None => self.refuse("unknown diddy_id"),
            },
            Stage::Verifying { diddy_id } => match record {
                Some(r) => self.reply(
                    ServerMessage::VerifyResponse {
                        diddy_id,
                        pubkey: r.pubkey,
                        signature: r.signature,
                    },
                ),
                None => self.reply(
                    ServerMessage::VerifyError { reason: "unknown diddy_id".to_owned() },
                ),
            },
            _ => self.reply(ServerMessage::PeerNotFound),
        }
    }

    /// Takes the record that was asked for. A challenge, if one is called for,
    /// is random.
    pub fn found(
        &mut self,
        record: Option<DiddyRecord>,
        server_seed: &[u8; 32],
        now: i64,
    ) -> (action: Action)
        requires
            awaits_record(old(self)@.stage),
        ensures
            exists|fresh: Seq<u8>|
                fresh.len() == 32 && (Step { conn: final(self)@, action: action@ })
                    == #[trigger] record_found(
                    old(self)@,
                    record_view(record),
                    server_seed@,
                    fresh,
                    now,
                ),
            action@ matches ActionView::Insert(r) ==> (!null_commitment(r.signature)
                ==> signature_judged(
                ed25519_public_key(server_seed@),
                r.pubkey,
                r.signature,
            ) is Ok),
            final(self).peer_ip == old(self).peer_ip,
            old(self).stage matches Stage::Registering { pubkey, pwd_hash, salt } ==> (record is None
                ==> (action matches Action::Insert(r) && {
                &&& r.pubkey == pubkey
                &&& r.pwd_hash == pwd_hash
                &&& r.salt == salt
                &&& r.created_at == now
                &&& r.id@ == be_bytes(diddy_id_of(pubkey@), 16)
                &&& r.signature@ == ed25519_signature(server_seed@, pubkey@)
            })),
            old(self).stage is LoggingIn && record is Some ==> (
            action matches Action::Reply(ServerMessage::AuthChallenge { challenge })
                && final(self).pending_challenge == Some(challenge)),
            old(self).stage matches Stage::Verifying { diddy_id } ==> (record matches Some(r)
                ==> action == Action::Reply(
                ServerMessage::VerifyResponse { diddy_id, pubkey: r.pubkey, signature: r.signature },
            )),
            old(self).stage matches Stage::Proving { challenge, diddy_id, signature } ==> (
            record matches Some(r) ==> {
                &&& action is LetIn <==> ed25519_verifies(r.pubkey@, challenge@, signature@)
                &&& action is LetIn ==> action == (Action::LetIn { diddy_id })
                    && final(self).authed_id == Some(diddy_id)
                &&& action !is LetIn ==> final(self).authed_id == old(self).authed_id
            }),
    {
        let fresh: [u8; 32] = random_array();
        assert(fresh@.len() == 32);
        self.found_with(record, server_seed, fresh, now)
    }

    /// Takes whether a new record could be written down.
    pub fn inserted(&mut self, written: bool) -> (action: Action)
        requires
            old(self)@.stage is Inserting,
        ensures
            (Step { conn: final(self)@, action: action@ }) == record_inserted(old(self)@, written),
            final(self).stage is Idle,
            final(self).peer_ip == old(self).peer_ip,
            final(self).pending_challenge == old(self).pending_challenge,
            final(self).authed_id == old(self).authed_id,
            old(self).stage matches Stage::Inserting { diddy_id, signature } ==> {
                &&& written ==> action == Action::Reply(
                    ServerMessage::RegistrationSuccess { diddy_id, signature },
                )
                &&& !written ==> (action matches Action::Reply(
                    ServerMessage::RegistrationError { reason },
                ) && reason@ == "internal error"@)
            },
    {
        match self.stage {
            Stage::Inserting { diddy_id, signature } => if written {
                self.reply(ServerMessage::RegistrationSuccess { diddy_id, signature })
            } else {
                self.reply(
                    ServerMessage::RegistrationError { reason: "internal error".to_owned() },
                )
            },
            _ => self.reply(ServerMessage::PeerNotFound),
        }
    }

    /// Takes that an announcement has been written down.
    pub fn announced(&mut self) -> (action: Action)
        requires
            old(self)@.stage is Announcing,
        ensures
            (Step { conn: final(self)@, action: action@ }) == old(self)@.replies(
                ServerMessageView::AnnounceAck,
            ),
            action == Action::Reply(ServerMessage::AnnounceAck),
            final(self).stage is Idle,
            final(self).peer_ip == old(self).peer_ip,
            final(self).pending_challenge == old(self).pending_challenge,
            final(self).authed_id == old(self).authed_id,
    {
        self.reply(ServerMessage::AnnounceAck)
    }

    /// Takes where a client can be reached.
    pub fn located(&mut self, ann: Option<PeerAnnouncement>) -> (action: Action)
        requires
            old(self)@.stage is Locating,
        ensures
            (Step { conn: final(self)@, action: action@ }) == announcement_found(
                old(self)@,
                announcement_view(ann),
            ),
            final(self).peer_ip == old(self).peer_ip,
            final(self).pending_challenge == old(self).pending_challenge,
            final(self).authed_id == old(self).authed_id,
            old(self).stage matches Stage::Locating { target } ==> match ann {
                Some(a) => if a.ip@.len() == 4 || a.ip@.len() == 16 {
                    &&& action == Action::AskOnline(target)
                    &&& final(self).stage matches Stage::Checking {
                        target: t,
                        ip,
                        tcp_port,
                        udp_port,
                    } && t == target && tcp_port == a.tcp_port && udp_port == a.udp_port && match ip {
                        IpAddress::V4(x) => x@ == a.ip@,
                        IpAddress::V6(x) => x@ == a.ip@,
                    }
                } else {
                    action == Action::Reply(ServerMessage::PeerNotFound) && final(self).stage is Idle
                },
                None => action == Action::Reply(ServerMessage::PeerNotFound) && final(self).stage is Idle,
            },
    {
        match self.stage {
            Stage::Locating { target } => match ann {
                Some(a) => match IpAddress::from_octets(&a.ip) {
                    Some(ip) => {
                        self.stage = Stage::Checking {
                            target,
                            ip,
                            tcp_port: a.tcp_port,
                            udp_port: a.udp_port,
                        };
                        Action::AskOnline(target)
                    },
                    None => self.reply(ServerMessage::PeerNotFound),
                },
                None => self.reply(ServerMessage::PeerNotFound),
            },
            _ => self.reply(ServerMessage::PeerNotFound),
        }
    }

    /// Takes whether a client is connected.
    pub fn online(&mut self, online: bool) -> (action: Action)
        requires
            old(self)@.stage is Checking,
        ensures
            (Step { conn: final(self)@, action: action@ }) == online_known(old(self)@, online),
            final(self).stage is Idle,
            final(self).peer_ip == old(self).peer_ip,
            final(self).pending_challenge == old(self).pending_challenge,
            final(self).authed_id == old(self).authed_id,
            old(self).stage matches Stage::Checking { target, ip, tcp_port, udp_port } ==> action
                == Action::Reply(
                ServerMessage::PeerInfo { diddy_id: target, ip, tcp_port, udp_port, online },
            ),
    {
        match self.stage {
            Stage::Checking { target, ip, tcp_port, udp_port } => self.reply(
                ServerMessage::PeerInfo { diddy_id: target, ip, tcp_port, udp_port, online },
            ),
            _ => self.reply(ServerMessage::PeerNotFound),
        }
    }
}

// ---------------------------------------------------------------------------
// What holds of every connection
// ---------------------------------------------------------------------------

/// What a connection waits for is what it asked for.
pub open spec fn fits(step: Step) -> bool {
    match step.action {
        ActionView::FindByPubkey(_) => awaits_record(step.conn.stage),
        ActionView::FindById(_) => awaits_record(step.conn.stage),
        ActionView::Insert(_) => step.conn.stage is Inserting,
        ActionView::SaveAnnouncement(_) => step.conn.stage is Announcing,
        ActionView::FindAnnouncement(_) => step.conn.stage is Locating,
        ActionView::AskOnline(_) => step.conn.stage is Checking,
        _ => step.conn.stage is Idle,
    }
}

/// After every step a connection waits for the outcome of the action that it
/// wants done, or for the next request.
pub proof fn law_actions_fit(
    conn: ConnectionView,
    msg: ClientMessageView,
    record: Option<RecordView>,
    ann: Option<AnnouncementView>,
    server_seed: Seq<u8>,
    fresh: Seq<u8>,
    now: i64,
    yes: bool,
)
    ensures
        conn.stage is Idle ==> fits(requested(conn, msg, now)),
        awaits_record(conn.stage) ==> fits(record_found(conn, record, server_seed, fresh, now)),
        conn.stage is Inserting ==> fits(record_inserted(conn, yes)),
        conn.stage is Locating ==> fits(announcement_found(conn, ann)),
        conn.stage is Checking ==> fits(online_known(conn, yes)),
{
}

/// A client is let in only when it has answered the challenge that it was
/// given with the signature of the key registered under the id it claims, and
/// it is let in under that id.
pub proof fn law_only_a_signature_lets_in(
    conn: ConnectionView,
    msg: ClientMessageView,
    record: Option<RecordView>,
    ann: Option<AnnouncementView>,
    server_seed: Seq<u8>,
    fresh: Seq<u8>,
    now: i64,
    yes: bool,
)
    ensures
        requested(conn, msg, now).conn.authed_id == conn.authed_id,
        conn.stage is Idle ==> (requested(conn, msg, now).conn.stage matches StageView::Proving {
            challenge,
            diddy_id,
            signature,
        } ==> conn.pending_challenge == Some(challenge)),
        record_inserted(conn, yes).conn.authed_id == conn.authed_id,
        announcement_found(conn, ann).conn.authed_id == conn.authed_id,
        online_known(conn, yes).conn.authed_id == conn.authed_id,
        ({
            let step = record_found(conn, record, server_seed, fresh, now);
            step.conn.authed_id != conn.authed_id || step.action is LetIn ==> {
                &&& conn.stage matches StageView::Proving { challenge, diddy_id, signature }
                &&& record matches Some(r)
                &&& signature_judged(r.pubkey, challenge, signature) is Ok
                &&& step.conn.authed_id == Some(diddy_id)
            }
        }),
{
}

/// A challenge is good for one answer, right or wrong.
pub proof fn law_challenge_is_used_once(
    conn: ConnectionView,
    diddy_id: u128,
    signature: Seq<u8>,
    record: Option<RecordView>,
    server_seed: Seq<u8>,
    fresh: Seq<u8>,
    now: i64,
)
    ensures
        ({
            let answer = ClientMessageView::LoginChallengeResponse { diddy_id, signature };
            let asked = requested(conn, answer, now).conn;
            &&& asked.pending_challenge is None
            &&& conn.pending_challenge is Some ==> record_found(
                asked,
                record,
                server_seed,
                fresh,
                now,
            ).conn.pending_challenge is None
        }),
{
}

/// Whoever holds the key registered under an id and signs the challenge with
/// it is let in under that id.
pub proof fn law_right_key_lets_in(
    conn: ConnectionView,
    diddy_id: u128,
    record: RecordView,
    signature: Seq<u8>,
    server_seed: Seq<u8>,
    fresh: Seq<u8>,
    now: i64,
)
    requires
        signature_judged(record.pubkey, fresh, signature) is Ok,
    ensures
        ({
            let asked = requested(conn, ClientMessageView::LoginRequest { diddy_id }, now);
            let dared = record_found(asked.conn, Some(record), server_seed, fresh, now);
            let answer = ClientMessageView::LoginChallengeResponse { diddy_id, signature };
            let proved = requested(dared.conn, answer, now);
            let done = record_found(proved.conn, Some(record), server_seed, fresh, now);
            &&& asked.action == ActionView::FindById(row_key(diddy_id))
            &&& dared.action == ActionView::Reply(
                ServerMessageView::AuthChallenge { challenge: fresh },
            )
            &&& proved.action == ActionView::FindById(row_key(diddy_id))
            &&& done.action == ActionView::LetIn { diddy_id }
            &&& done.conn.authed_id == Some(diddy_id)
        }),
{
}

/// A client that was not let in can neither announce itself nor have anything
/// passed on, and asking changes nothing.
pub proof fn law_strangers_are_refused(
    conn: ConnectionView,
    tcp_port: u16,
    udp_port: u16,
    to_diddy_id: u128,
    payload: Seq<u8>,
    now: i64,
)
    requires
        conn.stage is Idle,
        conn.authed_id is None,
    ensures
        requested(conn, ClientMessageView::Announce { tcp_port, udp_port }, now) == (Step {
            conn,
            action: ActionView::Reply(login_error("announce requires auth")),
        }),
        requested(conn, ClientMessageView::RelayPacket { to_diddy_id, payload }, now) == (Step {
            conn,
            action: ActionView::Reply(login_error("relay requires auth")),
        }),
{
}

/// The server keeps nothing of what clients have passed on: the packet goes to
/// the client it is for, under the id that its sender was let in with, and the
/// connection is as it was.
pub proof fn law_packets_are_not_kept(
    conn: ConnectionView,
    from_diddy_id: u128,
    to_diddy_id: u128,
    payload: Seq<u8>,
    now: i64,
)
    requires
        conn.stage is Idle,
        conn.authed_id == Some(from_diddy_id),
    ensures
        requested(conn, ClientMessageView::RelayPacket { to_diddy_id, payload }, now) == (Step {
            conn,
            action: ActionView::Forward {
                to: to_diddy_id,
                message: ServerMessageView::RelayForward { from_diddy_id, payload },
            },
        }),
{
}

/// What belongs to different ids is kept under different keys.
pub proof fn law_rows_are_distinct(a: u128, b: u128)
    requires
        row_key(a) == row_key(b),
    ensures
        a == b,
{
    lemma_pow256_values();
    lemma_be_injective(a as nat, b as nat, 16);
}

/// A key that nobody has registered is registered under the id that goes with
/// it, the client learns that id and the server's signature on the key, and
/// both are in the record.
pub proof fn law_registration(
    conn: ConnectionView,
    pubkey: Seq<u8>,
    pwd_hash: Seq<u8>,
    salt: Seq<u8>,
    server_seed: Seq<u8>,
    fresh: Seq<u8>,
    now: i64,
)
    ensures
        ({
            let request = ClientMessageView::Register { pubkey, pwd_hash, salt };
            let asked = requested(conn, request, now);
            let free = record_found(asked.conn, None, server_seed, fresh, now);
            let record = new_record(server_seed, pubkey, pwd_hash, salt, now);
            let done = record_inserted(free.conn, true);
            &&& asked.action == ActionView::FindByPubkey(pubkey)
            &&& free.action == ActionView::Insert(record)
            &&& done.action matches ActionView::Reply(
                ServerMessageView::RegistrationSuccess { diddy_id, signature },
            ) && diddy_id as nat == diddy_id_of(pubkey) && record.id == row_key(diddy_id)
                && record.signature == signature
        }),
{
    law_ids_fit(pubkey);
}

/// An identity that takes over what the server answers to its registration is
/// one that the server vouches for.
pub proof fn law_registered_identity_is_vouched(
    identity: LocalIdentity,
    server_seed: Seq<u8>,
    signature: Seq<u8>,
)
    requires
        identity.diddy_id matches Some(id) && id as nat == diddy_id_of(identity.pubkey@),
        identity.server_signature matches Some(s) && s@ == signature,
        signature.len() == 64,
        signature_judged(ed25519_public_key(server_seed), identity.pubkey@, signature) is Ok,
    ensures
        vouched(&identity, ed25519_public_key(server_seed)),
{
    assert(signature.take(64) =~= signature);
}

/// A key is registered once.
pub proof fn law_key_registers_once(
    conn: ConnectionView,
    pubkey: Seq<u8>,
    pwd_hash: Seq<u8>,
    salt: Seq<u8>,
    record: RecordView,
    server_seed: Seq<u8>,
    fresh: Seq<u8>,
    now: i64,
)
    ensures
        ({
            let request = ClientMessageView::Register { pubkey, pwd_hash, salt };
            let asked = requested(conn, request, now);
            record_found(asked.conn, Some(record), server_seed, fresh, now).action
                == ActionView::Reply(
                ServerMessageView::RegistrationError { reason: "pubkey already registered"@ },
            )
        }),
{
}

/// Whoever asks the server about a registered client gets what proves to any
/// peer that the server vouches for that client.
pub proof fn law_verification(
    conn: ConnectionView,
    server_seed: Seq<u8>,
    pubkey: Seq<u8>,
    pwd_hash: Seq<u8>,
    salt: Seq<u8>,
    fresh: Seq<u8>,
    registered_at: i64,
    now: i64,
)
    requires
        ({
            let record = new_record(server_seed, pubkey, pwd_hash, salt, registered_at);
            &&& record.signature.len() == 64
            &&& signature_judged(
                ed25519_public_key(server_seed),
                pubkey,
                record.signature,
            ) is Ok
        }),
    ensures
        ({
            let record = new_record(server_seed, pubkey, pwd_hash, salt, registered_at);
            let id = diddy_id_of(pubkey) as u128;
            let asked = requested(conn, ClientMessageView::VerifyRequest { diddy_id: id }, now);
            let done = record_found(asked.conn, Some(record), server_seed, fresh, now);
            &&& asked.action == ActionView::FindById(record.id)
            &&& done.action matches ActionView::Reply(
                ServerMessageView::VerifyResponse { diddy_id, pubkey: shown, signature },
            ) && shown == pubkey && claim_judged(
                diddy_id,
                shown,
                signature,
                ed25519_public_key(server_seed),
            ) is Ok
        }),
{
    law_ids_fit(pubkey);
    let signature = ed25519_signature(server_seed, pubkey);
    assert(signature.take(64) =~= signature);
}

/// Whoever asks for a client that announced itself is told the address and
/// the ports that it announced.
pub proof fn law_announced_client_is_found(
    conn: ConnectionView,
    asking: ConnectionView,
    diddy_id: u128,
    ip: Seq<u8>,
    tcp_port: u16,
    udp_port: u16,
    now: i64,
    later: i64,
    online: bool,
)
    requires
        conn.authed_id == Some(diddy_id),
        conn.peer_ip == Some(ip),
        ip.len() == 4 || ip.len() == 16,
    ensures
        ({
            let saved = requested(conn, ClientMessageView::Announce { tcp_port, udp_port }, now);
            let asked = requested(asking, ClientMessageView::QueryPeer { diddy_id }, later);
            &&& saved.action matches ActionView::SaveAnnouncement(ann)
            &&& asked.action == ActionView::FindAnnouncement(ann.diddy_id)
            &&& online_known(announcement_found(asked.conn, Some(ann)).conn, online).action
                == ActionView::Reply(
                ServerMessageView::PeerInfo { diddy_id, ip, tcp_port, udp_port, online },
            )
        }),
{
}

// ---------------------------------------------------------------------------
// What holds of a connection from beginning to end
// ---------------------------------------------------------------------------

/// What a connection can be told.
pub enum EventView {
    Request { msg: ClientMessageView, now: i64 },
    Found { record: Option<RecordView>, server_seed: Seq<u8>, fresh: Seq<u8>, now: i64 },
    Inserted { written: bool },
    Announced,
    Located { ann: Option<AnnouncementView> },
    Online { online: bool },
}

/// What a connection does with what it is told.
pub open spec fn told(conn: ConnectionView, event: EventView) -> Step {
    match event {
        EventView::Request { msg, now } => requested(conn, msg, now),
        EventView::Found { record, server_seed, fresh, now } => record_found(
            conn,
            record,
            server_seed,
            fresh,
            now,
        ),
        EventView::Inserted { written } => record_inserted(conn, written),
        EventView::Announced => conn.replies(ServerMessageView::AnnounceAck),
        EventView::Located { ann } => announcement_found(conn, ann),
        EventView::Online { online } => online_known(conn, online),
    }
}

/// The connection after it has been told all of `events`, one after the other.
pub open spec fn after_events(conn: ConnectionView, events: Seq<EventView>) -> ConnectionView
    decreases events.len(),
{
    if events.len() == 0 {
        conn
    } else {
        told(after_events(conn, events.drop_last()), events.last()).conn
    }
}

/// What the connection does with event `i`.
pub open spec fn step_at(conn: ConnectionView, events: Seq<EventView>, i: int) -> Step {
    told(after_events(conn, events.take(i)), events[i])
}

/// Event `i` is an answer to `challenge`, and the connection goes on to look up
/// whose signature it should be.
pub open spec fn answered_at(
    conn: ConnectionView,
    events: Seq<EventView>,
    i: int,
    challenge: Seq<u8>,
) -> bool {
    &&& events[i] is Request
    &&& events[i]->msg is LoginChallengeResponse
    &&& after_events(conn, events.take(i)).pending_challenge == Some(challenge)
}

/// The connection gives out `challenge` at event `i`.
pub open spec fn challenged_at(
    conn: ConnectionView,
    events: Seq<EventView>,
    i: int,
    challenge: Seq<u8>,
) -> bool {
    step_at(conn, events, i).action == ActionView::Reply(
        ServerMessageView::AuthChallenge { challenge },
    )
}

proof fn lemma_next(conn: ConnectionView, events: Seq<EventView>, n: int)
    requires
        0 <= n < events.len(),
    ensures
        after_events(conn, events.take(n + 1)) == step_at(conn, events, n).conn,
{
    assert(events.take(n + 1).drop_last() =~= events.take(n));
    assert(events.take(n + 1).last() == events[n]);
}

/// A challenge is pending only where the client has just been given it, or
/// where it was pending before; nothing but a challenge that is sent makes one
/// pending.
pub proof fn law_only_a_sent_challenge_is_pending(conn: ConnectionView, event: EventView)
    ensures
        told(conn, event).conn.pending_challenge matches Some(challenge) ==> {
            ||| conn.pending_challenge == Some(challenge)
            ||| told(conn, event).action == ActionView::Reply(
                ServerMessageView::AuthChallenge { challenge },
            )
        },
{
}

proof fn lemma_pending_was_sent(
    conn: ConnectionView,
    events: Seq<EventView>,
    n: int,
    challenge: Seq<u8>,
)
    requires
        conn.pending_challenge is None,
        0 <= n <= events.len(),
        after_events(conn, events.take(n)).pending_challenge == Some(challenge),
    ensures
        exists|j: int|
            0 <= j < n && #[trigger] challenged_at(conn, events, j, challenge) && forall|k: int|
                j < k < n ==> !#[trigger] answered_at(conn, events, k, challenge),
    decreases n,
{
    if n == 0 {
        assert(events.take(0) =~= Seq::<EventView>::empty());
    } else {
        lemma_next(conn, events, n - 1);
        let before = after_events(conn, events.take(n - 1));
        law_only_a_sent_challenge_is_pending(before, events[n - 1]);
        if !challenged_at(conn, events, n - 1, challenge) {
            lemma_pending_was_sent(conn, events, n - 1, challenge);
            let j = choose|j: int|
                0 <= j < n - 1 && #[trigger] challenged_at(conn, events, j, challenge) && forall|
                    k: int,
                |
                    j < k < n - 1 ==> !#[trigger] answered_at(conn, events, k, challenge);
            assert(!answered_at(conn, events, n - 1, challenge));
            assert(challenged_at(conn, events, j, challenge));
        }
    }
}

/// On a whole connection, whatever it is told: every answer that is looked at
/// is an answer to a challenge that was sent on that connection, and to which
/// no answer was looked at since it was sent.
pub proof fn law_one_answer_per_challenge(
    conn: ConnectionView,
    events: Seq<EventView>,
    i: int,
    challenge: Seq<u8>,
)
    requires
        conn.pending_challenge is None,
        0 <= i < events.len(),
        answered_at(conn, events, i, challenge),
    ensures
        exists|j: int|
            0 <= j < i && #[trigger] challenged_at(conn, events, j, challenge) && forall|k: int|
                j < k < i ==> !#[trigger] answered_at(conn, events, k, challenge),
        step_at(conn, events, i).conn.pending_challenge is None,
{
    lemma_pending_was_sent(conn, events, i, challenge);
}

/// On a whole connection, whatever it is told: as long as the client has not
/// been let in, nothing is announced or passed on for it.
pub proof fn law_strangers_leave_nothing(conn: ConnectionView, events: Seq<EventView>, n: int)
    requires
        conn.authed_id is None,
        0 <= n <= events.len(),
        forall|i: int| 0 <= i < n ==> (#[trigger] step_at(conn, events, i)).action !is LetIn,
    ensures
        after_events(conn, events.take(n)).authed_id is None,
        forall|i: int|
            0 <= i < n ==> (#[trigger] step_at(conn, events, i)).action !is SaveAnnouncement
                && step_at(conn, events, i).action !is Forward,
    decreases n,
{
    if n == 0 {
        assert(events.take(0) =~= Seq::<EventView>::empty());
    } else {
        law_strangers_leave_nothing(conn, events, n - 1);
        lemma_next(conn, events, n - 1);
        assert(step_at(conn, events, n - 1).action !is LetIn);
    }
}

// ---------------------------------------------------------------------------
// What becomes of each part of a request
// ---------------------------------------------------------------------------

/// A client that registers a key that nobody has is filed with everything it
/// sent: its key, the hash of its password and its salt, whole, with the moment
/// of registration, under the id that goes with the key and with the server's
/// signature on the key.
pub proof fn law_registered_record(
    conn: ConnectionView,
    pubkey: Seq<u8>,
    pwd_hash: Seq<u8>,
    salt: Seq<u8>,
    server_seed: Seq<u8>,
    fresh: Seq<u8>,
    asked_at: i64,
    now: i64,
)
    ensures
        ({
            let request = ClientMessageView::Register { pubkey, pwd_hash, salt };
            let asked = requested(conn, request, asked_at);
            let free = record_found(asked.conn, None, server_seed, fresh, now);
            &&& free.action matches ActionView::Insert(r)
            &&& r.pubkey == pubkey
            &&& r.pwd_hash == pwd_hash
            &&& r.salt == salt
            &&& r.created_at == now
            &&& r.id == be_bytes(diddy_id_of(pubkey), 16)
            &&& r.signature == ed25519_signature(server_seed, pubkey)
        }),
        new_record(server_seed, pubkey, pwd_hash, salt, now).pubkey == pubkey,
        new_record(server_seed, pubkey, pwd_hash, salt, now).pwd_hash == pwd_hash,
        new_record(server_seed, pubkey, pwd_hash, salt, now).salt == salt,
        new_record(server_seed, pubkey, pwd_hash, salt, now).created_at == now,
{
}

/// Whoever asks for a client, logged in or not, has that client looked up, that
/// client's presence asked for, and that client's address and ports told.
pub proof fn law_asked_client_is_looked_up(
    conn: ConnectionView,
    diddy_id: u128,
    ann: AnnouncementView,
    now: i64,
    online: bool,
)
    requires
        ann.ip.len() == 4 || ann.ip.len() == 16,
    ensures
        ({
            let asked = requested(conn, ClientMessageView::QueryPeer { diddy_id }, now);
            let located = announcement_found(asked.conn, Some(ann));
            let told = online_known(located.conn, online);
            &&& asked.action == ActionView::FindAnnouncement(be_bytes(diddy_id as nat, 16))
            &&& located.action == ActionView::AskOnline(diddy_id)
            &&& told.action == ActionView::Reply(
                ServerMessageView::PeerInfo {
                    diddy_id,
                    ip: ann.ip,
                    tcp_port: ann.tcp_port,
                    udp_port: ann.udp_port,
                    online,
                },
            )
        }),
{
}

/// A client of whom nothing is known, or nothing that is an address, is not
/// found.
pub proof fn law_unknown_client_is_not_found(
    conn: ConnectionView,
    diddy_id: u128,
    ann: AnnouncementView,
    now: i64,
)
    ensures
        ({
            let asked = requested(conn, ClientMessageView::QueryPeer { diddy_id }, now);
            &&& announcement_found(asked.conn, None).action == ActionView::Reply(
                ServerMessageView::PeerNotFound,
            )
            &&& announcement_found(asked.conn, None).conn.stage is Idle
            &&& ann.ip.len() != 4 && ann.ip.len() != 16 ==> announcement_found(
                asked.conn,
                Some(ann),
            ).action == ActionView::Reply(ServerMessageView::PeerNotFound)
        }),
{
}

/// An announcement is filed under the id that the client was let in with, with
/// the address that it calls from, both ports as it gave them and the moment at
/// which it came.
pub proof fn law_announcement_is_filed(
    conn: ConnectionView,
    tcp_port: u16,
    udp_port: u16,
    now: i64,
)
    requires
        conn.authed_id is Some,
    ensures
        ({
            let step = requested(conn, ClientMessageView::Announce { tcp_port, udp_port }, now);
            &&& step.action matches ActionView::SaveAnnouncement(a)
            &&& a.diddy_id == be_bytes(conn.authed_id->0 as nat, 16)
            &&& conn.peer_ip matches Some(ip) ==> a.ip == ip
            &&& conn.peer_ip is None ==> a.ip.len() == 4 && a.ip[0] == 0 && a.ip[1] == 0 && a.ip[2]
                == 0 && a.ip[3] == 0
            &&& a.tcp_port == tcp_port
            &&& a.udp_port == udp_port
            &&& a.last_seen == now
        }),
{
}

/// A client that asks to log in has its id looked up. If it is known, it is
/// given the challenge that is then pending; if not, it is told so.
pub proof fn law_login_is_challenged(
    conn: ConnectionView,
    diddy_id: u128,
    record: Option<RecordView>,
    server_seed: Seq<u8>,
    fresh: Seq<u8>,
    now: i64,
)
    ensures
        ({
            let asked = requested(conn, ClientMessageView::LoginRequest { diddy_id }, now);
            let step = record_found(asked.conn, record, server_seed, fresh, now);
            &&& asked.action == ActionView::FindById(be_bytes(diddy_id as nat, 16))
            &&& step.conn.stage is Idle
            &&& step.conn.authed_id == conn.authed_id
            &&& step.conn.peer_ip == conn.peer_ip
            &&& record is Some ==> step.conn.pending_challenge == Some(fresh) && step.action
                == ActionView::Reply(ServerMessageView::AuthChallenge { challenge: fresh })
            &&& record is None ==> step.conn.pending_challenge == conn.pending_challenge
                && step.action == ActionView::Reply(
                ServerMessageView::LoginError { reason: "unknown diddy_id"@ },
            )
        }),
{
}

/// An answer to a challenge is held against the challenge that was pending, the
/// id that the client claims and the key on record: it lets the client in under
/// that id exactly if the signature verifies; a key on record that is no key
/// ends the connection; anything else is refused.
pub proof fn law_answer_is_judged(
    conn: ConnectionView,
    challenge: Seq<u8>,
    diddy_id: u128,
    signature: Seq<u8>,
    record: RecordView,
    server_seed: Seq<u8>,
    fresh: Seq<u8>,
    now: i64,
)
    requires
        conn.pending_challenge == Some(challenge),
    ensures
        ({
            let answer = ClientMessageView::LoginChallengeResponse { diddy_id, signature };
            let asked = requested(conn, answer, now);
            let step = record_found(asked.conn, Some(record), server_seed, fresh, now);
            let unknown = record_found(asked.conn, None, server_seed, fresh, now);
            let good = ed25519_key_decodes(record.pubkey) && reduced_scalar(signature)
                && ed25519_verifies(record.pubkey, challenge, signature);
            &&& asked.action == ActionView::FindById(be_bytes(diddy_id as nat, 16))
            &&& good ==> step.action == (ActionView::LetIn { diddy_id }) && step.conn.authed_id
                == Some(diddy_id)
            &&& !good ==> step.conn.authed_id == conn.authed_id
            &&& !ed25519_key_decodes(record.pubkey) ==> step.action == ActionView::Close(
                SignatureError::InvalidKey,
            )
            &&& !good && ed25519_key_decodes(record.pubkey) ==> step.action == ActionView::Reply(
                ServerMessageView::LoginError { reason: "bad signature"@ },
            )
            &&& unknown.conn.authed_id == conn.authed_id
            &&& unknown.action == ActionView::Reply(
                ServerMessageView::LoginError { reason: "unknown diddy_id"@ },
            )
        }),
{
}

/// An answer without a challenge is refused, and changes nothing.
pub proof fn law_unasked_answer_is_refused(
    conn: ConnectionView,
    diddy_id: u128,
    signature: Seq<u8>,
    now: i64,
)
    requires
        conn.stage is Idle,
        conn.pending_challenge is None,
    ensures
        ({
            let answer = ClientMessageView::LoginChallengeResponse { diddy_id, signature };
            let step = requested(conn, answer, now);
            &&& step.conn == conn
            &&& step.action == ActionView::Reply(
                ServerMessageView::LoginError { reason: "no pending challenge"@ },
            )
        }),
{
}

/// Whoever asks about an id is told the key and the signature on record for it,
/// or that there is none.
pub proof fn law_record_is_shown(
    conn: ConnectionView,
    diddy_id: u128,
    record: RecordView,
    server_seed: Seq<u8>,
    fresh: Seq<u8>,
    now: i64,
)
    ensures
        ({
            let asked = requested(conn, ClientMessageView::VerifyRequest { diddy_id }, now);
            &&& asked.action == ActionView::FindById(be_bytes(diddy_id as nat, 16))
            &&& record_found(asked.conn, Some(record), server_seed, fresh, now).action
                == ActionView::Reply(
                ServerMessageView::VerifyResponse {
                    diddy_id,
                    pubkey: record.pubkey,
                    signature: record.signature,
                },
            )
            &&& record_found(asked.conn, None, server_seed, fresh, now).action
                == ActionView::Reply(
                ServerMessageView::VerifyError { reason: "unknown diddy_id"@ },
            )
        }),
{
}

/// A client that registers is told the id that goes with its key and the
/// server's signature on the key once they are written down, and of an error if
/// they could not be.
pub proof fn law_registration_is_answered(
    conn: ConnectionView,
    pubkey: Seq<u8>,
    pwd_hash: Seq<u8>,
    salt: Seq<u8>,
    server_seed: Seq<u8>,
    fresh: Seq<u8>,
    now: i64,
)
    ensures
        ({
            let request = ClientMessageView::Register { pubkey, pwd_hash, salt };
            let asked = requested(conn, request, now);
            let free = record_found(asked.conn, None, server_seed, fresh, now);
            &&& asked.action == ActionView::FindByPubkey(pubkey)
            &&& record_inserted(free.conn, true).action matches ActionView::Reply(
                ServerMessageView::RegistrationSuccess { diddy_id, signature },
            ) && diddy_id as nat == diddy_id_of(pubkey) && signature == ed25519_signature(
                server_seed,
                pubkey,
            )
            &&& record_inserted(free.conn, false).action == ActionView::Reply(
                ServerMessageView::RegistrationError { reason: "internal error"@ },
            )
            &&& record_inserted(free.conn, true).conn.authed_id == conn.authed_id
        }),
{
    law_ids_fit(pubkey);
}

/// A connection, and what it waits for and wants done, are told apart by every
/// part of them.
pub proof fn law_connection_views(conn: Connection, action: Action)
    ensures
        conn@.authed_id == conn.authed_id,
        conn.pending_challenge matches Some(c) ==> conn@.pending_challenge == Some(c@),
        conn.pending_challenge is None ==> conn@.pending_challenge is None,
        conn.peer_ip matches Some(ip) ==> conn@.peer_ip == Some(ip.octets_seq()),
        conn.peer_ip is None ==> conn@.peer_ip is None,
        match conn.stage {
            Stage::Idle => conn@.stage is Idle,
            Stage::Registering { pubkey, pwd_hash, salt } => conn@.stage
                == (StageView::Registering {
                pubkey: pubkey@,
                pwd_hash: pwd_hash@,
                salt: salt@,
            }),
            Stage::Inserting { diddy_id, signature } => conn@.stage == (StageView::Inserting {
                diddy_id,
                signature: signature@,
            }),
            Stage::LoggingIn => conn@.stage is LoggingIn,
            Stage::Proving { challenge, diddy_id, signature } => conn@.stage
                == (StageView::Proving {
                challenge: challenge@,
                diddy_id,
                signature: signature@,
            }),
            Stage::Verifying { diddy_id } => conn@.stage == (StageView::Verifying { diddy_id }),
            Stage::Announcing => conn@.stage is Announcing,
            Stage::Locating { target } => conn@.stage == (StageView::Locating { target }),
            Stage::Checking { target, ip, tcp_port, udp_port } => conn@.stage
                == (StageView::Checking { target, ip: ip.octets_seq(), tcp_port, udp_port }),
        },
        match action {
            Action::FindByPubkey(k) => action@ == ActionView::FindByPubkey(k@),
            Action::FindById(id) => action@ == ActionView::FindById(id@),
            Action::Insert(r) => action@ == ActionView::Insert(r@),
            Action::SaveAnnouncement(a) => action@ == ActionView::SaveAnnouncement(a@),
            Action::FindAnnouncement(id) => action@ == ActionView::FindAnnouncement(id@),
            Action::AskOnline(id) => action@ == ActionView::AskOnline(id),
            Action::Forward { to, message } => action@ == (ActionView::Forward {
                to,
                message: message@,
            }),
            Action::Reply(m) => action@ == ActionView::Reply(m@),
            Action::LetIn { diddy_id } => action@ == (ActionView::LetIn { diddy_id }),
            Action::Close(e) => action@ == ActionView::Close(e),
        },
{
}

} // verus!
