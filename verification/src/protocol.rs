//! The messages that travel: between a client and the server, and between two
//! peers. On the wire every message is framed by its length.

use vstd::prelude::*;

use crate::bytes::{array_at, copy_bytes, extend_bytes, le_array4, u128_from_le};
use crate::bytes::{
    le_bytes, le_value, lemma_le_bytes_len, lemma_le_round_trip, lemma_pow256_values,
};

verus! {

/// The longest message, in bytes, that a receiver takes.
pub const MAX_MESSAGE_LEN: usize = 1_048_576;

// ---------------------------------------------------------------------------
// Addresses
// ---------------------------------------------------------------------------

/// An address on the network.
#[derive(Debug, Clone, Copy, PartialEq, Eq)]
pub enum IpAddress {
    V4([u8; 4]),
    V6([u8; 16]),
}

impl IpAddress {
    /// The bytes of the address, in network order.
    pub open spec fn octets_seq(self) -> Seq<u8> {
        match self {
            IpAddress::V4(a) => a@,
            IpAddress::V6(a) => a@,
        }
    }

    /// The bytes of the address, in network order.
    pub fn octets(&self) -> (out: Vec<u8>)
        ensures
            out@ == self.octets_seq(),
            match self {
                IpAddress::V4(a) => out@ == a@,
                IpAddress::V6(a) => out@ == a@,
            },
    {
        match self {
            IpAddress::V4(a) => copy_bytes(a.as_slice()),
            IpAddress::V6(a) => copy_bytes(a.as_slice()),
        }
    }

    /// The address with the given bytes: four of them, or sixteen.
    pub fn from_octets(octets: &Vec<u8>) -> (out: Option<IpAddress>)
        ensures
            match out {
                Some(ip) => ip.octets_seq() == octets@,
                None => octets@.len() != 4 && octets@.len() != 16,
            },
            match out {
                Some(IpAddress::V4(a)) => octets@.len() == 4 && a@ == octets@,
                Some(IpAddress::V6(a)) => octets@.len() == 16 && a@ == octets@,
                None => octets@.len() != 4 && octets@.len() != 16,
            },
    {
        if octets.len() == 4 {
            let a: [u8; 4] = array_at(octets.as_slice(), 0);
            assert(octets@.subrange(0, 4) =~= octets@);
            Some(IpAddress::V4(a))
        } else if octets.len() == 16 {
            let a: [u8; 16] = array_at(octets.as_slice(), 0);
            assert(octets@.subrange(0, 16) =~= octets@);
            Some(IpAddress::V6(a))
        } else {
            None
        }
    }
}

// ---------------------------------------------------------------------------
// Client and server
// ---------------------------------------------------------------------------

/// What a client asks of the server.
#[derive(Debug, Clone)]
pub enum ClientMessage {
    Register { pubkey: [u8; 32], pwd_hash: [u8; 32], salt: [u8; 16] },
    LoginRequest { diddy_id: u128 },
    LoginChallengeResponse { diddy_id: u128, signature: [u8; 64] },
    VerifyRequest { diddy_id: u128 },
    Announce { tcp_port: u16, udp_port: u16 },
    QueryPeer { diddy_id: u128 },
    RelayPacket { to_diddy_id: u128, payload: Vec<u8> },
}

/// What a `ClientMessage` says.
pub enum ClientMessageView {
    Register { pubkey: Seq<u8>, pwd_hash: Seq<u8>, salt: Seq<u8> },
    LoginRequest { diddy_id: u128 },
    LoginChallengeResponse { diddy_id: u128, signature: Seq<u8> },
    VerifyRequest { diddy_id: u128 },
    Announce { tcp_port: u16, udp_port: u16 },
    QueryPeer { diddy_id: u128 },
    RelayPacket { to_diddy_id: u128, payload: Seq<u8> },
}

impl View for ClientMessage {
    type V = ClientMessageView;

    open spec fn view(&self) -> ClientMessageView {
        match *self {
            ClientMessage::Register { pubkey, pwd_hash, salt } => ClientMessageView::Register {
                pubkey: pubkey@,
                pwd_hash: pwd_hash@,
                salt: salt@,
            },
            ClientMessage::LoginRequest { diddy_id } => ClientMessageView::LoginRequest {
                diddy_id,
            },
            ClientMessage::LoginChallengeResponse { diddy_id, signature } =>
                ClientMessageView::LoginChallengeResponse { diddy_id, signature: signature@ },
            ClientMessage::VerifyRequest { diddy_id } => ClientMessageView::VerifyRequest {
                diddy_id,
            },
            ClientMessage::Announce { tcp_port, udp_port } => ClientMessageView::Announce {
                tcp_port,
                udp_port,
            },
            ClientMessage::QueryPeer { diddy_id } => ClientMessageView::QueryPeer { diddy_id },
            ClientMessage::RelayPacket { to_diddy_id, payload } => ClientMessageView::RelayPacket {
                to_diddy_id,
                payload: payload@,
            },
        }
    }
}

/// What the server answers, and what it passes on from other clients.
#[derive(Debug, Clone)]
pub enum ServerMessage {
    RegistrationSuccess { diddy_id: u128, signature: [u8; 64] },
    RegistrationError { reason: String },
    AuthChallenge { challenge: [u8; 32] },
    LoginSuccess,
    LoginError { reason: String },
    VerifyResponse { diddy_id: u128, pubkey: [u8; 32], signature: [u8; 64] },
    VerifyError { reason: String },
    AnnounceAck,
    PeerInfo { diddy_id: u128, ip: IpAddress, tcp_port: u16, udp_port: u16, online: bool },
    PeerNotFound,
    RelayForward { from_diddy_id: u128, payload: Vec<u8> },
}

/// What a `ServerMessage` says.
pub enum ServerMessageView {
    RegistrationSuccess { diddy_id: u128, signature: Seq<u8> },
    RegistrationError { reason: Seq<char> },
    AuthChallenge { challenge: Seq<u8> },
    LoginSuccess,
    LoginError { reason: Seq<char> },
    VerifyResponse { diddy_id: u128, pubkey: Seq<u8>, signature: Seq<u8> },
    VerifyError { reason: Seq<char> },
    AnnounceAck,
    PeerInfo { diddy_id: u128, ip: Seq<u8>, tcp_port: u16, udp_port: u16, online: bool },
    PeerNotFound,
    RelayForward { from_diddy_id: u128, payload: Seq<u8> },
}

impl View for ServerMessage {
    type V = ServerMessageView;

    open spec fn view(&self) -> ServerMessageView {
        match *self {
            ServerMessage::RegistrationSuccess { diddy_id, signature } =>
                ServerMessageView::RegistrationSuccess { diddy_id, signature: signature@ },
            ServerMessage::RegistrationError { reason } => ServerMessageView::RegistrationError {
                reason: reason@,
            },
            ServerMessage::AuthChallenge { challenge } => ServerMessageView::AuthChallenge {
                challenge: challenge@,
            },
            ServerMessage::LoginSuccess => ServerMessageView::LoginSuccess,
            ServerMessage::LoginError { reason } => ServerMessageView::LoginError {
                reason: reason@,
            },
            ServerMessage::VerifyResponse { diddy_id, pubkey, signature } =>
                ServerMessageView::VerifyResponse {
                diddy_id,
                pubkey: pubkey@,
                signature: signature@,
            },
            ServerMessage::VerifyError { reason } => ServerMessageView::VerifyError {
                reason: reason@,
            },
            ServerMessage::AnnounceAck => ServerMessageView::AnnounceAck,
            ServerMessage::PeerInfo { diddy_id, ip, tcp_port, udp_port, online } =>
                ServerMessageView::PeerInfo {
                diddy_id,
                ip: ip.octets_seq(),
                tcp_port,
                udp_port,
                online,
            },
            ServerMessage::PeerNotFound => ServerMessageView::PeerNotFound,
            ServerMessage::RelayForward { from_diddy_id, payload } =>
                ServerMessageView::RelayForward { from_diddy_id, payload: payload@ },
        }
    }
}

// ---------------------------------------------------------------------------
// Peer and peer
// ---------------------------------------------------------------------------

/// A message from one peer to another: sealed for the receiver, signed by the
/// sender.
#[derive(Debug, Clone)]
pub struct ChatMessage {
    pub id: [u8; 16],
    pub from: u128,
    pub to: u128,
    pub timestamp: u64,
    pub nonce: [u8; 12],
    pub ciphertext: Vec<u8>,
    pub signature: [u8; 64],
}

/// What a `ChatMessage` says.
#[verifier::ext_equal]
pub struct ChatView {
    pub id: Seq<u8>,
    pub from: u128,
    pub to: u128,
    pub timestamp: u64,
    pub nonce: Seq<u8>,
    pub ciphertext: Seq<u8>,
    pub signature: Seq<u8>,
}

impl View for ChatMessage {
    type V = ChatView;

    open spec fn view(&self) -> ChatView {
        ChatView {
            id: self.id@,
            from: self.from,
            to: self.to,
            timestamp: self.timestamp,
            nonce: self.nonce@,
            ciphertext: self.ciphertext@,
            signature: self.signature@,
        }
    }
}

/// What a list of chat messages says.
pub open spec fn chat_views(chats: Seq<ChatMessage>) -> Seq<ChatView> {
    chats.map_values(|c: ChatMessage| c@)
}

/// What two connected peers send each other.
#[derive(Debug, Clone)]
pub enum Packet {
    HandshakeInit {
        diddy_id: u128,
        identity_pubkey: [u8; 32],
        server_signature: Vec<u8>,
        encryption_pubkey: [u8; 32],
    },
    Challenge {
        challenge: [u8; 32],
        diddy_id: u128,
        identity_pubkey: [u8; 32],
        server_signature: Vec<u8>,
        encryption_pubkey: [u8; 32],
    },
    ChallengeResponse { signature: [u8; 64] },
    SyncRequest(u64),
    SyncGive(Vec<ChatMessage>),
    Message(ChatMessage),
}

/// What a `Packet` says.
pub enum PacketView {
    HandshakeInit {
        diddy_id: u128,
        identity_pubkey: Seq<u8>,
        server_signature: Seq<u8>,
        encryption_pubkey: Seq<u8>,
    },
    Challenge {
        challenge: Seq<u8>,
        diddy_id: u128,
        identity_pubkey: Seq<u8>,
        server_signature: Seq<u8>,
        encryption_pubkey: Seq<u8>,
    },
    ChallengeResponse { signature: Seq<u8> },
    SyncRequest(u64),
    SyncGive(Seq<ChatView>),
    Message(ChatView),
}

impl View for Packet {
    type V = PacketView;

    open spec fn view(&self) -> PacketView {
        match *self {
            Packet::HandshakeInit {
                diddy_id,
                identity_pubkey,
                server_signature,
                encryption_pubkey,
            } => PacketView::HandshakeInit {
                diddy_id,
                identity_pubkey: identity_pubkey@,
                server_signature: server_signature@,
                encryption_pubkey: encryption_pubkey@,
            },
            Packet::Challenge {
                challenge,
                diddy_id,
                identity_pubkey,
                server_signature,
                encryption_pubkey,
            } => PacketView::Challenge {
                challenge: challenge@,
                diddy_id,
                identity_pubkey: identity_pubkey@,
                server_signature: server_signature@,
                encryption_pubkey: encryption_pubkey@,
            },
            Packet::ChallengeResponse { signature } => PacketView::ChallengeResponse {
                signature: signature@,
            },
            Packet::SyncRequest(ts) => PacketView::SyncRequest(ts),
            Packet::SyncGive(chats) => PacketView::SyncGive(chat_views(chats@)),
            Packet::Message(chat) => PacketView::Message(chat@),
        }
    }
}

// ---------------------------------------------------------------------------
// Framing
// ---------------------------------------------------------------------------

/// A header that announces more than a receiver takes.
#[derive(Debug, Clone, Copy, PartialEq, Eq, Structural)]
pub struct MessageTooLarge;

impl MessageTooLarge {
    /// What to tell the user.
    pub fn message(&self) -> (text: String)
        ensures
            text@ == "message too large"@,
    {
        "message too large".to_owned()
    }
}

/// `body` as it goes over the wire: its length in four bytes, least
/// significant first, then the body.
pub open spec fn framed(body: Seq<u8>) -> Seq<u8> {
    le_bytes(body.len(), 4) + body
}

/// How many bytes follow a header, if a receiver takes that many.
pub open spec fn announced_len(header: Seq<u8>) -> Result<nat, MessageTooLarge> {
    if le_value(header) > MAX_MESSAGE_LEN {
        Err(MessageTooLarge)
    } else {
        Ok(le_value(header))
    }
}

/// `body` as it goes over the wire.
pub fn frame_message(body: &[u8]) -> (out: Vec<u8>)
    ensures
        out@ == framed(body@),
        out@.len() == 4 + body@.len(),
        out@.skip(4) == body@,
        body@.len() < 0x1_0000_0000 ==> out@[0] + 0x100 * out@[1] + 0x1_0000 * out@[2] + 0x100_0000
            * out@[3] == body@.len(),
{
    proof {
        law_frame(body@);
    }
    let mut out = copy_bytes(le_array4(body.len() as u64).as_slice());
    extend_bytes(&mut out, body);
    out
}

/// How many bytes follow a header.
pub fn read_header(header: &[u8; 4]) -> (len: Result<usize, MessageTooLarge>)
    ensures
        match len {
            Ok(n) => announced_len(header@) == Ok::<nat, MessageTooLarge>(n as nat),
            Err(e) => announced_len(header@) == Err::<nat, MessageTooLarge>(e),
        },
        ({
            let announced = header@[0] + 0x100 * header@[1] + 0x1_0000 * header@[2] + 0x100_0000
                * header@[3];
            match len {
                Ok(n) => n == announced && n <= 1_048_576,
                Err(_) => announced > 1_048_576,
            }
        }),
{
    proof {
        law_header(header@);
    }
    let n = u128_from_le(header.as_slice());
    if n > MAX_MESSAGE_LEN as u128 {
        Err(MessageTooLarge)
    } else {
        Ok(n as usize)
    }
}

proof fn lemma_header(body: Seq<u8>, rest: Seq<u8>)
    requires
        body.len() < 0x1_0000_0000,
    ensures
        le_value((framed(body) + rest).take(4)) == body.len(),
{
    lemma_le_bytes_len(body.len(), 4);
    lemma_pow256_values();
    lemma_le_round_trip(body.len(), 4);
    assert((framed(body) + rest).take(4) =~= le_bytes(body.len(), 4));
}

/// Whoever reads a framed message learns from its header exactly how many
/// bytes to read; those bytes are the message, and whatever came behind it is
/// left over. This holds as long as a receiver takes that many bytes.
pub proof fn law_frame_reads_back(body: Seq<u8>, rest: Seq<u8>)
    requires
        body.len() <= MAX_MESSAGE_LEN,
    ensures
        announced_len((framed(body) + rest).take(4)) == Ok::<nat, MessageTooLarge>(body.len()),
        (framed(body) + rest).subrange(4, 4 + body.len() as int) == body,
        (framed(body) + rest).skip(4 + body.len() as int) == rest,
{
    lemma_header(body, rest);
    lemma_le_bytes_len(body.len(), 4);
    assert((framed(body) + rest).subrange(4, 4 + body.len() as int) =~= body);
    assert((framed(body) + rest).skip(4 + body.len() as int) =~= rest);
}

/// A message that is too long is refused by whoever reads its header, as long
/// as its length fits in the header.
pub proof fn law_long_frame_refused(body: Seq<u8>, rest: Seq<u8>)
    requires
        MAX_MESSAGE_LEN < body.len() < 0x1_0000_0000,
    ensures
        announced_len((framed(body) + rest).take(4)) == Err::<nat, MessageTooLarge>(
            MessageTooLarge,
        ),
{
    lemma_header(body, rest);
}

/// Four bytes announce the number that they spell, the least significant first,
/// and a receiver takes up to a mebibyte.
pub proof fn law_header(header: Seq<u8>)
    requires
        header.len() == 4,
    ensures
        ({
            let announced = header[0] + 0x100 * header[1] + 0x1_0000 * header[2] + 0x100_0000
                * header[3];
            &&& le_value(header) == announced
            &&& announced <= 1_048_576 ==> announced_len(header) == Ok::<nat, MessageTooLarge>(
                announced as nat,
            )
            &&& announced > 1_048_576 ==> announced_len(header) is Err
        }),
{
    reveal_with_fuel(le_value, 5);
    assert(header.drop_first()[0] == header[1]);
    assert(header.drop_first().drop_first()[0] == header[2]);
    assert(header.drop_first().drop_first().drop_first()[0] == header[3]);
    assert(header.drop_first().drop_first().drop_first().drop_first().len() == 0);
}

/// A message goes over the wire whole, behind four bytes that spell its length.
pub proof fn law_frame(body: Seq<u8>)
    ensures
        framed(body).len() == 4 + body.len(),
        framed(body).skip(4) == body,
        body.len() < 0x1_0000_0000 ==> framed(body)[0] + 0x100 * framed(body)[1] + 0x1_0000
            * framed(body)[2] + 0x100_0000 * framed(body)[3] == body.len(),
{
    lemma_le_bytes_len(body.len(), 4);
    assert(framed(body).skip(4) =~= body);
    if body.len() < 0x1_0000_0000 {
        lemma_pow256_values();
        lemma_le_round_trip(body.len(), 4);
        let header = le_bytes(body.len(), 4);
        law_header(header);
        assert(framed(body)[0] == header[0]);
        assert(framed(body)[1] == header[1]);
        assert(framed(body)[2] == header[2]);
        assert(framed(body)[3] == header[3]);
    }
}

/// An address is its bytes.
pub proof fn law_octets(a: [u8; 4], b: [u8; 16])
    ensures
        IpAddress::V4(a).octets_seq() == a@,
        IpAddress::V6(b).octets_seq() == b@,
{
}

/// A request says what each part of it says.
pub proof fn law_client_message_says(m: ClientMessage)
    ensures
        match m {
            ClientMessage::Register { pubkey, pwd_hash, salt } => m@ matches
                ClientMessageView::Register { pubkey: k, pwd_hash: h, salt: s } && k == pubkey@ && h
                == pwd_hash@ && s == salt@,
            ClientMessage::LoginRequest { diddy_id } => m@ matches ClientMessageView::LoginRequest {
                diddy_id: id,
            } && id == diddy_id,
            ClientMessage::LoginChallengeResponse { diddy_id, signature } => m@ matches
                ClientMessageView::LoginChallengeResponse { diddy_id: id, signature: s } && id
                == diddy_id && s == signature@,
            ClientMessage::VerifyRequest { diddy_id } => m@ matches
                ClientMessageView::VerifyRequest { diddy_id: id } && id == diddy_id,
            ClientMessage::Announce { tcp_port, udp_port } => m@ matches
                ClientMessageView::Announce { tcp_port: t, udp_port: u } && t == tcp_port && u
                == udp_port,
            ClientMessage::QueryPeer { diddy_id } => m@ matches ClientMessageView::QueryPeer {
                diddy_id: id,
            } && id == diddy_id,
            ClientMessage::RelayPacket { to_diddy_id, payload } => m@ matches
                ClientMessageView::RelayPacket { to_diddy_id: to, payload: p } && to == to_diddy_id
                && p == payload@,
        },
{
}

/// An answer says what each part of it says.
pub proof fn law_server_message_says(m: ServerMessage)
    ensures
        match m {
            ServerMessage::RegistrationSuccess { diddy_id, signature } => m@ matches
                ServerMessageView::RegistrationSuccess { diddy_id: id, signature: s } && id
                == diddy_id && s == signature@,
            ServerMessage::RegistrationError { reason } => m@ matches
                ServerMessageView::RegistrationError { reason: r } && r == reason@,
            ServerMessage::AuthChallenge { challenge } => m@ matches
                ServerMessageView::AuthChallenge { challenge: c } && c == challenge@,
            ServerMessage::LoginSuccess => m@ is LoginSuccess,
            ServerMessage::LoginError { reason } => m@ matches ServerMessageView::LoginError {
                reason: r,
            } && r == reason@,
            ServerMessage::VerifyResponse { diddy_id, pubkey, signature } => m@ matches
                ServerMessageView::VerifyResponse { diddy_id: id, pubkey: k, signature: s } && id
                == diddy_id && k == pubkey@ && s == signature@,
            ServerMessage::VerifyError { reason } => m@ matches ServerMessageView::VerifyError {
                reason: r,
            } && r == reason@,
            ServerMessage::AnnounceAck => m@ is AnnounceAck,
            ServerMessage::PeerInfo { diddy_id, ip, tcp_port, udp_port, online } => m@ matches
                ServerMessageView::PeerInfo {
                diddy_id: id,
                ip: i,
                tcp_port: t,
                udp_port: u,
                online: o,
            } && id == diddy_id && i == ip.octets_seq() && t == tcp_port && u == udp_port && o
                == online,
            ServerMessage::PeerNotFound => m@ is PeerNotFound,
            ServerMessage::RelayForward { from_diddy_id, payload } => m@ matches
                ServerMessageView::RelayForward { from_diddy_id: from, payload: p } && from
                == from_diddy_id && p == payload@,
        },
{
}

/// A chat message says what each part of it says, and a list of them what each
/// of them says, in order.
pub proof fn law_chat_message_says(c: ChatMessage, chats: Seq<ChatMessage>)
    ensures
        c@.id == c.id@,
        c@.from == c.from,
        c@.to == c.to,
        c@.timestamp == c.timestamp,
        c@.nonce == c.nonce@,
        c@.ciphertext == c.ciphertext@,
        c@.signature == c.signature@,
        chat_views(chats).len() == chats.len(),
        forall|i: int| 0 <= i < chats.len() ==> #[trigger] chat_views(chats)[i] == chats[i]@,
{
}

/// A packet says what each part of it says.
pub proof fn law_packet_says(p: Packet)
    ensures
        match p {
            Packet::HandshakeInit {
                diddy_id,
                identity_pubkey,
                server_signature,
                encryption_pubkey,
            } => p@ matches PacketView::HandshakeInit {
                diddy_id: id,
                identity_pubkey: k,
                server_signature: s,
                encryption_pubkey: e,
            } && id == diddy_id && k == identity_pubkey@ && s == server_signature@ && e
                == encryption_pubkey@,
            Packet::Challenge {
                challenge,
                diddy_id,
                identity_pubkey,
                server_signature,
                encryption_pubkey,
            } => p@ matches PacketView::Challenge {
                challenge: c,
                diddy_id: id,
                identity_pubkey: k,
                server_signature: s,
                encryption_pubkey: e,
            } && c == challenge@ && id == diddy_id && k == identity_pubkey@ && s
                == server_signature@ && e == encryption_pubkey@,
            Packet::ChallengeResponse { signature } => p@ matches PacketView::ChallengeResponse {
                signature: s,
            } && s == signature@,
            Packet::SyncRequest(ts) => p@ matches PacketView::SyncRequest(t) && t == ts,
            Packet::SyncGive(chats) => p@ matches PacketView::SyncGive(c) && c == chat_views(chats@),
            Packet::Message(chat) => p@ matches PacketView::Message(c) && c == chat@,
        },
{
}

} // verus!
