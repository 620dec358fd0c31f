use mojrg::bytes::u128_to_bytes;
use mojrg::crypto::{compute_diddy_id, verify_diddy, SignatureError};
use mojrg::directory::{
    announcement_from_row, record_from_row, DiddyRecord, Keypair, PeerAnnouncement,
};
use mojrg::identity::LocalIdentity;
use mojrg::login::{answer_challenge, login_outcome, login_request, registration_outcome};
use mojrg::protocol::{ClientMessage, IpAddress, ServerMessage};
use mojrg::server::{Action, Connection, Stage};

fn server() -> Keypair {
    Keypair::from_seed([0x55; 32])
}

fn client() -> LocalIdentity {
    LocalIdentity::from_seed(&[1; 32], [2; 16])
}

fn connection() -> Connection {
    Connection::new(Some(IpAddress::V4([10, 0, 0, 9])))
}

fn record_of(id: &LocalIdentity) -> DiddyRecord {
    DiddyRecord {
        id: u128_to_bytes(compute_diddy_id(&id.pubkey)),
        pubkey: id.pubkey,
        salt: id.salt,
        pwd_hash: [0; 32],
        signature: [0; 64],
        created_at: 0,
    }
}

fn error(action: Action) -> String {
    match action {
        Action::Reply(ServerMessage::LoginError { reason })
        | Action::Reply(ServerMessage::RegistrationError { reason })
        | Action::Reply(ServerMessage::VerifyError { reason }) => reason,
        _ => panic!("no refusal"),
    }
}

fn registration(id: &LocalIdentity) -> ClientMessage {
    ClientMessage::Register { pubkey: id.pubkey, pwd_hash: [3; 32], salt: id.salt }
}

fn logged_in(conn: &mut Connection, id: &LocalIdentity) -> u128 {
    let diddy_id = compute_diddy_id(&id.pubkey);
    conn.request(ClientMessage::LoginRequest { diddy_id }, 0);
    conn.found_with(Some(record_of(id)), &server().seed, [4; 32], 0);
    let signature = id.sign(&[4; 32]);
    conn.request(ClientMessage::LoginChallengeResponse { diddy_id, signature }, 0);
    assert!(matches!(
        conn.found(Some(record_of(id)), &server().seed, 0),
        Action::LetIn { diddy_id: d } if d == diddy_id
    ));
    diddy_id
}

#[test]
fn a_new_key_is_registered_and_signed() {
    let mut id = client();
    let mut conn = connection();
    let action = conn.request(registration(&id), 1);
    assert!(matches!(action, Action::FindByPubkey(k) if k == id.pubkey));
    let record = match conn.found(None, &server().seed, 1234) {
        Action::Insert(record) => record,
        _ => panic!("no insertion"),
    };
    let diddy_id = compute_diddy_id(&id.pubkey);
    assert_eq!(record.id, diddy_id.to_be_bytes());
    assert_eq!(record.pubkey, id.pubkey);
    assert_eq!(record.salt, [2; 16]);
    assert_eq!(record.pwd_hash, [3; 32]);
    assert_eq!(record.created_at, 1234);
    assert_eq!(verify_diddy(&id.pubkey, &record.signature, &server().pubkey), Ok(()));
    let reply = match conn.inserted(true) {
        Action::Reply(reply) => reply,
        _ => panic!("no reply"),
    };
    assert!(registration_outcome(&mut id, reply).is_ok());
    assert_eq!(id.diddy_id, Some(diddy_id));
    assert_eq!(id.server_signature, Some(record.signature.to_vec()));
    assert!(matches!(conn.stage, Stage::Idle));
}

#[test]
fn a_key_is_not_registered_twice() {
    let id = client();
    let mut conn = connection();
    conn.request(registration(&id), 0);
    let reason = error(conn.found(Some(record_of(&id)), &server().seed, 0));
    assert_eq!(reason, "pubkey already registered");
}

#[test]
fn a_record_that_is_not_written_is_an_internal_error() {
    let mut conn = connection();
    conn.request(registration(&client()), 0);
    conn.found(None, &server().seed, 0);
    assert_eq!(error(conn.inserted(false)), "internal error");
}

#[test]
fn the_right_key_logs_in() {
    let mut id = client();
    let diddy_id = compute_diddy_id(&id.pubkey);
    id.diddy_id = Some(diddy_id);
    let mut conn = connection();
    let request = login_request(&id).unwrap();
    let action = conn.request(request, 0);
    assert!(matches!(action, Action::FindById(k) if k == diddy_id.to_be_bytes()));
    let reply = match conn.found_with(Some(record_of(&id)), &server().seed, [4; 32], 0) {
        Action::Reply(reply) => reply,
        _ => panic!("no reply"),
    };
    assert!(matches!(reply, ServerMessage::AuthChallenge { challenge } if challenge == [4; 32]));
    assert_eq!(conn.pending_challenge, Some([4; 32]));
    let answer = answer_challenge(&id, diddy_id, reply).unwrap();
    let action = conn.request(answer, 0);
    assert!(matches!(action, Action::FindById(k) if k == diddy_id.to_be_bytes()));
    let action = conn.found(Some(record_of(&id)), &server().seed, 0);
    assert!(matches!(action, Action::LetIn { diddy_id: d } if d == diddy_id));
    assert_eq!(conn.authed_id, Some(diddy_id));
    assert!(login_outcome(ServerMessage::LoginSuccess).is_ok());
}

#[test]
fn challenges_are_random() {
    let draw = || {
        let mut conn = connection();
        conn.request(ClientMessage::LoginRequest { diddy_id: 1 }, 0);
        match conn.found(Some(record_of(&client())), &server().seed, 0) {
            Action::Reply(ServerMessage::AuthChallenge { challenge }) => challenge,
            _ => panic!("no challenge"),
        }
    };
    assert_ne!(draw(), draw());
}

#[test]
fn nobody_logs_in_under_an_unknown_id() {
    let mut conn = connection();
    conn.request(ClientMessage::LoginRequest { diddy_id: 5 }, 0);
    assert_eq!(error(conn.found(None, &server().seed, 0)), "unknown diddy_id");
    assert_eq!(conn.pending_challenge, None);
}

#[test]
fn a_wrong_signature_is_refused_and_uses_up_the_challenge() {
    let id = client();
    let diddy_id = compute_diddy_id(&id.pubkey);
    let mut conn = connection();
    conn.request(ClientMessage::LoginRequest { diddy_id }, 0);
    conn.found_with(Some(record_of(&id)), &server().seed, [4; 32], 0);
    let wrong = ClientMessage::LoginChallengeResponse { diddy_id, signature: [9; 64] };
    conn.request(wrong, 0);
    assert_eq!(error(conn.found(Some(record_of(&id)), &server().seed, 0)), "bad signature");
    assert_eq!(conn.authed_id, None);
    let signature = id.sign(&[4; 32]);
    let late = ClientMessage::LoginChallengeResponse { diddy_id, signature };
    assert_eq!(error(conn.request(late, 0)), "no pending challenge");
    assert_eq!(conn.authed_id, None);
}

#[test]
fn a_challenge_answered_for_an_unknown_id_is_used_up() {
    let id = client();
    let mut conn = connection();
    conn.request(ClientMessage::LoginRequest { diddy_id: 1 }, 0);
    conn.found_with(Some(record_of(&id)), &server().seed, [4; 32], 0);
    let answer = ClientMessage::LoginChallengeResponse { diddy_id: 2, signature: [0; 64] };
    conn.request(answer, 0);
    assert_eq!(error(conn.found(None, &server().seed, 0)), "unknown diddy_id");
    assert_eq!(conn.pending_challenge, None);
}

#[test]
fn a_record_without_a_key_ends_the_connection() {
    let mut record = record_of(&client());
    record.pubkey = [0; 32];
    record.pubkey[0] = 2;
    let mut conn = connection();
    conn.request(ClientMessage::LoginRequest { diddy_id: 1 }, 0);
    conn.found_with(Some(record.clone()), &server().seed, [4; 32], 0);
    conn.request(ClientMessage::LoginChallengeResponse { diddy_id: 1, signature: [0; 64] }, 0);
    let action = conn.found(Some(record), &server().seed, 0);
    assert!(matches!(action, Action::Close(SignatureError::InvalidKey)));
    assert_eq!(conn.authed_id, None);
}

#[test]
fn a_judgement_decides_who_is_let_in() {
    let mut conn = connection();
    assert!(matches!(conn.conclude(3, Ok(())), Action::LetIn { diddy_id: 3 }));
    assert_eq!(conn.authed_id, Some(3));
    let reason = error(conn.conclude(4, Err(SignatureError::Mismatch)));
    assert_eq!(reason, "bad signature");
    assert_eq!(conn.authed_id, Some(3));
    let reason = error(conn.conclude(4, Err(SignatureError::InvalidScalar)));
    assert_eq!(reason, "bad signature");
    let action = conn.conclude(4, Err(SignatureError::InvalidKey));
    assert!(matches!(action, Action::Close(SignatureError::InvalidKey)));
}

#[test]
fn whoever_asks_learns_what_proves_an_identity() {
    let id = client();
    let mut conn = connection();
    conn.request(registration(&id), 0);
    let record = match conn.found(None, &server().seed, 0) {
        Action::Insert(record) => record,
        _ => panic!("no insertion"),
    };
    conn.inserted(true);
    let diddy_id = compute_diddy_id(&id.pubkey);
    let action = conn.request(ClientMessage::VerifyRequest { diddy_id }, 0);
    assert!(matches!(action, Action::FindById(k) if k == record.id));
    match conn.found(Some(record), &server().seed, 0) {
        Action::Reply(ServerMessage::VerifyResponse { diddy_id: d, pubkey, signature }) => {
            assert_eq!(d, diddy_id);
            assert_eq!(pubkey, id.pubkey);
            assert_eq!(verify_diddy(&pubkey, &signature, &server().pubkey), Ok(()));
        }
        _ => panic!("no response"),
    }
    conn.request(ClientMessage::VerifyRequest { diddy_id: 1 }, 0);
    assert_eq!(error(conn.found(None, &server().seed, 0)), "unknown diddy_id");
}

#[test]
fn strangers_neither_announce_nor_relay() {
    let mut conn = connection();
    let announce = ClientMessage::Announce { tcp_port: 1, udp_port: 2 };
    assert_eq!(error(conn.request(announce, 0)), "announce requires auth");
    let relay = ClientMessage::RelayPacket { to_diddy_id: 1, payload: vec![1] };
    assert_eq!(error(conn.request(relay, 0)), "relay requires auth");
    assert!(matches!(conn.stage, Stage::Idle));
}

#[test]
fn an_announced_client_is_found() {
    let mut conn = connection();
    let diddy_id = logged_in(&mut conn, &client());
    let announce = ClientMessage::Announce { tcp_port: 7331, udp_port: 7332 };
    let ann = match conn.request(announce, 55) {
        Action::SaveAnnouncement(ann) => ann,
        _ => panic!("nothing to save"),
    };
    assert_eq!(ann.diddy_id, diddy_id.to_be_bytes());
    assert_eq!(ann.ip, vec![10, 0, 0, 9]);
    assert_eq!((ann.tcp_port, ann.udp_port, ann.last_seen), (7331, 7332, 55));
    assert!(matches!(conn.announced(), Action::Reply(ServerMessage::AnnounceAck)));

    let mut asking = Connection::new(None);
    let action = asking.request(ClientMessage::QueryPeer { diddy_id }, 0);
    assert!(matches!(action, Action::FindAnnouncement(k) if k == ann.diddy_id));
    let action = asking.located(Some(ann));
    assert!(matches!(action, Action::AskOnline(d) if d == diddy_id));
    match asking.online(true) {
        Action::Reply(ServerMessage::PeerInfo { diddy_id: d, ip, tcp_port, udp_port, online }) => {
            assert_eq!(d, diddy_id);
            assert_eq!(ip, IpAddress::V4([10, 0, 0, 9]));
            assert_eq!((tcp_port, udp_port, online), (7331, 7332, true));
        }
        _ => panic!("no information"),
    }
}

#[test]
fn an_unknown_address_is_announced_as_zero() {
    let mut conn = Connection::new(None);
    logged_in(&mut conn, &client());
    match conn.request(ClientMessage::Announce { tcp_port: 1, udp_port: 2 }, 0) {
        Action::SaveAnnouncement(ann) => assert_eq!(ann.ip, vec![0, 0, 0, 0]),
        _ => panic!("nothing to save"),
    }
}

#[test]
fn a_client_that_is_not_there_is_not_found() {
    let mut conn = connection();
    conn.request(ClientMessage::QueryPeer { diddy_id: 1 }, 0);
    assert!(matches!(conn.located(None), Action::Reply(ServerMessage::PeerNotFound)));
    conn.request(ClientMessage::QueryPeer { diddy_id: 1 }, 0);
    let ann = PeerAnnouncement {
        diddy_id: [0; 16],
        ip: vec![1, 2, 3],
        tcp_port: 1,
        udp_port: 2,
        last_seen: 3,
    };
    assert!(matches!(conn.located(Some(ann)), Action::Reply(ServerMessage::PeerNotFound)));
    assert!(matches!(conn.stage, Stage::Idle));
}

#[test]
fn packets_are_passed_on_under_the_senders_id() {
    let mut conn = connection();
    let from = logged_in(&mut conn, &client());
    let relay = ClientMessage::RelayPacket { to_diddy_id: 8, payload: vec![1, 2] };
    match conn.request(relay, 0) {
        Action::Forward { to, message: ServerMessage::RelayForward { from_diddy_id, payload } } => {
            assert_eq!((to, from_diddy_id), (8, from));
            assert_eq!(payload, vec![1, 2]);
        }
        _ => panic!("nothing to forward"),
    }
    assert!(matches!(conn.stage, Stage::Idle));
}

#[test]
fn rows_become_records() {
    let record = record_from_row(
        &vec![1; 16],
        &vec![2; 32],
        &vec![3; 16],
        &vec![4; 32],
        &vec![5; 64],
        6,
    );
    assert_eq!(record.id, [1; 16]);
    assert_eq!(record.pubkey, [2; 32]);
    assert_eq!(record.salt, [3; 16]);
    assert_eq!(record.pwd_hash, [4; 32]);
    assert_eq!(record.signature, [5; 64]);
    assert_eq!(record.created_at, 6);
    let ann = announcement_from_row(&vec![7; 16], vec![1, 2, 3, 4], 5, 6, 7);
    assert_eq!(ann.diddy_id, [7; 16]);
    assert_eq!(ann.ip, vec![1, 2, 3, 4]);
    assert_eq!((ann.tcp_port, ann.udp_port, ann.last_seen), (5, 6, 7));
    assert_eq!(announcement_from_row(&vec![7; 15], vec![], 5, 6, 7).diddy_id, [0; 16]);
}

#[test]
fn the_servers_key_is_kept_in_64_bytes() {
    let keypair = server();
    let bytes = keypair.to_bytes();
    assert_eq!(&bytes[..32], &[0x55; 32]);
    assert_eq!(&bytes[32..], keypair.pubkey.as_slice());
    let read = Keypair::from_bytes(&bytes).unwrap();
    assert_eq!(read.seed, keypair.seed);
    assert_eq!(read.pubkey, keypair.pubkey);
    assert!(Keypair::from_bytes(&bytes[..63].to_vec()).is_none());
    assert!(Keypair::from_bytes(&vec![0; 65]).is_none());
    let fresh = Keypair::generate();
    assert_eq!(Keypair::from_seed(fresh.seed).pubkey, fresh.pubkey);
    assert_ne!(fresh.seed, Keypair::generate().seed);
}

#[test]
fn different_ids_have_different_rows() {
    assert_ne!(u128_to_bytes(1), u128_to_bytes(256));
    assert_ne!(u128_to_bytes(1), u128_to_bytes(1 << 120));
}

#[test]
fn a_challenge_is_answered_once_on_a_whole_connection() {
    let id = client();
    let diddy_id = compute_diddy_id(&id.pubkey);
    let mut conn = connection();
    let signature = id.sign(&[4; 32]);
    let answer = || ClientMessage::LoginChallengeResponse { diddy_id, signature };
    assert_eq!(error(conn.request(answer(), 0)), "no pending challenge");
    logged_in(&mut conn, &id);
    conn.request(ClientMessage::VerifyRequest { diddy_id }, 0);
    conn.found(Some(record_of(&id)), &server().seed, 0);
    conn.request(ClientMessage::QueryPeer { diddy_id }, 0);
    conn.located(None);
    assert_eq!(error(conn.request(answer(), 0)), "no pending challenge");
    assert_eq!(conn.pending_challenge, None);
}

#[test]
fn a_stranger_stays_one_until_let_in() {
    let id = client();
    let mut conn = connection();
    conn.request(registration(&id), 0);
    conn.found(None, &server().seed, 0);
    conn.inserted(true);
    conn.request(ClientMessage::LoginRequest { diddy_id: 1 }, 0);
    conn.found(Some(record_of(&id)), &server().seed, 0);
    let announce = ClientMessage::Announce { tcp_port: 1, udp_port: 2 };
    assert_eq!(error(conn.request(announce, 0)), "announce requires auth");
    let relay = ClientMessage::RelayPacket { to_diddy_id: 1, payload: vec![1] };
    assert_eq!(error(conn.request(relay, 0)), "relay requires auth");
    assert_eq!(conn.authed_id, None);
}
