use mojrg::crypto::verify_message_sig;
use mojrg::identity::LocalIdentity;
use mojrg::login::{
    announcement, answer_challenge, login_outcome, login_request, registration_outcome,
    registration_refusal, start_registration, start_registration_with, RequestError,
};
use mojrg::protocol::{ClientMessage, ServerMessage};

fn identity() -> LocalIdentity {
    let mut id = LocalIdentity::from_seed(&[5; 32], [6; 16]);
    id.diddy_id = Some(77);
    id
}

fn refusal(reason: &str) -> ServerMessage {
    ServerMessage::LoginError { reason: reason.to_string() }
}

#[test]
fn logging_in_takes_an_id() {
    assert!(matches!(
        login_request(&identity()),
        Ok(ClientMessage::LoginRequest { diddy_id: 77 })
    ));
    let mut nobody = identity();
    nobody.diddy_id = None;
    assert!(matches!(login_request(&nobody), Err(RequestError::NoDiddyId)));
    assert_eq!(RequestError::NoDiddyId.message(), Some("no diddy_id".to_string()));
    assert_eq!(RequestError::Refused("why".to_string()).message(), Some("why".to_string()));
    assert_eq!(RequestError::Unexpected(ServerMessage::LoginSuccess).message(), None);
}

#[test]
fn a_challenge_is_answered_with_a_signature() {
    let id = identity();
    let answer = answer_challenge(&id, 77, ServerMessage::AuthChallenge { challenge: [3; 32] });
    match answer {
        Ok(ClientMessage::LoginChallengeResponse { diddy_id, signature }) => {
            assert_eq!(diddy_id, 77);
            assert_eq!(signature, id.sign(&[3; 32]));
            assert_eq!(verify_message_sig(&id.pubkey, &[3; 32], &signature), Ok(()));
        }
        other => panic!("{other:?}"),
    }
}

#[test]
fn a_refused_login_says_why() {
    let id = identity();
    match answer_challenge(&id, 77, refusal("unknown diddy_id")) {
        Err(RequestError::Refused(reason)) => assert_eq!(reason, "unknown diddy_id"),
        other => panic!("{other:?}"),
    }
    match login_outcome(refusal("bad signature")) {
        Err(RequestError::Refused(reason)) => assert_eq!(reason, "bad signature"),
        other => panic!("{other:?}"),
    }
    assert!(login_outcome(ServerMessage::LoginSuccess).is_ok());
}

#[test]
fn an_unexpected_answer_is_handed_back() {
    let mut id = identity();
    assert!(matches!(
        answer_challenge(&id, 77, ServerMessage::LoginSuccess),
        Err(RequestError::Unexpected(ServerMessage::LoginSuccess))
    ));
    assert!(matches!(
        login_outcome(ServerMessage::AnnounceAck),
        Err(RequestError::Unexpected(ServerMessage::AnnounceAck))
    ));
    assert!(matches!(
        registration_outcome(&mut id, ServerMessage::PeerNotFound),
        Err(RequestError::Unexpected(ServerMessage::PeerNotFound))
    ));
    assert_eq!(id.diddy_id, Some(77));
}

#[test]
fn registering_sends_the_key_but_not_the_password() {
    let (mut id, request) = start_registration_with(&[5; 32], [6; 16], [7; 12], "pw");
    assert!(!id.is_unlocked());
    assert_eq!(id.nonce, [7; 12]);
    match request {
        ClientMessage::Register { pubkey, pwd_hash, salt } => {
            assert_eq!(pubkey, LocalIdentity::from_seed(&[5; 32], [6; 16]).pubkey);
            assert_eq!(pwd_hash, id.pwd_hash("pw"));
            assert_eq!(salt, [6; 16]);
        }
        other => panic!("{other:?}"),
    }
    assert_eq!(id.unlock_checked("pw"), Some(Ok(())));
    assert_eq!(id.signing_key, Some([5; 32]));
}

#[test]
fn every_registration_has_its_own_key() {
    let (a, _) = start_registration("pw");
    let (b, request) = start_registration("pw");
    assert_ne!(a.pubkey, b.pubkey);
    assert_ne!(a.salt, b.salt);
    assert!(matches!(request, ClientMessage::Register { pubkey, .. } if pubkey == b.pubkey));
    assert!(!b.is_unlocked());
}

#[test]
fn a_registered_identity_has_its_id_and_signature() {
    let (mut id, _) = start_registration_with(&[5; 32], [6; 16], [7; 12], "pw");
    let reply = ServerMessage::RegistrationSuccess { diddy_id: 9, signature: [8; 64] };
    assert!(registration_outcome(&mut id, reply).is_ok());
    assert_eq!(id.diddy_id, Some(9));
    assert_eq!(id.server_signature, Some(vec![8; 64]));
    assert!(!id.is_unlocked());
}

#[test]
fn a_refused_registration_changes_nothing() {
    let (mut id, _) = start_registration_with(&[5; 32], [6; 16], [7; 12], "pw");
    let reply = ServerMessage::RegistrationError { reason: "internal error".to_string() };
    match registration_outcome(&mut id, reply) {
        Err(RequestError::Refused(reason)) => {
            assert_eq!(registration_refusal(&reason), "registration failed: internal error");
        }
        other => panic!("{other:?}"),
    }
    assert_eq!(id.diddy_id, None);
    assert_eq!(id.server_signature, None);
}

#[test]
fn the_second_port_follows_the_first() {
    assert!(matches!(
        announcement(7331),
        ClientMessage::Announce { tcp_port: 7331, udp_port: 7332 }
    ));
    assert!(matches!(
        announcement(65535),
        ClientMessage::Announce { tcp_port: 65535, udp_port: 0 }
    ));
}
