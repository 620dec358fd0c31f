use mojrg::crypto::{compute_diddy_id, sign_message, EphemeralSecret, SignatureError};
use mojrg::directory::Keypair;
use mojrg::handshake::{
    claimed_signature, initiate, initiate_with, respond, respond_with, HandshakeError,
};
use mojrg::identity::LocalIdentity;
use mojrg::protocol::Packet;

fn server() -> Keypair {
    Keypair::from_seed([0x55; 32])
}

fn registered(n: u8) -> LocalIdentity {
    let mut id = LocalIdentity::from_seed(&[n; 32], [n; 16]);
    id.diddy_id = Some(compute_diddy_id(&id.pubkey));
    id.server_signature = Some(sign_message(&server().seed, &id.pubkey).to_vec());
    id
}

fn secret() -> EphemeralSecret {
    EphemeralSecret::random()
}

#[test]
fn two_registered_peers_meet() {
    let alice = registered(1);
    let bob = registered(2);
    let server_pk = server().pubkey;

    let (initiator, init) = initiate_with(&alice, secret());
    let (responder, challenge) =
        respond_with(&bob, &init, &server_pk, [9; 32], secret()).ok().unwrap();
    assert!(matches!(challenge, Packet::Challenge { challenge: c, .. } if c == [9; 32]));
    let (caller, proof) = initiator.answer_with(&alice, &challenge, &server_pk).ok().unwrap();
    assert!(matches!(
        proof,
        Packet::ChallengeResponse { signature } if signature == alice.sign(&[9; 32])
    ));
    let called = responder.finish(&proof).ok().unwrap();

    assert_eq!(caller.key, called.key);
    assert_eq!(caller.peer_id, bob.diddy_id.unwrap());
    assert_eq!(caller.peer_pubkey, bob.pubkey);
    assert_eq!(called.peer_id, alice.diddy_id.unwrap());
    assert_eq!(called.peer_pubkey, alice.pubkey);
}

#[test]
fn the_first_packet_shows_who_calls() {
    let alice = registered(1);
    let (initiator, init) = initiate(&alice);
    match init {
        Packet::HandshakeInit { diddy_id, identity_pubkey, server_signature, encryption_pubkey } => {
            assert_eq!(Some(diddy_id), alice.diddy_id);
            assert_eq!(identity_pubkey, alice.pubkey);
            assert_eq!(Some(server_signature), alice.server_signature);
            assert_eq!(encryption_pubkey, initiator.secret.public_key());
        }
        other => panic!("{other:?}"),
    }
}

#[test]
fn a_caller_must_introduce_itself() {
    let bob = registered(2);
    let out = respond_with(&bob, &Packet::SyncRequest(0), &server().pubkey, [9; 32], secret());
    assert_eq!(out.err(), Some(HandshakeError::ExpectedHandshakeInit));
    let out = respond(&bob, &Packet::SyncRequest(0)).unwrap();
    assert_eq!(out.err(), Some(HandshakeError::ExpectedHandshakeInit));
}

#[test]
fn an_id_that_does_not_go_with_the_key_is_refused() {
    let mut mallory = registered(3);
    mallory.diddy_id = registered(1).diddy_id;
    let bob = registered(2);
    let (_, init) = initiate(&mallory);
    let out = respond_with(&bob, &init, &server().pubkey, [9; 32], secret());
    assert_eq!(out.err(), Some(HandshakeError::IdMismatch));

    mallory.server_signature = Some(vec![]);
    let (_, init) = initiate(&mallory);
    let out = respond(&bob, &init).unwrap();
    assert_eq!(out.err(), Some(HandshakeError::IdMismatch));
}

#[test]
fn a_key_that_the_server_did_not_sign_is_refused() {
    let mut mallory = registered(3);
    mallory.server_signature = registered(1).server_signature;
    let bob = registered(2);
    let (_, init) = initiate(&mallory);
    let out = respond_with(&bob, &init, &server().pubkey, [9; 32], secret());
    assert_eq!(out.err(), Some(HandshakeError::Signature(SignatureError::Mismatch)));

    let (_, init) = initiate(&registered(1));
    let out = respond(&bob, &init).unwrap();
    assert_eq!(out.err(), Some(HandshakeError::Signature(SignatureError::Mismatch)));
}

#[test]
fn an_unsigned_identity_is_invalid() {
    let bob = registered(2);
    for len in [0, 1, 63] {
        let mut mallory = registered(3);
        mallory.server_signature.as_mut().unwrap().truncate(len);
        let (initiator, init) = initiate(&mallory);
        let out = respond(&bob, &init).unwrap();
        assert_eq!(out.err(), Some(HandshakeError::Unsigned));
        let out = respond_with(&bob, &init, &server().pubkey, [9; 32], secret());
        assert_eq!(out.err(), Some(HandshakeError::Unsigned));

        let challenge = || Packet::Challenge {
            challenge: [0; 32],
            diddy_id: mallory.diddy_id.unwrap(),
            identity_pubkey: mallory.pubkey,
            server_signature: mallory.server_signature.clone().unwrap(),
            encryption_pubkey: [0; 32],
        };
        let out = initiator.answer(&bob, &challenge()).unwrap();
        assert_eq!(out.err(), Some(HandshakeError::Unsigned));
        let (initiator, _) = initiate(&bob);
        let out = initiator.answer_with(&bob, &challenge(), &server().pubkey);
        assert_eq!(out.err(), Some(HandshakeError::Unsigned));
    }
}

#[test]
fn an_unsigned_identity_is_refused_by_whoever_has_nothing_to_show() {
    let mut mallory = registered(3);
    mallory.server_signature = Some(vec![]);
    let (_, init) = initiate(&mallory);
    let mut nobody = registered(2);
    nobody.diddy_id = None;
    nobody.server_signature = None;
    let out = respond(&nobody, &init).unwrap();
    assert_eq!(out.err(), Some(HandshakeError::Unsigned));
}

#[test]
fn bytes_behind_the_signature_do_not_matter() {
    let mut alice = registered(1);
    alice.server_signature.as_mut().unwrap().push(0xff);
    let (_, init) = initiate(&alice);
    let out = respond_with(&registered(2), &init, &server().pubkey, [9; 32], secret());
    assert!(out.is_ok());
    assert_eq!(claimed_signature(1, 1, &vec![7; 65]), Ok([7; 64]));
    assert_eq!(claimed_signature(1, 2, &vec![]), Err(HandshakeError::IdMismatch));
    assert_eq!(claimed_signature(1, 1, &vec![7; 63]), Err(HandshakeError::Unsigned));
    assert_eq!(claimed_signature(1, 1, &vec![]), Err(HandshakeError::Unsigned));
}

#[test]
fn a_caller_must_prove_that_it_holds_its_key() {
    let alice = registered(1);
    let bob = registered(2);
    let respond_to_alice = || {
        let (_, init) = initiate(&alice);
        respond_with(&bob, &init, &server().pubkey, [9; 32], secret()).ok().unwrap().0
    };
    let out = respond_to_alice().finish(&Packet::SyncRequest(0));
    assert_eq!(out.err(), Some(HandshakeError::ExpectedChallengeResponse));
    let forged = Packet::ChallengeResponse { signature: registered(3).sign(&[9; 32]) };
    let out = respond_to_alice().finish(&forged);
    assert_eq!(out.err(), Some(HandshakeError::Signature(SignatureError::Mismatch)));
    let stale = Packet::ChallengeResponse { signature: alice.sign(&[8; 32]) };
    let out = respond_to_alice().finish(&stale);
    assert_eq!(out.err(), Some(HandshakeError::Signature(SignatureError::Mismatch)));
    let good = Packet::ChallengeResponse { signature: alice.sign(&[9; 32]) };
    assert!(respond_to_alice().finish(&good).is_ok());
}

#[test]
fn whoever_is_called_must_be_vouched_for_too() {
    let alice = registered(1);
    let mut mallory = registered(3);
    mallory.server_signature = Some(vec![1; 64]);
    let server_pk = server().pubkey;

    let (initiator, init) = initiate(&alice);
    let (_, challenge) = respond_with(&mallory, &init, &server_pk, [9; 32], secret()).ok().unwrap();
    let out = initiator.answer_with(&alice, &challenge, &server_pk);
    assert_eq!(out.err(), Some(HandshakeError::Signature(SignatureError::Mismatch)));

    let (initiator, _) = initiate(&alice);
    let out = initiator.answer(&alice, &Packet::SyncRequest(0)).unwrap();
    assert_eq!(out.err(), Some(HandshakeError::ExpectedChallenge));

    mallory.diddy_id = Some(7);
    let (initiator, init) = initiate(&alice);
    let (_, challenge) = respond_with(&mallory, &init, &server_pk, [9; 32], secret()).ok().unwrap();
    let out = initiator.answer(&alice, &challenge).unwrap();
    assert_eq!(out.err(), Some(HandshakeError::IdMismatch));
}

#[test]
fn handshake_errors_are_told() {
    assert_eq!(HandshakeError::ExpectedHandshakeInit.message(), "expected HandshakeInit");
    assert_eq!(HandshakeError::ExpectedChallenge.message(), "expected Challenge");
    assert_eq!(HandshakeError::ExpectedChallengeResponse.message(), "expected ChallengeResponse");
    assert_eq!(HandshakeError::IdMismatch.message(), "peer diddy_id mismatch");
    assert_eq!(HandshakeError::Unsigned.message(), "peer identity unsigned");
    assert_eq!(
        HandshakeError::Signature(SignatureError::Mismatch).message(),
        "signature error: Verification equation was not satisfied"
    );
}
