use mojrg::chat::{
    accept, body_from, chat_from_payload, chat_from_stored, compose, compose_line, compose_with,
    decrypt_body,
    display_message, history, read_chat, receive, relay_notice, signed_bytes, stored_from_chat,
    verify_chat, Delivery, UnexpectedPacket,
};
use mojrg::crypto::{encrypt_with_nonce, DecryptError, SignatureError};
use mojrg::identity::LocalIdentity;
use mojrg::message_id::{fresh_id, id_text, parse_id};
use mojrg::protocol::{ChatMessage, Packet, ServerMessage};
use mojrg::store::{mark_not_pending, StoredMessage};

const KEY: [u8; 32] = [1; 32];
const ID: [u8; 16] = [
    0x67, 0xe5, 0x50, 0x44, 0x10, 0xb1, 0x42, 0x6f, 0x92, 0x47, 0xbb, 0x68, 0x0e, 0x5f, 0xe0, 0xc8,
];
const ID_TEXT: &str = "67e55044-10b1-426f-9247-bb680e5fe0c8";

fn alice() -> LocalIdentity {
    let mut id = LocalIdentity::from_seed(&[5; 32], [6; 16]);
    id.diddy_id = Some(100);
    id
}

fn hello() -> ChatMessage {
    compose_with(&alice(), &KEY, 200, ID, [7; 12], 1234, "hello").chat
}

#[test]
fn an_identifier_reads_back_from_its_text() {
    assert_eq!(id_text(&ID), ID_TEXT);
    assert_eq!(parse_id(ID_TEXT), Ok(ID));
    assert_eq!(parse_id("67E5504410b1426f9247bb680e5fe0c8"), Ok(ID));
    assert_eq!(parse_id("{67e55044-10b1-426f-9247-bb680e5fe0c8}"), Ok(ID));
    assert_eq!(parse_id("urn:uuid:67e55044-10b1-426f-9247-bb680e5fe0c8"), Ok(ID));
    assert_eq!(parse_id("URN:UUID:67E55044-10b1-426f-9247-bb680e5fe0c8"), Ok(ID));
    for text in [
        "",
        "67e55044-10b1-426f-9247-bb680e5fe0c",
        "67e55044+10b1-426f-9247-bb680e5fe0c8",
        "g7e55044-10b1-426f-9247-bb680e5fe0c8",
        "{67e5504410b1426f9247bb680e5fe0c8}",
        "[67e55044-10b1-426f-9247-bb680e5fe0c8]",
        "67e55044-10b1-426f-9247-bb680e5fe0c8 ",
    ] {
        let expected = uuid::Uuid::parse_str(text).unwrap_err().to_string();
        assert_eq!(parse_id(text).unwrap_err().text, expected);
    }
    let fresh = fresh_id();
    assert_eq!(parse_id(&id_text(&fresh)), Ok(fresh));
    assert_ne!(fresh, fresh_id());
    assert_eq!(fresh[6] >> 4, 4);
    assert_eq!(fresh[8] >> 6, 2);
}

#[test]
fn the_signed_bytes_leave_the_signature_out() {
    let chat = ChatMessage {
        id: ID,
        from: 1,
        to: 0x0203,
        timestamp: 4,
        nonce: [5; 12],
        ciphertext: vec![6, 7],
        signature: [8; 64],
    };
    let mut expected: Vec<u8> = vec![16, 0, 0, 0, 0, 0, 0, 0];
    expected.extend(ID);
    expected.extend(1u128.to_le_bytes());
    expected.extend(0x0203u128.to_le_bytes());
    expected.extend(4u64.to_le_bytes());
    expected.extend([5; 12]);
    expected.extend([2, 0, 0, 0, 0, 0, 0, 0, 6, 7]);
    expected.extend([64, 0, 0, 0, 0, 0, 0, 0]);
    expected.extend([0; 64]);
    assert_eq!(signed_bytes(&chat), expected);
    let mut other = chat.clone();
    other.signature = [9; 64];
    assert_eq!(signed_bytes(&other), expected);
    other.to = 0;
    assert_ne!(signed_bytes(&other), expected);
}

#[test]
fn a_composed_message_is_signed_and_sealed() {
    let id = alice();
    let out = compose_with(&id, &KEY, 200, ID, [7; 12], 1234, "hello");
    assert_eq!(out.chat.id, ID);
    assert_eq!(out.chat.from, 100);
    assert_eq!(out.chat.to, 200);
    assert_eq!(out.chat.timestamp, 1234);
    assert_eq!(out.chat.nonce, [7; 12]);
    assert_eq!(out.chat.ciphertext, encrypt_with_nonce(&KEY, &[7; 12], b"hello"));
    assert_eq!(out.chat.signature, id.sign(&signed_bytes(&out.chat)));
    assert_eq!(out.stored.id, ID_TEXT);
    assert_eq!(out.stored.peer_id, 200);
    assert_eq!(out.stored.sender_id, 100);
    assert_eq!(out.stored.body, "hello");
    assert!(out.stored.pending);
}

#[test]
fn a_message_is_shown_once_it_is_sent() {
    let out = compose_with(&alice(), &KEY, 200, ID, [7; 12], 1234, "hello");
    match out.written(true) {
        Delivery::Delivered { display } => assert_eq!(display, "you:\nhello"),
        Delivery::Queued => panic!("not delivered"),
    }
    assert!(matches!(out.written(false), Delivery::Queued));
}

#[test]
fn an_empty_line_is_not_sent() {
    assert!(compose(&alice(), &KEY, 200, 1, "").is_none());
    let a = compose(&alice(), &KEY, 200, 1, "x").unwrap();
    let b = compose(&alice(), &KEY, 200, 1, "x").unwrap();
    assert_ne!(a.chat.id, b.chat.id);
    assert_ne!(a.chat.nonce, b.chat.nonce);
    assert_eq!(a.chat.id[6] >> 4, 4);
    assert_eq!(a.chat.id[8] >> 6, 2);
}

#[test]
fn a_line_is_sent_without_the_space_around_it() {
    let out = compose_line(&alice(), &KEY, 200, 1, "  two words \n").unwrap();
    assert_eq!(out.stored.body, "two words");
    assert_eq!(decrypt_body(&out.chat, &KEY), Ok("two words".to_string()));
    let mut locked = alice();
    locked.signing_key = None;
    assert!(compose_line(&locked, &KEY, 200, 1, " \t\r\n").is_none());
    assert!(compose_line(&locked, &KEY, 200, 1, "").is_none());
}

#[test]
fn what_is_sent_is_received() {
    let id = alice();
    for text in ["hello", "привет, мир", "🦀"] {
        let out = compose(&id, &KEY, 200, 77, text).unwrap();
        let incoming = read_chat(&out.chat, &id.pubkey, &KEY, 100, 200).unwrap();
        assert_eq!(incoming.stored.body, text);
        assert_eq!(incoming.stored.peer_id, 100);
        assert_eq!(incoming.stored.sender_id, 100);
        assert_eq!(incoming.stored.timestamp, 77);
        assert!(!incoming.stored.pending);
        assert_eq!(incoming.display, format!("100:\n{text}"));
    }
}

#[test]
fn a_message_that_was_tampered_with_is_passed_over() {
    let id = alice();
    let chat = hello();
    assert_eq!(verify_chat(&chat, &id.pubkey), Ok(()));
    let mut to = chat.clone();
    to.to = 201;
    let mut time = chat.clone();
    time.timestamp += 1;
    let mut body = chat.clone();
    body.ciphertext[0] ^= 1;
    let mut sig = chat.clone();
    sig.signature[0] ^= 1;
    for c in [to, time, body, sig] {
        assert_eq!(verify_chat(&c, &id.pubkey), Err(SignatureError::Mismatch));
        assert!(read_chat(&c, &id.pubkey, &KEY, 100, 200).is_none());
    }
    let stranger = LocalIdentity::from_seed(&[9; 32], [6; 16]);
    assert_eq!(verify_chat(&chat, &stranger.pubkey), Err(SignatureError::Mismatch));
    assert!(read_chat(&chat, &stranger.pubkey, &KEY, 100, 200).is_none());
    assert!(read_chat(&chat, &id.pubkey, &[2; 32], 100, 200).is_none());
}

#[test]
fn a_body_is_decrypted() {
    let chat = hello();
    assert_eq!(decrypt_body(&chat, &KEY), Ok("hello".to_string()));
    assert_eq!(decrypt_body(&chat, &[2; 32]), Err(DecryptError));
    assert_eq!(body_from(Err(DecryptError)), Err(DecryptError));
    assert_eq!(body_from(Ok(b"abc".to_vec())), Ok("abc".to_string()));
    assert_eq!(
        body_from(Ok(vec![b'a', 0xff, b'b'])),
        Ok("a\u{fffd}b".to_string())
    );
}

#[test]
fn acceptance_takes_a_signature_and_a_body() {
    let chat = hello();
    let body = || Ok("text".to_string());
    let i = accept(&chat, Ok(()), body(), 1, 100).unwrap();
    assert_eq!(i.stored.body, "text");
    assert_eq!(i.display, "you:\ntext");
    assert!(accept(&chat, Err(SignatureError::Mismatch), body(), 1, 2).is_none());
    assert!(accept(&chat, Err(SignatureError::InvalidKey), body(), 1, 2).is_none());
    assert!(accept(&chat, Ok(()), Err(DecryptError), 1, 2).is_none());
}

#[test]
fn a_message_is_kept_once_and_shown_always() {
    let id = alice();
    let chat = hello();
    let new = read_chat(&chat, &id.pubkey, &KEY, 100, 200).unwrap().settle(false);
    assert_eq!(new.store.unwrap().body, "hello");
    assert_eq!(new.display, "100:\nhello");
    let old = read_chat(&chat, &id.pubkey, &KEY, 100, 200).unwrap().settle(true);
    assert!(old.store.is_none());
    assert_eq!(old.display, "100:\nhello");
}

#[test]
fn only_messages_belong_in_a_conversation() {
    assert_eq!(UnexpectedPacket.message(), "unexpected packet in messaging loop");
    let id = alice();
    let got = receive(&Packet::Message(hello()), &id.pubkey, &KEY, 100, 200);
    assert_eq!(got.ok().unwrap().unwrap().display, "100:\nhello");
    let unreadable = receive(&Packet::Message(hello()), &id.pubkey, &[3; 32], 100, 200);
    assert!(unreadable.ok().unwrap().is_none());
    for p in [
        Packet::SyncRequest(0),
        Packet::SyncGive(vec![]),
        Packet::ChallengeResponse { signature: [0; 64] },
    ] {
        assert_eq!(receive(&p, &id.pubkey, &KEY, 100, 200).err(), Some(UnexpectedPacket));
    }
}

#[test]
fn a_kept_message_can_be_sent_again() {
    let chat = hello();
    let stored = stored_from_chat(&chat, 200, "hello", false);
    assert_eq!(stored.id, ID_TEXT);
    assert_eq!(stored.nonce, vec![7; 12]);
    assert_eq!(stored.ciphertext, chat.ciphertext);
    assert_eq!(stored.signature, chat.signature.to_vec());
    let again = chat_from_stored(&stored).unwrap();
    assert_eq!(format!("{again:?}"), format!("{chat:?}"));
    let mut bad = stored.clone();
    bad.id = "m1".to_string();
    let e = chat_from_stored(&bad).unwrap_err();
    assert_eq!(e.text, "invalid character: found `m` at 0");
}

#[test]
fn messages_are_shown_under_their_sender() {
    assert_eq!(display_message(7, 7, "hi"), "you:\nhi");
    assert_eq!(display_message(8, 7, "hi"), "8:\nhi");
    assert_eq!(display_message(u128::MAX, 7, ""), format!("{}:\n", u128::MAX));
}

#[test]
fn history_is_shown_from_the_oldest() {
    let id = alice();
    let first = compose_with(&id, &KEY, 200, [1; 16], [7; 12], 10, "first").stored;
    let second = compose_with(&id, &KEY, 200, [2; 16], [7; 12], 20, "second").stored;
    let mut theirs = stored_from_chat(&hello(), 200, "third", false);
    theirs.sender_id = 200;
    theirs.timestamp = 30;
    let table = vec![theirs.to_bytes(), second.to_bytes(), first.to_bytes()];
    assert_eq!(
        history(&table, 100),
        Ok(vec!["you:\nfirst".to_string(), "you:\nsecond".to_string(), "200:\nthird".to_string()])
    );
    assert_eq!(history(&vec![], 100), Ok(vec![]));
    assert!(history(&vec![vec![0]], 100).is_err());
}

#[test]
fn a_sent_message_stops_being_pending() {
    let out = compose(&alice(), &KEY, 200, 10, "x").unwrap();
    let entry = out.stored.to_bytes();
    assert!(StoredMessage::from_bytes(&entry).unwrap().pending);
    let entry = mark_not_pending(&entry).unwrap();
    let m = StoredMessage::from_bytes(&entry).unwrap();
    assert!(!m.pending);
    let again = chat_from_stored(&m).unwrap();
    assert_eq!(format!("{again:?}"), format!("{:?}", out.chat));
}

fn payload(chat: &ChatMessage) -> Vec<u8> {
    let mut bytes = signed_bytes(chat);
    let at = bytes.len() - 64;
    bytes[at..].copy_from_slice(&chat.signature);
    bytes
}

#[test]
fn a_relayed_message_is_read_from_its_payload() {
    let chat = hello();
    let mut bytes = payload(&chat);
    let read = chat_from_payload(&bytes).unwrap();
    assert_eq!(format!("{read:?}"), format!("{chat:?}"));
    bytes.push(0);
    assert!(chat_from_payload(&bytes).is_some());
    assert!(chat_from_payload(&bytes[1..]).is_none());
    assert!(chat_from_payload(b"").is_none());
    let mut short_id = payload(&chat);
    short_id[0] = 15;
    short_id.remove(8);
    assert!(chat_from_payload(&short_id).is_none());
}

#[test]
fn a_relayed_message_is_announced() {
    let forward = |payload| ServerMessage::RelayForward { from_diddy_id: 12, payload };
    assert_eq!(relay_notice(&forward(payload(&hello()))), Some("\n[msg from 12]".to_string()));
    assert_eq!(relay_notice(&forward(vec![1, 2, 3])), None);
    assert_eq!(relay_notice(&ServerMessage::LoginSuccess), None);
}
