use std::collections::BTreeMap;

use mojrg::chat::{compose_with, stored_from_chat};
use mojrg::identity::LocalIdentity;
use mojrg::message_id::{id_text, InvalidId};
use mojrg::protocol::{ChatMessage, Packet};
use mojrg::store::{message_key, CorruptEntry, StoredMessage};
use mojrg::sync::{
    chats_to_give, given, requested_since, sync_give, sync_request, take_in, SyncError,
};

const KEY: [u8; 32] = [1; 32];

fn alice() -> LocalIdentity {
    let mut id = LocalIdentity::from_seed(&[5; 32], [6; 16]);
    id.diddy_id = Some(100);
    id
}

fn wrote(n: u8, timestamp: u64) -> (ChatMessage, StoredMessage) {
    let out = compose_with(&alice(), &KEY, 200, [n; 16], [n; 12], timestamp, &format!("text {n}"));
    (out.chat, out.stored)
}

#[test]
fn a_request_says_how_far_one_has_come() {
    let table = vec![wrote(1, 30).1.to_bytes(), wrote(2, 10).1.to_bytes()];
    assert!(matches!(sync_request(&table), Ok(Packet::SyncRequest(30))));
    assert!(matches!(sync_request(&vec![]), Ok(Packet::SyncRequest(0))));
    assert!(matches!(sync_request(&vec![vec![]]), Err(SyncError::CorruptEntry(_))));
    assert_eq!(requested_since(&Packet::SyncRequest(30)), Ok(30));
    assert_eq!(
        requested_since(&Packet::SyncGive(vec![])),
        Err(SyncError::ExpectedSyncRequest)
    );
}

#[test]
fn a_peer_is_given_what_it_missed() {
    let (c1, s1) = wrote(1, 10);
    let (c2, s2) = wrote(2, 20);
    let (c3, s3) = wrote(3, 30);
    let mut theirs = s3.clone();
    theirs.sender_id = 200;
    theirs.timestamp = 40;
    let table = vec![theirs.to_bytes(), s3.to_bytes(), s1.to_bytes(), s2.to_bytes()];
    match sync_give(&table, 10, 100) {
        Ok(Packet::SyncGive(chats)) => {
            assert_eq!(format!("{chats:?}"), format!("{:?}", [&c2, &c3]));
        }
        other => panic!("{other:?}"),
    }
    match sync_give(&table, 0, 100) {
        Ok(Packet::SyncGive(chats)) => {
            assert_eq!(format!("{chats:?}"), format!("{:?}", [&c1, &c2, &c3]));
        }
        other => panic!("{other:?}"),
    }
    assert!(matches!(sync_give(&table, 40, 100), Ok(Packet::SyncGive(c)) if c.is_empty()));
}

#[test]
fn messages_that_are_not_whole_are_left_out() {
    let (_, good) = wrote(1, 10);
    let mut short_nonce = good.clone();
    short_nonce.nonce.pop();
    let mut long_signature = good.clone();
    long_signature.signature.push(0);
    let chats = chats_to_give(&vec![short_nonce, good, long_signature], 100).unwrap();
    assert_eq!(chats.len(), 1);
    assert_eq!(chats[0].id, [1; 16]);
}

#[test]
fn an_invalid_id_stops_the_exchange() {
    let (_, mut bad) = wrote(1, 10);
    bad.id = "nonsense".to_string();
    assert!(chats_to_give(&vec![bad.clone()], 100).is_err());
    let e = sync_give(&vec![bad.to_bytes()], 0, 100).unwrap_err();
    assert!(matches!(e, SyncError::InvalidId(_)));
    assert_eq!(e.message(), "invalid character: found `n` at 0");
    assert!(chats_to_give(&vec![bad.clone()], 7).unwrap().is_empty());
    bad.nonce.clear();
    assert!(chats_to_give(&vec![bad], 100).unwrap().is_empty());
    let e = sync_give(&vec![vec![9]], 0, 100).unwrap_err();
    assert_eq!(e.message(), StoredMessage::from_bytes(&[9]).unwrap_err().text);
}

#[test]
fn what_is_given_is_taken_in_unless_known() {
    let id = alice();
    let (chat, _) = wrote(1, 10);
    let got = given(Packet::SyncGive(vec![chat.clone()])).unwrap();
    assert_eq!(got.len(), 1);
    let incoming = take_in(&got[0], false, &id.pubkey, &KEY, 100, 200).unwrap();
    assert_eq!(incoming.stored.body, "text 1");
    assert_eq!(incoming.display, "100:\ntext 1");
    let expected = stored_from_chat(&chat, 100, "text 1", false);
    assert_eq!(format!("{:?}", incoming.stored), format!("{expected:?}"));
    assert!(take_in(&chat, true, &id.pubkey, &KEY, 100, 200).is_none());
    assert!(take_in(&chat, false, &[0; 32], &KEY, 100, 200).is_none());
    assert!(take_in(&chat, false, &id.pubkey, &[2; 32], 100, 200).is_none());
    assert_eq!(given(Packet::SyncRequest(0)).err(), Some(SyncError::ExpectedSyncGive));
}

#[test]
fn sync_errors_are_told() {
    assert_eq!(SyncError::ExpectedSyncRequest.message(), "expected SyncRequest");
    assert_eq!(SyncError::ExpectedSyncGive.message(), "expected SyncGive");
    let corrupt = CorruptEntry { text: "io error".to_string() };
    assert_eq!(SyncError::CorruptEntry(corrupt).message(), "io error");
    let invalid = InvalidId { text: "no id".to_string() };
    assert_eq!(SyncError::InvalidId(invalid).message(), "no id");
}

#[test]
fn catching_up_adds_and_overwrites_nothing() {
    let id = alice();
    let (c1, _) = wrote(1, 10);
    let (c2, _) = wrote(2, 20);
    let twin = compose_with(&id, &KEY, 200, [2; 16], [9; 12], 25, "other text").chat;
    let unreadable = compose_with(&id, &[7; 32], 200, [3; 16], [9; 12], 30, "secret").chat;
    let hidden = compose_with(&id, &[7; 32], 200, [2; 16], [8; 12], 15, "unreadable twin").chat;
    let mut known = stored_from_chat(&c1, 100, "kept before", false);
    known.timestamp = 1;

    let mut table: BTreeMap<Vec<u8>, Vec<u8>> = BTreeMap::new();
    table.insert(known.key(), known.to_bytes());
    let catch_up = |table: &mut BTreeMap<Vec<u8>, Vec<u8>>| {
        for chat in [&c1, &hidden, &c2, &twin, &unreadable] {
            let held = table.contains_key(&message_key(100, &id_text(&chat.id)));
            if let Some(i) = take_in(chat, held, &id.pubkey, &KEY, 100, 200) {
                table.insert(i.stored.key(), i.stored.to_bytes());
            }
        }
    };
    catch_up(&mut table);
    assert_eq!(table.len(), 2);
    let once = table.clone();
    catch_up(&mut table);
    assert_eq!(table, once);
    let read = |n: u8| {
        StoredMessage::from_bytes(&table[&message_key(100, &id_text(&[n; 16]))]).unwrap().body
    };
    assert_eq!(read(1), "kept before");
    assert_eq!(read(2), "text 2");
}
