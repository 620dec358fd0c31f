use mojrg::store::{
    latest_timestamp, mark_not_pending, message_key, messages_since, peer_prefix, pending_for,
    StoredMessage,
};

fn message(id: &str, sender_id: u128, timestamp: u64, pending: bool) -> StoredMessage {
    StoredMessage {
        id: id.to_string(),
        peer_id: 42,
        sender_id,
        body: format!("body of {id}"),
        timestamp,
        nonce: vec![1; 12],
        ciphertext: vec![2, 3],
        signature: vec![4; 64],
        pending,
    }
}

fn entries(msgs: &[StoredMessage]) -> Vec<Vec<u8>> {
    msgs.iter().map(|m| m.to_bytes()).collect()
}

fn ids(msgs: &[StoredMessage]) -> Vec<&str> {
    msgs.iter().map(|m| m.id.as_str()).collect()
}

#[test]
fn a_key_is_the_peer_and_the_message() {
    assert_eq!(message_key(42, "abc"), b"42_abc".to_vec());
    assert_eq!(message_key(0, ""), b"0_".to_vec());
    assert_eq!(peer_prefix(42), b"42_".to_vec());
    assert_eq!(message("m1", 7, 1, false).key(), b"42_m1".to_vec());
    let max = u128::MAX;
    assert_eq!(message_key(max, "x"), format!("{max}_x").into_bytes());
}

#[test]
fn a_prefix_selects_one_peer() {
    assert!(message_key(4, "2_x").starts_with(&peer_prefix(4)));
    assert!(!message_key(4, "2_x").starts_with(&peer_prefix(42)));
    assert!(!message_key(42, "x").starts_with(&peer_prefix(4)));
    assert!(!message_key(4, "x").starts_with(&peer_prefix(42)));
}

#[test]
fn different_messages_have_different_keys() {
    assert_ne!(message_key(1, "2_3"), message_key(12, "_3"));
    assert_ne!(message_key(1, "a"), message_key(1, "b"));
    assert_ne!(message_key(1, "a"), message_key(2, "a"));
}

#[test]
fn a_stored_message_has_its_parts_in_order() {
    let m = StoredMessage {
        id: "é".to_string(),
        peer_id: 1,
        sender_id: 0x0102,
        body: "b".to_string(),
        timestamp: 3,
        nonce: vec![9],
        ciphertext: vec![],
        signature: vec![7, 8],
        pending: true,
    };
    let mut expected: Vec<u8> = vec![2, 0, 0, 0, 0, 0, 0, 0, 0xc3, 0xa9];
    expected.extend(1u128.to_le_bytes());
    expected.extend([2, 1, 0, 0, 0, 0, 0, 0, 0, 0, 0, 0, 0, 0, 0, 0]);
    expected.extend([1, 0, 0, 0, 0, 0, 0, 0, b'b']);
    expected.extend(3u64.to_le_bytes());
    expected.extend([1, 0, 0, 0, 0, 0, 0, 0, 9]);
    expected.extend([0, 0, 0, 0, 0, 0, 0, 0]);
    expected.extend([2, 0, 0, 0, 0, 0, 0, 0, 7, 8]);
    expected.push(1);
    assert_eq!(m.to_bytes(), expected);
}

#[test]
fn an_entry_reads_back() {
    let m = message("m1", 7, 99, true);
    let mut bytes = m.to_bytes();
    let read = StoredMessage::from_bytes(&bytes).unwrap();
    assert_eq!(format!("{read:?}"), format!("{m:?}"));
    bytes.push(0);
    assert!(StoredMessage::from_bytes(&bytes).is_ok());
}

#[test]
fn an_entry_that_is_no_message_is_refused() {
    let bytes = message("m1", 7, 99, true).to_bytes();
    assert!(StoredMessage::from_bytes(&bytes[1..]).is_err());
    assert!(StoredMessage::from_bytes(&bytes[..bytes.len() - 1]).is_err());
    assert!(StoredMessage::from_bytes(b"").is_err());
    let mut not_text = bytes.clone();
    not_text[8] = 0xff;
    assert!(StoredMessage::from_bytes(&not_text).is_err());
    let mut no_flag = bytes.clone();
    *no_flag.last_mut().unwrap() = 2;
    assert!(StoredMessage::from_bytes(&no_flag).is_err());
}

#[test]
fn messages_since_are_newer_and_in_order() {
    let table = entries(&[
        message("c", 1, 30, false),
        message("a", 1, 10, false),
        message("d", 2, 30, true),
        message("b", 2, 20, false),
    ]);
    assert_eq!(ids(&messages_since(&table, 10).unwrap()), vec!["b", "c", "d"]);
    assert_eq!(ids(&messages_since(&table, 0).unwrap()), vec!["a", "b", "c", "d"]);
    assert_eq!(ids(&messages_since(&table, 29).unwrap()), vec!["c", "d"]);
    assert!(messages_since(&table, 30).unwrap().is_empty());
    assert!(messages_since(&vec![], 0).unwrap().is_empty());
}

#[test]
fn a_message_from_the_beginning_of_time_is_not_newer_than_it() {
    let table = entries(&[message("a", 1, 0, false), message("b", 1, 1, false)]);
    assert_eq!(ids(&messages_since(&table, 0).unwrap()), vec!["b"]);
}

#[test]
fn pending_messages_are_the_senders_own() {
    let table = entries(&[
        message("c", 1, 30, true),
        message("a", 1, 10, true),
        message("x", 1, 5, false),
        message("y", 2, 7, true),
    ]);
    assert_eq!(ids(&pending_for(&table, 1).unwrap()), vec!["a", "c"]);
    assert_eq!(ids(&pending_for(&table, 2).unwrap()), vec!["y"]);
    assert!(pending_for(&table, 3).unwrap().is_empty());
}

#[test]
fn the_latest_timestamp_is_the_greatest() {
    let table = entries(&[
        message("a", 1, 10, true),
        message("b", 1, 30, true),
        message("c", 1, 20, true),
    ]);
    assert_eq!(latest_timestamp(&table), Ok(30));
    assert_eq!(latest_timestamp(&vec![]), Ok(0));
    assert!(messages_since(&table, latest_timestamp(&table).unwrap()).unwrap().is_empty());
}

#[test]
fn one_corrupt_entry_spoils_the_answer() {
    let mut table = entries(&[message("a", 1, 10, true)]);
    table.push(vec![1, 2, 3]);
    assert!(messages_since(&table, 0).is_err());
    assert!(pending_for(&table, 1).is_err());
    assert!(latest_timestamp(&table).is_err());
    assert!(mark_not_pending(&[1, 2, 3]).is_err());
}

#[test]
fn a_delivered_message_is_no_longer_pending() {
    let m = message("a", 1, 10, true);
    let marked = mark_not_pending(&m.to_bytes()).unwrap();
    let read = StoredMessage::from_bytes(&marked).unwrap();
    assert!(!read.pending);
    assert_eq!(read.id, m.id);
    assert_eq!(read.body, m.body);
    assert_eq!(read.signature, m.signature);
    assert!(pending_for(&vec![marked.clone()], 1).unwrap().is_empty());
    assert_eq!(mark_not_pending(&marked), Ok(marked));
}

/// The fields of a stored message, as bincode sees them.
type Fields = (String, u128, u128, String, u64, Vec<u8>, Vec<u8>, Vec<u8>, bool);

#[test]
fn a_corrupt_entry_is_told_as_bincode_tells_it() {
    let bytes = message("m1", 7, 99, true).to_bytes();
    let mut no_flag = bytes.clone();
    *no_flag.last_mut().unwrap() = 2;
    let mut not_text = bytes.clone();
    not_text[8] = 0xff;
    for bad in [vec![], bytes[..20].to_vec(), no_flag.clone(), not_text.clone()] {
        let told = bincode::deserialize::<Fields>(&bad).unwrap_err().to_string();
        assert_eq!(StoredMessage::from_bytes(&bad).unwrap_err().text, told);
        assert_eq!(mark_not_pending(&bad).unwrap_err().text, told);
    }
    let flag_text = "invalid u8 while decoding bool, expected 0 or 1, found 2";
    let table = vec![bytes, no_flag, not_text];
    assert_eq!(messages_since(&table, 0).unwrap_err().text, flag_text);
    assert_eq!(pending_for(&table, 7).unwrap_err().text, flag_text);
    assert_eq!(latest_timestamp(&table).unwrap_err().text, flag_text);
}

#[test]
fn marking_changes_one_message_and_once() {
    let a = message("a", 1, 10, true);
    let b = message("b", 1, 20, true);
    let table = vec![mark_not_pending(&a.to_bytes()).unwrap(), b.to_bytes()];
    assert_eq!(ids(&pending_for(&table, 1).unwrap()), vec!["b"]);
    assert_eq!(mark_not_pending(&table[0]).unwrap(), table[0]);
    assert_eq!(ids(&messages_since(&table, 0).unwrap()), vec!["a", "b"]);
}
