use mojrg::identity::{LocalIdentity, WrongPassword};
use mojrg::crypto::verify_message_sig;

fn identity() -> LocalIdentity {
    LocalIdentity::from_seed(&[5; 32], [6; 16])
}

#[test]
fn a_new_identity_is_unlocked_and_not_registered() {
    let id = LocalIdentity::generate();
    assert!(id.is_unlocked());
    assert_eq!(id.verifying_key(), id.pubkey);
    assert!(id.encrypted_privkey.is_empty());
    assert_eq!(id.nonce, [0; 12]);
    assert!(id.diddy_id.is_none());
    assert!(id.server_signature.is_none());
    let other = LocalIdentity::generate();
    assert_ne!(id.pubkey, other.pubkey);
    assert_ne!(id.salt, other.salt);
}

#[test]
fn the_password_that_locks_unlocks() {
    let mut id = identity();
    let key = id.pubkey;
    id.lock("hunter2");
    assert!(!id.is_unlocked());
    assert_eq!(id.verifying_key(), key);
    assert_eq!(id.encrypted_privkey.len(), 32 + 16);
    assert_eq!(id.unlock_checked("wrong"), Some(Err(WrongPassword)));
    assert!(!id.is_unlocked());
    assert_eq!(id.unlock_checked("hunter2"), Some(Ok(())));
    assert!(id.is_unlocked());
    assert_eq!(id.signing_key, Some([5; 32]));
    assert_eq!(id.pubkey, key);
}

#[test]
fn unlocking_by_the_right_password_needs_no_check() {
    let mut id = identity();
    id.lock_with_nonce("пароль", [9; 12]);
    assert_eq!(id.nonce, [9; 12]);
    assert_eq!(id.unlock("пароль"), Ok(()));
    assert_eq!(id.signing_key, Some([5; 32]));
}

#[test]
fn what_opens_to_no_key_is_told_apart() {
    let mut id = identity();
    let key = id.pwd_hash("pw");
    id.signing_key = None;
    id.nonce = [1; 12];
    id.encrypted_privkey = mojrg::crypto::encrypt_with_nonce(&key, &[1; 12], b"too short");
    assert_eq!(id.unlock_checked("pw"), None);
    assert!(!id.is_unlocked());
}

#[test]
fn an_identity_that_was_never_locked_does_not_open() {
    let mut id = identity();
    assert_eq!(id.unlock_checked("pw"), Some(Err(WrongPassword)));
    assert_eq!(id.unlock("pw"), Err(WrongPassword));
    assert_eq!(id.signing_key, Some([5; 32]));
    id.encrypted_privkey = vec![0; 15];
    assert_eq!(id.unlock_checked("pw"), Some(Err(WrongPassword)));
}

#[test]
fn an_opened_key_is_taken_and_nothing_else_is() {
    let mut id = identity();
    id.lock_with_nonce("pw", [1; 12]);
    assert_eq!(id.accept_opened(None), Err(WrongPassword));
    assert!(!id.is_unlocked());
    assert_eq!(id.accept_opened(Some(vec![8; 32])), Ok(()));
    assert_eq!(id.signing_key, Some([8; 32]));
}

#[test]
fn the_password_is_hashed_with_argon2id() {
    let id = identity();
    let mut expected = [0u8; 32];
    argon2::Argon2::default().hash_password_into(b"secret", &[6; 16], &mut expected).unwrap();
    assert_eq!(id.pwd_hash("secret"), expected);
    assert_ne!(id.pwd_hash("Secret"), expected);
    let other = LocalIdentity::from_seed(&[5; 32], [7; 16]);
    assert_ne!(other.pwd_hash("secret"), expected);
}

#[test]
fn an_identity_signs_with_its_key() {
    let id = identity();
    let sig = id.sign(b"message");
    assert_eq!(verify_message_sig(&id.pubkey, b"message", &sig), Ok(()));
    assert!(verify_message_sig(&id.pubkey, b"another", &sig).is_err());
}

#[test]
fn a_saved_identity_has_its_parts_in_order() {
    let mut id = identity();
    id.encrypted_privkey = vec![0xaa, 0xbb];
    id.nonce = [0xcc; 12];
    id.diddy_id = Some(1);
    id.server_signature = Some(vec![0xdd]);
    let mut expected = id.pubkey.to_vec();
    expected.extend([2, 0, 0, 0, 0, 0, 0, 0, 0xaa, 0xbb]);
    expected.extend([0xcc; 12]);
    expected.extend([6; 16]);
    expected.extend([1, 1, 0, 0, 0, 0, 0, 0, 0, 0, 0, 0, 0, 0, 0, 0, 0]);
    expected.extend([1, 1, 0, 0, 0, 0, 0, 0, 0, 0xdd]);
    assert_eq!(id.to_bytes(), expected);

    let fresh = LocalIdentity::from_seed(&[5; 32], [6; 16]).to_bytes();
    assert_eq!(&fresh[fresh.len() - 2..], &[0, 0]);
    assert_eq!(fresh.len(), 32 + 8 + 12 + 16 + 2);
}

#[test]
fn a_loaded_identity_is_locked_and_opens_as_before() {
    let mut id = identity();
    id.diddy_id = Some(u128::MAX);
    id.server_signature = Some(vec![1; 64]);
    id.lock("pw");
    let mut bytes = id.to_bytes();
    bytes.extend([1, 2, 3]);
    let mut loaded = LocalIdentity::from_bytes(&bytes).ok().unwrap();
    assert!(!loaded.is_unlocked());
    assert_eq!(loaded.pubkey, id.pubkey);
    assert_eq!(loaded.salt, id.salt);
    assert_eq!(loaded.diddy_id, Some(u128::MAX));
    assert_eq!(loaded.server_signature, Some(vec![1; 64]));
    assert_eq!(loaded.unlock_checked("pw"), Some(Ok(())));
    assert_eq!(loaded.signing_key, Some([5; 32]));
}

#[test]
fn the_signing_key_is_not_saved() {
    let id = identity();
    let loaded = LocalIdentity::from_bytes(&id.to_bytes()).ok().unwrap();
    assert!(!loaded.is_unlocked());
    assert!(!id.to_bytes().windows(32).any(|w| w == [5; 32]));
}

/// The fields of a saved identity, as bincode sees them.
type Fields = ([u8; 32], Vec<u8>, [u8; 12], [u8; 16], Option<u128>, Option<Vec<u8>>);

#[test]
fn bytes_that_hold_no_identity_are_refused() {
    let bytes = identity().to_bytes();
    let mut bad_flag = bytes.clone();
    let last = bad_flag.len() - 1;
    bad_flag[last] = 2;
    for bad in [&bytes[..last], b"", &bad_flag] {
        let told = bincode::deserialize::<Fields>(bad).unwrap_err().to_string();
        assert_eq!(LocalIdentity::from_bytes(bad).err().unwrap().text, told);
    }
    assert_eq!(WrongPassword.message(), "wrong password");
}
