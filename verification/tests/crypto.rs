use chacha20poly1305::aead::{Aead, KeyInit};
use chacha20poly1305::{ChaCha20Poly1305, Key, Nonce};
use mojrg::crypto::{
    compute_diddy_id, decrypt_message, derive_shared_secret, encrypt_message, encrypt_with_nonce,
    id_from_digest, is_reduced, judge, sign_message, verify_diddy, verify_message_sig, DecryptError,
    EphemeralSecret, SignatureError, SERVER_PUBKEY,
};
use mojrg::directory::Keypair;

/// Test 1 of RFC 8032, section 7.1.
const SEED: [u8; 32] = [
    0x9d, 0x61, 0xb1, 0x9d, 0xef, 0xfd, 0x5a, 0x60, 0xba, 0x84, 0x4a, 0xf4, 0x92, 0xec, 0x2c, 0xc4,
    0x44, 0x49, 0xc5, 0x69, 0x7b, 0x32, 0x69, 0x19, 0x70, 0x3b, 0xac, 0x03, 0x1c, 0xae, 0x7f, 0x60,
];
const PUBKEY: [u8; 32] = [
    0xd7, 0x5a, 0x98, 0x01, 0x82, 0xb1, 0x0a, 0xb7, 0xd5, 0x4b, 0xfe, 0xd3, 0xc9, 0x64, 0x07, 0x3a,
    0x0e, 0xe1, 0x72, 0xf3, 0xda, 0xa6, 0x23, 0x25, 0xaf, 0x02, 0x1a, 0x68, 0xf7, 0x07, 0x51, 0x1a,
];
const SIGNATURE: [u8; 64] = [
    0xe5, 0x56, 0x43, 0x00, 0xc3, 0x60, 0xac, 0x72, 0x90, 0x86, 0xe2, 0xcc, 0x80, 0x6e, 0x82, 0x8a,
    0x84, 0x87, 0x7f, 0x1e, 0xb8, 0xe5, 0xd9, 0x74, 0xd8, 0x73, 0xe0, 0x65, 0x22, 0x49, 0x01, 0x55,
    0x5f, 0xb8, 0x82, 0x15, 0x90, 0xa3, 0x3b, 0xac, 0xc6, 0x1e, 0x39, 0x70, 0x1c, 0xf9, 0xb4, 0x6b,
    0xd2, 0x5b, 0xf5, 0xf0, 0x59, 0x5b, 0xbe, 0x24, 0x65, 0x51, 0x41, 0x43, 0x8e, 0x7a, 0x10, 0x0b,
];

#[test]
fn the_seed_gives_the_key_and_the_signature() {
    assert_eq!(Keypair::from_seed(SEED).pubkey, PUBKEY);
    assert_eq!(sign_message(&SEED, b""), SIGNATURE);
    assert_eq!(verify_message_sig(&PUBKEY, b"", &SIGNATURE), Ok(()));
}

#[test]
fn a_signature_is_good_for_one_message_and_one_key() {
    let sig = sign_message(&SEED, b"hello");
    assert_eq!(verify_message_sig(&PUBKEY, b"hello", &sig), Ok(()));
    assert_eq!(verify_message_sig(&PUBKEY, b"hullo", &sig), Err(SignatureError::Mismatch));
    let other = Keypair::from_seed([7; 32]).pubkey;
    assert_eq!(verify_message_sig(&other, b"hello", &sig), Err(SignatureError::Mismatch));
    let mut bent = sig;
    bent[3] ^= 1;
    assert_eq!(verify_message_sig(&PUBKEY, b"hello", &bent), Err(SignatureError::Mismatch));
}

#[test]
fn a_key_that_is_no_point_is_told_apart() {
    let mut no_point = [0u8; 32];
    no_point[0] = 2;
    assert_eq!(verify_message_sig(&no_point, b"", &SIGNATURE), Err(SignatureError::InvalidKey));
    assert_eq!(judge(false, false, false), Err(SignatureError::InvalidKey));
    assert_eq!(judge(false, true, true), Err(SignatureError::InvalidKey));
    assert_eq!(judge(true, false, false), Err(SignatureError::InvalidScalar));
    assert_eq!(judge(true, true, false), Err(SignatureError::Mismatch));
    assert_eq!(judge(true, true, true), Ok(()));
}

/// The order of the group, least significant byte first.
const ORDER: [u8; 32] = [
    0xed, 0xd3, 0xf5, 0x5c, 0x1a, 0x63, 0x12, 0x58, 0xd6, 0x9c, 0xf7, 0xa2, 0xde, 0xf9, 0xde, 0x14,
    0, 0, 0, 0, 0, 0, 0, 0, 0, 0, 0, 0, 0, 0, 0, 0x10,
];

fn with_scalar(scalar: [u8; 32]) -> [u8; 64] {
    let mut signature = SIGNATURE;
    signature[32..].copy_from_slice(&scalar);
    signature
}

#[test]
fn a_scalar_is_below_the_group_order() {
    let mut below = ORDER;
    below[0] -= 1;
    let mut above = ORDER;
    above[20] = 1;
    assert!(is_reduced(&SIGNATURE));
    assert!(is_reduced(&with_scalar([0; 32])));
    assert!(is_reduced(&with_scalar(below)));
    for scalar in [ORDER, above, [0xff; 32]] {
        assert!(!is_reduced(&with_scalar(scalar)));
        assert_eq!(
            verify_message_sig(&PUBKEY, b"", &with_scalar(scalar)),
            Err(SignatureError::InvalidScalar)
        );
    }
    assert_eq!(
        verify_message_sig(&PUBKEY, b"", &with_scalar(below)),
        Err(SignatureError::Mismatch)
    );
}

#[test]
fn signature_errors_are_told_as_ed25519_dalek_tells_them() {
    let told = |key: &[u8; 32], signature: &[u8; 64]| {
        let key = match ed25519_dalek::VerifyingKey::from_bytes(key) {
            Ok(key) => key,
            Err(e) => return e.to_string(),
        };
        let signature = ed25519_dalek::Signature::from_bytes(signature);
        key.verify_strict(b"hello", &signature).unwrap_err().to_string()
    };
    let mut no_point = [0u8; 32];
    no_point[0] = 2;
    for (key, signature) in [
        (no_point, SIGNATURE),
        (no_point, with_scalar([0xff; 32])),
        (PUBKEY, with_scalar([0xff; 32])),
        (PUBKEY, with_scalar(ORDER)),
        (PUBKEY, SIGNATURE),
        (PUBKEY, [0; 64]),
        ([0; 32], SIGNATURE),
    ] {
        let e = verify_message_sig(&key, b"hello", &signature).unwrap_err();
        assert_eq!(e.message(), told(&key, &signature));
    }
    assert_eq!(DecryptError.message(), "decrypt failed: Error");
}

#[test]
fn the_server_vouches_for_a_key_by_signing_it() {
    let server = Keypair::from_seed(SEED);
    let client = Keypair::from_seed([3; 32]);
    let sig = sign_message(&server.seed, &client.pubkey);
    assert_eq!(verify_diddy(&client.pubkey, &sig, &server.pubkey), Ok(()));
    assert_eq!(
        verify_diddy(&client.pubkey, &sig, &SERVER_PUBKEY),
        Err(SignatureError::Mismatch)
    );
    assert_eq!(
        verify_diddy(&server.pubkey, &sig, &server.pubkey),
        Err(SignatureError::Mismatch)
    );
}

#[test]
fn an_id_is_half_a_digest() {
    let mut digest = [0xeeu8; 32];
    for i in 0..16u8 {
        digest[i as usize] = i + 1;
    }
    assert_eq!(id_from_digest(&digest), 0x100f_0e0d_0c0b_0a09_0807_0605_0403_0201);
    for key in [[0u8; 32], PUBKEY, SERVER_PUBKEY] {
        let hash = blake3::hash(&key);
        let head: [u8; 16] = hash.as_bytes()[..16].try_into().unwrap();
        assert_eq!(compute_diddy_id(&key), u128::from_le_bytes(head));
    }
    assert_ne!(compute_diddy_id(&PUBKEY), compute_diddy_id(&SERVER_PUBKEY));
}

#[test]
fn a_sealed_message_opens_under_its_key_and_nonce_only() {
    let key = [1u8; 32];
    let nonce = [2u8; 12];
    let sealed = encrypt_with_nonce(&key, &nonce, b"attack at dawn");
    assert_eq!(sealed.len(), 14 + 16);
    assert_ne!(&sealed[..14], b"attack at dawn");
    assert_eq!(decrypt_message(&key, &nonce, &sealed), Ok(b"attack at dawn".to_vec()));
    assert_eq!(decrypt_message(&[3; 32], &nonce, &sealed), Err(DecryptError));
    assert_eq!(decrypt_message(&key, &[3; 12], &sealed), Err(DecryptError));
    let mut bent = sealed.clone();
    bent[0] ^= 1;
    assert_eq!(decrypt_message(&key, &nonce, &bent), Err(DecryptError));
    assert_eq!(decrypt_message(&key, &nonce, &sealed[..15]), Err(DecryptError));
    assert_eq!(decrypt_message(&key, &nonce, b""), Err(DecryptError));
}

#[test]
fn sealing_is_chacha20_poly1305() {
    let cipher = ChaCha20Poly1305::new(Key::from_slice(&[1u8; 32]));
    let expected = cipher.encrypt(Nonce::from_slice(&[2u8; 12]), b"abc".as_slice()).unwrap();
    assert_eq!(encrypt_with_nonce(&[1; 32], &[2; 12], b"abc"), expected);
}

#[test]
fn every_message_gets_a_nonce_of_its_own() {
    let key = [1u8; 32];
    let (n1, c1) = encrypt_message(&key, b"same");
    let (n2, c2) = encrypt_message(&key, b"same");
    assert_ne!(n1, n2);
    assert_ne!(c1, c2);
    assert_eq!(decrypt_message(&key, &n1, &c1), Ok(b"same".to_vec()));
    assert_eq!(decrypt_message(&key, &n2, &c2), Ok(b"same".to_vec()));
}

/// The example of RFC 7748, section 6.1.
const ALICE: [u8; 32] = [
    0x77, 0x07, 0x6d, 0x0a, 0x73, 0x18, 0xa5, 0x7d, 0x3c, 0x16, 0xc1, 0x72, 0x51, 0xb2, 0x66, 0x45,
    0xdf, 0x4c, 0x2f, 0x87, 0xeb, 0xc0, 0x99, 0x2a, 0xb1, 0x77, 0xfb, 0xa5, 0x1d, 0xb9, 0x2c, 0x2a,
];
const ALICE_PUBLIC: [u8; 32] = [
    0x85, 0x20, 0xf0, 0x09, 0x89, 0x30, 0xa7, 0x54, 0x74, 0x8b, 0x7d, 0xdc, 0xb4, 0x3e, 0xf7, 0x5a,
    0x0d, 0xbf, 0x3a, 0x0d, 0x26, 0x38, 0x1a, 0xf4, 0xeb, 0xa4, 0xa9, 0x8e, 0xaa, 0x9b, 0x4e, 0x6a,
];
const BOB: [u8; 32] = [
    0x5d, 0xab, 0x08, 0x7e, 0x62, 0x4a, 0x8a, 0x4b, 0x79, 0xe1, 0x7f, 0x8b, 0x83, 0x80, 0x0e, 0xe6,
    0x6f, 0x3b, 0xb1, 0x29, 0x26, 0x18, 0xb6, 0xfd, 0x1c, 0x2f, 0x8b, 0x27, 0xff, 0x88, 0xe0, 0xeb,
];
const BOB_PUBLIC: [u8; 32] = [
    0xde, 0x9e, 0xdb, 0x7d, 0x7b, 0x7d, 0xc1, 0xb4, 0xd3, 0x5b, 0x61, 0xc2, 0xec, 0xe4, 0x35, 0x37,
    0x3f, 0x83, 0x43, 0xc8, 0x5b, 0x78, 0x67, 0x4d, 0xad, 0xfc, 0x7e, 0x14, 0x6f, 0x88, 0x2b, 0x4f,
];
const SHARED: [u8; 32] = [
    0x4a, 0x5d, 0x9d, 0x5b, 0xa4, 0xce, 0x2d, 0xe1, 0x72, 0x8e, 0x3b, 0xf4, 0x80, 0x35, 0x0f, 0x25,
    0xe0, 0x7e, 0x21, 0xc9, 0x47, 0xd1, 0x9e, 0x33, 0x76, 0xf0, 0x9b, 0x3c, 0x1e, 0x16, 0x17, 0x42,
];

#[test]
fn both_sides_agree_on_a_key() {
    let alice = EphemeralSecret { bytes: ALICE };
    let bob = EphemeralSecret { bytes: BOB };
    assert_eq!(alice.public_key(), ALICE_PUBLIC);
    assert_eq!(bob.public_key(), BOB_PUBLIC);
    assert_eq!(derive_shared_secret(alice, &BOB_PUBLIC), SHARED);
    assert_eq!(derive_shared_secret(bob, &ALICE_PUBLIC), SHARED);
}

#[test]
fn random_secrets_agree_too() {
    let a = EphemeralSecret::random();
    let b = EphemeralSecret::random();
    let (pub_a, pub_b) = (a.public_key(), b.public_key());
    assert_ne!(pub_a, pub_b);
    assert_eq!(derive_shared_secret(a, &pub_b), derive_shared_secret(b, &pub_a));
}

#[test]
fn an_ephemeral_secret_agrees_with_one_of_x25519_dalek() {
    let theirs = x25519_dalek::EphemeralSecret::random_from_rng(rand::rngs::OsRng);
    let their_pub = x25519_dalek::PublicKey::from(&theirs);
    let ours = EphemeralSecret { bytes: ALICE };
    let key = theirs.diffie_hellman(&x25519_dalek::PublicKey::from(ours.public_key())).to_bytes();
    assert_eq!(derive_shared_secret(ours, &their_pub.to_bytes()), key);
}
