//! Where cryptography, randomness and identifiers come in from other crates.
//! Every function here hands its arguments to an outside function, and what its
//! contract says is taken on trust. Nothing else in this crate is, but for the
//! functions of `codec` that read and write bytes.
//!
//! Results that take pages to define (a digest, a signature, a sealed
//! message) get a name, and the rest of the crate reasons about the name.
//! Functions that draw random numbers panic if the operating system cannot
//! supply any.

use chacha20poly1305::aead::{Aead, AeadCore, KeyInit};
use chacha20poly1305::{ChaCha20Poly1305, Key, Nonce};
use vstd::prelude::*;
use vstd::utf8::{decode_utf8, valid_utf8};

use crate::bytes::le_value;
use crate::decimal::digit_char;

verus! {

/// The most bytes that ChaCha20-Poly1305 encrypts under one nonce: its block
/// counter starts at one and must not run out.
pub const MAX_PLAINTEXT: u64 = 274_877_906_816;

/// Length of the tag that ends a sealed message.
pub const TAG_LEN: usize = 16;

/// The longest password, in bytes, that Argon2 takes.
pub const MAX_PASSWORD: u64 = 0xffff_ffff;

// ---------------------------------------------------------------------------
// blake3
// ---------------------------------------------------------------------------

/// The BLAKE3 digest of `data`.
pub uninterp spec fn blake3_digest(data: Seq<u8>) -> Seq<u8>;

/// `blake3::hash`: the digest depends on the data alone and is 32 bytes long.
#[verifier::external_body]
pub(crate) fn blake3_hash(data: &[u8]) -> (digest: [u8; 32])
    ensures
        digest@ == blake3_digest(data@),
{
    *blake3::hash(data).as_bytes()
}

// ---------------------------------------------------------------------------
// ed25519
// ---------------------------------------------------------------------------

/// The public key that belongs to the secret `seed`.
pub uninterp spec fn ed25519_public_key(seed: Seq<u8>) -> Seq<u8>;

/// The signature that `seed` makes on `msg`.
pub uninterp spec fn ed25519_signature(seed: Seq<u8>, msg: Seq<u8>) -> Seq<u8>;

/// Whether `pubkey` is the encoding of a point of the curve.
pub uninterp spec fn ed25519_key_decodes(pubkey: Seq<u8>) -> bool;

/// Whether `signature` passes strict verification on `msg` under `pubkey`.
pub uninterp spec fn ed25519_verifies(pubkey: Seq<u8>, msg: Seq<u8>, signature: Seq<u8>) -> bool;

/// The order of the group in which signatures are made.
pub open spec fn ed25519_order() -> nat {
    0x1000000000000000000000000000000014def9dea2f79cd65812631a5cf5d3ednat
}

/// Whether the second half of a signature is a number below the group order.
/// Verification turns down any other before it looks at anything else.
pub open spec fn reduced_scalar(signature: Seq<u8>) -> bool {
    le_value(signature.subrange(32, 64)) < ed25519_order()
}

/// Whether the first half of a signature encodes the neutral point. Strict
/// verification turns such a signature down. A signer makes one only if its
/// hash of secret and message happens to be a multiple of the group order,
/// which nobody has ever seen.
pub open spec fn null_commitment(signature: Seq<u8>) -> bool {
    signature[0] == 1 && forall|i: int| 1 <= i < 32 ==> signature[i] == 0
}

/// `ed25519_dalek::SigningKey::generate` on the operating system's random
/// numbers: some seed.
#[verifier::external_body]
pub(crate) fn ed25519_generate() -> (seed: [u8; 32]) {
    ed25519_dalek::SigningKey::generate(&mut rand::rngs::OsRng).to_bytes()
}

/// `ed25519_dalek::SigningKey::verifying_key`: the public key depends on the
/// seed alone, and it decodes.
#[verifier::external_body]
pub(crate) fn ed25519_public(seed: &[u8; 32]) -> (pubkey: [u8; 32])
    ensures
        pubkey@ == ed25519_public_key(seed@),
        ed25519_key_decodes(pubkey@),
{
    ed25519_dalek::SigningKey::from_bytes(seed).verifying_key().to_bytes()
}

/// `ed25519_dalek::Signer::sign`: the signature depends on seed and message
/// alone, its scalar is reduced, and it verifies strictly under the seed's public key, which decodes,
/// unless its commitment is the neutral point.
#[verifier::external_body]
pub(crate) fn ed25519_sign(seed: &[u8; 32], msg: &[u8]) -> (signature: [u8; 64])
    ensures
        signature@ == ed25519_signature(seed@, msg@),
        reduced_scalar(signature@),
        !null_commitment(signature@) ==> ed25519_verifies(
            ed25519_public_key(seed@),
            msg@,
            signature@,
        ) && ed25519_key_decodes(ed25519_public_key(seed@)),
{
    ed25519_dalek::Signer::sign(&ed25519_dalek::SigningKey::from_bytes(seed), msg).to_bytes()
}

/// `ed25519_dalek::VerifyingKey::from_bytes`: whether it accepts `pubkey`
/// depends on those bytes alone.
#[verifier::external_body]
pub(crate) fn ed25519_decodes(pubkey: &[u8; 32]) -> (decodes: bool)
    ensures
        decodes == ed25519_key_decodes(pubkey@),
{
    ed25519_dalek::VerifyingKey::from_bytes(pubkey).is_ok()
}

/// `ed25519_dalek::VerifyingKey::verify_strict`: the verdict depends on key,
/// message and signature alone, and no signature passes under a key that does
/// not decode, or whose scalar is not reduced.
#[verifier::external_body]
pub(crate) fn ed25519_verify(pubkey: &[u8; 32], msg: &[u8], signature: &[u8; 64]) -> (valid: bool)
    ensures
        valid == ed25519_verifies(pubkey@, msg@, signature@),
        valid ==> ed25519_key_decodes(pubkey@) && reduced_scalar(signature@),
{
    let signature = ed25519_dalek::Signature::from_bytes(signature);
    match ed25519_dalek::VerifyingKey::from_bytes(pubkey) {
        Ok(key) => key.verify_strict(msg, &signature).is_ok(),
        Err(_) => false,
    }
}

// ---------------------------------------------------------------------------
// x25519
// ---------------------------------------------------------------------------

/// The point from which public keys are made.
pub const X25519_BASE: [u8; 32] = [
    9, 0, 0, 0, 0, 0, 0, 0, 0, 0, 0, 0, 0, 0, 0, 0, 0, 0, 0, 0, 0, 0, 0, 0, 0, 0, 0, 0, 0, 0, 0, 0,
];

/// The X25519 function of a secret and a point.
pub uninterp spec fn x25519_product(secret: Seq<u8>, point: Seq<u8>) -> Seq<u8>;

/// The public key that belongs to a secret.
pub open spec fn x25519_public_key(secret: Seq<u8>) -> Seq<u8> {
    x25519_product(secret, X25519_BASE@)
}

/// `x25519_dalek::x25519`: the result depends on secret and point alone, and if
/// the point is the public key of some other secret, that secret and this one's
/// public key give the same.
#[verifier::external_body]
pub(crate) fn x25519(secret: &[u8; 32], point: &[u8; 32]) -> (product: [u8; 32])
    ensures
        product@ == x25519_product(secret@, point@),
        forall|other: Seq<u8>|
            other.len() == 32 && #[trigger] x25519_public_key(other) == point@ ==> product@
                == x25519_product(other, x25519_public_key(secret@)),
{
    x25519_dalek::x25519(*secret, *point)
}

// ---------------------------------------------------------------------------
// chacha20poly1305
// ---------------------------------------------------------------------------

/// `plaintext` sealed with ChaCha20-Poly1305, without associated data.
pub uninterp spec fn chacha_seal(key: Seq<u8>, nonce: Seq<u8>, plaintext: Seq<u8>) -> Seq<u8>;

/// What a sealed message opens to, if its tag is right.
pub uninterp spec fn chacha_open(key: Seq<u8>, nonce: Seq<u8>, sealed: Seq<u8>) -> Option<Seq<u8>>;

/// `AeadCore::generate_nonce` on the operating system's random numbers: some
/// nonce.
#[verifier::external_body]
pub(crate) fn chacha_nonce() -> (nonce: [u8; 12]) {
    ChaCha20Poly1305::generate_nonce(&mut rand::rngs::OsRng).into()
}

/// `Aead::encrypt`: the sealed message depends on key, nonce and plaintext
/// alone, is longer than the plaintext by the tag, and opens to the plaintext
/// under the same key and nonce.
#[verifier::external_body]
pub(crate) fn chacha_encrypt(
    key: &[u8; 32],
    nonce: &[u8; 12],
    plaintext: &[u8],
) -> (sealed: Vec<u8>)
    requires
        plaintext@.len() <= MAX_PLAINTEXT,
    ensures
        sealed@ == chacha_seal(key@, nonce@, plaintext@),
        sealed@.len() == plaintext@.len() + TAG_LEN,
        chacha_open(key@, nonce@, sealed@) == Some(plaintext@),
{
    let cipher = ChaCha20Poly1305::new(Key::from_slice(key));
    cipher.encrypt(Nonce::from_slice(nonce), plaintext).unwrap()
}

/// `Aead::decrypt`: whether a message opens, and what it opens to, depends on
/// key, nonce and message alone; what comes out is shorter by the tag.
#[verifier::external_body]
pub(crate) fn chacha_decrypt(
    key: &[u8; 32],
    nonce: &[u8; 12],
    sealed: &[u8],
) -> (plaintext: Option<Vec<u8>>)
    requires
        sealed@.len() <= MAX_PLAINTEXT + TAG_LEN,
    ensures
        match plaintext {
            Some(p) => chacha_open(key@, nonce@, sealed@) == Some(p@),
            None => chacha_open(key@, nonce@, sealed@) is None,
        },
        plaintext matches Some(p) ==> p@.len() + TAG_LEN == sealed@.len(),
{
    let cipher = ChaCha20Poly1305::new(Key::from_slice(key));
    cipher.decrypt(Nonce::from_slice(nonce), sealed).ok()
}

// ---------------------------------------------------------------------------
// argon2
// ---------------------------------------------------------------------------

/// The 32-byte Argon2id key, with the default parameters, of a password and a
/// salt.
pub uninterp spec fn argon2id_key(password: Seq<u8>, salt: Seq<u8>) -> Seq<u8>;

/// `argon2::Argon2::hash_password_into` with the default parameters: the key
/// depends on password and salt alone.
#[verifier::external_body]
pub(crate) fn argon2id(password: &[u8], salt: &[u8; 16]) -> (key: [u8; 32])
    requires
        password@.len() <= MAX_PASSWORD,
    ensures
        key@ == argon2id_key(password@, salt@),
{
    let mut key = [0u8; 32];
    argon2::Argon2::default().hash_password_into(password, salt, &mut key).unwrap();
    key
}

// ---------------------------------------------------------------------------
// rand
// ---------------------------------------------------------------------------

/// `rand::RngCore::fill_bytes` of `rand::rngs::OsRng`: some bytes.
#[verifier::external_body]
pub(crate) fn random_array<const N: usize>() -> (bytes: [u8; N]) {
    let mut bytes = [0u8; N];
    rand::RngCore::fill_bytes(&mut rand::rngs::OsRng, &mut bytes);
    bytes
}

// ---------------------------------------------------------------------------
// uuid
// ---------------------------------------------------------------------------

/// The character for a hexadecimal digit.
pub open spec fn hex_char(d: nat) -> char {
    if d < 10 {
        digit_char(d)
    } else if d == 10 {
        'a'
    } else if d == 11 {
        'b'
    } else if d == 12 {
        'c'
    } else if d == 13 {
        'd'
    } else if d == 14 {
        'e'
    } else {
        'f'
    }
}

/// The bytes of `s` in hexadecimal, two digits each.
pub open spec fn hex_text(s: Seq<u8>) -> Seq<char>
    decreases s.len(),
{
    if s.len() == 0 {
        Seq::empty()
    } else {
        seq![hex_char(s[0] as nat / 16), hex_char(s[0] as nat % 16)] + hex_text(s.drop_first())
    }
}

/// The text of an identifier: its sixteen bytes in hexadecimal, in groups of
/// four, two, two, two and six bytes with hyphens between them.
pub open spec fn uuid_text(id: Seq<u8>) -> Seq<char> {
    hex_text(id.subrange(0, 4)) + seq!['-'] + hex_text(id.subrange(4, 6)) + seq!['-'] + hex_text(
        id.subrange(6, 8),
    ) + seq!['-'] + hex_text(id.subrange(8, 10)) + seq!['-'] + hex_text(id.subrange(10, 16))
}

/// `c` in lower case, if it is a capital of the Latin alphabet.
pub open spec fn ascii_lower(c: char) -> char {
    if 'A' <= c && c <= 'Z' {
        (c as u32 + 32) as char
    } else {
        c
    }
}

/// Whether `text` stands for the identifier `id`, in capitals or not: with or
/// without hyphens, or with hyphens inside braces or after `urn:uuid:`.
pub open spec fn denotes_uuid(text: Seq<char>, id: Seq<u8>) -> bool {
    let lower = text.map_values(|c: char| ascii_lower(c));
    &&& id.len() == 16
    &&& {
        ||| lower == hex_text(id)
        ||| lower == uuid_text(id)
        ||| lower == seq!['{'] + uuid_text(id) + seq!['}']
        ||| lower == "urn:uuid:"@ + uuid_text(id)
    }
}

/// `uuid::Uuid::new_v4`: some identifier of version four and of the RFC 9562
/// variant.
#[verifier::external_body]
pub(crate) fn uuid_generate() -> (id: [u8; 16])
    ensures
        0x40 <= id@[6] < 0x50,
        0x80 <= id@[8] < 0xc0,
{
    uuid::Uuid::new_v4().into_bytes()
}

/// `uuid::Uuid::to_string`: the hyphenated text, in lower case.
#[verifier::external_body]
pub(crate) fn uuid_to_string(id: &[u8; 16]) -> (text: String)
    ensures
        text@ == uuid_text(id@),
{
    uuid::Uuid::from_bytes(*id).to_string()
}

/// What `uuid` has to say of a text that stands for no identifier.
pub uninterp spec fn uuid_error(text: Seq<char>) -> Seq<char>;

/// `uuid::Uuid::parse_str`: the identifier that `text` stands for, if it
/// stands for one. The text of the error depends on `text` alone.
#[verifier::external_body]
pub(crate) fn uuid_parse(text: &str) -> (parsed: Result<[u8; 16], String>)
    ensures
        match parsed {
            Ok(id) => denotes_uuid(text@, id@),
            Err(e) => e@ == uuid_error(text@) && forall|id: Seq<u8>| !denotes_uuid(text@, id),
        },
{
    match uuid::Uuid::parse_str(text) {
        Ok(id) => Ok(id.into_bytes()),
        Err(e) => Err(e.to_string()),
    }
}

// ---------------------------------------------------------------------------
// std
// ---------------------------------------------------------------------------

/// The text that stands for bytes that are not UTF-8.
pub uninterp spec fn utf8_replaced(bytes: Seq<u8>) -> Seq<char>;

/// The text that stands for any bytes: what they encode, if they are UTF-8.
pub open spec fn utf8_lossy(bytes: Seq<u8>) -> Seq<char> {
    if valid_utf8(bytes) {
        decode_utf8(bytes)
    } else {
        utf8_replaced(bytes)
    }
}

/// `String::from_utf8_lossy`: the text depends on the bytes alone, and is what
/// they encode if they are UTF-8.
#[verifier::external_body]
pub(crate) fn text_from_utf8_lossy(bytes: &[u8]) -> (text: String)
    ensures
        valid_utf8(bytes@) ==> text@ == decode_utf8(bytes@),
        !valid_utf8(bytes@) ==> text@ == utf8_replaced(bytes@),
{
    String::from_utf8_lossy(bytes).to_string()
}

} // verus!
