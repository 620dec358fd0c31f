//! What the messenger does with keys: who a public key belongs to, who signed
//! what, and how two peers keep their messages to themselves.

use vstd::prelude::*;

use crate::bytes::{array_at, u128_from_le};
use crate::bytes::{
    law_le_value_writes_back, le_bytes, le_value, lemma_le_value_bound, lemma_le_value_concat, lemma_pow256_values, pow256,
};
use crate::primitives::{
    blake3_hash, chacha_decrypt, chacha_encrypt, chacha_nonce, ed25519_decodes, ed25519_sign,
    ed25519_verify, random_array, x25519, MAX_PLAINTEXT, TAG_LEN,
    X25519_BASE,
};
use crate::primitives::{
    blake3_digest, chacha_open, chacha_seal, ed25519_key_decodes, ed25519_public_key,
    ed25519_signature, ed25519_verifies, null_commitment, reduced_scalar, x25519_product,
    x25519_public_key,
};

verus! {

/// The public key of the server that vouches for identities.
pub const SERVER_PUBKEY: [u8; 32] = [
    0x32, 0xb0, 0xdb, 0x8e, 0x30, 0xdc, 0xa2, 0xc4,
    0x07, 0x25, 0xfb, 0xfb, 0xc4, 0x66, 0x9d, 0x4c,
    0xe0, 0x70, 0xaa, 0x25, 0xf9, 0x6f, 0x76, 0x56,
    0xab, 0x2a, 0x4c, 0x53, 0x79, 0x5f, 0xf6, 0x7f,
];

/// Why a signature was turned down.
#[derive(Debug, Clone, Copy, PartialEq, Eq, Structural)]
pub enum SignatureError {
    /// The public key is not a point of the curve.
    InvalidKey,
    /// The signature's scalar is not below the group order.
    InvalidScalar,
    /// The signature is not this key's signature on this message.
    Mismatch,
}

impl SignatureError {
    /// What to tell the user, in the words of `ed25519_dalek`.
    pub open spec fn text(self) -> Seq<char> {
        match self {
            SignatureError::InvalidKey => "signature error: Cannot decompress Edwards point"@,
            SignatureError::InvalidScalar =>
                "signature error: Cannot use scalar with high-bit set"@,
            SignatureError::Mismatch =>
                "signature error: Verification equation was not satisfied"@,
        }
    }

    /// What to tell the user.
    pub fn message(&self) -> (text: String)
        ensures
            text@ == self.text(),
            *self is InvalidKey ==> text@ == "signature error: Cannot decompress Edwards point"@,
            *self is InvalidScalar ==> text@
                == "signature error: Cannot use scalar with high-bit set"@,
            *self is Mismatch ==> text@
                == "signature error: Verification equation was not satisfied"@,
    {
        match self {
            SignatureError::InvalidKey => {
                "signature error: Cannot decompress Edwards point".to_owned()
            },
            SignatureError::InvalidScalar => {
                "signature error: Cannot use scalar with high-bit set".to_owned()
            },
            SignatureError::Mismatch => {
                "signature error: Verification equation was not satisfied".to_owned()
            },
        }
    }
}

/// A message that its key and nonce do not open.
#[derive(Debug, Clone, Copy, PartialEq, Eq, Structural)]
pub struct DecryptError;

impl DecryptError {
    /// What to tell the user.
    pub fn message(&self) -> (text: String)
        ensures
            text@ == "decrypt failed: Error"@,
    {
        "decrypt failed: Error".to_owned()
    }
}

/// The id that goes with a public key: the first sixteen bytes of its digest,
/// least significant first.
pub open spec fn diddy_id_of(pubkey: Seq<u8>) -> nat {
    digest_id(blake3_digest(pubkey))
}

/// The number in the first sixteen bytes of a digest, least significant first.
pub open spec fn digest_id(digest: Seq<u8>) -> nat {
    le_value(Seq::new(16, |i: int| digest[i]))
}

/// What to make of a signature, given whether its key decodes, whether its
/// scalar is reduced and whether it verifies.
pub open spec fn judged(decodes: bool, reduced: bool, verifies: bool) -> Result<
    (),
    SignatureError,
> {
    if !decodes {
        Err(SignatureError::InvalidKey)
    } else if !reduced {
        Err(SignatureError::InvalidScalar)
    } else if !verifies {
        Err(SignatureError::Mismatch)
    } else {
        Ok(())
    }
}

/// What to make of `signature` as the signature of `pubkey` on `msg`.
pub open spec fn signature_judged(
    pubkey: Seq<u8>,
    msg: Seq<u8>,
    signature: Seq<u8>,
) -> Result<(), SignatureError> {
    judged(
        ed25519_key_decodes(pubkey),
        reduced_scalar(signature),
        ed25519_verifies(pubkey, msg, signature),
    )
}

/// What `ciphertext` opens to under `key` and `nonce`. Nothing longer than a
/// full message with its tag opens.
pub open spec fn opened(key: Seq<u8>, nonce: Seq<u8>, ciphertext: Seq<u8>) -> Option<Seq<u8>> {
    if ciphertext.len() <= MAX_PLAINTEXT + TAG_LEN {
        chacha_open(key, nonce, ciphertext)
    } else {
        None
    }
}

/// `shared` is what `secret` and the public key `pubkey` agree on, and what
/// anybody who holds the secret behind `pubkey` arrives at too.
pub open spec fn agreed(secret: Seq<u8>, pubkey: Seq<u8>, shared: Seq<u8>) -> bool {
    &&& shared == x25519_product(secret, pubkey)
    &&& forall|other: Seq<u8>|
        other.len() == 32 && #[trigger] x25519_public_key(other) == pubkey ==> shared
            == x25519_product(other, x25519_public_key(secret))
}

/// A secret that is good for one key agreement.
pub struct EphemeralSecret {
    pub bytes: [u8; 32],
}

impl EphemeralSecret {
    /// A random secret.
    pub fn random() -> (secret: EphemeralSecret) {
        EphemeralSecret { bytes: random_array() }
    }

    /// The public key that belongs to the secret.
    pub fn public_key(&self) -> (pubkey: [u8; 32])
        ensures
            pubkey@ == x25519_public_key(self.bytes@),
            forall|point: Seq<u8>|
                point.len() == 32 && point[0] == 9 && (forall|i: int|
                    1 <= i < 32 ==> #[trigger] point[i] == 0) ==> pubkey@
                    == #[trigger] x25519_product(self.bytes@, point),
    {
        proof {
            assert forall|point: Seq<u8>|
                point.len() == 32 && point[0] == 9 && (forall|i: int|
                    1 <= i < 32 ==> #[trigger] point[i]
                        == 0) implies #[trigger] x25519_product(self.bytes@, point)
                == x25519_public_key(self.bytes@) by {
                law_public_key(self.bytes@, point);
            }
        }
        x25519(&self.bytes, &X25519_BASE)
    }
}

/// The id in a public key's digest.
pub fn id_from_digest(digest: &[u8; 32]) -> (id: u128)
    ensures
        id as nat == digest_id(digest@),
        le_bytes(id as nat, 16) == digest@.take(16),
{
    proof {
        law_digest_id(digest@);
    }
    let head: [u8; 16] = array_at(digest.as_slice(), 0);
    assert(head@ =~= Seq::new(16, |i: int| digest@[i]));
    u128_from_le(head.as_slice())
}

/// The id that goes with a public key.
pub fn compute_diddy_id(pubkey: &[u8; 32]) -> (id: u128)
    ensures
        id as nat == diddy_id_of(pubkey@),
        le_bytes(id as nat, 16) == blake3_digest(pubkey@).take(16),
{
    id_from_digest(&blake3_hash(pubkey.as_slice()))
}

/// Whether a signature's scalar is below the group order.
pub fn is_reduced(signature: &[u8; 64]) -> (yes: bool)
    ensures
        yes == reduced_scalar(signature@),
        yes <==> le_value(signature@.subrange(32, 64))
            < 0x1000000000000000000000000000000014def9dea2f79cd65812631a5cf5d3ednat,
{
    let low: [u8; 16] = array_at(signature.as_slice(), 32);
    let high: [u8; 16] = array_at(signature.as_slice(), 48);
    proof {
        assert(signature@.subrange(32, 64) =~= low@ + high@);
        lemma_le_value_concat(low@, high@);
        lemma_le_value_bound(low@);
        lemma_pow256_values();
        let h = le_value(high@);
        let p = pow256(16);
        assert(p * h == 0x1_0000_0000_0000_0000_0000_0000_0000_0000 * h) by (nonlinear_arith)
            requires
                p == 0x1_0000_0000_0000_0000_0000_0000_0000_0000,
        ;
    }
    let low: u128 = u128_from_le(low.as_slice());
    let high: u128 = u128_from_le(high.as_slice());
    high < 0x1000_0000_0000_0000_0000_0000_0000_0000 || (high
        == 0x1000_0000_0000_0000_0000_0000_0000_0000 && low
        < 0x14de_f9de_a2f7_9cd6_5812_631a_5cf5_d3ed)
}

/// What to make of a signature, given whether its key decodes, whether its
/// scalar is reduced and whether it verifies.
pub fn judge(decodes: bool, reduced: bool, verifies: bool) -> (verdict: Result<(), SignatureError>)
    ensures
        verdict == judged(decodes, reduced, verifies),
        verdict is Ok <==> decodes && reduced && verifies,
        verdict matches Err(e) ==> (e is InvalidKey <==> !decodes) && (e is InvalidScalar
            <==> decodes && !reduced),
{
    if !decodes {
        Err(SignatureError::InvalidKey)
    } else if !reduced {
        Err(SignatureError::InvalidScalar)
    } else if !verifies {
        Err(SignatureError::Mismatch)
    } else {
        Ok(())
    }
}

/// Checks that `signature` is the signature of `pubkey` on `msg`.
pub fn verify_message_sig(
    pubkey: &[u8; 32],
    msg: &[u8],
    signature: &[u8; 64],
) -> (verdict: Result<(), SignatureError>)
    ensures
        verdict == signature_judged(pubkey@, msg@, signature@),
        verdict is Ok <==> ed25519_verifies(pubkey@, msg@, signature@),
        verdict matches Err(e) ==> (e is InvalidKey <==> !ed25519_key_decodes(pubkey@)) && (
        e is InvalidScalar <==> ed25519_key_decodes(pubkey@) && !reduced_scalar(signature@)),
{
    let verifies = ed25519_verify(pubkey, msg, signature);
    judge(ed25519_decodes(pubkey), is_reduced(signature), verifies)
}

/// Checks that the server vouches for `pubkey`: that `signature` is the
/// server's signature on it.
pub fn verify_diddy(
    pubkey: &[u8; 32],
    signature: &[u8; 64],
    server_pubkey: &[u8; 32],
) -> (verdict: Result<(), SignatureError>)
    ensures
        verdict == signature_judged(server_pubkey@, pubkey@, signature@),
        verdict is Ok <==> ed25519_verifies(server_pubkey@, pubkey@, signature@),
        verdict matches Err(e) ==> (e is InvalidKey <==> !ed25519_key_decodes(server_pubkey@)) && (
        e is InvalidScalar <==> ed25519_key_decodes(server_pubkey@) && !reduced_scalar(
            signature@,
        )),
{
    verify_message_sig(server_pubkey, pubkey.as_slice(), signature)
}

/// The key that this side and the holder of `their_pub` agree on.
pub fn derive_shared_secret(
    my_secret: EphemeralSecret,
    their_pub: &[u8; 32],
) -> (shared: [u8; 32])
    ensures
        agreed(my_secret.bytes@, their_pub@, shared@),
        shared@ == x25519_product(my_secret.bytes@, their_pub@),
{
    x25519(&my_secret.bytes, their_pub)
}

/// `plaintext` sealed under `key` and a given nonce.
pub fn encrypt_with_nonce(key: &[u8; 32], nonce: &[u8; 12], plaintext: &[u8]) -> (ciphertext: Vec<
    u8,
>)
    requires
        plaintext@.len() <= MAX_PLAINTEXT,
    ensures
        ciphertext@ == chacha_seal(key@, nonce@, plaintext@),
        ciphertext@.len() == plaintext@.len() + TAG_LEN,
        opened(key@, nonce@, ciphertext@) == Some(plaintext@),
        chacha_open(key@, nonce@, ciphertext@) == Some(plaintext@),
{
    chacha_encrypt(key, nonce, plaintext)
}

/// `plaintext` sealed under `key` and a fresh nonce, with that nonce.
pub fn encrypt_message(key: &[u8; 32], plaintext: &[u8]) -> (out: ([u8; 12], Vec<u8>))
    requires
        plaintext@.len() <= MAX_PLAINTEXT,
    ensures
        out.1@ == chacha_seal(key@, out.0@, plaintext@),
        out.1@.len() == plaintext@.len() + TAG_LEN,
        opened(key@, out.0@, out.1@) == Some(plaintext@),
        chacha_open(key@, out.0@, out.1@) == Some(plaintext@),
{
    let nonce = chacha_nonce();
    let ciphertext = encrypt_with_nonce(key, &nonce, plaintext);
    (nonce, ciphertext)
}

/// Opens a sealed message.
pub fn decrypt_message(
    key: &[u8; 32],
    nonce: &[u8; 12],
    ciphertext: &[u8],
) -> (plaintext: Result<Vec<u8>, DecryptError>)
    ensures
        match plaintext {
            Ok(p) => opened(key@, nonce@, ciphertext@) == Some(p@),
            Err(_) => opened(key@, nonce@, ciphertext@) is None,
        },
        plaintext is Ok <==> ciphertext@.len() <= 274_877_906_832 && chacha_open(
            key@,
            nonce@,
            ciphertext@,
        ) is Some,
        plaintext matches Ok(p) ==> chacha_open(key@, nonce@, ciphertext@) == Some(p@),
        plaintext matches Ok(p) ==> p@.len() + TAG_LEN == ciphertext@.len(),
{
    if ciphertext.len() as u64 > MAX_PLAINTEXT + TAG_LEN as u64 {
        return Err(DecryptError);
    }
    match chacha_decrypt(key, nonce, ciphertext) {
        Some(p) => Ok(p),
        None => Err(DecryptError),
    }
}

/// The signature of the holder of `seed` on `msg`.
pub fn sign_message(seed: &[u8; 32], msg: &[u8]) -> (signature: [u8; 64])
    ensures
        signature@ == ed25519_signature(seed@, msg@),
        !null_commitment(signature@) ==> signature_judged(
            ed25519_public_key(seed@),
            msg@,
            signature@,
        ) is Ok,
{
    ed25519_sign(seed, msg)
}

/// Every public key has an id of 128 bits.
pub proof fn law_ids_fit(pubkey: Seq<u8>)
    ensures
        diddy_id_of(pubkey) <= u128::MAX,
{
    let head = Seq::new(16, |i: int| blake3_digest(pubkey)[i]);
    lemma_le_value_bound(head);
    lemma_pow256_values();
}

/// Two peers who each hold the other's public key agree on the same key.
pub proof fn law_both_sides_agree(
    secret_a: Seq<u8>,
    secret_b: Seq<u8>,
    shared_a: Seq<u8>,
    shared_b: Seq<u8>,
)
    requires
        secret_b.len() == 32,
        agreed(secret_a, x25519_public_key(secret_b), shared_a),
        agreed(secret_b, x25519_public_key(secret_a), shared_b),
    ensures
        shared_a == shared_b,
{
    assert(x25519_public_key(secret_b) == x25519_public_key(secret_b));
}

/// Written in sixteen bytes, least significant first, the id in a digest is how
/// the digest begins.
pub proof fn law_digest_id(digest: Seq<u8>)
    requires
        digest.len() >= 16,
    ensures
        le_bytes(digest_id(digest), 16) == digest.take(16),
        digest_id(digest) <= u128::MAX,
{
    let head = Seq::new(16, |i: int| digest[i]);
    assert(head =~= digest.take(16));
    law_le_value_writes_back(head);
    lemma_le_value_bound(head);
    lemma_pow256_values();
}

/// The id that goes with a key is made of the digest of the whole key, and of
/// its first sixteen bytes.
pub proof fn law_diddy_id(pubkey: Seq<u8>)
    ensures
        le_bytes(diddy_id_of(pubkey), 16) == Seq::new(16, |i: int| blake3_digest(pubkey)[i]),
{
    law_le_value_writes_back(Seq::new(16, |i: int| blake3_digest(pubkey)[i]));
}

/// A signature is accepted if its key decodes, its scalar is reduced and it
/// verifies, on that message and under that key; else the first of the three
/// that does not hold is the reason why it is turned down.
pub proof fn law_signature_judged(pubkey: Seq<u8>, msg: Seq<u8>, signature: Seq<u8>)
    ensures
        signature_judged(pubkey, msg, signature) is Ok <==> ed25519_key_decodes(pubkey)
            && reduced_scalar(signature) && ed25519_verifies(pubkey, msg, signature),
        !ed25519_key_decodes(pubkey) ==> signature_judged(pubkey, msg, signature) == Err::<
            (),
            SignatureError,
        >(SignatureError::InvalidKey),
        ed25519_key_decodes(pubkey) && !reduced_scalar(signature) ==> signature_judged(
            pubkey,
            msg,
            signature,
        ) == Err::<(), SignatureError>(SignatureError::InvalidScalar),
        ed25519_key_decodes(pubkey) && reduced_scalar(signature) && !ed25519_verifies(
            pubkey,
            msg,
            signature,
        ) ==> signature_judged(pubkey, msg, signature) == Err::<(), SignatureError>(
            SignatureError::Mismatch,
        ),
{
}

/// A sealed message opens to what is in it, unless it is longer than any sealed
/// message can be.
pub proof fn law_opened(key: Seq<u8>, nonce: Seq<u8>, ciphertext: Seq<u8>)
    ensures
        ciphertext.len() <= 274_877_906_832 ==> opened(key, nonce, ciphertext) == chacha_open(
            key,
            nonce,
            ciphertext,
        ),
        ciphertext.len() > 274_877_906_832 ==> opened(key, nonce, ciphertext) is None,
{
}

/// A public key is what its secret makes of the point nine.
pub proof fn law_public_key(secret: Seq<u8>, point: Seq<u8>)
    requires
        point.len() == 32,
        point[0] == 9,
        forall|i: int| 1 <= i < 32 ==> #[trigger] point[i] == 0,
    ensures
        x25519_public_key(secret) == x25519_product(secret, point),
{
    assert(X25519_BASE@ =~= point);
}

/// What two peers agree on is the product of the one's secret and the other's
/// public key.
pub proof fn law_agreed(secret: Seq<u8>, pubkey: Seq<u8>, shared: Seq<u8>)
    requires
        agreed(secret, pubkey, shared),
    ensures
        shared == x25519_product(secret, pubkey),
{
}

} // verus!
