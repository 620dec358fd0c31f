//! Who a client is: a signing key that no password is derived from, sealed
//! under a password while it is not in use.

use vstd::prelude::*;
use vstd::utf8::encode_utf8;

use crate::bytes::{array_at, copy_bytes};
use crate::codec::{decode_identity, encode_identity, IdentityFields};
use crate::codec::{
    identity_bytes, identity_error, identity_fits, identity_in, law_identity_reads_back,
    law_identity_unique, saved, SavedIdentity,
};
use crate::crypto::{decrypt_message, encrypt_with_nonce, sign_message};
use crate::crypto::{opened, signature_judged};
use crate::primitives::{
    argon2id, chacha_nonce, ed25519_generate, ed25519_public, random_array, MAX_PASSWORD,
    TAG_LEN,
};
use crate::primitives::{
    argon2id_key, chacha_open, chacha_seal, ed25519_public_key, ed25519_signature, null_commitment,
};

verus! {

/// A password that does not open the sealed key.
#[derive(Debug, Clone, Copy, PartialEq, Eq, Structural)]
pub struct WrongPassword;

impl WrongPassword {
    /// What to tell the user.
    pub fn message(&self) -> (text: String)
        ensures
            text@ == "wrong password"@,
    {
        "wrong password".to_owned()
    }
}

/// Bytes that hold no identity, and what `bincode` has to say of them.
#[derive(Debug, Clone, PartialEq, Eq)]
pub struct CorruptIdentity {
    pub text: String,
}

/// A client's own identity. `signing_key` is there only while the identity is
/// unlocked; what is saved holds it in sealed form only.
#[derive(Clone)]
pub struct LocalIdentity {
    pub pubkey: [u8; 32],
    pub encrypted_privkey: Vec<u8>,
    pub nonce: [u8; 12],
    pub salt: [u8; 16],
    pub diddy_id: Option<u128>,
    pub server_signature: Option<Vec<u8>>,
    pub signing_key: Option<[u8; 32]>,
}

/// A byte string that may be missing.
pub open spec fn optional_view(s: Option<Vec<u8>>) -> Option<Seq<u8>> {
    match s {
        Some(v) => Some(v@),
        None => None,
    }
}

/// A copy of a byte string that may be missing.
pub(crate) fn copy_optional(s: &Option<Vec<u8>>) -> (out: Option<Vec<u8>>)
    ensures
        optional_view(out) == optional_view(*s),
{
    match s {
        Some(v) => Some(copy_bytes(v.as_slice())),
        None => None,
    }
}

/// The key that a password and a salt give.
pub open spec fn password_key(password: Seq<char>, salt: Seq<u8>) -> Seq<u8> {
    argon2id_key(encode_utf8(password), salt)
}

/// A password that is not too long to be hashed.
pub open spec fn hashable(password: &str) -> bool {
    encode_utf8(password@).len() <= MAX_PASSWORD
}

impl LocalIdentity {
    /// The signing key, while it is unlocked.
    pub open spec fn seed(&self) -> Option<Seq<u8>> {
        match self.signing_key {
            Some(k) => Some(k@),
            None => None,
        }
    }

    /// The sealed signing key.
    pub open spec fn sealed_key(&self) -> Seq<u8> {
        self.encrypted_privkey@
    }

    /// The nonce under which the signing key is sealed.
    pub open spec fn seal_nonce(&self) -> Seq<u8> {
        self.nonce@
    }

    /// What `password` makes of the sealed key.
    pub open spec fn opens_to(&self, password: Seq<char>) -> Option<Seq<u8>> {
        opened(password_key(password, self.salt@), self.seal_nonce(), self.sealed_key())
    }

    /// The part of the identity that is kept on disk.
    pub open spec fn to_save(&self) -> SavedIdentity {
        SavedIdentity {
            pubkey: self.pubkey@,
            encrypted_privkey: self.sealed_key(),
            nonce: self.seal_nonce(),
            salt: self.salt@,
            diddy_id: self.diddy_id,
            server_signature: optional_view(self.server_signature),
        }
    }

    /// The public key belongs to the signing key, if that is unlocked.
    pub open spec fn coherent(&self) -> bool {
        self.seed() matches Some(s) ==> self.pubkey@ == ed25519_public_key(s)
    }

    /// The server has given this identity an id and a signature.
    pub open spec fn registered(&self) -> bool {
        self.diddy_id is Some && self.server_signature is Some
    }

    /// The same public key, salt, id and server signature.
    pub open spec fn same_person(&self, other: &LocalIdentity) -> bool {
        &&& self.pubkey == other.pubkey
        &&& self.salt == other.salt
        &&& self.diddy_id == other.diddy_id
        &&& self.server_signature == other.server_signature
    }

    /// An identity with a given signing key and salt, unlocked, not sealed yet
    /// and not registered yet.
    pub fn from_seed(seed: &[u8; 32], salt: [u8; 16]) -> (id: LocalIdentity)
        ensures
            id.seed() == Some(seed@),
            id.pubkey@ == ed25519_public_key(seed@),
            id.salt == salt,
            id.sealed_key() == Seq::<u8>::empty(),
            id.seal_nonce() == Seq::new(12, |i: int| 0u8),
            id.diddy_id is None,
            id.server_signature is None,
            id.signing_key == Some(*seed),
            id.encrypted_privkey@.len() == 0,
            forall|i: int| 0 <= i < 12 ==> #[trigger] id.nonce@[i] == 0,
    {
        let nonce: [u8; 12] = [0u8; 12];
        assert(nonce@ =~= Seq::new(12, |i: int| 0u8));
        LocalIdentity {
            pubkey: ed25519_public(seed),
            encrypted_privkey: Vec::new(),
            nonce,
            salt,
            diddy_id: None,
            server_signature: None,
            signing_key: Some(*seed),
        }
    }

    /// A new identity with a random signing key and a random salt.
    pub fn generate() -> (id: LocalIdentity)
        ensures
            id.seed() is Some,
            id.coherent(),
            id.sealed_key() == Seq::<u8>::empty(),
            id.seal_nonce() == Seq::new(12, |i: int| 0u8),
            id.diddy_id is None,
            id.server_signature is None,
            id.signing_key is Some,
            id.pubkey@ == ed25519_public_key(id.signing_key->0@),
            id.encrypted_privkey@.len() == 0,
            forall|i: int| 0 <= i < 12 ==> #[trigger] id.nonce@[i] == 0,
    {
        let seed = ed25519_generate();
        let salt: [u8; 16] = random_array();
        LocalIdentity::from_seed(&seed, salt)
    }

    fn derive_key(password: &str, salt: &[u8; 16]) -> (key: [u8; 32])
        requires
            hashable(password),
        ensures
            key@ == password_key(password@, salt@),
            key@ == argon2id_key(encode_utf8(password@), salt@),
    {
        argon2id(password.as_bytes(), salt)
    }

    /// Seals the signing key under `password` and a given nonce, and forgets
    /// it.
    pub fn lock_with_nonce(&mut self, password: &str, nonce: [u8; 12])
        requires
            old(self).seed() is Some,
            hashable(password),
        ensures
            final(self).seed() is None,
            final(self).seal_nonce() == nonce@,
            final(self).sealed_key() == chacha_seal(
                password_key(password@, old(self).salt@),
                nonce@,
                old(self).seed()->0,
            ),
            final(self).opens_to(password@) == old(self).seed(),
            old(self).seed()->0.len() == 32,
            final(self).sealed_key().len() == 32 + TAG_LEN,
            final(self).same_person(&*old(self)),
            final(self).signing_key is None,
            final(self).nonce == nonce,
            final(self).encrypted_privkey@ == chacha_seal(
                argon2id_key(encode_utf8(password@), old(self).salt@),
                nonce@,
                old(self).signing_key->0@,
            ),
            chacha_open(
                argon2id_key(encode_utf8(password@), final(self).salt@),
                final(self).nonce@,
                final(self).encrypted_privkey@,
            ) == Some(old(self).signing_key->0@),
            final(self).pubkey == old(self).pubkey,
            final(self).salt == old(self).salt,
            final(self).diddy_id == old(self).diddy_id,
            final(self).server_signature == old(self).server_signature,
    {
        if let Some(seed) = self.signing_key.take() {
            let key = Self::derive_key(password, &self.salt);
            self.encrypted_privkey = encrypt_with_nonce(&key, &nonce, seed.as_slice());
            self.nonce = nonce;
        }
    }

    /// Seals the signing key under `password` and a fresh nonce, and forgets
    /// it. The same password opens it again.
    pub fn lock(&mut self, password: &str)
        requires
            old(self).seed() is Some,
            hashable(password),
        ensures
            final(self).seed() is None,
            final(self).sealed_key() == chacha_seal(
                password_key(password@, old(self).salt@),
                final(self).seal_nonce(),
                old(self).seed()->0,
            ),
            final(self).opens_to(password@) == old(self).seed(),
            old(self).seed()->0.len() == 32,
            final(self).sealed_key().len() == 32 + TAG_LEN,
            final(self).same_person(&*old(self)),
            final(self).signing_key is None,
            final(self).encrypted_privkey@ == chacha_seal(
                argon2id_key(encode_utf8(password@), old(self).salt@),
                final(self).nonce@,
                old(self).signing_key->0@,
            ),
            chacha_open(
                argon2id_key(encode_utf8(password@), final(self).salt@),
                final(self).nonce@,
                final(self).encrypted_privkey@,
            ) == Some(old(self).signing_key->0@),
            final(self).pubkey == old(self).pubkey,
            final(self).salt == old(self).salt,
            final(self).diddy_id == old(self).diddy_id,
            final(self).server_signature == old(self).server_signature,
    {
        self.lock_with_nonce(password, chacha_nonce());
    }

    /// Takes the signing key from what the sealed key was opened to, if it was
    /// opened.
    pub fn accept_opened(&mut self, plaintext: Option<Vec<u8>>) -> (out: Result<(), WrongPassword>)
        requires
            plaintext matches Some(p) ==> p@.len() == 32,
        ensures
            final(self).sealed_key() == old(self).sealed_key(),
            final(self).seal_nonce() == old(self).seal_nonce(),
            final(self).same_person(&*old(self)),
            match plaintext {
                Some(p) => out is Ok && final(self).seed() == Some(p@),
                None => out is Err && final(self).seed() == old(self).seed(),
            },
            match plaintext {
                Some(p) => final(self).signing_key matches Some(k) && k@ == p@,
                None => final(self).signing_key == old(self).signing_key,
            },
            final(self).encrypted_privkey == old(self).encrypted_privkey,
            final(self).nonce == old(self).nonce,
            final(self).pubkey == old(self).pubkey,
            final(self).salt == old(self).salt,
            final(self).diddy_id == old(self).diddy_id,
            final(self).server_signature == old(self).server_signature,
    {
        match plaintext {
            Some(p) => {
                let seed: [u8; 32] = array_at(p.as_slice(), 0);
                assert(p@.subrange(0, 32) =~= p@);
                self.signing_key = Some(seed);
                Ok(())
            },
            None => Err(WrongPassword),
        }
    }

    fn open_sealed(&self, password: &str) -> (plaintext: Option<Vec<u8>>)
        requires
            hashable(password),
        ensures
            optional_view(plaintext) == self.opens_to(password@),
            plaintext matches Some(p) ==> p@.len() + TAG_LEN == self.sealed_key().len(),
            plaintext is Some <==> self.encrypted_privkey@.len() <= 274_877_906_832 && chacha_open(
                argon2id_key(encode_utf8(password@), self.salt@),
                self.nonce@,
                self.encrypted_privkey@,
            ) is Some,
            plaintext matches Some(p) ==> chacha_open(
                argon2id_key(encode_utf8(password@), self.salt@),
                self.nonce@,
                self.encrypted_privkey@,
            ) == Some(p@),
    {
        let key = Self::derive_key(password, &self.salt);
        match decrypt_message(&key, &self.nonce, self.encrypted_privkey.as_slice()) {
            Ok(p) => Some(p),
            Err(_) => None,
        }
    }

    /// Opens the sealed signing key with `password`. What the right password
    /// opens must be a signing key; `unlock_checked` does not ask for that. A
    /// sealed key of another length than a key and its tag never opens to one.
    pub fn unlock(&mut self, password: &str) -> (out: Result<(), WrongPassword>)
        requires
            hashable(password),
            old(self).opens_to(password@) matches Some(p) ==> p.len() == 32,
        ensures
            final(self).sealed_key() == old(self).sealed_key(),
            final(self).seal_nonce() == old(self).seal_nonce(),
            final(self).same_person(&*old(self)),
            match old(self).opens_to(password@) {
                Some(p) => out is Ok && final(self).seed() == Some(p),
                None => out is Err && final(self).seed() == old(self).seed(),
            },
            out is Ok ==> old(self).sealed_key().len() == 32 + TAG_LEN,
            old(self).sealed_key().len() < TAG_LEN ==> out is Err,
            out is Ok <==> old(self).encrypted_privkey@.len() <= 274_877_906_832 && chacha_open(
                argon2id_key(encode_utf8(password@), old(self).salt@),
                old(self).nonce@,
                old(self).encrypted_privkey@,
            ) is Some,
            out is Ok ==> (final(self).signing_key matches Some(k) && chacha_open(
                argon2id_key(encode_utf8(password@), old(self).salt@),
                old(self).nonce@,
                old(self).encrypted_privkey@,
            ) == Some(k@)),
            out is Err ==> final(self).signing_key == old(self).signing_key,
            final(self).encrypted_privkey == old(self).encrypted_privkey,
            final(self).nonce == old(self).nonce,
            final(self).pubkey == old(self).pubkey,
            final(self).salt == old(self).salt,
            final(self).diddy_id == old(self).diddy_id,
            final(self).server_signature == old(self).server_signature,
    {
        let plaintext = self.open_sealed(password);
        self.accept_opened(plaintext)
    }

    /// Opens the sealed signing key with `password`, or says by `None`, and
    /// leaves the identity as it is, that the password opens something that is
    /// no signing key.
    pub fn unlock_checked(&mut self, password: &str) -> (out: Option<Result<(), WrongPassword>>)
        requires
            hashable(password),
        ensures
            final(self).sealed_key() == old(self).sealed_key(),
            final(self).seal_nonce() == old(self).seal_nonce(),
            final(self).same_person(&*old(self)),
            match old(self).opens_to(password@) {
                Some(p) => if p.len() == 32 {
                    out matches Some(Ok(_)) && final(self).seed() == Some(p)
                } else {
                    out is None && final(self).seed() == old(self).seed()
                },
                None => out matches Some(Err(_)) && final(self).seed() == old(self).seed(),
            },
            out matches Some(Ok(_)) ==> old(self).sealed_key().len() == 32 + TAG_LEN,
            old(self).sealed_key().len() < TAG_LEN ==> out matches Some(Err(_)),
            out matches Some(Err(_)) <==> old(self).encrypted_privkey@.len() > 274_877_906_832
                || chacha_open(
                argon2id_key(encode_utf8(password@), old(self).salt@),
                old(self).nonce@,
                old(self).encrypted_privkey@,
            ) is None,
            out matches Some(Ok(_)) ==> (final(self).signing_key matches Some(k) && chacha_open(
                argon2id_key(encode_utf8(password@), old(self).salt@),
                old(self).nonce@,
                old(self).encrypted_privkey@,
            ) == Some(k@)),
            !(out matches Some(Ok(_))) ==> final(self).signing_key == old(self).signing_key,
            final(self).encrypted_privkey == old(self).encrypted_privkey,
            final(self).nonce == old(self).nonce,
            final(self).pubkey == old(self).pubkey,
            final(self).salt == old(self).salt,
            final(self).diddy_id == old(self).diddy_id,
            final(self).server_signature == old(self).server_signature,
    {
        let plaintext = self.open_sealed(password);
        let is_key = match &plaintext {
            Some(p) => p.len() == 32,
            None => true,
        };
        if is_key {
            Some(self.unlock(password))
        } else {
            None
        }
    }

    /// Whether the signing key is at hand.
    pub fn is_unlocked(&self) -> (yes: bool)
        ensures
            yes == self.seed() is Some,
            yes == self.signing_key is Some,
    {
        self.signing_key.is_some()
    }

    /// The public key: that of the signing key, if it is at hand.
    pub fn verifying_key(&self) -> (pubkey: [u8; 32])
        ensures
            pubkey@ == match self.seed() {
                Some(s) => ed25519_public_key(s),
                None => self.pubkey@,
            },
            self.coherent() ==> pubkey@ == self.pubkey@,
            self.signing_key matches Some(k) ==> pubkey@ == ed25519_public_key(k@),
            self.signing_key is None ==> pubkey == self.pubkey,
    {
        match &self.signing_key {
            Some(seed) => ed25519_public(seed),
            None => self.pubkey,
        }
    }

    /// What the server is given in place of the password.
    pub fn pwd_hash(&self, password: &str) -> (hash: [u8; 32])
        requires
            hashable(password),
        ensures
            hash@ == password_key(password@, self.salt@),
            hash@ == argon2id_key(encode_utf8(password@), self.salt@),
    {
        Self::derive_key(password, &self.salt)
    }

    /// This identity's signature on `msg`.
    pub fn sign(&self, msg: &[u8]) -> (signature: [u8; 64])
        requires
            self.seed() is Some,
        ensures
            signature@ == ed25519_signature(self.seed()->0, msg@),
            signature@ == ed25519_signature(self.signing_key->0@, msg@),
            !null_commitment(signature@) ==> signature_judged(
                ed25519_public_key(self.seed()->0),
                msg@,
                signature@,
            ) is Ok,
    {
        match &self.signing_key {
            Some(seed) => sign_message(seed, msg),
            None => [0u8; 64],
        }
    }

    /// The bytes to keep on disk. The signing key is not among them but for
    /// its sealed form.
    pub fn to_bytes(&self) -> (bytes: Vec<u8>)
        ensures
            bytes@ == identity_bytes(self.to_save()),
            identity_in(bytes@) == Some(self.to_save()),
            identity_in(bytes@) matches Some(s) && {
                &&& s.pubkey == self.pubkey@
                &&& s.encrypted_privkey == self.encrypted_privkey@
                &&& s.nonce == self.nonce@
                &&& s.salt == self.salt@
                &&& s.diddy_id == self.diddy_id
                &&& s.server_signature == match self.server_signature {
                    Some(v) => Some(v@),
                    None => None,
                }
            },
    {
        let fields: IdentityFields = (
            self.pubkey,
            copy_bytes(self.encrypted_privkey.as_slice()),
            self.nonce,
            self.salt,
            self.diddy_id,
            copy_optional(&self.server_signature),
        );
        let bytes = encode_identity(&fields);
        proof {
            assert(saved(fields) == self.to_save());
            law_identity_unique(bytes@, self.to_save());
        }
        bytes
    }

    /// The identity in bytes from disk, locked.
    pub fn from_bytes(bytes: &[u8]) -> (id: Result<LocalIdentity, CorruptIdentity>)
        ensures
            match id {
                Ok(id) => id.seed() is None && identity_in(bytes@) == Some(id.to_save()),
                Err(e) => identity_in(bytes@) is None && e.text@ == identity_error(bytes@),
            },
            id matches Ok(id) ==> id.signing_key is None && (identity_in(bytes@) matches Some(s) && {
                &&& s.pubkey == id.pubkey@
                &&& s.encrypted_privkey == id.encrypted_privkey@
                &&& s.nonce == id.nonce@
                &&& s.salt == id.salt@
                &&& s.diddy_id == id.diddy_id
                &&& s.server_signature == match id.server_signature {
                    Some(v) => Some(v@),
                    None => None,
                }
            }),
    {
        match decode_identity(bytes) {
            Ok(fields) => {
                proof {
                    law_identity_unique(bytes@, saved(fields));
                }
                Ok(
                    LocalIdentity {
                        pubkey: fields.0,
                        encrypted_privkey: fields.1,
                        nonce: fields.2,
                        salt: fields.3,
                        diddy_id: fields.4,
                        server_signature: fields.5,
                        signing_key: None,
                    },
                )
            },
            Err(text) => Err(CorruptIdentity { text }),
        }
    }
}

/// An identity that was saved and loaded again is opened by the same password
/// to the same signing key.
pub proof fn law_loaded_identity_opens(
    saved: LocalIdentity,
    loaded: LocalIdentity,
    password: Seq<char>,
)
    requires
        identity_in(identity_bytes(saved.to_save())) == Some(loaded.to_save()),
        identity_fits(saved.to_save()),
    ensures
        loaded.opens_to(password) == saved.opens_to(password),
        loaded.pubkey@ == saved.pubkey@,
        loaded.salt@ == saved.salt@,
        loaded.diddy_id == saved.diddy_id,
        optional_view(loaded.server_signature) == optional_view(saved.server_signature),
{
    law_identity_reads_back(saved.to_save());
}

/// A password counts whole: the key it gives is the Argon2id key of all its
/// bytes and of the salt, and that key is what the sealed signing key is opened
/// with.
pub proof fn law_whole_password(identity: LocalIdentity, password: Seq<char>, salt: Seq<u8>)
    ensures
        password_key(password, salt) == argon2id_key(encode_utf8(password), salt),
        identity.encrypted_privkey@.len() <= 274_877_906_832 ==> identity.opens_to(password)
            == chacha_open(
            argon2id_key(encode_utf8(password), identity.salt@),
            identity.nonce@,
            identity.encrypted_privkey@,
        ),
        identity.encrypted_privkey@.len() > 274_877_906_832 ==> identity.opens_to(password) is None,
{
}

/// What is kept of an identity on disk is all of it but the signing key.
pub proof fn law_saved_parts(identity: LocalIdentity)
    ensures
        identity.to_save().pubkey == identity.pubkey@,
        identity.to_save().encrypted_privkey == identity.encrypted_privkey@,
        identity.to_save().nonce == identity.nonce@,
        identity.to_save().salt == identity.salt@,
        identity.to_save().diddy_id == identity.diddy_id,
        identity.server_signature matches Some(v) ==> identity.to_save().server_signature == Some(
            v@,
        ),
        identity.server_signature is None ==> identity.to_save().server_signature is None,
{
}

/// An identity is unlocked while its signing key is at hand, registered when it
/// has both an id and a signature of the server, and coherent when its public
/// key is that of its signing key.
pub proof fn law_standing(identity: LocalIdentity, other: LocalIdentity)
    ensures
        identity.seed() is Some <==> identity.signing_key is Some,
        identity.signing_key matches Some(k) ==> identity.seed() == Some(k@),
        identity.registered() <==> identity.diddy_id is Some && identity.server_signature is Some,
        identity.coherent() <==> (identity.signing_key matches Some(k) ==> identity.pubkey@
            == ed25519_public_key(k@)),
        identity.same_person(&other) <==> identity.pubkey == other.pubkey && identity.salt
            == other.salt && identity.diddy_id == other.diddy_id && identity.server_signature
            == other.server_signature,
        identity.sealed_key() == identity.encrypted_privkey@,
        identity.seal_nonce() == identity.nonce@,
{
}

} // verus!
