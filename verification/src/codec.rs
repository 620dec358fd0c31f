//! How messages and identities are laid out in bytes, where the bytes
//! themselves matter: in what a sender signs and in what is kept on disk.
//!
//! Integers stand in full width, least significant byte first; a text or a
//! byte string of variable length stands behind its length in eight bytes; an
//! optional value stands behind a byte that says whether it is there. The
//! layout is bincode's, and bincode reads and writes it.

use vstd::prelude::*;
use vstd::utf8::{encode_utf8, encode_utf8_decode_utf8};

use crate::bytes::{
    le_bytes, lemma_le_bytes_len, lemma_le_round_trip, lemma_pow256_values, pow256,
};
use crate::protocol::{ChatMessage, ChatView};
use crate::store::{StoredMessage, StoredView};

verus! {

/// A byte string behind its length.
pub open spec fn sized(s: Seq<u8>) -> Seq<u8> {
    le_bytes(s.len(), 8) + s
}

/// A text, in UTF-8, behind its length.
pub open spec fn sized_text(t: Seq<char>) -> Seq<u8> {
    sized(encode_utf8(t))
}

/// A yes or a no.
pub open spec fn flag(b: bool) -> Seq<u8> {
    if b {
        seq![1u8]
    } else {
        seq![0u8]
    }
}

/// A number that may be missing.
pub open spec fn optional_id(id: Option<u128>) -> Seq<u8> {
    match id {
        Some(v) => flag(true) + le_bytes(v as nat, 16),
        None => flag(false),
    }
}

/// A byte string that may be missing.
pub open spec fn optional_bytes(s: Option<Seq<u8>>) -> Seq<u8> {
    match s {
        Some(b) => flag(true) + sized(b),
        None => flag(false),
    }
}

/// A length that eight bytes can hold.
pub open spec fn fits(s: Seq<u8>) -> bool {
    s.len() < pow256(8)
}

/// A chat message in bytes.
pub open spec fn chat_bytes(c: ChatView) -> Seq<u8> {
    sized(c.id) + le_bytes(c.from as nat, 16) + le_bytes(c.to as nat, 16) + le_bytes(
        c.timestamp as nat,
        8,
    ) + c.nonce + sized(c.ciphertext) + sized(c.signature)
}

/// A chat message whose parts have lengths that can be written down.
pub open spec fn chat_fits(c: ChatView) -> bool {
    &&& fits(c.id)
    &&& c.nonce.len() == 12
    &&& fits(c.ciphertext)
    &&& fits(c.signature)
}

/// Whether `bytes` begin with the chat message `c`.
pub open spec fn begins_with_chat(bytes: Seq<u8>, c: ChatView) -> bool {
    chat_fits(c) && chat_bytes(c).is_prefix_of(bytes)
}

/// The chat message that `bytes` begin with, if they begin with one.
pub open spec fn chat_in(bytes: Seq<u8>) -> Option<ChatView> {
    if exists|c: ChatView| begins_with_chat(bytes, c) {
        Some(choose|c: ChatView| begins_with_chat(bytes, c))
    } else {
        None
    }
}

/// A stored message in bytes.
pub open spec fn stored_bytes(m: StoredView) -> Seq<u8> {
    sized_text(m.id) + le_bytes(m.peer_id as nat, 16) + le_bytes(m.sender_id as nat, 16)
        + sized_text(m.body) + le_bytes(m.timestamp as nat, 8) + sized(m.nonce) + sized(
        m.ciphertext,
    ) + sized(m.signature) + flag(m.pending)
}

/// A stored message whose parts have lengths that can be written down.
pub open spec fn stored_fits(m: StoredView) -> bool {
    &&& fits(encode_utf8(m.id))
    &&& fits(encode_utf8(m.body))
    &&& fits(m.nonce)
    &&& fits(m.ciphertext)
    &&& fits(m.signature)
}

/// Whether `bytes` begin with the stored message `m`.
pub open spec fn begins_with_stored(bytes: Seq<u8>, m: StoredView) -> bool {
    stored_fits(m) && stored_bytes(m).is_prefix_of(bytes)
}

/// The stored message that `bytes` begin with, if they begin with one.
pub open spec fn stored_in(bytes: Seq<u8>) -> Option<StoredView> {
    if exists|m: StoredView| begins_with_stored(bytes, m) {
        Some(choose|m: StoredView| begins_with_stored(bytes, m))
    } else {
        None
    }
}

/// The part of an identity that is kept on disk.
#[verifier::ext_equal]
pub struct SavedIdentity {
    pub pubkey: Seq<u8>,
    pub encrypted_privkey: Seq<u8>,
    pub nonce: Seq<u8>,
    pub salt: Seq<u8>,
    pub diddy_id: Option<u128>,
    pub server_signature: Option<Seq<u8>>,
}

/// A saved identity in bytes.
pub open spec fn identity_bytes(s: SavedIdentity) -> Seq<u8> {
    s.pubkey + sized(s.encrypted_privkey) + s.nonce + s.salt + optional_id(s.diddy_id)
        + optional_bytes(s.server_signature)
}

/// A saved identity whose parts have the lengths they should.
pub open spec fn identity_fits(s: SavedIdentity) -> bool {
    &&& s.pubkey.len() == 32
    &&& fits(s.encrypted_privkey)
    &&& s.nonce.len() == 12
    &&& s.salt.len() == 16
    &&& s.server_signature matches Some(b) ==> fits(b)
}

/// Whether `bytes` begin with the saved identity `s`.
pub open spec fn begins_with_identity(bytes: Seq<u8>, s: SavedIdentity) -> bool {
    identity_fits(s) && identity_bytes(s).is_prefix_of(bytes)
}

/// The saved identity that `bytes` begin with, if they begin with one.
pub open spec fn identity_in(bytes: Seq<u8>) -> Option<SavedIdentity> {
    if exists|s: SavedIdentity| begins_with_identity(bytes, s) {
        Some(choose|s: SavedIdentity| begins_with_identity(bytes, s))
    } else {
        None
    }
}

// ---------------------------------------------------------------------------
// bincode
// ---------------------------------------------------------------------------

/// `bincode::serialize` of a chat message's fields, with `signature` in place
/// of its own: integers in full width, the id, the ciphertext and the
/// signature behind their lengths, the nonce as it is.
#[verifier::external_body]
pub(crate) fn encode_chat(chat: &ChatMessage, signature: &[u8; 64]) -> (out: Vec<u8>)
    ensures
        out@ == chat_bytes(ChatView { signature: signature@, ..chat@ }),
{
    bincode::serialize(
        &(
            chat.id.as_slice(),
            chat.from,
            chat.to,
            chat.timestamp,
            chat.nonce,
            &chat.ciphertext,
            signature.as_slice(),
        ),
    ).unwrap()
}

/// The fields of a chat message: id, sender, receiver, time, nonce, ciphertext
/// and signature.
pub type ChatFields = (Vec<u8>, u128, u128, u64, [u8; 12], Vec<u8>, Vec<u8>);

/// What the fields of a chat message say.
pub open spec fn chat_with(fields: ChatFields) -> ChatView {
    ChatView {
        id: fields.0@,
        from: fields.1,
        to: fields.2,
        timestamp: fields.3,
        nonce: fields.4@,
        ciphertext: fields.5@,
        signature: fields.6@,
    }
}

/// `bincode::deserialize` into a chat message's fields: succeeds on exactly the
/// bytes that begin with what `bincode::serialize` writes, and gives what was
/// written.
#[verifier::external_body]
pub(crate) fn decode_chat(bytes: &[u8]) -> (out: Option<ChatFields>)
    ensures
        match out {
            Some(fields) => begins_with_chat(bytes@, chat_with(fields)),
            None => forall|c: ChatView| !begins_with_chat(bytes@, c),
        },
{
    bincode::deserialize(bytes).ok()
}

/// `bincode::serialize` of a stored message's fields: integers in full width,
/// texts and byte strings behind their lengths, the flag as one byte.
#[verifier::external_body]
pub(crate) fn encode_stored(m: &StoredMessage) -> (out: Vec<u8>)
    ensures
        out@ == stored_bytes(m@),
        begins_with_stored(out@, m@),
{
    bincode::serialize(
        &(
            &m.id,
            m.peer_id,
            m.sender_id,
            &m.body,
            m.timestamp,
            &m.nonce,
            &m.ciphertext,
            &m.signature,
            m.pending,
        ),
    ).unwrap()
}

/// What `bincode` has to say of bytes that begin with no stored message, on a
/// machine where lengths go up to `max_len`.
pub uninterp spec fn stored_decode_error(bytes: Seq<u8>, max_len: usize) -> Seq<char>;

/// What `bincode` has to say, here, of bytes that begin with no stored message.
pub open spec fn entry_error(bytes: Seq<u8>) -> Seq<char> {
    stored_decode_error(bytes, usize::MAX)
}

/// `bincode::deserialize` into a stored message's fields: succeeds on exactly
/// the bytes that begin with what `bincode::serialize` writes, and gives what
/// was written. The text of the error depends on the bytes and on the longest
/// length that the machine can have.
#[verifier::external_body]
pub(crate) fn decode_stored(bytes: &[u8]) -> (out: Result<StoredMessage, String>)
    ensures
        match out {
            Ok(m) => begins_with_stored(bytes@, m@),
            Err(e) => e@ == stored_decode_error(bytes@, usize::MAX) && forall|m: StoredView|
                !begins_with_stored(bytes@, m),
        },
{
    match bincode::deserialize(bytes) {
        Ok((id, peer_id, sender_id, body, timestamp, nonce, ciphertext, signature, pending)) => {
            Ok(StoredMessage {
                id, peer_id, sender_id, body, timestamp, nonce, ciphertext, signature, pending,
            })
        },
        Err(e) => Err(e.to_string()),
    }
}

/// The fields of a saved identity: public key, sealed private key, nonce,
/// salt, id and the server's signature.
pub type IdentityFields = (
    [u8; 32],
    Vec<u8>,
    [u8; 12],
    [u8; 16],
    Option<u128>,
    Option<Vec<u8>>,
);

/// What the fields of a saved identity say.
pub open spec fn saved(fields: IdentityFields) -> SavedIdentity {
    SavedIdentity {
        pubkey: fields.0@,
        encrypted_privkey: fields.1@,
        nonce: fields.2@,
        salt: fields.3@,
        diddy_id: fields.4,
        server_signature: match fields.5 {
            Some(s) => Some(s@),
            None => None,
        },
    }
}

/// `bincode::serialize` of a saved identity's fields: arrays as they are, the
/// private key behind its length, optional values behind a byte.
#[verifier::external_body]
pub(crate) fn encode_identity(fields: &IdentityFields) -> (out: Vec<u8>)
    ensures
        out@ == identity_bytes(saved(*fields)),
        begins_with_identity(out@, saved(*fields)),
{
    bincode::serialize(fields).unwrap()
}

/// What `bincode` has to say of bytes that begin with no saved identity, on a
/// machine where lengths go up to `max_len`.
pub uninterp spec fn identity_decode_error(bytes: Seq<u8>, max_len: usize) -> Seq<char>;

/// What `bincode` has to say, here, of bytes that begin with no saved identity.
pub open spec fn identity_error(bytes: Seq<u8>) -> Seq<char> {
    identity_decode_error(bytes, usize::MAX)
}

/// `bincode::deserialize` into a saved identity's fields: succeeds on exactly
/// the bytes that begin with what `bincode::serialize` writes, and gives what
/// was written. The text of the error depends on the bytes and on the longest
/// length that the machine can have.
#[verifier::external_body]
pub(crate) fn decode_identity(bytes: &[u8]) -> (out: Result<IdentityFields, String>)
    ensures
        match out {
            Ok(fields) => begins_with_identity(bytes@, saved(fields)),
            Err(e) => e@ == identity_decode_error(bytes@, usize::MAX) && forall|s: SavedIdentity|
                !begins_with_identity(bytes@, s),
        },
{
    match bincode::deserialize(bytes) {
        Ok(fields) => Ok(fields),
        Err(e) => Err(e.to_string()),
    }
}

// ---------------------------------------------------------------------------
// What is written can be read in one way only
// ---------------------------------------------------------------------------

proof fn lemma_assoc(a: Seq<u8>, b: Seq<u8>, c: Seq<u8>)
    ensures
        (a + b) + c == a + (b + c),
{
    assert((a + b) + c =~= a + (b + c));
}

/// Two strings of one length, each with something behind it.
proof fn lemma_split(a: Seq<u8>, b: Seq<u8>, r: Seq<u8>, s: Seq<u8>)
    requires
        a.len() == b.len(),
        a + r == b + s,
    ensures
        a == b,
        r == s,
{
    assert(a =~= (a + r).take(a.len() as int));
    assert(b =~= (b + s).take(b.len() as int));
    assert(r =~= (a + r).skip(a.len() as int));
    assert(s =~= (b + s).skip(b.len() as int));
}

proof fn lemma_split_number(x: nat, y: nat, width: nat, r: Seq<u8>, s: Seq<u8>)
    requires
        x < pow256(width),
        y < pow256(width),
        le_bytes(x, width) + r == le_bytes(y, width) + s,
    ensures
        x == y,
        r == s,
{
    lemma_le_bytes_len(x, width);
    lemma_le_bytes_len(y, width);
    lemma_split(le_bytes(x, width), le_bytes(y, width), r, s);
    lemma_le_round_trip(x, width);
    lemma_le_round_trip(y, width);
}

proof fn lemma_split_sized(a: Seq<u8>, b: Seq<u8>, r: Seq<u8>, s: Seq<u8>)
    requires
        fits(a),
        fits(b),
        sized(a) + r == sized(b) + s,
    ensures
        a == b,
        r == s,
{
    lemma_assoc(le_bytes(a.len(), 8), a, r);
    lemma_assoc(le_bytes(b.len(), 8), b, s);
    lemma_split_number(a.len(), b.len(), 8, a + r, b + s);
    lemma_split(a, b, r, s);
}

proof fn lemma_split_text(a: Seq<char>, b: Seq<char>, r: Seq<u8>, s: Seq<u8>)
    requires
        fits(encode_utf8(a)),
        fits(encode_utf8(b)),
        sized_text(a) + r == sized_text(b) + s,
    ensures
        a == b,
        r == s,
{
    lemma_split_sized(encode_utf8(a), encode_utf8(b), r, s);
    encode_utf8_decode_utf8(a);
    encode_utf8_decode_utf8(b);
}

proof fn lemma_split_optional_id(a: Option<u128>, b: Option<u128>, r: Seq<u8>, s: Seq<u8>)
    requires
        optional_id(a) + r == optional_id(b) + s,
    ensures
        a == b,
        r == s,
{
    lemma_pow256_values();
    assert((optional_id(a) + r)[0] == optional_id(a)[0]);
    assert((optional_id(b) + s)[0] == optional_id(b)[0]);
    match (a, b) {
        (Some(x), Some(y)) => {
            lemma_assoc(flag(true), le_bytes(x as nat, 16), r);
            lemma_assoc(flag(true), le_bytes(y as nat, 16), s);
            lemma_split(
                flag(true),
                flag(true),
                le_bytes(x as nat, 16) + r,
                le_bytes(y as nat, 16) + s,
            );
            lemma_split_number(x as nat, y as nat, 16, r, s);
        },
        _ => {
            lemma_split(flag(false), flag(false), r, s);
        },
    }
}

proof fn lemma_split_optional_bytes(
    a: Option<Seq<u8>>,
    b: Option<Seq<u8>>,
    r: Seq<u8>,
    s: Seq<u8>,
)
    requires
        a matches Some(x) ==> fits(x),
        b matches Some(y) ==> fits(y),
        optional_bytes(a) + r == optional_bytes(b) + s,
    ensures
        a == b,
        r == s,
{
    assert((optional_bytes(a) + r)[0] == optional_bytes(a)[0]);
    assert((optional_bytes(b) + s)[0] == optional_bytes(b)[0]);
    match (a, b) {
        (Some(x), Some(y)) => {
            lemma_assoc(flag(true), sized(x), r);
            lemma_assoc(flag(true), sized(y), s);
            lemma_split(flag(true), flag(true), sized(x) + r, sized(y) + s);
            lemma_split_sized(x, y, r, s);
        },
        _ => {
            lemma_split(flag(false), flag(false), r, s);
        },
    }
}

proof fn lemma_chat_then(c: ChatView, rest: Seq<u8>)
    ensures
        chat_bytes(c) + rest == sized(c.id) + (le_bytes(c.from as nat, 16) + (le_bytes(
            c.to as nat,
            16,
        ) + (le_bytes(c.timestamp as nat, 8) + (c.nonce + (sized(c.ciphertext) + (sized(
            c.signature,
        ) + rest)))))),
{
    let a = sized(c.id);
    let b = le_bytes(c.from as nat, 16);
    let d = le_bytes(c.to as nat, 16);
    let e = le_bytes(c.timestamp as nat, 8);
    let f = c.nonce;
    let g = sized(c.ciphertext);
    let h = sized(c.signature);
    lemma_assoc(a + b + d + e + f + g, h, rest);
    lemma_assoc(a + b + d + e + f, g, h + rest);
    lemma_assoc(a + b + d + e, f, g + (h + rest));
    lemma_assoc(a + b + d, e, f + (g + (h + rest)));
    lemma_assoc(a + b, d, e + (f + (g + (h + rest))));
    lemma_assoc(a, b, d + (e + (f + (g + (h + rest)))));
}

proof fn lemma_chat_split(a: ChatView, b: ChatView, r: Seq<u8>, s: Seq<u8>)
    requires
        chat_fits(a),
        chat_fits(b),
        chat_bytes(a) + r == chat_bytes(b) + s,
    ensures
        a == b,
{
    lemma_pow256_values();
    lemma_chat_then(a, r);
    lemma_chat_then(b, s);
    let a6 = sized(a.signature) + r;
    let b6 = sized(b.signature) + s;
    let a5 = sized(a.ciphertext) + a6;
    let b5 = sized(b.ciphertext) + b6;
    let a4 = a.nonce + a5;
    let b4 = b.nonce + b5;
    let a3 = le_bytes(a.timestamp as nat, 8) + a4;
    let b3 = le_bytes(b.timestamp as nat, 8) + b4;
    let a2 = le_bytes(a.to as nat, 16) + a3;
    let b2 = le_bytes(b.to as nat, 16) + b3;
    let a1 = le_bytes(a.from as nat, 16) + a2;
    let b1 = le_bytes(b.from as nat, 16) + b2;
    lemma_split_sized(a.id, b.id, a1, b1);
    lemma_split_number(a.from as nat, b.from as nat, 16, a2, b2);
    lemma_split_number(a.to as nat, b.to as nat, 16, a3, b3);
    lemma_split_number(a.timestamp as nat, b.timestamp as nat, 8, a4, b4);
    lemma_split(a.nonce, b.nonce, a5, b5);
    lemma_split_sized(a.ciphertext, b.ciphertext, a6, b6);
    lemma_split_sized(a.signature, b.signature, r, s);
}

/// Bytes begin with at most one chat message: the one found in them.
pub proof fn law_chat_unique(bytes: Seq<u8>, c: ChatView)
    requires
        begins_with_chat(bytes, c),
    ensures
        chat_in(bytes) == Some(c),
{
    let d = chat_in(bytes)->0;
    assert(begins_with_chat(bytes, d));
    let r = bytes.skip(chat_bytes(c).len() as int);
    let s = bytes.skip(chat_bytes(d).len() as int);
    assert(bytes =~= chat_bytes(c) + r);
    assert(bytes =~= chat_bytes(d) + s);
    lemma_chat_split(c, d, r, s);
}

/// What is written of a chat message reads back as that message.
pub proof fn law_chat_reads_back(c: ChatView)
    requires
        chat_fits(c),
    ensures
        chat_in(chat_bytes(c)) == Some(c),
{
    assert(chat_bytes(c).is_prefix_of(chat_bytes(c)));
    law_chat_unique(chat_bytes(c), c);
}

proof fn lemma_stored_then(m: StoredView, rest: Seq<u8>)
    ensures
        stored_bytes(m) + rest == sized_text(m.id) + (le_bytes(m.peer_id as nat, 16) + (le_bytes(
            m.sender_id as nat,
            16,
        ) + (sized_text(m.body) + (le_bytes(m.timestamp as nat, 8) + (sized(m.nonce) + (sized(
            m.ciphertext,
        ) + (sized(m.signature) + (flag(m.pending) + rest)))))))),
{
    let a = sized_text(m.id);
    let b = le_bytes(m.peer_id as nat, 16);
    let c = le_bytes(m.sender_id as nat, 16);
    let d = sized_text(m.body);
    let e = le_bytes(m.timestamp as nat, 8);
    let f = sized(m.nonce);
    let g = sized(m.ciphertext);
    let h = sized(m.signature);
    let i = flag(m.pending);
    lemma_assoc(a + b + c + d + e + f + g + h, i, rest);
    lemma_assoc(a + b + c + d + e + f + g, h, i + rest);
    lemma_assoc(a + b + c + d + e + f, g, h + (i + rest));
    lemma_assoc(a + b + c + d + e, f, g + (h + (i + rest)));
    lemma_assoc(a + b + c + d, e, f + (g + (h + (i + rest))));
    lemma_assoc(a + b + c, d, e + (f + (g + (h + (i + rest)))));
    lemma_assoc(a + b, c, d + (e + (f + (g + (h + (i + rest))))));
    lemma_assoc(a, b, c + (d + (e + (f + (g + (h + (i + rest)))))));
}

proof fn lemma_stored_split(m: StoredView, n: StoredView, r: Seq<u8>, s: Seq<u8>)
    requires
        stored_fits(m),
        stored_fits(n),
        stored_bytes(m) + r == stored_bytes(n) + s,
    ensures
        m == n,
{
    lemma_pow256_values();
    lemma_stored_then(m, r);
    lemma_stored_then(n, s);
    let m8 = flag(m.pending) + r;
    let n8 = flag(n.pending) + s;
    let m7 = sized(m.signature) + m8;
    let n7 = sized(n.signature) + n8;
    let m6 = sized(m.ciphertext) + m7;
    let n6 = sized(n.ciphertext) + n7;
    let m5 = sized(m.nonce) + m6;
    let n5 = sized(n.nonce) + n6;
    let m4 = le_bytes(m.timestamp as nat, 8) + m5;
    let n4 = le_bytes(n.timestamp as nat, 8) + n5;
    let m3 = sized_text(m.body) + m4;
    let n3 = sized_text(n.body) + n4;
    let m2 = le_bytes(m.sender_id as nat, 16) + m3;
    let n2 = le_bytes(n.sender_id as nat, 16) + n3;
    let m1 = le_bytes(m.peer_id as nat, 16) + m2;
    let n1 = le_bytes(n.peer_id as nat, 16) + n2;
    lemma_split_text(m.id, n.id, m1, n1);
    lemma_split_number(m.peer_id as nat, n.peer_id as nat, 16, m2, n2);
    lemma_split_number(m.sender_id as nat, n.sender_id as nat, 16, m3, n3);
    lemma_split_text(m.body, n.body, m4, n4);
    lemma_split_number(m.timestamp as nat, n.timestamp as nat, 8, m5, n5);
    lemma_split_sized(m.nonce, n.nonce, m6, n6);
    lemma_split_sized(m.ciphertext, n.ciphertext, m7, n7);
    lemma_split_sized(m.signature, n.signature, m8, n8);
    assert(m8[0] == flag(m.pending)[0]);
    assert(n8[0] == flag(n.pending)[0]);
}

/// Bytes begin with at most one stored message: the one found in them.
pub proof fn law_stored_unique(bytes: Seq<u8>, m: StoredView)
    requires
        begins_with_stored(bytes, m),
    ensures
        stored_in(bytes) == Some(m),
{
    let n = stored_in(bytes)->0;
    assert(begins_with_stored(bytes, n));
    let r = bytes.skip(stored_bytes(m).len() as int);
    let s = bytes.skip(stored_bytes(n).len() as int);
    assert(bytes =~= stored_bytes(m) + r);
    assert(bytes =~= stored_bytes(n) + s);
    lemma_stored_split(m, n, r, s);
}

/// What is written of a stored message reads back as that message.
pub proof fn law_stored_reads_back(m: StoredView)
    requires
        stored_fits(m),
    ensures
        stored_in(stored_bytes(m)) == Some(m),
{
    assert(stored_bytes(m).is_prefix_of(stored_bytes(m)));
    law_stored_unique(stored_bytes(m), m);
}

proof fn lemma_identity_then(x: SavedIdentity, rest: Seq<u8>)
    ensures
        identity_bytes(x) + rest == x.pubkey + (sized(x.encrypted_privkey) + (x.nonce + (x.salt + (
        optional_id(x.diddy_id) + (optional_bytes(x.server_signature) + rest))))),
{
    let a = x.pubkey;
    let b = sized(x.encrypted_privkey);
    let c = x.nonce;
    let d = x.salt;
    let e = optional_id(x.diddy_id);
    let f = optional_bytes(x.server_signature);
    lemma_assoc(a + b + c + d + e, f, rest);
    lemma_assoc(a + b + c + d, e, f + rest);
    lemma_assoc(a + b + c, d, e + (f + rest));
    lemma_assoc(a + b, c, d + (e + (f + rest)));
    lemma_assoc(a, b, c + (d + (e + (f + rest))));
}

/// Bytes begin with at most one saved identity: the one found in them.
pub proof fn law_identity_unique(bytes: Seq<u8>, x: SavedIdentity)
    requires
        begins_with_identity(bytes, x),
    ensures
        identity_in(bytes) == Some(x),
{
    let y = identity_in(bytes)->0;
    assert(begins_with_identity(bytes, y));
    let r = bytes.skip(identity_bytes(x).len() as int);
    let s = bytes.skip(identity_bytes(y).len() as int);
    assert(bytes =~= identity_bytes(x) + r);
    assert(bytes =~= identity_bytes(y) + s);
    lemma_identity_then(x, r);
    lemma_identity_then(y, s);
    let x5 = optional_bytes(x.server_signature) + r;
    let y5 = optional_bytes(y.server_signature) + s;
    let x4 = optional_id(x.diddy_id) + x5;
    let y4 = optional_id(y.diddy_id) + y5;
    let x3 = x.salt + x4;
    let y3 = y.salt + y4;
    let x2 = x.nonce + x3;
    let y2 = y.nonce + y3;
    let x1 = sized(x.encrypted_privkey) + x2;
    let y1 = sized(y.encrypted_privkey) + y2;
    lemma_split(x.pubkey, y.pubkey, x1, y1);
    lemma_split_sized(x.encrypted_privkey, y.encrypted_privkey, x2, y2);
    lemma_split(x.nonce, y.nonce, x3, y3);
    lemma_split(x.salt, y.salt, x4, y4);
    lemma_split_optional_id(x.diddy_id, y.diddy_id, x5, y5);
    lemma_split_optional_bytes(x.server_signature, y.server_signature, r, s);
}

/// What is written of an identity reads back as it was written.
pub proof fn law_identity_reads_back(x: SavedIdentity)
    requires
        identity_fits(x),
    ensures
        identity_in(identity_bytes(x)) == Some(x),
{
    assert(identity_bytes(x).is_prefix_of(identity_bytes(x)));
    law_identity_unique(identity_bytes(x), x);
}

} // verus!
