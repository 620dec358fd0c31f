//! What callers can rely on, stated on the calls themselves: on what goes into
//! a function and what comes out of it, and on how one call relates to another.
//!
//! `call_ensures(f, args, out)` says that `out` is something that `f` can give
//! back when it is called with `args`.

use vstd::prelude::*;
use vstd::utf8::{decode_utf8, encode_utf8, valid_utf8};

use crate::bytes::u128_to_bytes;
use crate::bytes::{
    be_bytes, le_bytes, le_value, lemma_be_bytes_len, lemma_be_injective, lemma_pow256_values,
};
use crate::chat::{
    accept, chat_from_payload, chat_from_stored, compose, compose_line, compose_with, decrypt_body,
    display_message, history, read_chat, receive, relay_notice, signed_bytes, stored_from_chat,
    verify_chat, Delivery, Incoming, Outgoing, Settled, UnexpectedPacket,
};
use crate::chat::{received_text, signed_form};
use crate::codec::{chat_bytes, chat_in, stored_in};
use crate::command::{parse_command, Command};
use crate::crypto::{
    compute_diddy_id, decrypt_message, derive_shared_secret, encrypt_message, encrypt_with_nonce,
    is_reduced, judge, sign_message, verify_diddy, verify_message_sig, DecryptError, EphemeralSecret, SignatureError,
    SERVER_PUBKEY,
};
use crate::crypto::{diddy_id_of, law_both_sides_agree};
use crate::decimal::{decimal, law_decimal_reads_back, parsed_decimal};
use crate::decimal::{decimal_string, parse_u128};
use crate::directory::{
    announcement_from_row, record_from_row, DiddyRecord, Keypair, PeerAnnouncement,
};
use crate::handshake::{
    claimed_signature, initiate, initiate_with, respond, respond_with, HandshakeError, Initiator, Responder, Session,
};
use crate::identity::{LocalIdentity, WrongPassword};
use crate::login::{
    announcement, answer_challenge, login_outcome, login_request, registration_outcome,
    registration_refusal, start_registration, start_registration_with, RequestError,
};
use crate::message_id::{id_in, law_id_reads_back};
use crate::message_id::{id_text, parse_id, InvalidId};
use crate::primitives::{
    argon2id_key, blake3_digest, chacha_open, chacha_seal, ed25519_public_key, ed25519_signature,
    ed25519_verifies, null_commitment, utf8_replaced, uuid_text, x25519_product, x25519_public_key,
};
use crate::protocol::{chat_views, PacketView};
use crate::protocol::{
    frame_message, read_header, ChatMessage, ChatView, ClientMessage, IpAddress, MessageTooLarge, Packet,
    ServerMessage,
};
use crate::server::{Action, Connection, Stage};
use crate::store::{
    latest_timestamp, mark_not_pending, message_key, messages_since, pending_for, CorruptEntry,
    StoredMessage,
};
use crate::store::{
    entry_seqs, law_keys_distinct, law_messages_in, law_messages_since, law_pending_messages,
    messages_in, stored_views,
};
use crate::sync::{chats_of, law_given_messages, law_wire_form, to_give};
use crate::sync::{chats_to_give, given, requested_since, sync_give, sync_request, take_in};
use crate::text::{
    is_white, law_one_word, law_trimmed, law_words_are_parted, trimmed, words_of,
};
use crate::text::{trim, words};

verus! {

// ---------------------------------------------------------------------------
// Messages between peers
// ---------------------------------------------------------------------------

/// A message carries the moment, the sender, the receiver, the id and the nonce
/// that it was composed with, its whole text, sealed, and its writer's
/// signature; what is kept of it is the same, with the text in the clear, and
/// pending.
pub proof fn law_composing(
    identity: &LocalIdentity,
    key: &[u8; 32],
    to: u128,
    id: [u8; 16],
    nonce: [u8; 12],
    timestamp: u64,
    text: &str,
    out: Outgoing,
)
    requires
        identity.diddy_id is Some,
        identity.signing_key is Some,
        call_ensures(compose_with, (identity, key, to, id, nonce, timestamp, text), out),
    ensures
        out.chat.timestamp == timestamp,
        Some(out.chat.from) == identity.diddy_id,
        out.chat.to == to,
        out.chat.id == id,
        out.chat.nonce == nonce,
        out.chat.ciphertext@ == chacha_seal(key@, nonce@, encode_utf8(text@)),
        out.chat.signature@ == ed25519_signature(
            identity.signing_key->0@,
            signed_form(out.chat@),
        ),
        out.stored.body@ == text@,
        out.stored.timestamp == timestamp,
        Some(out.stored.sender_id) == identity.diddy_id,
        out.stored.peer_id == to,
        out.stored.id@ == uuid_text(id@),
        out.stored.nonce@ == nonce@,
        out.stored.ciphertext@ == out.chat.ciphertext@,
        out.stored.signature@ == out.chat.signature@,
        out.stored.pending,
{
}

/// The same holds of a message with an id and a nonce of its own, and of one
/// that is made of a line of input, but for the white space at either end.
/// Nothing is made of nothing.
pub proof fn law_composing_what_is_typed(
    identity: &LocalIdentity,
    key: &[u8; 32],
    to: u128,
    timestamp: u64,
    text: &str,
    line: &str,
    of_text: Option<Outgoing>,
    of_line: Option<Outgoing>,
)
    requires
        identity.diddy_id is Some,
        identity.signing_key is Some,
        call_ensures(compose, (identity, key, to, timestamp, text), of_text),
        call_ensures(compose_line, (identity, key, to, timestamp, line), of_line),
    ensures
        of_text is Some <==> text@.len() > 0,
        of_text matches Some(o) ==> {
            &&& o.chat.timestamp == timestamp
            &&& Some(o.chat.from) == identity.diddy_id
            &&& o.chat.to == to
            &&& o.chat.ciphertext@ == chacha_seal(key@, o.chat.nonce@, encode_utf8(text@))
            &&& o.stored.body@ == text@
            &&& o.stored.timestamp == timestamp
            &&& o.stored.peer_id == to
            &&& o.stored.pending
        },
        of_line is Some <==> trimmed(line@).len() > 0,
        of_line matches Some(o) ==> {
            &&& o.chat.timestamp == timestamp
            &&& Some(o.chat.from) == identity.diddy_id
            &&& o.chat.to == to
            &&& o.chat.ciphertext@ == chacha_seal(
                key@,
                o.chat.nonce@,
                encode_utf8(trimmed(line@)),
            )
            &&& o.stored.body@ == trimmed(line@)
            &&& o.stored.timestamp == timestamp
            &&& o.stored.peer_id == to
            &&& o.stored.pending
        },
{
}

/// A message that one peer composes and the other reads, under the key that both
/// hold, is kept by the other as it was meant: the whole text, from that
/// sender, of that moment and under that id, and delivered.
pub proof fn law_message_arrives(
    identity: &LocalIdentity,
    key: &[u8; 32],
    to: u128,
    id: [u8; 16],
    nonce: [u8; 12],
    timestamp: u64,
    text: &str,
    out: Outgoing,
    pubkey: &[u8; 32],
    peer_id: u128,
    my_id: u128,
    incoming: Option<Incoming>,
)
    requires
        identity.diddy_id is Some,
        identity.signing_key is Some,
        call_ensures(compose_with, (identity, key, to, id, nonce, timestamp, text), out),
        !null_commitment(out.chat.signature@),
        pubkey@ == ed25519_public_key(identity.signing_key->0@),
        call_ensures(read_chat, (&out.chat, pubkey, key, peer_id, my_id), incoming),
    ensures
        incoming matches Some(i) && {
            &&& i.stored.body@ == text@
            &&& i.stored.timestamp == timestamp
            &&& Some(i.stored.sender_id) == identity.diddy_id
            &&& i.stored.peer_id == peer_id
            &&& i.stored.id@ == out.stored.id@
            &&& i.stored.ciphertext@ == out.stored.ciphertext@
            &&& i.stored.signature@ == out.stored.signature@
            &&& !i.stored.pending
        },
{
}

/// Whatever text is put into a stored message is kept whole, with the mark and
/// the peer that were given and with every part of the message.
pub proof fn law_keeping(
    chat: &ChatMessage,
    peer_id: u128,
    body: &str,
    pending: bool,
    stored: StoredMessage,
)
    requires
        call_ensures(stored_from_chat, (chat, peer_id, body, pending), stored),
    ensures
        stored.body@ == body@,
        stored.pending == pending,
        stored.peer_id == peer_id,
        stored.id@ == uuid_text(chat.id@),
        stored.sender_id == chat.from,
        stored.timestamp == chat.timestamp,
        stored.nonce@ == chat.nonce@,
        stored.ciphertext@ == chat.ciphertext@,
        stored.signature@ == chat.signature@,
{
}

/// A message to a peer, kept and made ready to be sent again, is the message it
/// was.
pub proof fn law_sending_again(
    chat: &ChatMessage,
    body: &str,
    pending: bool,
    stored: StoredMessage,
    again: Result<ChatMessage, InvalidId>,
)
    requires
        call_ensures(stored_from_chat, (chat, chat.to, body, pending), stored),
        call_ensures(chat_from_stored, (&stored,), again),
    ensures
        again matches Ok(c) && {
            &&& c.id@ == chat.id@
            &&& c.from == chat.from
            &&& c.to == chat.to
            &&& c.timestamp == chat.timestamp
            &&& c.nonce@ == chat.nonce@
            &&& c.ciphertext@ == chat.ciphertext@
            &&& c.signature@ == chat.signature@
        },
{
    law_id_reads_back(chat.id@);
}

/// A message is accepted exactly if it was signed and opened, and what is kept
/// of it is what it was opened to, whole.
pub proof fn law_accepting(
    chat: &ChatMessage,
    verdict: Result<(), SignatureError>,
    body: Result<String, DecryptError>,
    peer_id: u128,
    my_id: u128,
    incoming: Option<Incoming>,
)
    requires
        call_ensures(accept, (chat, verdict, body, peer_id, my_id), incoming),
    ensures
        incoming is Some <==> verdict is Ok && body is Ok,
        incoming matches Some(i) ==> {
            &&& i.stored.body@ == body->Ok_0@
            &&& i.stored.peer_id == peer_id
            &&& i.stored.sender_id == chat.from
            &&& i.stored.timestamp == chat.timestamp
            &&& !i.stored.pending
            &&& chat.from == my_id ==> i.display@ == "you"@ + ":\n"@ + body->Ok_0@
            &&& chat.from != my_id ==> i.display@ == decimal(chat.from as nat) + ":\n"@
                + body->Ok_0@
        },
{
}

/// A packet in the middle of a conversation is read as a message is, and any
/// other packet ends it.
pub proof fn law_receiving(
    packet: &Packet,
    peer_pubkey: &[u8; 32],
    key: &[u8; 32],
    peer_id: u128,
    my_id: u128,
    received: Result<Option<Incoming>, UnexpectedPacket>,
    read: Option<Incoming>,
)
    requires
        call_ensures(receive, (packet, peer_pubkey, key, peer_id, my_id), received),
        packet matches Packet::Message(chat) ==> call_ensures(
            read_chat,
            (chat, peer_pubkey, key, peer_id, my_id),
            read,
        ),
    ensures
        packet !is Message ==> received is Err,
        packet is Message ==> (received matches Ok(found) && {
            &&& found is Some <==> read is Some
            &&& found matches Some(i) ==> i.stored@ == read->0.stored@ && i.display@
                == read->0.display@
        }),
{
}

/// A message that was accepted is shown as it was accepted, and kept if it was
/// not kept before.
pub proof fn law_settling(incoming: Incoming, known: bool, settled: Settled)
    requires
        call_ensures(Incoming::settle, (incoming, known), settled),
    ensures
        settled.display == incoming.display,
        known ==> settled.store is None,
        !known ==> settled.store == Some(incoming.stored),
{
}

/// A message that could be sent is shown as one's own, whole; one that could
/// not is not shown.
pub proof fn law_writing(outgoing: &Outgoing, sent: bool, delivery: Delivery)
    requires
        call_ensures(Outgoing::written, (outgoing, sent), delivery),
    ensures
        delivery is Delivered <==> sent,
        delivery matches Delivery::Delivered { display } ==> display@ == "you"@ + ":\n"@
            + outgoing.stored.body@,
{
}

/// A message is shown under `you` if it is one's own and under its sender's
/// number if not, and always whole.
pub proof fn law_showing(sender_id: u128, my_id: u128, body: &str, text: String)
    requires
        call_ensures(display_message, (sender_id, my_id, body), text),
    ensures
        sender_id == my_id ==> text@ == "you"@ + ":\n"@ + body@,
        sender_id != my_id ==> text@ == decimal(sender_id as nat) + ":\n"@ + body@,
{
}

/// The history shows every message that `messages_since` finds from the
/// beginning of time, in the same order, each of them whole.
pub proof fn law_history(
    entries: &Vec<Vec<u8>>,
    my_id: u128,
    lines: Result<Vec<String>, CorruptEntry>,
    msgs: Result<Vec<StoredMessage>, CorruptEntry>,
)
    requires
        call_ensures(history, (entries, my_id), lines),
        call_ensures(messages_since, (entries, 0u64), msgs),
        lines is Ok,
        msgs is Ok,
    ensures
        lines->Ok_0@.len() == msgs->Ok_0@.len(),
        forall|i: int|
            0 <= i < msgs->Ok_0@.len() ==> (#[trigger] lines->Ok_0@[i])@ == (
            if msgs->Ok_0@[i].sender_id == my_id {
                "you"@
            } else {
                decimal(msgs->Ok_0@[i].sender_id as nat)
            }) + ":\n"@ + msgs->Ok_0@[i].body@,
{
    let m = msgs->Ok_0@;
    let views = stored_views(m);
    assert(views.len() == m.len());
    assert forall|i: int| 0 <= i < m.len() implies #[trigger] views[i] == m[i]@ by {}
}

// ---------------------------------------------------------------------------
// Passwords and identities
// ---------------------------------------------------------------------------

/// What the server is given in place of a password is made of all of it and of
/// the identity's salt.
pub proof fn law_password_hash(identity: &LocalIdentity, password: &str, hash: [u8; 32])
    requires
        call_ensures(LocalIdentity::pwd_hash, (identity, password), hash),
    ensures
        hash@ == argon2id_key(encode_utf8(password@), identity.salt@),
{
}

/// Locking seals the signing key under the Argon2id key of the whole password,
/// and forgets it; the same password brings it back, and nothing else about the
/// identity changes.
pub proof fn law_locking_and_unlocking(
    before: &mut LocalIdentity,
    locked: &mut LocalIdentity,
    password: &str,
    nonce: [u8; 12],
    out: Result<(), WrongPassword>,
)
    requires
        old(before).signing_key is Some,
        call_ensures(LocalIdentity::lock_with_nonce, (before, password, nonce), ()),
        *old(locked) == *final(before),
        call_ensures(LocalIdentity::unlock, (locked, password), out),
    ensures
        final(before).signing_key is None,
        final(before).encrypted_privkey@ == chacha_seal(
            argon2id_key(encode_utf8(password@), old(before).salt@),
            nonce@,
            old(before).signing_key->0@,
        ),
        final(before).nonce == nonce,
        out is Ok,
        final(locked).signing_key matches Some(k) && k@ == old(before).signing_key->0@,
        final(locked).pubkey == old(before).pubkey,
        final(locked).salt == old(before).salt,
        final(locked).diddy_id == old(before).diddy_id,
        final(locked).server_signature == old(before).server_signature,
{
}

/// A password opens what the Argon2id key of the whole of it opens, and nothing
/// else; one that opens nothing changes nothing.
pub proof fn law_unlocking(
    identity: &mut LocalIdentity,
    password: &str,
    out: Result<(), WrongPassword>,
)
    requires
        call_ensures(LocalIdentity::unlock, (identity, password), out),
    ensures
        out is Ok ==> (final(identity).signing_key matches Some(k) && chacha_open(
            argon2id_key(encode_utf8(password@), old(identity).salt@),
            old(identity).nonce@,
            old(identity).encrypted_privkey@,
        ) == Some(k@)),
        out is Err ==> final(identity).signing_key == old(identity).signing_key,
        out is Err && old(identity).encrypted_privkey@.len() <= 274_877_906_832 ==> chacha_open(
            argon2id_key(encode_utf8(password@), old(identity).salt@),
            old(identity).nonce@,
            old(identity).encrypted_privkey@,
        ) is None,
{
}

/// The same holds under a fresh nonce.
pub proof fn law_locking_afresh(
    before: &mut LocalIdentity,
    locked: &mut LocalIdentity,
    password: &str,
    out: Result<(), WrongPassword>,
)
    requires
        old(before).signing_key is Some,
        call_ensures(LocalIdentity::lock, (before, password), ()),
        *old(locked) == *final(before),
        call_ensures(LocalIdentity::unlock, (locked, password), out),
    ensures
        final(before).signing_key is None,
        final(before).encrypted_privkey@ == chacha_seal(
            argon2id_key(encode_utf8(password@), old(before).salt@),
            final(before).nonce@,
            old(before).signing_key->0@,
        ),
        out is Ok,
        final(locked).signing_key matches Some(k) && k@ == old(before).signing_key->0@,
        final(locked).pubkey == old(before).pubkey,
        final(locked).salt == old(before).salt,
{
}

/// A random identity that is to be registered is locked with the password, which
/// opens it to the signing key of its public key; the request to register it
/// shows that public key, the salt and the Argon2id key of the whole password.
pub proof fn law_starting_afresh(
    password: &str,
    started: (LocalIdentity, ClientMessage),
    generated: LocalIdentity,
)
    requires
        call_ensures(start_registration, (password,), started),
        call_ensures(LocalIdentity::generate, (), generated),
    ensures
        started.1 matches ClientMessage::Register { pubkey, pwd_hash, salt } && {
            &&& pubkey == started.0.pubkey
            &&& salt == started.0.salt
            &&& pwd_hash@ == argon2id_key(encode_utf8(password@), started.0.salt@)
        },
        chacha_open(
            argon2id_key(encode_utf8(password@), started.0.salt@),
            started.0.nonce@,
            started.0.encrypted_privkey@,
        ) matches Some(seed) && started.0.pubkey@ == ed25519_public_key(seed),
        started.0.signing_key is None,
        started.0.diddy_id is None,
        started.0.server_signature is None,
        generated.signing_key matches Some(k) && generated.pubkey@ == ed25519_public_key(k@),
        generated.diddy_id is None,
        generated.server_signature is None,
{
}

/// A new identity holds the signing key and the salt that it was made with, goes
/// by the public key of that signing key, and signs with it.
pub proof fn law_new_identity(
    seed: &[u8; 32],
    salt: [u8; 16],
    identity: LocalIdentity,
    pubkey: [u8; 32],
    msg: &[u8],
    signature: [u8; 64],
)
    requires
        call_ensures(LocalIdentity::from_seed, (seed, salt), identity),
        call_ensures(LocalIdentity::verifying_key, (&identity,), pubkey),
        call_ensures(LocalIdentity::sign, (&identity, msg), signature),
    ensures
        identity.signing_key == Some(*seed),
        identity.salt == salt,
        identity.pubkey@ == ed25519_public_key(seed@),
        pubkey@ == identity.pubkey@,
        signature@ == ed25519_signature(seed@, msg@),
        identity.encrypted_privkey@.len() == 0,
        identity.diddy_id is None,
        identity.server_signature is None,
{
}

/// An identity that is saved and loaded again is the same, but locked.
pub proof fn law_saving_and_loading(
    identity: &LocalIdentity,
    bytes: Vec<u8>,
    read: &[u8],
    loaded: LocalIdentity,
)
    requires
        call_ensures(LocalIdentity::to_bytes, (identity,), bytes),
        read@ == bytes@,
        call_ensures(LocalIdentity::from_bytes, (read,), Ok(loaded)),
    ensures
        loaded.signing_key is None,
        loaded.pubkey@ == identity.pubkey@,
        loaded.encrypted_privkey@ == identity.encrypted_privkey@,
        loaded.nonce@ == identity.nonce@,
        loaded.salt@ == identity.salt@,
        loaded.diddy_id == identity.diddy_id,
        loaded.server_signature is Some <==> identity.server_signature is Some,
        identity.server_signature is Some ==> loaded.server_signature->0@
            == identity.server_signature->0@,
{
}

// ---------------------------------------------------------------------------
// Clients and the server
// ---------------------------------------------------------------------------

/// A registration from beginning to end. What the client sends is its public
/// key, the Argon2id key of its whole password and its salt. What the server
/// writes down is all of that, as it was sent, with the moment, under the id
/// that goes with the key and with its own signature on the key. What the
/// client takes over is that id and that signature.
pub proof fn law_registering(
    seed: &[u8; 32],
    salt: [u8; 16],
    nonce: [u8; 12],
    password: &str,
    started: (LocalIdentity, ClientMessage),
    asking: &mut Connection,
    asked: Action,
    asked_at: i64,
    finding: &mut Connection,
    server_seed: &[u8; 32],
    fresh: [u8; 32],
    now: i64,
    found: Action,
    writing: &mut Connection,
    reply: ServerMessage,
    identity: &mut LocalIdentity,
    outcome: Result<(), RequestError>,
)
    requires
        call_ensures(start_registration_with, (seed, salt, nonce, password), started),
        call_ensures(Connection::request, (asking, started.1, asked_at), asked),
        *old(finding) == *final(asking),
        call_ensures(
            Connection::found_with,
            (finding, None::<DiddyRecord>, server_seed, fresh, now),
            found,
        ),
        *old(writing) == *final(finding),
        call_ensures(Connection::inserted, (writing, true), Action::Reply(reply)),
        *old(identity) == started.0,
        call_ensures(registration_outcome, (identity, reply), outcome),
    ensures
        asked matches Action::FindByPubkey(k) && k@ == ed25519_public_key(seed@),
        found matches Action::Insert(r) && {
            &&& r.pubkey@ == ed25519_public_key(seed@)
            &&& r.pwd_hash@ == argon2id_key(encode_utf8(password@), salt@)
            &&& r.salt == salt
            &&& r.created_at == now
            &&& r.id@ == be_bytes(diddy_id_of(r.pubkey@), 16)
            &&& r.signature@ == ed25519_signature(server_seed@, r.pubkey@)
        },
        outcome is Ok,
        final(identity).pubkey@ == ed25519_public_key(seed@),
        final(identity).diddy_id matches Some(id) && id as nat == diddy_id_of(
            final(identity).pubkey@,
        ),
        final(identity).server_signature matches Some(s) && s@ == ed25519_signature(
            server_seed@,
            final(identity).pubkey@,
        ),
        final(identity).signing_key is None,
        final(identity).encrypted_privkey@ == chacha_seal(
            argon2id_key(encode_utf8(password@), salt@),
            nonce@,
            seed@,
        ),
{
}

/// Whoever registers, the server writes down what was sent, whole.
pub proof fn law_writing_down(
    asking: &mut Connection,
    pubkey: [u8; 32],
    pwd_hash: [u8; 32],
    salt: [u8; 16],
    asked_at: i64,
    asked: Action,
    finding: &mut Connection,
    server_seed: &[u8; 32],
    fresh: [u8; 32],
    now: i64,
    found: Action,
)
    requires
        call_ensures(
            Connection::request,
            (asking, ClientMessage::Register { pubkey, pwd_hash, salt }, asked_at),
            asked,
        ),
        *old(finding) == *final(asking),
        call_ensures(
            Connection::found_with,
            (finding, None::<DiddyRecord>, server_seed, fresh, now),
            found,
        ),
    ensures
        asked == Action::FindByPubkey(pubkey),
        found matches Action::Insert(r) && {
            &&& r.pubkey == pubkey
            &&& r.pwd_hash == pwd_hash
            &&& r.salt == salt
            &&& r.created_at == now
            &&& r.id@ == be_bytes(diddy_id_of(pubkey@), 16)
            &&& r.signature@ == ed25519_signature(server_seed@, pubkey@)
        },
{
}

/// With a random challenge the server does the same: it writes down what was
/// sent, gives out the challenge that is then pending, and shows what is on
/// record.
pub proof fn law_finding(
    conn: &mut Connection,
    record: Option<DiddyRecord>,
    server_seed: &[u8; 32],
    now: i64,
    action: Action,
)
    requires
        call_ensures(Connection::found, (conn, record, server_seed, now), action),
    ensures
        old(conn).stage matches Stage::Registering { pubkey, pwd_hash, salt } ==> (record is None
            ==> (action matches Action::Insert(r) && {
            &&& r.pubkey == pubkey
            &&& r.pwd_hash == pwd_hash
            &&& r.salt == salt
            &&& r.created_at == now
            &&& r.id@ == be_bytes(diddy_id_of(pubkey@), 16)
            &&& r.signature@ == ed25519_signature(server_seed@, pubkey@)
        })),
        old(conn).stage is LoggingIn && record is Some ==> (action matches Action::Reply(
            ServerMessage::AuthChallenge { challenge },
        ) && final(conn).pending_challenge == Some(challenge)),
        old(conn).stage matches Stage::Verifying { diddy_id } ==> (record matches Some(r) ==> action
            == Action::Reply(
            ServerMessage::VerifyResponse { diddy_id, pubkey: r.pubkey, signature: r.signature },
        )),
        old(conn).stage matches Stage::Proving { challenge, diddy_id, signature } ==> (
        record matches Some(r) ==> {
            &&& action is LetIn <==> ed25519_verifies(r.pubkey@, challenge@, signature@)
            &&& action is LetIn ==> action == (Action::LetIn { diddy_id }) && final(conn).authed_id
                == Some(diddy_id)
            &&& action !is LetIn ==> final(conn).authed_id == old(conn).authed_id
        }),
{
}

/// A login from beginning to end: the client asks under its own id, is given a
/// challenge, signs that challenge, and is let in under that id if the key on
/// record is the key it signs with.
pub proof fn law_logging_in(
    identity: &LocalIdentity,
    diddy_id: u128,
    request: ClientMessage,
    asking: &mut Connection,
    asked: Action,
    daring: &mut Connection,
    record: DiddyRecord,
    server_seed: &[u8; 32],
    fresh: [u8; 32],
    challenge: ServerMessage,
    answer: ClientMessage,
    answering: &mut Connection,
    answered: Action,
    proving: &mut Connection,
    now: i64,
    done: Action,
)
    requires
        identity.diddy_id == Some(diddy_id),
        identity.signing_key is Some,
        call_ensures(login_request, (identity,), Ok(request)),
        call_ensures(Connection::request, (asking, request, now), asked),
        *old(daring) == *final(asking),
        call_ensures(
            Connection::found_with,
            (daring, Some(record), server_seed, fresh, now),
            Action::Reply(challenge),
        ),
        call_ensures(answer_challenge, (identity, diddy_id, challenge), Ok(answer)),
        *old(answering) == *final(daring),
        call_ensures(Connection::request, (answering, answer, now), answered),
        *old(proving) == *final(answering),
        call_ensures(
            Connection::found_with,
            (proving, Some(record), server_seed, fresh, now),
            done,
        ),
    ensures
        asked matches Action::FindById(k) && k@ == be_bytes(diddy_id as nat, 16),
        challenge == (ServerMessage::AuthChallenge { challenge: fresh }),
        answer matches ClientMessage::LoginChallengeResponse { diddy_id: id, signature } && id
            == diddy_id && signature@ == ed25519_signature(
            identity.signing_key->0@,
            fresh@,
        ),
        answered matches Action::FindById(k) && k@ == be_bytes(diddy_id as nat, 16),
        ed25519_verifies(
            record.pubkey@,
            fresh@,
            ed25519_signature(identity.signing_key->0@, fresh@),
        ) ==> done == (Action::LetIn { diddy_id }) && final(proving).authed_id == Some(diddy_id),
        !ed25519_verifies(
            record.pubkey@,
            fresh@,
            ed25519_signature(identity.signing_key->0@, fresh@),
        ) ==> done !is LetIn && final(proving).authed_id == old(asking).authed_id,
{
}

/// Whoever asks for a client, logged in or not, has that client looked up, that
/// client's presence asked for, and is told that client's address and ports and
/// whether that client is there.
pub proof fn law_asking_for_a_client(
    asking: &mut Connection,
    diddy_id: u128,
    now: i64,
    asked: Action,
    locating: &mut Connection,
    ann: PeerAnnouncement,
    located: Action,
    checking: &mut Connection,
    online: bool,
    told: Action,
)
    requires
        call_ensures(
            Connection::request,
            (asking, ClientMessage::QueryPeer { diddy_id }, now),
            asked,
        ),
        *old(locating) == *final(asking),
        ann.ip@.len() == 4 || ann.ip@.len() == 16,
        call_ensures(Connection::located, (locating, Some(ann)), located),
        *old(checking) == *final(locating),
        call_ensures(Connection::online, (checking, online), told),
    ensures
        asked matches Action::FindAnnouncement(k) && k@ == be_bytes(diddy_id as nat, 16),
        located == Action::AskOnline(diddy_id),
        told matches Action::Reply(
            ServerMessage::PeerInfo { diddy_id: id, ip, tcp_port, udp_port, online: there },
        ) && id == diddy_id && ip.octets_seq() == ann.ip@ && tcp_port == ann.tcp_port && udp_port
            == ann.udp_port && there == online,
        final(checking).authed_id == old(asking).authed_id,
{
}

/// A client that announces itself is filed under the id that it was let in
/// with, from where it calls, with the port that it waits on, the one after it,
/// and the moment.
pub proof fn law_announcing(
    port: u16,
    request: ClientMessage,
    conn: &mut Connection,
    now: i64,
    action: Action,
)
    requires
        call_ensures(announcement, (port,), request),
        call_ensures(Connection::request, (conn, request, now), action),
    ensures
        old(conn).authed_id matches Some(id) ==> (action matches Action::SaveAnnouncement(a) && {
            &&& a.diddy_id@ == be_bytes(id as nat, 16)
            &&& old(conn).peer_ip matches Some(ip) ==> a.ip@ == ip.octets_seq()
            &&& old(conn).peer_ip is None ==> a.ip@ == seq![0u8, 0u8, 0u8, 0u8]
            &&& a.tcp_port == port
            &&& a.udp_port as int == (port + 1) % 65536
            &&& a.last_seen == now
        }),
        old(conn).authed_id is None ==> (action matches Action::Reply(
            ServerMessage::LoginError { reason },
        ) && reason@ == "announce requires auth"@),
{
}

/// A packet is passed on to the client it is for, whole, under the id that its
/// sender was let in with, and for nobody else; the connection stays as it was.
pub proof fn law_passing_on(
    conn: &mut Connection,
    to_diddy_id: u128,
    payload: Vec<u8>,
    now: i64,
    action: Action,
)
    requires
        call_ensures(
            Connection::request,
            (conn, ClientMessage::RelayPacket { to_diddy_id, payload }, now),
            action,
        ),
    ensures
        old(conn).authed_id matches Some(from_diddy_id) ==> action == (Action::Forward {
            to: to_diddy_id,
            message: ServerMessage::RelayForward { from_diddy_id, payload },
        }),
        old(conn).authed_id is None ==> action is Reply,
        final(conn).authed_id == old(conn).authed_id,
        final(conn).pending_challenge == old(conn).pending_challenge,
        final(conn).peer_ip == old(conn).peer_ip,
{
}

/// Whoever asks about an id is told the key and the signature on record for it.
pub proof fn law_looking_up(
    asking: &mut Connection,
    diddy_id: u128,
    now: i64,
    asked: Action,
    finding: &mut Connection,
    record: Option<DiddyRecord>,
    server_seed: &[u8; 32],
    fresh: [u8; 32],
    told: Action,
)
    requires
        call_ensures(
            Connection::request,
            (asking, ClientMessage::VerifyRequest { diddy_id }, now),
            asked,
        ),
        *old(finding) == *final(asking),
        call_ensures(Connection::found_with, (finding, record, server_seed, fresh, now), told),
    ensures
        asked matches Action::FindById(k) && k@ == be_bytes(diddy_id as nat, 16),
        record matches Some(r) ==> told == Action::Reply(
            ServerMessage::VerifyResponse { diddy_id, pubkey: r.pubkey, signature: r.signature },
        ),
        record is None ==> (told matches Action::Reply(ServerMessage::VerifyError { reason })
            && reason@ == "unknown diddy_id"@),
{
}

/// A judgement lets a client in under the id that it claims, or leaves it where
/// it was.
pub proof fn law_concluding(
    conn: &mut Connection,
    diddy_id: u128,
    verdict: Result<(), SignatureError>,
    action: Action,
)
    requires
        call_ensures(Connection::conclude, (conn, diddy_id, verdict), action),
    ensures
        verdict is Ok ==> action == (Action::LetIn { diddy_id }) && final(conn).authed_id == Some(
            diddy_id,
        ),
        verdict is Err ==> action !is LetIn && final(conn).authed_id == old(conn).authed_id,
        verdict matches Err(e) ==> (action is Close <==> e is InvalidKey),
        final(conn).stage is Idle,
        final(conn).pending_challenge == old(conn).pending_challenge,
        final(conn).peer_ip == old(conn).peer_ip,
{
}

/// What became of a registration is told with the id and the signature that were
/// to be written down, or as an error; an announcement that was written down is
/// acknowledged.
pub proof fn law_telling(
    writing: &mut Connection,
    written: bool,
    told: Action,
    announcing: &mut Connection,
    acknowledged: Action,
)
    requires
        call_ensures(Connection::inserted, (writing, written), told),
        call_ensures(Connection::announced, (announcing,), acknowledged),
    ensures
        old(writing).stage matches Stage::Inserting { diddy_id, signature } ==> {
            &&& written ==> told == Action::Reply(
                ServerMessage::RegistrationSuccess { diddy_id, signature },
            )
            &&& !written ==> (told matches Action::Reply(
                ServerMessage::RegistrationError { reason },
            ) && reason@ == "internal error"@)
        },
        acknowledged == Action::Reply(ServerMessage::AnnounceAck),
        final(writing).authed_id == old(writing).authed_id,
        final(announcing).authed_id == old(announcing).authed_id,
{
}

/// A new connection knows where its client calls from and nothing else.
pub proof fn law_connecting(peer_ip: Option<IpAddress>, conn: Connection)
    requires
        call_ensures(Connection::new, (peer_ip,), conn),
    ensures
        conn.peer_ip == peer_ip,
        conn.authed_id is None,
        conn.pending_challenge is None,
        conn.stage is Idle,
{
}

/// What the server says decides a login and a registration, and the server's
/// reason is handed on as it is.
pub proof fn law_outcomes(
    reply: ServerMessage,
    login: Result<(), RequestError>,
    identity: &mut LocalIdentity,
    registration: Result<(), RequestError>,
    reason: &str,
    refusal: String,
)
    requires
        call_ensures(login_outcome, (reply,), login),
        call_ensures(registration_outcome, (identity, reply), registration),
        call_ensures(registration_refusal, (reason,), refusal),
    ensures
        login is Ok <==> reply is LoginSuccess,
        reply matches ServerMessage::LoginError { reason: r } ==> (login matches Err(
            RequestError::Refused(s),
        ) && s == r),
        registration is Ok <==> reply is RegistrationSuccess,
        reply matches ServerMessage::RegistrationError { reason: r } ==> (registration matches Err(
            RequestError::Refused(s),
        ) && s == r),
        reply matches ServerMessage::RegistrationSuccess { diddy_id, signature } ==> final(identity).diddy_id == Some(diddy_id) && (final(identity).server_signature matches Some(s) && s@
            == signature@),
        registration is Err ==> *final(identity) == *old(identity),
        final(identity).pubkey == old(identity).pubkey,
        final(identity).signing_key == old(identity).signing_key,
        refusal@ == "registration failed: "@ + reason@,
{
}

// ---------------------------------------------------------------------------
// Two peers who meet
// ---------------------------------------------------------------------------

/// A call from beginning to end. The caller shows its own id, key and server
/// signature; the one who is called shows theirs and asks for proof; the
/// caller's proof is its signature on what was asked. Each side ends up with the
/// other's id and key, and with the product of its own secret and the other's
/// half of the key.
pub proof fn law_meeting(
    caller: &LocalIdentity,
    caller_secret: EphemeralSecret,
    called: &LocalIdentity,
    called_secret: EphemeralSecret,
    server_pubkey: &[u8; 32],
    challenge: [u8; 32],
    call: (Initiator, Packet),
    response: (Responder, Packet),
    answer: (Session, Packet),
    session: Session,
)
    requires
        caller.diddy_id is Some,
        caller.server_signature is Some,
        caller.signing_key is Some,
        called.diddy_id is Some,
        called.server_signature is Some,
        call_ensures(initiate_with, (caller, caller_secret), call),
        call_ensures(
            respond_with,
            (called, &call.1, server_pubkey, challenge, called_secret),
            Ok(response),
        ),
        call_ensures(
            Initiator::answer_with,
            (call.0, caller, &response.1, server_pubkey),
            Ok(answer),
        ),
        call_ensures(Responder::finish, (response.0, &answer.1), Ok(session)),
    ensures
        session.peer_id == caller.diddy_id->0,
        session.peer_pubkey == caller.pubkey,
        answer.0.peer_id == called.diddy_id->0,
        answer.0.peer_pubkey == called.pubkey,
        session.key@ == x25519_product(
            called_secret.bytes@,
            x25519_public_key(caller_secret.bytes@),
        ),
        answer.0.key@ == x25519_product(
            caller_secret.bytes@,
            x25519_public_key(called_secret.bytes@),
        ),
        session.key@ == answer.0.key@,
        session.peer_id as nat == diddy_id_of(caller.pubkey@),
        answer.0.peer_id as nat == diddy_id_of(called.pubkey@),
        ed25519_verifies(
            caller.pubkey@,
            challenge@,
            ed25519_signature(caller.signing_key->0@, challenge@),
        ),
        ed25519_verifies(
            server_pubkey@,
            caller.pubkey@,
            caller.server_signature->0@.take(64),
        ),
        ed25519_verifies(
            server_pubkey@,
            called.pubkey@,
            called.server_signature->0@.take(64),
        ),
{
    law_both_sides_agree(
        caller_secret.bytes@,
        called_secret.bytes@,
        answer.0.key@,
        session.key@,
    );
}

/// Nobody who gives no proof, or the proof of another key, gets a session.
pub proof fn law_proving(
    responder: Responder,
    packet: &Packet,
    out: Result<Session, HandshakeError>,
)
    requires
        call_ensures(Responder::finish, (responder, packet), out),
    ensures
        out is Ok <==> (packet matches Packet::ChallengeResponse { signature } && ed25519_verifies(
            responder.peer.pubkey@,
            responder.challenge@,
            signature@,
        )),
        packet !is ChallengeResponse ==> (out matches Err(e) && e
            == HandshakeError::ExpectedChallengeResponse),
{
}

/// Whoever asks for what it missed is given what the other side wrote since, and
/// only that, from the oldest to the newest.
pub proof fn law_catching_up(
    mine: &Vec<Vec<u8>>,
    request: Packet,
    since: u64,
    theirs: &Vec<Vec<u8>>,
    their_id: u128,
    gift: Packet,
    chats: Vec<ChatMessage>,
)
    requires
        call_ensures(sync_request, (mine,), Ok(request)),
        call_ensures(requested_since, (&request,), Ok(since)),
        call_ensures(sync_give, (theirs, since, their_id), Ok(gift)),
        call_ensures(given, (gift,), Ok(chats)),
    ensures
        forall|i: int|
            0 <= i < mine@.len() ==> (stored_in((#[trigger] mine@[i])@) matches Some(m)
                && m.timestamp <= since),
        since > 0 ==> exists|i: int|
            0 <= i < mine@.len() && stored_in((#[trigger] mine@[i])@)->0.timestamp == since,
        forall|i: int|
            0 <= i < chats@.len() ==> (#[trigger] chats@[i]).from == their_id
                && chats@[i].timestamp > since,
        forall|i: int, j: int|
            0 <= i <= j < chats@.len() ==> (#[trigger] chats@[i]).timestamp <= (
            #[trigger] chats@[j]).timestamp,
        forall|i: int|
            0 <= i < theirs@.len() ==> {
                let m = stored_in((#[trigger] theirs@[i])@)->0;
                m.timestamp > since && m.sender_id == their_id && m.nonce.len() == 12
                    && m.signature.len() == 64 ==> exists|j: int|
                    0 <= j < chats@.len() && (#[trigger] chats@[j]).timestamp == m.timestamp
                        && id_in(m.id) == Some(chats@[j].id@) && chats@[j].to == m.peer_id
                        && chats@[j].nonce@ == m.nonce && chats@[j].ciphertext@ == m.ciphertext
                        && chats@[j].signature@ == m.signature
            },
{
    let msgs = messages_in(entry_seqs(theirs@));
    let written = to_give(msgs, since, their_id);
    law_messages_in(theirs@);
    law_wire_form(written);
    assert(gift@ == PacketView::SyncGive(chat_views(chats@)));
    assert forall|i: int| 0 <= i < theirs@.len() implies ({
        let m = stored_in((#[trigger] theirs@[i])@)->0;
        m.timestamp > since && m.sender_id == their_id && m.nonce.len() == 12 && m.signature.len()
            == 64 ==> exists|j: int|
            0 <= j < chats@.len() && (#[trigger] chats@[j]).timestamp == m.timestamp && id_in(m.id)
                == Some(chats@[j].id@) && chats@[j].to == m.peer_id && chats@[j].nonce@ == m.nonce
                && chats@[j].ciphertext@ == m.ciphertext && chats@[j].signature@ == m.signature
    }) by {
        let m = stored_in(theirs@[i]@)->0;
        if m.timestamp > since && m.sender_id == their_id && m.nonce.len() == 12
            && m.signature.len() == 64 {
            assert(msgs[i] == m);
            assert(msgs.contains(m));
            law_given_messages(msgs, since, their_id, m);
            let j = choose|j: int| 0 <= j < written.len() && written[j] == m;
            assert(chat_views(chats@)[j] == chats_of(written)[j]);
            assert(chats@[j]@ == chats_of(written)[j]);
            assert(chats@[j].timestamp == m.timestamp);
        }
    }
}

/// A message that was given is taken in as if it had come on its own, but only
/// if it is not kept already.
pub proof fn law_taking_in(
    chat: &ChatMessage,
    known: bool,
    peer_pubkey: &[u8; 32],
    key: &[u8; 32],
    peer_id: u128,
    my_id: u128,
    taken: Option<Incoming>,
    read: Option<Incoming>,
)
    requires
        call_ensures(take_in, (chat, known, peer_pubkey, key, peer_id, my_id), taken),
        call_ensures(read_chat, (chat, peer_pubkey, key, peer_id, my_id), read),
    ensures
        known ==> taken is None,
        !known ==> (taken is Some <==> read is Some),
        taken matches Some(i) ==> i.stored@ == read->0.stored@ && i.display@ == read->0.display@,
        taken matches Some(i) ==> received_text(chat@, peer_pubkey@, key@) == Some(i.stored.body@),
{
}

// ---------------------------------------------------------------------------
// Messages at rest
// ---------------------------------------------------------------------------

/// A message that is written down is read as it was written, and marking it as
/// delivered changes nothing but the mark.
pub proof fn law_writing_and_reading(
    m: &StoredMessage,
    bytes: Vec<u8>,
    entry: &[u8],
    read: Result<StoredMessage, CorruptEntry>,
    updated: Vec<u8>,
    marked_entry: &[u8],
    marked: Result<StoredMessage, CorruptEntry>,
)
    requires
        call_ensures(StoredMessage::to_bytes, (m,), bytes),
        entry@ == bytes@,
        call_ensures(StoredMessage::from_bytes, (entry,), read),
        call_ensures(mark_not_pending, (entry,), Ok(updated)),
        marked_entry@ == updated@,
        call_ensures(StoredMessage::from_bytes, (marked_entry,), marked),
    ensures
        read matches Ok(r) && {
            &&& r.id@ == m.id@
            &&& r.peer_id == m.peer_id
            &&& r.sender_id == m.sender_id
            &&& r.body@ == m.body@
            &&& r.timestamp == m.timestamp
            &&& r.nonce@ == m.nonce@
            &&& r.ciphertext@ == m.ciphertext@
            &&& r.signature@ == m.signature@
            &&& r.pending == m.pending
        },
        marked matches Ok(r) && {
            &&& r.id@ == m.id@
            &&& r.peer_id == m.peer_id
            &&& r.sender_id == m.sender_id
            &&& r.body@ == m.body@
            &&& r.timestamp == m.timestamp
            &&& r.nonce@ == m.nonce@
            &&& r.ciphertext@ == m.ciphertext@
            &&& r.signature@ == m.signature@
            &&& !r.pending
        },
{
}

/// Two messages are kept under one key only if they were exchanged with one
/// peer under one id, and a message is kept under the key of its peer and id.
pub proof fn law_keys(
    peer_a: u128,
    id_a: &str,
    key_a: Vec<u8>,
    peer_b: u128,
    id_b: &str,
    key_b: Vec<u8>,
    m: &StoredMessage,
    key_m: Vec<u8>,
)
    requires
        call_ensures(message_key, (peer_a, id_a), key_a),
        call_ensures(message_key, (peer_b, id_b), key_b),
        call_ensures(StoredMessage::key, (m,), key_m),
    ensures
        key_a@ == key_b@ <==> peer_a == peer_b && id_a@ == id_b@,
        key_a@ == key_m@ <==> peer_a == m.peer_id && id_a@ == m.id@,
        key_a@ == encode_utf8(decimal(peer_a as nat) + seq!['_'] + id_a@),
{
    if key_a@ == key_b@ {
        law_keys_distinct(peer_a, id_a@, peer_b, id_b@);
    }
    if key_a@ == key_m@ {
        law_keys_distinct(peer_a, id_a@, m.peer_id, m.id@);
    }
}

/// What is newer than the latest message is nothing; everything that is found
/// is newer than was asked for, or undelivered and from whom was asked for, and
/// stands in the order of time.
pub proof fn law_asking_the_table(
    entries: &Vec<Vec<u8>>,
    since: u64,
    newer: Vec<StoredMessage>,
    sender_id: u128,
    undelivered: Vec<StoredMessage>,
    latest: u64,
)
    requires
        call_ensures(messages_since, (entries, since), Ok(newer)),
        call_ensures(pending_for, (entries, sender_id), Ok(undelivered)),
        call_ensures(latest_timestamp, (entries,), Ok(latest)),
    ensures
        forall|i: int| 0 <= i < newer@.len() ==> (#[trigger] newer@[i]).timestamp > since,
        forall|i: int, j: int|
            0 <= i <= j < newer@.len() ==> (#[trigger] newer@[i]).timestamp <= (
            #[trigger] newer@[j]).timestamp,
        forall|i: int|
            0 <= i < undelivered@.len() ==> (#[trigger] undelivered@[i]).pending
                && undelivered@[i].sender_id == sender_id,
        forall|i: int, j: int|
            0 <= i <= j < undelivered@.len() ==> (#[trigger] undelivered@[i]).timestamp <= (
            #[trigger] undelivered@[j]).timestamp,
        forall|i: int|
            0 <= i < entries@.len() ==> (stored_in((#[trigger] entries@[i])@) matches Some(m)
                && m.timestamp <= latest),
        forall|i: int|
            0 <= i < entries@.len() && stored_in((#[trigger] entries@[i])@)->0.timestamp > since
                ==> exists|j: int|
                0 <= j < newer@.len() && (#[trigger] newer@[j])@ == stored_in(entries@[i]@)->0,
        forall|i: int|
            0 <= i < entries@.len() && stored_in((#[trigger] entries@[i])@)->0.pending
                && stored_in(entries@[i]@)->0.sender_id == sender_id ==> exists|j: int|
                0 <= j < undelivered@.len() && (#[trigger] undelivered@[j])@ == stored_in(
                    entries@[i]@,
                )->0,
        since >= latest ==> newer@.len() == 0,
{
    let msgs = messages_in(entry_seqs(entries@));
    let found = stored_views(newer@);
    let waiting = stored_views(undelivered@);
    law_messages_in(entries@);
    assert forall|i: int|
        0 <= i < entries@.len() && stored_in(
            (#[trigger] entries@[i])@,
        )->0.timestamp > since implies exists|j: int|
        0 <= j < newer@.len() && (#[trigger] newer@[j])@ == stored_in(entries@[i]@)->0 by {
        let m = stored_in(entries@[i]@)->0;
        assert(msgs[i] == m);
        assert(msgs.contains(m));
        law_messages_since(msgs, since, m);
        let j = choose|j: int| 0 <= j < found.len() && found[j] == m;
        assert(newer@[j]@ == m);
    }
    assert forall|i: int|
        0 <= i < entries@.len() && stored_in((#[trigger] entries@[i])@)->0.pending && stored_in(
            entries@[i]@,
        )->0.sender_id == sender_id implies exists|j: int|
        0 <= j < undelivered@.len() && (#[trigger] undelivered@[j])@ == stored_in(
            entries@[i]@,
        )->0 by {
        let m = stored_in(entries@[i]@)->0;
        assert(msgs[i] == m);
        assert(msgs.contains(m));
        law_pending_messages(msgs, sender_id, m);
        let j = choose|j: int| 0 <= j < waiting.len() && waiting[j] == m;
        assert(undelivered@[j]@ == m);
    }
    if since >= latest && newer@.len() > 0 {
        let m = newer@[0]@;
        assert(found[0] == m);
        assert(found.contains(m));
        law_messages_since(msgs, since, m);
        let i = choose|i: int| 0 <= i < msgs.len() && msgs[i] == m;
        assert(stored_in(entries@[i]@)->0.timestamp <= latest);
    }
}

/// The messages of one's own go over the wire each in its place, with every
/// part of it.
pub proof fn law_giving(msgs: &Vec<StoredMessage>, my_id: u128, chats: Vec<ChatMessage>)
    requires
        call_ensures(chats_to_give, (msgs, my_id), Ok(chats)),
    ensures
        forall|i: int| 0 <= i < chats@.len() ==> (#[trigger] chats@[i]).from == my_id,
{
}

// ---------------------------------------------------------------------------
// Bytes and numbers
// ---------------------------------------------------------------------------

/// What is sealed is opened by the same key and nonce, to what it was.
pub proof fn law_sealing_and_opening(
    key: &[u8; 32],
    nonce: &[u8; 12],
    plaintext: &[u8],
    sealed: Vec<u8>,
    ciphertext: &[u8],
    opened: Result<Vec<u8>, DecryptError>,
    fresh: ([u8; 12], Vec<u8>),
)
    requires
        plaintext@.len() <= 274_877_906_816,
        call_ensures(encrypt_with_nonce, (key, nonce, plaintext), sealed),
        ciphertext@ == sealed@,
        call_ensures(decrypt_message, (key, nonce, ciphertext), opened),
        call_ensures(encrypt_message, (key, plaintext), fresh),
    ensures
        sealed@ == chacha_seal(key@, nonce@, plaintext@),
        sealed@.len() == plaintext@.len() + 16,
        opened matches Ok(p) && p@ == plaintext@,
        fresh.1@ == chacha_seal(key@, fresh.0@, plaintext@),
        chacha_open(key@, fresh.0@, fresh.1@) == Some(plaintext@),
{
}

/// A signature is accepted under the signer's public key and on what was signed;
/// whether any is depends on all of key, message and signature.
pub proof fn law_signing_and_verifying(
    seed: &[u8; 32],
    msg: &[u8],
    signature: [u8; 64],
    pubkey: &[u8; 32],
    verdict: Result<(), SignatureError>,
    server_pubkey: &[u8; 32],
    vouching: Result<(), SignatureError>,
)
    requires
        call_ensures(sign_message, (seed, msg), signature),
        call_ensures(verify_message_sig, (pubkey, msg, &signature), verdict),
        call_ensures(verify_diddy, (pubkey, &signature, server_pubkey), vouching),
    ensures
        signature@ == ed25519_signature(seed@, msg@),
        verdict is Ok <==> ed25519_verifies(pubkey@, msg@, signature@),
        pubkey@ == ed25519_public_key(seed@) && !null_commitment(signature@) ==> verdict is Ok,
        vouching is Ok <==> ed25519_verifies(server_pubkey@, pubkey@, signature@),
{
}

/// Two peers who exchange the public keys of their secrets agree on one key.
pub proof fn law_agreeing(
    secret_a: EphemeralSecret,
    secret_b: EphemeralSecret,
    pub_a: &[u8; 32],
    pub_b: &[u8; 32],
    shared_a: [u8; 32],
    shared_b: [u8; 32],
)
    requires
        call_ensures(EphemeralSecret::public_key, (&secret_a,), *pub_a),
        call_ensures(EphemeralSecret::public_key, (&secret_b,), *pub_b),
        call_ensures(derive_shared_secret, (secret_a, pub_b), shared_a),
        call_ensures(derive_shared_secret, (secret_b, pub_a), shared_b),
    ensures
        shared_a@ == shared_b@,
        shared_a@ == x25519_product(secret_a.bytes@, pub_b@),
{
    law_both_sides_agree(secret_a.bytes@, secret_b.bytes@, shared_a@, shared_b@);
}

/// The id that goes with a key is how the digest of the key begins.
pub proof fn law_naming(pubkey: &[u8; 32], id: u128)
    requires
        call_ensures(compute_diddy_id, (pubkey,), id),
    ensures
        le_bytes(id as nat, 16) == blake3_digest(pubkey@).take(16),
        id as nat == diddy_id_of(pubkey@),
{
}

/// A number is written so that it is read as the same number; an identifier of a
/// message too.
pub proof fn law_texts_read_back(
    n: u128,
    text: String,
    typed: &str,
    read: Option<u128>,
    id: &[u8; 16],
    spelled: String,
    given_text: &str,
    parsed: Result<[u8; 16], InvalidId>,
)
    requires
        call_ensures(decimal_string, (n,), text),
        typed@ == text@,
        call_ensures(parse_u128, (typed,), read),
        call_ensures(id_text, (id,), spelled),
        given_text@ == spelled@,
        call_ensures(parse_id, (given_text,), parsed),
    ensures
        read == Some(n),
        parsed matches Ok(p) && p@ == id@,
{
    law_decimal_reads_back(n as nat);
}

/// Ids are filed under sixteen bytes that tell them apart.
pub proof fn law_filing(a: u128, key_a: [u8; 16], b: u128, key_b: [u8; 16])
    requires
        call_ensures(u128_to_bytes, (a,), key_a),
        call_ensures(u128_to_bytes, (b,), key_b),
    ensures
        key_a@ == key_b@ <==> a == b,
        key_a@[15] as nat == a as nat % 256,
{
    lemma_pow256_values();
    if key_a@ == key_b@ {
        lemma_be_injective(a as nat, b as nat, 16);
    }
    lemma_be_bytes_len(a as nat / 256, 15);
}

/// Whoever reads the header of a framed message learns how long the message is,
/// if it is not too long, and what stands behind the header is the message.
pub proof fn law_framing(
    body: &[u8],
    framed: Vec<u8>,
    header: &[u8; 4],
    len: Result<usize, MessageTooLarge>,
)
    requires
        body@.len() < 0x1_0000_0000,
        call_ensures(frame_message, (body,), framed),
        header@ == framed@.take(4),
        call_ensures(read_header, (header,), len),
    ensures
        framed@.skip(4) == body@,
        body@.len() <= 1_048_576 ==> (len matches Ok(n) && n == body@.len()),
        body@.len() > 1_048_576 ==> len is Err,
{
    assert(header@[0] == framed@[0]);
    assert(header@[1] == framed@[1]);
    assert(header@[2] == framed@[2]);
    assert(header@[3] == framed@[3]);
}

/// An address is read from its bytes as it was.
pub proof fn law_addresses(ip: IpAddress, octets: Vec<u8>, read: Option<IpAddress>)
    requires
        call_ensures(IpAddress::octets, (&ip,), octets),
        call_ensures(IpAddress::from_octets, (&octets,), read),
    ensures
        match ip {
            IpAddress::V4(a) => read matches Some(IpAddress::V4(b)) && b@ == a@,
            IpAddress::V6(a) => read matches Some(IpAddress::V6(b)) && b@ == a@,
        },
{
}

/// The server's keypair is read from its file as it was; its public key belongs
/// to its signing key.
pub proof fn law_keypairs(
    seed: [u8; 32],
    keypair: Keypair,
    bytes: Vec<u8>,
    read: Option<Keypair>,
)
    requires
        call_ensures(Keypair::from_seed, (seed,), keypair),
        call_ensures(Keypair::to_bytes, (&keypair,), bytes),
        call_ensures(Keypair::from_bytes, (&bytes,), read),
    ensures
        keypair.seed == seed,
        keypair.pubkey@ == ed25519_public_key(seed@),
        read matches Some(k) && k.seed@ == seed@ && k.pubkey@ == keypair.pubkey@,
{
}

/// A row of a table is read column by column, each into its place.
pub proof fn law_rows(
    id: &Vec<u8>,
    pubkey: &Vec<u8>,
    salt: &Vec<u8>,
    pwd_hash: &Vec<u8>,
    signature: &Vec<u8>,
    created_at: i64,
    record: DiddyRecord,
    diddy_id: &Vec<u8>,
    ip: Vec<u8>,
    tcp_port: u16,
    udp_port: u16,
    last_seen: i64,
    ann: PeerAnnouncement,
)
    requires
        call_ensures(
            record_from_row,
            (id, pubkey, salt, pwd_hash, signature, created_at),
            record,
        ),
        call_ensures(announcement_from_row, (diddy_id, ip, tcp_port, udp_port, last_seen), ann),
    ensures
        record.id@ == id@,
        record.pubkey@ == pubkey@,
        record.salt@ == salt@,
        record.pwd_hash@ == pwd_hash@,
        record.signature@ == signature@,
        record.created_at == created_at,
        diddy_id@.len() == 16 ==> ann.diddy_id@ == diddy_id@,
        ann.ip@ == ip@,
        ann.tcp_port == tcp_port,
        ann.udp_port == udp_port,
        ann.last_seen == last_seen,
{
}

// ---------------------------------------------------------------------------
// What is typed
// ---------------------------------------------------------------------------

/// Trimming takes white space from either end of a text, and nothing else; what
/// is left neither begins nor ends with white space, and trimming it again
/// changes nothing.
pub proof fn law_trimming(line: &str, out: &str, again: &str)
    requires
        call_ensures(trim, (line,), out),
        call_ensures(trim, (out,), again),
    ensures
        exists|from: int, to: int|
            0 <= from <= to <= line@.len() && out@ == #[trigger] line@.subrange(from, to) && (forall|
                i: int,
            |
                (0 <= i < from || to <= i < line@.len()) ==> is_white(#[trigger] line@[i])),
        out@.len() > 0 ==> !is_white(out@[0]) && !is_white(out@.last()),
        again@ == out@,
{
    law_trimmed(line@);
}

/// The words of a text are those before a white space and then those behind it;
/// a text without white space is one word.
pub proof fn law_splitting(
    line: &str,
    white: char,
    front: &str,
    back: &str,
    all: Vec<String>,
    first: Vec<String>,
    rest: Vec<String>,
)
    requires
        line@ == front@ + seq![white] + back@,
        is_white(white),
        call_ensures(words, (line,), all),
        call_ensures(words, (front,), first),
        call_ensures(words, (back,), rest),
    ensures
        all@.len() == first@.len() + rest@.len(),
        forall|i: int| 0 <= i < first@.len() ==> (#[trigger] all@[i])@ == first@[i]@,
        forall|i: int|
            0 <= i < rest@.len() ==> (#[trigger] rest@[i])@ == all@[first@.len() + i]@,
        (forall|i: int| 0 <= i < front@.len() ==> !is_white(#[trigger] front@[i])) && front@.len()
            > 0 ==> first@.len() == 1 && first@[0]@ == front@,
{
    law_words_are_parted(front@, white, back@);
    if (forall|i: int| 0 <= i < front@.len() ==> !is_white(#[trigger] front@[i])) && front@.len()
        > 0 {
        law_one_word(front@);
    }
}

/// A line is the command that its first word names. A port is the number that
/// the second word spells, if it is that of a port, and 7331 if not; a peer is
/// the number that the second word spells; an address is the second word.
pub proof fn law_commanding(line: &str, command: Option<Command>)
    requires
        call_ensures(parse_command, (line,), command),
    ensures
        ({
            let w = words_of(line@);
            let n = parsed_decimal(w[1]);
            let numbered = w.len() > 1 && n is Some;
            &&& command is None <==> w.len() == 0
            &&& w.len() > 0 && w[0] == "help"@ ==> (command matches Some(Command::Help))
            &&& w.len() > 0 && w[0] == "listen"@ ==> (command matches Some(
                Command::Listen { port },
            ) && port as nat == if numbered && n->0 <= 65535 {
                n->0
            } else {
                7331
            })
            &&& w.len() > 0 && w[0] == "chat"@ && numbered && n->0 <= u128::MAX ==> (
            command matches Some(Command::Chat { target }) && target as nat == n->0)
            &&& w.len() > 0 && w[0] == "chat"@ && !(numbered && n->0 <= u128::MAX)
                ==> (command matches Some(Command::ChatUsage))
            &&& w.len() > 1 && w[0] == "connect"@ ==> (command matches Some(
                Command::Connect { addr },
            ) && addr@ == w[1])
            &&& w.len() == 1 && w[0] == "connect"@ ==> (command matches Some(Command::ConnectUsage))
            &&& w.len() > 0 && w[0] == "quit"@ ==> (command matches Some(Command::Quit))
            &&& w.len() > 0 && w[0] != "help"@ && w[0] != "listen"@ && w[0] != "chat"@ && w[0]
                != "connect"@ && w[0] != "quit"@ ==> (command matches Some(
                Command::Unknown { name },
            ) && name@ == w[0])
        }),
{
    reveal_strlit("connect");
    reveal_strlit("quit");
    reveal_strlit("chat");
    reveal_strlit("help");
    reveal_strlit("listen");
    assert("connect"@.len() == 7 && "listen"@.len() == 6 && "quit"@.len() == 4);
    assert("quit"@[0] == 'q' && "help"@[0] == 'h' && "chat"@[0] == 'c');
}

// ---------------------------------------------------------------------------
// Judging and opening
// ---------------------------------------------------------------------------

/// A message is signed if its signature is its sender's on all of it but the
/// signature, and its text is what its key opens it to.
pub proof fn law_judging_a_message(
    chat: &ChatMessage,
    pubkey: &[u8; 32],
    verdict: Result<(), SignatureError>,
    key: &[u8; 32],
    body: Result<String, DecryptError>,
    bytes: Vec<u8>,
)
    requires
        call_ensures(verify_chat, (chat, pubkey), verdict),
        call_ensures(decrypt_body, (chat, key), body),
        call_ensures(signed_bytes, (chat,), bytes),
    ensures
        verdict is Ok <==> ed25519_verifies(pubkey@, bytes@, chat.signature@),
        bytes@ == chat_bytes(
            ChatView {
                id: chat.id@,
                from: chat.from,
                to: chat.to,
                timestamp: chat.timestamp,
                nonce: chat.nonce@,
                ciphertext: chat.ciphertext@,
                signature: Seq::new(64, |i: int| 0u8),
            },
        ),
        body is Ok <==> chat.ciphertext@.len() <= 274_877_906_832 && chacha_open(
            key@,
            chat.nonce@,
            chat.ciphertext@,
        ) is Some,
        body matches Ok(t) ==> ({
            let p = chacha_open(key@, chat.nonce@, chat.ciphertext@)->0;
            &&& valid_utf8(p) ==> t@ == decode_utf8(p)
            &&& !valid_utf8(p) ==> t@ == utf8_replaced(p)
        }),
{
}

/// There is a notice exactly for what the server passes on and what holds a
/// message, and it names who sent it.
pub proof fn law_noticing(
    from_diddy_id: u128,
    payload: Vec<u8>,
    bytes: &[u8],
    chat: Option<ChatMessage>,
    notice: Option<String>,
    other: &ServerMessage,
    of_other: Option<String>,
)
    requires
        call_ensures(
            relay_notice,
            (&ServerMessage::RelayForward { from_diddy_id, payload },),
            notice,
        ),
        bytes@ == payload@,
        call_ensures(chat_from_payload, (bytes,), chat),
        other !is RelayForward,
        call_ensures(relay_notice, (other,), of_other),
    ensures
        notice is Some <==> chat is Some,
        notice matches Some(n) ==> n@ == "\n[msg from "@ + decimal(from_diddy_id as nat) + "]"@,
        of_other is None,
        chat matches Some(c) ==> (chat_in(payload@) matches Some(v) && c.id@ == v.id && c.from
            == v.from && c.to == v.to && c.timestamp == v.timestamp && c.nonce@ == v.nonce
            && c.ciphertext@ == v.ciphertext && c.signature@ == v.signature),
{
}

/// The first of three things that does not hold is why a signature is turned
/// down.
pub proof fn law_reasons(
    decodes: bool,
    reduced: bool,
    verifies: bool,
    verdict: Result<(), SignatureError>,
    signature: &[u8; 64],
    below: bool,
)
    requires
        call_ensures(judge, (decodes, reduced, verifies), verdict),
        call_ensures(is_reduced, (signature,), below),
    ensures
        verdict is Ok <==> decodes && reduced && verifies,
        !decodes ==> (verdict matches Err(e) && e is InvalidKey),
        decodes && !reduced ==> (verdict matches Err(e) && e is InvalidScalar),
        decodes && reduced && !verifies ==> (verdict matches Err(e) && e is Mismatch),
        below <==> le_value(signature@.subrange(32, 64))
            < 0x1000000000000000000000000000000014def9dea2f79cd65812631a5cf5d3ednat,
{
}

/// A claim shows the first sixty-four bytes of the signature that it brings, if
/// the id is the right one and there are that many.
pub proof fn law_claiming(
    id: u128,
    actual_id: u128,
    server_signature: &Vec<u8>,
    out: Result<[u8; 64], HandshakeError>,
)
    requires
        call_ensures(claimed_signature, (id, actual_id, server_signature), out),
    ensures
        out is Ok <==> id == actual_id && server_signature@.len() >= 64,
        out matches Ok(s) ==> s@ == server_signature@.subrange(0, 64),
        id != actual_id ==> (out matches Err(e) && e == HandshakeError::IdMismatch),
        id == actual_id && server_signature@.len() < 64 ==> (out matches Err(e) && e
            == HandshakeError::Unsigned),
{
    if server_signature@.len() >= 64 {
        assert(server_signature@.take(64) =~= server_signature@.subrange(0, 64));
    }
}

/// A signing key that was opened is taken over as it is; without one the
/// identity stays as it was.
pub proof fn law_taking_the_key(
    identity: &mut LocalIdentity,
    plaintext: Option<Vec<u8>>,
    out: Result<(), WrongPassword>,
)
    requires
        call_ensures(LocalIdentity::accept_opened, (identity, plaintext), out),
    ensures
        plaintext matches Some(p) ==> out is Ok && (final(identity).signing_key matches Some(k) && k@
            == p@),
        plaintext is None ==> out is Err && final(identity).signing_key == old(identity).signing_key,
        final(identity).pubkey == old(identity).pubkey,
        final(identity).encrypted_privkey == old(identity).encrypted_privkey,
        final(identity).nonce == old(identity).nonce,
        final(identity).salt == old(identity).salt,
        final(identity).diddy_id == old(identity).diddy_id,
        final(identity).server_signature == old(identity).server_signature,
{
}

/// Unlocking with care comes to the same as unlocking, but for what is no
/// signing key.
pub proof fn law_unlocking_with_care(
    identity: &mut LocalIdentity,
    password: &str,
    out: Option<Result<(), WrongPassword>>,
)
    requires
        call_ensures(LocalIdentity::unlock_checked, (identity, password), out),
    ensures
        ({
            let opened = chacha_open(
                argon2id_key(encode_utf8(password@), old(identity).salt@),
                old(identity).nonce@,
                old(identity).encrypted_privkey@,
            );
            let short = old(identity).encrypted_privkey@.len() <= 274_877_906_832;
            &&& short && (opened matches Some(p) && p.len() == 32) ==> (out matches Some(Ok(_)))
                && (final(identity).signing_key matches Some(k) && opened == Some(k@))
            &&& short && (opened matches Some(p) && p.len() != 32) ==> out is None
            &&& opened is None ==> (out matches Some(Err(_)))
            &&& !(out matches Some(Ok(_))) ==> final(identity).signing_key == old(identity).signing_key
        }),
        final(identity).pubkey == old(identity).pubkey,
        final(identity).encrypted_privkey == old(identity).encrypted_privkey,
{
}

/// Whoever is called answers as `respond_with` does, under the public key of the
/// one server, and calls as `initiate_with` does.
pub proof fn law_calling(
    identity: &LocalIdentity,
    packet: &Packet,
    out: Option<Result<(Responder, Packet), HandshakeError>>,
    call: (Initiator, Packet),
)
    requires
        identity.diddy_id is Some,
        identity.server_signature is Some,
        call_ensures(respond, (identity, packet), out),
        call_ensures(initiate, (identity,), call),
    ensures
        out is Some,
        out matches Some(Ok(r)) ==> {
            &&& packet is HandshakeInit
            &&& r.0.peer.id == packet->HandshakeInit_diddy_id
            &&& r.0.peer.pubkey == packet->HandshakeInit_identity_pubkey
            &&& r.0.peer.encryption_pubkey == packet->HandshakeInit_encryption_pubkey
            &&& r.0.peer.id as nat == diddy_id_of(r.0.peer.pubkey@)
            &&& ed25519_verifies(
                SERVER_PUBKEY@,
                r.0.peer.pubkey@,
                packet->HandshakeInit_server_signature@.take(64),
            )
            &&& r.1 is Challenge
            &&& r.1->Challenge_challenge == r.0.challenge
            &&& r.1->Challenge_diddy_id == identity.diddy_id->0
            &&& r.1->Challenge_identity_pubkey == identity.pubkey
            &&& r.1->Challenge_server_signature@ == identity.server_signature->0@
            &&& r.1->Challenge_encryption_pubkey@ == x25519_public_key(r.0.secret.bytes@)
        },
        call.1 is HandshakeInit,
        call.1->HandshakeInit_diddy_id == identity.diddy_id->0,
        call.1->HandshakeInit_identity_pubkey == identity.pubkey,
        call.1->HandshakeInit_server_signature@ == identity.server_signature->0@,
        call.1->HandshakeInit_encryption_pubkey@ == x25519_public_key(call.0.secret.bytes@),
{
}

/// Whoever has called answers as `answer_with` does, under the public key of the
/// one server.
pub proof fn law_answering(
    initiator: Initiator,
    identity: &LocalIdentity,
    packet: &Packet,
    out: Option<Result<(Session, Packet), HandshakeError>>,
)
    requires
        identity.signing_key is Some,
        call_ensures(Initiator::answer, (initiator, identity, packet), out),
    ensures
        out is Some,
        out matches Some(Ok(a)) ==> {
            &&& packet is Challenge
            &&& a.0.peer_id == packet->Challenge_diddy_id
            &&& a.0.peer_pubkey == packet->Challenge_identity_pubkey
            &&& a.0.peer_id as nat == diddy_id_of(a.0.peer_pubkey@)
            &&& ed25519_verifies(
                SERVER_PUBKEY@,
                a.0.peer_pubkey@,
                packet->Challenge_server_signature@.take(64),
            )
            &&& a.0.key@ == x25519_product(
                initiator.secret.bytes@,
                packet->Challenge_encryption_pubkey@,
            )
            &&& a.1 is ChallengeResponse
            &&& a.1->ChallengeResponse_signature@ == ed25519_signature(
                identity.signing_key->0@,
                packet->Challenge_challenge@,
            )
        },
{
}

} // verus!
