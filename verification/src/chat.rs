//! Chat messages between two peers: how one is composed, how a received one is
//! read, and how both are kept and shown.

use vstd::prelude::*;
use vstd::string::StringExecFns;
use vstd::utf8::{
    decode_utf8, encode_utf8, encode_utf8_decode_utf8, encode_utf8_valid_utf8, valid_utf8,
};

use crate::bytes::lemma_pow256_values;
use crate::bytes::{array_at, copy_bytes};
use crate::codec::{chat_bytes, chat_fits, chat_in, chat_with, law_chat_reads_back, law_chat_unique};
use crate::codec::{decode_chat, encode_chat};
use crate::crypto::{decrypt_message, encrypt_with_nonce, verify_message_sig};
use crate::crypto::{opened, signature_judged, DecryptError, SignatureError};
use crate::decimal::decimal;
use crate::decimal::decimal_string;
use crate::identity::LocalIdentity;
use crate::message_id::{fresh_id, id_text, parse_id, InvalidId};
use crate::message_id::{id_in, law_id_reads_back};
use crate::primitives::{chacha_nonce, text_from_utf8_lossy, MAX_PLAINTEXT};
use crate::primitives::{
    chacha_open, chacha_seal, ed25519_key_decodes, ed25519_public_key, ed25519_signature,
    ed25519_verifies, null_commitment, reduced_scalar, utf8_lossy, utf8_replaced, uuid_error,
    uuid_text,
};
use crate::protocol::{
    ChatMessage, ChatView, Packet, PacketView, ServerMessage, ServerMessageView,
};
use crate::store::{
    all_hold, by_time, entry_seqs, first_corrupt, messages_in, newer_than, stored_views, StoredView,
};
use crate::store::{messages_since, CorruptEntry, StoredMessage};
use crate::text::trim;
use crate::text::{text_views, trimmed};

verus! {

/// A packet that has no place where it arrived.
#[derive(Debug, Clone, Copy, PartialEq, Eq, Structural)]
pub struct UnexpectedPacket;

impl UnexpectedPacket {
    /// What to tell the user.
    pub fn message(&self) -> (text: String)
        ensures
            text@ == "unexpected packet in messaging loop"@,
    {
        "unexpected packet in messaging loop".to_owned()
    }
}

// ---------------------------------------------------------------------------
// Signatures
// ---------------------------------------------------------------------------

/// A signature's worth of zeros.
pub open spec fn no_signature() -> Seq<u8> {
    Seq::new(64, |i: int| 0u8)
}

/// What the sender of a message signs: the message in bytes, with zeros where
/// the signature will be.
pub open spec fn signed_form(c: ChatView) -> Seq<u8> {
    chat_bytes(ChatView { signature: no_signature(), ..c })
}

/// What the sender of a message signs.
pub fn signed_bytes(chat: &ChatMessage) -> (bytes: Vec<u8>)
    ensures
        bytes@ == signed_form(chat@),
{
    let zeros: [u8; 64] = [0u8; 64];
    assert(zeros@ =~= no_signature());
    encode_chat(chat, &zeros)
}

/// Checks that the holder of `pubkey` signed the message.
pub fn verify_chat(chat: &ChatMessage, pubkey: &[u8; 32]) -> (verdict: Result<(), SignatureError>)
    ensures
        verdict == signature_judged(pubkey@, signed_form(chat@), chat.signature@),
        verdict is Ok <==> ed25519_verifies(pubkey@, signed_form(chat@), chat.signature@),
{
    let bytes = signed_bytes(chat);
    verify_message_sig(pubkey, bytes.as_slice(), &chat.signature)
}

/// The bytes that a sender signs determine every part of the message but the
/// signature.
pub proof fn law_signature_covers_message(a: ChatView, b: ChatView)
    requires
        chat_fits(a),
        chat_fits(b),
        signed_form(a) == signed_form(b),
    ensures
        a == (ChatView { signature: a.signature, ..b }),
{
    lemma_pow256_values();
    law_chat_reads_back(ChatView { signature: no_signature(), ..a });
    law_chat_reads_back(ChatView { signature: no_signature(), ..b });
}

// ---------------------------------------------------------------------------
// Bodies
// ---------------------------------------------------------------------------

/// The text in a message, if `key` opens it.
pub open spec fn body_of(c: ChatView, key: Seq<u8>) -> Option<Seq<char>> {
    match opened(key, c.nonce, c.ciphertext) {
        Some(p) => Some(utf8_lossy(p)),
        None => None,
    }
}

/// The text in what a message was opened to.
pub fn body_from(plaintext: Result<Vec<u8>, DecryptError>) -> (body: Result<String, DecryptError>)
    ensures
        match plaintext {
            Ok(p) => body matches Ok(t) && t@ == utf8_lossy(p@),
            Err(_) => body is Err,
        },
        plaintext matches Ok(p) ==> (body matches Ok(t) && (valid_utf8(p@) ==> t@ == decode_utf8(
            p@,
        ))),
{
    match plaintext {
        Ok(p) => Ok(text_from_utf8_lossy(p.as_slice())),
        Err(e) => Err(e),
    }
}

/// The text in a message.
pub fn decrypt_body(chat: &ChatMessage, key: &[u8; 32]) -> (body: Result<String, DecryptError>)
    ensures
        match body {
            Ok(t) => body_of(chat@, key@) == Some(t@),
            Err(_) => body_of(chat@, key@) is None,
        },
        body is Ok <==> chat.ciphertext@.len() <= 274_877_906_832 && chacha_open(
            key@,
            chat.nonce@,
            chat.ciphertext@,
        ) is Some,
        body matches Ok(t) ==> t@ == utf8_lossy(
            chacha_open(key@, chat.nonce@, chat.ciphertext@)->0,
        ),
{
    body_from(decrypt_message(key, &chat.nonce, chat.ciphertext.as_slice()))
}

/// The text that a message from the holder of `pubkey` brings, if they signed
/// it and `key` opens it.
pub open spec fn received_text(c: ChatView, pubkey: Seq<u8>, key: Seq<u8>) -> Option<Seq<char>> {
    if signature_judged(pubkey, signed_form(c), c.signature) is Ok {
        body_of(c, key)
    } else {
        None
    }
}

proof fn lemma_text_survives(text: Seq<char>)
    ensures
        utf8_lossy(encode_utf8(text)) == text,
{
    encode_utf8_valid_utf8(text);
    encode_utf8_decode_utf8(text);
}

// ---------------------------------------------------------------------------
// Keeping
// ---------------------------------------------------------------------------

/// A chat message as it is kept.
pub open spec fn stored_of(c: ChatView, peer_id: u128, body: Seq<char>, pending: bool) -> StoredView {
    StoredView {
        id: uuid_text(c.id),
        peer_id,
        sender_id: c.from,
        body,
        timestamp: c.timestamp,
        nonce: c.nonce,
        ciphertext: c.ciphertext,
        signature: c.signature,
        pending,
    }
}

/// A stored message whose nonce and signature have the lengths they should.
pub open spec fn sound(m: StoredView) -> bool {
    m.nonce.len() == 12 && m.signature.len() == 64
}

/// A stored message as it goes over the wire, if its id is one.
pub open spec fn chat_of(m: StoredView) -> Option<ChatView> {
    match id_in(m.id) {
        Some(id) => Some(
            ChatView {
                id,
                from: m.sender_id,
                to: m.peer_id,
                timestamp: m.timestamp,
                nonce: m.nonce,
                ciphertext: m.ciphertext,
                signature: m.signature,
            },
        ),
        None => None,
    }
}

/// A chat message as it is kept.
pub fn stored_from_chat(
    chat: &ChatMessage,
    peer_diddy_id: u128,
    body: &str,
    pending: bool,
) -> (stored: StoredMessage)
    ensures
        stored@ == stored_of(chat@, peer_diddy_id, body@, pending),
        stored.id@ == uuid_text(chat.id@),
        stored.peer_id == peer_diddy_id,
        stored.sender_id == chat.from,
        stored.body@ == body@,
        stored.timestamp == chat.timestamp,
        stored.nonce@ == chat.nonce@,
        stored.ciphertext@ == chat.ciphertext@,
        stored.signature@ == chat.signature@,
        stored.pending == pending,
{
    StoredMessage {
        id: id_text(&chat.id),
        peer_id: peer_diddy_id,
        sender_id: chat.from,
        body: body.to_owned(),
        timestamp: chat.timestamp,
        nonce: copy_bytes(chat.nonce.as_slice()),
        ciphertext: copy_bytes(chat.ciphertext.as_slice()),
        signature: copy_bytes(chat.signature.as_slice()),
        pending,
    }
}

/// A stored message as it goes over the wire.
pub fn chat_from_stored(m: &StoredMessage) -> (chat: Result<ChatMessage, InvalidId>)
    requires
        id_in(m.id@) is Some ==> sound(m@),
    ensures
        match chat {
            Ok(c) => chat_of(m@) == Some(c@),
            Err(e) => chat_of(m@) is None && e.text@ == uuid_error(m.id@),
        },
        match chat {
            Ok(c) => {
                &&& id_in(m.id@) == Some(c.id@)
                &&& c.from == m.sender_id
                &&& c.to == m.peer_id
                &&& c.timestamp == m.timestamp
                &&& c.nonce@ == m.nonce@
                &&& c.ciphertext@ == m.ciphertext@
                &&& c.signature@ == m.signature@
            },
            Err(e) => id_in(m.id@) is None,
        },
{
    match parse_id(m.id.as_str()) {
        Ok(id) => {
            let nonce: [u8; 12] = array_at(m.nonce.as_slice(), 0);
            let signature: [u8; 64] = array_at(m.signature.as_slice(), 0);
            assert(m.nonce@.subrange(0, 12) =~= m.nonce@);
            assert(m.signature@.subrange(0, 64) =~= m.signature@);
            Ok(
                ChatMessage {
                    id,
                    from: m.sender_id,
                    to: m.peer_id,
                    timestamp: m.timestamp,
                    nonce,
                    ciphertext: copy_bytes(m.ciphertext.as_slice()),
                    signature,
                },
            )
        },
        Err(e) => Err(e),
    }
}

/// A message to a peer, kept and sent again later, is the message it was.
pub proof fn law_kept_message_is_sent_unchanged(c: ChatView, body: Seq<char>, pending: bool)
    requires
        c.id.len() == 16,
    ensures
        chat_of(stored_of(c, c.to, body, pending)) == Some(c),
{
    law_id_reads_back(c.id);
}

// ---------------------------------------------------------------------------
// Showing
// ---------------------------------------------------------------------------

/// A message as it is shown: who says it, then what they say.
pub open spec fn shown(sender_id: u128, my_id: u128, body: Seq<char>) -> Seq<char> {
    (if sender_id == my_id {
        "you"@
    } else {
        decimal(sender_id as nat)
    }) + ":\n"@ + body
}

/// A message as it is shown.
pub fn display_message(sender_id: u128, my_id: u128, body: &str) -> (text: String)
    ensures
        text@ == shown(sender_id, my_id, body@),
        sender_id == my_id ==> text@ == "you"@ + ":\n"@ + body@,
        sender_id != my_id ==> text@ == decimal(sender_id as nat) + ":\n"@ + body@,
{
    let mut text = if sender_id == my_id {
        "you".to_owned()
    } else {
        decimal_string(sender_id)
    };
    text.append(":\n");
    text.append(body);
    text
}

/// The messages of `msgs` as they are shown.
pub open spec fn all_shown(msgs: Seq<StoredView>, my_id: u128) -> Seq<Seq<char>> {
    msgs.map_values(|m: StoredView| shown(m.sender_id, my_id, m.body))
}

/// What has been said so far, as it is shown, out of what the table holds for a
/// peer: from the oldest to the newest.
pub fn history(entries: &Vec<Vec<u8>>, my_id: u128) -> (lines: Result<Vec<String>, CorruptEntry>)
    ensures
        match lines {
            Ok(l) => all_hold(entry_seqs(entries@)) && text_views(l@) == all_shown(
                by_time(messages_in(entry_seqs(entries@)).filter(newer_than(0))),
                my_id,
            ),
            Err(e) => first_corrupt(entry_seqs(entries@), e.text@),
        },
        lines matches Ok(l) ==> {
            let msgs = by_time(messages_in(entry_seqs(entries@)).filter(newer_than(0)));
            &&& l@.len() == msgs.len()
            &&& forall|i: int|
                0 <= i < l@.len() ==> (#[trigger] l@[i])@ == shown(
                    msgs[i].sender_id,
                    my_id,
                    msgs[i].body,
                )
        },
{
    let msgs = match messages_since(entries, 0) {
        Ok(msgs) => msgs,
        Err(e) => {
            return Err(e);
        },
    };
    let ghost views = stored_views(msgs@);
    let mut lines: Vec<String> = Vec::new();
    let mut i: usize = 0;
    assert(text_views(lines@) =~= all_shown(views.take(0), my_id));
    while i < msgs.len()
        invariant
            0 <= i <= msgs@.len(),
            views == stored_views(msgs@),
            text_views(lines@) == all_shown(views.take(i as int), my_id),
        decreases msgs@.len() - i,
    {
        let m = &msgs[i];
        let line = display_message(m.sender_id, my_id, m.body.as_str());
        proof {
            assert(views[i as int] == m@);
            assert(all_shown(views.take(i + 1), my_id) =~= all_shown(
                views.take(i as int),
                my_id,
            ).push(line@));
            assert(text_views(lines@.push(line)) =~= text_views(lines@).push(line@));
        }
        lines.push(line);
        i += 1;
    }
    assert(views.take(views.len() as int) =~= views);
    assert forall|j: int| 0 <= j < lines@.len() implies (#[trigger] lines@[j])@ == shown(
        views[j].sender_id,
        my_id,
        views[j].body,
    ) by {
        assert(text_views(lines@)[j] == lines@[j]@);
    }
    assert(text_views(lines@).len() == lines@.len());
    Ok(lines)
}

// ---------------------------------------------------------------------------
// Sending
// ---------------------------------------------------------------------------

/// A message ready to be sent, with the form in which it is kept until it has
/// been.
pub struct Outgoing {
    pub chat: ChatMessage,
    pub stored: StoredMessage,
}

/// The message that the holder of `seed` makes of a text.
pub open spec fn composed(
    seed: Seq<u8>,
    key: Seq<u8>,
    from: u128,
    to: u128,
    id: Seq<u8>,
    nonce: Seq<u8>,
    timestamp: u64,
    text: Seq<char>,
) -> ChatView {
    let draft = ChatView {
        id,
        from,
        to,
        timestamp,
        nonce,
        ciphertext: chacha_seal(key, nonce, encode_utf8(text)),
        signature: no_signature(),
    };
    ChatView { signature: ed25519_signature(seed, chat_bytes(draft)), ..draft }
}

/// The message that `identity` makes of `text` for the peer `to`, under a
/// given id and nonce.
pub fn compose_with(
    identity: &LocalIdentity,
    key: &[u8; 32],
    to: u128,
    id: [u8; 16],
    nonce: [u8; 12],
    timestamp: u64,
    text: &str,
) -> (out: Outgoing)
    requires
        identity.diddy_id is Some,
        identity.seed() is Some,
        encode_utf8(text@).len() <= MAX_PLAINTEXT,
    ensures
        out.chat@ == composed(
            identity.seed()->0,
            key@,
            identity.diddy_id->0,
            to,
            id@,
            nonce@,
            timestamp,
            text@,
        ),
        out.stored@ == stored_of(out.chat@, to, text@, true),
        !null_commitment(out.chat.signature@) ==> received_text(
            out.chat@,
            ed25519_public_key(identity.seed()->0),
            key@,
        ) == Some(text@),
        out.chat.id == id,
        out.chat.from == identity.diddy_id->0,
        out.chat.to == to,
        out.chat.timestamp == timestamp,
        out.chat.nonce == nonce,
        out.chat.ciphertext@ == chacha_seal(key@, out.chat.nonce@, encode_utf8(text@)),
        out.chat.signature@ == ed25519_signature(identity.signing_key->0@, signed_form(out.chat@)),
        out.stored.id@ == uuid_text(out.chat.id@),
        out.stored.peer_id == to,
        out.stored.sender_id == identity.diddy_id->0,
        out.stored.body@ == text@,
        out.stored.timestamp == timestamp,
        out.stored.nonce@ == out.chat.nonce@,
        out.stored.ciphertext@ == out.chat.ciphertext@,
        out.stored.signature@ == out.chat.signature@,
        out.stored.pending,
{
    let from: u128 = match identity.diddy_id {
        Some(id) => id,
        None => 0,
    };
    let mut chat = ChatMessage {
        id,
        from,
        to,
        timestamp,
        nonce,
        ciphertext: encrypt_with_nonce(key, &nonce, text.as_bytes()),
        signature: [0u8; 64],
    };
    let bytes = signed_bytes(&chat);
    chat.signature = identity.sign(bytes.as_slice());
    proof {
        lemma_text_survives(text@);
    }
    let stored = stored_from_chat(&chat, to, text, true);
    Outgoing { chat, stored }
}

/// What it takes to send `text`: nothing, if it is empty.
pub open spec fn can_compose(identity: &LocalIdentity, text: Seq<char>) -> bool {
    text.len() > 0 ==> {
        &&& identity.diddy_id is Some
        &&& identity.seed() is Some
        &&& encode_utf8(text).len() <= MAX_PLAINTEXT
    }
}

/// `out` is a message that `identity` makes of `text` for the peer `to`, under
/// some random id and some nonce, or nothing if the text is empty.
pub open spec fn composed_from(
    identity: &LocalIdentity,
    key: Seq<u8>,
    to: u128,
    timestamp: u64,
    text: Seq<char>,
    out: Option<Outgoing>,
) -> bool {
    match out {
        Some(o) => {
            let seed = identity.seed()->0;
            &&& text.len() > 0
            &&& o.chat@ == composed(
                seed,
                key,
                identity.diddy_id->0,
                to,
                o.chat.id@,
                o.chat.nonce@,
                timestamp,
                text,
            )
            &&& 0x40 <= o.chat.id@[6] < 0x50
            &&& 0x80 <= o.chat.id@[8] < 0xc0
            &&& o.stored@ == stored_of(o.chat@, to, text, true)
            &&& !null_commitment(o.chat.signature@) ==> received_text(
                o.chat@,
                ed25519_public_key(seed),
                key,
            ) == Some(text)
        },
        None => text.len() == 0,
    }
}

/// The message that `identity` makes of a text for the peer `to`, or nothing if
/// the text is empty. Its nonce is random, and so is its id but for the bits
/// that mark random identifiers.
pub fn compose(
    identity: &LocalIdentity,
    key: &[u8; 32],
    to: u128,
    timestamp: u64,
    text: &str,
) -> (out: Option<Outgoing>)
    requires
        can_compose(identity, text@),
    ensures
        composed_from(identity, key@, to, timestamp, text@, out),
        out is None <==> text@.len() == 0,
        out matches Some(o) ==> {
            &&& o.chat.from == identity.diddy_id->0
            &&& o.chat.to == to
            &&& o.chat.timestamp == timestamp
            &&& o.chat.ciphertext@ == chacha_seal(key@, o.chat.nonce@, encode_utf8(text@))
            &&& o.chat.signature@ == ed25519_signature(identity.signing_key->0@, signed_form(o.chat@))
            &&& o.stored.id@ == uuid_text(o.chat.id@)
            &&& o.stored.peer_id == to
            &&& o.stored.sender_id == identity.diddy_id->0
            &&& o.stored.body@ == text@
            &&& o.stored.timestamp == timestamp
            &&& o.stored.nonce@ == o.chat.nonce@
            &&& o.stored.ciphertext@ == o.chat.ciphertext@
            &&& o.stored.signature@ == o.chat.signature@
            &&& o.stored.pending
        },
{
    if text.is_empty() {
        return None;
    }
    Some(compose_with(identity, key, to, fresh_id(), chacha_nonce(), timestamp, text))
}

/// The message that `identity` makes of a line of input for the peer `to`: of
/// what is left of it without the white space at either end.
pub fn compose_line(
    identity: &LocalIdentity,
    key: &[u8; 32],
    to: u128,
    timestamp: u64,
    line: &str,
) -> (out: Option<Outgoing>)
    requires
        can_compose(identity, trimmed(line@)),
    ensures
        composed_from(identity, key@, to, timestamp, trimmed(line@), out),
        out is None <==> trimmed(line@).len() == 0,
        out matches Some(o) ==> {
            &&& o.chat.from == identity.diddy_id->0
            &&& o.chat.to == to
            &&& o.chat.timestamp == timestamp
            &&& o.chat.ciphertext@ == chacha_seal(key@, o.chat.nonce@, encode_utf8(trimmed(line@)))
            &&& o.chat.signature@ == ed25519_signature(identity.signing_key->0@, signed_form(o.chat@))
            &&& o.stored.id@ == uuid_text(o.chat.id@)
            &&& o.stored.peer_id == to
            &&& o.stored.sender_id == identity.diddy_id->0
            &&& o.stored.body@ == trimmed(line@)
            &&& o.stored.timestamp == timestamp
            &&& o.stored.nonce@ == o.chat.nonce@
            &&& o.stored.ciphertext@ == o.chat.ciphertext@
            &&& o.stored.signature@ == o.chat.signature@
            &&& o.stored.pending
        },
{
    compose(identity, key, to, timestamp, trim(line))
}

/// What became of a message that was to be sent.
pub enum Delivery {
    /// It has been sent: it is to be marked as delivered, and shown.
    Delivered { display: String },
    /// It has not been sent: it stays pending, and is not shown.
    Queued,
}

impl Outgoing {
    /// What became of the message, given whether it could be sent.
    pub fn written(&self, sent: bool) -> (delivery: Delivery)
        ensures
            if sent {
                delivery matches Delivery::Delivered { display } && display@ == shown(
                    self.chat.from,
                    self.chat.from,
                    self.stored.body@,
                )
            } else {
                delivery is Queued
            },
            delivery matches Delivery::Delivered { display } ==> display@ == "you"@ + ":\n"@
                + self.stored.body@,
    {
        if sent {
            let display = display_message(
                self.chat.from,
                self.chat.from,
                self.stored.body.as_str(),
            );
            Delivery::Delivered { display }
        } else {
            Delivery::Queued
        }
    }
}

// ---------------------------------------------------------------------------
// Receiving
// ---------------------------------------------------------------------------

/// A message that was accepted: the form in which it is kept and the text to
/// show.
pub struct Incoming {
    pub stored: StoredMessage,
    pub display: String,
}

/// What is to be done with an accepted message: what to keep, if anything, and
/// what to show.
pub struct Settled {
    pub store: Option<StoredMessage>,
    pub display: String,
}

/// `stored` and `display` are what an accepted message comes to.
pub open spec fn accepted_as(
    c: ChatView,
    peer_id: u128,
    my_id: u128,
    body: Seq<char>,
    incoming: Incoming,
) -> bool {
    &&& incoming.stored@ == stored_of(c, peer_id, body, false)
    &&& incoming.display@ == shown(c.from, my_id, body)
}

/// What to make of a message that was judged and opened.
pub fn accept(
    chat: &ChatMessage,
    verdict: Result<(), SignatureError>,
    body: Result<String, DecryptError>,
    peer_id: u128,
    my_id: u128,
) -> (incoming: Option<Incoming>)
    ensures
        match (verdict, body) {
            (Ok(_), Ok(t)) => incoming matches Some(i) && accepted_as(
                chat@,
                peer_id,
                my_id,
                t@,
                i,
            ),
            _ => incoming is None,
        },
        incoming is Some <==> verdict is Ok && body is Ok,
        incoming matches Some(i) ==> {
            &&& i.stored.id@ == uuid_text(chat.id@)
            &&& i.stored.peer_id == peer_id
            &&& i.stored.sender_id == chat.from
            &&& body matches Ok(t) && i.stored.body@ == t@
            &&& i.stored.timestamp == chat.timestamp
            &&& i.stored.nonce@ == chat.nonce@
            &&& i.stored.ciphertext@ == chat.ciphertext@
            &&& i.stored.signature@ == chat.signature@
            &&& !i.stored.pending
            &&& i.display@ == (if chat.from == my_id {
                "you"@
            } else {
                decimal(chat.from as nat)
            }) + ":\n"@ + i.stored.body@
        },
{
    match verdict {
        Ok(_) => match body {
            Ok(t) => {
                let stored = stored_from_chat(chat, peer_id, t.as_str(), false);
                let display = display_message(chat.from, my_id, t.as_str());
                Some(Incoming { stored, display })
            },
            Err(_) => None,
        },
        Err(_) => None,
    }
}

/// Reads a message from the peer who holds `peer_pubkey`. One that they did not
/// sign or that `key` does not open is passed over.
pub fn read_chat(
    chat: &ChatMessage,
    peer_pubkey: &[u8; 32],
    key: &[u8; 32],
    peer_id: u128,
    my_id: u128,
) -> (incoming: Option<Incoming>)
    ensures
        match received_text(chat@, peer_pubkey@, key@) {
            Some(body) => incoming matches Some(i) && accepted_as(chat@, peer_id, my_id, body, i),
            None => incoming is None,
        },
        incoming matches Some(i) ==> {
            &&& i.stored.id@ == uuid_text(chat.id@)
            &&& i.stored.peer_id == peer_id
            &&& i.stored.sender_id == chat.from
            &&& received_text(chat@, peer_pubkey@, key@) == Some(i.stored.body@)
            &&& i.stored.timestamp == chat.timestamp
            &&& i.stored.nonce@ == chat.nonce@
            &&& i.stored.ciphertext@ == chat.ciphertext@
            &&& i.stored.signature@ == chat.signature@
            &&& !i.stored.pending
            &&& i.display@ == (if chat.from == my_id {
                "you"@
            } else {
                decimal(chat.from as nat)
            }) + ":\n"@ + i.stored.body@
        },
{
    let verdict = verify_chat(chat, peer_pubkey);
    match verdict {
        Ok(_) => accept(chat, verdict, decrypt_body(chat, key), peer_id, my_id),
        Err(_) => None,
    }
}

/// Takes a packet from a peer in the middle of a conversation. Anything but a
/// message ends the conversation.
pub fn receive(
    packet: &Packet,
    peer_pubkey: &[u8; 32],
    key: &[u8; 32],
    peer_id: u128,
    my_id: u128,
) -> (incoming: Result<Option<Incoming>, UnexpectedPacket>)
    ensures
        match packet@ {
            PacketView::Message(c) => incoming matches Ok(found) && match received_text(
                c,
                peer_pubkey@,
                key@,
            ) {
                Some(body) => found matches Some(i) && accepted_as(c, peer_id, my_id, body, i),
                None => found is None,
            },
            _ => incoming is Err,
        },
        incoming is Ok <==> packet is Message,
        incoming matches Ok(Some(i)) ==> {
            let chat = packet->Message_0;
            &&& i.stored.id@ == uuid_text(chat.id@)
            &&& i.stored.peer_id == peer_id
            &&& i.stored.sender_id == chat.from
            &&& received_text(chat@, peer_pubkey@, key@) == Some(i.stored.body@)
            &&& i.stored.timestamp == chat.timestamp
            &&& i.stored.nonce@ == chat.nonce@
            &&& i.stored.ciphertext@ == chat.ciphertext@
            &&& i.stored.signature@ == chat.signature@
            &&& !i.stored.pending
            &&& i.display@ == (if chat.from == my_id {
                "you"@
            } else {
                decimal(chat.from as nat)
            }) + ":\n"@ + i.stored.body@
        },
{
    match packet {
        Packet::Message(chat) => Ok(read_chat(chat, peer_pubkey, key, peer_id, my_id)),
        _ => Err(UnexpectedPacket),
    }
}

impl Incoming {
    /// What is to be done with an accepted message, given whether it is kept
    /// already: it is kept once and shown in any case.
    pub fn settle(self, known: bool) -> (settled: Settled)
        ensures
            settled.display == self.display,
            settled.store == if known {
                None::<StoredMessage>
            } else {
                Some(self.stored)
            },
    {
        Settled {
            store: if known {
                None
            } else {
                Some(self.stored)
            },
            display: self.display,
        }
    }
}

// ---------------------------------------------------------------------------
// Messages that the server passes on
// ---------------------------------------------------------------------------

/// The message in a payload, if the payload begins with one.
pub open spec fn relayed(payload: Seq<u8>) -> Option<ChatView> {
    match chat_in(payload) {
        Some(c) => if c.id.len() == 16 && c.signature.len() == 64 {
            Some(c)
        } else {
            None
        },
        None => None,
    }
}

/// The message in a payload.
pub fn chat_from_payload(payload: &[u8]) -> (chat: Option<ChatMessage>)
    ensures
        match chat {
            Some(c) => relayed(payload@) == Some(c@),
            None => relayed(payload@) is None,
        },
        chat matches Some(c) ==> (chat_in(payload@) matches Some(v) && {
            &&& c.id@ == v.id
            &&& c.from == v.from
            &&& c.to == v.to
            &&& c.timestamp == v.timestamp
            &&& c.nonce@ == v.nonce
            &&& c.ciphertext@ == v.ciphertext
            &&& c.signature@ == v.signature
        }),
{
    match decode_chat(payload) {
        Some(fields) => {
            proof {
                law_chat_unique(payload@, chat_with(fields));
            }
            if fields.0.len() != 16 || fields.6.len() != 64 {
                return None;
            }
            let id: [u8; 16] = array_at(fields.0.as_slice(), 0);
            let signature: [u8; 64] = array_at(fields.6.as_slice(), 0);
            assert(fields.0@.subrange(0, 16) =~= fields.0@);
            assert(fields.6@.subrange(0, 64) =~= fields.6@);
            Some(
                ChatMessage {
                    id,
                    from: fields.1,
                    to: fields.2,
                    timestamp: fields.3,
                    nonce: fields.4,
                    ciphertext: fields.5,
                    signature,
                },
            )
        },
        None => None,
    }
}

/// The notice that a message has come through the server.
pub open spec fn notice_of(from_diddy_id: u128) -> Seq<char> {
    "\n[msg from "@ + decimal(from_diddy_id as nat) + "]"@
}

/// The notice to show for something that the server sent unasked: there is one
/// for every packet from another client that holds a message.
pub fn relay_notice(msg: &ServerMessage) -> (notice: Option<String>)
    ensures
        match msg@ {
            ServerMessageView::RelayForward { from_diddy_id, payload } => match relayed(payload) {
                Some(_) => notice matches Some(n) && n@ == notice_of(from_diddy_id),
                None => notice is None,
            },
            _ => notice is None,
        },
        notice matches Some(n) ==> (msg matches ServerMessage::RelayForward {
            from_diddy_id,
            payload,
        } && n@ == "\n[msg from "@ + decimal(*from_diddy_id as nat) + "]"@),
{
    match msg {
        ServerMessage::RelayForward { from_diddy_id, payload } => {
            if chat_from_payload(payload.as_slice()).is_none() {
                return None;
            }
            let mut notice = "\n[msg from ".to_owned();
            notice.append(decimal_string(*from_diddy_id).as_str());
            notice.append("]");
            Some(notice)
        },
        _ => None,
    }
}

// ---------------------------------------------------------------------------
// What becomes of each part of a message
// ---------------------------------------------------------------------------

/// A message says who wrote it, to whom, when, and under which id and nonce, as
/// it was given; its text is sealed whole, and its signature is the writer's on
/// all of it.
pub proof fn law_composed_message(
    seed: Seq<u8>,
    key: Seq<u8>,
    from: u128,
    to: u128,
    id: Seq<u8>,
    nonce: Seq<u8>,
    timestamp: u64,
    text: Seq<char>,
)
    ensures
        ({
            let c = composed(seed, key, from, to, id, nonce, timestamp, text);
            &&& c.timestamp == timestamp
            &&& c.from == from
            &&& c.to == to
            &&& c.id == id
            &&& c.nonce == nonce
            &&& c.ciphertext == chacha_seal(key, nonce, encode_utf8(text))
            &&& c.signature == ed25519_signature(
                seed,
                chat_bytes(
                    ChatView {
                        id,
                        from,
                        to,
                        timestamp,
                        nonce,
                        ciphertext: chacha_seal(key, nonce, encode_utf8(text)),
                        signature: Seq::new(64, |i: int| 0u8),
                    },
                ),
            )
        }),
{
}

/// The same holds of a message that is made of a text typed by the user, and
/// what is kept of it until it has been sent is that text, whole, and pending.
pub proof fn law_composed_outgoing(
    identity: LocalIdentity,
    key: Seq<u8>,
    to: u128,
    timestamp: u64,
    text: Seq<char>,
    out: Option<Outgoing>,
)
    requires
        identity.signing_key is Some,
        composed_from(&identity, key, to, timestamp, text, out),
    ensures
        out is None <==> text.len() == 0,
        out matches Some(o) ==> {
            &&& o.chat.timestamp == timestamp
            &&& o.chat.from == identity.diddy_id->0
            &&& o.chat.to == to
            &&& o.chat.ciphertext@ == chacha_seal(key, o.chat.nonce@, encode_utf8(text))
            &&& o.chat.signature@ == ed25519_signature(
                identity.signing_key->0@,
                signed_form(o.chat@),
            )
            &&& o.stored.id@ == uuid_text(o.chat.id@)
            &&& o.stored.peer_id == to
            &&& o.stored.sender_id == identity.diddy_id->0
            &&& o.stored.body@ == text
            &&& o.stored.timestamp == timestamp
            &&& o.stored.nonce@ == o.chat.nonce@
            &&& o.stored.ciphertext@ == o.chat.ciphertext@
            &&& o.stored.signature@ == o.chat.signature@
            &&& o.stored.pending
        },
{
}

/// A sender signs the message as it stands, with sixty-four zeros for the
/// signature; no signature can change what is signed.
pub proof fn law_signed_form(c: ChatView, signature: Seq<u8>)
    ensures
        signed_form(c) == chat_bytes(
            ChatView {
                id: c.id,
                from: c.from,
                to: c.to,
                timestamp: c.timestamp,
                nonce: c.nonce,
                ciphertext: c.ciphertext,
                signature: Seq::new(64, |i: int| 0u8),
            },
        ),
        signed_form(ChatView { signature, ..c }) == signed_form(c),
{
}

/// What is kept of a message is the whole text and every part of the message,
/// under the peer and with the mark that were given.
pub proof fn law_stored_message(c: ChatView, peer_id: u128, body: Seq<char>, pending: bool)
    ensures
        stored_of(c, peer_id, body, pending).body == body,
        stored_of(c, peer_id, body, pending).pending == pending,
        stored_of(c, peer_id, body, pending).peer_id == peer_id,
        stored_of(c, peer_id, body, pending).id == uuid_text(c.id),
        stored_of(c, peer_id, body, pending).sender_id == c.from,
        stored_of(c, peer_id, body, pending).timestamp == c.timestamp,
        stored_of(c, peer_id, body, pending).nonce == c.nonce,
        stored_of(c, peer_id, body, pending).ciphertext == c.ciphertext,
        stored_of(c, peer_id, body, pending).signature == c.signature,
{
}

/// A stored message goes over the wire with every part of it, as long as its id
/// is one.
pub proof fn law_stored_message_is_sent(m: StoredView)
    ensures
        chat_of(m) is Some <==> id_in(m.id) is Some,
        chat_of(m) matches Some(c) ==> {
            &&& id_in(m.id) == Some(c.id)
            &&& c.from == m.sender_id
            &&& c.to == m.peer_id
            &&& c.timestamp == m.timestamp
            &&& c.nonce == m.nonce
            &&& c.ciphertext == m.ciphertext
            &&& c.signature == m.signature
        },
        sound(m) <==> m.nonce.len() == 12 && m.signature.len() == 64,
{
}

/// A message brings a text exactly if its sender signed it and its key opens
/// it, and the text is what was sealed.
pub proof fn law_received_text(c: ChatView, pubkey: Seq<u8>, key: Seq<u8>, text: Seq<char>)
    ensures
        received_text(c, pubkey, key) is Some <==> {
            &&& ed25519_key_decodes(pubkey)
            &&& reduced_scalar(c.signature)
            &&& ed25519_verifies(pubkey, signed_form(c), c.signature)
            &&& c.ciphertext.len() <= 274_877_906_832
            &&& chacha_open(key, c.nonce, c.ciphertext) is Some
        },
        received_text(c, pubkey, key) is Some ==> body_of(c, key) == received_text(c, pubkey, key),
        body_of(c, key) is Some <==> c.ciphertext.len() <= 274_877_906_832 && chacha_open(
            key,
            c.nonce,
            c.ciphertext,
        ) is Some,
        body_of(c, key) matches Some(t) ==> {
            let p = chacha_open(key, c.nonce, c.ciphertext)->0;
            &&& valid_utf8(p) ==> t == decode_utf8(p)
            &&& !valid_utf8(p) ==> t == utf8_replaced(p)
            &&& p == encode_utf8(text) ==> t == text
        },
{
    lemma_text_survives(text);
}

/// What is kept of an accepted message is the text that it brought, whole and
/// not pending, with every part of the message; what is shown is who says it,
/// then that text.
pub proof fn law_accepted_message(
    c: ChatView,
    peer_id: u128,
    my_id: u128,
    body: Seq<char>,
    incoming: Incoming,
)
    requires
        accepted_as(c, peer_id, my_id, body, incoming),
    ensures
        incoming.stored.body@ == body,
        !incoming.stored.pending,
        incoming.stored.peer_id == peer_id,
        incoming.stored.id@ == uuid_text(c.id),
        incoming.stored.sender_id == c.from,
        incoming.stored.timestamp == c.timestamp,
        incoming.stored.nonce@ == c.nonce,
        incoming.stored.ciphertext@ == c.ciphertext,
        incoming.stored.signature@ == c.signature,
        c.from == my_id ==> incoming.display@ == "you"@ + ":\n"@ + body,
        c.from != my_id ==> incoming.display@ == decimal(c.from as nat) + ":\n"@ + body,
{
}

/// A text that a peer was sent is the text that the peer keeps: sealed by the
/// one, opened by the other and kept whole.
pub proof fn law_text_arrives_whole(
    c: ChatView,
    pubkey: Seq<u8>,
    key: Seq<u8>,
    peer_id: u128,
    my_id: u128,
    text: Seq<char>,
    body: Seq<char>,
    incoming: Incoming,
)
    requires
        chacha_open(key, c.nonce, c.ciphertext) == Some(encode_utf8(text)),
        received_text(c, pubkey, key) == Some(body),
        accepted_as(c, peer_id, my_id, body, incoming),
    ensures
        incoming.stored.body@ == text,
{
    lemma_text_survives(text);
}

/// A message is shown under `you` if it is one's own and under its sender's
/// number if not; then, on the next line, comes the text.
pub proof fn law_shown(sender_id: u128, my_id: u128, body: Seq<char>)
    ensures
        shown(my_id, my_id, body) == seq!['y', 'o', 'u', ':', '\n'] + body,
        sender_id != my_id ==> shown(sender_id, my_id, body) == decimal(sender_id as nat) + seq![
            ':',
            '\n',
        ] + body,
{
    reveal_strlit("you");
    reveal_strlit(":\n");
    assert("you"@ + ":\n"@ =~= seq!['y', 'o', 'u', ':', '\n']);
    assert(":\n"@ =~= seq![':', '\n']);
}

/// Every message is shown, in its place.
pub proof fn law_all_shown(msgs: Seq<StoredView>, my_id: u128)
    ensures
        all_shown(msgs, my_id).len() == msgs.len(),
        forall|i: int|
            0 <= i < msgs.len() ==> #[trigger] all_shown(msgs, my_id)[i] == shown(
                msgs[i].sender_id,
                my_id,
                msgs[i].body,
            ),
{
}

/// A payload holds a message if it begins with one whose id and signature have
/// their lengths.
pub proof fn law_relayed(payload: Seq<u8>)
    ensures
        relayed(payload) is Some <==> (chat_in(payload) matches Some(c) && c.id.len() == 16
            && c.signature.len() == 64),
        relayed(payload) is Some ==> relayed(payload) == chat_in(payload),
{
}

/// The notice of a message names its sender.
pub proof fn law_notice(from_diddy_id: u128)
    ensures
        notice_of(from_diddy_id) == seq!['\n', '[', 'm', 's', 'g', ' ', 'f', 'r', 'o', 'm', ' ']
            + decimal(from_diddy_id as nat) + seq![']'],
{
    reveal_strlit("\n[msg from ");
    reveal_strlit("]");
    assert("\n[msg from "@ =~= seq!['\n', '[', 'm', 's', 'g', ' ', 'f', 'r', 'o', 'm', ' ']);
    assert("]"@ =~= seq![']']);
}

} // verus!
