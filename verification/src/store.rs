//! Messages at rest: under which keys and in which bytes a client keeps them,
//! and which of them answer a question.
//!
//! The table itself is an ordered map from bytes to bytes on disk. Its owner
//! reads and writes entries; what to read, what to write and what the entries
//! amount to is decided here.

use vstd::prelude::*;
use vstd::string::StringExecFns;
use vstd::string::StrSliceExecFns;
use vstd::utf8::{
    encode_utf8, encode_utf8_decode_utf8, is_ascii_chars, is_ascii_chars_encode_utf8,
};

use crate::codec::{
    begins_with_stored, entry_error, law_stored_reads_back, law_stored_unique, stored_bytes,
    stored_decode_error, stored_fits, stored_in,
};
use crate::codec::{decode_stored, encode_stored};
use crate::decimal::decimal_string;
use crate::decimal::{decimal, is_digit, lemma_decimal_digits, lemma_decimal_injective};

verus! {

/// A message as a client keeps it.
#[derive(Debug, Clone)]
pub struct StoredMessage {
    pub id: String,
    pub peer_id: u128,
    pub sender_id: u128,
    pub body: String,
    pub timestamp: u64,
    pub nonce: Vec<u8>,
    pub ciphertext: Vec<u8>,
    pub signature: Vec<u8>,
    pub pending: bool,
}

/// What a `StoredMessage` says.
#[verifier::ext_equal]
pub struct StoredView {
    pub id: Seq<char>,
    pub peer_id: u128,
    pub sender_id: u128,
    pub body: Seq<char>,
    pub timestamp: u64,
    pub nonce: Seq<u8>,
    pub ciphertext: Seq<u8>,
    pub signature: Seq<u8>,
    pub pending: bool,
}

impl View for StoredMessage {
    type V = StoredView;

    open spec fn view(&self) -> StoredView {
        StoredView {
            id: self.id@,
            peer_id: self.peer_id,
            sender_id: self.sender_id,
            body: self.body@,
            timestamp: self.timestamp,
            nonce: self.nonce@,
            ciphertext: self.ciphertext@,
            signature: self.signature@,
            pending: self.pending,
        }
    }
}

/// What a list of stored messages says.
pub open spec fn stored_views(msgs: Seq<StoredMessage>) -> Seq<StoredView> {
    msgs.map_values(|m: StoredMessage| m@)
}

/// An entry of the table that holds no message, and what `bincode` has to say
/// of it.
#[derive(Debug, Clone, PartialEq, Eq)]
pub struct CorruptEntry {
    pub text: String,
}

// ---------------------------------------------------------------------------
// Keys
// ---------------------------------------------------------------------------

/// What the keys of all messages exchanged with a peer begin with.
pub open spec fn prefix_text(peer_id: u128) -> Seq<char> {
    decimal(peer_id as nat) + seq!['_']
}

/// The bytes that the keys of all messages exchanged with a peer begin with.
pub open spec fn peer_prefix_of(peer_id: u128) -> Seq<u8> {
    encode_utf8(prefix_text(peer_id))
}

/// The key of a message: the peer's id in decimal, an underscore, and the
/// message's id.
pub open spec fn message_key_of(peer_id: u128, msg_id: Seq<char>) -> Seq<u8> {
    encode_utf8(prefix_text(peer_id) + msg_id)
}

/// The bytes that the keys of all messages exchanged with a peer begin with.
pub fn peer_prefix(peer_id: u128) -> (prefix: Vec<u8>)
    ensures
        prefix@ == peer_prefix_of(peer_id),
{
    let mut text = decimal_string(peer_id);
    text.append("_");
    proof {
        reveal_strlit("_");
        assert(text@ =~= prefix_text(peer_id));
    }
    text.as_str().as_bytes_vec()
}

/// The key of a message.
pub fn message_key(peer_id: u128, msg_id: &str) -> (key: Vec<u8>)
    ensures
        key@ == message_key_of(peer_id, msg_id@),
{
    let mut text = decimal_string(peer_id);
    text.append("_");
    text.append(msg_id);
    proof {
        reveal_strlit("_");
        assert(text@ =~= prefix_text(peer_id) + msg_id@);
    }
    text.as_str().as_bytes_vec()
}

proof fn lemma_encode_concat(a: Seq<char>, b: Seq<char>)
    ensures
        encode_utf8(a + b) == encode_utf8(a) + encode_utf8(b),
    decreases a.len(),
{
    if a.len() == 0 {
        assert(a + b =~= b);
        assert(encode_utf8(a) + encode_utf8(b) =~= encode_utf8(b));
    } else {
        lemma_encode_concat(a.drop_first(), b);
        assert((a + b).drop_first() =~= a.drop_first() + b);
        assert(encode_utf8(a + b) =~= encode_utf8(a) + encode_utf8(b));
    }
}

/// Where the underscore of a key's prefix stands, and that it stands nowhere
/// before.
proof fn lemma_prefix_shape(peer_id: u128)
    ensures
        is_ascii_chars(prefix_text(peer_id)),
        peer_prefix_of(peer_id).len() == decimal(peer_id as nat).len() + 1,
        peer_prefix_of(peer_id).last() == 95,
        forall|i: int|
            0 <= i < decimal(peer_id as nat).len() ==> #[trigger] peer_prefix_of(peer_id)[i]
                == prefix_text(peer_id)[i] as u8 && peer_prefix_of(peer_id)[i] != 95 && is_digit(
                prefix_text(peer_id)[i],
            ),
{
    let d = decimal(peer_id as nat);
    let t = prefix_text(peer_id);
    lemma_decimal_digits(peer_id as nat);
    assert forall|i: int| 0 <= i < t.len() implies '\0' <= #[trigger] t[i] <= '\u{7f}' by {
        if i < d.len() {
            assert(is_digit(d[i]));
        }
    }
    is_ascii_chars_encode_utf8(t);
    assert(t.last() == '_');
    assert(peer_prefix_of(peer_id)[d.len() as int] == t[d.len() as int] as u8);
    assert forall|i: int| 0 <= i < d.len() implies #[trigger] peer_prefix_of(peer_id)[i]
        == t[i] as u8 && peer_prefix_of(peer_id)[i] != 95 && is_digit(t[i]) by {
        assert(is_digit(d[i]));
    }
}

/// Reading the table by a peer's prefix finds the messages exchanged with
/// that peer and no others.
pub proof fn law_prefix_selects_peer(peer_id: u128, other_id: u128, msg_id: Seq<char>)
    ensures
        peer_prefix_of(peer_id).is_prefix_of(message_key_of(other_id, msg_id)) <==> peer_id
            == other_id,
{
    let p = peer_prefix_of(peer_id);
    let q = peer_prefix_of(other_id);
    let key = message_key_of(other_id, msg_id);
    lemma_encode_concat(prefix_text(other_id), msg_id);
    assert(key == q + encode_utf8(msg_id));
    if peer_id == other_id {
        assert(p =~= key.subrange(0, p.len() as int));
    } else if p.is_prefix_of(key) {
        lemma_prefix_shape(peer_id);
        lemma_prefix_shape(other_id);
        let dp = decimal(peer_id as nat);
        let dq = decimal(other_id as nat);
        assert forall|i: int| 0 <= i < p.len() implies p[i] == key[i] by {
            assert(p[i] == key.subrange(0, p.len() as int)[i]);
        }
        if dp.len() < dq.len() {
            assert(p[dp.len() as int] == key[dp.len() as int]);
            assert(key[dp.len() as int] == q[dp.len() as int]);
            assert(false);
        }
        if dq.len() < dp.len() {
            assert(key[dq.len() as int] == q[dq.len() as int]);
            assert(p[dq.len() as int] == 95);
            assert(false);
        }
        assert forall|i: int| 0 <= i < dp.len() implies dp[i] == dq[i] by {
            assert(p[i] == q[i]);
            assert(prefix_text(peer_id)[i] == dp[i]);
            assert(prefix_text(other_id)[i] == dq[i]);
        }
        assert(dp =~= dq);
        lemma_decimal_injective(peer_id as nat, other_id as nat);
    }
}

/// Different messages have different keys.
pub proof fn law_keys_distinct(peer_a: u128, id_a: Seq<char>, peer_b: u128, id_b: Seq<char>)
    requires
        message_key_of(peer_a, id_a) == message_key_of(peer_b, id_b),
    ensures
        peer_a == peer_b,
        id_a == id_b,
{
    law_prefix_selects_peer(peer_a, peer_a, id_a);
    law_prefix_selects_peer(peer_a, peer_b, id_b);
    let t = prefix_text(peer_a);
    encode_utf8_decode_utf8(t + id_a);
    encode_utf8_decode_utf8(t + id_b);
    assert((t + id_a).skip(t.len() as int) =~= id_a);
    assert((t + id_b).skip(t.len() as int) =~= id_b);
}

// ---------------------------------------------------------------------------
// Entries
// ---------------------------------------------------------------------------

impl StoredMessage {
    /// The key under which this message is kept.
    pub fn key(&self) -> (key: Vec<u8>)
        ensures
            key@ == message_key_of(self.peer_id, self.id@),
    {
        message_key(self.peer_id, self.id.as_str())
    }

    /// This message as an entry of the table.
    pub fn to_bytes(&self) -> (bytes: Vec<u8>)
        ensures
            bytes@ == stored_bytes(self@),
            stored_in(bytes@) == Some(self@),
    {
        let bytes = encode_stored(self);
        proof {
            law_stored_unique(bytes@, self@);
        }
        bytes
    }

    /// The message in an entry of the table.
    pub fn from_bytes(bytes: &[u8]) -> (msg: Result<StoredMessage, CorruptEntry>)
        ensures
            match msg {
                Ok(m) => stored_in(bytes@) == Some(m@),
                Err(e) => stored_in(bytes@) is None && e.text@ == entry_error(bytes@),
            },
    {
        match decode_stored(bytes) {
            Ok(m) => {
                proof {
                    law_stored_unique(bytes@, m@);
                }
                Ok(m)
            },
            Err(text) => Err(CorruptEntry { text }),
        }
    }
}

/// The entry of a message that has been delivered, made from the entry it has
/// had so far.
pub fn mark_not_pending(entry: &[u8]) -> (updated: Result<Vec<u8>, CorruptEntry>)
    ensures
        match updated {
            Ok(bytes) => stored_in(entry@) matches Some(m) && bytes@ == stored_bytes(
                StoredView { pending: false, ..m },
            ) && stored_in(bytes@) == Some(StoredView { pending: false, ..m }),
            Err(e) => stored_in(entry@) is None && e.text@ == entry_error(entry@),
        },
{
    match StoredMessage::from_bytes(entry) {
        Ok(m) => {
            let mut m = m;
            m.pending = false;
            Ok(m.to_bytes())
        },
        Err(e) => Err(e),
    }
}

/// The table after a message has been put into it.
pub open spec fn after_insert(table: Map<Seq<u8>, Seq<u8>>, m: StoredView) -> Map<
    Seq<u8>,
    Seq<u8>,
> {
    table.insert(message_key_of(m.peer_id, m.id), stored_bytes(m))
}

/// The message that a table holds under a peer and a message id.
pub open spec fn held(
    table: Map<Seq<u8>, Seq<u8>>,
    peer_id: u128,
    msg_id: Seq<char>,
) -> Option<StoredView> {
    if table.contains_key(message_key_of(peer_id, msg_id)) {
        stored_in(table[message_key_of(peer_id, msg_id)])
    } else {
        None
    }
}

/// A message that was put into the table is found in it, as it was put.
pub proof fn law_insert_then_get(table: Map<Seq<u8>, Seq<u8>>, m: StoredView)
    requires
        stored_fits(m),
    ensures
        held(after_insert(table, m), m.peer_id, m.id) == Some(m),
{
    law_stored_reads_back(m);
}

/// Putting a message into the table leaves every other message as it was.
pub proof fn law_insert_keeps_others(
    table: Map<Seq<u8>, Seq<u8>>,
    m: StoredView,
    peer_id: u128,
    msg_id: Seq<char>,
)
    requires
        peer_id != m.peer_id || msg_id != m.id,
    ensures
        held(after_insert(table, m), peer_id, msg_id) == held(table, peer_id, msg_id),
{
    if message_key_of(peer_id, msg_id) == message_key_of(m.peer_id, m.id) {
        law_keys_distinct(peer_id, msg_id, m.peer_id, m.id);
    }
}

// ---------------------------------------------------------------------------
// Questions
// ---------------------------------------------------------------------------

/// The bytes in a list of entries.
pub open spec fn entry_seqs(entries: Seq<Vec<u8>>) -> Seq<Seq<u8>> {
    entries.map_values(|e: Vec<u8>| e@)
}

/// Whether every entry holds a message.
pub open spec fn all_hold(entries: Seq<Seq<u8>>) -> bool {
    forall|i: int| 0 <= i < entries.len() ==> stored_in(#[trigger] entries[i]) is Some
}

/// `text` is what there is to say of the first entry that holds no message.
pub open spec fn first_corrupt(entries: Seq<Seq<u8>>, text: Seq<char>) -> bool {
    exists|i: int|
        0 <= i < entries.len() && stored_in(#[trigger] entries[i]) is None && all_hold(
            entries.take(i),
        ) && text == entry_error(entries[i])
}

/// The messages in a list of entries.
pub open spec fn messages_in(entries: Seq<Seq<u8>>) -> Seq<StoredView> {
    entries.map_values(|e: Seq<u8>| stored_in(e)->0)
}

/// Newer than a point in time.
pub open spec fn newer_than(since_ts: u64) -> spec_fn(StoredView) -> bool {
    |m: StoredView| m.timestamp > since_ts
}

/// Sent by somebody, and not delivered yet.
pub open spec fn undelivered_from(sender_id: u128) -> spec_fn(StoredView) -> bool {
    |m: StoredView| m.pending && m.sender_id == sender_id
}

/// Dating from one moment.
pub open spec fn dated(ts: u64) -> spec_fn(StoredView) -> bool {
    |m: StoredView| m.timestamp == ts
}

/// `msgs` with `m` put behind all messages that are not newer.
pub open spec fn insert_by_time(msgs: Seq<StoredView>, m: StoredView) -> Seq<StoredView>
    decreases msgs.len(),
{
    if msgs.len() == 0 || msgs.last().timestamp <= m.timestamp {
        msgs.push(m)
    } else {
        insert_by_time(msgs.drop_last(), m).push(msgs.last())
    }
}

/// `msgs` from the oldest to the newest; messages that date from one moment
/// keep the order they have.
pub open spec fn by_time(msgs: Seq<StoredView>) -> Seq<StoredView>
    decreases msgs.len(),
{
    if msgs.len() == 0 {
        msgs
    } else {
        insert_by_time(by_time(msgs.drop_last()), msgs.last())
    }
}

/// The latest moment from which a message dates, or zero if there is none.
pub open spec fn latest(msgs: Seq<StoredView>) -> u64
    decreases msgs.len(),
{
    if msgs.len() == 0 {
        0
    } else if msgs.last().timestamp > latest(msgs.drop_last()) {
        msgs.last().timestamp
    } else {
        latest(msgs.drop_last())
    }
}

pub open spec fn in_time_order(msgs: Seq<StoredView>) -> bool {
    forall|i: int, j: int|
        0 <= i <= j < msgs.len() ==> (#[trigger] msgs[i]).timestamp <= (
        #[trigger] msgs[j]).timestamp
}

proof fn lemma_insert_position(msgs: Seq<StoredView>, m: StoredView, at: int)
    requires
        0 <= at <= msgs.len(),
        at == 0 || msgs[at - 1].timestamp <= m.timestamp,
        forall|i: int| at <= i < msgs.len() ==> (#[trigger] msgs[i]).timestamp > m.timestamp,
    ensures
        insert_by_time(msgs, m) == msgs.insert(at, m),
    decreases msgs.len(),
{
    if msgs.len() == at {
        assert(msgs.insert(at, m) =~= msgs.push(m));
    } else {
        assert(msgs.last().timestamp > m.timestamp);
        assert forall|i: int| at <= i < msgs.drop_last().len() implies (
        #[trigger] msgs.drop_last()[i]).timestamp > m.timestamp by {
            assert(msgs[i].timestamp > m.timestamp);
        }
        lemma_insert_position(msgs.drop_last(), m, at);
        assert(msgs.drop_last().insert(at, m).push(msgs.last()) =~= msgs.insert(at, m));
    }
}

fn insert_message(msgs: &mut Vec<StoredMessage>, m: StoredMessage)
    ensures
        stored_views(final(msgs)@) == insert_by_time(stored_views(old(msgs)@), m@),
{
    let ghost before = msgs@;
    let mut at: usize = msgs.len();
    while at > 0 && msgs[at - 1].timestamp > m.timestamp
        invariant
            0 <= at <= msgs@.len(),
            msgs@ == before,
            forall|i: int| at <= i < before.len() ==> (#[trigger] before[i]).timestamp
                > m.timestamp,
        decreases at,
    {
        at -= 1;
    }
    proof {
        let views = stored_views(before);
        assert forall|i: int| at <= i < views.len() implies (#[trigger] views[i]).timestamp
            > m.timestamp by {
            assert(before[i].timestamp > m.timestamp);
        }
        lemma_insert_position(views, m@, at as int);
        assert(stored_views(before.insert(at as int, m)) =~= views.insert(at as int, m@));
    }
    msgs.insert(at, m);
}

proof fn lemma_messages_step(entries: Seq<Seq<u8>>, i: int)
    requires
        0 <= i < entries.len(),
    ensures
        messages_in(entries.take(i + 1)) == messages_in(entries.take(i)).push(
            stored_in(entries[i])->0,
        ),
        entries.take(i + 1).drop_last() == entries.take(i),
        all_hold(entries.take(i)) && stored_in(entries[i]) is Some ==> all_hold(
            entries.take(i + 1),
        ),
{
    if all_hold(entries.take(i)) && stored_in(entries[i]) is Some {
        assert forall|j: int| 0 <= j < i + 1 implies stored_in(
            #[trigger] entries.take(i + 1)[j],
        ) is Some by {
            if j < i {
                assert(stored_in(entries.take(i)[j]) is Some);
            }
        }
    }
    assert(entries.take(i + 1).drop_last() =~= entries.take(i));
    assert(messages_in(entries.take(i + 1)) =~= messages_in(entries.take(i)).push(
        stored_in(entries[i])->0,
    ));
}

proof fn lemma_filter_step(
    msgs: Seq<StoredView>,
    m: StoredView,
    keep: spec_fn(StoredView) -> bool,
)
    ensures
        keep(m) ==> msgs.push(m).filter(keep) == msgs.filter(keep).push(m) && by_time(
            msgs.push(m).filter(keep),
        ) == insert_by_time(by_time(msgs.filter(keep)), m),
        !keep(m) ==> msgs.push(m).filter(keep) == msgs.filter(keep),
{
    reveal(Seq::filter);
    assert(msgs.push(m).drop_last() =~= msgs);
    let kept = msgs.filter(keep);
    assert(kept.push(m).drop_last() =~= kept);
}

/// The messages newer than `since_ts` in what the table holds for a peer,
/// from the oldest to the newest.
pub fn messages_since(entries: &Vec<Vec<u8>>, since_ts: u64) -> (msgs: Result<
    Vec<StoredMessage>,
    CorruptEntry,
>)
    ensures
        match msgs {
            Ok(m) => all_hold(entry_seqs(entries@)) && stored_views(m@) == by_time(
                messages_in(entry_seqs(entries@)).filter(newer_than(since_ts)),
            ),
            Err(e) => first_corrupt(entry_seqs(entries@), e.text@),
        },
        msgs matches Ok(m) ==> {
            &&& forall|i: int|
                0 <= i < entries@.len() ==> stored_in((#[trigger] entries@[i])@) is Some
            &&& forall|i: int| 0 <= i < m@.len() ==> (#[trigger] m@[i]).timestamp > since_ts
            &&& forall|i: int, j: int|
                0 <= i <= j < m@.len() ==> (#[trigger] m@[i]).timestamp <= (
                #[trigger] m@[j]).timestamp
        },
{
    let mut msgs: Vec<StoredMessage> = Vec::new();
    let ghost seqs = entry_seqs(entries@);
    let mut i: usize = 0;
    proof {
        reveal(Seq::filter);
        assert(stored_views(msgs@) =~= by_time(
            messages_in(seqs.take(0)).filter(newer_than(since_ts)),
        ));
    }
    while i < entries.len()
        invariant
            0 <= i <= entries@.len(),
            seqs == entry_seqs(entries@),
            all_hold(seqs.take(i as int)),
            stored_views(msgs@) == by_time(
                messages_in(seqs.take(i as int)).filter(newer_than(since_ts)),
            ),
        decreases entries@.len() - i,
    {
        assert(seqs[i as int] == entries@[i as int]@);
        match StoredMessage::from_bytes(entries[i].as_slice()) {
            Err(e) => {
                return Err(e);
            },
            Ok(m) => {
                proof {
                    lemma_messages_step(seqs, i as int);
                    lemma_filter_step(
                        messages_in(seqs.take(i as int)),
                        m@,
                        newer_than(since_ts),
                    );
                }
                if m.timestamp > since_ts {
                    insert_message(&mut msgs, m);
                }
            },
        }
        i += 1;
    }
    assert(seqs.take(seqs.len() as int) =~= seqs);
    proof {
        lemma_all_hold(entries@);
        lemma_found(msgs@, messages_in(seqs), newer_than(since_ts));
    }
    Ok(msgs)
}

/// The messages that `sender_id` sent and that have not been delivered, in
/// what the table holds for a peer, from the oldest to the newest.
pub fn pending_for(entries: &Vec<Vec<u8>>, sender_id: u128) -> (msgs: Result<
    Vec<StoredMessage>,
    CorruptEntry,
>)
    ensures
        match msgs {
            Ok(m) => all_hold(entry_seqs(entries@)) && stored_views(m@) == by_time(
                messages_in(entry_seqs(entries@)).filter(undelivered_from(sender_id)),
            ),
            Err(e) => first_corrupt(entry_seqs(entries@), e.text@),
        },
        msgs matches Ok(m) ==> {
            &&& forall|i: int|
                0 <= i < entries@.len() ==> stored_in((#[trigger] entries@[i])@) is Some
            &&& forall|i: int|
                0 <= i < m@.len() ==> (#[trigger] m@[i]).pending && m@[i].sender_id == sender_id
            &&& forall|i: int, j: int|
                0 <= i <= j < m@.len() ==> (#[trigger] m@[i]).timestamp <= (
                #[trigger] m@[j]).timestamp
        },
{
    let mut msgs: Vec<StoredMessage> = Vec::new();
    let ghost seqs = entry_seqs(entries@);
    let mut i: usize = 0;
    proof {
        reveal(Seq::filter);
        assert(stored_views(msgs@) =~= by_time(
            messages_in(seqs.take(0)).filter(undelivered_from(sender_id)),
        ));
    }
    while i < entries.len()
        invariant
            0 <= i <= entries@.len(),
            seqs == entry_seqs(entries@),
            all_hold(seqs.take(i as int)),
            stored_views(msgs@) == by_time(
                messages_in(seqs.take(i as int)).filter(undelivered_from(sender_id)),
            ),
        decreases entries@.len() - i,
    {
        assert(seqs[i as int] == entries@[i as int]@);
        match StoredMessage::from_bytes(entries[i].as_slice()) {
            Err(e) => {
                return Err(e);
            },
            Ok(m) => {
                proof {
                    lemma_messages_step(seqs, i as int);
                    lemma_filter_step(
                        messages_in(seqs.take(i as int)),
                        m@,
                        undelivered_from(sender_id),
                    );
                }
                if m.pending && m.sender_id == sender_id {
                    insert_message(&mut msgs, m);
                }
            },
        }
        i += 1;
    }
    assert(seqs.take(seqs.len() as int) =~= seqs);
    proof {
        lemma_all_hold(entries@);
        lemma_found(msgs@, messages_in(seqs), undelivered_from(sender_id));
    }
    Ok(msgs)
}

/// The latest moment from which a message dates in what the table holds for a
/// peer, or zero if it holds none.
pub fn latest_timestamp(entries: &Vec<Vec<u8>>) -> (ts: Result<u64, CorruptEntry>)
    ensures
        match ts {
            Ok(t) => all_hold(entry_seqs(entries@)) && t == latest(
                messages_in(entry_seqs(entries@)),
            ),
            Err(e) => first_corrupt(entry_seqs(entries@), e.text@),
        },
        ts matches Ok(t) ==> {
            &&& forall|i: int|
                0 <= i < entries@.len() ==> (stored_in((#[trigger] entries@[i])@) matches Some(m)
                    && m.timestamp <= t)
            &&& t > 0 ==> exists|i: int|
                0 <= i < entries@.len() && stored_in((#[trigger] entries@[i])@)->0.timestamp == t
        },
{
    let mut ts: u64 = 0;
    let ghost seqs = entry_seqs(entries@);
    let mut i: usize = 0;
    while i < entries.len()
        invariant
            0 <= i <= entries@.len(),
            seqs == entry_seqs(entries@),
            all_hold(seqs.take(i as int)),
            ts == latest(messages_in(seqs.take(i as int))),
        decreases entries@.len() - i,
    {
        assert(seqs[i as int] == entries@[i as int]@);
        match StoredMessage::from_bytes(entries[i].as_slice()) {
            Err(e) => {
                return Err(e);
            },
            Ok(m) => {
                proof {
                    lemma_messages_step(seqs, i as int);
                    let so_far = messages_in(seqs.take(i as int));
                    assert(so_far.push(m@).drop_last() =~= so_far);
                }
                if m.timestamp > ts {
                    ts = m.timestamp;
                }
            },
        }
        i += 1;
    }
    assert(seqs.take(seqs.len() as int) =~= seqs);
    proof {
        lemma_all_hold(entries@);
        let msgs = messages_in(seqs);
        law_latest(msgs);
        assert forall|j: int| 0 <= j < entries@.len() implies (stored_in(
            (#[trigger] entries@[j])@,
        ) matches Some(m) && m.timestamp <= ts) by {
            assert(seqs[j] == entries@[j]@);
            assert(msgs[j].timestamp <= latest(msgs));
        }
        if ts > 0 {
            let j = choose|j: int|
                0 <= j < msgs.len() && (#[trigger] msgs[j]).timestamp == latest(msgs);
            assert(seqs[j] == entries@[j]@);
            assert(stored_in(entries@[j]@)->0.timestamp == ts);
        }
    }
    Ok(ts)
}

proof fn lemma_all_hold(entries: Seq<Vec<u8>>)
    requires
        all_hold(entry_seqs(entries)),
    ensures
        forall|i: int| 0 <= i < entries.len() ==> stored_in((#[trigger] entries[i])@) is Some,
{
    assert forall|i: int| 0 <= i < entries.len() implies stored_in(
        (#[trigger] entries[i])@,
    ) is Some by {
        assert(stored_in(entry_seqs(entries)[i]) is Some);
    }
}

/// What holds of every message that was looked for and put in order.
proof fn lemma_found(
    found: Seq<StoredMessage>,
    msgs: Seq<StoredView>,
    keep: spec_fn(StoredView) -> bool,
)
    requires
        stored_views(found) == by_time(msgs.filter(keep)),
    ensures
        forall|i: int| 0 <= i < found.len() ==> keep((#[trigger] found[i])@),
        forall|i: int, j: int|
            0 <= i <= j < found.len() ==> (#[trigger] found[i]).timestamp <= (
            #[trigger] found[j]).timestamp,
{
    let views = stored_views(found);
    law_by_time(msgs.filter(keep), 0);
    assert forall|i: int| 0 <= i < found.len() implies keep((#[trigger] found[i])@) by {
        assert(views[i] == found[i]@);
        assert(views.contains(found[i]@));
        lemma_by_time_contains(msgs.filter(keep), found[i]@);
        lemma_filter_contains(msgs, keep, found[i]@);
    }
    assert forall|i: int, j: int| 0 <= i <= j < found.len() implies (
    #[trigger] found[i]).timestamp <= (#[trigger] found[j]).timestamp by {
        assert(views[i].timestamp <= views[j].timestamp);
    }
}

proof fn lemma_insert_by_time(msgs: Seq<StoredView>, m: StoredView, ts: u64)
    requires
        in_time_order(msgs),
    ensures
        in_time_order(insert_by_time(msgs, m)),
        insert_by_time(msgs, m).len() == msgs.len() + 1,
        insert_by_time(msgs, m).last().timestamp == m.timestamp || (msgs.len() > 0
            && insert_by_time(msgs, m).last() == msgs.last()),
        msgs.len() > 0 ==> msgs.last().timestamp <= insert_by_time(msgs, m).last().timestamp,
        m.timestamp <= insert_by_time(msgs, m).last().timestamp,
        insert_by_time(msgs, m).filter(dated(ts)) == msgs.push(m).filter(dated(ts)),
    decreases msgs.len(),
{
    reveal(Seq::filter);
    if msgs.len() == 0 || msgs.last().timestamp <= m.timestamp {
        let out = msgs.push(m);
        assert forall|i: int, j: int| 0 <= i <= j < out.len() implies (
        #[trigger] out[i]).timestamp <= (#[trigger] out[j]).timestamp by {
            if j == msgs.len() && i < j {
                assert(msgs[i].timestamp <= msgs[msgs.len() - 1].timestamp);
            }
        }
    } else {
        let init = msgs.drop_last();
        assert(in_time_order(init)) by {
            assert forall|i: int, j: int| 0 <= i <= j < init.len() implies (
            #[trigger] init[i]).timestamp <= (#[trigger] init[j]).timestamp by {
                assert(msgs[i].timestamp <= msgs[j].timestamp);
            }
        }
        lemma_insert_by_time(init, m, ts);
        let inner = insert_by_time(init, m);
        let out = inner.push(msgs.last());
        assert(inner.last().timestamp <= msgs.last().timestamp) by {
            if init.len() > 0 {
                assert(msgs[msgs.len() - 2].timestamp <= msgs[msgs.len() - 1].timestamp);
            }
        }
        assert forall|i: int, j: int| 0 <= i <= j < out.len() implies (
        #[trigger] out[i]).timestamp <= (#[trigger] out[j]).timestamp by {
            if j == inner.len() && i < j {
                assert(inner[i].timestamp <= inner[inner.len() - 1].timestamp);
            }
        }
        assert(out.drop_last() =~= inner);
        assert(msgs.push(m).drop_last() =~= msgs);
        assert(init.push(m).drop_last() =~= init);
        let p = dated(ts);
        assert(inner.filter(p) == init.push(m).filter(p));
        assert(msgs.filter(p) == if p(msgs.last()) {
            init.filter(p).push(msgs.last())
        } else {
            init.filter(p)
        });
        assert(!(p(m) && p(msgs.last())));
        assert(out.filter(p) =~= msgs.push(m).filter(p));
    }
}

/// Ordering by time puts the oldest message first, and neither adds nor drops
/// a message nor swaps two that date from one moment: for every moment, the
/// messages that date from it are the same, in the same order.
pub proof fn law_by_time(msgs: Seq<StoredView>, ts: u64)
    ensures
        in_time_order(by_time(msgs)),
        by_time(msgs).len() == msgs.len(),
        by_time(msgs).filter(dated(ts)) == msgs.filter(dated(ts)),
    decreases msgs.len(),
{
    reveal(Seq::filter);
    if msgs.len() > 0 {
        let init = msgs.drop_last();
        law_by_time(init, ts);
        lemma_insert_by_time(by_time(init), msgs.last(), ts);
        assert(by_time(init).push(msgs.last()).drop_last() =~= by_time(init));
    }
}

/// No message is newer than the latest, and the latest moment is that of a
/// message, unless it is zero.
pub proof fn law_latest(msgs: Seq<StoredView>)
    ensures
        forall|i: int| 0 <= i < msgs.len() ==> (#[trigger] msgs[i]).timestamp <= latest(msgs),
        latest(msgs) > 0 ==> exists|i: int|
            0 <= i < msgs.len() && (#[trigger] msgs[i]).timestamp == latest(msgs),
    decreases msgs.len(),
{
    if msgs.len() > 0 {
        let init = msgs.drop_last();
        law_latest(init);
        assert forall|i: int| 0 <= i < msgs.len() implies (#[trigger] msgs[i]).timestamp <= latest(
            msgs,
        ) by {
            if i < init.len() {
                assert(init[i].timestamp <= latest(init));
            }
        }
        if latest(msgs) > 0 {
            if msgs.last().timestamp > latest(init) {
                assert(msgs[msgs.len() - 1].timestamp == latest(msgs));
            } else {
                let i = choose|i: int|
                    0 <= i < init.len() && (#[trigger] init[i]).timestamp == latest(init);
                assert(msgs[i].timestamp == latest(msgs));
            }
        }
    }
}

/// Whoever asks for what is newer than the latest message they hold is not
/// sent anything they hold.
pub proof fn law_nothing_newer_than_latest(msgs: Seq<StoredView>)
    ensures
        by_time(msgs.filter(newer_than(latest(msgs)))).len() == 0,
{
    law_latest(msgs);
    let p = newer_than(latest(msgs));
    let kept = msgs.filter(p);
    if kept.len() > 0 {
        lemma_filter_member(msgs, p, 0);
    }
}

proof fn lemma_filter_member(msgs: Seq<StoredView>, p: spec_fn(StoredView) -> bool, k: int)
    requires
        0 <= k < msgs.filter(p).len(),
    ensures
        exists|i: int| 0 <= i < msgs.len() && #[trigger] msgs[i] == msgs.filter(p)[k],
        p(msgs.filter(p)[k]),
    decreases msgs.len(),
{
    reveal(Seq::filter);
    let init = msgs.drop_last();
    if k < init.filter(p).len() {
        lemma_filter_member(init, p, k);
        let i = choose|i: int| 0 <= i < init.len() && #[trigger] init[i] == init.filter(p)[k];
        assert(msgs[i] == msgs.filter(p)[k]);
    } else {
        assert(msgs[msgs.len() - 1] == msgs.filter(p)[k]);
    }
}

pub proof fn lemma_filter_contains(msgs: Seq<StoredView>, p: spec_fn(StoredView) -> bool, m: StoredView)
    ensures
        msgs.filter(p).contains(m) <==> msgs.contains(m) && p(m),
    decreases msgs.len(),
{
    reveal(Seq::filter);
    if msgs.len() > 0 {
        let init = msgs.drop_last();
        let kept = init.filter(p);
        lemma_filter_contains(init, p, m);
        if msgs.contains(m) && p(m) {
            let i = choose|i: int| 0 <= i < msgs.len() && msgs[i] == m;
            if i < init.len() {
                assert(init[i] == m);
                let k = choose|k: int| 0 <= k < kept.len() && kept[k] == m;
                assert(msgs.filter(p)[k] == m);
            } else {
                assert(msgs.filter(p)[kept.len() as int] == m);
            }
        }
        if msgs.filter(p).contains(m) {
            let k = choose|k: int| 0 <= k < msgs.filter(p).len() && msgs.filter(p)[k] == m;
            lemma_filter_member(msgs, p, k);
        }
    }
}

pub proof fn lemma_by_time_contains(msgs: Seq<StoredView>, m: StoredView)
    ensures
        by_time(msgs).contains(m) <==> msgs.contains(m),
{
    let p = dated(m.timestamp);
    law_by_time(msgs, m.timestamp);
    lemma_filter_contains(msgs, p, m);
    lemma_filter_contains(by_time(msgs), p, m);
}

/// Asking for what is newer than a moment finds every message that is, and
/// nothing else.
pub proof fn law_messages_since(msgs: Seq<StoredView>, since_ts: u64, m: StoredView)
    ensures
        by_time(msgs.filter(newer_than(since_ts))).contains(m) <==> msgs.contains(m) && m.timestamp
            > since_ts,
{
    lemma_by_time_contains(msgs.filter(newer_than(since_ts)), m);
    lemma_filter_contains(msgs, newer_than(since_ts), m);
}

/// Asking for what somebody sent and what has not been delivered finds every
/// such message, and nothing else.
pub proof fn law_pending_messages(msgs: Seq<StoredView>, sender_id: u128, m: StoredView)
    ensures
        by_time(msgs.filter(undelivered_from(sender_id))).contains(m) <==> msgs.contains(m)
            && m.pending && m.sender_id == sender_id,
{
    lemma_by_time_contains(msgs.filter(undelivered_from(sender_id)), m);
    lemma_filter_contains(msgs, undelivered_from(sender_id), m);
}

/// The table after the message under a key, if there is one, has been marked as
/// delivered.
pub open spec fn after_mark(table: Map<Seq<u8>, Seq<u8>>, key: Seq<u8>) -> Map<Seq<u8>, Seq<u8>> {
    if table.contains_key(key) {
        match stored_in(table[key]) {
            Some(m) => table.insert(key, stored_bytes(StoredView { pending: false, ..m })),
            None => table,
        }
    } else {
        table
    }
}

/// A message that was put into the table and then marked as delivered is found
/// in it as it was put, but for the mark.
pub proof fn law_marked_message_is_kept(table: Map<Seq<u8>, Seq<u8>>, m: StoredView)
    requires
        stored_fits(m),
    ensures
        held(
            after_mark(after_insert(table, m), message_key_of(m.peer_id, m.id)),
            m.peer_id,
            m.id,
        ) == Some(StoredView { pending: false, ..m }),
{
    law_stored_reads_back(m);
    law_stored_reads_back(StoredView { pending: false, ..m });
}

/// Marking a message as delivered leaves every other message as it was, adds
/// no message, and changes nothing where there is no such message.
pub proof fn law_mark_keeps_others(
    table: Map<Seq<u8>, Seq<u8>>,
    peer_id: u128,
    msg_id: Seq<char>,
    other_peer: u128,
    other_id: Seq<char>,
)
    ensures
        ({
            let key = message_key_of(peer_id, msg_id);
            let marked = after_mark(table, key);
            &&& other_peer != peer_id || other_id != msg_id ==> held(marked, other_peer, other_id)
                == held(table, other_peer, other_id)
            &&& marked.dom() == table.dom()
            &&& !table.contains_key(key) ==> marked == table
        }),
{
    let key = message_key_of(peer_id, msg_id);
    if message_key_of(other_peer, other_id) == key {
        law_keys_distinct(other_peer, other_id, peer_id, msg_id);
    }
    assert(after_mark(table, key).dom() =~= table.dom());
}

/// Marking a message as delivered twice is the same as marking it once.
pub proof fn law_marking_twice(table: Map<Seq<u8>, Seq<u8>>, key: Seq<u8>)
    ensures
        after_mark(after_mark(table, key), key) == after_mark(table, key),
{
    if table.contains_key(key) {
        if let Some(m) = stored_in(table[key]) {
            assert(begins_with_stored(table[key], m));
            let marked = StoredView { pending: false, ..m };
            law_stored_reads_back(marked);
            assert(after_mark(after_mark(table, key), key) =~= after_mark(table, key));
        }
    }
}

/// The key of a message is the peer's id in decimal, an underscore and the
/// message's id, all of it, in UTF-8; what all keys for one peer begin with is
/// what stands before the message's id.
pub proof fn law_key_text(peer_id: u128, msg_id: Seq<char>)
    ensures
        message_key_of(peer_id, msg_id) == encode_utf8(
            decimal(peer_id as nat) + seq!['_'] + msg_id,
        ),
        peer_prefix_of(peer_id) == encode_utf8(decimal(peer_id as nat) + seq!['_']),
{
}

/// Ordered by time, no message stands before an older one, none is lost and
/// none is added, and those that date from one moment stand as they stood.
pub proof fn law_time_order(msgs: Seq<StoredView>, ts: u64, m: StoredView)
    ensures
        forall|i: int, j: int|
            0 <= i <= j < by_time(msgs).len() ==> (#[trigger] by_time(msgs)[i]).timestamp <= (
            #[trigger] by_time(msgs)[j]).timestamp,
        by_time(msgs).len() == msgs.len(),
        by_time(msgs).contains(m) <==> msgs.contains(m),
        by_time(msgs).filter(|x: StoredView| x.timestamp == ts) == msgs.filter(
            |x: StoredView| x.timestamp == ts,
        ),
{
    law_by_time(msgs, ts);
    lemma_by_time_contains(msgs, m);
    assert(dated(ts) =~= (|x: StoredView| x.timestamp == ts));
    assert forall|i: int, j: int| 0 <= i <= j < by_time(msgs).len() implies (
    #[trigger] by_time(msgs)[i]).timestamp <= (#[trigger] by_time(msgs)[j]).timestamp by {
        assert(in_time_order(by_time(msgs)));
    }
}

/// What is looked for keeps its order and its number: of the messages that date
/// from one moment, those that are newer than a given one, or that somebody
/// sent and that have not been delivered, are found as often and in the order
/// in which they stand.
pub proof fn law_found_in_order(msgs: Seq<StoredView>, since_ts: u64, sender_id: u128)
    ensures
        msgs.filter(newer_than(since_ts)) == msgs.filter(
            |x: StoredView| x.timestamp > since_ts,
        ),
        msgs.filter(undelivered_from(sender_id)) == msgs.filter(
            |x: StoredView| x.pending && x.sender_id == sender_id,
        ),
{
    assert(newer_than(since_ts) =~= (|x: StoredView| x.timestamp > since_ts));
    assert(undelivered_from(sender_id) =~= (|x: StoredView|
        x.pending && x.sender_id == sender_id));
}

/// A stored message says what each part of it says, and a list of them what
/// each of them says, in order.
pub proof fn law_stored_message_says(m: StoredMessage, msgs: Seq<StoredMessage>)
    ensures
        m@.id == m.id@,
        m@.peer_id == m.peer_id,
        m@.sender_id == m.sender_id,
        m@.body == m.body@,
        m@.timestamp == m.timestamp,
        m@.nonce == m.nonce@,
        m@.ciphertext == m.ciphertext@,
        m@.signature == m.signature@,
        m@.pending == m.pending,
        stored_views(msgs).len() == msgs.len(),
        forall|i: int| 0 <= i < msgs.len() ==> #[trigger] stored_views(msgs)[i] == msgs[i]@,
{
}

/// Every entry is read, in its place.
pub proof fn law_messages_in(entries: Seq<Vec<u8>>)
    ensures
        entry_seqs(entries).len() == entries.len(),
        forall|i: int| 0 <= i < entries.len() ==> #[trigger] entry_seqs(entries)[i] == entries[i]@,
        messages_in(entry_seqs(entries)).len() == entries.len(),
        forall|i: int|
            0 <= i < entries.len() ==> #[trigger] messages_in(entry_seqs(entries))[i]
                == stored_in(entries[i]@)->0,
        all_hold(entry_seqs(entries)) <==> forall|i: int|
            0 <= i < entries.len() ==> stored_in((#[trigger] entries[i])@) is Some,
{
    if all_hold(entry_seqs(entries)) {
        lemma_all_hold(entries);
    } else {
        let i = choose|i: int|
            0 <= i < entries.len() && stored_in(#[trigger] entry_seqs(entries)[i]) is None;
        assert(stored_in(entries[i]@) is None);
    }
}

/// An error is about the first entry that holds no message, and about no other.
pub proof fn law_first_corrupt(entries: Seq<Seq<u8>>, text: Seq<char>, i: int)
    requires
        first_corrupt(entries, text),
    ensures
        exists|k: int|
            0 <= k < entries.len() && stored_in(#[trigger] entries[k]) is None && text
                == stored_decode_error(entries[k], usize::MAX),
        0 <= i < entries.len() && stored_in(entries[i]) is None && (forall|j: int|
            0 <= j < i ==> stored_in(#[trigger] entries[j]) is Some) ==> text
            == stored_decode_error(entries[i], usize::MAX),
{
    let k = choose|k: int|
        0 <= k < entries.len() && stored_in(#[trigger] entries[k]) is None && all_hold(
            entries.take(k),
        ) && text == entry_error(entries[k]);
    assert(stored_in(entries[k]) is None);
    if 0 <= i < entries.len() && stored_in(entries[i]) is None && (forall|j: int|
        0 <= j < i ==> stored_in(#[trigger] entries[j]) is Some) {
        if i < k {
            assert(entries.take(k)[i] == entries[i]);
            assert(stored_in(entries.take(k)[i]) is Some);
        }
        assert(i == k);
    }
}

} // verus!
