//! How two peers who meet again catch up: each says how far it has come, and
//! each gives the other what it wrote since.

use vstd::prelude::*;

use crate::chat::{accepted_as, chat_of, received_text, sound, stored_of};
use crate::chat::{chat_from_stored, read_chat, Incoming};
use crate::chat::law_kept_message_is_sent_unchanged;
use crate::codec::{stored_bytes, stored_fits, stored_in};
use crate::decimal::decimal;
use crate::message_id::{id_in, law_id_texts_distinct};
use crate::message_id::InvalidId;
use crate::primitives::{uuid_error, uuid_text};
use crate::protocol::{chat_views, ChatMessage, ChatView, Packet, PacketView};
use crate::store::{
    after_insert, all_hold, by_time, entry_seqs, first_corrupt, held, latest, law_found_in_order,
    law_insert_then_get, law_keys_distinct, law_time_order, lemma_by_time_contains, lemma_filter_contains, message_key_of, messages_in,
    newer_than, stored_views,
};
use crate::store::{latest_timestamp, messages_since, CorruptEntry, StoredMessage, StoredView};

verus! {

/// Why two peers could not catch up.
#[derive(Debug, Clone, PartialEq, Eq)]
pub enum SyncError {
    /// The peer did not say how far it has come.
    ExpectedSyncRequest,
    /// The peer did not give what it wrote.
    ExpectedSyncGive,
    /// The table of messages holds something that is no message.
    CorruptEntry(CorruptEntry),
    /// A message in the table has an id that is no identifier.
    InvalidId(InvalidId),
}

impl SyncError {
    /// What to tell the user.
    pub open spec fn text(self) -> Seq<char> {
        match self {
            SyncError::ExpectedSyncRequest => "expected SyncRequest"@,
            SyncError::ExpectedSyncGive => "expected SyncGive"@,
            SyncError::CorruptEntry(e) => e.text@,
            SyncError::InvalidId(e) => e.text@,
        }
    }

    /// What to tell the user.
    pub fn message(&self) -> (text: String)
        ensures
            text@ == self.text(),
            match self {
                SyncError::ExpectedSyncRequest => text@ == "expected SyncRequest"@,
                SyncError::ExpectedSyncGive => text@ == "expected SyncGive"@,
                SyncError::CorruptEntry(e) => text@ == e.text@,
                SyncError::InvalidId(e) => text@ == e.text@,
            },
    {
        match self {
            SyncError::ExpectedSyncRequest => "expected SyncRequest".to_owned(),
            SyncError::ExpectedSyncGive => "expected SyncGive".to_owned(),
            SyncError::CorruptEntry(e) => e.text.clone(),
            SyncError::InvalidId(e) => e.text.clone(),
        }
    }
}

/// Written by `my_id`, and whole.
pub open spec fn written_by(my_id: u128) -> spec_fn(StoredView) -> bool {
    |m: StoredView| m.sender_id == my_id && sound(m)
}

/// Whether every message has an id that is an identifier.
pub open spec fn all_identified(msgs: Seq<StoredView>) -> bool {
    forall|i: int| 0 <= i < msgs.len() ==> chat_of(#[trigger] msgs[i]) is Some
}

/// `text` is what there is to say of the first message whose id is no
/// identifier.
pub open spec fn first_unidentified(msgs: Seq<StoredView>, text: Seq<char>) -> bool {
    exists|i: int|
        0 <= i < msgs.len() && chat_of(#[trigger] msgs[i]) is None && all_identified(
            msgs.take(i),
        ) && text == uuid_error(msgs[i].id)
}

/// Stored messages as they go over the wire.
pub open spec fn chats_of(msgs: Seq<StoredView>) -> Seq<ChatView> {
    msgs.map_values(|m: StoredView| chat_of(m)->0)
}

/// The messages that `my_id` gives a peer who has come as far as `since_ts`.
pub open spec fn to_give(msgs: Seq<StoredView>, since_ts: u64, my_id: u128) -> Seq<StoredView> {
    by_time(msgs.filter(newer_than(since_ts))).filter(written_by(my_id))
}

/// How far this side has come, for the peer to know.
pub fn sync_request(entries: &Vec<Vec<u8>>) -> (packet: Result<Packet, SyncError>)
    ensures
        match packet {
            Ok(p) => all_hold(entry_seqs(entries@)) && p@ == PacketView::SyncRequest(
                latest(messages_in(entry_seqs(entries@))),
            ),
            Err(e) => e matches SyncError::CorruptEntry(c) && first_corrupt(
                entry_seqs(entries@),
                c.text@,
            ),
        },
        packet matches Ok(p) ==> (p matches Packet::SyncRequest(t) && {
            &&& forall|i: int|
                0 <= i < entries@.len() ==> (stored_in((#[trigger] entries@[i])@) matches Some(m)
                    && m.timestamp <= t)
            &&& t > 0 ==> exists|i: int|
                0 <= i < entries@.len() && stored_in((#[trigger] entries@[i])@)->0.timestamp == t
        }),
{
    match latest_timestamp(entries) {
        Ok(ts) => Ok(Packet::SyncRequest(ts)),
        Err(e) => Err(SyncError::CorruptEntry(e)),
    }
}

/// How far the peer has come, from its packet.
pub fn requested_since(packet: &Packet) -> (since_ts: Result<u64, SyncError>)
    ensures
        match packet@ {
            PacketView::SyncRequest(ts) => since_ts matches Ok(t) && t == ts,
            _ => since_ts matches Err(e) && e is ExpectedSyncRequest,
        },
        match packet {
            Packet::SyncRequest(ts) => since_ts matches Ok(t) && t == *ts,
            _ => since_ts matches Err(e) && e is ExpectedSyncRequest,
        },
{
    match packet {
        Packet::SyncRequest(ts) => Ok(*ts),
        _ => Err(SyncError::ExpectedSyncRequest),
    }
}

proof fn lemma_mine_step(msgs: Seq<StoredView>, i: int, my_id: u128)
    requires
        0 <= i < msgs.len(),
    ensures
        msgs.take(i + 1).filter(written_by(my_id)) == if written_by(my_id)(msgs[i]) {
            msgs.take(i).filter(written_by(my_id)).push(msgs[i])
        } else {
            msgs.take(i).filter(written_by(my_id))
        },
{
    reveal(Seq::filter);
    assert(msgs.take(i + 1).drop_last() =~= msgs.take(i));
}

/// The messages among `msgs` that `my_id` wrote, as they go over the wire.
/// Messages that are not whole are left out.
pub fn chats_to_give(msgs: &Vec<StoredMessage>, my_id: u128) -> (chats: Result<
    Vec<ChatMessage>,
    InvalidId,
>)
    ensures
        match chats {
            Ok(c) => {
                let mine = stored_views(msgs@).filter(written_by(my_id));
                all_identified(mine) && chat_views(c@) == chats_of(mine)
            },
            Err(e) => first_unidentified(
                stored_views(msgs@).filter(written_by(my_id)),
                e.text@,
            ),
        },
        chats matches Ok(c) ==> {
            let mine = stored_views(msgs@).filter(written_by(my_id));
            &&& c@.len() == mine.len()
            &&& forall|i: int|
                0 <= i < c@.len() ==> {
                    &&& id_in(mine[i].id) == Some((#[trigger] c@[i]).id@)
                    &&& c@[i].from == my_id
                    &&& c@[i].from == mine[i].sender_id
                    &&& c@[i].to == mine[i].peer_id
                    &&& c@[i].timestamp == mine[i].timestamp
                    &&& c@[i].nonce@ == mine[i].nonce
                    &&& c@[i].ciphertext@ == mine[i].ciphertext
                    &&& c@[i].signature@ == mine[i].signature
                }
        },
{
    let ghost views = stored_views(msgs@);
    let ghost keep = written_by(my_id);
    let mut chats: Vec<ChatMessage> = Vec::new();
    let mut i: usize = 0;
    proof {
        reveal(Seq::filter);
        assert(chat_views(chats@) =~= chats_of(views.take(0).filter(keep)));
    }
    while i < msgs.len()
        invariant
            0 <= i <= msgs@.len(),
            views == stored_views(msgs@),
            keep == written_by(my_id),
            all_identified(views.take(i as int).filter(keep)),
            chat_views(chats@) == chats_of(views.take(i as int).filter(keep)),
        decreases msgs@.len() - i,
    {
        let m = &msgs[i];
        let ghost mine = views.take(i as int).filter(keep);
        proof {
            assert(views[i as int] == m@);
            lemma_mine_step(views, i as int, my_id);
        }
        if m.sender_id == my_id && m.nonce.len() == 12 && m.signature.len() == 64 {
            match chat_from_stored(m) {
                Ok(chat) => {
                    proof {
                        assert forall|j: int| 0 <= j < mine.len() + 1 implies chat_of(
                            #[trigger] mine.push(m@)[j],
                        ) is Some by {
                            if j < mine.len() {
                                assert(chat_of(mine[j]) is Some);
                            }
                        }
                        assert(chats_of(mine.push(m@)) =~= chats_of(mine).push(chat@));
                        assert(chat_views(chats@.push(chat)) =~= chat_views(chats@).push(chat@));
                    }
                    chats.push(chat);
                },
                Err(e) => {
                    proof {
                        lemma_filter_prefix(views, keep, i as int + 1);
                        let all = views.filter(keep);
                        assert(all[mine.len() as int] == views.take(i + 1).filter(
                            keep,
                        )[mine.len() as int]);
                        assert(chat_of(all[mine.len() as int]) is None);
                        assert(all.take(mine.len() as int) =~= mine) by {
                            assert forall|j: int| 0 <= j < mine.len() implies all[j]
                                == mine[j] by {
                                assert(all[j] == views.take(i + 1).filter(keep)[j]);
                            }
                        }
                    }
                    return Err(e);
                },
            }
        }
        i += 1;
    }
    assert(views.take(views.len() as int) =~= views);
    proof {
        lemma_wire_form(chats@, views.filter(keep));
        assert forall|j: int| 0 <= j < chats@.len() implies (#[trigger] chats@[j]).from
            == my_id by {
            assert(views.filter(keep).contains(views.filter(keep)[j]));
            lemma_filter_contains(views, keep, views.filter(keep)[j]);
        }
    }
    Ok(chats)
}

/// What is kept of the front of a list is the front of what is kept of it.
proof fn lemma_filter_prefix(msgs: Seq<StoredView>, keep: spec_fn(StoredView) -> bool, n: int)
    requires
        0 <= n <= msgs.len(),
    ensures
        msgs.take(n).filter(keep).is_prefix_of(msgs.filter(keep)),
        forall|i: int|
            0 <= i < msgs.take(n).filter(keep).len() ==> msgs.filter(keep)[i]
                == #[trigger] msgs.take(n).filter(keep)[i],
    decreases msgs.len(),
{
    reveal(Seq::filter);
    if n < msgs.len() {
        lemma_filter_prefix(msgs.drop_last(), keep, n);
        assert(msgs.drop_last().take(n) =~= msgs.take(n));
        assert forall|i: int| 0 <= i < msgs.take(n).filter(keep).len() implies msgs.filter(keep)[i]
            == #[trigger] msgs.take(n).filter(keep)[i] by {
            assert(msgs.drop_last().filter(keep)[i] == msgs.take(n).filter(keep)[i]);
        }
    } else {
        assert(msgs.take(n) =~= msgs);
    }
}

/// What this side wrote to a peer who has come as far as `since_ts`, out of
/// what the table holds for that peer.
pub fn sync_give(entries: &Vec<Vec<u8>>, since_ts: u64, my_id: u128) -> (packet: Result<
    Packet,
    SyncError,
>)
    ensures
        ({
            let seqs = entry_seqs(entries@);
            let mine = to_give(messages_in(seqs), since_ts, my_id);
            match packet {
                Ok(p) => all_hold(seqs) && all_identified(mine) && p@ == PacketView::SyncGive(
                    chats_of(mine),
                ),
                Err(SyncError::CorruptEntry(e)) => first_corrupt(seqs, e.text@),
                Err(SyncError::InvalidId(e)) => all_hold(seqs) && first_unidentified(
                    mine,
                    e.text@,
                ),
                Err(_) => false,
            }
        }),
        packet matches Ok(p) ==> (p matches Packet::SyncGive(chats) && {
            &&& forall|i: int|
                0 <= i < chats@.len() ==> (#[trigger] chats@[i]).from == my_id
                    && chats@[i].timestamp > since_ts
            &&& forall|i: int, j: int|
                0 <= i <= j < chats@.len() ==> (#[trigger] chats@[i]).timestamp <= (
                #[trigger] chats@[j]).timestamp
        }),
{
    match messages_since(entries, since_ts) {
        Ok(missed) => match chats_to_give(&missed, my_id) {
            Ok(chats) => {
                proof {
                    let msgs = messages_in(entry_seqs(entries@));
                    let mine = to_give(msgs, since_ts, my_id);
                    assert forall|j: int| 0 <= j < chats@.len() implies (
                    #[trigger] chats@[j]).timestamp > since_ts by {
                        assert(mine.contains(mine[j]));
                        law_given_messages(msgs, since_ts, my_id, mine[j]);
                    }
                    law_given_in_order(msgs, since_ts, my_id);
                    assert forall|i: int, j: int| 0 <= i <= j < chats@.len() implies (
                    #[trigger] chats@[i]).timestamp <= (#[trigger] chats@[j]).timestamp by {
                        assert(mine[i].timestamp <= mine[j].timestamp);
                    }
                }
                Ok(Packet::SyncGive(chats))
            },
            Err(e) => Err(SyncError::InvalidId(e)),
        },
        Err(e) => Err(SyncError::CorruptEntry(e)),
    }
}

/// What the peer wrote, from its packet.
pub fn given(packet: Packet) -> (chats: Result<Vec<ChatMessage>, SyncError>)
    ensures
        match packet@ {
            PacketView::SyncGive(views) => chats matches Ok(c) && chat_views(c@) == views,
            _ => chats matches Err(e) && e is ExpectedSyncGive,
        },
        match packet {
            Packet::SyncGive(c) => chats matches Ok(d) && d == c,
            _ => chats matches Err(e) && e is ExpectedSyncGive,
        },
{
    match packet {
        Packet::SyncGive(chats) => Ok(chats),
        _ => Err(SyncError::ExpectedSyncGive),
    }
}

/// What to make of a message that the peer gave, given whether it is kept
/// already. One that is kept, that the peer did not sign or that `key` does not
/// open is passed over.
pub fn take_in(
    chat: &ChatMessage,
    known: bool,
    peer_pubkey: &[u8; 32],
    key: &[u8; 32],
    peer_id: u128,
    my_id: u128,
) -> (incoming: Option<Incoming>)
    ensures
        match received_text(chat@, peer_pubkey@, key@) {
            Some(body) => if known {
                incoming is None
            } else {
                incoming matches Some(i) && accepted_as(chat@, peer_id, my_id, body, i)
            },
            None => incoming is None,
        },
        known ==> incoming is None,
        incoming matches Some(i) ==> {
            &&& i.stored.id@ == uuid_text(chat.id@)
            &&& i.stored.peer_id == peer_id
            &&& i.stored.sender_id == chat.from
            &&& received_text(chat@, peer_pubkey@, key@) == Some(i.stored.body@)
            &&& i.stored.timestamp == chat.timestamp
            &&& i.stored.nonce@ == chat.nonce@
            &&& i.stored.ciphertext@ == chat.ciphertext@
            &&& i.stored.signature@ == chat.signature@
            &&& !i.stored.pending
            &&& i.display@ == (if chat.from == my_id {
                "you"@
            } else {
                decimal(chat.from as nat)
            }) + ":\n"@ + i.stored.body@
        },
{
    if known {
        None
    } else {
        read_chat(chat, peer_pubkey, key, peer_id, my_id)
    }
}

// ---------------------------------------------------------------------------
// What catching up amounts to
// ---------------------------------------------------------------------------

/// A peer is given exactly those messages that this side wrote, that are whole
/// and that are newer than anything the peer has.
pub proof fn law_given_messages(msgs: Seq<StoredView>, since_ts: u64, my_id: u128, m: StoredView)
    ensures
        to_give(msgs, since_ts, my_id).contains(m) <==> msgs.contains(m) && m.timestamp > since_ts
            && m.sender_id == my_id && sound(m),
        to_give(msgs, since_ts, my_id).contains(m) <==> msgs.contains(m) && m.timestamp > since_ts
            && m.sender_id == my_id && m.nonce.len() == 12 && m.signature.len() == 64,
{
    let newer = msgs.filter(newer_than(since_ts));
    lemma_filter_contains(by_time(newer), written_by(my_id), m);
    lemma_by_time_contains(newer, m);
    lemma_filter_contains(msgs, newer_than(since_ts), m);
}

proof fn lemma_wire_form(chats: Seq<ChatMessage>, mine: Seq<StoredView>)
    requires
        all_identified(mine),
        chat_views(chats) == chats_of(mine),
    ensures
        chats.len() == mine.len(),
        forall|i: int|
            0 <= i < chats.len() ==> {
                &&& id_in(mine[i].id) == Some((#[trigger] chats[i]).id@)
                &&& chats[i].from == mine[i].sender_id
                &&& chats[i].to == mine[i].peer_id
                &&& chats[i].timestamp == mine[i].timestamp
                &&& chats[i].nonce@ == mine[i].nonce
                &&& chats[i].ciphertext@ == mine[i].ciphertext
                &&& chats[i].signature@ == mine[i].signature
            },
{
    assert(chat_views(chats).len() == chats.len());
    assert forall|i: int| 0 <= i < chats.len() implies {
        &&& id_in(mine[i].id) == Some((#[trigger] chats[i]).id@)
        &&& chats[i].from == mine[i].sender_id
        &&& chats[i].to == mine[i].peer_id
        &&& chats[i].timestamp == mine[i].timestamp
        &&& chats[i].nonce@ == mine[i].nonce
        &&& chats[i].ciphertext@ == mine[i].ciphertext
        &&& chats[i].signature@ == mine[i].signature
    } by {
        assert(chat_views(chats)[i] == chats[i]@);
        assert(chats_of(mine)[i] == chat_of(mine[i])->0);
        assert(chat_of(mine[i]) is Some);
    }
}

proof fn lemma_filter_keeps_order(msgs: Seq<StoredView>, keep: spec_fn(StoredView) -> bool)
    requires
        forall|i: int, j: int|
            0 <= i <= j < msgs.len() ==> (#[trigger] msgs[i]).timestamp <= (
            #[trigger] msgs[j]).timestamp,
    ensures
        forall|i: int, j: int|
            0 <= i <= j < msgs.filter(keep).len() ==> (#[trigger] msgs.filter(keep)[i]).timestamp
                <= (#[trigger] msgs.filter(keep)[j]).timestamp,
    decreases msgs.len(),
{
    reveal(Seq::filter);
    if msgs.len() > 0 {
        let init = msgs.drop_last();
        let kept = init.filter(keep);
        assert forall|i: int, j: int| 0 <= i <= j < init.len() implies (
        #[trigger] init[i]).timestamp <= (#[trigger] init[j]).timestamp by {
            assert(msgs[i].timestamp <= msgs[j].timestamp);
        }
        lemma_filter_keeps_order(init, keep);
        assert forall|i: int, j: int| 0 <= i <= j < msgs.filter(keep).len() implies (
        #[trigger] msgs.filter(keep)[i]).timestamp <= (
        #[trigger] msgs.filter(keep)[j]).timestamp by {
            if j < kept.len() {
                assert(kept[i].timestamp <= kept[j].timestamp);
            } else if i < kept.len() {
                assert(kept.contains(kept[i]));
                lemma_filter_contains(init, keep, kept[i]);
                let k = choose|k: int| 0 <= k < init.len() && init[k] == kept[i];
                assert(msgs[k].timestamp <= msgs[msgs.len() - 1].timestamp);
            }
        }
    }
}

/// A peer is given what it missed from the oldest to the newest.
pub proof fn law_given_in_order(msgs: Seq<StoredView>, since_ts: u64, my_id: u128)
    ensures
        forall|i: int, j: int|
            0 <= i <= j < to_give(msgs, since_ts, my_id).len() ==> (#[trigger] to_give(
                msgs,
                since_ts,
                my_id,
            )[i]).timestamp <= (#[trigger] to_give(msgs, since_ts, my_id)[j]).timestamp,
{
    let newer = msgs.filter(newer_than(since_ts));
    law_time_order(newer, 0, newer[0]);
    lemma_filter_keeps_order(by_time(newer), written_by(my_id));
}

/// What is given keeps its number too: it is what is newer, in order, without
/// what others wrote and what is not whole.
pub proof fn law_given_is_what_is_newer(msgs: Seq<StoredView>, since_ts: u64, my_id: u128)
    ensures
        to_give(msgs, since_ts, my_id) == by_time(
            msgs.filter(|x: StoredView| x.timestamp > since_ts),
        ).filter(
            |x: StoredView| x.sender_id == my_id && x.nonce.len() == 12 && x.signature.len() == 64,
        ),
{
    law_found_in_order(msgs, since_ts, my_id);
    assert(written_by(my_id) =~= (|x: StoredView|
        x.sender_id == my_id && x.nonce.len() == 12 && x.signature.len() == 64));
}

/// Every message that is given goes over the wire in its place, with every part
/// of it.
pub proof fn law_wire_form(mine: Seq<StoredView>)
    ensures
        chats_of(mine).len() == mine.len(),
        all_identified(mine) <==> forall|i: int|
            0 <= i < mine.len() ==> id_in((#[trigger] mine[i]).id) is Some,
        all_identified(mine) ==> forall|i: int|
            0 <= i < mine.len() ==> {
                let c = #[trigger] chats_of(mine)[i];
                &&& id_in(mine[i].id) == Some(c.id)
                &&& c.from == mine[i].sender_id
                &&& c.to == mine[i].peer_id
                &&& c.timestamp == mine[i].timestamp
                &&& c.nonce == mine[i].nonce
                &&& c.ciphertext == mine[i].ciphertext
                &&& c.signature == mine[i].signature
            },
{
    if !all_identified(mine) {
        let i = choose|i: int| 0 <= i < mine.len() && chat_of(#[trigger] mine[i]) is None;
        assert(id_in(mine[i].id) is None);
    } else {
        assert forall|i: int| 0 <= i < mine.len() implies id_in((#[trigger] mine[i]).id) is Some by {
            assert(chat_of(mine[i]) is Some);
        }
        assert forall|i: int| 0 <= i < mine.len() implies {
            let c = #[trigger] chats_of(mine)[i];
            &&& id_in(mine[i].id) == Some(c.id)
            &&& c.from == mine[i].sender_id
            &&& c.to == mine[i].peer_id
            &&& c.timestamp == mine[i].timestamp
            &&& c.nonce == mine[i].nonce
            &&& c.ciphertext == mine[i].ciphertext
            &&& c.signature == mine[i].signature
        } by {
            assert(chat_of(mine[i]) is Some);
        }
    }
}

/// An error is about the first message whose id is no identifier, and about no
/// other.
pub proof fn law_first_unidentified(msgs: Seq<StoredView>, text: Seq<char>, i: int)
    requires
        first_unidentified(msgs, text),
    ensures
        exists|k: int|
            0 <= k < msgs.len() && id_in((#[trigger] msgs[k]).id) is None && text == uuid_error(
                msgs[k].id,
            ),
        0 <= i < msgs.len() && id_in(msgs[i].id) is None && (forall|j: int|
            0 <= j < i ==> id_in((#[trigger] msgs[j]).id) is Some) ==> text == uuid_error(
            msgs[i].id,
        ),
{
    let k = choose|k: int|
        0 <= k < msgs.len() && chat_of(#[trigger] msgs[k]) is None && all_identified(msgs.take(k))
            && text == uuid_error(msgs[k].id);
    assert(id_in(msgs[k].id) is None);
    if 0 <= i < msgs.len() && id_in(msgs[i].id) is None && (forall|j: int|
        0 <= j < i ==> id_in((#[trigger] msgs[j]).id) is Some) {
        if i < k {
            assert(msgs.take(k)[i] == msgs[i]);
            assert(chat_of(msgs.take(k)[i]) is Some);
        }
        assert(i == k);
    }
}

/// A message that was written to a peer and that is newer than anything the
/// peer has reaches the peer as it was written.
pub proof fn law_missed_message_is_given(
    msgs: Seq<StoredView>,
    since_ts: u64,
    c: ChatView,
    body: Seq<char>,
    pending: bool,
)
    requires
        c.id.len() == 16,
        c.nonce.len() == 12,
        c.signature.len() == 64,
        msgs.contains(stored_of(c, c.to, body, pending)),
        c.timestamp > since_ts,
    ensures
        chats_of(to_give(msgs, since_ts, c.from)).contains(c),
{
    let m = stored_of(c, c.to, body, pending);
    let mine = to_give(msgs, since_ts, c.from);
    law_given_messages(msgs, since_ts, c.from, m);
    law_kept_message_is_sent_unchanged(c, body, pending);
    let i = choose|i: int| 0 <= i < mine.len() && mine[i] == m;
    assert(chats_of(mine)[i] == c);
}

/// The table after a message that `peer_id` gave has been dealt with: it is put
/// into the table if it can be read and its key is free.
pub open spec fn after_take_in(
    table: Map<Seq<u8>, Seq<u8>>,
    c: ChatView,
    peer_id: u128,
    peer_pubkey: Seq<u8>,
    key: Seq<u8>,
) -> Map<Seq<u8>, Seq<u8>> {
    if table.contains_key(message_key_of(peer_id, uuid_text(c.id))) {
        table
    } else {
        match received_text(c, peer_pubkey, key) {
            Some(body) => after_insert(table, stored_of(c, peer_id, body, false)),
            None => table,
        }
    }
}

/// The table after all messages that `peer_id` gave have been dealt with, one
/// after the other.
pub open spec fn after_sync(
    table: Map<Seq<u8>, Seq<u8>>,
    chats: Seq<ChatView>,
    peer_id: u128,
    peer_pubkey: Seq<u8>,
    key: Seq<u8>,
) -> Map<Seq<u8>, Seq<u8>>
    decreases chats.len(),
{
    if chats.len() == 0 {
        table
    } else {
        after_take_in(
            after_sync(table, chats.drop_last(), peer_id, peer_pubkey, key),
            chats.last(),
            peer_id,
            peer_pubkey,
            key,
        )
    }
}

/// Catching up leaves everything that is in the table as it is.
pub proof fn law_sync_overwrites_nothing(
    table: Map<Seq<u8>, Seq<u8>>,
    chats: Seq<ChatView>,
    peer_id: u128,
    peer_pubkey: Seq<u8>,
    key: Seq<u8>,
    entry_key: Seq<u8>,
)
    requires
        table.contains_key(entry_key),
    ensures
        ({
            let after = after_sync(table, chats, peer_id, peer_pubkey, key);
            after.contains_key(entry_key) && after[entry_key] == table[entry_key]
        }),
    decreases chats.len(),
{
    if chats.len() > 0 {
        law_sync_overwrites_nothing(
            table,
            chats.drop_last(),
            peer_id,
            peer_pubkey,
            key,
            entry_key,
        );
    }
}

/// Message `i` is the first of `chats` that can be read and has its id.
pub open spec fn first_readable(
    chats: Seq<ChatView>,
    i: int,
    peer_pubkey: Seq<u8>,
    key: Seq<u8>,
) -> bool {
    &&& received_text(chats[i], peer_pubkey, key) is Some
    &&& forall|j: int|
        0 <= j < i && (#[trigger] chats[j]).id == chats[i].id ==> received_text(
            chats[j],
            peer_pubkey,
            key,
        ) is None
}

/// After catching up, the table has an entry for every message that the peer
/// gave, signed and readable. If it had none before, the entry is what the first
/// readable message with that id comes to.
pub proof fn law_sync_takes_in(
    table: Map<Seq<u8>, Seq<u8>>,
    chats: Seq<ChatView>,
    i: int,
    peer_id: u128,
    peer_pubkey: Seq<u8>,
    key: Seq<u8>,
)
    requires
        0 <= i < chats.len(),
        forall|j: int| 0 <= j < chats.len() ==> (#[trigger] chats[j]).id.len() == 16,
        received_text(chats[i], peer_pubkey, key) is Some,
    ensures
        ({
            let after = after_sync(table, chats, peer_id, peer_pubkey, key);
            let entry_key = message_key_of(peer_id, uuid_text(chats[i].id));
            let stored = stored_of(
                chats[i],
                peer_id,
                received_text(chats[i], peer_pubkey, key)->0,
                false,
            );
            &&& after.contains_key(entry_key)
            &&& !table.contains_key(entry_key) && first_readable(chats, i, peer_pubkey, key) ==> {
                &&& after[entry_key] == stored_bytes(stored)
                &&& stored_fits(stored) ==> held(after, peer_id, uuid_text(chats[i].id)) == Some(
                    stored,
                )
            }
        }),
    decreases chats.len(),
{
    let init = chats.drop_last();
    let before = after_sync(table, init, peer_id, peer_pubkey, key);
    let entry_key = message_key_of(peer_id, uuid_text(chats[i].id));
    let stored = stored_of(
        chats[i],
        peer_id,
        received_text(chats[i], peer_pubkey, key)->0,
        false,
    );
    assert forall|j: int| 0 <= j < init.len() implies (#[trigger] init[j]).id.len() == 16 by {
        assert(chats[j].id.len() == 16);
    }
    if stored_fits(stored) {
        law_insert_then_get(before, stored);
    }
    if i < init.len() {
        law_sync_takes_in(table, init, i, peer_id, peer_pubkey, key);
        if first_readable(chats, i, peer_pubkey, key) {
            assert(first_readable(init, i, peer_pubkey, key)) by {
                assert forall|j: int|
                    0 <= j < i && (#[trigger] init[j]).id == init[i].id implies received_text(
                    init[j],
                    peer_pubkey,
                    key,
                ) is None by {
                    assert(chats[j].id == chats[i].id);
                }
            }
        }
    } else if !table.contains_key(entry_key) && first_readable(chats, i, peer_pubkey, key) {
        assert forall|j: int| 0 <= j < init.len() implies (#[trigger] init[j]).id.len() == 16 && (
        init[j].id != chats[i].id || received_text(init[j], peer_pubkey, key) is None) by {
            assert(chats[j].id == init[j].id);
        }
        lemma_untouched_key(table, init, peer_id, peer_pubkey, key, chats[i].id);
    }
}

/// Catching up adds nothing to the table but messages that the peer gave,
/// signed and readable: each new entry is what the first readable message with
/// its id comes to.
pub proof fn law_sync_adds_only_what_is_given(
    table: Map<Seq<u8>, Seq<u8>>,
    chats: Seq<ChatView>,
    peer_id: u128,
    peer_pubkey: Seq<u8>,
    key: Seq<u8>,
    entry_key: Seq<u8>,
)
    requires
        forall|j: int| 0 <= j < chats.len() ==> (#[trigger] chats[j]).id.len() == 16,
        after_sync(table, chats, peer_id, peer_pubkey, key).contains_key(entry_key),
        !table.contains_key(entry_key),
    ensures
        exists|i: int|
            0 <= i < chats.len() && entry_key == message_key_of(
                peer_id,
                uuid_text((#[trigger] chats[i]).id),
            ) && first_readable(chats, i, peer_pubkey, key) && after_sync(
                table,
                chats,
                peer_id,
                peer_pubkey,
                key,
            )[entry_key] == stored_bytes(
                stored_of(
                    chats[i],
                    peer_id,
                    received_text(chats[i], peer_pubkey, key)->0,
                    false,
                ),
            ),
{
    lemma_entry_has_source(table, chats, peer_id, peer_pubkey, key, entry_key);
    let i = choose|i: int|
        0 <= i < chats.len() && entry_key == message_key_of(
            peer_id,
            uuid_text((#[trigger] chats[i]).id),
        ) && first_readable(chats, i, peer_pubkey, key);
    law_sync_takes_in(table, chats, i, peer_id, peer_pubkey, key);
}

proof fn lemma_entry_has_source(
    table: Map<Seq<u8>, Seq<u8>>,
    chats: Seq<ChatView>,
    peer_id: u128,
    peer_pubkey: Seq<u8>,
    key: Seq<u8>,
    entry_key: Seq<u8>,
)
    requires
        after_sync(table, chats, peer_id, peer_pubkey, key).contains_key(entry_key),
        !table.contains_key(entry_key),
    ensures
        exists|i: int|
            0 <= i < chats.len() && entry_key == message_key_of(
                peer_id,
                uuid_text((#[trigger] chats[i]).id),
            ) && first_readable(chats, i, peer_pubkey, key),
    decreases chats.len(),
{
    if chats.len() > 0 {
        let init = chats.drop_last();
        let before = after_sync(table, init, peer_id, peer_pubkey, key);
        if before.contains_key(entry_key) {
            lemma_entry_has_source(table, init, peer_id, peer_pubkey, key, entry_key);
            let i = choose|i: int|
                0 <= i < init.len() && entry_key == message_key_of(
                    peer_id,
                    uuid_text((#[trigger] init[i]).id),
                ) && first_readable(init, i, peer_pubkey, key);
            assert(chats[i] == init[i]);
            assert forall|j: int|
                0 <= j < i && (#[trigger] chats[j]).id == chats[i].id implies received_text(
                chats[j],
                peer_pubkey,
                key,
            ) is None by {
                assert(init[j].id == init[i].id);
            }
        } else {
            let k = chats.len() - 1;
            let last = chats[k];
            assert(entry_key == message_key_of(peer_id, uuid_text(last.id)));
            assert forall|j: int|
                0 <= j < k && (#[trigger] chats[j]).id == last.id implies received_text(
                chats[j],
                peer_pubkey,
                key,
            ) is None by {
                lemma_dealt_with(table, init, j, peer_id, peer_pubkey, key);
                assert(init[j] == chats[j]);
            }
            assert(first_readable(chats, k, peer_pubkey, key));
        }
    }
}

/// A message that has been dealt with is in the table or cannot be read.
proof fn lemma_dealt_with(
    table: Map<Seq<u8>, Seq<u8>>,
    chats: Seq<ChatView>,
    i: int,
    peer_id: u128,
    peer_pubkey: Seq<u8>,
    key: Seq<u8>,
)
    requires
        0 <= i < chats.len(),
    ensures
        after_sync(table, chats, peer_id, peer_pubkey, key).contains_key(
            message_key_of(peer_id, uuid_text(chats[i].id)),
        ) || received_text(chats[i], peer_pubkey, key) is None,
    decreases chats.len(),
{
    if i < chats.len() - 1 {
        lemma_dealt_with(table, chats.drop_last(), i, peer_id, peer_pubkey, key);
    }
}

proof fn lemma_nothing_to_add(
    table: Map<Seq<u8>, Seq<u8>>,
    chats: Seq<ChatView>,
    peer_id: u128,
    peer_pubkey: Seq<u8>,
    key: Seq<u8>,
)
    requires
        forall|i: int|
            0 <= i < chats.len() ==> table.contains_key(
                message_key_of(peer_id, uuid_text((#[trigger] chats[i]).id)),
            ) || received_text(chats[i], peer_pubkey, key) is None,
    ensures
        after_sync(table, chats, peer_id, peer_pubkey, key) == table,
    decreases chats.len(),
{
    if chats.len() > 0 {
        let init = chats.drop_last();
        assert forall|i: int| 0 <= i < init.len() implies table.contains_key(
            message_key_of(peer_id, uuid_text((#[trigger] init[i]).id)),
        ) || received_text(init[i], peer_pubkey, key) is None by {
            assert(chats[i] == init[i]);
        }
        lemma_nothing_to_add(table, init, peer_id, peer_pubkey, key);
        assert(chats[chats.len() - 1] == chats.last());
    }
}

/// Being given the same messages again changes nothing.
pub proof fn law_sync_again_changes_nothing(
    table: Map<Seq<u8>, Seq<u8>>,
    chats: Seq<ChatView>,
    peer_id: u128,
    peer_pubkey: Seq<u8>,
    key: Seq<u8>,
)
    ensures
        ({
            let after = after_sync(table, chats, peer_id, peer_pubkey, key);
            after_sync(after, chats, peer_id, peer_pubkey, key) == after
        }),
{
    let after = after_sync(table, chats, peer_id, peer_pubkey, key);
    assert forall|i: int| 0 <= i < chats.len() implies after.contains_key(
        message_key_of(peer_id, uuid_text((#[trigger] chats[i]).id)),
    ) || received_text(chats[i], peer_pubkey, key) is None by {
        lemma_dealt_with(table, chats, i, peer_id, peer_pubkey, key);
    }
    lemma_nothing_to_add(after, chats, peer_id, peer_pubkey, key);
}

/// Messages that have other ids or cannot be read leave a key as free as it
/// was.
proof fn lemma_untouched_key(
    table: Map<Seq<u8>, Seq<u8>>,
    chats: Seq<ChatView>,
    peer_id: u128,
    peer_pubkey: Seq<u8>,
    key: Seq<u8>,
    id: Seq<u8>,
)
    requires
        id.len() == 16,
        forall|j: int|
            0 <= j < chats.len() ==> (#[trigger] chats[j]).id.len() == 16 && (chats[j].id != id
                || received_text(chats[j], peer_pubkey, key) is None),
        !table.contains_key(message_key_of(peer_id, uuid_text(id))),
    ensures
        !after_sync(table, chats, peer_id, peer_pubkey, key).contains_key(
            message_key_of(peer_id, uuid_text(id)),
        ),
    decreases chats.len(),
{
    if chats.len() > 0 {
        let init = chats.drop_last();
        assert forall|j: int| 0 <= j < init.len() implies (#[trigger] init[j]).id.len() == 16 && (
        init[j].id != id || received_text(init[j], peer_pubkey, key) is None) by {
            assert(chats[j] == init[j]);
        }
        lemma_untouched_key(table, init, peer_id, peer_pubkey, key, id);
        let last = chats[chats.len() - 1];
        assert(last.id.len() == 16);
        if message_key_of(peer_id, uuid_text(last.id)) == message_key_of(peer_id, uuid_text(id)) {
            law_keys_distinct(peer_id, uuid_text(last.id), peer_id, uuid_text(id));
            law_id_texts_distinct(last.id, id);
        }
    }
}

} // verus!
