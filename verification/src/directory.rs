//! What the server keeps: who has registered, where clients can be reached,
//! and its own key.

use vstd::prelude::*;

use crate::bytes::{array_at, copy_bytes, extend_bytes};
use crate::primitives::{ed25519_generate, ed25519_public};
use crate::primitives::ed25519_public_key;

verus! {

/// A client that has registered.
#[derive(Debug, Clone)]
pub struct DiddyRecord {
    pub id: [u8; 16],
    pub pubkey: [u8; 32],
    pub salt: [u8; 16],
    pub pwd_hash: [u8; 32],
    pub signature: [u8; 64],
    pub created_at: i64,
}

/// What a `DiddyRecord` says.
pub struct RecordView {
    pub id: Seq<u8>,
    pub pubkey: Seq<u8>,
    pub salt: Seq<u8>,
    pub pwd_hash: Seq<u8>,
    pub signature: Seq<u8>,
    pub created_at: i64,
}

impl View for DiddyRecord {
    type V = RecordView;

    open spec fn view(&self) -> RecordView {
        RecordView {
            id: self.id@,
            pubkey: self.pubkey@,
            salt: self.salt@,
            pwd_hash: self.pwd_hash@,
            signature: self.signature@,
            created_at: self.created_at,
        }
    }
}

/// What a record that may be missing says.
pub open spec fn record_view(record: Option<DiddyRecord>) -> Option<RecordView> {
    match record {
        Some(r) => Some(r@),
        None => None,
    }
}

/// Where a client can be reached.
#[derive(Debug, Clone)]
pub struct PeerAnnouncement {
    pub diddy_id: [u8; 16],
    pub ip: Vec<u8>,
    pub tcp_port: u16,
    pub udp_port: u16,
    pub last_seen: i64,
}

/// What a `PeerAnnouncement` says.
pub struct AnnouncementView {
    pub diddy_id: Seq<u8>,
    pub ip: Seq<u8>,
    pub tcp_port: u16,
    pub udp_port: u16,
    pub last_seen: i64,
}

impl View for PeerAnnouncement {
    type V = AnnouncementView;

    open spec fn view(&self) -> AnnouncementView {
        AnnouncementView {
            diddy_id: self.diddy_id@,
            ip: self.ip@,
            tcp_port: self.tcp_port,
            udp_port: self.udp_port,
            last_seen: self.last_seen,
        }
    }
}

/// What an announcement that may be missing says.
pub open spec fn announcement_view(ann: Option<PeerAnnouncement>) -> Option<AnnouncementView> {
    match ann {
        Some(a) => Some(a@),
        None => None,
    }
}

// ---------------------------------------------------------------------------
// Rows
// ---------------------------------------------------------------------------

fn to_array<const N: usize>(blob: &Vec<u8>) -> (out: [u8; N])
    requires
        blob@.len() == N,
    ensures
        out@ == blob@,
{
    assert(blob@.subrange(0, N as int) =~= blob@);
    array_at(blob.as_slice(), 0)
}

/// The record in a row of the table of clients. Its columns have the lengths
/// with which records are written.
pub fn record_from_row(
    id: &Vec<u8>,
    pubkey: &Vec<u8>,
    salt: &Vec<u8>,
    pwd_hash: &Vec<u8>,
    signature: &Vec<u8>,
    created_at: i64,
) -> (record: DiddyRecord)
    requires
        id@.len() == 16,
        pubkey@.len() == 32,
        salt@.len() == 16,
        pwd_hash@.len() == 32,
        signature@.len() == 64,
    ensures
        record@ == (RecordView {
            id: id@,
            pubkey: pubkey@,
            salt: salt@,
            pwd_hash: pwd_hash@,
            signature: signature@,
            created_at,
        }),
        record.id@ == id@,
        record.pubkey@ == pubkey@,
        record.salt@ == salt@,
        record.pwd_hash@ == pwd_hash@,
        record.signature@ == signature@,
        record.created_at == created_at,
{
    DiddyRecord {
        id: to_array(id),
        pubkey: to_array(pubkey),
        salt: to_array(salt),
        pwd_hash: to_array(pwd_hash),
        signature: to_array(signature),
        created_at,
    }
}

/// The announcement in a row of the table of locations. An id of the wrong
/// length counts as zero.
pub fn announcement_from_row(
    diddy_id: &Vec<u8>,
    ip: Vec<u8>,
    tcp_port: u16,
    udp_port: u16,
    last_seen: i64,
) -> (ann: PeerAnnouncement)
    ensures
        ann@ == (AnnouncementView {
            diddy_id: if diddy_id@.len() == 16 {
                diddy_id@
            } else {
                Seq::new(16, |i: int| 0u8)
            },
            ip: ip@,
            tcp_port,
            udp_port,
            last_seen,
        }),
        diddy_id@.len() == 16 ==> ann.diddy_id@ == diddy_id@,
        diddy_id@.len() != 16 ==> forall|i: int| 0 <= i < 16 ==> #[trigger] ann.diddy_id@[i] == 0,
        ann.ip == ip,
        ann.tcp_port == tcp_port,
        ann.udp_port == udp_port,
        ann.last_seen == last_seen,
{
    let zero: [u8; 16] = [0u8; 16];
    assert(zero@ =~= Seq::new(16, |i: int| 0u8));
    PeerAnnouncement {
        diddy_id: if diddy_id.len() == 16 {
            to_array(diddy_id)
        } else {
            zero
        },
        ip,
        tcp_port,
        udp_port,
        last_seen,
    }
}

// ---------------------------------------------------------------------------
// The server's key
// ---------------------------------------------------------------------------

/// The server's signing key and the public key that it goes by.
pub struct Keypair {
    pub seed: [u8; 32],
    pub pubkey: [u8; 32],
}

impl Keypair {
    /// The signing key, then the public key.
    pub open spec fn blob(&self) -> Seq<u8> {
        self.seed@ + self.pubkey@
    }

    /// The keypair with a given signing key.
    pub fn from_seed(seed: [u8; 32]) -> (keypair: Keypair)
        ensures
            keypair.seed == seed,
            keypair.pubkey@ == ed25519_public_key(seed@),
    {
        Keypair { seed, pubkey: ed25519_public(&seed) }
    }

    /// A new random keypair.
    pub fn generate() -> (keypair: Keypair)
        ensures
            keypair.pubkey@ == ed25519_public_key(keypair.seed@),
    {
        Keypair::from_seed(ed25519_generate())
    }

    /// The bytes of the file in which the keypair is kept.
    pub fn to_bytes(&self) -> (bytes: Vec<u8>)
        ensures
            bytes@ == self.blob(),
            bytes@.len() == 64,
            bytes@.take(32) == self.seed@,
            bytes@.skip(32) == self.pubkey@,
    {
        let mut bytes = copy_bytes(self.seed.as_slice());
        extend_bytes(&mut bytes, self.pubkey.as_slice());
        assert(bytes@.take(32) =~= self.seed@);
        assert(bytes@.skip(32) =~= self.pubkey@);
        bytes
    }

    /// The keypair in a file, if the file is as long as it should be.
    pub fn from_bytes(bytes: &Vec<u8>) -> (keypair: Option<Keypair>)
        ensures
            match keypair {
                Some(k) => k.blob() == bytes@,
                None => bytes@.len() != 64,
            },
            keypair matches Some(k) ==> bytes@.len() == 64 && k.seed@ == bytes@.take(32)
                && k.pubkey@ == bytes@.skip(32),
    {
        if bytes.len() == 64 {
            let seed: [u8; 32] = array_at(bytes.as_slice(), 0);
            let pubkey: [u8; 32] = array_at(bytes.as_slice(), 32);
            let keypair = Keypair { seed, pubkey };
            assert(keypair.blob() =~= bytes@);
            assert(seed@ =~= bytes@.take(32));
            assert(pubkey@ =~= bytes@.skip(32));
            Some(keypair)
        } else {
            None
        }
    }
}

/// A keypair that was kept in a file is read from it as it was.
pub proof fn law_keypair_reads_back(kept: Keypair, read: Keypair)
    requires
        read.blob() == kept.blob(),
    ensures
        read.seed@ == kept.seed@,
        read.pubkey@ == kept.pubkey@,
{
    assert(kept.blob().take(32) =~= kept.seed@);
    assert(read.blob().take(32) =~= read.seed@);
    assert(kept.blob().skip(32) =~= kept.pubkey@);
    assert(read.blob().skip(32) =~= read.pubkey@);
}

/// A keypair is kept as its signing key, then its public key.
pub proof fn law_keypair_layout(keypair: Keypair)
    ensures
        keypair.blob().len() == 64,
        keypair.blob().take(32) == keypair.seed@,
        keypair.blob().skip(32) == keypair.pubkey@,
{
    assert(keypair.blob().take(32) =~= keypair.seed@);
    assert(keypair.blob().skip(32) =~= keypair.pubkey@);
}

/// A record and an announcement say what each part of them says.
pub proof fn law_rows_say(r: DiddyRecord, a: PeerAnnouncement)
    ensures
        r@.id == r.id@,
        r@.pubkey == r.pubkey@,
        r@.salt == r.salt@,
        r@.pwd_hash == r.pwd_hash@,
        r@.signature == r.signature@,
        r@.created_at == r.created_at,
        record_view(Some(r)) == Some(r@),
        record_view(None) is None,
        a@.diddy_id == a.diddy_id@,
        a@.ip == a.ip@,
        a@.tcp_port == a.tcp_port,
        a@.udp_port == a.udp_port,
        a@.last_seen == a.last_seen,
        announcement_view(Some(a)) == Some(a@),
        announcement_view(None) is None,
{
}

} // verus!
