//! Identifiers of messages, as sixteen bytes and as text.

use vstd::prelude::*;

use crate::decimal::lemma_digit_char;
use crate::primitives::{ascii_lower, denotes_uuid, hex_char, hex_text, uuid_error, uuid_text};
use crate::primitives::{uuid_generate, uuid_parse, uuid_to_string};

verus! {

/// A text that stands for no identifier, and what `uuid` has to say of it.
#[derive(Debug, Clone, PartialEq, Eq)]
pub struct InvalidId {
    pub text: String,
}

/// The identifier that a text stands for, if it stands for one.
pub open spec fn id_in(text: Seq<char>) -> Option<Seq<u8>> {
    if exists|id: Seq<u8>| denotes_uuid(text, id) {
        Some(choose|id: Seq<u8>| denotes_uuid(text, id))
    } else {
        None
    }
}

/// A random identifier, but for the bits that mark random identifiers.
pub fn fresh_id() -> (id: [u8; 16])
    ensures
        0x40 <= id@[6] < 0x50,
        0x80 <= id@[8] < 0xc0,
{
    uuid_generate()
}

/// An identifier as text.
pub fn id_text(id: &[u8; 16]) -> (text: String)
    ensures
        text@ == uuid_text(id@),
        id_in(text@) == Some(id@),
{
    proof {
        law_id_reads_back(id@);
    }
    uuid_to_string(id)
}

/// The identifier that a text stands for.
pub fn parse_id(text: &str) -> (parsed: Result<[u8; 16], InvalidId>)
    ensures
        match parsed {
            Ok(id) => id_in(text@) == Some(id@),
            Err(e) => id_in(text@) is None && e.text@ == uuid_error(text@),
        },
{
    match uuid_parse(text) {
        Ok(id) => {
            proof {
                law_id_unique(text@, id@, id_in(text@)->0);
            }
            Ok(id)
        },
        Err(text) => Err(InvalidId { text }),
    }
}

proof fn lemma_hex_char(a: nat, b: nat)
    requires
        a < 16,
        b < 16,
    ensures
        hex_char(a) == hex_char(b) ==> a == b,
        ascii_lower(hex_char(a)) == hex_char(a),
{
    if a < 10 {
        lemma_digit_char(a);
    }
    if b < 10 {
        lemma_digit_char(b);
    }
}

proof fn lemma_hex_len(s: Seq<u8>)
    ensures
        hex_text(s).len() == 2 * s.len(),
    decreases s.len(),
{
    if s.len() > 0 {
        lemma_hex_len(s.drop_first());
    }
}

proof fn lemma_hex_lower(s: Seq<u8>)
    ensures
        forall|i: int| 0 <= i < hex_text(s).len() ==> ascii_lower(#[trigger] hex_text(s)[i])
            == hex_text(s)[i],
    decreases s.len(),
{
    if s.len() > 0 {
        lemma_hex_lower(s.drop_first());
        lemma_hex_char(s[0] as nat / 16, s[0] as nat % 16);
        lemma_hex_char(s[0] as nat % 16, s[0] as nat / 16);
        let rest = hex_text(s.drop_first());
        assert forall|i: int| 0 <= i < hex_text(s).len() implies ascii_lower(
            #[trigger] hex_text(s)[i],
        ) == hex_text(s)[i] by {
            if i >= 2 {
                assert(hex_text(s)[i] == rest[i - 2]);
            }
        }
    }
}

proof fn lemma_hex_injective(s: Seq<u8>, t: Seq<u8>)
    requires
        hex_text(s) == hex_text(t),
    ensures
        s == t,
    decreases s.len(),
{
    lemma_hex_len(s);
    lemma_hex_len(t);
    if s.len() == 0 {
        assert(s =~= t);
    } else {
        let a = seq![hex_char(s[0] as nat / 16), hex_char(s[0] as nat % 16)];
        let b = seq![hex_char(t[0] as nat / 16), hex_char(t[0] as nat % 16)];
        let x = hex_text(s.drop_first());
        let y = hex_text(t.drop_first());
        assert(x =~= (a + x).skip(2));
        assert(y =~= (b + y).skip(2));
        lemma_hex_injective(s.drop_first(), t.drop_first());
        assert((a + x)[0] == a[0] && (b + y)[0] == b[0]);
        assert((a + x)[1] == a[1] && (b + y)[1] == b[1]);
        lemma_hex_char(s[0] as nat / 16, t[0] as nat / 16);
        lemma_hex_char(s[0] as nat % 16, t[0] as nat % 16);
        assert(s[0] == t[0]);
        assert(s =~= seq![s[0]] + s.drop_first());
        assert(t =~= seq![t[0]] + t.drop_first());
    }
}

/// Where the groups of an identifier's text stand.
proof fn lemma_uuid_shape(id: Seq<u8>)
    requires
        id.len() == 16,
    ensures
        uuid_text(id).len() == 36,
        uuid_text(id).subrange(0, 8) == hex_text(id.subrange(0, 4)),
        uuid_text(id).subrange(9, 13) == hex_text(id.subrange(4, 6)),
        uuid_text(id).subrange(14, 18) == hex_text(id.subrange(6, 8)),
        uuid_text(id).subrange(19, 23) == hex_text(id.subrange(8, 10)),
        uuid_text(id).subrange(24, 36) == hex_text(id.subrange(10, 16)),
        uuid_text(id)[8] == '-',
        uuid_text(id)[13] == '-',
        uuid_text(id)[18] == '-',
        uuid_text(id)[23] == '-',
{
    lemma_hex_len(id.subrange(0, 4));
    lemma_hex_len(id.subrange(4, 6));
    lemma_hex_len(id.subrange(6, 8));
    lemma_hex_len(id.subrange(8, 10));
    lemma_hex_len(id.subrange(10, 16));
    assert(uuid_text(id).subrange(0, 8) =~= hex_text(id.subrange(0, 4)));
    assert(uuid_text(id).subrange(9, 13) =~= hex_text(id.subrange(4, 6)));
    assert(uuid_text(id).subrange(14, 18) =~= hex_text(id.subrange(6, 8)));
    assert(uuid_text(id).subrange(19, 23) =~= hex_text(id.subrange(8, 10)));
    assert(uuid_text(id).subrange(24, 36) =~= hex_text(id.subrange(10, 16)));
}

/// Different identifiers have different texts.
pub proof fn law_id_texts_distinct(a: Seq<u8>, b: Seq<u8>)
    requires
        a.len() == 16,
        b.len() == 16,
        uuid_text(a) == uuid_text(b),
    ensures
        a == b,
{
    lemma_uuid_shape(a);
    lemma_uuid_shape(b);
    lemma_hex_injective(a.subrange(0, 4), b.subrange(0, 4));
    lemma_hex_injective(a.subrange(4, 6), b.subrange(4, 6));
    lemma_hex_injective(a.subrange(6, 8), b.subrange(6, 8));
    lemma_hex_injective(a.subrange(8, 10), b.subrange(8, 10));
    lemma_hex_injective(a.subrange(10, 16), b.subrange(10, 16));
    assert(a =~= a.subrange(0, 4) + a.subrange(4, 6) + a.subrange(6, 8) + a.subrange(8, 10)
        + a.subrange(10, 16));
    assert(b =~= b.subrange(0, 4) + b.subrange(4, 6) + b.subrange(6, 8) + b.subrange(8, 10)
        + b.subrange(10, 16));
}

/// A text stands for one identifier at most.
pub proof fn law_id_unique(text: Seq<char>, a: Seq<u8>, b: Seq<u8>)
    requires
        denotes_uuid(text, a),
        denotes_uuid(text, b),
    ensures
        a == b,
{
    let lower = text.map_values(|c: char| ascii_lower(c));
    reveal_strlit("urn:uuid:");
    lemma_hex_len(a);
    lemma_hex_len(b);
    lemma_uuid_shape(a);
    lemma_uuid_shape(b);
    if lower.len() == 32 {
        lemma_hex_injective(a, b);
    } else if lower.len() == 36 {
        law_id_texts_distinct(a, b);
    } else if lower.len() == 38 {
        assert((seq!['{'] + uuid_text(a) + seq!['}']).subrange(1, 37) =~= uuid_text(a));
        assert((seq!['{'] + uuid_text(b) + seq!['}']).subrange(1, 37) =~= uuid_text(b));
        law_id_texts_distinct(a, b);
    } else {
        assert(("urn:uuid:"@ + uuid_text(a)).skip(9) =~= uuid_text(a));
        assert(("urn:uuid:"@ + uuid_text(b)).skip(9) =~= uuid_text(b));
        law_id_texts_distinct(a, b);
    }
}

/// The text of an identifier stands for that identifier.
pub proof fn law_id_reads_back(id: Seq<u8>)
    requires
        id.len() == 16,
    ensures
        id_in(uuid_text(id)) == Some(id),
{
    let text = uuid_text(id);
    let lower = text.map_values(|c: char| ascii_lower(c));
    lemma_hex_len(id.subrange(0, 4));
    lemma_hex_len(id.subrange(4, 6));
    lemma_hex_len(id.subrange(6, 8));
    lemma_hex_len(id.subrange(8, 10));
    lemma_hex_len(id.subrange(10, 16));
    lemma_hex_lower(id.subrange(0, 4));
    lemma_hex_lower(id.subrange(4, 6));
    lemma_hex_lower(id.subrange(6, 8));
    lemma_hex_lower(id.subrange(8, 10));
    lemma_hex_lower(id.subrange(10, 16));
    assert(lower =~= text);
    assert(denotes_uuid(text, id));
    law_id_unique(text, id, id_in(text)->0);
}

/// The identifier found in a text is the one that the text stands for, and one
/// is found wherever the text stands for one.
pub proof fn law_id_in(text: Seq<char>, id: Seq<u8>)
    ensures
        id_in(text) == Some(id) <==> denotes_uuid(text, id),
{
    if denotes_uuid(text, id) {
        law_id_unique(text, id, id_in(text)->0);
    }
}

} // verus!
