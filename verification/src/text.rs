//! Typed text: where it begins and ends, and the words in it.

use vstd::prelude::*;
use vstd::string::StrSliceExecFns;

verus! {

/// White space, as Unicode has it.
pub open spec fn is_white(c: char) -> bool {
    ||| '\u{9}' <= c <= '\u{d}'
    ||| c == ' '
    ||| c == '\u{85}'
    ||| c == '\u{a0}'
    ||| c == '\u{1680}'
    ||| '\u{2000}' <= c <= '\u{200a}'
    ||| c == '\u{2028}'
    ||| c == '\u{2029}'
    ||| c == '\u{202f}'
    ||| c == '\u{205f}'
    ||| c == '\u{3000}'
}

fn white(c: char) -> (yes: bool)
    ensures
        yes == is_white(c),
{
    (c >= '\u{9}' && c <= '\u{d}') || c == ' ' || c == '\u{85}' || c == '\u{a0}' || c == '\u{1680}'
        || (c >= '\u{2000}' && c <= '\u{200a}') || c == '\u{2028}' || c == '\u{2029}' || c
        == '\u{202f}' || c == '\u{205f}' || c == '\u{3000}'
}

/// `s` without the white space at either end.
pub open spec fn trimmed(s: Seq<char>) -> Seq<char>
    decreases s.len(),
{
    if s.len() > 0 && is_white(s[0]) {
        trimmed(s.drop_first())
    } else if s.len() > 0 && is_white(s.last()) {
        trimmed(s.drop_last())
    } else {
        s
    }
}

/// How many characters stand before the first white space.
pub open spec fn word_len(s: Seq<char>) -> nat
    decreases s.len(),
{
    if s.len() == 0 || is_white(s[0]) {
        0
    } else {
        1 + word_len(s.drop_first())
    }
}

/// The words of `s`: its longest stretches without white space, in order.
pub open spec fn words_of(s: Seq<char>) -> Seq<Seq<char>>
    decreases s.len(),
{
    if s.len() == 0 {
        Seq::empty()
    } else if is_white(s[0]) {
        words_of(s.drop_first())
    } else {
        proof {
            lemma_word_len(s);
        }
        seq![s.take(word_len(s) as int)] + words_of(s.skip(word_len(s) as int))
    }
}

pub proof fn lemma_word_len(s: Seq<char>)
    ensures
        word_len(s) <= s.len(),
    decreases s.len(),
{
    if s.len() > 0 && !is_white(s[0]) {
        lemma_word_len(s.drop_first());
    }
}

proof fn lemma_word_end(s: Seq<char>, end: int)
    requires
        0 <= end <= s.len(),
        forall|i: int| 0 <= i < end ==> !is_white(#[trigger] s[i]),
        end == s.len() || is_white(s[end]),
    ensures
        word_len(s) == end,
    decreases s.len(),
{
    if end > 0 {
        assert forall|i: int| 0 <= i < end - 1 implies !is_white(
            #[trigger] s.drop_first()[i],
        ) by {
            assert(!is_white(s[i + 1]));
        }
        assert(!is_white(s[0]));
        lemma_word_end(s.drop_first(), end - 1);
    }
}

/// What a list of texts says.
pub open spec fn text_views(texts: Seq<String>) -> Seq<Seq<char>> {
    texts.map_values(|t: String| t@)
}

/// `line` without the white space at either end.
pub fn trim(line: &str) -> (out: &str)
    ensures
        out@ == trimmed(line@),
{
    let len: usize = line.unicode_len();
    let mut from: usize = 0;
    assert(line@.subrange(0, len as int) =~= line@);
    while from < len && white(line.get_char(from))
        invariant
            0 <= from <= len == line@.len(),
            trimmed(line@.subrange(from as int, len as int)) == trimmed(line@),
        decreases len - from,
    {
        proof {
            let rest = line@.subrange(from as int, len as int);
            assert(rest[0] == line@[from as int]);
            assert(rest.drop_first() =~= line@.subrange(from + 1, len as int));
        }
        from += 1;
    }
    let mut to: usize = len;
    while to > from && white(line.get_char(to - 1))
        invariant
            0 <= from <= to <= len == line@.len(),
            from < to ==> !is_white(line@[from as int]),
            trimmed(line@.subrange(from as int, to as int)) == trimmed(line@),
        decreases to,
    {
        proof {
            let rest = line@.subrange(from as int, to as int);
            assert(rest[0] == line@[from as int]);
            assert(rest.last() == line@[to - 1]);
            assert(rest.drop_last() =~= line@.subrange(from as int, to - 1));
        }
        to -= 1;
    }
    proof {
        let rest = line@.subrange(from as int, to as int);
        if from < to {
            assert(rest[0] == line@[from as int]);
            assert(rest.last() == line@[to - 1]);
        }
    }
    line.substring_char(from, to)
}

/// The words of `line`.
pub fn words(line: &str) -> (out: Vec<String>)
    ensures
        text_views(out@) == words_of(line@),
        out@.len() == words_of(line@).len(),
        forall|i: int| 0 <= i < out@.len() ==> (#[trigger] out@[i])@ == words_of(line@)[i],
{
    let len: usize = line.unicode_len();
    let mut out: Vec<String> = Vec::new();
    let mut at: usize = 0;
    assert(line@.skip(0) =~= line@);
    assert(text_views(out@) + words_of(line@) =~= words_of(line@));
    while at < len
        invariant
            0 <= at <= len == line@.len(),
            text_views(out@) + words_of(line@.skip(at as int)) == words_of(line@),
        decreases len - at,
    {
        let ghost rest = line@.skip(at as int);
        assert(rest[0] == line@[at as int]);
        proof {
            lemma_word_len(rest);
        }
        if white(line.get_char(at)) {
            assert(rest.drop_first() =~= line@.skip(at + 1));
            at += 1;
        } else {
            let mut end: usize = at;
            while end < len && !white(line.get_char(end))
                invariant
                    0 <= at <= end <= len == line@.len(),
                    rest == line@.skip(at as int),
                    forall|i: int| 0 <= i < end - at ==> !is_white(#[trigger] rest[i]),
                decreases len - end,
            {
                end += 1;
            }
            let word = line.substring_char(at, end).to_owned();
            proof {
                if end < len {
                    assert(rest[end - at] == line@[end as int]);
                }
                if end == at {
                    assert(false);
                }
                lemma_word_end(rest, end - at);
                assert(rest.take(end - at) =~= word@);
                assert(rest.skip(end - at) =~= line@.skip(end as int));
                assert(text_views(out@.push(word)) =~= text_views(out@).push(word@));
                assert(text_views(out@).push(word@) + words_of(line@.skip(end as int))
                    =~= text_views(out@) + (seq![word@] + words_of(line@.skip(end as int))));
            }
            out.push(word);
            at = end;
        }
    }
    assert(words_of(line@.skip(len as int)) =~= Seq::<Seq<char>>::empty());
    assert(text_views(out@) =~= text_views(out@) + words_of(line@.skip(len as int)));
    assert forall|i: int| 0 <= i < out@.len() implies (#[trigger] out@[i])@ == words_of(
        line@,
    )[i] by {
        assert(text_views(out@)[i] == out@[i]@);
    }
    out
}

/// Whether two texts are the same.
pub fn same_text(a: &str, b: &str) -> (yes: bool)
    ensures
        yes == (a@ == b@),
{
    a.to_owned() == b.to_owned()
}

/// White space is these 25 characters, by their code points.
pub proof fn law_white(c: char)
    ensures
        is_white(c) <==> {
            let n = c as u32;
            ||| 0x9 <= n <= 0xd
            ||| n == 0x20
            ||| n == 0x85
            ||| n == 0xa0
            ||| n == 0x1680
            ||| 0x2000 <= n <= 0x200a
            ||| n == 0x2028
            ||| n == 0x2029
            ||| n == 0x202f
            ||| n == 0x205f
            ||| n == 0x3000
        },
{
}

/// Where what is left of a text without the white space at either end stands
/// in it.
proof fn lemma_trimmed(s: Seq<char>) -> (at: (int, int))
    ensures
        0 <= at.0 <= at.1 <= s.len(),
        trimmed(s) == s.subrange(at.0, at.1),
        forall|i: int| 0 <= i < at.0 ==> is_white(#[trigger] s[i]),
        forall|i: int| at.1 <= i < s.len() ==> is_white(#[trigger] s[i]),
        at.0 < at.1 ==> !is_white(s[at.0]) && !is_white(s[at.1 - 1]),
    decreases s.len(),
{
    if s.len() > 0 && is_white(s[0]) {
        let t = s.drop_first();
        let at = lemma_trimmed(t);
        assert(s.subrange(at.0 + 1, at.1 + 1) =~= t.subrange(at.0, at.1));
        assert forall|i: int| 0 <= i < at.0 + 1 implies is_white(#[trigger] s[i]) by {
            if i > 0 {
                assert(is_white(t[i - 1]));
            }
        }
        assert forall|i: int| at.1 + 1 <= i < s.len() implies is_white(#[trigger] s[i]) by {
            assert(is_white(t[i - 1]));
        }
        (at.0 + 1, at.1 + 1)
    } else if s.len() > 0 && is_white(s.last()) {
        let t = s.drop_last();
        let at = lemma_trimmed(t);
        assert(s.subrange(at.0, at.1) =~= t.subrange(at.0, at.1));
        assert forall|i: int| 0 <= i < at.0 implies is_white(#[trigger] s[i]) by {
            assert(is_white(t[i]));
        }
        assert forall|i: int| at.1 <= i < s.len() implies is_white(#[trigger] s[i]) by {
            if i < t.len() {
                assert(is_white(t[i]));
            }
        }
        at
    } else {
        assert(s.subrange(0, s.len() as int) =~= s);
        (0, s.len() as int)
    }
}

/// Trimming takes white space from either end of a text, and nothing else; what
/// is left neither begins nor ends with white space.
pub proof fn law_trimmed(s: Seq<char>)
    ensures
        exists|from: int, to: int|
            0 <= from <= to <= s.len() && trimmed(s) == #[trigger] s.subrange(from, to) && (forall|
                i: int,
            |
                (0 <= i < from || to <= i < s.len()) ==> is_white(#[trigger] s[i])),
        trimmed(s).len() > 0 ==> !is_white(trimmed(s)[0]) && !is_white(trimmed(s).last()),
{
    let at = lemma_trimmed(s);
    assert(trimmed(s) == s.subrange(at.0, at.1));
    assert(forall|i: int| (0 <= i < at.0 || at.1 <= i < s.len()) ==> is_white(#[trigger] s[i]));
}

proof fn lemma_word_shape(s: Seq<char>)
    ensures
        word_len(s) <= s.len(),
        forall|i: int| 0 <= i < word_len(s) ==> !is_white(#[trigger] s[i]),
        word_len(s) == s.len() || is_white(s[word_len(s) as int]),
        s.len() > 0 && !is_white(s[0]) ==> word_len(s) > 0,
    decreases s.len(),
{
    if s.len() > 0 && !is_white(s[0]) {
        let t = s.drop_first();
        lemma_word_shape(t);
        assert forall|i: int| 0 <= i < word_len(s) implies !is_white(#[trigger] s[i]) by {
            if i > 0 {
                assert(!is_white(t[i - 1]));
            }
        }
        if word_len(t) < t.len() {
            assert(t[word_len(t) as int] == s[word_len(s) as int]);
        }
    }
}

/// White space parts words: the words of a text are those before a white space
/// and then those behind it.
pub proof fn law_words_are_parted(a: Seq<char>, c: char, b: Seq<char>)
    requires
        is_white(c),
    ensures
        words_of(a + seq![c] + b) == words_of(a) + words_of(b),
    decreases a.len(),
{
    let s = a + seq![c] + b;
    if a.len() == 0 {
        assert(s[0] == c);
        assert(s.drop_first() =~= b);
        assert(words_of(a) + words_of(b) =~= words_of(b));
    } else if is_white(a[0]) {
        assert(s[0] == a[0]);
        assert(s.drop_first() =~= a.drop_first() + seq![c] + b);
        law_words_are_parted(a.drop_first(), c, b);
    } else {
        lemma_word_shape(a);
        let n = word_len(a) as int;
        assert forall|i: int| 0 <= i < n implies !is_white(#[trigger] s[i]) by {
            assert(s[i] == a[i]);
        }
        assert(s[n] == if n == a.len() {
            c
        } else {
            a[n]
        });
        lemma_word_end(s, n);
        assert(s[0] == a[0]);
        assert(s.take(n) =~= a.take(n));
        assert(s.skip(n) =~= a.skip(n) + seq![c] + b);
        law_words_are_parted(a.skip(n), c, b);
        assert(seq![a.take(n)] + (words_of(a.skip(n)) + words_of(b)) =~= (seq![a.take(n)]
            + words_of(a.skip(n))) + words_of(b));
    }
}

/// A text without white space is one word; an empty text is none.
pub proof fn law_one_word(s: Seq<char>)
    requires
        forall|i: int| 0 <= i < s.len() ==> !is_white(#[trigger] s[i]),
    ensures
        s.len() > 0 ==> words_of(s) == seq![s],
        s.len() == 0 ==> words_of(s).len() == 0,
{
    if s.len() > 0 {
        assert(!is_white(s[0]));
        lemma_word_end(s, s.len() as int);
        assert(s.take(s.len() as int) =~= s);
        assert(words_of(s.skip(s.len() as int)) =~= Seq::<Seq<char>>::empty());
        assert(words_of(s) =~= seq![s]);
    }
}

} // verus!
