//! Numbers written in decimal: as they stand in message keys and on screen,
//! and as they are typed into a command.

use vstd::arithmetic::power::{lemma_pow0, pow};
use vstd::prelude::*;
use vstd::string::StringExecFns;
use vstd::string::StrSliceExecFns;

verus! {

/// The character for a decimal digit.
pub open spec fn digit_char(d: nat) -> char {
    if d == 0 {
        '0'
    } else if d == 1 {
        '1'
    } else if d == 2 {
        '2'
    } else if d == 3 {
        '3'
    } else if d == 4 {
        '4'
    } else if d == 5 {
        '5'
    } else if d == 6 {
        '6'
    } else if d == 7 {
        '7'
    } else if d == 8 {
        '8'
    } else {
        '9'
    }
}

/// Whether `c` is one of the ten decimal digits.
pub open spec fn is_digit(c: char) -> bool {
    '0' <= c && c <= '9'
}

/// What a decimal digit stands for.
pub open spec fn digit_value(c: char) -> nat {
    (c as nat - '0' as nat) as nat
}

/// `n` in decimal, without leading zeros.
pub open spec fn decimal(n: nat) -> Seq<char>
    decreases n,
{
    if n < 10 {
        seq![digit_char(n)]
    } else {
        decimal(n / 10).push(digit_char(n % 10))
    }
}

/// The number that a run of decimal digits spells.
pub open spec fn decimal_value(s: Seq<char>) -> nat
    decreases s.len(),
{
    if s.len() == 0 {
        0
    } else {
        decimal_value(s.drop_last()) * 10 + digit_value(s.last())
    }
}

pub open spec fn all_digits(s: Seq<char>) -> bool {
    forall|i: int| 0 <= i < s.len() ==> is_digit(#[trigger] s[i])
}

/// `s` without the plus sign that may stand in front of a number.
pub open spec fn unsigned(s: Seq<char>) -> Seq<char> {
    if s.len() > 0 && s[0] == '+' {
        s.drop_first()
    } else {
        s
    }
}

/// The number that `s` spells: an optional plus sign, then at least one
/// digit, and nothing else.
pub open spec fn parsed_decimal(s: Seq<char>) -> Option<nat> {
    if unsigned(s).len() > 0 && all_digits(unsigned(s)) {
        Some(decimal_value(unsigned(s)))
    } else {
        None
    }
}

pub proof fn lemma_digit_char(d: nat)
    requires
        d < 10,
    ensures
        is_digit(digit_char(d)),
        digit_value(digit_char(d)) == d,
{
}

pub proof fn lemma_decimal_digits(n: nat)
    ensures
        decimal(n).len() > 0,
        all_digits(decimal(n)),
        decimal_value(decimal(n)) == n,
    decreases n,
{
    if n < 10 {
        lemma_digit_char(n);
        assert(decimal(n).drop_last() =~= Seq::<char>::empty());
        assert(decimal_value(decimal(n).drop_last()) == 0);
    } else {
        lemma_decimal_digits(n / 10);
        lemma_digit_char(n % 10);
        assert(decimal(n).drop_last() =~= decimal(n / 10));
    }
}

/// Different numbers are written differently.
pub proof fn lemma_decimal_injective(a: nat, b: nat)
    requires
        decimal(a) == decimal(b),
    ensures
        a == b,
{
    lemma_decimal_digits(a);
    lemma_decimal_digits(b);
}

/// Reading a number as it is written gives the number.
pub proof fn law_decimal_reads_back(n: nat)
    ensures
        parsed_decimal(decimal(n)) == Some(n),
{
    lemma_decimal_digits(n);
    assert(is_digit(decimal(n)[0]));
    assert(unsigned(decimal(n)) == decimal(n));
}

proof fn lemma_value_grows(s: Seq<char>, k: int)
    requires
        0 <= k <= s.len(),
        all_digits(s),
    ensures
        decimal_value(s.take(k)) <= decimal_value(s),
    decreases s.len() - k,
{
    if k < s.len() {
        lemma_value_grows(s, k + 1);
        assert(s.take(k + 1).drop_last() =~= s.take(k));
        assert(is_digit(s[k]));
    } else {
        assert(s.take(k) =~= s);
    }
}

fn digit_text(d: u8) -> (t: &'static str)
    requires
        d < 10,
    ensures
        t@ == seq![digit_char(d as nat)],
{
    proof {
        reveal_strlit("0");
        reveal_strlit("1");
        reveal_strlit("2");
        reveal_strlit("3");
        reveal_strlit("4");
        reveal_strlit("5");
        reveal_strlit("6");
        reveal_strlit("7");
        reveal_strlit("8");
        reveal_strlit("9");
    }
    match d {
        0 => "0",
        1 => "1",
        2 => "2",
        3 => "3",
        4 => "4",
        5 => "5",
        6 => "6",
        7 => "7",
        8 => "8",
        _ => "9",
    }
}

/// `n` in decimal.
pub fn decimal_string(n: u128) -> (out: String)
    ensures
        out@ == decimal(n as nat),
    decreases n,
{
    if n < 10 {
        let mut out = String::new();
        out.append(digit_text(n as u8));
        assert(out@ =~= decimal(n as nat));
        out
    } else {
        let mut out = decimal_string(n / 10);
        out.append(digit_text((n % 10) as u8));
        assert(out@ =~= decimal(n as nat));
        out
    }
}

/// The number that `text` spells, if it spells one that fits in 128 bits.
pub fn parse_u128(text: &str) -> (out: Option<u128>)
    ensures
        match out {
            Some(v) => parsed_decimal(text@) == Some(v as nat),
            None => parsed_decimal(text@) is None || parsed_decimal(text@)->0 > u128::MAX,
        },
{
    let len: usize = text.unicode_len();
    let start: usize = if len > 0 && text.get_char(0) == '+' {
        1
    } else {
        0
    };
    let ghost digits = unsigned(text@);
    assert(digits =~= text@.skip(start as int));
    if start == len {
        return None;
    }
    let mut v: u128 = 0;
    let mut i: usize = start;
    assert(digits.take(0) =~= Seq::<char>::empty());
    while i < len
        invariant
            start <= i <= len,
            start < len == text@.len(),
            digits == unsigned(text@),
            digits == text@.skip(start as int),
            v as nat == decimal_value(digits.take(i - start)),
            all_digits(digits.take(i - start)),
        decreases len - i,
    {
        let c = text.get_char(i);
        let ghost k = i - start;
        assert(digits[k] == c);
        if !(c >= '0' && c <= '9') {
            return None;
        }
        let d: u128 = c as u128 - '0' as u128;
        assert(digits.take(k + 1).drop_last() =~= digits.take(k));
        assert(digits.take(k + 1).last() == c);
        assert forall|j: int| 0 <= j < k + 1 implies is_digit(
            #[trigger] digits.take(k + 1)[j],
        ) by {
            if j < k {
                assert(is_digit(digits.take(k)[j]));
            }
        }
        if v > (u128::MAX - d) / 10 {
            proof {
                if all_digits(digits) {
                    lemma_value_grows(digits, k + 1);
                }
            }
            return None;
        }
        v = v * 10 + d;
        i += 1;
    }
    assert(digits.take(len - start) =~= digits);
    Some(v)
}

/// The digits are the ten characters that begin with `0`, in order.
pub proof fn law_digits(d: nat, c: char)
    ensures
        d < 10 ==> digit_char(d) as nat == 48 + d,
        is_digit(c) <==> 48 <= c as nat <= 57,
        is_digit(c) ==> digit_value(c) == c as nat - 48,
{
}

/// What stands further left counts ten times as much for every digit behind it.
pub proof fn law_decimal_places(a: Seq<char>, b: Seq<char>)
    ensures
        decimal_value(a + b) == decimal_value(a) * pow(10, b.len()) + decimal_value(b),
        forall|c: char| is_digit(c) ==> #[trigger] decimal_value(seq![c]) == c as nat - 48,
    decreases b.len(),
{
    reveal(pow);
    assert forall|c: char| is_digit(c) implies #[trigger] decimal_value(seq![c]) == c as nat
        - 48 by {
        let s = seq![c];
        assert(s.drop_last() =~= Seq::<char>::empty());
        assert(decimal_value(s.drop_last()) == 0);
    }
    if b.len() == 0 {
        assert(a + b =~= a);
        lemma_pow0(10);
        let v = decimal_value(a);
        assert(v * 1 == v) by (nonlinear_arith);
    } else {
        let init = b.drop_last();
        law_decimal_places(a, init);
        assert((a + b).drop_last() =~= a + init);
        let v = decimal_value(a) as int;
        let p = pow(10, init.len());
        assert((v * p) * 10 == v * (10 * p)) by (nonlinear_arith);
    }
}

/// A number is written in digits only, and begins with a zero only if it is
/// zero.
pub proof fn law_decimal_shape(n: nat)
    ensures
        decimal(n).len() > 0,
        forall|i: int| 0 <= i < decimal(n).len() ==> 48 <= (#[trigger] decimal(n)[i]) as nat <= 57,
        decimal(n)[0] == '0' ==> n == 0,
    decreases n,
{
    lemma_decimal_digits(n);
    assert forall|i: int| 0 <= i < decimal(n).len() implies 48 <= (
    #[trigger] decimal(n)[i]) as nat <= 57 by {
        assert(is_digit(decimal(n)[i]));
    }
    if n >= 10 {
        law_decimal_shape(n / 10);
        assert(decimal(n)[0] == decimal(n / 10)[0]);
    }
}

/// What is read as a number: digits, of which there is at least one, with or
/// without a plus sign before them. Anything else is not read.
pub proof fn law_parsed_decimal(s: Seq<char>, bad: int)
    ensures
        s.len() > 0 && (forall|i: int| 0 <= i < s.len() ==> 48 <= (#[trigger] s[i]) as nat <= 57)
            ==> parsed_decimal(s) == Some(decimal_value(s)) && parsed_decimal(seq!['+'] + s)
            == Some(decimal_value(s)),
        s.len() == 0 ==> parsed_decimal(s) is None && parsed_decimal(seq!['+'] + s) is None,
        0 <= bad < s.len() && !(48 <= s[bad] as nat <= 57) && !(bad == 0 && s[bad] == '+')
            ==> parsed_decimal(s) is None,
{
    let signed = seq!['+'] + s;
    assert(signed.drop_first() =~= s);
    assert(signed[0] == '+');
    if s.len() > 0 && (forall|i: int| 0 <= i < s.len() ==> 48 <= (#[trigger] s[i]) as nat <= 57) {
        assert(48 <= s[0] as nat <= 57);
        assert forall|i: int| 0 <= i < s.len() implies is_digit(#[trigger] s[i]) by {
            assert(48 <= s[i] as nat <= 57);
            law_digits(0, s[i]);
        }
    }
    if 0 <= bad < s.len() && !(48 <= s[bad] as nat <= 57) && !(bad == 0 && s[bad] == '+') {
        let u = unsigned(s);
        law_digits(0, s[bad]);
        if s[0] == '+' {
            assert(u[bad - 1] == s[bad]);
            assert(!is_digit(u[bad - 1]));
        } else {
            assert(!is_digit(u[bad]));
        }
    }
}

} // verus!
