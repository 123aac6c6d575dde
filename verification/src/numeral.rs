//! Decimal and hexadecimal numerals.
use vstd::prelude::*;
use crate::text;

verus! {

/// The character of a decimal or lower-case hexadecimal digit.
pub open spec fn digit_char(d: nat) -> char {
    if d < 10 {
        ('0' as u8 + d) as u8 as char
    } else {
        ('a' as u8 + (d - 10)) as u8 as char
    }
}

/// The decimal numeral of `n`, without leading zeros.
pub open spec fn decimal(n: nat) -> Seq<char>
    decreases n,
{
    if n < 10 {
        seq![digit_char(n)]
    } else {
        decimal(n / 10).push(digit_char(n % 10))
    }
}

/// `decimal(n)` padded on the left with zeros to at least two digits.
pub open spec fn decimal2(n: nat) -> Seq<char> {
    if n < 10 {
        seq!['0', digit_char(n)]
    } else {
        decimal(n)
    }
}

/// The two-digit lower-case hexadecimal numeral of a byte.
pub open spec fn hex2(b: u8) -> Seq<char> {
    seq![digit_char(b as nat / 16), digit_char(b as nat % 16)]
}

/// A decimal digit.
pub open spec fn is_digit(c: char) -> bool {
    '0' <= c <= '9'
}

/// The number that a run of decimal digits denotes.
pub open spec fn digits_value(s: Seq<char>) -> nat
    decreases s.len(),
{
    if s.len() == 0 {
        0
    } else {
        digits_value(s.drop_last()) * 10 + (s.last() as nat - '0' as nat) as nat
    }
}

/// All characters are decimal digits.
pub open spec fn all_digits(s: Seq<char>) -> bool {
    forall|i: int| 0 <= i < s.len() ==> is_digit(#[trigger] s[i])
}

/// The digits of an unsigned numeral: the text without one leading `+`.
pub open spec fn unsigned_digits(s: Seq<char>) -> Seq<char> {
    if s.len() > 0 && s[0] == '+' {
        s.skip(1)
    } else {
        s
    }
}

/// The number that `s` denotes as an unsigned numeral of at most `max`: one
/// optional `+`, then one or more digits.
pub open spec fn parsed(s: Seq<char>, max: nat) -> Option<nat> {
    let d = unsigned_digits(s);
    if d.len() > 0 && all_digits(d) && digits_value(d) <= max {
        Some(digits_value(d))
    } else {
        None
    }
}

/// The value of a hexadecimal digit of either case.
pub open spec fn hex_digit_value(c: char) -> Option<nat> {
    if '0' <= c <= '9' {
        Some((c as nat - '0' as nat) as nat)
    } else if 'a' <= c <= 'f' {
        Some((c as nat - 'a' as nat + 10) as nat)
    } else if 'A' <= c <= 'F' {
        Some((c as nat - 'A' as nat + 10) as nat)
    } else {
        None
    }
}

/// The character of a digit below sixteen.
pub fn to_digit_char(d: u8) -> (c: char)
    requires
        d < 16,
    ensures
        c == digit_char(d as nat),
{
    if d < 10 {
        (48u8 + d) as char
    } else {
        (97u8 + (d - 10)) as char
    }
}

/// The decimal numeral of `n`.
pub fn to_decimal(n: u64) -> (s: String)
    ensures
        s@ == decimal(n as nat),
    decreases n,
{
    if n < 10 {
        let mut s = String::new();
        s.push(to_digit_char(n as u8));
        s
    } else {
        let mut s = to_decimal(n / 10);
        s.push(to_digit_char((n % 10) as u8));
        s
    }
}

/// The decimal numeral of `n`, with at least two digits.
pub fn to_decimal2(n: u64) -> (s: String)
    ensures
        s@ == decimal2(n as nat),
{
    if n < 10 {
        let mut s = String::new();
        s.push('0');
        s.push(to_digit_char(n as u8));
        s
    } else {
        to_decimal(n)
    }
}

/// The two-digit hexadecimal numeral of a byte.
pub fn to_hex2(b: u8) -> (s: String)
    ensures
        s@ == hex2(b),
{
    let mut s = String::new();
    s.push(to_digit_char(b / 16));
    s.push(to_digit_char(b % 16));
    s
}

/// The value of a hexadecimal digit.
pub fn from_hex_digit(c: char) -> (r: Option<u8>)
    ensures
        match r {
            Some(v) => hex_digit_value(c) == Some(v as nat) && v < 16,
            None => hex_digit_value(c) is None,
        },
{
    if '0' <= c && c <= '9' {
        Some((c as u8) - 48)
    } else if 'a' <= c && c <= 'f' {
        Some((c as u8) - 97 + 10)
    } else if 'A' <= c && c <= 'F' {
        Some((c as u8) - 65 + 10)
    } else {
        None
    }
}

proof fn lemma_digits_value_monotone(s: Seq<char>, k: int)
    requires
        0 <= k <= s.len(),
        all_digits(s),
    ensures
        digits_value(s.take(k)) <= digits_value(s),
    decreases s.len() - k,
{
    if k < s.len() {
        assert(s.take(k + 1).drop_last() =~= s.take(k));
        assert(is_digit(s[k]));
        lemma_digits_value_monotone(s, k + 1);
    } else {
        assert(s.take(k) =~= s);
    }
}

/// Reads an unsigned numeral of at most `max`.
pub fn parse_unsigned(s: &str, max: u64) -> (r: Option<u64>)
    ensures
        match r {
            Some(n) => parsed(s@, max as nat) == Some(n as nat) && n <= max,
            None => parsed(s@, max as nat) is None,
        },
{
    let v = text::to_chars(s);
    let start: usize = if v.len() > 0 && v[0] == '+' {
        1
    } else {
        0
    };
    let ghost d = unsigned_digits(s@);
    proof {
        assert(d =~= v@.skip(start as int));
    }
    if start == v.len() {
        return None;
    }
    let mut n: u64 = 0;
    let mut i: usize = start;
    while i < v.len()
        invariant
            start <= i <= v@.len(),
            start < v@.len(),
            v@ == s@,
            d == unsigned_digits(s@),
            d == v@.skip(start as int),
            n <= max,
            n == digits_value(d.take(i - start)),
            all_digits(d.take(i - start)),
        decreases v@.len() - i,
    {
        let c = v[i];
        let ghost k = i - start;
        proof {
            assert(d.take(k + 1).drop_last() =~= d.take(k));
            assert(d[k] == c);
            assert(d.take(k + 1).last() == c);
        }
        if !('0' <= c && c <= '9') {
            proof {
                assert(!is_digit(d[k]));
                assert(!all_digits(d));
            }
            return None;
        }
        let next: u128 = n as u128 * 10 + ((c as u8) - 48) as u128;
        proof {
            assert(next == digits_value(d.take(k + 1)));
            assert forall|j: int| 0 <= j < k + 1 implies is_digit(#[trigger] d.take(k + 1)[j]) by {
                if j < k {
                    assert(is_digit(d.take(k)[j]));
                }
            }
        }
        if next > max as u128 {
            proof {
                if all_digits(d) {
                    lemma_digits_value_monotone(d, k + 1);
                }
            }
            return None;
        }
        n = next as u64;
        i = i + 1;
    }
    proof {
        assert(d.take(i - start) =~= d);
    }
    Some(n)
}

/// Reads an unsigned 64-bit numeral.
pub fn parse_u64(s: &str) -> (r: Option<u64>)
    ensures
        match r {
            Some(n) => parsed(s@, 0xffff_ffff_ffff_ffff) == Some(n as nat),
            None => parsed(s@, 0xffff_ffff_ffff_ffff) is None,
        },
{
    parse_unsigned(s, 0xffff_ffff_ffff_ffff)
}

/// Reads a decimal port number.
pub fn parse_u16(s: &str) -> (r: Option<u16>)
    ensures
        match r {
            Some(n) => parsed(s@, 0xffff) == Some(n as nat),
            None => parsed(s@, 0xffff) is None,
        },
{
    match parse_unsigned(s, 0xffff) {
        Some(n) => Some(n as u16),
        None => None,
    }
}

pub proof fn lemma_decimal_digits(n: nat)
    ensures
        decimal(n).len() > 0,
        all_digits(decimal(n)),
        digits_value(decimal(n)) == n,
    decreases n,
{
    if n >= 10 {
        lemma_decimal_digits(n / 10);
        assert(decimal(n).drop_last() =~= decimal(n / 10));
        assert forall|i: int| 0 <= i < decimal(n).len() implies is_digit(
            #[trigger] decimal(n)[i],
        ) by {
            if i < decimal(n / 10).len() {
                assert(is_digit(decimal(n / 10)[i]));
            }
        }
    } else {
        assert(decimal(n).drop_last() =~= Seq::<char>::empty());
        assert(digits_value(decimal(n).drop_last()) == 0);
    }
}

/// A decimal numeral reads back as the number it was written for.
pub proof fn law_decimal_reads_back(n: nat, max: nat)
    requires
        n <= max,
    ensures
        parsed(decimal(n), max) == Some(n),
{
    lemma_decimal_digits(n);
    assert(is_digit(decimal(n)[0]));
}

/// Different numbers have different decimal numerals.
pub proof fn law_decimal_injective(m: nat, n: nat)
    requires
        decimal(m) == decimal(n),
    ensures
        m == n,
{
    lemma_decimal_digits(m);
    lemma_decimal_digits(n);
}

/// A number is read from decimal digits, with or without a plus sign before
/// them and however many zeros they begin with; a text that holds anything
/// else, or no digit, is no number.
pub proof fn law_parsed_spellings(d: Seq<char>, max: nat, i: int)
    ensures
        d.len() > 0 && all_digits(d) ==> parsed(seq!['+'] + d, max) == parsed(d, max) && parsed(
            seq!['0'] + d,
            max,
        ) == parsed(d, max),
        d.len() == 0 ==> parsed(d, max) is None && parsed(seq!['+'] + d, max) is None,
        0 < i < d.len() && !('0' <= d[i] <= '9') ==> parsed(d, max) is None,
        d.len() > 0 && !('0' <= d[0] <= '9') && d[0] != '+' ==> parsed(d, max) is None,
        parsed(d, max) is Some ==> parsed(d, max)->0 <= max,
{
    assert((seq!['+'] + d).skip(1) =~= d);
    if d.len() > 0 && all_digits(d) {
        assert(is_digit(d[0]));
        let z = seq!['0'] + d;
        assert forall|k: int| 0 <= k < z.len() implies is_digit(#[trigger] z[k]) by {
            if k > 0 {
                assert(is_digit(d[k - 1]));
            }
        }
        lemma_leading_zero(d);
    }
    if 0 < i < d.len() && !is_digit(d[i]) {
        let u = unsigned_digits(d);
        if d[0] == '+' {
            assert(u[i - 1] == d[i]);
        }
        assert(!all_digits(u));
    }
    if d.len() > 0 && !is_digit(d[0]) && d[0] != '+' {
        assert(!all_digits(d));
    }
}

proof fn lemma_leading_zero(d: Seq<char>)
    ensures
        digits_value(seq!['0'] + d) == digits_value(d),
    decreases d.len(),
{
    let z = seq!['0'] + d;
    if d.len() > 0 {
        assert(z.drop_last() =~= seq!['0'] + d.drop_last());
        assert(z.last() == d.last());
        lemma_leading_zero(d.drop_last());
    } else {
        assert(z.drop_last() =~= Seq::empty());
        assert(digits_value(z.drop_last()) == 0);
    }
}

/// A decimal numeral has no needless zero before it, and one of two digits is
/// filled up with one zero.
pub proof fn law_decimal_spelling(n: nat)
    ensures
        n > 0 ==> decimal(n)[0] != '0',
        decimal(0) == seq!['0'],
        n < 10 ==> decimal2(n) == seq!['0'] + decimal(n),
        n >= 10 ==> decimal2(n) == decimal(n),
        n < 100 ==> decimal2(n).len() == 2,
    decreases n,
{
    if n >= 10 {
        law_decimal_spelling(n / 10);
        lemma_decimal_digits(n / 10);
    } else {
        assert(decimal2(n) =~= seq!['0'] + decimal(n));
    }
}

/// The two hexadecimal digits of a byte are in lower case and read back.
pub proof fn law_hex_reads_back(b: u8)
    ensures
        hex2(b).len() == 2,
        hex_digit_value(hex2(b)[0]) is Some,
        hex_digit_value(hex2(b)[1]) is Some,
        hex_digit_value(hex2(b)[0])->0 * 16 + hex_digit_value(hex2(b)[1])->0 == b,
        forall|i: int| 0 <= i < 2 ==> !('A' <= #[trigger] hex2(b)[i] <= 'F'),
{
}

/// Digits without a needless zero before them are the numeral of their value.
pub proof fn law_numeral_of_its_value(s: Seq<char>)
    requires
        s.len() > 0,
        all_digits(s),
        s.len() == 1 || s[0] != '0',
    ensures
        s == decimal(digits_value(s)),
    decreases s.len(),
{
    assert(is_digit(s[s.len() - 1]));
    let before = s.drop_last();
    let d = (s.last() as nat - '0' as nat) as nat;
    assert(digit_char(d) == s.last());
    if s.len() == 1 {
        assert(before =~= Seq::empty());
        assert(digits_value(before) == 0);
        assert(s =~= decimal(digits_value(s)));
    } else {
        assert forall|i: int| 0 <= i < before.len() implies is_digit(#[trigger] before[i]) by {
            assert(is_digit(s[i]));
        }
        law_numeral_of_its_value(before);
        lemma_first_digit(before);
        let v = digits_value(s);
        assert(v / 10 == digits_value(before) && v % 10 == d);
        assert(s =~= decimal(v));
    }
}

proof fn lemma_first_digit(s: Seq<char>)
    requires
        s.len() > 0,
        all_digits(s),
        s[0] != '0',
    ensures
        digits_value(s) > 0,
    decreases s.len(),
{
    assert(is_digit(s[s.len() - 1]));
    let before = s.drop_last();
    if s.len() > 1 {
        assert forall|i: int| 0 <= i < before.len() implies is_digit(#[trigger] before[i]) by {
            assert(is_digit(s[i]));
        }
        lemma_first_digit(before);
    } else {
        assert(before =~= Seq::empty());
        assert(digits_value(before) == 0);
    }
}

/// The value of a hexadecimal digit in either case; no other character is one.
pub proof fn law_hex_digits(c: char)
    ensures
        '0' <= c <= '9' ==> hex_digit_value(c) == Some((c as nat - 48) as nat),
        'a' <= c <= 'f' ==> hex_digit_value(c) == Some((c as nat - 87) as nat),
        'A' <= c <= 'F' ==> hex_digit_value(c) == Some((c as nat - 55) as nat),
        hex_digit_value(c) is Some ==> '0' <= c <= '9' || 'a' <= c <= 'f' || 'A' <= c <= 'F',
{
}

} // verus!
