//! Numbers as text: decimal rendering, unsigned parsing and the shape of a
//! decimal fraction.

use vstd::prelude::*;
use vstd::slice::slice_subrange;

use crate::text::chars_of;

pub mod laws;

verus! {

// --- Decimal digits ---

/// Whether `c` is one of `0` to `9`.
pub open spec fn is_digit(c: char) -> bool {
    '0' <= c <= '9'
}

/// The character of the digit `d`.
pub open spec fn digit_char(d: nat) -> char {
    (48 + d) as char
}

/// The number that the digit `c` stands for.
pub open spec fn digit_value(c: char) -> nat {
    (c as u32 - 48) as nat
}

/// Whether every character of `s` is a digit.
pub open spec fn all_digits(s: Seq<char>) -> bool {
    forall|i: int| 0 <= i < s.len() ==> is_digit(#[trigger] s[i])
}

/// The number that the digits `s` spell in base ten.
pub open spec fn digits_value(s: Seq<char>) -> nat
    decreases s.len(),
{
    if s.len() == 0 {
        0
    } else {
        10 * digits_value(s.drop_last()) + digit_value(s.last())
    }
}

/// `n` in base ten, without leading zeros.
pub open spec fn decimal_text(n: nat) -> Seq<char>
    decreases n,
{
    if n < 10 {
        seq![digit_char(n)]
    } else {
        decimal_text(n / 10).push(digit_char(n % 10))
    }
}

/// Appends `n` in base ten.
pub fn push_decimal(s: &mut String, n: u128)
    ensures
        final(s)@ == old(s)@ + decimal_text(n as nat),
    decreases n,
{
    if n >= 10 {
        push_decimal(s, n / 10);
    }
    let digit: u8 = 48 + (n % 10) as u8;
    s.push(digit as char);
    assert(s@ == old(s)@ + decimal_text(n as nat));
}

/// `n` in base ten.
pub fn to_decimal(n: u64) -> (s: String)
    ensures
        s@ == decimal_text(n as nat),
{
    let mut s = String::new();
    push_decimal(&mut s, n as u128);
    assert(s@ == decimal_text(n as nat));
    s
}

/// A decimal text is made of digits and spells the number that it renders.
pub proof fn lemma_decimal_text(n: nat)
    ensures
        decimal_text(n).len() > 0,
        all_digits(decimal_text(n)),
        digits_value(decimal_text(n)) == n,
    decreases n,
{
    reveal_with_fuel(digits_value, 2);
    if n >= 10 {
        lemma_decimal_text(n / 10);
        let rest = decimal_text(n / 10);
        assert(decimal_text(n).drop_last() == rest);
        assert forall|i: int| 0 <= i < decimal_text(n).len() implies is_digit(
            #[trigger] decimal_text(n)[i],
        ) by {
            if i < rest.len() {
                assert(is_digit(rest[i]));
            }
        }
    } else {
        assert(decimal_text(n).drop_last() == Seq::<char>::empty());
    }
}

// --- Unsigned numbers ---

/// What an unsigned number text stands for: an optional `+`, then one or more
/// digits, of a value up to `max`.
pub open spec fn unsigned_value(s: Seq<char>, max: nat) -> Option<nat> {
    let digits = if s.len() > 0 && s[0] == '+' {
        s.skip(1)
    } else {
        s
    };
    if digits.len() > 0 && all_digits(digits) && digits_value(digits) <= max {
        Some(digits_value(digits))
    } else {
        None
    }
}

/// Further digits never make a number smaller.
proof fn lemma_prefix_value(s: Seq<char>, k: int)
    requires
        0 <= k <= s.len(),
        all_digits(s),
    ensures
        digits_value(s.take(k)) <= digits_value(s),
    decreases s.len(),
{
    if k == s.len() {
        assert(s.take(k) == s);
    } else {
        let shorter = s.drop_last();
        assert forall|i: int| 0 <= i < shorter.len() implies is_digit(#[trigger] shorter[i]) by {
            assert(shorter[i] == s[i]);
        }
        lemma_prefix_value(shorter, k);
        assert(shorter.take(k) == s.take(k));
    }
}

/// Parses an unsigned number of at most `max`.
pub fn parse_unsigned(chars: &[char], max: u32) -> (value: Option<u32>)
    ensures
        value == (match unsigned_value(chars@, max as nat) {
            Some(v) => Some(v as u32),
            None => None,
        }),
        value matches Some(v) ==> v <= max && unsigned_value(chars@, max as nat) == Some(v as nat),
{
    let start: usize = if chars.len() > 0 && chars[0] == '+' {
        1
    } else {
        0
    };
    let digits = slice_subrange(chars, start, chars.len());
    assert(start == 1 ==> digits@ == chars@.skip(1));
    assert(start == 0 ==> digits@ == chars@);
    if digits.len() == 0 {
        return None;
    }
    let mut value: u64 = 0;
    let mut i: usize = 0;
    assert(digits@.take(0) == Seq::<char>::empty());
    while i < digits.len()
        invariant
            i <= digits@.len(),
            value <= max,
            all_digits(digits@.take(i as int)),
            value == digits_value(digits@.take(i as int)),
            digits@.len() > 0,
            start == 1 ==> chars@.len() > 0 && chars@[0] == '+' && digits@ == chars@.skip(1),
            start == 0 ==> !(chars@.len() > 0 && chars@[0] == '+') && digits@ == chars@,
            start == 0 || start == 1,
        decreases digits@.len() - i,
    {
        let c = digits[i];
        if c < '0' || c > '9' {
            assert(!is_digit(digits@[i as int]));
            return None;
        }
        let next: u64 = 10 * value + (c as u32 - 48) as u64;
        proof {
            let longer = digits@.take(i + 1);
            assert(longer.drop_last() == digits@.take(i as int));
            assert forall|j: int| 0 <= j < longer.len() implies is_digit(#[trigger] longer[j]) by {
                if j < i {
                    assert(longer[j] == digits@.take(i as int)[j]);
                }
            }
        }
        if next > max as u64 {
            proof {
                if all_digits(digits@) {
                    lemma_prefix_value(digits@, i + 1);
                }
            }
            return None;
        }
        value = next;
        i = i + 1;
    }
    assert(digits@.take(i as int) == digits@);
    Some(value as u32)
}

/// Parses the text of an unsigned number of at most `max`.
pub fn parse_unsigned_text(s: &str, max: u32) -> (value: Option<u32>)
    ensures
        value == (match unsigned_value(s@, max as nat) {
            Some(v) => Some(v as u32),
            None => None,
        }),
        value matches Some(v) ==> v <= max && unsigned_value(s@, max as nat) == Some(v as nat),
{
    let chars = chars_of(s);
    parse_unsigned(chars.as_slice(), max)
}

/// Parsing gives back what was rendered.
pub proof fn law_unsigned_roundtrip(n: nat, max: nat)
    requires
        n <= max,
    ensures
        unsigned_value(decimal_text(n), max) == Some(n),
{
    lemma_decimal_text(n);
    assert(is_digit(decimal_text(n)[0]));
}

// --- Decimal fractions ---

/// `c` in lower case, where it is an ASCII letter.
pub open spec fn ascii_lower(c: char) -> char {
    if 'A' <= c <= 'Z' {
        (c as u32 + 32) as char
    } else {
        c
    }
}

/// `s` with its ASCII letters in lower case.
pub open spec fn lowered(s: Seq<char>) -> Seq<char> {
    s.map_values(|c: char| ascii_lower(c))
}

/// Compares `chars`, in lower case, with `word`.
pub fn lowered_is(chars: &[char], word: &str) -> (same: bool)
    ensures
        same == (lowered(chars@) == word@),
{
    let expected = chars_of(word);
    if chars.len() != expected.len() {
        assert(lowered(chars@).len() != word@.len());
        return false;
    }
    let mut i: usize = 0;
    while i < chars.len()
        invariant
            i <= chars@.len(),
            chars@.len() == expected@.len(),
            expected@ == word@,
            forall|j: int| 0 <= j < i ==> lowered(chars@)[j] == #[trigger] word@[j],
        decreases chars@.len() - i,
    {
        let c = chars[i];
        let low: char = if 'A' <= c && c <= 'Z' {
            (c as u8 + 32) as char
        } else {
            c
        };
        assert(low == ascii_lower(c));
        if low != expected[i] {
            assert(lowered(chars@)[i as int] != word@[i as int]);
            return false;
        }
        i = i + 1;
    }
    assert(lowered(chars@) == word@);
    true
}

/// `s` without one leading sign.
pub open spec fn without_sign(s: Seq<char>) -> Seq<char> {
    if s.len() > 0 && (s[0] == '+' || s[0] == '-') {
        s.skip(1)
    } else {
        s
    }
}

/// How many digits `s` starts with.
pub open spec fn digits_len(s: Seq<char>) -> nat
    decreases s.len(),
{
    if s.len() > 0 && is_digit(s[0]) {
        1 + digits_len(s.drop_first())
    } else {
        0
    }
}

/// An exponent: `e`, an optional sign, one or more digits.
pub open spec fn is_exponent(s: Seq<char>) -> bool {
    &&& s.len() > 0
    &&& s[0] == 'e' || s[0] == 'E'
    &&& {
        let digits = without_sign(s.skip(1));
        digits.len() > 0 && all_digits(digits)
    }
}

/// Digits with an optional point among or beside them, at least one digit in
/// all, and an optional exponent.
pub open spec fn is_unsigned_fraction(s: Seq<char>) -> bool {
    let whole = digits_len(s);
    let rest = s.skip(whole as int);
    let after_point = rest.skip(1);
    let part = if rest.len() > 0 && rest[0] == '.' {
        digits_len(after_point)
    } else {
        0
    };
    let tail = if rest.len() > 0 && rest[0] == '.' {
        after_point.skip(part as int)
    } else {
        rest
    };
    whole + part > 0 && (tail.len() == 0 || is_exponent(tail))
}

/// The grammar of floating-point text: an optional sign, then a decimal
/// fraction or, in any case, `inf`, `infinity` or `nan`.
pub open spec fn is_fraction_text(s: Seq<char>) -> bool {
    let t = without_sign(s);
    ||| lowered(t) == "inf"@
    ||| lowered(t) == "infinity"@
    ||| lowered(t) == "nan"@
    ||| is_unsigned_fraction(t)
}

/// Drops one leading sign.
fn skip_sign(chars: &[char]) -> (rest: &[char])
    ensures
        rest@ == without_sign(chars@),
{
    let start: usize = if chars.len() > 0 && (chars[0] == '+' || chars[0] == '-') {
        1
    } else {
        0
    };
    let rest = slice_subrange(chars, start, chars.len());
    assert(rest@ == without_sign(chars@));
    rest
}

/// Counts the leading digits.
fn leading_digits(chars: &[char]) -> (n: usize)
    ensures
        n == digits_len(chars@),
        n <= chars@.len(),
        n == chars@.len() <==> all_digits(chars@),
{
    let mut i: usize = 0;
    assert(chars@.skip(0) == chars@);
    while i < chars.len() && '0' <= chars[i] && chars[i] <= '9'
        invariant
            i <= chars@.len(),
            digits_len(chars@) == i + digits_len(chars@.skip(i as int)),
            forall|j: int| 0 <= j < i ==> is_digit(#[trigger] chars@[j]),
        decreases chars@.len() - i,
    {
        assert(chars@.skip(i as int).drop_first() == chars@.skip(i + 1));
        i = i + 1;
    }
    if i < chars.len() {
        assert(!is_digit(chars@[i as int]));
    }
    i
}

/// Recognises an exponent.
fn exponent(chars: &[char]) -> (ok: bool)
    ensures
        ok == is_exponent(chars@),
{
    if chars.len() == 0 || (chars[0] != 'e' && chars[0] != 'E') {
        return false;
    }
    let after = slice_subrange(chars, 1, chars.len());
    assert(after@ == chars@.skip(1));
    let digits = skip_sign(after);
    digits.len() > 0 && leading_digits(digits) == digits.len()
}

/// Recognises an unsigned decimal fraction.
fn unsigned_fraction(chars: &[char]) -> (ok: bool)
    ensures
        ok == is_unsigned_fraction(chars@),
{
    let whole = leading_digits(chars);
    let rest = slice_subrange(chars, whole, chars.len());
    assert(rest@ == chars@.skip(whole as int));
    if rest.len() > 0 && rest[0] == '.' {
        let after_point = slice_subrange(rest, 1, rest.len());
        assert(after_point@ == rest@.skip(1));
        let part = leading_digits(after_point);
        let tail = slice_subrange(after_point, part, after_point.len());
        assert(tail@ == after_point@.skip(part as int));
        (whole > 0 || part > 0) && (tail.len() == 0 || exponent(tail))
    } else {
        whole > 0 && (rest.len() == 0 || exponent(rest))
    }
}

/// Whether `s` is the text of a floating-point number.
pub fn is_fraction(s: &str) -> (ok: bool)
    ensures
        ok == is_fraction_text(s@),
{
    let chars = chars_of(s);
    let t = skip_sign(chars.as_slice());
    lowered_is(t, "inf") || lowered_is(t, "infinity") || lowered_is(t, "nan") || unsigned_fraction(
        t,
    )
}

} // verus!
