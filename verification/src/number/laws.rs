//! What holds of numbers as text.

use vstd::prelude::*;

verus! {

/// Digits stand for the numbers from zero to nine, in the order of their
/// characters.
pub proof fn law_digits(c: char, d: nat)
    ensures
        super::is_digit(c) <==> 0x30 <= c as u32 <= 0x39,
        super::is_digit(c) ==> super::digit_value(c) == c as u32 - 0x30,
        d < 10 ==> super::digit_char(d) as u32 == 0x30 + d,
{
}

/// Each further digit makes ten times the number and the digit.
pub proof fn law_digits_spell_a_number(s: Seq<char>, c: char)
    requires
        super::is_digit(c),
    ensures
        super::digits_value(Seq::empty()) == 0,
        super::digits_value(s.push(c)) == 10 * super::digits_value(s) + (c as u32 - 0x30),
{
    assert(s.push(c).drop_last() == s);
}

/// A number is written in the one way that has no superfluous zeros: any text
/// of digits that spells it and does not start with a zero is how it is
/// written.
pub proof fn law_decimal_text_is_the_shortest(s: Seq<char>)
    requires
        s.len() > 0,
        super::all_digits(s),
        s[0] == '0' ==> s.len() == 1,
    ensures
        super::decimal_text(super::digits_value(s)) == s,
    decreases s.len(),
{
    let shorter = s.drop_last();
    let last = s.last();
    let n = super::digits_value(s);
    assert(super::is_digit(s[s.len() - 1]));
    assert(s == shorter.push(last));
    assert(super::digit_char(super::digit_value(last)) == last);
    if shorter.len() == 0 {
        reveal_with_fuel(super::digits_value, 2);
        assert(n == super::digit_value(last));
        assert(s == seq![last]);
    } else {
        assert forall|i: int| 0 <= i < shorter.len() implies super::is_digit(
            #[trigger] shorter[i],
        ) by {
            assert(shorter[i] == s[i]);
        }
        assert(shorter[0] == s[0]);
        lemma_leading_digit(shorter);
        law_decimal_text_is_the_shortest(shorter);
        assert(n >= 10);
        assert(n / 10 == super::digits_value(shorter));
        assert(n % 10 == super::digit_value(last));
    }
}

proof fn lemma_leading_digit(s: Seq<char>)
    requires
        s.len() > 0,
        super::all_digits(s),
        s[0] != '0',
    ensures
        super::digits_value(s) > 0,
    decreases s.len(),
{
    let shorter = s.drop_last();
    assert(super::is_digit(s[0]));
    if shorter.len() > 0 {
        assert forall|i: int| 0 <= i < shorter.len() implies super::is_digit(
            #[trigger] shorter[i],
        ) by {
            assert(shorter[i] == s[i]);
        }
        assert(shorter[0] == s[0]);
        lemma_leading_digit(shorter);
    } else {
        assert(s.last() == s[0]);
    }
}

/// A number is written without superfluous zeros.
pub proof fn law_decimal_text_has_no_leading_zero(n: nat)
    ensures
        super::decimal_text(n).len() > 0,
        super::decimal_text(n).len() > 1 ==> super::decimal_text(n)[0] != '0',
        super::decimal_text(n)[0] == '0' ==> n == 0,
    decreases n,
{
    if n >= 10 {
        law_decimal_text_has_no_leading_zero(n / 10);
        assert(super::decimal_text(n)[0] == super::decimal_text(n / 10)[0]);
    }
}

/// Digits, with or without a plus sign before them, stand for the number that
/// they spell, up to the greatest one.
pub proof fn law_digits_are_an_unsigned_number(digits: Seq<char>, max: nat)
    requires
        digits.len() > 0,
        super::all_digits(digits),
    ensures
        super::unsigned_value(digits, max) == (if super::digits_value(digits) <= max {
            Some(super::digits_value(digits))
        } else {
            None
        }),
        super::unsigned_value(seq!['+'] + digits, max) == super::unsigned_value(digits, max),
{
    assert(super::is_digit(digits[0]));
    assert((seq!['+'] + digits).skip(1) == digits);
}

/// Nothing else is an unsigned number.
pub proof fn law_other_text_is_no_unsigned_number(s: Seq<char>, max: nat)
    requires
        s.len() == 0 || (s.len() == 1 && !super::is_digit(s[0])) || exists|i: int|
            (if s[0] == '+' {
                1int
            } else {
                0
            }) <= i < s.len() && !super::is_digit(#[trigger] s[i]),
    ensures
        super::unsigned_value(s, max) is None,
{
    if s.len() > 1 {
        let first = if s[0] == '+' {
            1int
        } else {
            0
        };
        let i = choose|i: int| first <= i < s.len() && !super::is_digit(#[trigger] s[i]);
        if first == 1 {
            assert(s.skip(1)[i - 1] == s[i]);
        }
    }
}

/// Only the ASCII capitals change in lower case, each to its own letter.
pub proof fn law_lower_case(s: Seq<char>, i: int)
    requires
        0 <= i < s.len(),
    ensures
        super::lowered(s).len() == s.len(),
        0x41 <= s[i] as u32 <= 0x5a ==> super::lowered(s)[i] as u32 == s[i] as u32 + 0x20,
        !(0x41 <= s[i] as u32 <= 0x5a) ==> super::lowered(s)[i] == s[i],
{
}

/// Whether `c` is a sign.
pub open spec fn is_sign(c: char) -> bool {
    c == '+' || c == '-'
}

/// Whether `s` is `e`, a sign of `k - 1` characters and digits.
pub open spec fn exponent_shape(s: Seq<char>, k: int) -> bool {
    &&& s.len() > k
    &&& k == 1 || (k == 2 && is_sign(s[1]))
    &&& s[0] == 'e' || s[0] == 'E'
    &&& super::all_digits(s.skip(k))
}

/// Whether `c` is a sign.up to `a`, digits up to `b`, a point if there is one,
/// digits up to `c` and an exponent with digits from its position `k` on, or
/// no exponent.
pub open spec fn fraction_shape(
    s: Seq<char>,
    a: int,
    b: int,
    point: bool,
    c: int,
    k: int,
) -> bool {
    let p = if point {
        b + 1
    } else {
        b
    };
    &&& 0 <= a <= 1
    &&& a <= b <= p <= c <= s.len()
    &&& a == 1 ==> is_sign(s[0])
    &&& super::all_digits(s.subrange(a, b))
    &&& point ==> s[b] == '.'
    &&& super::all_digits(s.subrange(p, c))
    &&& !point ==> c == p
    &&& (b - a) + (c - p) > 0
    &&& c == s.len() || exponent_shape(s.skip(c), k)
}

proof fn lemma_digits_len(digits: Seq<char>, rest: Seq<char>)
    requires
        super::all_digits(digits),
        rest.len() > 0 ==> !super::is_digit(rest[0]),
    ensures
        super::digits_len(digits + rest) == digits.len(),
    decreases digits.len(),
{
    let all = digits + rest;
    if digits.len() > 0 {
        let fewer = digits.drop_first();
        assert forall|i: int| 0 <= i < fewer.len() implies super::is_digit(#[trigger] fewer[i]) by {
            assert(fewer[i] == digits[i + 1]);
        }
        lemma_digits_len(fewer, rest);
        assert(super::is_digit(digits[0]));
        assert(all[0] == digits[0]);
        assert(all.drop_first() == fewer + rest);
    } else {
        assert(all == rest);
    }
}

proof fn lemma_digits_len_counts(s: Seq<char>)
    ensures
        super::digits_len(s) <= s.len(),
        super::all_digits(s.take(super::digits_len(s) as int)),
    decreases s.len(),
{
    if s.len() > 0 && super::is_digit(s[0]) {
        let rest = s.drop_first();
        lemma_digits_len_counts(rest);
        let n = super::digits_len(rest) as int;
        assert forall|i: int| 0 <= i < n + 1 implies super::is_digit(
            #[trigger] s.take(n + 1)[i],
        ) by {
            if i > 0 {
                assert(s.take(n + 1)[i] == rest.take(n)[i - 1]);
            }
        }
    }
}

/// What has the shape of a number with a fraction is one.
pub proof fn law_fractions_are_accepted(
    s: Seq<char>,
    a: int,
    b: int,
    point: bool,
    c: int,
    k: int,
)
    requires
        fraction_shape(s, a, b, point, c, k),
    ensures
        super::is_fraction_text(s),
{
    let t = super::without_sign(s);
    if a == 0 && s.len() > 0 {
        if b > 0 {
            assert(s.subrange(a, b)[0] == s[0]);
            assert(super::is_digit(s[0]));
        }
    }
    assert(t == s.skip(a));
    let whole = s.subrange(a, b);
    let rest = s.skip(b);
    let tail = s.skip(c);
    if tail.len() > 0 {
        assert(tail[0] == 'e' || tail[0] == 'E');
    }
    if rest.len() > 0 {
        assert(rest[0] == s[b]);
        if !point {
            assert(rest == tail);
        }
    }
    lemma_digits_len(whole, rest);
    assert(whole + rest == t);
    assert(t.skip(b - a) == rest);
    if point {
        let part = s.subrange(b + 1, c);
        lemma_digits_len(part, tail);
        assert(rest.skip(1) == part + tail);
        assert(rest.skip(1).skip(part.len() as int) == tail);
    }
    if tail.len() > 0 {
        lemma_exponent(tail, k);
    }
}

proof fn lemma_exponent(s: Seq<char>, k: int)
    requires
        exponent_shape(s, k),
    ensures
        super::is_exponent(s),
{
    let after = s.skip(1);
    assert(after[0] == s[1]);
    if k == 1 {
        assert(s.skip(1)[0] == s[1]);
        assert(super::is_digit(s.skip(1)[0]));
        assert(super::without_sign(after) == s.skip(1));
    } else {
        assert(after.skip(1) == s.skip(2));
    }
}

/// Words for numbers that no digits spell are accepted, in any case and with
/// either sign.
pub proof fn law_words_are_accepted(sign: Seq<char>, word: Seq<char>)
    requires
        sign.len() == 0 || (sign.len() == 1 && is_sign(sign[0])),
        super::lowered(word) == "inf"@ || super::lowered(word) == "infinity"@ || super::lowered(
            word,
        ) == "nan"@,
    ensures
        super::is_fraction_text(sign + word),
{
    reveal_strlit("inf");
    reveal_strlit("infinity");
    reveal_strlit("nan");
    let s = sign + word;
    assert(super::lowered(word).len() == word.len());
    assert(super::lowered(word)[0] == super::ascii_lower(word[0]));
    if sign.len() == 1 {
        assert(s[0] == sign[0]);
        assert(super::without_sign(s) == word);
    } else {
        assert(s == word);
        assert(!is_sign(word[0]));
    }
}

/// Nothing else is accepted: what is accepted has the shape of a number with a
/// fraction or is, but for a sign, one of the words.
pub proof fn law_only_fractions_are_accepted(s: Seq<char>)
    requires
        super::is_fraction_text(s),
    ensures
        ({
            let word = super::lowered(
                s.skip(
                    if s.len() > 0 && is_sign(s[0]) {
                        1int
                    } else {
                        0
                    },
                ),
            );
            ||| word == "inf"@ || word == "infinity"@ || word == "nan"@
            ||| exists|a: int, b: int, point: bool, c: int, k: int|
                fraction_shape(s, a, b, point, c, k)
        }),
{
    let t = super::without_sign(s);
    let a = if s.len() > 0 && is_sign(s[0]) {
        1int
    } else {
        0
    };
    assert(t == s.skip(a));
    if super::is_unsigned_fraction(t) {
        let n = super::digits_len(t) as int;
        let b = a + n;
        lemma_digits_len_counts(t);
        assert(s.subrange(a, b) == t.take(n));
        let rest = t.skip(n);
        assert(rest == s.skip(b));
        let point = rest.len() > 0 && rest[0] == '.';
        let after = rest.skip(1);
        let m = if point {
            super::digits_len(after) as int
        } else {
            0
        };
        let p = if point {
            b + 1
        } else {
            b
        };
        let c = p + m;
        if point {
            lemma_digits_len_counts(after);
            assert(after == s.skip(p));
            assert(s.subrange(p, c) == after.take(m));
            assert(after.skip(m) == s.skip(c));
        } else {
            assert(s.subrange(p, c) == Seq::<char>::empty());
        }
        let tail = s.skip(c);
        let signed = tail.len() > 1 && is_sign(tail[1]);
        let k = if signed {
            2int
        } else {
            1
        };
        if tail.len() > 0 {
            let digits = super::without_sign(tail.skip(1));
            if signed {
                assert(digits == tail.skip(2));
            } else {
                assert(digits == tail.skip(1));
            }
            assert(exponent_shape(tail, k));
        }
        assert(fraction_shape(s, a, b, point, c, k));
    }
}

} // verus!
