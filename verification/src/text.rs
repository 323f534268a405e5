//! Plain text: trimming, searching and splitting.
//!
//! Text is modelled as a sequence of characters. The executable functions work
//! on slices of characters, so that positions are plain indices.

use vstd::prelude::*;
use vstd::slice::slice_subrange;

pub mod laws;

verus! {

/// `String::push` appends one character to the end of the string.
pub assume_specification[ String::push ](s: &mut String, c: char)
    ensures
        final(s)@ == old(s)@.push(c),
;

// --- Characters and strings ---

/// The characters of `s`, in order.
pub fn chars_of(s: &str) -> (chars: Vec<char>)
    ensures
        chars@ == s@,
{
    let mut chars: Vec<char> = Vec::new();
    for c in it: s.chars()
        invariant
            it.seq() == s@,
            chars@ == it.seq().take(it.index()),
    {
        chars.push(c);
    }
    chars
}

/// The string made of `chars`.
pub fn text_of(chars: &[char]) -> (s: String)
    ensures
        s@ == chars@,
{
    let mut s = String::new();
    for i in 0..chars.len()
        invariant
            s@ == chars@.take(i as int),
    {
        s.push(chars[i]);
        assert(chars@.take(i + 1) == chars@.take(i as int).push(chars@[i as int]));
    }
    assert(chars@.take(chars@.len() as int) == chars@);
    s
}

/// Whether two texts are the same.
pub fn same_text(a: &str, b: &str) -> (same: bool)
    ensures
        same == (a@ == b@),
{
    let left: String = a.to_owned();
    let right: String = b.to_owned();
    left == right
}

/// The text in `o`, if any.
pub open spec fn opt_text(o: Option<String>) -> Option<Seq<char>> {
    match o {
        Some(s) => Some(s@),
        None => None,
    }
}

/// A copy of the text in `o`, if any.
pub fn clone_opt(o: &Option<String>) -> (copy: Option<String>)
    ensures
        opt_text(copy) == opt_text(*o),
{
    match o {
        Some(s) => Some(s.clone()),
        None => None,
    }
}

// --- White space and trimming ---

/// Unicode's `White_Space` property.
pub open spec fn is_white(c: char) -> bool {
    ||| '\u{9}' <= c <= '\u{d}'
    ||| c == '\u{20}'
    ||| c == '\u{85}'
    ||| c == '\u{a0}'
    ||| c == '\u{1680}'
    ||| '\u{2000}' <= c <= '\u{200a}'
    ||| c == '\u{2028}'
    ||| c == '\u{2029}'
    ||| c == '\u{202f}'
    ||| c == '\u{205f}'
    ||| c == '\u{3000}'
}

/// Whether `c` is white space.
pub fn is_white_space(c: char) -> (white: bool)
    ensures
        white == is_white(c),
{
    ('\u{9}' <= c && c <= '\u{d}') || c == '\u{20}' || c == '\u{85}' || c == '\u{a0}' || c
        == '\u{1680}' || ('\u{2000}' <= c && c <= '\u{200a}') || c == '\u{2028}' || c == '\u{2029}'
        || c == '\u{202f}' || c == '\u{205f}' || c == '\u{3000}'
}

/// `s` without its leading white space.
pub open spec fn trim_start(s: Seq<char>) -> Seq<char>
    decreases s.len(),
{
    if s.len() > 0 && is_white(s[0]) {
        trim_start(s.drop_first())
    } else {
        s
    }
}

/// `s` without its trailing white space.
pub open spec fn trim_end(s: Seq<char>) -> Seq<char>
    decreases s.len(),
{
    if s.len() > 0 && is_white(s.last()) {
        trim_end(s.drop_last())
    } else {
        s
    }
}

/// `s` without white space at either end.
pub open spec fn trimmed(s: Seq<char>) -> Seq<char> {
    trim_end(trim_start(s))
}

/// Drops leading white space.
pub fn without_leading_white(chars: &[char]) -> (rest: &[char])
    ensures
        rest@ == trim_start(chars@),
{
    let mut i: usize = 0;
    assert(chars@.skip(0) == chars@);
    while i < chars.len() && is_white_space(chars[i])
        invariant
            i <= chars@.len(),
            trim_start(chars@) == trim_start(chars@.skip(i as int)),
        decreases chars@.len() - i,
    {
        assert(chars@.skip(i as int).drop_first() == chars@.skip(i + 1));
        i = i + 1;
    }
    let rest = slice_subrange(chars, i, chars.len());
    assert(rest@ == chars@.skip(i as int));
    rest
}

/// Drops white space at both ends.
pub fn trim(chars: &[char]) -> (rest: &[char])
    ensures
        rest@ == trimmed(chars@),
{
    let rest = without_leading_white(chars);
    let mut end: usize = rest.len();
    assert(rest@.take(end as int) == rest@);
    while end > 0 && is_white_space(rest[end - 1])
        invariant
            end <= rest@.len(),
            trim_end(rest@) == trim_end(rest@.take(end as int)),
        decreases end,
    {
        assert(rest@.take(end as int).drop_last() == rest@.take(end - 1));
        end = end - 1;
    }
    let kept = slice_subrange(rest, 0, end);
    assert(kept@ == rest@.take(end as int));
    kept
}

/// The text of `s` without white space at either end.
pub fn trim_text(s: &str) -> (kept: String)
    ensures
        kept@ == trimmed(s@),
{
    let chars = chars_of(s);
    text_of(trim(chars.as_slice()))
}

/// Whether `s` holds nothing but white space.
pub fn is_blank(s: &str) -> (blank: bool)
    ensures
        blank == (trimmed(s@).len() == 0),
{
    let chars = chars_of(s);
    trim(chars.as_slice()).len() == 0
}

// --- Searching and splitting ---

/// How many characters stand before the first `c` in `s`; all of them where
/// there is none.
pub open spec fn until(s: Seq<char>, c: char) -> nat
    decreases s.len(),
{
    if s.len() == 0 || s[0] == c {
        0
    } else {
        1 + until(s.drop_first(), c)
    }
}

/// What `until` counts: no character before that position is `c`, and the one
/// at it, if any, is.
pub proof fn lemma_until(s: Seq<char>, c: char)
    ensures
        until(s, c) <= s.len(),
        forall|i: int| 0 <= i < until(s, c) ==> s[i] != c,
        until(s, c) < s.len() ==> s[until(s, c) as int] == c,
    decreases s.len(),
{
    if s.len() > 0 && s[0] != c {
        let rest = s.drop_first();
        lemma_until(rest, c);
        assert forall|i: int| 0 <= i < until(s, c) implies s[i] != c by {
            if i > 0 {
                assert(rest[i - 1] == s[i]);
            }
        }
    }
}

/// The position that `until` counts to is the only one of its kind.
pub proof fn lemma_until_unique(s: Seq<char>, c: char, k: int)
    requires
        0 <= k <= s.len(),
        forall|i: int| 0 <= i < k ==> s[i] != c,
        k < s.len() ==> s[k] == c,
    ensures
        until(s, c) == k,
{
    lemma_until(s, c);
    let found: int = until(s, c) as int;
    if found < k {
        assert(s[found] != c);
    }
}

/// Finds the first `c`; the length of `chars` where there is none.
pub fn find(chars: &[char], c: char) -> (at: usize)
    ensures
        at == until(chars@, c),
        at <= chars@.len(),
        at < chars@.len() ==> chars@[at as int] == c,
{
    let mut i: usize = 0;
    while i < chars.len() && chars[i] != c
        invariant
            i <= chars@.len(),
            forall|j: int| 0 <= j < i ==> chars@[j] != c,
        decreases chars@.len() - i,
    {
        i = i + 1;
    }
    proof {
        lemma_until_unique(chars@, c, i as int);
    }
    i
}

/// The pieces of `s` between the separators.
pub open spec fn split_on(s: Seq<char>, sep: char) -> Seq<Seq<char>>
    decreases s.len(),
{
    let k = until(s, sep);
    if k >= s.len() {
        seq![s]
    } else {
        seq![s.take(k as int)] + split_on(s.skip(k as int + 1), sep)
    }
}

/// How many characters stand before the first white space in `s`.
pub open spec fn word_len(s: Seq<char>) -> nat
    decreases s.len(),
{
    if s.len() == 0 || is_white(s[0]) {
        0
    } else {
        1 + word_len(s.drop_first())
    }
}

/// The second word of `s`, where words are separated by white space; empty
/// where there are fewer than two.
pub open spec fn second_word(s: Seq<char>) -> Seq<char> {
    let first = trim_start(s);
    let second = trim_start(first.skip(word_len(first) as int));
    second.take(word_len(second) as int)
}

/// The length of the word that `chars` starts with.
pub fn leading_word_len(chars: &[char]) -> (n: usize)
    ensures
        n == word_len(chars@),
        n <= chars@.len(),
{
    let mut i: usize = 0;
    assert(chars@.skip(0) == chars@);
    while i < chars.len() && !is_white_space(chars[i])
        invariant
            i <= chars@.len(),
            word_len(chars@) == i + word_len(chars@.skip(i as int)),
        decreases chars@.len() - i,
    {
        assert(chars@.skip(i as int).drop_first() == chars@.skip(i + 1));
        i = i + 1;
    }
    i
}

/// Finds the second word.
pub fn find_second_word(chars: &[char]) -> (word: &[char])
    ensures
        word@ == second_word(chars@),
{
    let first = without_leading_white(chars);
    let first_len = leading_word_len(first);
    let after = slice_subrange(first, first_len, first.len());
    assert(after@ == first@.skip(first_len as int));
    let second = without_leading_white(after);
    let second_len = leading_word_len(second);
    let word = slice_subrange(second, 0, second_len);
    assert(word@ == second@.take(second_len as int));
    word
}

} // verus!
