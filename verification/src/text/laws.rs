//! What holds of trimming and splitting.

use vstd::prelude::*;

verus! {

/// Whether `s` is made of white space.
pub open spec fn all_white(s: Seq<char>) -> bool {
    forall|i: int| 0 <= i < s.len() ==> super::is_white(#[trigger] s[i])
}

/// Whether `s` is made of anything but white space.
pub open spec fn no_white(s: Seq<char>) -> bool {
    forall|i: int| 0 <= i < s.len() ==> !super::is_white(#[trigger] s[i])
}

proof fn lemma_trim_start(lead: Seq<char>, rest: Seq<char>)
    requires
        all_white(lead),
        rest.len() > 0 ==> !super::is_white(rest[0]),
    ensures
        super::trim_start(lead + rest) == rest,
    decreases lead.len(),
{
    let all = lead + rest;
    if lead.len() > 0 {
        assert(all[0] == lead[0]);
        assert(all.drop_first() == lead.drop_first() + rest);
        assert(all_white(lead.drop_first())) by {
            assert forall|i: int| 0 <= i < lead.drop_first().len() implies super::is_white(
                #[trigger] lead.drop_first()[i],
            ) by {
                assert(lead.drop_first()[i] == lead[i + 1]);
            }
        }
        lemma_trim_start(lead.drop_first(), rest);
    } else {
        assert(all == rest);
    }
}

proof fn lemma_trim_end(rest: Seq<char>, tail: Seq<char>)
    requires
        all_white(tail),
        rest.len() > 0 ==> !super::is_white(rest.last()),
    ensures
        super::trim_end(rest + tail) == rest,
    decreases tail.len(),
{
    let all = rest + tail;
    if tail.len() > 0 {
        assert(all.last() == tail[tail.len() - 1]);
        assert(all.drop_last() == rest + tail.drop_last());
        assert(all_white(tail.drop_last())) by {
            assert forall|i: int| 0 <= i < tail.drop_last().len() implies super::is_white(
                #[trigger] tail.drop_last()[i],
            ) by {
                assert(tail.drop_last()[i] == tail[i]);
            }
        }
        lemma_trim_end(rest, tail.drop_last());
    } else {
        assert(all == rest);
    }
}

/// Trimming takes away all white space at both ends and nothing else.
pub proof fn law_trimming_takes_white_space_away(
    lead: Seq<char>,
    core: Seq<char>,
    tail: Seq<char>,
)
    requires
        all_white(lead),
        all_white(tail),
        core.len() > 0 ==> !super::is_white(core[0]) && !super::is_white(core.last()),
    ensures
        super::trimmed(lead + core + tail) == core,
{
    let rest = core + tail;
    assert(lead + core + tail == lead + rest);
    if core.len() > 0 {
        assert(rest[0] == core[0]);
        lemma_trim_start(lead, rest);
    } else {
        assert(rest == tail);
        let all = lead + rest;
        assert forall|i: int| 0 <= i < all.len() implies super::is_white(#[trigger] all[i]) by {
            if i < lead.len() {
                assert(all[i] == lead[i]);
            } else {
                assert(all[i] == tail[i - lead.len()]);
            }
        }
        lemma_trim_start(all, Seq::empty());
        assert(all + Seq::<char>::empty() == all);
        assert(super::trim_start(all) == Seq::<char>::empty());
    }
    if core.len() > 0 {
        lemma_trim_end(core, tail);
    }
}

/// Text of white space alone trims to nothing, and only such text does.
pub proof fn law_only_blank_text_trims_to_nothing(s: Seq<char>)
    ensures
        super::trimmed(s).len() == 0 <==> all_white(s),
{
    if all_white(s) {
        law_trimming_takes_white_space_away(s, Seq::empty(), Seq::empty());
        assert(s + Seq::<char>::empty() + Seq::<char>::empty() == s);
    } else {
        let i = choose|i: int| 0 <= i < s.len() && !super::is_white(#[trigger] s[i]);
        lemma_trim_keeps(s, i);
    }
}

proof fn lemma_trim_keeps(s: Seq<char>, i: int)
    requires
        0 <= i < s.len(),
        !super::is_white(s[i]),
    ensures
        super::trimmed(s).len() > 0,
    decreases s.len(),
{
    if super::is_white(s[0]) {
        assert(s.drop_first()[i - 1] == s[i]);
        lemma_trim_keeps(s.drop_first(), i - 1);
    } else {
        lemma_trim_end_keeps(s, i);
    }
}

proof fn lemma_trim_end_keeps(s: Seq<char>, i: int)
    requires
        0 <= i < s.len(),
        !super::is_white(s[i]),
    ensures
        super::trim_end(s).len() > 0,
    decreases s.len(),
{
    if super::is_white(s.last()) {
        assert(s.drop_last()[i] == s[i]);
        lemma_trim_end_keeps(s.drop_last(), i);
    }
}

proof fn lemma_word_len(word: Seq<char>, rest: Seq<char>)
    requires
        no_white(word),
        rest.len() > 0 ==> super::is_white(rest[0]),
    ensures
        super::word_len(word + rest) == word.len(),
    decreases word.len(),
{
    let all = word + rest;
    if word.len() > 0 {
        assert(all[0] == word[0]);
        assert(all.drop_first() == word.drop_first() + rest);
        assert forall|i: int| 0 <= i < word.drop_first().len() implies !super::is_white(
            #[trigger] word.drop_first()[i],
        ) by {
            assert(word.drop_first()[i] == word[i + 1]);
        }
        lemma_word_len(word.drop_first(), rest);
    } else {
        assert(all == rest);
    }
}

/// The second word is the one that white space sets apart from the first and
/// from what follows.
pub proof fn law_second_word_is_found(
    lead: Seq<char>,
    first: Seq<char>,
    gap: Seq<char>,
    second: Seq<char>,
    rest: Seq<char>,
)
    requires
        all_white(lead),
        first.len() > 0,
        no_white(first),
        gap.len() > 0,
        all_white(gap),
        no_white(second),
        second.len() == 0 ==> rest.len() == 0,
        rest.len() > 0 ==> super::is_white(rest[0]),
    ensures
        super::second_word(lead + first + gap + second + rest) == second,
{
    let tail = second + rest;
    let after = gap + tail;
    let from_first = first + after;
    assert(lead + first + gap + second + rest == lead + from_first);
    assert(from_first[0] == first[0]);
    lemma_trim_start(lead, from_first);
    assert(after[0] == gap[0]);
    lemma_word_len(first, after);
    assert(from_first.skip(first.len() as int) == after);
    if second.len() > 0 {
        assert(tail[0] == second[0]);
    }
    lemma_trim_start(gap, tail);
    lemma_word_len(second, rest);
    assert(tail.take(second.len() as int) == second);
}

/// Text of at most one word has no second one.
pub proof fn law_one_word_has_no_second(lead: Seq<char>, first: Seq<char>)
    requires
        all_white(lead),
        no_white(first),
    ensures
        super::second_word(lead + first) == Seq::<char>::empty(),
{
    if first.len() > 0 {
        assert(!super::is_white(first[0]));
    }
    lemma_trim_start(lead, first);
    lemma_word_len(first, Seq::empty());
    assert(first + Seq::<char>::empty() == first);
    let after = first.skip(first.len() as int);
    assert(after == Seq::<char>::empty());
    assert(super::trim_start(after) == after);
    assert(after.take(0) == Seq::<char>::empty());
}

} // verus!
