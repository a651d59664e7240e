//! Trimming, searching, splitting, letters.

use crate::text::{
    after_prefix, find, is_space, lemma_one_word, lemma_trim_start_joined, lemma_words_parted,
    lower, rfind_end, trim, trim_end, trim_start, words, CharClass,
};
use vstd::prelude::*;

verus! {

/// Whether all characters of the text are of the class.
pub open spec fn all_in(s: Seq<char>, class: CharClass) -> bool {
    forall|i: int| 0 <= i < s.len() ==> class.holds(#[trigger] s[i])
}

/// Whether no character of the text is of the class.
pub open spec fn none_in(s: Seq<char>, class: CharClass) -> bool {
    forall|i: int| 0 <= i < s.len() ==> !class.holds(#[trigger] s[i])
}

/// A class holds white space, or one character, or white space and the comma.
pub proof fn classes_hold_what_they_name(c: char, own: char)
    ensures
        CharClass::Space.holds(c) <==> is_space(c),
        CharClass::Only(own).holds(c) <==> c == own,
        CharClass::ListBreak.holds(c) <==> c == ',' || is_space(c),
{
}

/// Trimming two texts in a row at the end.
pub proof fn lemma_trim_end_joined(s: Seq<char>, rest: Seq<char>, class: CharClass)
    ensures
        trim_end(s + rest, class) == (if trim_end(rest, class).len() == 0 {
            trim_end(s, class)
        } else {
            s + trim_end(rest, class)
        }),
    decreases rest.len(),
{
    if rest.len() == 0 {
        assert(s + rest =~= s);
    } else if class.holds(rest.last()) {
        assert((s + rest).drop_last() =~= s + rest.drop_last());
        lemma_trim_end_joined(s, rest.drop_last(), class);
    }
}

/// What is all of the class is trimmed away.
pub proof fn lemma_trimmed_away(s: Seq<char>, class: CharClass)
    requires
        all_in(s, class),
    ensures
        trim_start(s, class).len() == 0,
        trim_end(s, class).len() == 0,
    decreases s.len(),
{
    if s.len() > 0 {
        assert(class.holds(s[0]) && class.holds(s[s.len() - 1]));
        assert forall|i: int| 0 <= i < s.len() - 1 implies class.holds(
            #[trigger] s.drop_first()[i],
        ) by {
            assert(s.drop_first()[i] == s[i + 1]);
        }
        assert forall|i: int| 0 <= i < s.len() - 1 implies class.holds(
            #[trigger] s.drop_last()[i],
        ) by {
            assert(s.drop_last()[i] == s[i]);
        }
        lemma_trimmed_away(s.drop_first(), class);
        lemma_trimmed_away(s.drop_last(), class);
    }
}

/// Trimming takes away what stands at the ends and is of the class, all of it and nothing else.
pub proof fn trimming_leaves_the_inner_part(
    before: Seq<char>,
    inner: Seq<char>,
    after: Seq<char>,
    class: CharClass,
)
    requires
        all_in(before, class),
        all_in(after, class),
        inner.len() > 0 ==> !class.holds(inner[0]) && !class.holds(inner.last()),
    ensures
        trim_start(before + inner, class) == inner,
        trim_end(inner + after, class) == inner,
        trim(before + inner + after, class) == inner,
{
    lemma_trimmed_away(before, class);
    lemma_trimmed_away(after, class);
    lemma_trim_start_joined(before, inner, class);
    lemma_trim_end_joined(inner, after, class);
    assert(before + inner + after =~= before + (inner + after));
    lemma_trim_start_joined(before, inner + after, class);
    if inner.len() > 0 {
        assert((inner + after)[0] == inner[0]);
        assert(trim_start(inner + after, class) == inner + after);
    } else {
        assert(inner + after =~= after);
    }
}

/// Searching finds the first character of the class, and the last one.
pub proof fn searching_finds_the_first_and_the_last(
    before: Seq<char>,
    c: char,
    after: Seq<char>,
    class: CharClass,
)
    requires
        class.holds(c),
    ensures
        none_in(before, class) ==> find(before + seq![c] + after, class) == before.len(),
        none_in(before, class) ==> find(before, class) == before.len(),
        none_in(after, class) ==> rfind_end(before + seq![c] + after, class) == before.len() + 1,
        none_in(before, class) ==> rfind_end(before, class) == 0,
{
    if none_in(before, class) {
        lemma_find_none(before, class);
        let rest = seq![c] + after;
        assert(before + seq![c] + after =~= before + rest);
        crate::text::lemma_find_joined(before, rest, class);
        assert(find(rest, class) == 0);
    }
    if none_in(after, class) {
        lemma_rfind_end_is(before + seq![c], after, class);
        assert((before + seq![c]).last() == c);
        assert(before + seq![c] + after =~= (before + seq![c]) + after);
    }
}

proof fn lemma_find_none(s: Seq<char>, class: CharClass)
    requires
        none_in(s, class),
    ensures
        find(s, class) == s.len(),
        rfind_end(s, class) == 0,
{
    crate::text::lemma_find(s, class);
    crate::text::lemma_rfind_end(s, class);
    if find(s, class) < s.len() {
        assert(class.holds(s[find(s, class) as int]));
    }
    if rfind_end(s, class) > 0 {
        assert(class.holds(s[rfind_end(s, class) - 1]));
    }
}

proof fn lemma_rfind_end_is(head: Seq<char>, after: Seq<char>, class: CharClass)
    requires
        head.len() > 0,
        class.holds(head.last()),
        none_in(after, class),
    ensures
        rfind_end(head + after, class) == head.len(),
    decreases after.len(),
{
    let s = head + after;
    if after.len() == 0 {
        assert(s =~= head);
    } else {
        assert(s.last() == after.last());
        assert(!class.holds(after[after.len() - 1]));
        assert(s.drop_last() =~= head + after.drop_last());
        assert forall|i: int| 0 <= i < after.len() - 1 implies !class.holds(
            #[trigger] after.drop_last()[i],
        ) by {
            assert(after.drop_last()[i] == after[i]);
        }
        lemma_rfind_end_is(head, after.drop_last(), class);
    }
}

/// Making letters small moves the ASCII capitals by the distance of the alphabets, and touches
/// nothing else.
pub proof fn only_capitals_are_made_small(s: Seq<char>, i: int)
    requires
        0 <= i < s.len(),
    ensures
        lower(s).len() == s.len(),
        'A' <= s[i] <= 'Z' ==> lower(s)[i] as u32 == s[i] as u32 + 32,
        !('A' <= s[i] <= 'Z') ==> lower(s)[i] == s[i],
{
}

/// A text without white space is one word; white space of any kind ends a word and is in none;
/// nothing has no words. So the words of any text are given.
pub proof fn words_are_parted_by_white_space(
    word: Seq<char>,
    a: Seq<char>,
    between: char,
    b: Seq<char>,
)
    requires
        is_space(between),
    ensures
        words(Seq::<char>::empty()) == Seq::<Seq<char>>::empty(),
        word.len() > 0 && none_in(word, CharClass::Space) ==> words(word) == seq![word],
        words(a + seq![between] + b) == words(a) + words(b),
{
    assert(words(Seq::<char>::empty()) =~= Seq::<Seq<char>>::empty());
    if word.len() > 0 && none_in(word, CharClass::Space) {
        assert forall|i: int| 0 <= i < word.len() implies !is_space(#[trigger] word[i]) by {
            assert(!CharClass::Space.holds(word[i]));
        }
        lemma_one_word(word);
    }
    lemma_words_parted(a, between, b);
}

/// Taking a prefix off leaves the rest, and is possible only where the text begins with it.
pub proof fn prefix_comes_off_whole(prefix: Seq<char>, rest: Seq<char>, s: Seq<char>)
    ensures
        after_prefix(prefix + rest, prefix) == Some(rest),
        after_prefix(s, prefix) is Some ==> s == prefix + after_prefix(s, prefix)->Some_0,
        after_prefix(s, prefix) is Some <==> s.len() >= prefix.len() && s.take(
            prefix.len() as int,
        ) == prefix,
{
    let whole = prefix + rest;
    assert(whole.take(prefix.len() as int) =~= prefix);
    assert(whole.skip(prefix.len() as int) =~= rest);
    if after_prefix(s, prefix) is Some {
        assert(s =~= s.take(prefix.len() as int) + s.skip(prefix.len() as int));
        assert(s.take(prefix.len() as int) =~= prefix);
    }
    if s.len() >= prefix.len() && s.take(prefix.len() as int) == prefix {
        assert(prefix.is_prefix_of(s));
    }
}

} // verus!
