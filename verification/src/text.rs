//! Characters and text: classes of characters, trimming, searching, words.

use vstd::prelude::*;
use vstd::slice::slice_subrange;

verus! {

/// Appends one character; `String::push` adds it at the end of the text.
pub assume_specification[ std::string::String::push ](string: &mut String, c: char)
    ensures
        final(string)@ == old(string)@.push(c),
;

/// The characters that Unicode lists as white space.
pub open spec fn is_space(c: char) -> bool {
    let n = c as u32;
    ||| 0x09 <= n <= 0x0d
    ||| n == 0x20
    ||| n == 0x85
    ||| n == 0xa0
    ||| n == 0x1680
    ||| 0x2000 <= n <= 0x200a
    ||| n == 0x2028
    ||| n == 0x2029
    ||| n == 0x202f
    ||| n == 0x205f
    ||| n == 0x3000
}

/// A set of characters that text is trimmed of, or cut at.
#[derive(Clone, Copy)]
pub enum CharClass {
    /// White space.
    Space,
    /// One character.
    Only(char),
    /// A comma or white space.
    ListBreak,
}

impl CharClass {
    /// Whether the class holds the character.
    pub open spec fn holds(self, c: char) -> bool {
        match self {
            CharClass::Space => is_space(c),
            CharClass::Only(own) => c == own,
            CharClass::ListBreak => c == ',' || is_space(c),
        }
    }

    fn test(self, c: char) -> (r: bool)
        ensures
            r == self.holds(c),
    {
        match self {
            CharClass::Space => space(c),
            CharClass::Only(own) => c == own,
            CharClass::ListBreak => c == ',' || space(c),
        }
    }
}

/// Whether the character is white space.
pub fn space(c: char) -> (r: bool)
    ensures
        r == is_space(c),
{
    let n: u32 = c as u32;
    (0x09 <= n && n <= 0x0d) || n == 0x20 || n == 0x85 || n == 0xa0 || n == 0x1680 || (0x2000 <= n
        && n <= 0x200a) || n == 0x2028 || n == 0x2029 || n == 0x202f || n == 0x205f || n == 0x3000
}

/// The text without the characters of the class that it begins with.
pub open spec fn trim_start(s: Seq<char>, class: CharClass) -> Seq<char>
    decreases s.len(),
{
    if s.len() > 0 && class.holds(s[0]) {
        trim_start(s.drop_first(), class)
    } else {
        s
    }
}

/// The text without the characters of the class that it ends with.
pub open spec fn trim_end(s: Seq<char>, class: CharClass) -> Seq<char>
    decreases s.len(),
{
    if s.len() > 0 && class.holds(s.last()) {
        trim_end(s.drop_last(), class)
    } else {
        s
    }
}

/// The text without the characters of the class at both of its ends.
pub open spec fn trim(s: Seq<char>, class: CharClass) -> Seq<char> {
    trim_end(trim_start(s, class), class)
}

/// How many characters come before the first one of the class; all, if there is none.
pub open spec fn find(s: Seq<char>, class: CharClass) -> nat
    decreases s.len(),
{
    if s.len() == 0 || class.holds(s[0]) {
        0
    } else {
        1 + find(s.drop_first(), class)
    }
}

/// How many characters stand up to and with the last one of the class; none, if there is none.
pub open spec fn rfind_end(s: Seq<char>, class: CharClass) -> nat
    decreases s.len(),
{
    if s.len() == 0 {
        0
    } else if class.holds(s.last()) {
        s.len()
    } else {
        rfind_end(s.drop_last(), class)
    }
}

/// The character with an ASCII capital letter made small.
pub open spec fn lower_char(c: char) -> char {
    if 'A' <= c <= 'Z' {
        (c as u32 + 32) as char
    } else {
        c
    }
}

/// The text with its ASCII capital letters made small.
pub open spec fn lower(s: Seq<char>) -> Seq<char> {
    Seq::new(s.len(), |i: int| lower_char(s[i]))
}

/// The runs of characters between white space.
pub open spec fn words(s: Seq<char>) -> Seq<Seq<char>>
    decreases s.len(),
{
    let rest = trim_start(s, CharClass::Space);
    if rest.len() == 0 {
        Seq::empty()
    } else {
        proof {
            lemma_trim_start(s, CharClass::Space);
            lemma_find(rest, CharClass::Space);
        }
        seq![rest.take(find(rest, CharClass::Space) as int)] + words(
            rest.skip(find(rest, CharClass::Space) as int),
        )
    }
}

/// Trimming at the start leaves an end part of the text that does not begin with the class.
pub proof fn lemma_trim_start(s: Seq<char>, class: CharClass)
    ensures
        trim_start(s, class).len() <= s.len(),
        trim_start(s, class) == s.skip(s.len() - trim_start(s, class).len()),
        trim_start(s, class).len() > 0 ==> !class.holds(trim_start(s, class)[0]),
    decreases s.len(),
{
    if s.len() > 0 && class.holds(s[0]) {
        lemma_trim_start(s.drop_first(), class);
        let t = trim_start(s, class);
        assert(s.drop_first().skip(s.len() - 1 - t.len()) =~= s.skip(s.len() - t.len()));
    } else {
        assert(s.skip(0) =~= s);
    }
}

/// Trimming at the end leaves a first part of the text that does not end with the class.
pub proof fn lemma_trim_end(s: Seq<char>, class: CharClass)
    ensures
        trim_end(s, class).len() <= s.len(),
        trim_end(s, class) == s.take(trim_end(s, class).len() as int),
        trim_end(s, class).len() > 0 ==> !class.holds(trim_end(s, class).last()),
    decreases s.len(),
{
    if s.len() > 0 && class.holds(s.last()) {
        lemma_trim_end(s.drop_last(), class);
        let t = trim_end(s, class);
        assert(s.drop_last().take(t.len() as int) =~= s.take(t.len() as int));
    } else {
        assert(s.take(s.len() as int) =~= s);
    }
}

/// What `find` finds is the first character of the class.
pub proof fn lemma_find(s: Seq<char>, class: CharClass)
    ensures
        find(s, class) <= s.len(),
        forall|i: int| 0 <= i < find(s, class) ==> !class.holds(#[trigger] s[i]),
        find(s, class) < s.len() ==> class.holds(s[find(s, class) as int]),
    decreases s.len(),
{
    if s.len() == 0 || class.holds(s[0]) {
    } else {
        let rest = s.drop_first();
        lemma_find(rest, class);
        assert forall|i: int| 0 <= i < find(s, class) implies !class.holds(#[trigger] s[i]) by {
            if i > 0 {
                assert(rest[i - 1] == s[i]);
            }
        }
    }
}

/// What `rfind_end` finds is the last character of the class.
pub proof fn lemma_rfind_end(s: Seq<char>, class: CharClass)
    ensures
        rfind_end(s, class) <= s.len(),
        forall|i: int| rfind_end(s, class) <= i < s.len() ==> !class.holds(#[trigger] s[i]),
        rfind_end(s, class) > 0 ==> class.holds(s[rfind_end(s, class) - 1]),
    decreases s.len(),
{
    if s.len() == 0 || class.holds(s.last()) {
    } else {
        let rest = s.drop_last();
        lemma_rfind_end(rest, class);
        assert forall|i: int| rfind_end(s, class) <= i < s.len() implies !class.holds(
            #[trigger] s[i],
        ) by {
            if i < rest.len() {
                assert(rest[i] == s[i]);
            }
        }
    }
}

/// The characters of a text.
pub fn chars_of(text: &str) -> (r: Vec<char>)
    ensures
        r@ == text@,
{
    let mut chars: Vec<char> = Vec::new();
    for c in it: text.chars()
        invariant
            chars@ == it.seq().take(it.index() as int),
    {
        chars.push(c);
        assert(it.seq().take(it.index() + 1 as int) =~= it.seq().take(it.index() as int).push(c));
    }
    assert(chars@ =~= text@);
    chars
}

/// The text that the characters make.
pub fn text_of(chars: &[char]) -> (r: String)
    ensures
        r@ == chars@,
{
    let mut text = String::new();
    let mut i: usize = 0;
    while i < chars.len()
        invariant
            i <= chars@.len(),
            text@ == chars@.take(i as int),
        decreases chars@.len() - i,
    {
        text.push(chars[i]);
        i += 1;
        assert(chars@.take(i as int) =~= chars@.take(i - 1).push(chars@[i - 1]));
    }
    assert(chars@.take(i as int) =~= chars@);
    text
}

/// Drops the characters of the class that the text begins with.
pub fn trimmed_start(s: &[char], class: CharClass) -> (r: &[char])
    ensures
        r@ == trim_start(s@, class),
{
    let mut i: usize = 0;
    assert(s@.skip(0) =~= s@);
    while i < s.len() && class.test(s[i])
        invariant
            i <= s@.len(),
            trim_start(s@.skip(i as int), class) == trim_start(s@, class),
        decreases s@.len() - i,
    {
        assert(s@.skip(i as int).drop_first() =~= s@.skip(i + 1));
        i += 1;
    }
    slice_subrange(s, i, s.len())
}

/// Drops the characters of the class that the text ends with.
pub fn trimmed_end(s: &[char], class: CharClass) -> (r: &[char])
    ensures
        r@ == trim_end(s@, class),
{
    let mut n: usize = s.len();
    assert(s@.take(s@.len() as int) =~= s@);
    while n > 0 && class.test(s[n - 1])
        invariant
            n <= s@.len(),
            trim_end(s@.take(n as int), class) == trim_end(s@, class),
        decreases n,
    {
        assert(s@.take(n as int).drop_last() =~= s@.take(n - 1));
        n -= 1;
    }
    slice_subrange(s, 0, n)
}

/// Drops the characters of the class at both ends of the text.
pub fn trimmed(s: &[char], class: CharClass) -> (r: &[char])
    ensures
        r@ == trim(s@, class),
{
    trimmed_end(trimmed_start(s, class), class)
}

/// The number of characters before the first one of the class.
pub fn found(s: &[char], class: CharClass) -> (r: usize)
    ensures
        r == find(s@, class),
        r <= s@.len(),
{
    let mut i: usize = 0;
    assert(s@.skip(0) =~= s@);
    while i < s.len() && !class.test(s[i])
        invariant
            i <= s@.len(),
            i + find(s@.skip(i as int), class) == find(s@, class),
        decreases s@.len() - i,
    {
        assert(s@.skip(i as int).drop_first() =~= s@.skip(i + 1));
        i += 1;
    }
    i
}

/// The number of characters up to and with the last one of the class.
pub fn rfound_end(s: &[char], class: CharClass) -> (r: usize)
    ensures
        r == rfind_end(s@, class),
        r <= s@.len(),
{
    let mut n: usize = s.len();
    assert(s@.take(s@.len() as int) =~= s@);
    while n > 0 && !class.test(s[n - 1])
        invariant
            n <= s@.len(),
            rfind_end(s@.take(n as int), class) == rfind_end(s@, class),
        decreases n,
    {
        assert(s@.take(n as int).drop_last() =~= s@.take(n - 1));
        n -= 1;
    }
    n
}

/// Makes the ASCII capital letters of the text small.
pub fn lowered(s: &[char]) -> (r: String)
    ensures
        r@ == lower(s@),
{
    let mut text = String::new();
    let mut i: usize = 0;
    while i < s.len()
        invariant
            i <= s@.len(),
            text@ == lower(s@).take(i as int),
        decreases s@.len() - i,
    {
        let c: char = s[i];
        let small: char = if 'A' <= c && c <= 'Z' {
            (c as u8 + 32) as char
        } else {
            c
        };
        text.push(small);
        i += 1;
        assert(lower(s@).take(i as int) =~= lower(s@).take(i - 1).push(small));
    }
    assert(lower(s@).take(i as int) =~= lower(s@));
    text
}

/// What the texts of a list say.
pub open spec fn texts(list: Seq<String>) -> Seq<Seq<char>> {
    Seq::new(list.len(), |i: int| list[i]@)
}

/// What an optional text says.
pub open spec fn text_option(text: Option<String>) -> Option<Seq<char>> {
    match text {
        Some(text) => Some(text@),
        None => None,
    }
}

/// A copy of a list of texts.
pub fn copied_texts(list: &Vec<String>) -> (r: Vec<String>)
    ensures
        r@ == list@,
{
    let mut copy: Vec<String> = Vec::new();
    let mut i: usize = 0;
    while i < list.len()
        invariant
            i <= list@.len(),
            copy@ == list@.take(i as int),
        decreases list@.len() - i,
    {
        copy.push(list[i].clone());
        i += 1;
        assert(list@.take(i as int) =~= list@.take(i - 1).push(list@[i - 1]));
    }
    assert(list@.take(i as int) =~= list@);
    copy
}

/// A copy of an optional text.
pub fn copied_option(text: &Option<String>) -> (r: Option<String>)
    ensures
        r == *text,
{
    match text {
        Some(text) => Some(text.clone()),
        None => None,
    }
}

/// Whether the list holds the text.
pub fn listed(list: &Vec<String>, text: &String) -> (r: bool)
    ensures
        r == texts(list@).contains(text@),
{
    let mut i: usize = 0;
    while i < list.len()
        invariant
            i <= list@.len(),
            forall|j: int| 0 <= j < i ==> texts(list@)[j] != text@,
        decreases list@.len() - i,
    {
        if list[i] == *text {
            assert(texts(list@)[i as int] == text@);
            return true;
        }
        i += 1;
    }
    false
}

/// Whether two texts say the same.
pub fn same(a: &str, b: &str) -> (r: bool)
    ensures
        r == (a@ == b@),
{
    a.to_owned() == b.to_owned()
}

/// Splits the text at white space.
pub fn worded(s: &[char]) -> (r: Vec<String>)
    ensures
        texts(r@) == words(s@),
{
    let mut list: Vec<String> = Vec::new();
    let mut rest: &[char] = trimmed_start(s, CharClass::Space);
    proof {
        lemma_words_trimmed(s@);
        lemma_trim_start_twice(s@, CharClass::Space);
        assert(texts(list@) + words(rest@) =~= words(s@));
    }
    while rest.len() > 0
        invariant
            texts(list@) + words(rest@) == words(s@),
            rest@ == trim_start(rest@, CharClass::Space),
        decreases rest@.len(),
    {
        let n: usize = found(rest, CharClass::Space);
        let ghost before = texts(list@);
        let ghost whole = rest@;
        let word: &[char] = slice_subrange(rest, 0, n);
        list.push(text_of(word));
        rest = trimmed_start(slice_subrange(rest, n, rest.len()), CharClass::Space);
        proof {
            lemma_find(whole, CharClass::Space);
            lemma_trim_start(whole, CharClass::Space);
            lemma_trim_start(whole.skip(n as int), CharClass::Space);
            lemma_words_trimmed(whole.skip(n as int));
            lemma_trim_start_twice(whole.skip(n as int), CharClass::Space);
            assert(whole.take(n as int) =~= whole.subrange(0, n as int));
            assert(whole.skip(n as int) =~= whole.subrange(n as int, whole.len() as int));
            assert(texts(list@) =~= before + seq![whole.take(n as int)]);
            assert(words(whole) =~= seq![whole.take(n as int)] + words(rest@));
            assert(texts(list@) + words(rest@) =~= before + words(whole));
        }
    }
    assert(words(rest@) =~= Seq::<Seq<char>>::empty());
    assert(texts(list@) =~= words(s@));
    list
}

/// White space before the first word does not count.
pub proof fn lemma_words_trimmed(s: Seq<char>)
    ensures
        words(trim_start(s, CharClass::Space)) == words(s),
{
    lemma_trim_start_twice(s, CharClass::Space);
}

/// Trimming at the start twice is the same as once.
pub proof fn lemma_trim_start_twice(s: Seq<char>, class: CharClass)
    ensures
        trim_start(trim_start(s, class), class) == trim_start(s, class),
{
    lemma_trim_start(s, class);
}

/// What is left of the text after the prefix, where it begins with it.
pub open spec fn after_prefix(s: Seq<char>, prefix: Seq<char>) -> Option<Seq<char>> {
    if prefix.is_prefix_of(s) {
        Some(s.skip(prefix.len() as int))
    } else {
        None
    }
}

/// Takes a prefix off the text.
pub fn prefix_taken<'a>(s: &'a [char], prefix: &str) -> (r: Option<&'a [char]>)
    ensures
        match r {
            Some(rest) => after_prefix(s@, prefix@) == Some(rest@),
            None => after_prefix(s@, prefix@) is None,
        },
{
    let p: Vec<char> = chars_of(prefix);
    if s.len() < p.len() {
        return None;
    }
    let mut i: usize = 0;
    while i < p.len()
        invariant
            i <= p@.len() <= s@.len(),
            p@ == prefix@,
            forall|j: int| 0 <= j < i ==> s@[j] == p@[j],
        decreases p@.len() - i,
    {
        if s[i] != p[i] {
            assert(!prefix@.is_prefix_of(s@)) by {
                assert(s@.take(prefix@.len() as int)[i as int] == s@[i as int]);
            }
            return None;
        }
        i += 1;
    }
    assert(s@.take(prefix@.len() as int) =~= prefix@);
    assert(s@.skip(prefix@.len() as int) =~= s@.subrange(prefix@.len() as int, s@.len() as int));
    Some(slice_subrange(s, p.len(), s.len()))
}

/// Trimming takes no character that was not there.
pub proof fn lemma_trim_contains(s: Seq<char>, class: CharClass)
    ensures
        trim(s, class).len() <= s.len(),
        forall|i: int| 0 <= i < trim(s, class).len() ==> s.contains(#[trigger] trim(s, class)[i]),
{
    let start = trim_start(s, class);
    let t = trim(s, class);
    lemma_trim_start(s, class);
    lemma_trim_end(start, class);
    assert forall|i: int| 0 <= i < t.len() implies s.contains(#[trigger] t[i]) by {
        assert(t[i] == start[i]);
        assert(start[i] == s[i + (s.len() - start.len())]);
    }
}

/// Whether the class holds a letter in both of its forms or in none.
pub open spec fn ignores_case(class: CharClass) -> bool {
    forall|c: char| #[trigger] class.holds(lower_char(c)) == class.holds(c)
}

/// Making letters small and trimming can change places, where the class ignores case.
pub proof fn lemma_trim_lower(s: Seq<char>, class: CharClass)
    requires
        ignores_case(class),
    ensures
        trim_start(lower(s), class) == lower(trim_start(s, class)),
        trim_end(lower(s), class) == lower(trim_end(s, class)),
    decreases s.len(),
{
    if s.len() > 0 {
        assert(class.holds(lower_char(s[0])) == class.holds(s[0]));
        assert(class.holds(lower_char(s.last())) == class.holds(s.last()));
        assert(lower(s).drop_first() =~= lower(s.drop_first()));
        assert(lower(s).drop_last() =~= lower(s.drop_last()));
        lemma_trim_lower(s.drop_first(), class);
        lemma_trim_lower(s.drop_last(), class);
    }
}

/// Small letters stay as they are.
pub proof fn lemma_lower_twice(s: Seq<char>)
    ensures
        lower(lower(s)) == lower(s),
{
    assert(lower(lower(s)) =~= lower(s));
}

/// Trimming two texts in a row at the start.
pub proof fn lemma_trim_start_joined(s: Seq<char>, rest: Seq<char>, class: CharClass)
    ensures
        trim_start(s + rest, class) == (if trim_start(s, class).len() == 0 {
            trim_start(rest, class)
        } else {
            trim_start(s, class) + rest
        }),
    decreases s.len(),
{
    if s.len() == 0 {
        assert(s + rest =~= rest);
    } else if class.holds(s[0]) {
        assert((s + rest).drop_first() =~= s.drop_first() + rest);
        lemma_trim_start_joined(s.drop_first(), rest, class);
    }
}

/// Searching two texts in a row.
pub proof fn lemma_find_joined(s: Seq<char>, rest: Seq<char>, class: CharClass)
    ensures
        find(s + rest, class) == (if find(s, class) < s.len() {
            find(s, class)
        } else {
            s.len() + find(rest, class)
        }),
    decreases s.len(),
{
    if s.len() == 0 {
        assert(s + rest =~= rest);
    } else if !class.holds(s[0]) {
        assert((s + rest).drop_first() =~= s.drop_first() + rest);
        lemma_find_joined(s.drop_first(), rest, class);
    }
}

/// The words of two texts with white space between them are the words of one, then of the other.
pub proof fn lemma_words_parted(a: Seq<char>, between: char, b: Seq<char>)
    requires
        is_space(between),
    ensures
        words(a + seq![between] + b) == words(a) + words(b),
    decreases a.len(),
{
    let rest = seq![between] + b;
    let whole = a + rest;
    assert(a + seq![between] + b =~= whole);
    let t = trim_start(a, CharClass::Space);
    lemma_trim_start(a, CharClass::Space);
    lemma_trim_start_joined(a, rest, CharClass::Space);
    assert(rest.drop_first() =~= b);
    assert(trim_start(rest, CharClass::Space) == trim_start(b, CharClass::Space));
    lemma_words_trimmed(whole);
    lemma_words_trimmed(b);
    if t.len() == 0 {
        assert(words(a) + words(b) =~= words(b));
    } else {
        let n = find(t, CharClass::Space) as int;
        lemma_find(t, CharClass::Space);
        lemma_find_joined(t, rest, CharClass::Space);
        assert(find(rest, CharClass::Space) == 0);
        let trimmed_whole = t + rest;
        assert(trim_start(whole, CharClass::Space) == trimmed_whole);
        assert(find(trimmed_whole, CharClass::Space) == n);
        assert(trimmed_whole.take(n) =~= t.take(n));
        assert(trimmed_whole.skip(n) =~= t.skip(n) + seq![between] + b);
        lemma_words_parted(t.skip(n), between, b);
        assert(words(whole) == seq![t.take(n)] + words(t.skip(n) + seq![between] + b));
        assert(words(a) == seq![t.take(n)] + words(t.skip(n)));
        assert(words(whole) =~= words(a) + words(b));
    }
}

/// The words of two texts with a blank between them are the words of one, then of the other.
pub proof fn lemma_words_joined(a: Seq<char>, b: Seq<char>)
    ensures
        words(a + seq![' '] + b) == words(a) + words(b),
{
    lemma_words_parted(a, ' ', b);
}

/// A text without white space is its own only word.
pub proof fn lemma_one_word(s: Seq<char>)
    requires
        s.len() > 0,
        forall|i: int| 0 <= i < s.len() ==> !is_space(#[trigger] s[i]),
    ensures
        words(s) == seq![s],
{
    lemma_find(s, CharClass::Space);
    let n = find(s, CharClass::Space) as int;
    assert(n == s.len());
    assert(s.take(n) =~= s);
    assert(s.skip(n) =~= Seq::<char>::empty());
    assert(words(Seq::<char>::empty()) =~= Seq::<Seq<char>>::empty());
    assert(words(s) =~= seq![s]);
}

} // verus!
