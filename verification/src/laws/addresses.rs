//! What is read from addresses and events.

use crate::json::JsonTree;
use crate::laws::texts::{
    all_in, lemma_trim_end_joined, lemma_trimmed_away, none_in,
    searching_finds_the_first_and_the_last,
};
use crate::resend::{
    address_in, after_at, bracketed, email_domain, event_of, item_domain, item_domains,
    value_domains,
};
use crate::text::{
    find, is_space, lemma_find, lemma_rfind_end, lemma_trim_contains, lemma_trim_end,
    lemma_trim_start,
lemma_trim_start_joined, lower, rfind_end, trim, trim_end, trim_start, CharClass,
};
use vstd::prelude::*;

verus! {

/// Whether the text can be a domain as it stands in an address: no white space and none of the
/// marks that part addresses, and no dot at the end.
pub open spec fn is_domain(domain: Seq<char>) -> bool {
    &&& domain.len() > 0
    &&& domain.last() != '.'
    &&& forall|i: int|
        0 <= i < domain.len() ==> {
            let c = #[trigger] domain[i];
            !is_space(c) && c != '@' && c != ',' && c != '<' && c != '>' && c != ';' && c != '"'
                && c != '\''
        }
}

/// Whether the text holds the character nowhere.
pub open spec fn lacks(s: Seq<char>, c: char) -> bool {
    forall|i: int| 0 <= i < s.len() ==> #[trigger] s[i] != c
}

/// Whether the text is dots only.
pub open spec fn is_dots(s: Seq<char>) -> bool {
    forall|i: int| 0 <= i < s.len() ==> #[trigger] s[i] == '.'
}

/// Whether the text is white space only.
pub open spec fn is_white(s: Seq<char>) -> bool {
    forall|i: int| 0 <= i < s.len() ==> is_space(#[trigger] s[i])
}

/// Trimming a text that has an inner character and an end that stay takes away at most a part of
/// what stands before them.
proof fn lemma_trim_before(head: Seq<char>, c: char, tail: Seq<char>, class: CharClass)
    requires
        !class.holds(c),
        tail.len() > 0 ==> !class.holds(tail.last()),
    ensures
        trim(head + seq![c] + tail, class) == trim_start(head, class) + seq![c] + tail,
{
    let rest = seq![c] + tail;
    assert(head + seq![c] + tail =~= head + rest);
    lemma_trim_start_joined(head, rest, class);
    assert(rest[0] == c);
    assert(trim_start(rest, class) == rest);
    let t = trim_start(head, class) + rest;
    if trim_start(head, class).len() == 0 {
        assert(t =~= rest);
    }
    assert(trim_start(head + rest, class) == t);
    assert(t.last() == rest.last());
    assert(t =~= trim_start(head, class) + seq![c] + tail);
}

/// The domain of an address is what follows its last `@`, in small letters and without the dots
/// at its end.
proof fn lemma_address(local: Seq<char>, domain: Seq<char>, dots: Seq<char>)
    requires
        is_domain(domain),
        is_dots(dots),
    ensures
        ({
            let written = local + seq!['@'] + (domain + dots);
            let address = trim(
                trim(trim(written, CharClass::Space), CharClass::Only('"')),
                CharClass::Only('\''),
            );
            &&& rfind_end(address, CharClass::Only('@')) > 0
            &&& after_at(address) == domain
        }),
{
    let tail = domain + dots;
    let written = local + seq!['@'] + tail;
    lemma_domain_chars(domain, dots);
    let l1 = trim_start(local, CharClass::Space);
    let l2 = trim_start(l1, CharClass::Only('"'));
    let l3 = trim_start(l2, CharClass::Only('\''));
    lemma_trim_before(local, '@', tail, CharClass::Space);
    lemma_trim_before(l1, '@', tail, CharClass::Only('"'));
    lemma_trim_before(l2, '@', tail, CharClass::Only('\''));
    let address = l3 + seq!['@'] + tail;
    assert forall|i: int| 0 <= i < tail.len() implies !CharClass::Only('@').holds(
        #[trigger] tail[i],
    ) by {}
    searching_finds_the_first_and_the_last(l3, '@', tail, CharClass::Only('@'));
    assert(address.skip(l3.len() as int + 1) =~= tail);
    assert(trim(tail, CharClass::Space) == tail);
    assert(trim(tail, CharClass::Only('>')) == tail);
    assert(trim(tail, CharClass::Only(';')) == tail);
    assert forall|i: int| 0 <= i < tail.len() implies !CharClass::ListBreak.holds(
        #[trigger] tail[i],
    ) by {}
    searching_finds_the_first_and_the_last(tail, ',', Seq::empty(), CharClass::ListBreak);
    assert(tail.take(tail.len() as int) =~= tail);
    assert(all_in(dots, CharClass::Only('.')));
    lemma_trimmed_away(dots, CharClass::Only('.'));
    lemma_trim_end_joined(domain, dots, CharClass::Only('.'));
    assert(trim_end(domain, CharClass::Only('.')) == domain);
}

proof fn lemma_domain_chars(domain: Seq<char>, dots: Seq<char>)
    requires
        is_domain(domain),
        is_dots(dots),
    ensures
        (domain + dots).len() > 0,
        forall|i: int|
            0 <= i < (domain + dots).len() ==> {
                let c = #[trigger] (domain + dots)[i];
                !is_space(c) && c != '@' && c != ',' && c != '<' && c != '>' && c != ';' && c
                    != '"' && c != '\''
            },
{
    assert forall|i: int| 0 <= i < (domain + dots).len() implies {
        let c = #[trigger] (domain + dots)[i];
        !is_space(c) && c != '@' && c != ',' && c != '<' && c != '>' && c != ';' && c != '"' && c
            != '\''
    } by {
        if i < domain.len() {
            assert((domain + dots)[i] == domain[i]);
        } else {
            assert((domain + dots)[i] == dots[i - domain.len()]);
        }
    }
}

/// The domain of a plain address is all that follows its last `@`, in small letters, without dots
/// at its end, whatever stands before the `@` and whatever white space stands around.
pub proof fn plain_address_has_its_domain(
    local: Seq<char>,
    domain: Seq<char>,
    dots: Seq<char>,
    white: Seq<char>,
)
    requires
        lacks(local, '<'),
        is_domain(domain),
        is_dots(dots),
        is_white(white),
    ensures
        email_domain(local + seq!['@'] + domain + dots + white) == Some(lower(domain)),
{
    let tail = domain + dots;
    let written = local + seq!['@'] + tail;
    let field = local + seq!['@'] + domain + dots + white;
    assert(field =~= written + white);
    lemma_domain_chars(domain, dots);
    assert(all_in(white, CharClass::Space));
    lemma_trimmed_away(white, CharClass::Space);
    let l1 = trim_start(local, CharClass::Space);
    let part = l1 + seq!['@'] + tail;
    // The field without the white space around it.
    let rest = seq!['@'] + tail + white;
    assert(field =~= local + rest);
    lemma_trim_start_joined(local, rest, CharClass::Space);
    assert(rest[0] == '@');
    assert(trim_start(rest, CharClass::Space) == rest);
    assert(trim_start(field, CharClass::Space) =~= part + white);
    lemma_trim_end_joined(part, white, CharClass::Space);
    assert(part.last() == tail.last());
    assert(trim_end(part, CharClass::Space) == part);
    assert(trim(field, CharClass::Space) == part);
    // There is no bracket in it.
    lemma_trim_start(local, CharClass::Space);
    assert forall|i: int| 0 <= i < part.len() implies !CharClass::Only('<').holds(
        #[trigger] part[i],
    ) by {
        if i < l1.len() {
            assert(part[i] == local[i + (local.len() - l1.len())]);
        } else if i > l1.len() {
            assert(part[i] == tail[i - l1.len() - 1]);
        }
    }
    searching_finds_the_first_and_the_last(part, '<', Seq::empty(), CharClass::Only('<'));
    assert(bracketed(part) == part);
    lemma_address(l1, domain, dots);
}

/// The domain of an address in angle brackets is what follows its last `@`, whatever name stands
/// before the brackets and whatever follows them.
pub proof fn bracketed_address_has_its_domain(
    name: Seq<char>,
    local: Seq<char>,
    domain: Seq<char>,
    dots: Seq<char>,
    rest: Seq<char>,
)
    requires
        lacks(name, '<'),
        lacks(local, '>'),
        is_domain(domain),
        is_dots(dots),
    ensures
        email_domain(
            name + seq!['<'] + local + seq!['@'] + domain + dots + seq!['>'] + rest,
        ) == Some(lower(domain)),
{
    let tail = domain + dots;
    let mid = local + seq!['@'] + tail;
    let field = name + seq!['<'] + local + seq!['@'] + domain + dots + seq!['>'] + rest;
    lemma_domain_chars(domain, dots);
    let n1 = trim_start(name, CharClass::Space);
    let r1 = trim_end(rest, CharClass::Space);
    let from_bracket = seq!['<'] + mid + seq!['>'] + rest;
    assert(field =~= name + from_bracket);
    lemma_trim_start_joined(name, from_bracket, CharClass::Space);
    assert(from_bracket[0] == '<');
    assert(trim_start(from_bracket, CharClass::Space) == from_bracket);
    let head = n1 + seq!['<'] + mid + seq!['>'];
    assert(trim_start(field, CharClass::Space) =~= head + rest);
    lemma_trim_end_joined(head, rest, CharClass::Space);
    assert(head.last() == '>');
    assert(trim_end(head, CharClass::Space) == head);
    let inner = trim(field, CharClass::Space);
    assert(inner =~= head + r1) by {
        if r1.len() == 0 {
            assert(head + r1 =~= head);
        }
    }
    // The first bracket, and the one that closes it.
    let after = mid + seq!['>'] + r1;
    assert(inner =~= n1 + seq!['<'] + after);
    lemma_trim_start(name, CharClass::Space);
    assert forall|i: int| 0 <= i < n1.len() implies !CharClass::Only('<').holds(
        #[trigger] n1[i],
    ) by {
        assert(n1[i] == name[i + (name.len() - n1.len())]);
    }
    searching_finds_the_first_and_the_last(n1, '<', after, CharClass::Only('<'));
    assert(inner.skip(n1.len() as int + 1) =~= after);
    assert forall|i: int| 0 <= i < mid.len() implies !CharClass::Only('>').holds(
        #[trigger] mid[i],
    ) by {
        if i < local.len() {
            assert(mid[i] == local[i]);
        } else if i > local.len() {
            assert(mid[i] == tail[i - local.len() - 1]);
        }
    }
    searching_finds_the_first_and_the_last(mid, '>', r1, CharClass::Only('>'));
    assert(after.take(mid.len() as int) =~= mid);
    assert(bracketed(inner) == mid);
    lemma_address(local, domain, dots);
}

/// The domain of an address with a name before it, where it is written in small letters, is as
/// written.
pub proof fn small_domain_is_read_as_written(
    name: Seq<char>,
    local: Seq<char>,
    domain: Seq<char>,
)
    requires
        lacks(name, '<'),
        lacks(local, '<'),
        lacks(local, '>'),
        is_domain(domain),
        forall|i: int| 0 <= i < domain.len() ==> !('A' <= #[trigger] domain[i] <= 'Z'),
    ensures
        email_domain(local + seq!['@'] + domain) == Some(domain),
        email_domain(
            name + seq![' ', '<'] + local + seq!['@'] + domain + seq!['>'],
        ) == Some(domain),
{
    let none = Seq::<char>::empty();
    plain_address_has_its_domain(local, domain, none, none);
    assert(local + seq!['@'] + domain + none + none =~= local + seq!['@'] + domain);
    let spaced = name.push(' ');
    assert forall|i: int| 0 <= i < spaced.len() implies #[trigger] spaced[i] != '<' by {
        if i < name.len() {
            assert(spaced[i] == name[i]);
        }
    }
    bracketed_address_has_its_domain(spaced, local, domain, none, none);
    assert(spaced + seq!['<'] + local + seq!['@'] + domain + none + seq!['>'] + none =~= name + seq![
        ' ',
        '<',
    ] + local + seq!['@'] + domain + seq!['>']);
    assert(lower(domain) =~= domain);
}

/// Whether the text is the domain, or the domain and then a comma or white space and anything.
pub open spec fn begins_with_domain(t: Seq<char>, domain: Seq<char>) -> bool {
    &&& t.len() >= domain.len()
    &&& t.take(domain.len() as int) == domain
    &&& t.len() > domain.len() ==> t[domain.len() as int] == ',' || is_space(
        t[domain.len() as int],
    )
}

/// Trimming at the end stops at the first character that is not of the class.
pub proof fn lemma_trim_end_stops(t: Seq<char>, class: CharClass, j: int)
    requires
        0 <= j < t.len(),
        !class.holds(t[j]),
    ensures
        trim_end(t, class).len() > j,
        trim_end(t, class) == t.take(trim_end(t, class).len() as int),
        trim_end(t, class).len() <= t.len(),
    decreases t.len(),
{
    lemma_trim_end(t, class);
    if class.holds(t.last()) {
        assert(j < t.len() - 1);
        assert(t.drop_last()[j] == t[j]);
        lemma_trim_end_stops(t.drop_last(), class, j);
    }
}

proof fn lemma_trim_begins(t: Seq<char>, domain: Seq<char>, class: CharClass)
    requires
        is_domain(domain),
        begins_with_domain(t, domain),
        none_in(domain, class),
    ensures
        begins_with_domain(trim_end(t, class), domain),
        trim(t, class) == trim_end(t, class),
        forall|i: int|
            0 <= i < trim_end(t, class).len() ==> t.contains(#[trigger] trim_end(t, class)[i]),
{
    let n = domain.len() as int;
    assert(t[n - 1] == t.take(n)[n - 1]);
    assert(!class.holds(domain[n - 1]));
    lemma_trim_end_stops(t, class, n - 1);
    let e = trim_end(t, class);
    assert(e.take(n) =~= t.take(n));
    assert(t[0] == t.take(n)[0]);
    assert(!class.holds(domain[0]));
    assert forall|i: int| 0 <= i < e.len() implies t.contains(#[trigger] e[i]) by {
        assert(e[i] == t[i]);
    }
}

proof fn lemma_trim_address(head: Seq<char>, t: Seq<char>, domain: Seq<char>, class: CharClass)
    requires
        is_domain(domain),
        begins_with_domain(t, domain),
        none_in(domain, class),
        !class.holds('@'),
    ensures
        trim(head + seq!['@'] + t, class) == trim_start(head, class) + seq!['@'] + trim_end(
            t,
            class,
        ),
{
    lemma_trim_begins(t, domain, class);
    let rest = seq!['@'] + t;
    assert(head + seq!['@'] + t =~= head + rest);
    lemma_trim_start_joined(head, rest, class);
    assert(rest[0] == '@');
    let h = trim_start(head, class) + seq!['@'];
    assert(trim_start(head + rest, class) =~= h + t);
    lemma_trim_end_joined(h, t, class);
}

/// What follows an address after a comma or white space does not count.
pub proof fn what_follows_an_address_does_not_count(
    local: Seq<char>,
    domain: Seq<char>,
    between: char,
    rest: Seq<char>,
)
    requires
        lacks(local, '<'),
        is_domain(domain),
        between == ',' || is_space(between),
        lacks(rest, '<'),
        lacks(rest, '@'),
    ensures
        email_domain(local + seq!['@'] + domain + seq![between] + rest) == Some(lower(domain)),
{
    let t0 = domain + seq![between] + rest;
    let field = local + seq!['@'] + domain + seq![between] + rest;
    let n = domain.len() as int;
    assert(field =~= local + seq!['@'] + t0);
    assert(t0.take(n) =~= domain);
    assert(t0[n] == between);
    assert forall|i: int| 0 <= i < t0.len() implies #[trigger] t0[i] != '@' && t0[i] != '<' by {
        if i < n {
            assert(t0[i] == domain[i]);
        } else if i > n {
            assert(t0[i] == rest[i - n - 1]);
        }
    }
    let l1 = trim_start(local, CharClass::Space);
    let t1 = trim_end(t0, CharClass::Space);
    lemma_trim_address(local, t0, domain, CharClass::Space);
    lemma_trim_begins(t0, domain, CharClass::Space);
    let part = l1 + seq!['@'] + t1;
    lemma_trim_start(local, CharClass::Space);
    assert forall|i: int| 0 <= i < part.len() implies !CharClass::Only('<').holds(
        #[trigger] part[i],
    ) by {
        if i < l1.len() {
            assert(part[i] == local[i + (local.len() - l1.len())]);
        } else if i > l1.len() {
            let j = t0.index_of(t1[i - l1.len() - 1]);
            assert(t0[j] == part[i]);
        }
    }
    searching_finds_the_first_and_the_last(part, '<', Seq::empty(), CharClass::Only('<'));
    assert(bracketed(part) == part);
    let l2 = trim_start(l1, CharClass::Space);
    let t2 = trim_end(t1, CharClass::Space);
    lemma_trim_address(l1, t1, domain, CharClass::Space);
    lemma_trim_begins(t1, domain, CharClass::Space);
    let l3 = trim_start(l2, CharClass::Only('"'));
    let t3 = trim_end(t2, CharClass::Only('"'));
    lemma_trim_address(l2, t2, domain, CharClass::Only('"'));
    lemma_trim_begins(t2, domain, CharClass::Only('"'));
    let l4 = trim_start(l3, CharClass::Only('\''));
    let t4 = trim_end(t3, CharClass::Only('\''));
    lemma_trim_address(l3, t3, domain, CharClass::Only('\''));
    lemma_trim_begins(t3, domain, CharClass::Only('\''));
    let address = l4 + seq!['@'] + t4;
    assert(address_in(field) == address);
    assert forall|i: int| 0 <= i < t4.len() implies !CharClass::Only('@').holds(
        #[trigger] t4[i],
    ) by {
        let a = t3.index_of(t4[i]);
        let b = t2.index_of(t3[a]);
        let c = t1.index_of(t2[b]);
        let d = t0.index_of(t1[c]);
        assert(t0[d] == t4[i]);
    }
    searching_finds_the_first_and_the_last(l4, '@', t4, CharClass::Only('@'));
    assert(address.skip(l4.len() as int + 1) =~= t4);
    let t5 = trim_end(t4, CharClass::Space);
    let t6 = trim_end(t5, CharClass::Only('>'));
    let t7 = trim_end(t6, CharClass::Only(';'));
    lemma_trim_begins(t4, domain, CharClass::Space);
    lemma_trim_begins(t5, domain, CharClass::Only('>'));
    lemma_trim_begins(t6, domain, CharClass::Only(';'));
    assert forall|i: int| 0 <= i < n implies !CharClass::ListBreak.holds(#[trigger] domain[i]) by {
    }
    if t7.len() > n {
        assert(t7 =~= domain + seq![t7[n]] + t7.skip(n + 1)) by {
            assert(t7 =~= t7.take(n) + seq![t7[n]] + t7.skip(n + 1));
        }
        searching_finds_the_first_and_the_last(
            domain,
            t7[n],
            t7.skip(n + 1),
            CharClass::ListBreak,
        );
    } else {
        assert(t7 =~= t7.take(n));
        searching_finds_the_first_and_the_last(domain, ',', Seq::empty(), CharClass::ListBreak);
    }
    assert(t7.take(n) == domain);
    assert(!is_space(domain[0]) && !is_space(domain[n - 1]));
    assert(trim(domain, CharClass::Space) == domain);
    assert(trim_end(domain, CharClass::Only('.')) == domain);
    assert(after_at(address) == domain);
}

/// Without an `@` there is no domain.
pub proof fn no_at_no_domain(field: Seq<char>)
    requires
        lacks(field, '@'),
    ensures
        email_domain(field) is None,
{
    let t = trim(field, CharClass::Space);
    lemma_trim_contains(field, CharClass::Space);
    let b = bracketed(t);
    let start = find(t, CharClass::Only('<'));
    let after = t.skip(start as int + 1);
    lemma_find(t, CharClass::Only('<'));
    lemma_find(after, CharClass::Only('>'));
    assert forall|i: int| 0 <= i < b.len() implies t.contains(#[trigger] b[i]) by {
        if start < t.len() {
            assert(b[i] == t[i + start + 1]);
        } else {
            assert(b[i] == t[i]);
        }
    }
    let s1 = trim(b, CharClass::Space);
    let s2 = trim(s1, CharClass::Only('"'));
    let s3 = trim(s2, CharClass::Only('\''));
    lemma_trim_contains(b, CharClass::Space);
    lemma_trim_contains(s1, CharClass::Only('"'));
    lemma_trim_contains(s2, CharClass::Only('\''));
    lemma_rfind_end(s3, CharClass::Only('@'));
    let at = rfind_end(s3, CharClass::Only('@'));
    if at > 0 {
        assert(s3[at - 1] == '@');
        let i = s2.index_of(s3[at - 1]);
        let j = s1.index_of(s2[i]);
        let k = b.index_of(s1[j]);
        let l = t.index_of(b[k]);
        let m = field.index_of(t[l]);
        assert(field[m] == '@');
    }
}

/// The members of an object, by name: the text of one that is a text.
pub open spec fn text_member(members: Map<Seq<char>, JsonTree>, key: Seq<char>) -> Option<
    Seq<char>,
> {
    if members.dom().contains(key) && members[key] is Text {
        Some(members[key]->Text_0)
    } else {
        None
    }
}

/// An event has the type that it names, the first of its identifiers, and the domains of the
/// sender and the recipients under its data.
pub proof fn event_says_what_it_holds(
    members: Map<Seq<char>, JsonTree>,
    data: Map<Seq<char>, JsonTree>,
)
    requires
        members.dom().contains("data"@),
        members["data"@] == JsonTree::Object(data),
    ensures
        ({
            let e = event_of(JsonTree::Object(members));
            &&& e.event_type == text_member(members, "type"@)
            &&& text_member(members, "id"@) is Some ==> e.event_id == text_member(members, "id"@)
            &&& text_member(members, "id"@) is None && text_member(data, "email_id"@) is Some
                ==> e.event_id == text_member(data, "email_id"@)
            &&& text_member(members, "id"@) is None && text_member(data, "email_id"@) is None
                ==> e.event_id == text_member(data, "id"@)
            &&& text_member(data, "from"@) is None ==> e.from_domain is None
            &&& text_member(data, "from"@) is Some ==> e.from_domain == email_domain(
                text_member(data, "from"@)->Some_0,
            )
            &&& !data.dom().contains("to"@) ==> e.to_domains.len() == 0
            &&& data.dom().contains("to"@) ==> e.to_domains == value_domains(Some(data["to"@]))
        }),
{
}

/// An event from `local@domain` is an event from that domain.
pub proof fn event_comes_from_its_sender(
    members: Map<Seq<char>, JsonTree>,
    data: Map<Seq<char>, JsonTree>,
    name: Seq<char>,
    local: Seq<char>,
    domain: Seq<char>,
)
    requires
        members.dom().contains("data"@),
        members["data"@] == JsonTree::Object(data),
        data.dom().contains("from"@),
        data["from"@] == JsonTree::Text(
            name + seq![' ', '<'] + local + seq!['@'] + domain + seq!['>'],
        ) || data["from"@] == JsonTree::Text(local + seq!['@'] + domain),
        lacks(name, '<'),
        lacks(local, '<'),
        lacks(local, '>'),
        is_domain(domain),
        forall|i: int| 0 <= i < domain.len() ==> !('A' <= #[trigger] domain[i] <= 'Z'),
    ensures
        event_of(JsonTree::Object(members)).from_domain == Some(domain),
{
    small_domain_is_read_as_written(name, local, domain);
}

/// The domain of one address, as a list.
pub open spec fn as_list(domain: Option<Seq<char>>) -> Seq<Seq<char>> {
    match domain {
        Some(domain) => seq![domain],
        None => Seq::empty(),
    }
}

/// The recipients are those of each part of a list in turn: the domain of a text that is an
/// address, and nothing of what is no text or no address. One address counts as a list of one.
pub proof fn recipients_add_up(a: Seq<JsonTree>, b: Seq<JsonTree>, field: Seq<char>, other: JsonTree)
    requires
        !(other is Text),
    ensures
        value_domains(None).len() == 0,
        value_domains(Some(JsonTree::Array(Seq::empty()))).len() == 0,
        value_domains(Some(JsonTree::Array(a + b))) == value_domains(Some(JsonTree::Array(a)))
            + value_domains(Some(JsonTree::Array(b))),
        value_domains(Some(JsonTree::Array(seq![JsonTree::Text(field)]))) == as_list(
            email_domain(field),
        ),
        value_domains(Some(JsonTree::Array(seq![other]))).len() == 0,
        value_domains(Some(JsonTree::Text(field))) == as_list(email_domain(field)),
        !(other is Array) ==> value_domains(Some(other)).len() == 0,
{
    lemma_item_domains_joined(a, b);
    lemma_one_item(JsonTree::Text(field));
    lemma_one_item(other);
}

proof fn lemma_one_item(item: JsonTree)
    ensures
        item_domains(seq![item]) == item_domain(item),
{
    let one = seq![item];
    assert(one.drop_last() =~= Seq::<JsonTree>::empty());
    assert(item_domains(Seq::<JsonTree>::empty()) =~= Seq::<Seq<char>>::empty());
    assert(item_domains(one) =~= item_domain(item));
}

proof fn lemma_item_domains_joined(a: Seq<JsonTree>, b: Seq<JsonTree>)
    ensures
        item_domains(a + b) == item_domains(a) + item_domains(b),
    decreases b.len(),
{
    if b.len() == 0 {
        assert(a + b =~= a);
        assert(item_domains(a) + item_domains(b) =~= item_domains(a));
    } else {
        assert((a + b).drop_last() =~= a + b.drop_last());
        lemma_item_domains_joined(a, b.drop_last());
        assert(item_domains(a + b) =~= item_domains(a) + item_domains(b));
    }
}

/// Whether the text is one character over and over.
pub open spec fn is_run_of(s: Seq<char>, c: char) -> bool {
    forall|i: int| 0 <= i < s.len() ==> #[trigger] s[i] == c
}

/// Trimming around the `@` of an address touches what stands before it at the start only, and
/// what stands after it at the end only.
proof fn lemma_trim_at(head: Seq<char>, t: Seq<char>, class: CharClass)
    requires
        !class.holds('@'),
        t.len() > 0,
        !class.holds(t[0]),
    ensures
        trim(head + seq!['@'] + t, class) == trim_start(head, class) + seq!['@'] + trim_end(
            t,
            class,
        ),
        trim(t, class) == trim_end(t, class),
        trim_end(t, class).len() > 0,
        trim_end(t, class)[0] == t[0],
{
    lemma_trim_end_stops(t, class, 0);
    let rest = seq!['@'] + t;
    assert(head + seq!['@'] + t =~= head + rest);
    lemma_trim_start_joined(head, rest, class);
    assert(rest[0] == '@');
    let h = trim_start(head, class) + seq!['@'];
    assert(trim_start(head + rest, class) =~= h + t);
    lemma_trim_end_joined(h, t, class);
    assert(trim_end(t, class)[0] == t.take(trim_end(t, class).len() as int)[0]);
}

/// A run that is trimmed at the end, after what is not.
proof fn lemma_trim_run(t: Seq<char>, run: Seq<char>, class: CharClass)
    requires
        all_in(run, class),
    ensures
        trim_end(t + run, class) == trim_end(t, class),
        t.len() > 0 && !class.holds(t.last()) ==> trim_end(t, class) == t,
{
    lemma_trimmed_away(run, class);
    lemma_trim_end_joined(t, run, class);
}

/// The marks that may close an address: semicolons, closing brackets, white space, single quotes,
/// double quotes and white space, each any number of times.
pub open spec fn closing(
    semicolons: Seq<char>,
    brackets: Seq<char>,
    inner_white: Seq<char>,
    singles: Seq<char>,
    doubles: Seq<char>,
    white: Seq<char>,
) -> Seq<char> {
    semicolons + brackets + inner_white + singles + doubles + white
}

proof fn lemma_closed_address(
    local: Seq<char>,
    domain: Seq<char>,
    semicolons: Seq<char>,
    brackets: Seq<char>,
    inner_white: Seq<char>,
    singles: Seq<char>,
    doubles: Seq<char>,
    white: Seq<char>,
)
    requires
        is_domain(domain),
        is_run_of(semicolons, ';'),
        is_run_of(brackets, '>'),
        is_white(inner_white),
        is_run_of(singles, '\''),
        is_run_of(doubles, '"'),
        is_white(white),
    ensures
        ({
            let written = local + seq!['@'] + (domain + closing(
                semicolons,
                brackets,
                inner_white,
                singles,
                doubles,
                white,
            ));
            let address = trim(
                trim(trim(written, CharClass::Space), CharClass::Only('"')),
                CharClass::Only('\''),
            );
            &&& rfind_end(address, CharClass::Only('@')) > 0
            &&& after_at(address) == domain
        }),
{
    let core = domain + semicolons + brackets;
    let t4 = core + inner_white;
    let t3 = t4 + singles;
    let t2 = t3 + doubles;
    let t1 = t2 + white;
    assert(domain + closing(semicolons, brackets, inner_white, singles, doubles, white) =~= t1);
    assert(core[0] == domain[0] && t4[0] == domain[0] && t3[0] == domain[0] && t2[0] == domain[0]
        && t1[0] == domain[0]);
    assert(!is_space(core.last())) by {
        if brackets.len() > 0 {
            assert(core.last() == brackets[brackets.len() - 1]);
        } else if semicolons.len() > 0 {
            assert(core.last() == semicolons[semicolons.len() - 1]);
        } else {
            assert(core.last() == domain[domain.len() - 1]);
        }
    }
    assert(core.last() != '"' && core.last() != '\'') by {
        if brackets.len() > 0 {
            assert(core.last() == brackets[brackets.len() - 1]);
        } else if semicolons.len() > 0 {
            assert(core.last() == semicolons[semicolons.len() - 1]);
        } else {
            assert(core.last() == domain[domain.len() - 1]);
        }
    }
    // White space at the end, then double quotes, then single ones.
    lemma_trim_at(local, t1, CharClass::Space);
    lemma_trim_run(t2, white, CharClass::Space);
    let l1 = trim_start(local, CharClass::Space);
    let u1 = trim_end(t2, CharClass::Space);
    assert(all_in(singles, CharClass::Only('\'')));
    assert(all_in(doubles, CharClass::Only('"')));
    assert(all_in(inner_white, CharClass::Space));
    if doubles.len() > 0 {
        assert(t2.last() == doubles[doubles.len() - 1]);
        assert(u1 == t2);
    } else {
        assert(t2 =~= t3);
        if singles.len() > 0 {
            assert(t3.last() == singles[singles.len() - 1]);
            assert(u1 == t3);
        } else {
            assert(t3 =~= t4);
            lemma_trim_run(core, inner_white, CharClass::Space);
            assert(u1 == core);
        }
    }
    lemma_trim_at(l1, u1, CharClass::Only('"'));
    let l2 = trim_start(l1, CharClass::Only('"'));
    let u2 = trim_end(u1, CharClass::Only('"'));
    lemma_trim_run(t3, doubles, CharClass::Only('"'));
    assert(u2 == t3 || u2 == core) by {
        if u1 == t2 || u1 == t3 {
            if singles.len() > 0 {
                assert(t3.last() == singles[singles.len() - 1]);
            } else {
                assert(t3 =~= t4);
                if inner_white.len() > 0 {
                    assert(t4.last() == inner_white[inner_white.len() - 1]);
                } else {
                    assert(t4 =~= core);
                }
            }
            assert(trim_end(t3, CharClass::Only('"')) == t3);
        } else {
            assert(trim_end(core, CharClass::Only('"')) == core);
        }
    }
    lemma_trim_at(l2, u2, CharClass::Only('\''));
    let l3 = trim_start(l2, CharClass::Only('\''));
    let u3 = trim_end(u2, CharClass::Only('\''));
    lemma_trim_run(t4, singles, CharClass::Only('\''));
    assert(u3 == t4 || u3 == core) by {
        if u2 == t3 {
            if inner_white.len() > 0 {
                assert(t4.last() == inner_white[inner_white.len() - 1]);
            } else {
                assert(t4 =~= core);
            }
            assert(trim_end(t4, CharClass::Only('\'')) == t4);
        } else {
            assert(trim_end(core, CharClass::Only('\'')) == core);
        }
    }
    let address = l3 + seq!['@'] + u3;
    // What follows the last `@`.
    assert forall|i: int| 0 <= i < u3.len() implies !CharClass::Only('@').holds(
        #[trigger] u3[i],
    ) by {
        if i < domain.len() {
            assert(u3[i] == domain[i]);
        } else if i < domain.len() + semicolons.len() {
            assert(u3[i] == semicolons[i - domain.len()]);
        } else if i < core.len() {
            assert(u3[i] == brackets[i - domain.len() - semicolons.len()]);
        } else {
            assert(u3[i] == inner_white[i - core.len()]);
        }
    }
    searching_finds_the_first_and_the_last(l3, '@', u3, CharClass::Only('@'));
    assert(address.skip(l3.len() as int + 1) =~= u3);
    lemma_trim_at(l3, u3, CharClass::Space);
    lemma_trim_run(core, inner_white, CharClass::Space);
    assert(trim(u3, CharClass::Space) == core);
    let listed = domain + semicolons;
    assert(core =~= listed + brackets);
    assert(listed[0] == domain[0]);
    assert(listed.last() != '>') by {
        if semicolons.len() > 0 {
            assert(listed.last() == semicolons[semicolons.len() - 1]);
        } else {
            assert(listed.last() == domain[domain.len() - 1]);
        }
    }
    assert(all_in(brackets, CharClass::Only('>')));
    assert(all_in(semicolons, CharClass::Only(';')));
    lemma_trim_at(l3, core, CharClass::Only('>'));
    lemma_trim_run(listed, brackets, CharClass::Only('>'));
    assert(trim(core, CharClass::Only('>')) == listed);
    lemma_trim_at(l3, listed, CharClass::Only(';'));
    assert(domain.last() == domain[domain.len() - 1]);
    lemma_trim_run(domain, semicolons, CharClass::Only(';'));
    assert(trim(listed, CharClass::Only(';')) == domain);
    assert forall|i: int| 0 <= i < domain.len() implies !CharClass::ListBreak.holds(
        #[trigger] domain[i],
    ) by {}
    searching_finds_the_first_and_the_last(domain, ',', Seq::empty(), CharClass::ListBreak);
    assert(domain.take(domain.len() as int) =~= domain);
    assert(trim(domain, CharClass::Space) == domain);
    assert(trim_end(domain, CharClass::Only('.')) == domain);
}

/// The marks that close an address, and quotes around it, do not count.
pub proof fn closing_marks_do_not_count(
    local: Seq<char>,
    domain: Seq<char>,
    semicolons: Seq<char>,
    brackets: Seq<char>,
    inner_white: Seq<char>,
    singles: Seq<char>,
    doubles: Seq<char>,
    white: Seq<char>,
)
    requires
        lacks(local, '<'),
        is_domain(domain),
        is_run_of(semicolons, ';'),
        is_run_of(brackets, '>'),
        is_white(inner_white),
        is_run_of(singles, '\''),
        is_run_of(doubles, '"'),
        is_white(white),
    ensures
        email_domain(
            local + seq!['@'] + (domain + closing(
                semicolons,
                brackets,
                inner_white,
                singles,
                doubles,
                white,
            )),
        ) == Some(lower(domain)),
{
    let none = Seq::<char>::empty();
    let before_white = domain + closing(semicolons, brackets, inner_white, singles, doubles, none);
    let t = domain + closing(semicolons, brackets, inner_white, singles, doubles, white);
    assert(t =~= before_white + white);
    let field = local + seq!['@'] + t;
    assert(t[0] == domain[0]);
    lemma_trim_at(local, t, CharClass::Space);
    let l1 = trim_start(local, CharClass::Space);
    let u = trim_end(t, CharClass::Space);
    let part = l1 + seq!['@'] + u;
    lemma_trim_start(local, CharClass::Space);
    lemma_trim_end(t, CharClass::Space);
    assert forall|i: int| 0 <= i < t.len() implies #[trigger] t[i] != '<' by {
        let a = domain.len() as int;
        let b = a + semicolons.len();
        let c = b + brackets.len();
        let d = c + inner_white.len();
        let e = d + singles.len();
        let f = e + doubles.len();
        if i < a {
            assert(t[i] == domain[i]);
        } else if i < b {
            assert(t[i] == semicolons[i - a]);
        } else if i < c {
            assert(t[i] == brackets[i - b]);
        } else if i < d {
            assert(t[i] == inner_white[i - c]);
        } else if i < e {
            assert(t[i] == singles[i - d]);
        } else if i < f {
            assert(t[i] == doubles[i - e]);
        } else {
            assert(t[i] == white[i - f]);
        }
    }
    assert forall|i: int| 0 <= i < part.len() implies !CharClass::Only('<').holds(
        #[trigger] part[i],
    ) by {
        if i < l1.len() {
            assert(part[i] == local[i + (local.len() - l1.len())]);
        } else if i > l1.len() {
            assert(part[i] == t[i - l1.len() - 1]);
        }
    }
    searching_finds_the_first_and_the_last(part, '<', none, CharClass::Only('<'));
    assert(bracketed(part) == part);
    lemma_closed_address(
        local,
        domain,
        semicolons,
        brackets,
        inner_white,
        singles,
        doubles,
        white,
    );
    // Trimming a second time changes nothing.
    lemma_trim_twice(field);
}

proof fn lemma_trim_twice(s: Seq<char>)
    ensures
        trim(trim(s, CharClass::Space), CharClass::Space) == trim(s, CharClass::Space),
{
    let a = trim_start(s, CharClass::Space);
    let t = trim(s, CharClass::Space);
    lemma_trim_start(s, CharClass::Space);
    lemma_trim_end(a, CharClass::Space);
    if t.len() > 0 {
        assert(t[0] == a[0]);
    }
}

/// An address in angle brackets may be quoted, and its bracket need not be closed.
pub proof fn open_or_quoted_brackets_hold_an_address(
    name: Seq<char>,
    local: Seq<char>,
    domain: Seq<char>,
    semicolons: Seq<char>,
    inner_white: Seq<char>,
    singles: Seq<char>,
    doubles: Seq<char>,
)
    requires
        lacks(name, '<'),
        lacks(local, '>'),
        is_domain(domain),
        is_run_of(semicolons, ';'),
        is_white(inner_white),
        is_run_of(singles, '\''),
        is_run_of(doubles, '"'),
    ensures
        ({
            let none = Seq::<char>::empty();
            let mid = local + seq!['@'] + (domain + closing(
                semicolons,
                none,
                inner_white,
                singles,
                doubles,
                none,
            ));
            &&& email_domain(name + seq!['<'] + mid + seq!['>']) == Some(lower(domain))
            &&& email_domain(name + seq!['<'] + mid) == Some(lower(domain))
        }),
{
    let none = Seq::<char>::empty();
    let end = domain + closing(semicolons, none, inner_white, singles, doubles, none);
    let mid = local + seq!['@'] + end;
    lemma_closed_address(local, domain, semicolons, none, inner_white, singles, doubles, none);
    assert forall|i: int| 0 <= i < mid.len() implies !CharClass::Only('>').holds(
        #[trigger] mid[i],
    ) by {
        let z = local.len() as int + 1;
        let a = z + domain.len();
        let b = a + semicolons.len();
        let d = b + inner_white.len();
        let e = d + singles.len();
        if i < local.len() {
            assert(mid[i] == local[i]);
        } else if i == local.len() {
            assert(mid[i] == '@');
        } else if i < a {
            assert(mid[i] == domain[i - z]);
        } else if i < b {
            assert(mid[i] == semicolons[i - a]);
        } else if i < d {
            assert(mid[i] == inner_white[i - b]);
        } else if i < e {
            assert(mid[i] == singles[i - d]);
        } else {
            assert(mid[i] == doubles[i - e]);
        }
    }
    let n1 = trim_start(name, CharClass::Space);
    lemma_trim_start(name, CharClass::Space);
    assert forall|i: int| 0 <= i < n1.len() implies !CharClass::Only('<').holds(
        #[trigger] n1[i],
    ) by {
        assert(n1[i] == name[i + (name.len() - n1.len())]);
    }
    // Closed.
    let closed = name + seq!['<'] + mid + seq!['>'];
    let rest = mid + seq!['>'];
    assert(closed =~= name + seq!['<'] + rest);
    assert(rest.last() == '>');
    lemma_trim_before(name, '<', rest, CharClass::Space);
    let inner = n1 + seq!['<'] + rest;
    searching_finds_the_first_and_the_last(n1, '<', rest, CharClass::Only('<'));
    assert(inner.skip(n1.len() as int + 1) =~= rest);
    searching_finds_the_first_and_the_last(mid, '>', none, CharClass::Only('>'));
    assert(rest =~= mid + seq!['>'] + none);
    assert(rest.take(mid.len() as int) =~= mid);
    assert(bracketed(inner) == mid);
    // Open.
    let open = name + seq!['<'] + mid;
    let from_bracket = seq!['<'] + mid;
    assert(open =~= name + from_bracket);
    lemma_trim_start_joined(name, from_bracket, CharClass::Space);
    assert(from_bracket[0] == '<');
    let h = n1 + seq!['<'];
    assert(trim_start(open, CharClass::Space) =~= h + mid);
    lemma_trim_end_stops(mid, CharClass::Space, local.len() as int);
    lemma_trim_end_joined(h, mid, CharClass::Space);
    let u = trim_end(mid, CharClass::Space);
    assert(trim(open, CharClass::Space) =~= n1 + seq!['<'] + u);
    searching_finds_the_first_and_the_last(n1, '<', u, CharClass::Only('<'));
    assert((n1 + seq!['<'] + u).skip(n1.len() as int + 1) =~= u);
    assert forall|i: int| 0 <= i < u.len() implies !CharClass::Only('>').holds(#[trigger] u[i]) by {
        assert(u[i] == mid[i]);
    }
    searching_finds_the_first_and_the_last(u, '>', none, CharClass::Only('>'));
    assert(u.take(u.len() as int) =~= u);
    assert(bracketed(n1 + seq!['<'] + u) == u);
    assert(end[0] == domain[0]);
    lemma_trim_at(local, end, CharClass::Space);
    lemma_trim_at_end(local, end);
}

/// Trimming white space at the end first changes nothing of trimming it at both ends.
proof fn lemma_trim_at_end(local: Seq<char>, end: Seq<char>)
    requires
        end.len() > 0,
        !is_space(end[0]),
    ensures
        ({
            let mid = local + seq!['@'] + end;
            trim(trim_end(mid, CharClass::Space), CharClass::Space) == trim(mid, CharClass::Space)
        }),
{
    let mid = local + seq!['@'] + end;
    lemma_trim_at(local, end, CharClass::Space);
    let cut = trim_end(end, CharClass::Space);
    let h = local + seq!['@'];
    assert(mid =~= h + end);
    lemma_trim_end_joined(h, end, CharClass::Space);
    assert(trim_end(mid, CharClass::Space) =~= local + seq!['@'] + cut);
    lemma_trim_at(local, cut, CharClass::Space);
    lemma_trim_end(end, CharClass::Space);
    assert(trim_end(cut, CharClass::Space) == cut);
}

/// An event without data, or whose data is no object, has no sender and no recipients, and only
/// the identifier of its own; what is no object at all says nothing.
pub proof fn event_without_data_says_little(members: Map<Seq<char>, JsonTree>, tree: JsonTree)
    ensures
        !members.dom().contains("data"@) || !(members["data"@] is Object) ==> {
            let e = event_of(JsonTree::Object(members));
            &&& e.event_type == text_member(members, "type"@)
            &&& e.event_id == text_member(members, "id"@)
            &&& e.from_domain is None
            &&& e.to_domains.len() == 0
        },
        !(tree is Object) ==> {
            let e = event_of(tree);
            &&& e.event_type is None
            &&& e.event_id is None
            &&& e.from_domain is None
            &&& e.to_domains.len() == 0
        },
{
}

} // verus!
