//! The headers of a request, as the `http` crate holds them.

use axum::http::HeaderMap;
use vstd::prelude::*;

verus! {

/// The headers of the `http` crate.
#[verifier::external_type_specification]
#[verifier::external_body]
#[verifier::reject_recursive_types(T)]
pub struct ExHeaderMap<T>(axum::http::HeaderMap<T>);

/// The value of one header of the `http` crate.
#[verifier::external_type_specification]
#[verifier::external_body]
pub struct ExHeaderValue(axum::http::HeaderValue);

/// The headers in the order in which they are walked: the name and the bytes of each.
pub uninterp spec fn entries_of(
    headers: axum::http::HeaderMap<axum::http::HeaderValue>,
) -> Seq<(Seq<char>, Seq<u8>)>;

/// What a list of names and bytes says.
pub open spec fn entry_views(list: Seq<(String, Vec<u8>)>) -> Seq<(Seq<char>, Seq<u8>)> {
    Seq::new(list.len(), |i: int| (list[i].0@, list[i].1@))
}

/// The bytes of the first header of that name.
pub open spec fn first_value(entries: Seq<(Seq<char>, Seq<u8>)>, name: Seq<char>) -> Option<
    Seq<u8>,
>
    decreases entries.len(),
{
    if entries.len() == 0 {
        None
    } else if entries[0].0 == name {
        Some(entries[0].1)
    } else {
        first_value(entries.drop_first(), name)
    }
}

/// Whether the text is a header name of small letters, digits and dashes.
pub open spec fn is_plain_name(name: Seq<char>) -> bool {
    &&& 1 <= name.len() <= 64
    &&& forall|i: int|
        0 <= i < name.len() ==> {
            let c = #[trigger] name[i];
            'a' <= c <= 'z' || '0' <= c <= '9' || c == '-'
        }
}

/// Walks the headers with `http::HeaderMap::iter` and hands out the name and the bytes of each.
/// What comes out is what the headers hold.
#[verifier::external_body]
pub(crate) fn entry_list(headers: &HeaderMap) -> (r: Vec<(String, Vec<u8>)>)
    ensures
        entry_views(r@) == entries_of(*headers),
{
    headers.iter().map(|(name, value)| (name.as_str().to_string(), value.as_bytes().to_vec())).collect()
}

/// Calls `http::HeaderMap::get`: the bytes of the first header of that name; nothing, where there
/// is none.
#[verifier::external_body]
pub(crate) fn header_bytes(headers: &HeaderMap, name: &str) -> (r: Option<Vec<u8>>)
    requires
        is_plain_name(name@),
    ensures
        match r {
            Some(bytes) => first_value(entries_of(*headers), name@) == Some(bytes@),
            None => first_value(entries_of(*headers), name@) is None,
        },
{
    headers.get(name).map(|value| value.as_bytes().to_vec())
}

/// Whether the byte is a tab or a visible character of ASCII.
pub open spec fn is_visible(b: u8) -> bool {
    32 <= b < 127 || b == 9
}

/// The text of a header, where all of it is visible.
pub open spec fn visible_text(bytes: Seq<u8>) -> Option<Seq<char>> {
    if forall|i: int| 0 <= i < bytes.len() ==> is_visible(#[trigger] bytes[i]) {
        Some(Seq::new(bytes.len(), |i: int| bytes[i] as char))
    } else {
        None
    }
}

/// Reads the bytes of a header as text.
pub fn header_text(bytes: &Vec<u8>) -> (r: Option<String>)
    ensures
        match r {
            Some(text) => visible_text(bytes@) == Some(text@),
            None => visible_text(bytes@) is None,
        },
{
    let mut text = String::new();
    let mut i: usize = 0;
    while i < bytes.len()
        invariant
            i <= bytes@.len(),
            text@.len() == i,
            forall|j: int| 0 <= j < i ==> is_visible(#[trigger] bytes@[j]),
            forall|j: int| 0 <= j < i ==> #[trigger] text@[j] == bytes@[j] as char,
        decreases bytes@.len() - i,
    {
        let b: u8 = bytes[i];
        if !((32 <= b && b < 127) || b == 9) {
            assert(!is_visible(bytes@[i as int]));
            return None;
        }
        text.push(b as char);
        i += 1;
    }
    assert(text@ =~= Seq::new(bytes@.len(), |i: int| bytes@[i] as char));
    Some(text)
}

} // verus!
