//! Header maps: what one holds, and the questions the rest of the library asks of it.
//!
//! The map itself is rama's `HeaderMap`. Its names are always in lower case, and it hands its
//! entries out in an order of its own that stays the same until the map is changed.
use crate::text::{lower, text_of};
use rama::http::{HeaderMap, HeaderName, HeaderValue};
use vstd::prelude::*;
use vstd::utf8::encode_utf8;

verus! {

/// rama's multimap of headers.
#[verifier::external_type_specification]
#[verifier::external_body]
#[verifier::reject_recursive_types(T)]
pub struct ExHeaderMap<T>(rama::http::HeaderMap<T>);

/// rama's header value: a run of bytes.
#[verifier::external_type_specification]
#[verifier::external_body]
pub struct ExHeaderValue(rama::http::HeaderValue);

/// What a header map holds: name and value of each entry, in the order in which the map is
/// walked.
pub uninterp spec fn header_entries(headers: HeaderMap) -> Seq<(Seq<char>, Seq<u8>)>;

/// The values that entries hold under a name, in order.
pub open spec fn values_named(entries: Seq<(Seq<char>, Seq<u8>)>, name: Seq<char>) -> Seq<Seq<u8>>
    decreases entries.len(),
{
    if entries.len() == 0 {
        Seq::empty()
    } else {
        let front = values_named(entries.drop_last(), name);
        if entries.last().0 == name {
            front.push(entries.last().1)
        } else {
            front
        }
    }
}

/// The first value under a name.
pub open spec fn first_named(entries: Seq<(Seq<char>, Seq<u8>)>, name: Seq<char>) -> Option<
    Seq<u8>,
> {
    let values = values_named(entries, name);
    if values.len() > 0 {
        Some(values[0])
    } else {
        None
    }
}

/// The names and values of a list of entries.
pub open spec fn entry_views(list: Seq<(String, Vec<u8>)>) -> Seq<(Seq<char>, Seq<u8>)> {
    list.map_values(|entry: (String, Vec<u8>)| (entry.0@, entry.1@))
}

/// A byte that a header value shows as text: visible ASCII, a space or a tab.
pub open spec fn is_text_byte(b: u8) -> bool {
    32 <= b < 127 || b == 9
}

/// A byte that a header value may hold.
pub open spec fn is_value_byte(b: u8) -> bool {
    (b >= 32 && b != 127) || b == 9
}

/// Whether bytes are text throughout.
pub open spec fn is_text(bytes: Seq<u8>) -> bool {
    forall|i: int| 0 <= i < bytes.len() ==> is_text_byte(#[trigger] bytes[i])
}

/// Whether bytes make a header value.
pub open spec fn is_value(bytes: Seq<u8>) -> bool {
    forall|i: int| 0 <= i < bytes.len() ==> is_value_byte(#[trigger] bytes[i])
}

/// The characters that ASCII bytes stand for.
pub open spec fn ascii_text(bytes: Seq<u8>) -> Seq<char> {
    bytes.map_values(|b: u8| b as char)
}

/// The text of a header value, where it is text.
pub open spec fn value_text(bytes: Seq<u8>) -> Option<Seq<char>> {
    if is_text(bytes) {
        Some(ascii_text(bytes))
    } else {
        None
    }
}

/// The text of the first value under a name, where there is one and it is text.
pub open spec fn text_named(entries: Seq<(Seq<char>, Seq<u8>)>, name: Seq<char>) -> Option<
    Seq<char>,
> {
    match first_named(entries, name) {
        Some(bytes) => value_text(bytes),
        None => None,
    }
}

/// A character of a header name: what HTTP calls a token character.
pub open spec fn is_name_char(c: char) -> bool {
    ||| 'a' <= c <= 'z'
    ||| 'A' <= c <= 'Z'
    ||| '0' <= c <= '9'
    ||| c == '!'
    ||| '#' <= c <= '\''
    ||| c == '*'
    ||| c == '+'
    ||| c == '-'
    ||| c == '.'
    ||| c == '^'
    ||| c == '_'
    ||| c == '`'
    ||| c == '|'
    ||| c == '~'
}

/// Whether a text names a header.
pub open spec fn is_header_name(name: Seq<char>) -> bool {
    0 < name.len() <= 65535 && forall|i: int|
        0 <= i < name.len() ==> is_name_char(#[trigger] name[i])
}

/// `HeaderMap::iter` hands out every entry of the map, each value under its name, in the map's
/// own order. The names are in lower case.
#[verifier::external_body]
pub(crate) fn list_headers(headers: &HeaderMap) -> (list: Vec<(String, Vec<u8>)>)
    ensures
        entry_views(list@) == header_entries(*headers),
        forall|i: int| 0 <= i < list.len() ==> lower((#[trigger] list[i]).0@) == list[i].0@,
{
    headers.iter().map(|(name, value)| (name.as_str().to_owned(), value.as_bytes().to_vec())).collect()
}

/// `HeaderMap::get` gives the first value under a name, written in any letter case, or nothing
/// where the map does not hold the name.
#[verifier::external_body]
pub(crate) fn get_header(headers: &HeaderMap, name: &str) -> (value: Option<Vec<u8>>)
    ensures
        match value {
            Some(value) => first_named(header_entries(*headers), lower(name@)) == Some(value@),
            None => first_named(header_entries(*headers), lower(name@)) is None,
        },
{
    headers.get(name).map(|value| value.as_bytes().to_vec())
}

/// `HeaderMap::get_all` gives all the values under a name, written in any letter case, in the
/// order in which they stand in the map.
#[verifier::external_body]
pub(crate) fn get_all_headers(headers: &HeaderMap, name: &str) -> (values: Vec<Vec<u8>>)
    ensures
        values@.map_values(|value: Vec<u8>| value@) == values_named(
            header_entries(*headers),
            lower(name@),
        ),
{
    headers.get_all(name).iter().map(|value| value.as_bytes().to_vec()).collect()
}

/// `HeaderMap::remove` takes all the values under a name, written in any letter case, out of the
/// map and leaves those under other names as they were; the order in which the names are walked
/// may change.
#[verifier::external_body]
pub(crate) fn remove_header(headers: &mut HeaderMap, name: &str)
    ensures
        values_named(header_entries(*final(headers)), lower(name@)) == Seq::<Seq<u8>>::empty(),
        header_entries(*final(headers)).len() == header_entries(*old(headers)).len()
            - values_named(header_entries(*old(headers)), lower(name@)).len(),
        forall|other: Seq<char>|
            other != lower(name@) ==> #[trigger] values_named(
                header_entries(*final(headers)),
                other,
            ) == values_named(header_entries(*old(headers)), other),
{
    headers.remove(name);
}

/// `HeaderMap::try_insert` puts one value under a name in place of all that were there and leaves
/// the other names as they were; where the map is full it refuses and nothing changes. A map of
/// fewer than 6554 entries is never full.
#[verifier::external_body]
pub(crate) fn insert_header(headers: &mut HeaderMap, name: &str, value: &[u8]) -> (inserted: bool)
    requires
        is_header_name(name@),
        is_value(value@),
    ensures
        header_entries(*old(headers)).len() < 6554 ==> inserted,
        inserted ==> values_named(header_entries(*final(headers)), lower(name@)) == seq![value@],
        !inserted ==> values_named(header_entries(*final(headers)), lower(name@)) == values_named(
            header_entries(*old(headers)),
            lower(name@),
        ),
        forall|other: Seq<char>|
            other != lower(name@) ==> #[trigger] values_named(
                header_entries(*final(headers)),
                other,
            ) == values_named(header_entries(*old(headers)), other),
{
    let name = HeaderName::from_bytes(name.as_bytes()).unwrap();
    headers.try_insert(name, HeaderValue::from_bytes(value).unwrap()).is_ok()
}

/// `HeaderMap::values_mut` walks the values in the order of the entries and lets each be
/// replaced where it stands.
#[verifier::external_body]
pub(crate) fn set_header_at(headers: &mut HeaderMap, index: usize, value: &[u8])
    requires
        index < header_entries(*old(headers)).len(),
        is_value(value@),
    ensures
        header_entries(*final(headers)) == header_entries(*old(headers)).update(
            index as int,
            (header_entries(*old(headers))[index as int].0, value@),
        ),
{
    let slot = headers.values_mut().nth(index).unwrap();
    *slot = HeaderValue::from_bytes(value).unwrap();
}

/// `HeaderName::from_bytes` accepts a text that is not empty, is no longer than 65535 bytes and
/// is made of token characters, and refuses any other.
#[verifier::external_body]
pub(crate) fn names_header(name: &str) -> (accepted: bool)
    ensures
        accepted == is_header_name(name@),
{
    HeaderName::from_bytes(name.as_bytes()).is_ok()
}

/// The text of a header value, where it is text throughout.
pub fn text_of_value(bytes: &[u8]) -> (text: Option<String>)
    ensures
        crate::text::opt_text(text) == value_text(bytes@),
{
    let mut chars: Vec<char> = Vec::new();
    let mut i: usize = 0;
    while i < bytes.len()
        invariant
            i <= bytes.len(),
            is_text(bytes@.take(i as int)),
            chars@ == ascii_text(bytes@.take(i as int)),
        decreases bytes.len() - i,
    {
        let b = bytes[i];
        if !((32 <= b && b < 127) || b == 9) {
            assert(!is_text_byte(bytes@[i as int]));
            return None;
        }
        assert(bytes@.take(i + 1) == bytes@.take(i as int).push(b));
        assert forall|j: int| 0 <= j < i + 1 implies is_text_byte(
            #[trigger] bytes@.take(i + 1)[j],
        ) by {
            if j < i {
                assert(bytes@.take(i as int)[j] == bytes@[j]);
            }
        }
        chars.push(b as char);
        i += 1;
    }
    assert(bytes@.take(i as int) == bytes@);
    Some(text_of(chars.as_slice()))
}

/// The text of the first value under a name, where there is one and it is text.
pub fn header_text(headers: &HeaderMap, name: &str) -> (text: Option<String>)
    ensures
        crate::text::opt_text(text) == text_named(header_entries(*headers), lower(name@)),
{
    match get_header(headers, name) {
        Some(value) => text_of_value(value.as_slice()),
        None => None,
    }
}

/// Whether bytes make a header value.
pub fn valid_value(bytes: &[u8]) -> (valid: bool)
    ensures
        valid == is_value(bytes@),
{
    let mut i: usize = 0;
    while i < bytes.len()
        invariant
            i <= bytes.len(),
            forall|j: int| 0 <= j < i ==> is_value_byte(#[trigger] bytes@[j]),
        decreases bytes.len() - i,
    {
        let b = bytes[i];
        if !((b >= 32 && b != 127) || b == 9) {
            assert(!is_value_byte(bytes@[i as int]));
            return false;
        }
        i += 1;
    }
    true
}

/// The text of a value, written out in UTF-8, is the value again.
pub proof fn value_text_keeps_bytes(bytes: Seq<u8>)
    requires
        is_text(bytes),
    ensures
        encode_utf8(ascii_text(bytes)) == bytes,
    decreases bytes.len(),
{
    if bytes.len() > 0 {
        let rest = bytes.skip(1);
        assert forall|i: int| 0 <= i < rest.len() implies is_text_byte(#[trigger] rest[i]) by {
            assert(rest[i] == bytes[i + 1]);
        }
        value_text_keeps_bytes(rest);
        assert(ascii_text(bytes).skip(1) =~= ascii_text(rest));
        assert(is_text_byte(bytes[0]));
        assert(ascii_text(bytes)[0] == bytes[0] as char);
        let first: u8 = bytes[0];
        assert(first < 128 ==> vstd::utf8::leading_byte_width_1(first as u32) == first)
            by (bit_vector);
        assert((first as char) as u32 == first as u32);
        assert(vstd::utf8::encode_scalar(first as u32) =~= seq![first]);
        assert(ascii_text(bytes).drop_first() =~= ascii_text(bytes).skip(1));
        assert(encode_utf8(ascii_text(bytes)) =~= seq![bytes[0]] + encode_utf8(ascii_text(rest)));
        assert(seq![bytes[0]] + rest =~= bytes);
    } else {
        assert(encode_utf8(ascii_text(bytes)) =~= bytes);
    }
}

/// The values under a name are those of the entries with that name, in their order, and no others.
pub proof fn values_are_those_under_the_name(
    entries: Seq<(Seq<char>, Seq<u8>)>,
    name: Seq<char>,
    value: Seq<u8>,
    wanted: Seq<char>,
)
    ensures
        values_named(Seq::empty(), wanted) == Seq::<Seq<u8>>::empty(),
        name == wanted ==> values_named(entries.push((name, value)), wanted) == values_named(
            entries,
            wanted,
        ).push(value),
        name != wanted ==> values_named(entries.push((name, value)), wanted) == values_named(
            entries,
            wanted,
        ),
{
    assert(entries.push((name, value)).drop_last() =~= entries);
}

/// The text under a name is that of the first value, byte by byte, where all of its bytes can be
/// shown: visible ASCII, spaces and tabs.
pub proof fn text_is_that_of_the_first_value(
    entries: Seq<(Seq<char>, Seq<u8>)>,
    name: Seq<char>,
    i: int,
)
    ensures
        ({
            let values = values_named(entries, name);
            let text = text_named(entries, name);
            &&& values.len() == 0 ==> text is None
            &&& values.len() > 0 ==> (text is Some <==> forall|k: int|
                0 <= k < values[0].len() ==> 0x20 <= #[trigger] values[0][k] <= 0x7e
                    || values[0][k] == 0x09)
            &&& text is Some ==> text->0.len() == values[0].len()
            &&& text is Some && 0 <= i < values[0].len() ==> text->0[i] as u32 == values[0][i] as u32
        }),
{
    let values = values_named(entries, name);
    if values.len() > 0 {
        if is_text(values[0]) {
            assert forall|k: int| 0 <= k < values[0].len() implies 0x20 <= #[trigger] values[0][k]
                <= 0x7e || values[0][k] == 0x09 by {
                assert(is_text_byte(values[0][k]));
            }
        }
    }
}

/// A header value may hold any byte but the control characters, and of these the tab. What can be
/// shown of it is what is ASCII.
pub proof fn values_hold_no_control_characters(bytes: Seq<u8>)
    ensures
        is_value(bytes) <==> forall|i: int|
            0 <= i < bytes.len() ==> (0x20 <= #[trigger] bytes[i] && bytes[i] != 0x7f) || bytes[i]
                == 0x09,
        is_text(bytes) <==> is_value(bytes) && forall|i: int|
            0 <= i < bytes.len() ==> #[trigger] bytes[i] < 0x80,
        ascii_text(bytes).len() == bytes.len(),
        forall|i: int|
            0 <= i < bytes.len() ==> #[trigger] ascii_text(bytes)[i] as u32 == bytes[i] as u32,
{
    if is_value(bytes) {
        assert forall|i: int| 0 <= i < bytes.len() implies (0x20 <= #[trigger] bytes[i] && bytes[i]
            != 0x7f) || bytes[i] == 0x09 by {
            assert(is_value_byte(bytes[i]));
        }
    }
    if is_text(bytes) {
        assert forall|i: int| 0 <= i < bytes.len() implies is_value_byte(#[trigger] bytes[i])
            && bytes[i] < 0x80 by {
            assert(is_text_byte(bytes[i]));
        }
    }
    if is_value(bytes) && forall|i: int| 0 <= i < bytes.len() ==> #[trigger] bytes[i] < 0x80 {
        assert forall|i: int| 0 <= i < bytes.len() implies is_text_byte(#[trigger] bytes[i]) by {
            assert(is_value_byte(bytes[i]));
        }
    }
}

/// A header name is one to 65535 letters, digits and marks of ASCII; white space, separators and
/// control characters make none.
pub proof fn names_are_made_of_token_characters(name: Seq<char>, i: int)
    requires
        0 <= i < name.len(),
    ensures
        is_header_name(name) ==> name.len() <= 65535 && 0x21 <= name[i] as u32 <= 0x7e,
        name[i] == ':' || name[i] == ' ' || name[i] == ',' || name[i] == ';' || name[i] == '='
            || name[i] == '"' || name[i] == '/' || name[i] == '(' || name[i] == ')'
            ==> !is_header_name(name),
        name.len() <= 65535 && (forall|k: int|
            0 <= k < name.len() ==> 'a' <= #[trigger] name[k] <= 'z' || 'A' <= name[k] <= 'Z' || '0'
                <= name[k] <= '9' || name[k] == '-' || name[k] == '_') ==> is_header_name(name),
{
    if is_header_name(name) {
        assert(is_name_char(name[i]));
    }
    if name.len() <= 65535 && forall|k: int|
        0 <= k < name.len() ==> 'a' <= #[trigger] name[k] <= 'z' || 'A' <= name[k] <= 'Z' || '0'
            <= name[k] <= '9' || name[k] == '-' || name[k] == '_' {
        assert forall|k: int| 0 <= k < name.len() implies is_name_char(#[trigger] name[k]) by {}
    }
}

/// Entries are taken for the names and values that they hold.
pub proof fn entries_are_what_they_hold(list: Seq<(String, Vec<u8>)>, i: int)
    requires
        0 <= i < list.len(),
    ensures
        entry_views(list).len() == list.len(),
        entry_views(list)[i] == (list[i].0@, list[i].1@),
{
}

} // verus!
