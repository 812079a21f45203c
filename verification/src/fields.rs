//! Header fields as the log shows them: values, cookies, lengths, and what proxies in front
//! forwarded.
use crate::config::HeaderLogPolicy;
use crate::digest::{encode_hex, hex_text};
use crate::headers::{
    ascii_text, entry_views, first_named, get_all_headers, get_header, header_entries, header_text,
    is_text, list_headers, remove_header, text_named, text_of_value, value_text, values_named,
};
use crate::json::{
    field_map, json_text, leaf_map, write_json, DocumentView, FieldView, JsonDocument, JsonField,
    JsonLeaf, LeafView,
};
use crate::number::{parse_decimal, parse_i64};
use crate::text::{
    begins_with, chars_of, cut_once, cutting_goes_from_mark_to_mark, first_at, is_piece, joined,
    lemma_first_at_bounds, lower, opt_text, pieces, pieces_are_stretches, same_text, split,
    split_once, stretches_are_pieces, text_of, texts, to_lower, trim, trim_char, trimmed, trimmed_of,
};
use rama::http::HeaderMap;
use vstd::prelude::*;

verus! {

/// A header value as the log shows it: its text, or its bytes in hexadecimal where it is not
/// text.
pub open spec fn shown_value(bytes: Seq<u8>) -> Seq<char> {
    if is_text(bytes) {
        ascii_text(bytes)
    } else {
        "0x"@ + hex_text(bytes)
    }
}

/// A header value as the log shows it.
pub fn stringify_header_value(value: &[u8]) -> (text: String)
    ensures
        text@ == shown_value(value@),
{
    match text_of_value(value) {
        Some(text) => text,
        None => joined("0x", encode_hex(value).as_str()),
    }
}

/// The first value under a name as the log shows it.
pub open spec fn shown_named(entries: Seq<(Seq<char>, Seq<u8>)>, name: Seq<char>) -> Option<
    Seq<char>,
> {
    match first_named(entries, name) {
        Some(bytes) => Some(shown_value(bytes)),
        None => None,
    }
}

/// The first value under a name as the log shows it.
pub fn header_value(headers: &HeaderMap, name: &str) -> (text: Option<String>)
    ensures
        opt_text(text) == shown_named(header_entries(*headers), lower(name@)),
{
    match get_header(headers, name) {
        Some(value) => Some(stringify_header_value(value.as_slice())),
        None => None,
    }
}

// ---------------------------------------------------------------------------
// Hop-by-hop headers
// ---------------------------------------------------------------------------

/// The headers that are about one connection only, whatever they hold.
pub open spec fn is_connection_header(name: Seq<char>) -> bool {
    ||| name == "connection"@
    ||| name == "proxy-authenticate"@
    ||| name == "proxy-authorization"@
    ||| name == "te"@
    ||| name == "trailer"@
    ||| name == "transfer-encoding"@
    ||| name == "upgrade"@
    ||| name == "keep-alive"@
}

/// The names that a `connection` header lists, in lower case.
pub open spec fn connection_tokens(entries: Seq<(Seq<char>, Seq<u8>)>) -> Seq<Seq<char>> {
    match text_named(entries, "connection"@) {
        Some(value) => split(value, ',').map_values(|piece: Seq<char>| lower(trim(piece))),
        None => Seq::empty(),
    }
}

/// Whether a header is about one connection only.
pub open spec fn is_hop_by_hop(entries: Seq<(Seq<char>, Seq<u8>)>, name: Seq<char>) -> bool {
    is_connection_header(name) || (name.len() > 0 && connection_tokens(entries).contains(name))
}

/// Whether headers are others without those that are about one connection only.
pub open spec fn is_stripped(
    before: Seq<(Seq<char>, Seq<u8>)>,
    after: Seq<(Seq<char>, Seq<u8>)>,
) -> bool {
    forall|name: Seq<char>| #[trigger]
        values_named(after, name) == if is_hop_by_hop(before, name) {
            Seq::<Seq<u8>>::empty()
        } else {
            values_named(before, name)
        }
}

/// The names that a `connection` header lists, without empty ones.
fn listed_tokens(headers: &HeaderMap) -> (tokens: Vec<String>)
    ensures
        forall|name: Seq<char>|
            texts(tokens@).contains(name) <==> name.len() > 0 && connection_tokens(
                header_entries(*headers),
            ).contains(name),
{
    let ghost wanted = connection_tokens(header_entries(*headers));
    let mut tokens: Vec<String> = Vec::new();
    proof {
        reveal_strlit("connection");
        assert(lower("connection"@) =~= "connection"@);
        assert(texts(tokens@) =~= Seq::<Seq<char>>::empty());
    }
    if let Some(value) = header_text(headers, "connection") {
        let chars = chars_of(value.as_str());
        let parts = pieces(chars.as_slice(), ',');
        let ghost shown = parts@.map_values(|part: &[char]| part@);
        let mut i: usize = 0;
        while i < parts.len()
            invariant
                i <= parts.len(),
                wanted == connection_tokens(header_entries(*headers)),
                shown == parts@.map_values(|part: &[char]| part@),
                wanted == shown.map_values(|piece: Seq<char>| lower(trim(piece))),
                forall|name: Seq<char>|
                    texts(tokens@).contains(name) <==> name.len() > 0 && wanted.take(
                        i as int,
                    ).contains(name),
            decreases parts.len() - i,
        {
            let token = to_lower(trimmed(parts[i]));
            let ghost before = texts(tokens@);
            assert(wanted[i as int] == token@) by {
                assert(shown[i as int] == parts[i as int]@);
            }
            assert(wanted.take(i + 1) =~= wanted.take(i as int).push(token@));
            if token.len() > 0 {
                tokens.push(text_of(token.as_slice()));
                assert(texts(tokens@) =~= before.push(token@));
            }
            assert forall|name: Seq<char>|
                texts(tokens@).contains(name) <==> name.len() > 0 && wanted.take(
                    i + 1,
                ).contains(name) by {
                lemma_contains_push(wanted.take(i as int), token@, name);
                lemma_contains_push(before, token@, name);
            }
            i += 1;
        }
        assert(wanted.take(i as int) =~= wanted);
    } else {
        assert(wanted =~= Seq::<Seq<char>>::empty());
    }
    tokens
}

/// A sequence with one more element holds that element and what it held.
proof fn lemma_contains_push<T>(s: Seq<T>, x: T, y: T)
    ensures
        s.push(x).contains(y) <==> s.contains(y) || y == x,
{
    if s.contains(y) {
        let i = choose|i: int| 0 <= i < s.len() && s[i] == y;
        assert(s.push(x)[i] == y);
    }
    if y == x {
        assert(s.push(x)[s.len() as int] == y);
    }
    if s.push(x).contains(y) {
        let i = choose|i: int| 0 <= i < s.push(x).len() && s.push(x)[i] == y;
        if i < s.len() {
            assert(s[i] == y);
        }
    }
}

/// Takes out the headers that are about one connection only, those that a `connection` header
/// lists among them.
pub fn strip_hop_by_hop_headers(headers: &mut HeaderMap)
    ensures
        is_stripped(header_entries(*old(headers)), header_entries(*final(headers))),
{
    let ghost before = header_entries(*headers);
    let tokens = listed_tokens(headers);
    let ghost names = texts(tokens@);
    let mut i: usize = 0;
    while i < tokens.len()
        invariant
            i <= tokens.len(),
            names == texts(tokens@),
            forall|name: Seq<char>|
                names.contains(name) <==> name.len() > 0 && connection_tokens(before).contains(
                    name,
                ),
            forall|name: Seq<char>| #[trigger]
                values_named(header_entries(*headers), name) == if names.take(i as int).contains(
                    name,
                ) {
                    Seq::<Seq<u8>>::empty()
                } else {
                    values_named(before, name)
                },
        decreases tokens.len() - i,
    {
        let ghost current = header_entries(*headers);
        proof {
            assert(names[i as int] == tokens[i as int]@);
            assert(names.contains(names[i as int]));
            lemma_tokens_are_lower(before, tokens[i as int]@);
            assert(names.take(i + 1) =~= names.take(i as int).push(tokens[i as int]@));
        }
        remove_header(headers, tokens[i].as_str());
        proof {
            assert forall|name: Seq<char>| #[trigger]
                values_named(header_entries(*headers), name) == if names.take(i + 1).contains(
                    name,
                ) {
                    Seq::<Seq<u8>>::empty()
                } else {
                    values_named(before, name)
                } by {
                lemma_contains_push(names.take(i as int), tokens[i as int]@, name);
                if name != tokens[i as int]@ {
                    assert(values_named(header_entries(*headers), name) == values_named(
                        current,
                        name,
                    ));
                }
            }
        }
        i += 1;
    }
    assert(names.take(i as int) =~= names);
    proof {
        reveal_strlit("connection");
        reveal_strlit("proxy-authenticate");
        reveal_strlit("proxy-authorization");
        reveal_strlit("te");
        reveal_strlit("trailer");
        reveal_strlit("transfer-encoding");
        reveal_strlit("upgrade");
        reveal_strlit("keep-alive");
        assert(lower("connection"@) =~= "connection"@);
        assert(lower("proxy-authenticate"@) =~= "proxy-authenticate"@);
        assert(lower("proxy-authorization"@) =~= "proxy-authorization"@);
        assert(lower("te"@) =~= "te"@);
        assert(lower("trailer"@) =~= "trailer"@);
        assert(lower("transfer-encoding"@) =~= "transfer-encoding"@);
        assert(lower("upgrade"@) =~= "upgrade"@);
        assert(lower("keep-alive"@) =~= "keep-alive"@);
    }
    remove_header(headers, "connection");
    remove_header(headers, "proxy-authenticate");
    remove_header(headers, "proxy-authorization");
    remove_header(headers, "te");
    remove_header(headers, "trailer");
    remove_header(headers, "transfer-encoding");
    remove_header(headers, "upgrade");
    remove_header(headers, "keep-alive");
}

/// The names that a `connection` header lists are in lower case.
proof fn lemma_tokens_are_lower(entries: Seq<(Seq<char>, Seq<u8>)>, token: Seq<char>)
    requires
        connection_tokens(entries).contains(token),
    ensures
        lower(token) == token,
{
    let tokens = connection_tokens(entries);
    let i = choose|i: int| 0 <= i < tokens.len() && tokens[i] == token;
    let value = text_named(entries, "connection"@)->0;
    assert(tokens[i] == lower(trim(split(value, ',')[i])));
    crate::text::lower_is_idempotent(trim(split(value, ',')[i]));
}

/// Stripping headers that were stripped already changes nothing.
pub proof fn stripping_is_idempotent(
    first: Seq<(Seq<char>, Seq<u8>)>,
    second: Seq<(Seq<char>, Seq<u8>)>,
    third: Seq<(Seq<char>, Seq<u8>)>,
    name: Seq<char>,
)
    requires
        is_stripped(first, second),
        is_stripped(second, third),
    ensures
        values_named(third, name) == values_named(second, name),
{
    assert(values_named(second, "connection"@) == Seq::<Seq<u8>>::empty());
    assert(connection_tokens(second) =~= Seq::<Seq<char>>::empty());
    assert(values_named(second, name) == if is_hop_by_hop(first, name) {
        Seq::<Seq<u8>>::empty()
    } else {
        values_named(first, name)
    });
}

/// Stripping keeps every header that is not about one connection only.
pub proof fn stripping_keeps_end_to_end_headers(
    before: Seq<(Seq<char>, Seq<u8>)>,
    after: Seq<(Seq<char>, Seq<u8>)>,
    name: Seq<char>,
)
    requires
        is_stripped(before, after),
        !is_hop_by_hop(before, name),
    ensures
        values_named(after, name) == values_named(before, name),
{
}

// ---------------------------------------------------------------------------
// Headers in the log
// ---------------------------------------------------------------------------

/// The values under a name as the log shows them.
pub open spec fn shown_list(values: Seq<Seq<u8>>) -> FieldView {
    FieldView::List(values.map_values(|value: Seq<u8>| shown_value(value)))
}

/// The headers that a policy logs: each name with its values in order.
pub open spec fn logged_headers(
    entries: Seq<(Seq<char>, Seq<u8>)>,
    policy: HeaderLogPolicy,
) -> Map<Seq<char>, FieldView> {
    Map::new(
        |name: Seq<char>| policy.logs(name) && values_named(entries, name).len() > 0,
        |name: Seq<char>| shown_list(values_named(entries, name)),
    )
}

/// Keys and lists of texts, each key once, that hold logged headers.
spec fn groups_hold(
    groups: Seq<(String, JsonField)>,
    entries: Seq<(Seq<char>, Seq<u8>)>,
    policy: HeaderLogPolicy,
) -> bool {
    &&& forall|i: int, j: int| 0 <= i < j < groups.len() ==> groups[i].0@ != groups[j].0@
    &&& forall|i: int|
        0 <= i < groups.len() ==> {
            &&& policy.logs(#[trigger] groups[i].0@)
            &&& values_named(entries, groups[i].0@).len() > 0
            &&& groups[i].1@ == shown_list(values_named(entries, groups[i].0@))
            &&& groups[i].1 is List
        }
    &&& forall|name: Seq<char>|
        policy.logs(name) && #[trigger] values_named(entries, name).len() > 0 ==> exists|i: int|
            0 <= i < groups.len() && #[trigger] groups[i].0@ == name
}

/// Keys that occur once make the map that they list.
proof fn lemma_field_map(groups: Seq<(String, JsonField)>)
    requires
        forall|i: int, j: int| 0 <= i < j < groups.len() ==> groups[i].0@ != groups[j].0@,
    ensures
        forall|name: Seq<char>|
            field_map(groups).dom().contains(name) <==> exists|i: int|
                0 <= i < groups.len() && #[trigger] groups[i].0@ == name,
        forall|i: int|
            0 <= i < groups.len() ==> field_map(groups)[(#[trigger] groups[i]).0@]
                == groups[i].1@,
    decreases groups.len(),
{
    if groups.len() > 0 {
        let front = groups.drop_last();
        lemma_field_map(front);
        assert forall|name: Seq<char>|
            field_map(groups).dom().contains(name) <==> exists|i: int|
                0 <= i < groups.len() && #[trigger] groups[i].0@ == name by {
            if field_map(groups).dom().contains(name) {
                if name == groups.last().0@ {
                    assert(groups[groups.len() - 1].0@ == name);
                } else {
                    assert(field_map(front).dom().contains(name));
                    let i = choose|i: int| 0 <= i < front.len() && #[trigger] front[i].0@ == name;
                    assert(groups[i].0@ == name);
                }
            }
            if exists|i: int| 0 <= i < groups.len() && #[trigger] groups[i].0@ == name {
                let i = choose|i: int| 0 <= i < groups.len() && #[trigger] groups[i].0@ == name;
                if i < front.len() {
                    assert(front[i].0@ == name);
                }
            }
        }
        assert forall|i: int| 0 <= i < groups.len() implies field_map(
            groups,
        )[(#[trigger] groups[i]).0@] == groups[i].1@ by {
            if i < front.len() {
                assert(front[i] == groups[i]);
                assert(groups[i].0@ != groups[groups.len() - 1].0@);
            }
        }
    }
}

/// Groups that hold the logged headers of entries, with one more entry put in its group.
fn put_in_group(
    groups: &mut Vec<(String, JsonField)>,
    name: &String,
    value: &Vec<u8>,
    Ghost(entries): Ghost<Seq<(Seq<char>, Seq<u8>)>>,
    Ghost(policy): Ghost<HeaderLogPolicy>,
)
    requires
        groups_hold(old(groups)@, entries, policy),
        policy.logs(name@),
    ensures
        groups_hold(final(groups)@, entries.push((name@, value@)), policy),
{
    let ghost more = entries.push((name@, value@));
    let ghost before = groups@;
    proof {
        assert(more.drop_last() =~= entries);
        assert forall|other: Seq<char>| other != name@ implies #[trigger] values_named(more, other)
            == values_named(entries, other) by {}
        assert(values_named(more, name@) == values_named(entries, name@).push(value@));
    }
    let shown = stringify_header_value(value.as_slice());
    let mut i: usize = 0;
    while i < groups.len() && !same_text(groups[i].0.as_str(), name.as_str())
        invariant
            i <= groups.len(),
            groups@ == before,
            forall|j: int| 0 <= j < i ==> (#[trigger] before[j]).0@ != name@,
        decreases groups.len() - i,
    {
        i += 1;
    }
    if i < groups.len() {
        assert(before[i as int].0@ == name@);
        let (key, field) = groups.remove(i);
        let mut items: Vec<String> = match field {
            JsonField::List(items) => items,
            _ => Vec::new(),
        };
        let ghost old_items = items@;
        items.push(shown);
        assert(before[i as int].1 is List);
        assert(texts(items@) =~= texts(old_items).push(shown@));
        let ghost old_values = values_named(entries, name@);
        assert(old_values.push(value@).map_values(
            |value: Seq<u8>| shown_value(value),
        ) =~= old_values.map_values(|value: Seq<u8>| shown_value(value)).push(
            shown_value(value@),
        ));
        groups.insert(i, (key, JsonField::List(items)));
        assert(groups@ =~= before.update(i as int, (key, JsonField::List(items))));
        proof {
            assert(groups[i as int].1@ == shown_list(values_named(more, name@)));
            assert forall|other: Seq<char>|
                policy.logs(other) && #[trigger] values_named(more, other).len() > 0 implies exists|
                j: int,
            |
                0 <= j < groups.len() && #[trigger] groups[j].0@ == other by {
                if other == name@ {
                    assert(groups[i as int].0@ == other);
                } else {
                    assert(values_named(entries, other).len() > 0);
                    let j = choose|j: int| 0 <= j < before.len() && #[trigger] before[j].0@ == other;
                    assert(groups[j].0@ == other);
                }
            }
        }
    } else {
        assert(values_named(entries, name@).len() == 0) by {
            if values_named(entries, name@).len() > 0 {
                let j = choose|j: int| 0 <= j < before.len() && #[trigger] before[j].0@ == name@;
                assert(false);
            }
        }
        let mut items: Vec<String> = Vec::new();
        items.push(shown);
        groups.push((name.clone(), JsonField::List(items)));
        proof {
            assert(values_named(more, name@) =~= seq![value@]);
            assert(texts(items@) =~= values_named(more, name@).map_values(
                |value: Seq<u8>| shown_value(value),
            ));
            assert forall|other: Seq<char>|
                policy.logs(other) && #[trigger] values_named(more, other).len() > 0 implies exists|
                j: int,
            |
                0 <= j < groups.len() && #[trigger] groups[j].0@ == other by {
                if other == name@ {
                    assert(groups[before.len() as int].0@ == other);
                } else {
                    assert(values_named(entries, other).len() > 0);
                    let j = choose|j: int| 0 <= j < before.len() && #[trigger] before[j].0@ == other;
                    assert(groups[j].0@ == other);
                }
            }
        }
    }
}

/// Writes the headers that a policy logs as a JSON object of lists.
pub fn serialize_headers(headers: &HeaderMap, policy: &HeaderLogPolicy) -> (text: String)
    ensures
        text@ == json_text(
            DocumentView::Object(logged_headers(header_entries(*headers), *policy)),
        ),
{
    let ghost entries = header_entries(*headers);
    let list = list_headers(headers);
    let mut groups: Vec<(String, JsonField)> = Vec::new();
    let mut i: usize = 0;
    assert(entries.take(0) =~= Seq::<(Seq<char>, Seq<u8>)>::empty());
    while i < list.len()
        invariant
            i <= list.len(),
            entry_views(list@) == entries,
            groups_hold(groups@, entries.take(i as int), *policy),
        decreases list.len() - i,
    {
        let name = &list[i].0;
        let value = &list[i].1;
        assert(entry_views(list@)[i as int] == (name@, value@));
        assert(entries.take(i + 1) =~= entries.take(i as int).push((name@, value@)));
        let ghost front = entries.take(i as int);
        if policy.allows(name.as_str()) {
            put_in_group(&mut groups, name, value, Ghost(front), Ghost(*policy));
        } else {
            proof {
                let more = entries.take(i + 1);
                assert(more.drop_last() =~= front);
                assert forall|other: Seq<char>| policy.logs(other) implies #[trigger] values_named(
                    more,
                    other,
                ) == values_named(front, other) by {}
            }
        }
        i += 1;
    }
    assert(entries.take(i as int) =~= entries);
    proof {
        lemma_field_map(groups@);
        assert(field_map(groups@) =~= logged_headers(entries, *policy)) by {
            assert forall|name: Seq<char>|
                field_map(groups@).dom().contains(name) == logged_headers(
                    entries,
                    *policy,
                ).dom().contains(name) by {
                if logged_headers(entries, *policy).dom().contains(name) {
                    assert(values_named(entries, name).len() > 0);
                }
                if field_map(groups@).dom().contains(name) {
                    let j = choose|j: int| 0 <= j < groups.len() && #[trigger] groups[j].0@ == name;
                    assert(policy.logs(groups[j].0@));
                }
            }
            assert forall|name: Seq<char>| field_map(groups@).dom().contains(name) implies field_map(
                groups@,
            )[name] == logged_headers(entries, *policy)[name] by {
                let j = choose|j: int| 0 <= j < groups.len() && #[trigger] groups[j].0@ == name;
                assert(policy.logs(groups[j].0@));
            }
        }
    }
    write_json(&JsonDocument::Object(groups))
}

/// The log holds a header where the policy allows it and only there.
pub proof fn logging_follows_the_policy(
    entries: Seq<(Seq<char>, Seq<u8>)>,
    policy: HeaderLogPolicy,
    name: Seq<char>,
)
    ensures
        logged_headers(entries, policy).dom().contains(name) <==> policy.logs(name)
            && values_named(entries, name).len() > 0,
        logged_headers(entries, policy).dom().contains(name) ==> logged_headers(
            entries,
            policy,
        )[name] == shown_list(values_named(entries, name)),
{
}

// ---------------------------------------------------------------------------
// Cookies
// ---------------------------------------------------------------------------

/// The cookies in the pieces of a `cookie` header: each `name=value`, trimmed; the later of two
/// with the same name counts.
pub open spec fn cookie_map(parts: Seq<Seq<char>>) -> Map<Seq<char>, FieldView>
    decreases parts.len(),
{
    if parts.len() == 0 {
        Map::empty()
    } else {
        let front = cookie_map(parts.drop_last());
        match split_once(trim(parts.last()), '=') {
            Some((name, value)) => front.insert(
                trim(name),
                FieldView::Text(trim(value)),
            ),
            None => front,
        }
    }
}

/// The cookies of a request as JSON, where there are any that are text.
pub open spec fn cookies_json(value: Option<Seq<u8>>) -> Option<Seq<char>> {
    match value {
        Some(bytes) => match value_text(bytes) {
            Some(raw) => Some(json_text(DocumentView::Object(cookie_map(split(raw, ';'))))),
            None => None,
        },
        None => None,
    }
}

/// Writes the cookies of a request as a JSON object.
pub fn parse_cookies(value: &Option<Vec<u8>>) -> (text: Option<String>)
    ensures
        opt_text(text) == cookies_json(
            match *value {
                Some(bytes) => Some(bytes@),
                None => None,
            },
        ),
{
    let raw = match value {
        Some(bytes) => match text_of_value(bytes.as_slice()) {
            Some(raw) => raw,
            None => {
                return None;
            },
        },
        None => {
            return None;
        },
    };
    let chars = chars_of(raw.as_str());
    let parts = pieces(chars.as_slice(), ';');
    let ghost shown = parts@.map_values(|part: &[char]| part@);
    let mut cookies: Vec<(String, JsonField)> = Vec::new();
    let mut i: usize = 0;
    assert(shown.take(0) =~= Seq::<Seq<char>>::empty());
    while i < parts.len()
        invariant
            i <= parts.len(),
            shown == parts@.map_values(|part: &[char]| part@),
            field_map(cookies@) == cookie_map(shown.take(i as int)),
        decreases parts.len() - i,
    {
        let ghost before = cookies@;
        assert(shown[i as int] == parts[i as int]@);
        assert(shown.take(i + 1).drop_last() =~= shown.take(i as int));
        if let Some((name, value)) = cut_once(trimmed(parts[i]), '=') {
            cookies.push(
                (
                    text_of(trimmed(name)),
                    JsonField::Text(text_of(trimmed(value))),
                ),
            );
            assert(cookies@.drop_last() =~= before);
        }
        i += 1;
    }
    assert(shown.take(i as int) =~= shown);
    Some(write_json(&JsonDocument::Object(cookies)))
}

/// The attributes in the pieces of a `set-cookie` header: `key=value` under the key, anything
/// else that is not empty as a flag; keys in lower case, the later of two counting.
pub open spec fn attribute_map(parts: Seq<Seq<char>>) -> Map<Seq<char>, LeafView>
    decreases parts.len(),
{
    if parts.len() == 0 {
        Map::empty()
    } else {
        let front = attribute_map(parts.drop_last());
        let part = trim(parts.last());
        match split_once(part, '=') {
            Some((key, value)) => front.insert(lower(key), LeafView::Text(value)),
            None => if part.len() > 0 {
                front.insert(lower(part), LeafView::Flag(true))
            } else {
                front
            },
        }
    }
}

/// The name and the value that the first piece of a `set-cookie` header gives a cookie.
pub open spec fn cookie_pair(first: Seq<char>) -> (Seq<char>, Seq<char>) {
    match split_once(first, '=') {
        Some((name, value)) => (trim(name), trim(value)),
        None => (trim(first), Seq::empty()),
    }
}

/// A cookie that a response sets, as the log shows it.
pub open spec fn set_cookie_object(raw: Seq<char>) -> Map<Seq<char>, FieldView> {
    let parts = split(raw, ';');
    let pair = cookie_pair(parts[0]);
    Map::empty().insert("name"@, FieldView::Text(pair.0)).insert(
        "value"@,
        FieldView::Text(pair.1),
    ).insert("attributes"@, FieldView::Object(attribute_map(parts.skip(1)))).insert(
        "raw"@,
        FieldView::Text(raw),
    )
}

/// The pieces of a text are never none.
proof fn lemma_split_some(s: Seq<char>, mark: char)
    ensures
        split(s, mark).len() > 0,
{
    lemma_first_at_bounds(s, mark);
}

/// The attributes of a cookie that a response sets.
fn parse_attributes(parts: &Vec<&[char]>) -> (attributes: Vec<(String, JsonLeaf)>)
    requires
        parts@.len() > 0,
    ensures
        leaf_map(attributes@) == attribute_map(
            parts@.map_values(|part: &[char]| part@).skip(1),
        ),
{
    let ghost shown = parts@.map_values(|part: &[char]| part@).skip(1);
    let mut attributes: Vec<(String, JsonLeaf)> = Vec::new();
    let mut i: usize = 1;
    assert(shown.take(0) =~= Seq::<Seq<char>>::empty());
    while i < parts.len()
        invariant
            1 <= i <= parts.len(),
            shown == parts@.map_values(|part: &[char]| part@).skip(1),
            leaf_map(attributes@) == attribute_map(shown.take(i - 1)),
        decreases parts.len() - i,
    {
        let ghost before = attributes@;
        assert(shown[i - 1] == parts[i as int]@);
        assert(shown.take(i as int).drop_last() =~= shown.take(i - 1));
        let part = trimmed(parts[i]);
        match cut_once(part, '=') {
            Some((key, value)) => {
                attributes.push(
                    (text_of(to_lower(key).as_slice()), JsonLeaf::Text(text_of(value))),
                );
                assert(attributes@.drop_last() =~= before);
            },
            None => {
                if part.len() > 0 {
                    attributes.push((text_of(to_lower(part).as_slice()), JsonLeaf::Flag(true)));
                    assert(attributes@.drop_last() =~= before);
                }
            },
        }
        i += 1;
    }
    assert(shown.take(i - 1) =~= shown);
    attributes
}

/// Takes a `set-cookie` header apart.
pub fn parse_set_cookie_value(raw: &str) -> (object: Vec<(String, JsonField)>)
    ensures
        field_map(object@) == set_cookie_object(raw@),
{
    let chars = chars_of(raw);
    let parts = pieces(chars.as_slice(), ';');
    let ghost shown = parts@.map_values(|part: &[char]| part@);
    proof {
        lemma_split_some(raw@, ';');
        assert(shown[0] == parts[0]@);
    }
    let attributes = parse_attributes(&parts);
    let (name, value) = match cut_once(parts[0], '=') {
        Some((name, value)) => (text_of(trimmed(name)), text_of(trimmed(value))),
        None => (text_of(trimmed(parts[0])), String::new()),
    };
    let mut object: Vec<(String, JsonField)> = Vec::new();
    object.push(("name".to_owned(), JsonField::Text(name)));
    let ghost one = object@;
    object.push(("value".to_owned(), JsonField::Text(value)));
    let ghost two = object@;
    object.push(("attributes".to_owned(), JsonField::Object(attributes)));
    let ghost three = object@;
    object.push(("raw".to_owned(), JsonField::Text(raw.to_owned())));
    proof {
        assert(value@ =~= cookie_pair(parts[0]@).1);
        assert(one.drop_last() =~= Seq::<(String, JsonField)>::empty());
        assert(two.drop_last() =~= one);
        assert(three.drop_last() =~= two);
        assert(object@.drop_last() =~= three);
        let empty = Map::<Seq<char>, FieldView>::empty();
        assert(field_map(one.drop_last()) == empty);
        let with_name = empty.insert("name"@, FieldView::Text(name@));
        assert(field_map(one) == with_name);
        let with_value = with_name.insert("value"@, FieldView::Text(value@));
        assert(field_map(two) == with_value);
        assert(field_map(three) == with_value.insert(
            "attributes"@,
            FieldView::Object(leaf_map(attributes@)),
        ));
    }
    object
}

/// The cookies that header values set; values that are not text are passed over.
pub open spec fn set_cookie_objects(values: Seq<Seq<u8>>) -> Seq<Map<Seq<char>, FieldView>>
    decreases values.len(),
{
    if values.len() == 0 {
        Seq::empty()
    } else {
        let front = set_cookie_objects(values.drop_last());
        match value_text(values.last()) {
            Some(raw) => front.push(set_cookie_object(raw)),
            None => front,
        }
    }
}

/// The cookies that a response sets as JSON, where there are any.
pub open spec fn set_cookies_json(entries: Seq<(Seq<char>, Seq<u8>)>) -> Option<Seq<char>> {
    let objects = set_cookie_objects(values_named(entries, "set-cookie"@));
    if objects.len() > 0 {
        Some(json_text(DocumentView::List(objects)))
    } else {
        None
    }
}

/// Writes the cookies that a response sets as a JSON list.
pub fn parse_set_cookies(headers: &HeaderMap) -> (text: Option<String>)
    ensures
        opt_text(text) == set_cookies_json(header_entries(*headers)),
{
    proof {
        reveal_strlit("set-cookie");
        assert(lower("set-cookie"@) =~= "set-cookie"@);
    }
    let values = get_all_headers(headers, "set-cookie");
    let ghost shown = values@.map_values(|value: Vec<u8>| value@);
    let ghost show = |item: Vec<(String, JsonField)>| field_map(item@);
    let mut items: Vec<Vec<(String, JsonField)>> = Vec::new();
    let mut i: usize = 0;
    assert(shown.take(0) =~= Seq::<Seq<u8>>::empty());
    assert(items@.map_values(show) =~= Seq::<Map<Seq<char>, FieldView>>::empty());
    while i < values.len()
        invariant
            i <= values.len(),
            shown == values@.map_values(|value: Vec<u8>| value@),
            show == (|item: Vec<(String, JsonField)>| field_map(item@)),
            items@.map_values(show) == set_cookie_objects(shown.take(i as int)),
        decreases values.len() - i,
    {
        let ghost before = items@;
        assert(shown[i as int] == values[i as int]@);
        assert(shown.take(i + 1).drop_last() =~= shown.take(i as int));
        if let Some(raw) = text_of_value(values[i].as_slice()) {
            let object = parse_set_cookie_value(raw.as_str());
            items.push(object);
            assert(items@.map_values(show) =~= before.map_values(show).push(field_map(object@)));
        }
        i += 1;
    }
    assert(shown.take(i as int) =~= shown);
    assert(items@.len() == items@.map_values(show).len());
    if items.len() == 0 {
        None
    } else {
        Some(write_json(&JsonDocument::List(items)))
    }
}

// ---------------------------------------------------------------------------
// Lengths and forwarded addresses
// ---------------------------------------------------------------------------

/// The length that a `content-length` header states, where it states one.
pub open spec fn stated_length(entries: Seq<(Seq<char>, Seq<u8>)>) -> Option<int> {
    match text_named(entries, "content-length"@) {
        Some(text) => parse_decimal(text, true, i64::MIN as int, i64::MAX as int),
        None => None,
    }
}

/// The length that a `content-length` header states.
pub fn parse_content_length(headers: &HeaderMap) -> (length: Option<i64>)
    ensures
        match length {
            Some(length) => stated_length(header_entries(*headers)) == Some(length as int),
            None => stated_length(header_entries(*headers)) is None,
        },
{
    proof {
        reveal_strlit("content-length");
        assert(lower("content-length"@) =~= "content-length"@);
    }
    match header_text(headers, "content-length") {
        Some(text) => parse_i64(text.as_str()),
        None => None,
    }
}

/// What stands behind a key in the first piece that begins with it, once trimmed.
pub open spec fn parameter(parts: Seq<Seq<char>>, key: Seq<char>) -> Option<Seq<char>>
    decreases parts.len(),
{
    if parts.len() == 0 {
        None
    } else if key.is_prefix_of(trim(parts[0])) {
        Some(trim(parts[0]).skip(key.len() as int))
    } else {
        parameter(parts.skip(1), key)
    }
}

/// Finds the parameter of a `forwarded` header with a key.
fn find_parameter(value: &str, key: &str) -> (found: Option<Vec<char>>)
    ensures
        match found {
            Some(chars) => parameter(split(value@, ';'), key@) == Some(chars@),
            None => parameter(split(value@, ';'), key@) is None,
        },
{
    let chars = chars_of(value);
    let wanted = chars_of(key);
    let parts = pieces(chars.as_slice(), ';');
    let ghost shown = parts@.map_values(|part: &[char]| part@);
    let mut i: usize = 0;
    assert(shown.skip(0) =~= shown);
    while i < parts.len()
        invariant
            i <= parts.len(),
            shown == parts@.map_values(|part: &[char]| part@),
            parameter(shown, key@) == parameter(shown.skip(i as int), key@),
            wanted@ == key@,
            shown == split(value@, ';'),
        decreases parts.len() - i,
    {
        let part = trimmed(parts[i]);
        assert(shown.skip(i as int)[0] == parts[i as int]@);
        assert(shown.skip(i as int).skip(1) =~= shown.skip(i + 1));
        if begins_with(part, wanted.as_slice()) {
            let rest = vstd::slice::slice_subrange(part, wanted.len(), part.len());
            assert(rest@ =~= part@.skip(key@.len() as int));
            let mut found: Vec<char> = Vec::new();
            crate::text::extend(&mut found, rest);
            return Some(found);
        }
        i += 1;
    }
    None
}

/// The client address that proxies in front forwarded: that of a `forwarded` header without
/// quotes and brackets, else the first of an `x-forwarded-for` header.
pub open spec fn forwarded_client(entries: Seq<(Seq<char>, Seq<u8>)>) -> Option<Seq<char>> {
    let forwarded = match text_named(entries, "forwarded"@) {
        Some(value) => parameter(split(value, ';'), "for="@),
        None => None,
    };
    match forwarded {
        Some(value) => Some(trim_char(trim_char(trim_char(value, '"'), '['), ']')),
        None => match text_named(entries, "x-forwarded-for"@) {
            Some(value) => Some(trim(value.take(first_at(value, ',')))),
            None => None,
        },
    }
}

/// The client address that proxies in front forwarded.
pub fn forwarded_client_ip(headers: &HeaderMap) -> (ip: Option<String>)
    ensures
        opt_text(ip) == forwarded_client(header_entries(*headers)),
{
    proof {
        reveal_strlit("forwarded");
        reveal_strlit("x-forwarded-for");
        assert(lower("forwarded"@) =~= "forwarded"@);
        assert(lower("x-forwarded-for"@) =~= "x-forwarded-for"@);
    }
    if let Some(value) = header_text(headers, "forwarded") {
        if let Some(found) = find_parameter(value.as_str(), "for=") {
            let bare = trimmed_of(
                trimmed_of(trimmed_of(found.as_slice(), '"'), '['),
                ']',
            );
            return Some(text_of(bare));
        }
    }
    match header_text(headers, "x-forwarded-for") {
        Some(value) => {
            let chars = chars_of(value.as_str());
            let end = crate::text::find(chars.as_slice(), ',');
            let first = vstd::slice::slice_subrange(chars.as_slice(), 0, end);
            assert(first@ =~= value@.take(first_at(value@, ',')));
            Some(text_of(trimmed(first)))
        },
        None => None,
    }
}

/// The scheme that proxies in front forwarded: that of a `forwarded` header without quotes, else
/// that of an `x-forwarded-proto` header.
pub open spec fn forwarded_scheme(entries: Seq<(Seq<char>, Seq<u8>)>) -> Option<Seq<char>> {
    let forwarded = match text_named(entries, "forwarded"@) {
        Some(value) => parameter(split(value, ';'), "proto="@),
        None => None,
    };
    match forwarded {
        Some(value) => Some(trim_char(value, '"')),
        None => text_named(entries, "x-forwarded-proto"@),
    }
}

/// The scheme that proxies in front forwarded.
pub fn forwarded_proto(headers: &HeaderMap) -> (scheme: Option<String>)
    ensures
        opt_text(scheme) == forwarded_scheme(header_entries(*headers)),
{
    proof {
        reveal_strlit("forwarded");
        reveal_strlit("x-forwarded-proto");
        assert(lower("forwarded"@) =~= "forwarded"@);
        assert(lower("x-forwarded-proto"@) =~= "x-forwarded-proto"@);
    }
    if let Some(value) = header_text(headers, "forwarded") {
        if let Some(found) = find_parameter(value.as_str(), "proto=") {
            return Some(text_of(trimmed_of(found.as_slice(), '"')));
        }
    }
    header_text(headers, "x-forwarded-proto")
}

// ---------------------------------------------------------------------------
// Laws
// ---------------------------------------------------------------------------

/// Stripping takes out eight headers by name.
pub proof fn stripping_takes_out_eight_headers(
    before: Seq<(Seq<char>, Seq<u8>)>,
    after: Seq<(Seq<char>, Seq<u8>)>,
    name: Seq<char>,
)
    requires
        is_stripped(before, after),
        name == "connection"@ || name == "proxy-authenticate"@ || name == "proxy-authorization"@
            || name == "te"@ || name == "trailer"@ || name == "transfer-encoding"@ || name
            == "upgrade"@ || name == "keep-alive"@,
    ensures
        values_named(after, name).len() == 0,
{
    assert(is_hop_by_hop(before, name));
}

/// Without a `connection` header, stripping takes out no header but eight: any other name has the
/// values that it had.
pub proof fn stripping_takes_out_nothing_else(
    before: Seq<(Seq<char>, Seq<u8>)>,
    after: Seq<(Seq<char>, Seq<u8>)>,
    name: Seq<char>,
)
    requires
        is_stripped(before, after),
        values_named(before, "connection"@).len() == 0,
        name != "connection"@,
        name != "proxy-authenticate"@,
        name != "proxy-authorization"@,
        name != "te"@,
        name != "trailer"@,
        name != "transfer-encoding"@,
        name != "upgrade"@,
        name != "keep-alive"@,
    ensures
        values_named(after, name) == values_named(before, name),
{
    assert(connection_tokens(before) =~= Seq::<Seq<char>>::empty());
    assert(!is_hop_by_hop(before, name));
}

/// Whether a text lists a name between commas, whatever white space is around it and in whatever
/// letter case.
pub open spec fn lists_name(text: Seq<char>, name: Seq<char>) -> bool {
    exists|i: int, j: int|
        #[trigger] is_piece(text, ',', i, j) && lower(trim(text.subrange(i, j))) == name
}

/// Stripping takes out what the `connection` header lists, and, beside the eight headers that it
/// always takes out, nothing that the `connection` header does not list.
pub proof fn stripping_follows_the_connection_header(
    before: Seq<(Seq<char>, Seq<u8>)>,
    after: Seq<(Seq<char>, Seq<u8>)>,
    name: Seq<char>,
)
    requires
        is_stripped(before, after),
        name.len() > 0,
        name != "connection"@,
        name != "proxy-authenticate"@,
        name != "proxy-authorization"@,
        name != "te"@,
        name != "trailer"@,
        name != "transfer-encoding"@,
        name != "upgrade"@,
        name != "keep-alive"@,
    ensures
        text_named(before, "connection"@) matches Some(text) && lists_name(text, name) ==> values_named(
            after,
            name,
        ).len() == 0,
        !(text_named(before, "connection"@) matches Some(text) && lists_name(text, name))
            ==> values_named(after, name) == values_named(before, name),
{
    if let Some(text) = text_named(before, "connection"@) {
        let tokens = connection_tokens(before);
        let pieces = split(text, ',');
        if lists_name(text, name) {
            let (i, j) = choose|i: int, j: int|
                #[trigger] is_piece(text, ',', i, j) && lower(trim(text.subrange(i, j))) == name;
            stretches_are_pieces(text, ',', i, j);
            let k = choose|k: int| 0 <= k < pieces.len() && pieces[k] == text.subrange(i, j);
            assert(tokens[k] == name);
            assert(tokens.contains(name));
            assert(is_hop_by_hop(before, name));
        } else if tokens.contains(name) {
            let k = choose|k: int| 0 <= k < tokens.len() && tokens[k] == name;
            assert(tokens[k] == lower(trim(pieces[k])));
            assert(pieces.contains(pieces[k]));
            pieces_are_stretches(text, ',', pieces[k]);
        }
    }
}

/// Whether a piece of a `cookie` header gives a cookie a value: it is the name, an equals sign and
/// the value, with white space around each, and there is no equals sign in the name.
pub open spec fn gives_cookie(piece: Seq<char>, name: Seq<char>, value: Seq<char>) -> bool {
    exists|i: int|
        0 <= i < trim(piece).len() && #[trigger] trim(piece)[i] == '=' && !trim(piece).take(
            i,
        ).contains('=') && name == trim(trim(piece).take(i)) && value == trim(
            trim(piece).skip(i + 1),
        )
}

/// A piece with an equals sign gives one cookie, and one without gives none.
proof fn lemma_cookie_of_piece(piece: Seq<char>)
    ensures
        match split_once(trim(piece), '=') {
            Some((name, value)) => gives_cookie(piece, trim(name), trim(value)) && forall|
                n: Seq<char>,
                v: Seq<char>,
            |
                #[trigger] gives_cookie(piece, n, v) ==> n == trim(name) && v == trim(value),
            None => forall|n: Seq<char>, v: Seq<char>| !#[trigger] gives_cookie(piece, n, v),
        },
{
    let s = trim(piece);
    let at = first_at(s, '=');
    lemma_first_at_bounds(s, '=');
    if at < s.len() {
        assert(s[at] == '=');
        assert forall|k: int| 0 <= k < s.take(at).len() implies s.take(at)[k] != '=' by {}
        assert(!s.take(at).contains('='));
    }
    assert forall|n: Seq<char>, v: Seq<char>| #[trigger] gives_cookie(piece, n, v) implies at
        < s.len() && n == trim(s.take(at)) && v == trim(s.skip(at + 1)) by {
        let i = choose|i: int|
            0 <= i < s.len() && #[trigger] s[i] == '=' && !s.take(i).contains('=') && n == trim(
                s.take(i),
            ) && v == trim(s.skip(i + 1));
        if at < i {
            assert(s.take(i)[at] == '=');
        }
    }
}

/// The log of a request's cookies holds what the pieces of the `cookie` header give, the last
/// piece that gives a cookie counting, and nothing else.
pub proof fn cookies_are_what_the_pieces_give(
    parts: Seq<Seq<char>>,
    name: Seq<char>,
    value: Seq<char>,
)
    ensures
        forall|k: int|
            0 <= k < parts.len() && #[trigger] gives_cookie(parts[k], name, value) && (forall|
                j: int,
                other: Seq<char>,
            |
                k < j < parts.len() ==> !#[trigger] gives_cookie(parts[j], name, other))
                ==> cookie_map(parts).dom().contains(name) && cookie_map(parts)[name]
                == FieldView::Text(value),
        (forall|j: int, other: Seq<char>|
            0 <= j < parts.len() ==> !#[trigger] gives_cookie(parts[j], name, other))
            ==> !cookie_map(parts).dom().contains(name),
    decreases parts.len(),
{
    if parts.len() > 0 {
        let front = parts.drop_last();
        let n = parts.len() - 1;
        cookies_are_what_the_pieces_give(front, name, value);
        lemma_cookie_of_piece(parts.last());
        assert(parts[n] == parts.last());
        assert forall|j: int| 0 <= j < n implies front[j] == #[trigger] parts[j] by {}
        assert forall|k: int|
            0 <= k < parts.len() && #[trigger] gives_cookie(parts[k], name, value) && (forall|
                j: int,
                other: Seq<char>,
            |
                k < j < parts.len() ==> !#[trigger] gives_cookie(
                    parts[j],
                    name,
                    other,
                )) implies cookie_map(parts).dom().contains(name) && cookie_map(parts)[name]
            == FieldView::Text(value) by {
            if k < n {
                assert(gives_cookie(front[k], name, value));
                assert forall|j: int, other: Seq<char>| k < j < front.len() implies !#[trigger] gives_cookie(
                    front[j],
                    name,
                    other,
                ) by {
                    assert(!gives_cookie(parts[j], name, other));
                }
                if let Some((a, b)) = split_once(trim(parts.last()), '=') {
                    assert(gives_cookie(parts[n], trim(a), trim(b)));
                    if trim(a) == name {
                        assert(!gives_cookie(parts[n], name, trim(b)));
                    }
                }
            }
        }
        if forall|j: int, other: Seq<char>|
            0 <= j < parts.len() ==> !#[trigger] gives_cookie(parts[j], name, other) {
            assert forall|j: int, other: Seq<char>| 0 <= j < front.len() implies !#[trigger] gives_cookie(
                front[j],
                name,
                other,
            ) by {
                assert(!gives_cookie(parts[j], name, other));
            }
            if let Some((a, b)) = split_once(trim(parts.last()), '=') {
                assert(gives_cookie(parts[n], trim(a), trim(b)));
            }
        }
    }
}

/// No cookie in the log has an equals sign in its name, and each is logged as a text.
pub proof fn cookie_names_hold_no_equals_sign(parts: Seq<Seq<char>>, name: Seq<char>)
    requires
        cookie_map(parts).dom().contains(name),
    ensures
        !name.contains('='),
        cookie_map(parts)[name] is Text,
    decreases parts.len(),
{
    if parts.len() > 0 {
        let front = cookie_map(parts.drop_last());
        if front.dom().contains(name) {
            cookie_names_hold_no_equals_sign(parts.drop_last(), name);
        }
        let s = trim(parts.last());
        lemma_first_at_bounds(s, '=');
        let a = s.take(first_at(s, '='));
        if trim(a) == name && name.contains('=') {
            lemma_trim_is_part(a);
            let k = choose|k: int| 0 <= k < name.len() && name[k] == '=';
            let from = choose|from: int| 0 <= from && from + trim(a).len() <= a.len() && trim(a)
                == #[trigger] a.subrange(from, from + trim(a).len());
            assert(a[from + k] == '=');
            assert(s[from + k] == '=');
        }
    }
}

/// What trimming leaves is a stretch of the text.
proof fn lemma_trim_is_part(s: Seq<char>)
    ensures
        exists|from: int|
            0 <= from && from + trim(s).len() <= s.len() && trim(s) == #[trigger] s.subrange(
                from,
                from + trim(s).len(),
            ),
{
    let cut = |c: char| crate::text::is_space(c);
    let t = crate::text::trim_start_by(s, cut);
    lemma_start_is_suffix(s, cut);
    lemma_end_is_prefix(t, cut);
    let from = s.len() - t.len();
    assert(trim(s) =~= s.subrange(from, from + trim(s).len()));
}

/// Trimming the front leaves an end part.
proof fn lemma_start_is_suffix(s: Seq<char>, cut: spec_fn(char) -> bool)
    ensures
        crate::text::trim_start_by(s, cut).len() <= s.len(),
        crate::text::trim_start_by(s, cut) == s.skip(
            s.len() - crate::text::trim_start_by(s, cut).len(),
        ),
    decreases s.len(),
{
    if s.len() > 0 && cut(s[0]) {
        lemma_start_is_suffix(s.skip(1), cut);
        let t = crate::text::trim_start_by(s, cut);
        assert(s.skip(1).skip(s.len() - 1 - t.len()) =~= s.skip(s.len() - t.len()));
    } else {
        assert(s.skip(0) =~= s);
    }
}

/// Trimming the end leaves a front part.
proof fn lemma_end_is_prefix(s: Seq<char>, cut: spec_fn(char) -> bool)
    ensures
        crate::text::trim_end_by(s, cut).len() <= s.len(),
        crate::text::trim_end_by(s, cut) == s.take(
            crate::text::trim_end_by(s, cut).len() as int,
        ),
    decreases s.len(),
{
    if s.len() > 0 && cut(s.last()) {
        lemma_end_is_prefix(s.drop_last(), cut);
        let t = crate::text::trim_end_by(s, cut);
        assert(s.drop_last().take(t.len() as int) =~= s.take(t.len() as int));
    } else {
        assert(s.take(s.len() as int) =~= s);
    }
}

/// The cookies of a request are logged where its `cookie` header is text, as the object that the
/// pieces between its semicolons make.
pub proof fn cookies_are_logged_where_they_are_text(bytes: Seq<u8>)
    ensures
        cookies_json(None) is None,
        value_text(bytes) is None ==> cookies_json(Some(bytes)) is None,
        value_text(bytes) matches Some(raw) ==> cookies_json(Some(bytes)) == Some(
            json_text(DocumentView::Object(cookie_map(split(raw, ';')))),
        ),
{
}

/// A cookie that a response sets is logged under its name with its value: what stands before and
/// behind the first equals sign of the first piece of the header, each without white space around
/// it. The header itself is logged as it came.
pub proof fn set_cookies_are_cut_at_the_first_equals_sign(
    name: Seq<char>,
    value: Seq<char>,
    rest: Seq<char>,
)
    requires
        !name.contains('='),
        !name.contains(';'),
        !value.contains(';'),
    ensures
        ({
            let pair = name + seq!['='] + value;
            let raw = pair + seq![';'] + rest;
            &&& set_cookie_object(pair)["name"@] == FieldView::Text(trim(name))
            &&& set_cookie_object(pair)["value"@] == FieldView::Text(trim(value))
            &&& set_cookie_object(pair)["raw"@] == FieldView::Text(pair)
            &&& set_cookie_object(raw)["name"@] == FieldView::Text(trim(name))
            &&& set_cookie_object(raw)["value"@] == FieldView::Text(trim(value))
            &&& set_cookie_object(raw)["raw"@] == FieldView::Text(raw)
            &&& set_cookie_object(raw)["attributes"@] == FieldView::Object(
                attribute_map(split(rest, ';')),
            )
            &&& set_cookie_object(name)["name"@] == FieldView::Text(trim(name))
            &&& set_cookie_object(name)["value"@] == FieldView::Text(Seq::empty())
            &&& set_cookie_object(raw).dom() == set!["name"@, "value"@, "attributes"@, "raw"@]
        }),
{
    let pair = name + seq!['='] + value;
    let raw = pair + seq![';'] + rest;
    reveal_strlit("name");
    reveal_strlit("value");
    reveal_strlit("attributes");
    reveal_strlit("raw");
    assert("name"@.len() == 4 && "value"@.len() == 5 && "attributes"@.len() == 10 && "raw"@.len()
        == 3);
    assert(!pair.contains(';')) by {
        if pair.contains(';') {
            let k = choose|k: int| 0 <= k < pair.len() && pair[k] == ';';
            if k < name.len() {
                assert(name[k] == ';');
            } else if k > name.len() {
                assert(value[k - name.len() - 1] == ';');
            }
        }
    }
    cutting_goes_from_mark_to_mark(pair, ';', rest);
    cutting_goes_from_mark_to_mark(name, ';', rest);
    cutting_goes_from_mark_to_mark(name, '=', value);
    assert((seq![pair] + split(rest, ';')).skip(1) =~= split(rest, ';'));
    assert(set_cookie_object(raw).dom() =~= set!["name"@, "value"@, "attributes"@, "raw"@]);
}

/// An attribute of a cookie that a response sets is logged under its key in lower case: with what
/// stands behind the first equals sign where there is one, and else as a flag. A later attribute of
/// the same key takes the place of an earlier one; others stay; an empty piece adds nothing.
pub proof fn attributes_are_logged_under_their_keys(
    parts: Seq<Seq<char>>,
    piece: Seq<char>,
    key: Seq<char>,
    value: Seq<char>,
)
    requires
        !key.contains('='),
    ensures
        attribute_map(Seq::empty()) == Map::<Seq<char>, LeafView>::empty(),
        trim(piece) == key + seq!['='] + value ==> attribute_map(parts.push(piece))
            == attribute_map(parts).insert(lower(key), LeafView::Text(value)),
        trim(piece) == key && key.len() > 0 ==> attribute_map(parts.push(piece)) == attribute_map(
            parts,
        ).insert(lower(key), LeafView::Flag(true)),
        trim(piece).len() == 0 ==> attribute_map(parts.push(piece)) == attribute_map(parts),
{
    assert(parts.push(piece).drop_last() =~= parts);
    cutting_goes_from_mark_to_mark(key, '=', value);
    cutting_goes_from_mark_to_mark(Seq::empty(), '=', value);
    if trim(piece).len() == 0 {
        assert(trim(piece) =~= Seq::<char>::empty());
    }
}

/// The cookies that a response sets are logged one for one, in their order; a value that is not
/// text is passed over, and where none is left nothing is logged.
pub proof fn set_cookies_are_logged_one_for_one(values: Seq<Seq<u8>>, value: Seq<u8>)
    ensures
        set_cookie_objects(Seq::empty()).len() == 0,
        value_text(value) is None ==> set_cookie_objects(values.push(value)) == set_cookie_objects(
            values,
        ),
        value_text(value) matches Some(raw) ==> set_cookie_objects(values.push(value))
            == set_cookie_objects(values).push(set_cookie_object(raw)),
{
    assert(values.push(value).drop_last() =~= values);
}

/// The cookies that a response sets are those of its `set-cookie` headers.
pub proof fn set_cookies_come_from_their_header(entries: Seq<(Seq<char>, Seq<u8>)>)
    ensures
        ({
            let objects = set_cookie_objects(values_named(entries, "set-cookie"@));
            &&& set_cookies_json(entries) is Some <==> objects.len() > 0
            &&& objects.len() > 0 ==> set_cookies_json(entries) == Some(
                json_text(DocumentView::List(objects)),
            )
        }),
{
}

/// A header value is shown as it is where all of its bytes can be shown, and else as `0x` and two
/// hexadecimal digits for each byte.
pub proof fn values_are_shown_as_they_are(bytes: Seq<u8>)
    ensures
        (forall|k: int|
            0 <= k < bytes.len() ==> 0x20 <= #[trigger] bytes[k] <= 0x7e || bytes[k] == 0x09)
            ==> shown_value(bytes).len() == bytes.len() && forall|k: int|
            0 <= k < bytes.len() ==> #[trigger] shown_value(bytes)[k] as u32 == bytes[k] as u32,
        (exists|k: int|
            0 <= k < bytes.len() && !(0x20 <= #[trigger] bytes[k] <= 0x7e) && bytes[k] != 0x09)
            ==> shown_value(bytes).len() == 2 + 2 * bytes.len() && shown_value(bytes).take(2)
            == "0x"@,
{
    reveal_strlit("0x");
    if exists|k: int|
        0 <= k < bytes.len() && !(0x20 <= #[trigger] bytes[k] <= 0x7e) && bytes[k] != 0x09 {
        let k = choose|k: int|
            0 <= k < bytes.len() && !(0x20 <= #[trigger] bytes[k] <= 0x7e) && bytes[k] != 0x09;
        assert(!crate::headers::is_text_byte(bytes[k]));
        assert(shown_value(bytes).take(2) =~= "0x"@);
    }
}

/// The client that proxies in front named is the value of the first `for=` parameter of a
/// `forwarded` header, without the quotes and brackets around it.
pub proof fn forwarded_clients_are_named_by_for(
    entries: Seq<(Seq<char>, Seq<u8>)>,
    client: Seq<char>,
    rest: Seq<char>,
)
    requires
        !client.contains(';'),
        trim("for="@ + client) == "for="@ + client,
        client.len() > 0,
        client[0] != '"' && client[0] != '[' && client[0] != ']',
        client.last() != '"' && client.last() != '[' && client.last() != ']',
    ensures
        text_named(entries, "forwarded"@) == Some("for="@ + client) ==> forwarded_client(entries)
            == Some(client),
        text_named(entries, "forwarded"@) == Some("for="@ + client + seq![';'] + rest)
            ==> forwarded_client(entries) == Some(client),
{
    let piece = "for="@ + client;
    reveal_strlit("for=");
    assert(!piece.contains(';')) by {
        if piece.contains(';') {
            let k = choose|k: int| 0 <= k < piece.len() && piece[k] == ';';
            if k >= 4 {
                assert(client[k - 4] == ';');
            }
        }
    }
    cutting_goes_from_mark_to_mark(piece, ';', rest);
    assert("for="@.is_prefix_of(piece)) by {
        assert(piece.subrange(0, 4) =~= "for="@);
    }
    assert(piece.skip(4) =~= client);
    assert((seq![piece] + split(rest, ';'))[0] == piece);
    assert(trim_char(client, '"') == client);
    assert(trim_char(client, '[') == client);
    assert(trim_char(client, ']') == client);
}

/// A header is logged with all of its values, in their order, each as it is shown.
pub proof fn headers_are_logged_with_all_their_values(
    entries: Seq<(Seq<char>, Seq<u8>)>,
    policy: HeaderLogPolicy,
    name: Seq<char>,
    i: int,
)
    requires
        policy.logs(name),
        0 <= i < values_named(entries, name).len(),
    ensures
        logged_headers(entries, policy).dom().contains(name),
        logged_headers(entries, policy)[name] is List,
        logged_headers(entries, policy)[name]->List_0.len() == values_named(entries, name).len(),
        logged_headers(entries, policy)[name]->List_0[i] == shown_value(
            values_named(entries, name)[i],
        ),
        shown_named(entries, name) == Some(shown_value(values_named(entries, name)[0])),
{
}

/// A header that is not there is not shown, and one that the policy does not log is not logged.
pub proof fn other_headers_are_not_logged(
    entries: Seq<(Seq<char>, Seq<u8>)>,
    policy: HeaderLogPolicy,
    name: Seq<char>,
)
    ensures
        values_named(entries, name).len() == 0 ==> shown_named(entries, name) is None
            && !logged_headers(entries, policy).dom().contains(name),
        !policy.logs(name) ==> !logged_headers(entries, policy).dom().contains(name),
{
}

/// The length of a body is what its `content-length` header states in decimal, and nothing where it
/// states none or no number.
pub proof fn lengths_are_what_is_stated(entries: Seq<(Seq<char>, Seq<u8>)>, n: nat)
    ensures
        text_named(entries, "content-length"@) is None ==> stated_length(entries) is None,
        text_named(entries, "content-length"@) == Some(crate::number::decimal_text(n)) && n
            <= i64::MAX ==> stated_length(entries) == Some(n as int),
        text_named(entries, "content-length"@) matches Some(text) ==> (crate::number::decimal_value(
            text,
            true,
        ) is None ==> stated_length(entries) is None),
{
    crate::number::decimal_text_reads_back(n);
}

/// A parameter is what stands behind its key in the first piece that begins with the key.
pub proof fn parameters_stand_behind_their_key(
    piece: Seq<char>,
    rest: Seq<Seq<char>>,
    key: Seq<char>,
    value: Seq<char>,
)
    ensures
        parameter(Seq::empty(), key) is None,
        trim(piece) == key + value ==> parameter(seq![piece] + rest, key) == Some(value),
        !key.is_prefix_of(trim(piece)) ==> parameter(seq![piece] + rest, key) == parameter(rest, key),
{
    let parts = seq![piece] + rest;
    assert(parts[0] == piece);
    assert(parts.skip(1) =~= rest);
    if trim(piece) == key + value {
        assert(trim(piece).subrange(0, key.len() as int) =~= key);
        assert(trim(piece).skip(key.len() as int) =~= value);
    }
}

/// Without a client in a `forwarded` header, the client is the first that an `x-forwarded-for`
/// header names; without either no client was named. The scheme likewise is that of a `forwarded`
/// header, or else that of an `x-forwarded-proto` header.
pub proof fn other_headers_name_clients_and_schemes(
    entries: Seq<(Seq<char>, Seq<u8>)>,
    first: Seq<char>,
    rest: Seq<char>,
)
    requires
        text_named(entries, "forwarded"@) is None,
        !first.contains(','),
    ensures
        text_named(entries, "x-forwarded-for"@) is None ==> forwarded_client(entries) is None,
        text_named(entries, "x-forwarded-for"@) == Some(first) ==> forwarded_client(entries) == Some(
            trim(first),
        ),
        text_named(entries, "x-forwarded-for"@) == Some(first + seq![','] + rest)
            ==> forwarded_client(entries) == Some(trim(first)),
        forwarded_scheme(entries) == text_named(entries, "x-forwarded-proto"@),
{
    let whole = first + seq![','] + rest;
    let n = first.len() as int;
    assert forall|j: int| 0 <= j < n implies first[j] != ',' by {
        assert(first.contains(first[j]));
    }
    crate::text::lemma_first_at(first, ',', n);
    assert forall|j: int| 0 <= j < n implies whole[j] != ',' by {
        assert(whole[j] == first[j]);
    }
    crate::text::lemma_first_at(whole, ',', n);
    assert(first.take(n) =~= first);
    assert(whole.take(n) =~= first);
}

/// A `forwarded` header without the parameter leaves the word to the other headers; one with it
/// decides, quotes around the value aside.
pub proof fn forwarded_headers_decide(entries: Seq<(Seq<char>, Seq<u8>)>, value: Seq<char>)
    requires
        text_named(entries, "forwarded"@) is Some,
    ensures
        ({
            let parts = split(text_named(entries, "forwarded"@)->0, ';');
            &&& parameter(parts, "proto="@) is None ==> forwarded_scheme(entries) == text_named(
                entries,
                "x-forwarded-proto"@,
            )
            &&& parameter(parts, "proto="@) == Some(value) ==> forwarded_scheme(entries) == Some(
                trim_char(value, '"'),
            )
            &&& parameter(parts, "for="@) == Some(value) ==> forwarded_client(entries) == Some(
                trim_char(trim_char(trim_char(value, '"'), '['), ']'),
            )
            &&& parameter(parts, "for="@) is None && text_named(entries, "x-forwarded-for"@) is None
                ==> forwarded_client(entries) is None
        }),
{
}

/// A cookie that a response sets without attributes is logged without any.
pub proof fn cookies_without_attributes_have_none(raw: Seq<char>)
    requires
        !raw.contains(';'),
    ensures
        set_cookie_object(raw)["attributes"@] == FieldView::Object(
            Map::<Seq<char>, LeafView>::empty(),
        ),
{
    reveal_strlit("attributes");
    reveal_strlit("raw");
    assert("attributes"@.len() == 10 && "raw"@.len() == 3);
    cutting_goes_from_mark_to_mark(raw, ';', Seq::empty());
    assert(seq![raw].skip(1) =~= Seq::<Seq<char>>::empty());
}

} // verus!
