//! Text as sequences of characters: trimming, splitting, replacing, and the decimal
//! notation of integers.
use vstd::prelude::*;

verus! {

/// `String::push` puts the character behind the text.
pub assume_specification[ String::push ](text: &mut String, c: char)
    ensures
        final(text)@ == old(text)@.push(c),
;

/// The texts of a list of strings.
pub open spec fn texts(list: Seq<String>) -> Seq<Seq<char>> {
    list.map_values(|text: String| text@)
}

/// The text of an optional string.
pub open spec fn opt_text(text: Option<String>) -> Option<Seq<char>> {
    match text {
        Some(text) => Some(text@),
        None => None,
    }
}

/// The text of an optional string slice.
pub open spec fn opt_str(text: Option<&str>) -> Option<Seq<char>> {
    match text {
        Some(text) => Some(text@),
        None => None,
    }
}

/// The characters of a text.
pub fn chars_of(text: &str) -> (chars: Vec<char>)
    ensures
        chars@ == text@,
{
    let mut chars: Vec<char> = Vec::new();
    for c in it: text.chars()
        invariant
            chars@ == it.seq().take(it.index() as int),
            it.seq() == text@,
    {
        chars.push(c);
    }
    chars
}

/// The text that characters spell.
pub fn text_of(chars: &[char]) -> (text: String)
    ensures
        text@ == chars@,
{
    let mut text = String::new();
    let mut i: usize = 0;
    while i < chars.len()
        invariant
            i <= chars.len(),
            text@ == chars@.take(i as int),
        decreases chars.len() - i,
    {
        text.push(chars[i]);
        i += 1;
    }
    text
}

/// Whether two texts are the same.
pub fn same_text(a: &str, b: &str) -> (same: bool)
    ensures
        same == (a@ == b@),
{
    a.to_owned() == b.to_owned()
}

/// Two texts, one behind the other.
pub fn joined(a: &str, b: &str) -> (text: String)
    ensures
        text@ == a@ + b@,
{
    let mut text = a.to_owned();
    text.append(b);
    text
}

/// A copy of an optional string.
pub fn copy_text(text: &Option<String>) -> (copy: Option<String>)
    ensures
        copy == *text,
{
    match text {
        Some(text) => Some(text.clone()),
        None => None,
    }
}

/// A copy of a list of strings.
pub fn copy_list(list: &Vec<String>) -> (copy: Vec<String>)
    ensures
        copy@ == list@,
{
    let mut copy: Vec<String> = Vec::new();
    let mut i: usize = 0;
    while i < list.len()
        invariant
            i <= list.len(),
            copy@ == list@.take(i as int),
        decreases list.len() - i,
    {
        copy.push(list[i].clone());
        i += 1;
    }
    copy
}

/// The index of a text in a list of strings, counted from the front.
pub fn position_of(list: &Vec<String>, wanted: &str) -> (position: Option<usize>)
    ensures
        match position {
            Some(i) => i < list.len() && list[i as int]@ == wanted@ && forall|j: int|
                0 <= j < i ==> list[j]@ != wanted@,
            None => !texts(list@).contains(wanted@),
        },
{
    let mut i: usize = 0;
    while i < list.len()
        invariant
            i <= list.len(),
            forall|j: int| 0 <= j < i ==> list[j]@ != wanted@,
        decreases list.len() - i,
    {
        if same_text(list[i].as_str(), wanted) {
            return Some(i);
        }
        i += 1;
    }
    assert forall|j: int| 0 <= j < texts(list@).len() implies texts(list@)[j] != wanted@ by {
        assert(texts(list@)[j] == list[j]@);
    }
    None
}

// ---------------------------------------------------------------------------
// Bytes
// ---------------------------------------------------------------------------

/// The text that `String::from_utf8_lossy` reads from bytes.
pub uninterp spec fn lossy_text(bytes: Seq<u8>) -> Seq<char>;

/// `String::from_utf8_lossy` reads bytes as UTF-8. Where they are UTF-8 it gives the text they
/// encode; what it puts in place of other bytes is not spelled out here.
#[verifier::external_body]
pub(crate) fn read_lossy(bytes: &[u8]) -> (text: String)
    ensures
        text@ == lossy_text(bytes@),
        vstd::utf8::valid_utf8(bytes@) ==> text@ == vstd::utf8::decode_utf8(bytes@),
{
    String::from_utf8_lossy(bytes).into_owned()
}

/// The UTF-8 bytes of a text.
pub fn bytes_of(text: &str) -> (bytes: Vec<u8>)
    ensures
        bytes@ == vstd::utf8::encode_utf8(text@),
{
    copy_bytes(text.as_bytes())
}

/// A copy of bytes.
pub fn copy_bytes(bytes: &[u8]) -> (copy: Vec<u8>)
    ensures
        copy@ == bytes@,
{
    let mut copy: Vec<u8> = Vec::new();
    let mut i: usize = 0;
    while i < bytes.len()
        invariant
            i <= bytes.len(),
            copy@ == bytes@.take(i as int),
        decreases bytes.len() - i,
    {
        copy.push(bytes[i]);
        i += 1;
    }
    copy
}

// ---------------------------------------------------------------------------
// Letter case
// ---------------------------------------------------------------------------

/// An ASCII capital letter in lower case, any other character unchanged.
pub open spec fn lower_char(c: char) -> char {
    if 'A' <= c <= 'Z' {
        ((c as u32) + 32) as char
    } else {
        c
    }
}

/// A text with its ASCII letters in lower case.
pub open spec fn lower(s: Seq<char>) -> Seq<char> {
    s.map_values(|c: char| lower_char(c))
}

/// An ASCII small letter in upper case, any other character unchanged.
pub open spec fn upper_char(c: char) -> char {
    if 'a' <= c <= 'z' {
        ((c as u32) - 32) as char
    } else {
        c
    }
}

/// A text with its ASCII letters in upper case.
pub open spec fn upper(s: Seq<char>) -> Seq<char> {
    s.map_values(|c: char| upper_char(c))
}

pub fn to_lower(chars: &[char]) -> (lowered: Vec<char>)
    ensures
        lowered@ == lower(chars@),
{
    let mut lowered: Vec<char> = Vec::new();
    let mut i: usize = 0;
    while i < chars.len()
        invariant
            i <= chars.len(),
            lowered@ == lower(chars@.take(i as int)),
        decreases chars.len() - i,
    {
        let c = chars[i];
        if 'A' <= c && c <= 'Z' {
            lowered.push((c as u8 + 32) as char);
        } else {
            lowered.push(c);
        }
        i += 1;
    }
    assert(chars@.take(i as int) == chars@);
    lowered
}

/// A text with its ASCII letters in lower case.
pub fn lowered(text: &str) -> (result: String)
    ensures
        result@ == lower(text@),
{
    text_of(to_lower(chars_of(text).as_slice()).as_slice())
}

/// A text with its ASCII letters in upper case.
pub fn uppered(text: &str) -> (result: String)
    ensures
        result@ == upper(text@),
{
    let chars = chars_of(text);
    let mut raised: Vec<char> = Vec::new();
    let mut i: usize = 0;
    while i < chars.len()
        invariant
            i <= chars.len(),
            raised@ == upper(chars@.take(i as int)),
        decreases chars.len() - i,
    {
        let c = chars[i];
        if 'a' <= c && c <= 'z' {
            raised.push((c as u8 - 32) as char);
        } else {
            raised.push(c);
        }
        i += 1;
    }
    assert(chars@.take(i as int) == chars@);
    text_of(raised.as_slice())
}

/// Lower case is stable: lowering twice is lowering once.
pub proof fn lower_is_idempotent(s: Seq<char>)
    ensures
        lower(lower(s)) == lower(s),
{
    assert(lower(lower(s)) =~= lower(s));
}

// ---------------------------------------------------------------------------
// Trimming
// ---------------------------------------------------------------------------

/// A character of Unicode's `White_Space` property.
pub open spec fn is_space(c: char) -> bool {
    let n = c as u32;
    ||| 0x09 <= n <= 0x0d
    ||| n == 0x20
    ||| n == 0x85
    ||| n == 0xa0
    ||| n == 0x1680
    ||| 0x2000 <= n <= 0x200a
    ||| n == 0x2028
    ||| n == 0x2029
    ||| n == 0x202f
    ||| n == 0x205f
    ||| n == 0x3000
}

/// A text without the characters at its front for which `cut` holds.
pub open spec fn trim_start_by(s: Seq<char>, cut: spec_fn(char) -> bool) -> Seq<char>
    decreases s.len(),
{
    if s.len() > 0 && cut(s[0]) {
        trim_start_by(s.skip(1), cut)
    } else {
        s
    }
}

/// A text without the characters at its end for which `cut` holds.
pub open spec fn trim_end_by(s: Seq<char>, cut: spec_fn(char) -> bool) -> Seq<char>
    decreases s.len(),
{
    if s.len() > 0 && cut(s.last()) {
        trim_end_by(s.drop_last(), cut)
    } else {
        s
    }
}

/// Being the one character `edge`.
pub open spec fn equals(edge: char) -> spec_fn(char) -> bool {
    |c: char| c == edge
}

/// A text without the white space around it.
pub open spec fn trim(s: Seq<char>) -> Seq<char> {
    trim_end_by(trim_start_by(s, |c: char| is_space(c)), |c: char| is_space(c))
}

/// A text without the copies of `edge` around it.
pub open spec fn trim_char(s: Seq<char>, edge: char) -> Seq<char> {
    trim_end_by(trim_start_by(s, equals(edge)), equals(edge))
}

/// A text without the copies of `edge` at its end.
pub open spec fn trim_end_char(s: Seq<char>, edge: char) -> Seq<char> {
    trim_end_by(s, equals(edge))
}

/// Trimming the front stops at the first character that stays.
proof fn lemma_trim_start(s: Seq<char>, cut: spec_fn(char) -> bool, i: int)
    requires
        0 <= i <= s.len(),
        forall|j: int| 0 <= j < i ==> cut(#[trigger] s[j]),
        i < s.len() ==> !cut(s[i]),
    ensures
        trim_start_by(s, cut) == s.skip(i),
    decreases i,
{
    if i > 0 {
        let rest = s.skip(1);
        assert forall|j: int| 0 <= j < i - 1 implies cut(#[trigger] rest[j]) by {
            assert(rest[j] == s[j + 1]);
        }
        assert(cut(s[0]));
        lemma_trim_start(rest, cut, i - 1);
        assert(rest.skip(i - 1) == s.skip(i));
    } else {
        assert(s.skip(0) == s);
    }
}

/// Trimming the end stops at the last character that stays.
proof fn lemma_trim_end(s: Seq<char>, cut: spec_fn(char) -> bool, i: int)
    requires
        0 <= i <= s.len(),
        forall|j: int| i <= j < s.len() ==> cut(#[trigger] s[j]),
        i > 0 ==> !cut(s[i - 1]),
    ensures
        trim_end_by(s, cut) == s.take(i),
    decreases s.len() - i,
{
    if i < s.len() {
        assert(cut(s[s.len() - 1]));
        lemma_trim_end(s.drop_last(), cut, i);
        assert(s.drop_last().take(i) == s.take(i));
    } else {
        assert(s.take(i) == s);
    }
}

/// Whether a character is white space.
pub fn space(c: char) -> (result: bool)
    ensures
        result == is_space(c),
{
    let n: u32 = c as u32;
    (0x09 <= n && n <= 0x0d) || n == 0x20 || n == 0x85 || n == 0xa0 || n == 0x1680 || (0x2000 <= n
        && n <= 0x200a) || n == 0x2028 || n == 0x2029 || n == 0x202f || n == 0x205f || n == 0x3000
}

/// The part of a text between the white space around it.
pub fn trimmed(chars: &[char]) -> (part: &[char])
    ensures
        part@ == trim(chars@),
{
    let ghost cut = |c: char| is_space(c);
    let mut lo: usize = 0;
    while lo < chars.len() && space(chars[lo])
        invariant
            lo <= chars.len(),
            forall|j: int| 0 <= j < lo ==> cut(#[trigger] chars@[j]),
            cut == (|c: char| is_space(c)),
        decreases chars.len() - lo,
    {
        lo += 1;
    }
    proof {
        lemma_trim_start(chars@, cut, lo as int);
    }
    let mut hi: usize = chars.len();
    while hi > lo && space(chars[hi - 1])
        invariant
            lo <= hi <= chars.len(),
            forall|j: int| hi <= j < chars.len() ==> cut(#[trigger] chars@[j]),
            cut == (|c: char| is_space(c)),
        decreases hi,
    {
        hi -= 1;
    }
    proof {
        let rest = chars@.skip(lo as int);
        assert forall|j: int| hi - lo <= j < rest.len() implies cut(#[trigger] rest[j]) by {
            assert(rest[j] == chars@[j + lo]);
        }
        lemma_trim_end(rest, cut, hi - lo);
        assert(rest.take(hi - lo) == chars@.subrange(lo as int, hi as int));
    }
    &chars[lo..hi]
}

/// The part of a text between the copies of `edge` around it.
pub fn trimmed_of(chars: &[char], edge: char) -> (part: &[char])
    ensures
        part@ == trim_char(chars@, edge),
{
    let ghost cut = equals(edge);
    let mut lo: usize = 0;
    while lo < chars.len() && chars[lo] == edge
        invariant
            lo <= chars.len(),
            forall|j: int| 0 <= j < lo ==> cut(#[trigger] chars@[j]),
            cut == equals(edge),
        decreases chars.len() - lo,
    {
        lo += 1;
    }
    proof {
        lemma_trim_start(chars@, cut, lo as int);
    }
    let part = vstd::slice::slice_subrange(chars, lo, chars.len());
    assert(part@ == chars@.skip(lo as int));
    trimmed_end_of(part, edge)
}

/// The part of a text before the copies of `edge` at its end.
pub fn trimmed_end_of(chars: &[char], edge: char) -> (part: &[char])
    ensures
        part@ == trim_end_char(chars@, edge),
{
    let ghost cut = equals(edge);
    let mut hi: usize = chars.len();
    while hi > 0 && chars[hi - 1] == edge
        invariant
            hi <= chars.len(),
            forall|j: int| hi <= j < chars.len() ==> cut(#[trigger] chars@[j]),
            cut == equals(edge),
        decreases hi,
    {
        hi -= 1;
    }
    proof {
        lemma_trim_end(chars@, cut, hi as int);
        assert(chars@.take(hi as int) == chars@.subrange(0, hi as int));
    }
    &chars[0..hi]
}

/// A text without the white space around it, as a string of its own.
pub fn trimmed_text(text: &str) -> (result: String)
    ensures
        result@ == trim(text@),
{
    text_of(trimmed(chars_of(text).as_slice()))
}

// ---------------------------------------------------------------------------
// Splitting
// ---------------------------------------------------------------------------

/// The index of the first `mark` in a text, or its length where there is none.
pub open spec fn first_at(s: Seq<char>, mark: char) -> int
    decreases s.len(),
{
    if s.len() == 0 || s[0] == mark {
        0
    } else {
        1 + first_at(s.skip(1), mark)
    }
}

/// The index of the last `mark` in a text, or -1 where there is none.
pub open spec fn last_at(s: Seq<char>, mark: char) -> int
    decreases s.len(),
{
    if s.len() == 0 || s.last() == mark {
        s.len() - 1
    } else {
        last_at(s.drop_last(), mark)
    }
}

/// The first mark is where a mark stands and none before it.
pub proof fn lemma_first_at(s: Seq<char>, mark: char, i: int)
    requires
        0 <= i <= s.len(),
        forall|j: int| 0 <= j < i ==> s[j] != mark,
        i < s.len() ==> s[i] == mark,
    ensures
        first_at(s, mark) == i,
    decreases i,
{
    if i > 0 {
        let rest = s.skip(1);
        assert forall|j: int| 0 <= j < i - 1 implies rest[j] != mark by {
            assert(rest[j] == s[j + 1]);
        }
        lemma_first_at(rest, mark, i - 1);
    }
}

/// The last mark is where a mark stands and none behind it.
pub proof fn lemma_last_at(s: Seq<char>, mark: char, i: int)
    requires
        -1 <= i < s.len(),
        forall|j: int| i < j < s.len() ==> s[j] != mark,
        i >= 0 ==> s[i] == mark,
    ensures
        last_at(s, mark) == i,
    decreases s.len(),
{
    if i < s.len() - 1 {
        lemma_last_at(s.drop_last(), mark, i);
    }
}

/// What the index of the first mark says of a text.
pub proof fn lemma_first_at_bounds(s: Seq<char>, mark: char)
    ensures
        0 <= first_at(s, mark) <= s.len(),
        first_at(s, mark) < s.len() ==> s[first_at(s, mark)] == mark,
        forall|j: int| 0 <= j < first_at(s, mark) ==> s[j] != mark,
    decreases s.len(),
{
    if s.len() > 0 && s[0] != mark {
        let rest = s.skip(1);
        lemma_first_at_bounds(rest, mark);
        assert forall|j: int| 0 <= j < first_at(s, mark) implies s[j] != mark by {
            if j > 0 {
                assert(rest[j - 1] == s[j]);
            }
        }
    }
}

/// What stands before and behind the first `mark` of a text.
pub open spec fn split_once(s: Seq<char>, mark: char) -> Option<(Seq<char>, Seq<char>)> {
    let i = first_at(s, mark);
    if i < s.len() {
        Some((s.take(i), s.skip(i + 1)))
    } else {
        None
    }
}

/// What stands before and behind the last `mark` of a text.
pub open spec fn rsplit_once(s: Seq<char>, mark: char) -> Option<(Seq<char>, Seq<char>)> {
    let i = last_at(s, mark);
    if i >= 0 {
        Some((s.take(i), s.skip(i + 1)))
    } else {
        None
    }
}

/// The pieces of a text between its marks.
pub open spec fn split(s: Seq<char>, mark: char) -> Seq<Seq<char>>
    decreases s.len(),
{
    let i = first_at(s, mark);
    if i < s.len() {
        proof {
            lemma_first_at_bounds(s, mark);
        }
        seq![s.take(i)] + split(s.skip(i + 1), mark)
    } else {
        seq![s]
    }
}

/// The index of the first `mark`, or the length where there is none.
pub fn find(chars: &[char], mark: char) -> (i: usize)
    ensures
        i == first_at(chars@, mark),
        i <= chars.len(),
{
    let mut i: usize = 0;
    while i < chars.len() && chars[i] != mark
        invariant
            i <= chars.len(),
            forall|j: int| 0 <= j < i ==> chars@[j] != mark,
        decreases chars.len() - i,
    {
        i += 1;
    }
    proof {
        lemma_first_at(chars@, mark, i as int);
    }
    i
}

/// The index of the last `mark`.
pub fn rfind(chars: &[char], mark: char) -> (found: Option<usize>)
    ensures
        match found {
            Some(i) => i < chars.len() && i == last_at(chars@, mark),
            None => last_at(chars@, mark) == -1,
        },
{
    let mut i: usize = chars.len();
    while i > 0
        invariant
            i <= chars.len(),
            forall|j: int| i <= j < chars.len() ==> chars@[j] != mark,
        decreases i,
    {
        if chars[i - 1] == mark {
            proof {
                lemma_last_at(chars@, mark, i - 1);
            }
            return Some(i - 1);
        }
        i -= 1;
    }
    proof {
        lemma_last_at(chars@, mark, -1);
    }
    None
}

/// The two parts of a text around its first `mark`.
pub fn cut_once(chars: &[char], mark: char) -> (parts: Option<(&[char], &[char])>)
    ensures
        match parts {
            Some(parts) => split_once(chars@, mark) == Some((parts.0@, parts.1@)),
            None => split_once(chars@, mark) is None,
        },
{
    let i = find(chars, mark);
    if i < chars.len() {
        let front = vstd::slice::slice_subrange(chars, 0, i);
        let back = vstd::slice::slice_subrange(chars, i + 1, chars.len());
        assert(front@ == chars@.take(i as int));
        assert(back@ == chars@.skip(i + 1));
        Some((front, back))
    } else {
        None
    }
}

/// The two parts of a text around its last `mark`.
pub fn rcut_once(chars: &[char], mark: char) -> (parts: Option<(&[char], &[char])>)
    ensures
        match parts {
            Some(parts) => rsplit_once(chars@, mark) == Some((parts.0@, parts.1@)),
            None => rsplit_once(chars@, mark) is None,
        },
{
    match rfind(chars, mark) {
        Some(i) => {
            let front = vstd::slice::slice_subrange(chars, 0, i);
            let back = vstd::slice::slice_subrange(chars, i + 1, chars.len());
            assert(front@ == chars@.take(i as int));
            assert(back@ == chars@.skip(i + 1));
            Some((front, back))
        },
        None => None,
    }
}

/// The pieces of a text between its marks, from the front.
pub fn pieces<'a>(chars: &'a [char], mark: char) -> (parts: Vec<&'a [char]>)
    ensures
        parts@.map_values(|part: &[char]| part@) == split(chars@, mark),
{
    let ghost show = |part: &[char]| part@;
    let mut parts: Vec<&'a [char]> = Vec::new();
    let mut rest: &'a [char] = chars;
    loop
        invariant
            parts@.map_values(show) + split(rest@, mark) == split(chars@, mark),
            show == (|part: &[char]| part@),
        decreases rest.len(),
    {
        let ghost before = parts@;
        match cut_once(rest, mark) {
            Some((front, back)) => {
                proof {
                    lemma_first_at_bounds(rest@, mark);
                    assert(split(rest@, mark) == seq![front@] + split(back@, mark));
                    assert(before.push(front).map_values(show) =~= before.map_values(show).push(
                        front@,
                    ));
                    assert(before.map_values(show) + (seq![front@] + split(back@, mark))
                        =~= before.map_values(show).push(front@) + split(back@, mark));
                }
                parts.push(front);
                rest = back;
            },
            None => {
                proof {
                    lemma_first_at_bounds(rest@, mark);
                    assert(before.push(rest).map_values(show) =~= before.map_values(show)
                        + seq![rest@]);
                }
                parts.push(rest);
                return parts;
            },
        }
    }
}

/// Whether a text begins with another.
pub fn begins_with(chars: &[char], front: &[char]) -> (result: bool)
    ensures
        result == front@.is_prefix_of(chars@),
{
    if front.len() > chars.len() {
        return false;
    }
    let mut i: usize = 0;
    while i < front.len()
        invariant
            i <= front.len() <= chars.len(),
            forall|j: int| 0 <= j < i ==> chars@[j] == front@[j],
        decreases front.len() - i,
    {
        if chars[i] != front[i] {
            assert(chars@.subrange(0, front@.len() as int)[i as int] != front@[i as int]);
            return false;
        }
        i += 1;
    }
    assert(front@ == chars@.subrange(0, front@.len() as int));
    true
}

// ---------------------------------------------------------------------------
// Replacing
// ---------------------------------------------------------------------------

/// A text with `to` before each of its characters and at its end.
pub open spec fn interleave(s: Seq<char>, to: Seq<char>) -> Seq<char>
    decreases s.len(),
{
    if s.len() == 0 {
        to
    } else {
        to + seq![s[0]] + interleave(s.skip(1), to)
    }
}

/// A text with every `from` in it, read from the front without overlap, replaced by `to`. The
/// empty text stands before each character and at the end.
pub open spec fn replace_all(s: Seq<char>, from: Seq<char>, to: Seq<char>) -> Seq<char>
    decreases s.len(),
{
    if from.len() == 0 {
        interleave(s, to)
    } else if s.len() == 0 {
        s
    } else if from.is_prefix_of(s) {
        to + replace_all(s.skip(from.len() as int), from, to)
    } else {
        seq![s[0]] + replace_all(s.skip(1), from, to)
    }
}

/// Whether a text stands somewhere in another.
pub open spec fn occurs(s: Seq<char>, part: Seq<char>) -> bool {
    exists|i: int| 0 <= i <= s.len() && part.is_prefix_of(#[trigger] s.skip(i))
}

/// Puts the characters of `more` behind those of `chars`.
pub fn extend(chars: &mut Vec<char>, more: &[char])
    ensures
        final(chars)@ == old(chars)@ + more@,
{
    let ghost before = chars@;
    let mut k: usize = 0;
    while k < more.len()
        invariant
            k <= more.len(),
            chars@ == before + more@.take(k as int),
        decreases more.len() - k,
    {
        chars.push(more[k]);
        k += 1;
    }
    assert(more@.take(k as int) == more@);
}

/// Replaces every `from` in a text by `to`.
pub fn replaced(chars: &[char], from: &[char], to: &[char]) -> (result: Vec<char>)
    ensures
        result@ == replace_all(chars@, from@, to@),
{
    let mut result: Vec<char> = Vec::new();
    let mut i: usize = 0;
    assert(chars@.skip(0) == chars@);
    while i < chars.len()
        invariant
            i <= chars.len(),
            result@ + replace_all(chars@.skip(i as int), from@, to@) == replace_all(
                chars@,
                from@,
                to@,
            ),
        decreases chars.len() - i,
    {
        let rest = vstd::slice::slice_subrange(chars, i, chars.len());
        assert(rest@ == chars@.skip(i as int));
        let ghost before = result@;
        if from.len() > 0 && begins_with(rest, from) {
            extend(&mut result, to);
            proof {
                assert(rest@.skip(from@.len() as int) == chars@.skip(i + from.len()));
                let tail = replace_all(chars@.skip(i + from.len()), from@, to@);
                assert(before + (to@ + tail) == (before + to@) + tail);
            }
            i += from.len();
        } else {
            if from.len() == 0 {
                extend(&mut result, to);
            }
            let ghost led = result@;
            proof {
                assert(rest@.skip(1) == chars@.skip(i + 1));
                let tail = replace_all(chars@.skip(i + 1), from@, to@);
                assert(led.push(rest@[0]) + tail == led + (seq![rest@[0]] + tail));
                assert(before + (to@ + seq![rest@[0]] + tail) == (before + to@) + (seq![rest@[0]]
                    + tail));
            }
            result.push(chars[i]);
            i += 1;
        }
    }
    assert(chars@.skip(i as int) == Seq::<char>::empty());
    if from.len() == 0 {
        extend(&mut result, to);
    }
    result
}

/// Replaces every `from` in a text by `to`.
pub fn replaced_text(text: &str, from: &str, to: &str) -> (result: String)
    ensures
        result@ == replace_all(text@, from@, to@),
{
    text_of(
        replaced(
            chars_of(text).as_slice(),
            chars_of(from).as_slice(),
            chars_of(to).as_slice(),
        ).as_slice(),
    )
}

/// Replacing changes nothing in a text in which `from` does not stand.
pub proof fn replacing_what_is_absent_changes_nothing(
    s: Seq<char>,
    from: Seq<char>,
    to: Seq<char>,
)
    requires
        !occurs(s, from),
    ensures
        replace_all(s, from, to) == s,
    decreases s.len(),
{
    assert(s.skip(0) == s);
    if from.len() == 0 {
        assert(from.is_prefix_of(s));
    } else if s.len() > 0 {
        let rest = s.skip(1);
        assert forall|i: int| 0 <= i <= rest.len() implies !from.is_prefix_of(
            #[trigger] rest.skip(i),
        ) by {
            assert(rest.skip(i) == s.skip(i + 1));
        }
        replacing_what_is_absent_changes_nothing(rest, from, to);
        assert(seq![s[0]] + rest == s);
    }
}

/// Replacing a text by itself changes nothing.
pub proof fn replacing_by_itself_changes_nothing(s: Seq<char>, from: Seq<char>)
    ensures
        replace_all(s, from, from) == s,
    decreases s.len(),
{
    if from.len() == 0 {
        assert(from == Seq::<char>::empty());
        if s.len() > 0 {
            replacing_by_itself_changes_nothing(s.skip(1), from);
            assert(from + seq![s[0]] + s.skip(1) == s);
        }
    } else if s.len() > 0 {
        if from.is_prefix_of(s) {
            replacing_by_itself_changes_nothing(s.skip(from.len() as int), from);
            assert(from + s.skip(from.len() as int) == s);
        } else {
            replacing_by_itself_changes_nothing(s.skip(1), from);
            assert(seq![s[0]] + s.skip(1) == s);
        }
    }
}

// ---------------------------------------------------------------------------
// Laws
// ---------------------------------------------------------------------------

/// Replacing goes from occurrence to occurrence: what stands before the first occurrence of `from`
/// stays, `to` takes the place of the occurrence, and the text behind it is dealt with in the same
/// way.
pub proof fn replacing_goes_from_occurrence_to_occurrence(
    s: Seq<char>,
    from: Seq<char>,
    to: Seq<char>,
    i: int,
)
    requires
        from.len() > 0,
        0 <= i <= s.len() - from.len(),
        s.subrange(i, i + from.len()) == from,
        forall|j: int| 0 <= j < i ==> #[trigger] s.subrange(j, j + from.len()) != from,
    ensures
        replace_all(s, from, to) == s.take(i) + to + replace_all(
            s.skip(i + from.len()),
            from,
            to,
        ),
    decreases i,
{
    let n = from.len() as int;
    if i == 0 {
        assert(from.is_prefix_of(s));
        assert(s.take(0) + to =~= to);
    } else {
        let rest = s.skip(1);
        assert(s.subrange(0int, 0int + from.len()) != from);
        assert(!from.is_prefix_of(s));
        assert(rest.subrange(i - 1, i - 1 + from.len()) =~= s.subrange(i, i + from.len()));
        assert forall|j: int| 0 <= j < i - 1 implies #[trigger] rest.subrange(j, j + from.len())
            != from by {
            assert(rest.subrange(j, j + from.len()) =~= s.subrange(j + 1, j + 1 + from.len()));
        }
        replacing_goes_from_occurrence_to_occurrence(rest, from, to, i - 1);
        assert(rest.skip(i - 1 + n) =~= s.skip(i + n));
        let tail = replace_all(s.skip(i + n), from, to);
        assert(seq![s[0]] + (rest.take(i - 1) + to + tail) =~= s.take(i) + to + tail);
    }
}

/// A text in which `from` stands nowhere stays as it is.
pub proof fn replacing_leaves_other_texts(s: Seq<char>, from: Seq<char>, to: Seq<char>)
    requires
        from.len() > 0,
        forall|j: int|
            0 <= j <= s.len() - from.len() ==> #[trigger] s.subrange(j, j + from.len()) != from,
    ensures
        replace_all(s, from, to) == s,
{
    assert forall|i: int| 0 <= i <= s.len() implies !from.is_prefix_of(#[trigger] s.skip(i)) by {
        if from.is_prefix_of(s.skip(i)) {
            assert(s.subrange(i, i + from.len()) =~= s.skip(i).subrange(0, from.len() as int));
        }
    }
    replacing_what_is_absent_changes_nothing(s, from, to);
}

/// The empty text stands before each character and at the end.
pub proof fn replacing_the_empty_text(s: Seq<char>, to: Seq<char>)
    ensures
        replace_all(Seq::empty(), Seq::empty(), to) == to,
        s.len() > 0 ==> replace_all(s, Seq::empty(), to) == to + seq![s[0]] + replace_all(
            s.skip(1),
            Seq::empty(),
            to,
        ),
{
}

/// Cutting a text at its marks cuts before and behind each of them: what stands before the first
/// is the first piece, and what stands behind it makes the other pieces. Without a mark the text is
/// its only piece.
pub proof fn cutting_goes_from_mark_to_mark(front: Seq<char>, mark: char, rest: Seq<char>)
    requires
        !front.contains(mark),
    ensures
        split(front, mark) == seq![front],
        split(front + seq![mark] + rest, mark) == seq![front] + split(rest, mark),
        split_once(front, mark) is None,
        split_once(front + seq![mark] + rest, mark) == Some((front, rest)),
        rsplit_once(front, mark) is None,
        rsplit_once(rest + seq![mark] + front, mark) == Some((rest, front)),
{
    let s = front + seq![mark] + rest;
    let n = front.len() as int;
    assert forall|j: int| 0 <= j < n implies front[j] != mark by {
        assert(front.contains(front[j]));
    }
    lemma_first_at(front, mark, n);
    assert forall|j: int| 0 <= j < n implies s[j] != mark by {
        assert(s[j] == front[j]);
    }
    lemma_first_at(s, mark, n);
    assert(s.take(n) =~= front);
    assert(s.skip(n + 1) =~= rest);
    lemma_last_at(front, mark, -1);
    let t = rest + seq![mark] + front;
    assert forall|j: int| rest.len() < j < t.len() implies t[j] != mark by {
        assert(t[j] == front[j - rest.len() - 1]);
    }
    lemma_last_at(t, mark, rest.len() as int);
    assert(t.take(rest.len() as int) =~= rest);
    assert(t.skip(rest.len() as int + 1) =~= front);
}

/// Whether a stretch of a text is one of the pieces between its marks: it begins at the front or
/// behind a mark, ends at the end or before a mark, and holds none.
pub open spec fn is_piece(s: Seq<char>, mark: char, i: int, j: int) -> bool {
    &&& 0 <= i <= j <= s.len()
    &&& i == 0 || s[i - 1] == mark
    &&& j == s.len() || s[j] == mark
    &&& forall|k: int| i <= k < j ==> s[k] != mark
}

/// Every stretch between marks is a piece.
pub proof fn stretches_are_pieces(s: Seq<char>, mark: char, i: int, j: int)
    requires
        is_piece(s, mark, i, j),
    ensures
        split(s, mark).contains(s.subrange(i, j)),
    decreases s.len(),
{
    let n = first_at(s, mark);
    lemma_first_at_bounds(s, mark);
    if n < s.len() {
        let rest = s.skip(n + 1);
        let pieces = split(s, mark);
        if i == 0 {
            if j < n {
                assert(s[j] == mark);
            }
            if j > n {
                assert(s[n] != mark);
            }
            assert(s.subrange(0, n) =~= s.take(n));
            assert(pieces[0] == s.subrange(i, j));
        } else {
            if i <= n {
                assert(s[i - 1] != mark);
            }
            let a = i - n - 1;
            let b = j - n - 1;
            assert forall|k: int| a <= k < b implies rest[k] != mark by {
                assert(s[k + n + 1] != mark);
            }
            assert(a == 0 || rest[a - 1] == s[i - 1]);
            assert(is_piece(rest, mark, a, b));
            stretches_are_pieces(rest, mark, a, b);
            assert(rest.subrange(a, b) =~= s.subrange(i, j));
            let k = choose|k: int|
                0 <= k < split(rest, mark).len() && split(rest, mark)[k] == s.subrange(i, j);
            assert(pieces[k + 1] == s.subrange(i, j));
        }
    } else {
        if i > 0 {
            assert(s[i - 1] != mark);
        }
        if j < s.len() {
            assert(s[j] != mark);
        }
        assert(s.subrange(0, s.len() as int) =~= s);
        assert(split(s, mark)[0] == s.subrange(i, j));
    }
}

/// Every piece is a stretch between marks.
pub proof fn pieces_are_stretches(s: Seq<char>, mark: char, piece: Seq<char>)
    requires
        split(s, mark).contains(piece),
    ensures
        exists|i: int, j: int| #[trigger] is_piece(s, mark, i, j) && piece == s.subrange(i, j),
    decreases s.len(),
{
    let n = first_at(s, mark);
    lemma_first_at_bounds(s, mark);
    let pieces = split(s, mark);
    let k = choose|k: int| 0 <= k < pieces.len() && pieces[k] == piece;
    if n < s.len() {
        let rest = s.skip(n + 1);
        if k == 0 {
            assert(is_piece(s, mark, 0, n));
            assert(s.subrange(0, n) =~= s.take(n));
        } else {
            assert(split(rest, mark)[k - 1] == piece);
            pieces_are_stretches(rest, mark, piece);
            let (a, b) = choose|a: int, b: int| #[trigger]
                is_piece(rest, mark, a, b) && piece == rest.subrange(a, b);
            assert(rest.subrange(a, b) =~= s.subrange(a + n + 1, b + n + 1));
            assert forall|q: int| a + n + 1 <= q < b + n + 1 implies s[q] != mark by {
                assert(rest[q - n - 1] == s[q]);
            }
            assert(a == 0 || s[a + n] == rest[a - 1]);
            assert(is_piece(s, mark, a + n + 1, b + n + 1));
        }
    } else {
        assert(s.subrange(0, s.len() as int) =~= s);
        assert(is_piece(s, mark, 0, s.len() as int));
    }
}

/// Trimming takes white space from both ends and nothing else: what begins and ends with other
/// characters, or is empty, is what remains of it with white space around it.
pub proof fn trimming_takes_white_space_around(front: Seq<char>, kept: Seq<char>, back: Seq<char>)
    requires
        forall|i: int| 0 <= i < front.len() ==> is_space(#[trigger] front[i]),
        forall|i: int| 0 <= i < back.len() ==> is_space(#[trigger] back[i]),
        kept.len() > 0 ==> !is_space(kept[0]) && !is_space(kept.last()),
    ensures
        trim(front + kept + back) == kept,
{
    let s = front + kept + back;
    let cut = |c: char| is_space(c);
    if kept.len() > 0 {
        let n = front.len() as int;
        assert forall|j: int| 0 <= j < n implies cut(#[trigger] s[j]) by {
            assert(s[j] == front[j]);
        }
        assert(s[n] == kept[0]);
        lemma_trim_start(s, cut, n);
        let t = s.skip(n);
        assert(t =~= kept + back);
        let m = kept.len() as int;
        assert forall|j: int| m <= j < t.len() implies cut(#[trigger] t[j]) by {
            assert(t[j] == back[j - m]);
        }
        assert(t[m - 1] == kept.last());
        lemma_trim_end(t, cut, m);
        assert(t.take(m) =~= kept);
    } else {
        let n = s.len() as int;
        assert forall|j: int| 0 <= j < n implies cut(#[trigger] s[j]) by {
            if j < front.len() {
                assert(s[j] == front[j]);
            } else {
                assert(s[j] == back[j - front.len()]);
            }
        }
        lemma_trim_start(s, cut, n);
        assert(s.skip(n) =~= kept);
        lemma_trim_end(kept, cut, 0);
        assert(kept.take(0) =~= kept);
    }
}

/// Of ASCII, white space is the space, the tab and what ends a line or a page; what can be seen is
/// none.
pub proof fn white_space_is_what_cannot_be_seen(c: char)
    requires
        (c as u32) < 0x80,
    ensures
        is_space(c) <==> c == ' ' || c == '\t' || c == '\n' || c == '\r' || c as u32 == 0x0b || c as u32
            == 0x0c,
        0x21 <= c as u32 <= 0x7e ==> !is_space(c),
{
}

/// Lower case changes the capitals of ASCII, letter by letter, and nothing else.
pub proof fn lower_case_changes_capitals_only(s: Seq<char>, i: int)
    requires
        0 <= i < s.len(),
    ensures
        lower(s).len() == s.len(),
        'A' <= s[i] <= 'Z' ==> lower(s)[i] as u32 == s[i] as u32 + 32,
        !('A' <= s[i] <= 'Z') ==> lower(s)[i] == s[i],
{
}

/// Upper case changes the small letters of ASCII, letter by letter, and nothing else.
pub proof fn upper_case_changes_small_letters_only(s: Seq<char>, i: int)
    requires
        0 <= i < s.len(),
    ensures
        upper(s).len() == s.len(),
        'a' <= s[i] <= 'z' ==> upper(s)[i] as u32 == s[i] as u32 - 32,
        !('a' <= s[i] <= 'z') ==> upper(s)[i] == s[i],
{
}

/// Trimming a character takes its copies from the ends and nothing else.
pub proof fn trimming_takes_copies_from_the_ends(
    front: Seq<char>,
    kept: Seq<char>,
    back: Seq<char>,
    edge: char,
)
    requires
        forall|i: int| 0 <= i < front.len() ==> #[trigger] front[i] == edge,
        forall|i: int| 0 <= i < back.len() ==> #[trigger] back[i] == edge,
        kept.len() > 0,
        kept[0] != edge,
        kept.last() != edge,
    ensures
        trim_char(front + kept + back, edge) == kept,
        trim_end_char(front + kept + back, edge) == front + kept,
{
    let s = front + kept + back;
    let cut = equals(edge);
    let n = front.len() as int;
    assert forall|j: int| 0 <= j < n implies cut(#[trigger] s[j]) by {
        assert(s[j] == front[j]);
    }
    assert(s[n] == kept[0]);
    lemma_trim_start(s, cut, n);
    let t = s.skip(n);
    let m = kept.len() as int;
    assert forall|j: int| m <= j < t.len() implies cut(#[trigger] t[j]) by {
        assert(t[j] == back[j - m]);
    }
    assert(t[m - 1] == kept.last());
    lemma_trim_end(t, cut, m);
    assert(t.take(m) =~= kept);
    assert forall|j: int| n + m <= j < s.len() implies cut(#[trigger] s[j]) by {
        assert(s[j] == back[j - n - m]);
    }
    assert(s[n + m - 1] == kept.last());
    lemma_trim_end(s, cut, n + m);
    assert(s.take(n + m) =~= front + kept);
}

/// Optional texts and lists of texts are taken for what they hold.
pub proof fn texts_are_what_they_hold(text: String, list: Seq<String>, i: int)
    ensures
        opt_text(Some(text)) == Some(text@),
        opt_text(None) is None,
        opt_str(None) is None,
        texts(list).len() == list.len(),
        0 <= i < list.len() ==> texts(list)[i] == list[i]@,
{
}

} // verus!
