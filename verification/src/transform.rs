//! Response transforms: ordered rules that rewrite the headers and the body of a response.
//!
//! A rule has a matcher, an action and a target. Rules whose target is among the headers run
//! while the response streams; the first matching rule that needs the body makes the response
//! wait until the body is there.
use crate::headers::{
    ascii_text, entry_views, header_entries, header_text, is_header_name, is_text, is_value, list_headers, names_header,
    set_header_at, text_named, text_of_value, valid_value, value_text,
};
use crate::text::{
    bytes_of, chars_of, find, first_at, joined, lossy_text, lower, lowered, read_lossy, replace_all,
    replaced_text, same_text, text_of, to_lower, trim, trimmed,
};
use rama::http::HeaderMap;
use vstd::prelude::*;
use vstd::utf8::encode_utf8;

verus! {

// ---------------------------------------------------------------------------
// Rules as they are written
// ---------------------------------------------------------------------------

/// Which responses a rule is written for.
#[derive(Debug, Clone)]
pub enum TransformMatcherFile {
    UrlGlob { pattern: String },
    ContentTypeGlob { pattern: String },
    Everything {  },
}

/// What a rule is written to do.
#[derive(Debug, Clone)]
pub enum TransformActionFile {
    Replace { from: String, to: String },
}

/// What a rule is written to rewrite.
#[derive(Debug, Clone)]
pub enum TransformTargetFile {
    Everything {  },
    Body {  },
    AllHeaders {  },
    Header { name: String },
    Cookies {  },
}

/// A rule as it is written.
#[derive(Debug, Clone)]
pub struct TransformRuleFile {
    pub matcher: TransformMatcherFile,
    pub action: TransformActionFile,
    pub target: TransformTargetFile,
    pub stop: bool,
}

// ---------------------------------------------------------------------------
// Rules as they run
// ---------------------------------------------------------------------------

/// Which responses a rule rewrites.
#[derive(Debug, Clone)]
pub enum TransformMatcher {
    UrlGlob(String),
    ContentTypeGlob(String),
    Everything,
}

/// What a rule does to a text.
#[derive(Debug, Clone)]
pub enum TransformAction {
    Replace { from: String, to: String },
}

/// What a rule rewrites.
#[derive(Debug, Clone)]
pub enum TransformTarget {
    Everything,
    Body,
    AllHeaders,
    Header(String),
    Cookies,
}

/// A rule that is ready to run.
#[derive(Debug, Clone)]
pub struct TransformRule {
    pub matcher: TransformMatcher,
    pub action: TransformAction,
    pub target: TransformTarget,
    pub stop: bool,
}

/// The rules of a proxy, in the order in which they run.
#[derive(Debug, Clone)]
pub struct TransformConfig {
    pub transforms: Vec<TransformRule>,
}

impl Default for TransformConfig {
    /// No rules.
    fn default() -> (config: TransformConfig)
        ensures
            config.transforms@ == Seq::<TransformRule>::empty(),
    {
        TransformConfig { transforms: Vec::new() }
    }
}

/// Whether a response streams on, or waits for its body at the rule with an index.
#[derive(Debug, Clone, Copy, PartialEq, Eq, Structural)]
pub enum PrebufferDisposition {
    Stream,
    BufferFrom(usize),
}

/// What the rules did before the body was needed.
#[derive(Debug, Clone, Copy, PartialEq, Eq, Structural)]
pub struct PrebufferOutcome {
    pub disposition: PrebufferDisposition,
    pub headers_changed: bool,
}

/// What the rules did to a response whose body was there.
#[derive(Debug, Clone, Copy, PartialEq, Eq, Structural)]
pub struct ApplyOutcome {
    pub headers_changed: bool,
    pub body_changed: bool,
}

/// What one rule did to a response whose body was there.
#[derive(Debug, Clone, Copy, PartialEq, Eq, Structural)]
pub struct RuleApplyOutcome {
    pub triggered: bool,
    pub headers_changed: bool,
    pub body_changed: bool,
}

/// Why a rule cannot be used, or cannot be applied to a response.
#[derive(Debug, Clone)]
pub enum TransformError {
    InvalidUrlGlob(String),
    InvalidContentTypeGlob(String),
    EmptyFrom,
    MissingHeaderName,
    InvalidHeaderName(String),
    HeaderNotText(String),
    RewrittenHeaderInvalid(String),
}

/// What a `TransformError` says.
pub ghost enum TransformFault {
    InvalidUrlGlob(Seq<char>),
    InvalidContentTypeGlob(Seq<char>),
    EmptyFrom,
    MissingHeaderName,
    InvalidHeaderName(Seq<char>),
    HeaderNotText(Seq<char>),
    RewrittenHeaderInvalid(Seq<char>),
}

impl View for TransformError {
    type V = TransformFault;

    open spec fn view(&self) -> TransformFault {
        match *self {
            TransformError::InvalidUrlGlob(p) => TransformFault::InvalidUrlGlob(p@),
            TransformError::InvalidContentTypeGlob(p) => TransformFault::InvalidContentTypeGlob(p@),
            TransformError::EmptyFrom => TransformFault::EmptyFrom,
            TransformError::MissingHeaderName => TransformFault::MissingHeaderName,
            TransformError::InvalidHeaderName(n) => TransformFault::InvalidHeaderName(n@),
            TransformError::HeaderNotText(n) => TransformFault::HeaderNotText(n@),
            TransformError::RewrittenHeaderInvalid(n) => TransformFault::RewrittenHeaderInvalid(n@),
        }
    }
}

impl TransformError {
    /// The message that describes the error.
    pub open spec fn message_text(self) -> Seq<char> {
        match self {
            TransformError::InvalidUrlGlob(p) => "invalid url_glob "@ + p@,
            TransformError::InvalidContentTypeGlob(p) => "invalid content_type_glob "@ + p@,
            TransformError::EmptyFrom => "replace transform requires a non-empty from value"@,
            TransformError::MissingHeaderName => "header target requires a header name"@,
            TransformError::InvalidHeaderName(n) => "invalid header target name "@ + n@,
            TransformError::HeaderNotText(n) => "response header "@ + n@ + " is not valid text"@,
            TransformError::RewrittenHeaderInvalid(n) => "rewritten response header "@ + n@
                + " is invalid"@,
        }
    }

    /// The message that describes the error.
    pub fn message(&self) -> (text: String)
        ensures
            text@ == self.message_text(),
    {
        match self {
            TransformError::InvalidUrlGlob(p) => joined("invalid url_glob ", p.as_str()),
            TransformError::InvalidContentTypeGlob(p) => joined(
                "invalid content_type_glob ",
                p.as_str(),
            ),
            TransformError::EmptyFrom => "replace transform requires a non-empty from value".to_owned(),
            TransformError::MissingHeaderName => "header target requires a header name".to_owned(),
            TransformError::InvalidHeaderName(n) => joined(
                "invalid header target name ",
                n.as_str(),
            ),
            TransformError::HeaderNotText(n) => joined(
                joined("response header ", n.as_str()).as_str(),
                " is not valid text",
            ),
            TransformError::RewrittenHeaderInvalid(n) => joined(
                joined("rewritten response header ", n.as_str()).as_str(),
                " is invalid",
            ),
        }
    }
}

// ---------------------------------------------------------------------------
// Glob patterns
// ---------------------------------------------------------------------------

/// Whether `glob::Pattern::new` takes a text for a pattern.
pub uninterp spec fn glob_compiles(pattern: Seq<char>) -> bool;

/// Whether a text is a pattern that `glob::Pattern::matches` finds to match another text.
pub uninterp spec fn glob_matches(pattern: Seq<char>, text: Seq<char>) -> bool;

/// `glob::Pattern::new` decides whether a text is a shell pattern. What makes a pattern is not
/// spelled out here.
#[verifier::external_body]
fn is_glob(pattern: &str) -> (accepted: bool)
    ensures
        accepted == glob_compiles(pattern@),
{
    glob::Pattern::new(pattern).is_ok()
}

/// `glob::Pattern::matches` decides whether a text matches a shell pattern as a whole; a text
/// that is no pattern matches nothing. What a pattern matches is not spelled out here.
#[verifier::external_body]
fn match_glob(pattern: &str, text: &str) -> (matched: bool)
    ensures
        matched == glob_matches(pattern@, text@),
        matched ==> glob_compiles(pattern@),
{
    match glob::Pattern::new(pattern) {
        Ok(pattern) => pattern.matches(text),
        Err(_) => false,
    }
}

// ---------------------------------------------------------------------------
// What rules do
// ---------------------------------------------------------------------------

/// The media type of a response: its content type up to the parameters, in lower case.
pub open spec fn content_type(entries: Seq<(Seq<char>, Seq<u8>)>) -> Option<Seq<char>> {
    match text_named(entries, "content-type"@) {
        Some(value) => {
            let media = lower(trim(value.take(first_at(value, ';'))));
            if media.len() > 0 {
                Some(media)
            } else {
                None
            }
        },
        None => None,
    }
}

impl TransformRule {
    /// Whether the rule is for a response to a request for `url` with these headers.
    pub open spec fn is_for(
        self,
        url: Seq<char>,
        entries: Seq<(Seq<char>, Seq<u8>)>,
    ) -> bool {
        match self.matcher {
            TransformMatcher::UrlGlob(pattern) => glob_matches(pattern@, url),
            TransformMatcher::ContentTypeGlob(pattern) => match content_type(entries) {
                Some(media) => glob_matches(pattern@, media),
                None => false,
            },
            TransformMatcher::Everything => true,
        }
    }

    /// Whether the rule rewrites bodies.
    pub open spec fn rewrites_body(self) -> bool {
        self.target is Body || self.target is Everything
    }

    /// Whether the rule rewrites the headers with a name.
    pub open spec fn selects(self, name: Seq<char>) -> bool {
        match self.target {
            TransformTarget::Everything => true,
            TransformTarget::Body => false,
            TransformTarget::AllHeaders => true,
            TransformTarget::Header(wanted) => name == wanted@,
            TransformTarget::Cookies => name == "set-cookie"@,
        }
    }

    /// The rule's action on a text.
    pub open spec fn rewrite(self, text: Seq<char>) -> Seq<char> {
        match self.action {
            TransformAction::Replace { from, to } => replace_all(text, from@, to@),
        }
    }

    /// The rule's action on one header.
    pub open spec fn rewrite_entry(self, entry: (Seq<char>, Seq<u8>)) -> Result<
        (Seq<char>, Seq<u8>),
        TransformFault,
    > {
        if !self.selects(entry.0) {
            Ok(entry)
        } else {
            match value_text(entry.1) {
                None => Err(TransformFault::HeaderNotText(entry.0)),
                Some(text) => {
                    let value = encode_utf8(self.rewrite(text));
                    if is_value(value) {
                        Ok((entry.0, value))
                    } else {
                        Err(TransformFault::RewrittenHeaderInvalid(entry.0))
                    }
                },
            }
        }
    }

    /// The rule's action on headers: each in its place, or the first failure.
    pub open spec fn rewrite_entries(self, entries: Seq<(Seq<char>, Seq<u8>)>) -> Result<
        Seq<(Seq<char>, Seq<u8>)>,
        TransformFault,
    >
        decreases entries.len(),
    {
        if entries.len() == 0 {
            Ok(entries)
        } else {
            match self.rewrite_entries(entries.drop_last()) {
                Err(fault) => Err(fault),
                Ok(front) => match self.rewrite_entry(entries.last()) {
                    Err(fault) => Err(fault),
                    Ok(entry) => Ok(front.push(entry)),
                },
            }
        }
    }

    /// Whether the rule's action changes a body.
    pub open spec fn changes_body(self, body: Seq<u8>) -> bool {
        self.rewrites_body() && self.rewrite(lossy_text(body)) != lossy_text(body)
    }

    /// The rule's action on a body.
    pub open spec fn rewrite_bytes(self, body: Seq<u8>) -> Seq<u8> {
        if self.changes_body(body) {
            encode_utf8(self.rewrite(lossy_text(body)))
        } else {
            body
        }
    }
}

/// A run over a front part that fails is how the whole run fails.
proof fn lemma_rewrite_fails(rule: TransformRule, entries: Seq<(Seq<char>, Seq<u8>)>, n: int)
    requires
        0 <= n <= entries.len(),
        rule.rewrite_entries(entries.take(n)) is Err,
    ensures
        rule.rewrite_entries(entries) == rule.rewrite_entries(entries.take(n)),
    decreases entries.len(),
{
    if n < entries.len() {
        assert(entries.drop_last().take(n) == entries.take(n));
        lemma_rewrite_fails(rule, entries.drop_last(), n);
    } else {
        assert(entries.take(n) == entries);
    }
}

/// Rewriting keeps the headers' names and their number, and touches only those that the rule
/// selects.
pub proof fn rewriting_keeps_header_names(
    rule: TransformRule,
    entries: Seq<(Seq<char>, Seq<u8>)>,
)
    ensures
        rule.rewrite_entries(entries) matches Ok(rewritten) ==> {
            &&& rewritten.len() == entries.len()
            &&& forall|i: int| 0 <= i < entries.len() ==> (#[trigger] rewritten[i]).0 == entries[i].0
            &&& forall|i: int|
                0 <= i < entries.len() && !rule.selects(entries[i].0) ==> #[trigger] rewritten[i]
                    == entries[i]
            &&& forall|i: int|
                0 <= i < entries.len() ==> rule.rewrite_entry(entries[i]) == Ok::<
                    (Seq<char>, Seq<u8>),
                    TransformFault,
                >(#[trigger] rewritten[i])
        },
    decreases entries.len(),
{
    if entries.len() > 0 {
        rewriting_keeps_header_names(rule, entries.drop_last());
    }
}

impl TransformRule {
    /// Whether the rule is for a response to a request for `request_url` with these headers.
    pub fn matches(&self, request_url: &str, headers: &HeaderMap) -> (result: bool)
        ensures
            result == self.is_for(request_url@, header_entries(*headers)),
    {
        match &self.matcher {
            TransformMatcher::UrlGlob(pattern) => match_glob(pattern.as_str(), request_url),
            TransformMatcher::ContentTypeGlob(pattern) => match normalized_content_type(headers) {
                Some(media) => match_glob(pattern.as_str(), media.as_str()),
                None => false,
            },
            TransformMatcher::Everything => true,
        }
    }

    /// Whether the rule rewrites bodies, so that a response has to wait for its body.
    pub fn requires_body(&self) -> (result: bool)
        ensures
            result == self.rewrites_body(),
    {
        match &self.target {
            TransformTarget::Body => true,
            TransformTarget::Everything => true,
            TransformTarget::AllHeaders => false,
            TransformTarget::Header(_) => false,
            TransformTarget::Cookies => false,
        }
    }

    /// The rule's action on a text.
    pub fn replace_text(&self, input: &str) -> (result: String)
        ensures
            result@ == self.rewrite(input@),
    {
        match &self.action {
            TransformAction::Replace { from, to } => replaced_text(
                input,
                from.as_str(),
                to.as_str(),
            ),
        }
    }

    /// Whether the rule rewrites the headers with a name.
    pub fn selects_header(&self, name: &str) -> (result: bool)
        ensures
            result == self.selects(name@),
    {
        match &self.target {
            TransformTarget::Everything => true,
            TransformTarget::Body => false,
            TransformTarget::AllHeaders => true,
            TransformTarget::Header(wanted) => same_text(name, wanted.as_str()),
            TransformTarget::Cookies => same_text(name, "set-cookie"),
        }
    }

    /// Works out what the rule makes of one header that it selects.
    fn rewritten_value(&self, name: &String, value: &Vec<u8>) -> (result: Result<
        Vec<u8>,
        TransformError,
    >)
        requires
            self.selects(name@),
        ensures
            match result {
                Ok(bytes) => self.rewrite_entry((name@, value@)) == Ok::<
                    (Seq<char>, Seq<u8>),
                    TransformFault,
                >((name@, bytes@)) && is_value(bytes@),
                Err(error) => self.rewrite_entry((name@, value@)) == Err::<
                    (Seq<char>, Seq<u8>),
                    TransformFault,
                >(error@),
            },
    {
        match text_of_value(value.as_slice()) {
            Some(text) => {
                let bytes = bytes_of(self.replace_text(text.as_str()).as_str());
                if valid_value(bytes.as_slice()) {
                    Ok(bytes)
                } else {
                    Err(TransformError::RewrittenHeaderInvalid(name.clone()))
                }
            },
            None => Err(TransformError::HeaderNotText(name.clone())),
        }
    }

    /// Rewrites the headers that the rule selects and says whether any of them changed. Where one
    /// of them cannot be rewritten, none is.
    pub fn apply_headers(&self, headers: &mut HeaderMap) -> (result: Result<bool, TransformError>)
        ensures
            match self.rewrite_entries(header_entries(*old(headers))) {
                Ok(rewritten) => result == Ok::<bool, TransformError>(
                    rewritten != header_entries(*old(headers)),
                ) && header_entries(*final(headers)) == rewritten,
                Err(fault) => (result matches Err(error) && error@ == fault) && header_entries(
                    *final(headers),
                ) == header_entries(*old(headers)),
            },
    {
        let ghost entries = header_entries(*headers);
        let list = list_headers(headers);
        let mut values: Vec<Option<Vec<u8>>> = Vec::new();
        let mut changed = false;
        let ghost mut rewritten: Seq<(Seq<char>, Seq<u8>)> = Seq::empty();
        let mut i: usize = 0;
        assert(entries.take(0) == Seq::<(Seq<char>, Seq<u8>)>::empty());
        while i < list.len()
            invariant
                i <= list.len(),
                *headers == *old(headers),
                entries == header_entries(*headers),
                entry_views(list@) == entries,
                values.len() == i,
                rewritten.len() == i,
                self.rewrite_entries(entries.take(i as int)) == Ok::<
                    Seq<(Seq<char>, Seq<u8>)>,
                    TransformFault,
                >(rewritten),
                changed == (rewritten != entries.take(i as int)),
                forall|j: int|
                    0 <= j < i ==> match #[trigger] values[j] {
                        Some(value) => rewritten[j] == (entries[j].0, value@) && is_value(value@),
                        None => rewritten[j] == entries[j],
                    },
            decreases list.len() - i,
        {
            let name = &list[i].0;
            let value = &list[i].1;
            proof {
                assert(entry_views(list@)[i as int] == (name@, value@));
                assert(entries.take(i + 1).drop_last() == entries.take(i as int));
                assert(entries.take(i + 1) == entries.take(i as int).push(entries[i as int]));
            }
            let ghost before = rewritten;
            if self.selects_header(name.as_str()) {
                match self.rewritten_value(name, value) {
                    Ok(bytes) => {
                        if !same_bytes(bytes.as_slice(), value.as_slice()) {
                            changed = true;
                        }
                        proof {
                            rewritten = before.push((name@, bytes@));
                            lemma_push_differs(before, entries.take(i as int), rewritten.last(), entries[i as int]);
                        }
                        values.push(Some(bytes));
                    },
                    Err(error) => {
                        proof {
                            lemma_rewrite_fails(*self, entries, i + 1);
                        }
                        return Err(error);
                    },
                }
            } else {
                proof {
                    rewritten = before.push(entries[i as int]);
                    lemma_push_differs(before, entries.take(i as int), rewritten.last(), entries[i as int]);
                }
                values.push(None);
            }
            i += 1;
        }
        assert(entries.take(i as int) == entries);
        if changed {
            let mut k: usize = 0;
            while k < values.len()
                invariant
                    k <= values.len(),
                    values.len() == entries.len(),
                    rewritten.len() == entries.len(),
                    header_entries(*headers) == rewritten.take(k as int) + entries.skip(k as int),
                    forall|j: int|
                        0 <= j < values.len() ==> match #[trigger] values[j] {
                            Some(value) => rewritten[j] == (entries[j].0, value@) && is_value(
                                value@,
                            ),
                            None => rewritten[j] == entries[j],
                        },
                decreases values.len() - k,
            {
                let ghost current = header_entries(*headers);
                if let Some(value) = &values[k] {
                    assert(current[k as int] == entries[k as int]);
                    set_header_at(headers, k, value.as_slice());
                }
                proof {
                    assert(current.update(k as int, rewritten[k as int]) =~= rewritten.take(k + 1)
                        + entries.skip(k + 1));
                    assert(current.update(k as int, current[k as int]) =~= current);
                }
                k += 1;
            }
            assert(rewritten.take(k as int) + entries.skip(k as int) =~= rewritten);
        }
        Ok(changed)
    }

    /// The rule's action on the text of a body: the new bytes, where the text changes.
    pub fn rewritten_body(&self, text: &str) -> (result: Option<Vec<u8>>)
        ensures
            match result {
                Some(bytes) => self.rewrite(text@) != text@ && bytes@ == encode_utf8(
                    self.rewrite(text@),
                ),
                None => self.rewrite(text@) == text@,
            },
    {
        let updated = self.replace_text(text);
        if same_text(updated.as_str(), text) {
            None
        } else {
            Some(bytes_of(updated.as_str()))
        }
    }

    /// Rewrites a body read as text, whatever the rule's target, and says whether it changed.
    pub fn apply_body(&self, body: &mut Vec<u8>) -> (changed: bool)
        ensures
            changed == (self.rewrite(lossy_text(old(body)@)) != lossy_text(old(body)@)),
            final(body)@ == if changed {
                encode_utf8(self.rewrite(lossy_text(old(body)@)))
            } else {
                old(body)@
            },
    {
        let text = read_lossy(body.as_slice());
        match self.rewritten_body(text.as_str()) {
            Some(bytes) => {
                *body = bytes;
                true
            },
            None => false,
        }
    }

    /// Applies the rule to a response whose body is there.
    pub fn apply(&self, headers: &mut HeaderMap, body: &mut Vec<u8>) -> (result: Result<
        RuleApplyOutcome,
        TransformError,
    >)
        ensures
            match self.rewrite_entries(header_entries(*old(headers))) {
                Ok(rewritten) => ({
                    &&& result matches Ok(outcome)
                    &&& outcome.headers_changed == (rewritten != header_entries(*old(headers)))
                    &&& outcome.body_changed == self.changes_body(old(body)@)
                    &&& outcome.triggered == (outcome.headers_changed || outcome.body_changed)
                    &&& header_entries(*final(headers)) == rewritten
                    &&& final(body)@ == self.rewrite_bytes(old(body)@)
                }),
                Err(fault) => ({
                    &&& result matches Err(error)
                    &&& error@ == fault
                    &&& header_entries(*final(headers)) == header_entries(*old(headers))
                    &&& final(body)@ == old(body)@
                }),
            },
    {
        match self.apply_headers(headers) {
            Ok(headers_changed) => {
                let body_changed = if self.requires_body() {
                    self.apply_body(body)
                } else {
                    false
                };
                Ok(
                    RuleApplyOutcome {
                        triggered: headers_changed || body_changed,
                        headers_changed,
                        body_changed,
                    },
                )
            },
            Err(error) => Err(error),
        }
    }
}

/// Whether two runs of bytes are the same.
fn same_bytes(a: &[u8], b: &[u8]) -> (same: bool)
    ensures
        same == (a@ == b@),
{
    if a.len() != b.len() {
        return false;
    }
    let mut i: usize = 0;
    while i < a.len()
        invariant
            i <= a.len(),
            a.len() == b.len(),
            forall|j: int| 0 <= j < i ==> a@[j] == b@[j],
        decreases a.len() - i,
    {
        if a[i] != b[i] {
            return false;
        }
        i += 1;
    }
    assert(a@ == b@);
    true
}

/// Two sequences with one more element each differ where their fronts or those elements do.
proof fn lemma_push_differs<T>(a: Seq<T>, b: Seq<T>, x: T, y: T)
    ensures
        (a.push(x) != b.push(y)) == (a != b || x != y),
{
    if a.push(x) == b.push(y) {
        assert(a.push(x).drop_last() == a);
        assert(b.push(y).drop_last() == b);
        assert(a.push(x).last() == x);
        assert(b.push(y).last() == y);
    }
}

/// The path and query of a request as one text.
pub open spec fn url_text(path: Seq<char>, query: Option<Seq<char>>) -> Seq<char> {
    match query {
        Some(query) if query.len() > 0 => path + "?"@ + query,
        _ => path,
    }
}

/// The path of a request, with its query where there is one that is not empty.
pub fn request_url(path: &str, query: Option<&str>) -> (url: String)
    ensures
        url@ == url_text(path@, crate::text::opt_str(query)),
{
    match query {
        Some(query) => {
            if chars_of(query).len() > 0 {
                joined(joined(path, "?").as_str(), query)
            } else {
                path.to_owned()
            }
        },
        None => path.to_owned(),
    }
}

/// The media type of a response: its content type up to the parameters, in lower case.
pub fn normalized_content_type(headers: &HeaderMap) -> (media: Option<String>)
    ensures
        crate::text::opt_text(media) == content_type(header_entries(*headers)),
{
    proof {
        reveal_strlit("content-type");
        assert(lower("content-type"@) =~= "content-type"@);
    }
    match header_text(headers, "content-type") {
        Some(value) => {
            let chars = chars_of(value.as_str());
            let end = find(chars.as_slice(), ';');
            let front = vstd::slice::slice_subrange(chars.as_slice(), 0, end);
            assert(front@ == value@.take(first_at(value@, ';')));
            let media = to_lower(trimmed(front));
            if media.len() > 0 {
                Some(text_of(media.as_slice()))
            } else {
                None
            }
        },
        None => None,
    }
}

// ---------------------------------------------------------------------------
// From written rules to running ones
// ---------------------------------------------------------------------------

impl TransformRuleFile {
    /// The first thing that is wrong with the written rule: with its matcher, its action, its
    /// target.
    pub open spec fn fault(self) -> Option<TransformFault> {
        self.fault_given(self.matcher.is_accepted())
    }

    /// The first thing that is wrong with the written rule, given whether the pattern of its
    /// matcher is one.
    pub open spec fn fault_given(self, accepted: bool) -> Option<TransformFault> {
        if let Some(fault) = self.matcher.fault_given(accepted) {
            Some(fault)
        } else if self.action.empty_from() {
            Some(TransformFault::EmptyFrom)
        } else {
            self.target.fault()
        }
    }

    /// Whether a rule does what the written one says.
    pub open spec fn describes(self, rule: TransformRule) -> bool {
        &&& match (self.matcher, rule.matcher) {
            (
                TransformMatcherFile::UrlGlob { pattern },
                TransformMatcher::UrlGlob(compiled),
            ) => compiled@ == pattern@,
            (
                TransformMatcherFile::ContentTypeGlob { pattern },
                TransformMatcher::ContentTypeGlob(compiled),
            ) => compiled@ == lower(pattern@),
            (TransformMatcherFile::Everything {  }, TransformMatcher::Everything) => true,
            _ => false,
        }
        &&& match (self.action, rule.action) {
            (
                TransformActionFile::Replace { from, to },
                TransformAction::Replace { from: rule_from, to: rule_to },
            ) => rule_from@ == from@ && rule_to@ == to@,
        }
        &&& match (self.target, rule.target) {
            (TransformTargetFile::Everything {  }, TransformTarget::Everything) => true,
            (TransformTargetFile::Body {  }, TransformTarget::Body) => true,
            (TransformTargetFile::AllHeaders {  }, TransformTarget::AllHeaders) => true,
            (TransformTargetFile::Header { name }, TransformTarget::Header(wanted)) => wanted@
                == lower(trim(name@)),
            (TransformTargetFile::Cookies {  }, TransformTarget::Cookies) => true,
            _ => false,
        }
        &&& rule.stop == self.stop
    }
}

impl TransformMatcherFile {
    /// Whether the pattern of the written matcher, where it has one, is one.
    pub open spec fn is_accepted(self) -> bool {
        match self {
            TransformMatcherFile::UrlGlob { pattern } => glob_compiles(pattern@),
            TransformMatcherFile::ContentTypeGlob { pattern } => glob_compiles(lower(pattern@)),
            TransformMatcherFile::Everything {  } => true,
        }
    }

    /// What is wrong with the written matcher, given whether its pattern is one.
    pub open spec fn fault_given(self, accepted: bool) -> Option<TransformFault> {
        match self {
            TransformMatcherFile::UrlGlob { pattern } if !accepted => Some(
                TransformFault::InvalidUrlGlob(pattern@),
            ),
            TransformMatcherFile::ContentTypeGlob { pattern } if !accepted => Some(
                TransformFault::InvalidContentTypeGlob(pattern@),
            ),
            _ => None,
        }
    }

    /// Whether the pattern of the written matcher, where it has one, is one.
    pub fn accepted(&self) -> (result: bool)
        ensures
            result == self.is_accepted(),
    {
        match self {
            TransformMatcherFile::UrlGlob { pattern } => is_glob(pattern.as_str()),
            TransformMatcherFile::ContentTypeGlob { pattern } => is_glob(
                lowered(pattern.as_str()).as_str(),
            ),
            TransformMatcherFile::Everything {  } => true,
        }
    }
}

impl TransformActionFile {
    /// Whether the written action has nothing to look for.
    pub open spec fn empty_from(self) -> bool {
        match self {
            TransformActionFile::Replace { from, to } => from@.len() == 0,
        }
    }
}

impl TransformTargetFile {
    /// What is wrong with the written target.
    pub open spec fn fault(self) -> Option<TransformFault> {
        match self {
            TransformTargetFile::Header { name } => {
                let wanted = lower(trim(name@));
                if wanted.len() == 0 {
                    Some(TransformFault::MissingHeaderName)
                } else if !is_header_name(wanted) {
                    Some(TransformFault::InvalidHeaderName(name@))
                } else {
                    None
                }
            },
            _ => None,
        }
    }
}

impl TransformRuleFile {
    /// Whether two written rules say the same.
    pub open spec fn says_same(self, other: TransformRuleFile) -> bool {
        &&& match (self.matcher, other.matcher) {
            (
                TransformMatcherFile::UrlGlob { pattern: a },
                TransformMatcherFile::UrlGlob { pattern: b },
            ) => a@ == b@,
            (
                TransformMatcherFile::ContentTypeGlob { pattern: a },
                TransformMatcherFile::ContentTypeGlob { pattern: b },
            ) => a@ == b@,
            (TransformMatcherFile::Everything {  }, TransformMatcherFile::Everything {  }) => true,
            _ => false,
        }
        &&& match (self.action, other.action) {
            (
                TransformActionFile::Replace { from: a, to: x },
                TransformActionFile::Replace { from: b, to: y },
            ) => a@ == b@ && x@ == y@,
        }
        &&& match (self.target, other.target) {
            (TransformTargetFile::Everything {  }, TransformTargetFile::Everything {  }) => true,
            (TransformTargetFile::Body {  }, TransformTargetFile::Body {  }) => true,
            (TransformTargetFile::AllHeaders {  }, TransformTargetFile::AllHeaders {  }) => true,
            (
                TransformTargetFile::Header { name: a },
                TransformTargetFile::Header { name: b },
            ) => a@ == b@,
            (TransformTargetFile::Cookies {  }, TransformTargetFile::Cookies {  }) => true,
            _ => false,
        }
        &&& self.stop == other.stop
    }

    /// A copy of the written rule.
    pub fn copy(&self) -> (copy: TransformRuleFile)
        ensures
            copy == *self,
    {
        let matcher = match &self.matcher {
            TransformMatcherFile::UrlGlob { pattern } => TransformMatcherFile::UrlGlob {
                pattern: pattern.clone(),
            },
            TransformMatcherFile::ContentTypeGlob { pattern } => {
                TransformMatcherFile::ContentTypeGlob { pattern: pattern.clone() }
            },
            TransformMatcherFile::Everything {  } => TransformMatcherFile::Everything {  },
        };
        let action = match &self.action {
            TransformActionFile::Replace { from, to } => TransformActionFile::Replace {
                from: from.clone(),
                to: to.clone(),
            },
        };
        let target = match &self.target {
            TransformTargetFile::Everything {  } => TransformTargetFile::Everything {  },
            TransformTargetFile::Body {  } => TransformTargetFile::Body {  },
            TransformTargetFile::AllHeaders {  } => TransformTargetFile::AllHeaders {  },
            TransformTargetFile::Header { name } => TransformTargetFile::Header {
                name: name.clone(),
            },
            TransformTargetFile::Cookies {  } => TransformTargetFile::Cookies {  },
        };
        TransformRuleFile { matcher, action, target, stop: self.stop }
    }

    /// Whether two written rules say the same.
    pub fn same_rule(&self, other: &TransformRuleFile) -> (same: bool)
        ensures
            same == self.says_same(*other),
    {
        let matcher = match (&self.matcher, &other.matcher) {
            (
                TransformMatcherFile::UrlGlob { pattern: a },
                TransformMatcherFile::UrlGlob { pattern: b },
            ) => same_text(a.as_str(), b.as_str()),
            (
                TransformMatcherFile::ContentTypeGlob { pattern: a },
                TransformMatcherFile::ContentTypeGlob { pattern: b },
            ) => same_text(a.as_str(), b.as_str()),
            (TransformMatcherFile::Everything {  }, TransformMatcherFile::Everything {  }) => true,
            _ => false,
        };
        let action = match (&self.action, &other.action) {
            (
                TransformActionFile::Replace { from: a, to: x },
                TransformActionFile::Replace { from: b, to: y },
            ) => same_text(a.as_str(), b.as_str()) && same_text(x.as_str(), y.as_str()),
        };
        let target = match (&self.target, &other.target) {
            (TransformTargetFile::Everything {  }, TransformTargetFile::Everything {  }) => true,
            (TransformTargetFile::Body {  }, TransformTargetFile::Body {  }) => true,
            (TransformTargetFile::AllHeaders {  }, TransformTargetFile::AllHeaders {  }) => true,
            (
                TransformTargetFile::Header { name: a },
                TransformTargetFile::Header { name: b },
            ) => same_text(a.as_str(), b.as_str()),
            (TransformTargetFile::Cookies {  }, TransformTargetFile::Cookies {  }) => true,
            _ => false,
        };
        matcher && action && target && self.stop == other.stop
    }
}

/// What a written matcher compiles to, given whether its pattern is one.
fn compile_matcher(matcher: &TransformMatcherFile, accepted: bool) -> (result: Result<
    TransformMatcher,
    TransformError,
>)
    ensures
        match result {
            Ok(compiled) => matcher.fault_given(accepted) is None && match (*matcher, compiled) {
                (
                    TransformMatcherFile::UrlGlob { pattern },
                    TransformMatcher::UrlGlob(text),
                ) => text@ == pattern@,
                (
                    TransformMatcherFile::ContentTypeGlob { pattern },
                    TransformMatcher::ContentTypeGlob(text),
                ) => text@ == lower(pattern@),
                (TransformMatcherFile::Everything {  }, TransformMatcher::Everything) => true,
                _ => false,
            },
            Err(error) => matcher.fault_given(accepted) == Some(error@),
        },
{
    match matcher {
        TransformMatcherFile::UrlGlob { pattern } => {
            if accepted {
                Ok(TransformMatcher::UrlGlob(pattern.clone()))
            } else {
                Err(TransformError::InvalidUrlGlob(pattern.clone()))
            }
        },
        TransformMatcherFile::ContentTypeGlob { pattern } => {
            if accepted {
                Ok(TransformMatcher::ContentTypeGlob(lowered(pattern.as_str())))
            } else {
                Err(TransformError::InvalidContentTypeGlob(pattern.clone()))
            }
        },
        TransformMatcherFile::Everything {  } => Ok(TransformMatcher::Everything),
    }
}

/// What a written target compiles to.
fn compile_target(target: &TransformTargetFile) -> (result: Result<TransformTarget, TransformError>)
    ensures
        match result {
            Ok(compiled) => target.fault() is None && match (*target, compiled) {
                (TransformTargetFile::Everything {  }, TransformTarget::Everything) => true,
                (TransformTargetFile::Body {  }, TransformTarget::Body) => true,
                (TransformTargetFile::AllHeaders {  }, TransformTarget::AllHeaders) => true,
                (TransformTargetFile::Header { name }, TransformTarget::Header(wanted)) => wanted@
                    == lower(trim(name@)),
                (TransformTargetFile::Cookies {  }, TransformTarget::Cookies) => true,
                _ => false,
            },
            Err(error) => target.fault() == Some(error@),
        },
{
    match target {
        TransformTargetFile::Everything {  } => Ok(TransformTarget::Everything),
        TransformTargetFile::Body {  } => Ok(TransformTarget::Body),
        TransformTargetFile::AllHeaders {  } => Ok(TransformTarget::AllHeaders),
        TransformTargetFile::Header { name } => {
            let wanted = to_lower(trimmed(chars_of(name.as_str()).as_slice()));
            if wanted.len() == 0 {
                return Err(TransformError::MissingHeaderName);
            }
            let wanted = text_of(wanted.as_slice());
            if names_header(wanted.as_str()) {
                Ok(TransformTarget::Header(wanted))
            } else {
                Err(TransformError::InvalidHeaderName(name.clone()))
            }
        },
        TransformTargetFile::Cookies {  } => Ok(TransformTarget::Cookies),
    }
}

impl TransformRule {
    /// Makes a written rule ready to run.
    pub fn compile(value: &TransformRuleFile) -> (result: Result<TransformRule, TransformError>)
        ensures
            match result {
                Ok(rule) => value.fault() is None && value.describes(rule),
                Err(error) => value.fault() == Some(error@),
            },
    {
        TransformRule::compile_given(value, value.matcher.accepted())
    }

    /// Makes a written rule ready to run, given whether the pattern of its matcher is one.
    pub fn compile_given(value: &TransformRuleFile, accepted: bool) -> (result: Result<
        TransformRule,
        TransformError,
    >)
        ensures
            match result {
                Ok(rule) => value.fault_given(accepted) is None && value.describes(rule),
                Err(error) => value.fault_given(accepted) == Some(error@),
            },
    {
        let matcher = match compile_matcher(&value.matcher, accepted) {
            Ok(matcher) => matcher,
            Err(error) => {
                return Err(error);
            },
        };
        let action = match &value.action {
            TransformActionFile::Replace { from, to } => {
                if chars_of(from.as_str()).len() == 0 {
                    return Err(TransformError::EmptyFrom);
                }
                TransformAction::Replace { from: from.clone(), to: to.clone() }
            },
        };
        let target = match compile_target(&value.target) {
            Ok(target) => target,
            Err(error) => {
                return Err(error);
            },
        };
        Ok(TransformRule { matcher, action, target, stop: value.stop })
    }

    /// Makes a written rule ready to run.
    pub fn try_from(value: TransformRuleFile) -> (result: Result<TransformRule, TransformError>)
        ensures
            match result {
                Ok(rule) => value.fault() is None && value.describes(rule),
                Err(error) => value.fault() == Some(error@),
            },
    {
        TransformRule::compile(&value)
    }
}

/// The first thing that is wrong with written rules, from the front.
pub open spec fn first_rule_fault(rules: Seq<TransformRuleFile>) -> Option<TransformFault>
    decreases rules.len(),
{
    if rules.len() == 0 {
        None
    } else {
        match first_rule_fault(rules.drop_last()) {
            Some(fault) => Some(fault),
            None => rules.last().fault(),
        }
    }
}

/// A fault in a front part is the fault of the whole.
proof fn lemma_first_rule_fault(rules: Seq<TransformRuleFile>, n: int)
    requires
        0 <= n <= rules.len(),
        first_rule_fault(rules.take(n)) is Some,
    ensures
        first_rule_fault(rules) == first_rule_fault(rules.take(n)),
    decreases rules.len(),
{
    if n < rules.len() {
        assert(rules.drop_last().take(n) == rules.take(n));
        lemma_first_rule_fault(rules.drop_last(), n);
    } else {
        assert(rules.take(n) == rules);
    }
}

/// Whether running rules do what written ones say, one for one.
pub open spec fn rules_describe(
    written: Seq<TransformRuleFile>,
    rules: Seq<TransformRule>,
) -> bool {
    rules.len() == written.len() && forall|i: int|
        0 <= i < rules.len() ==> #[trigger] written[i].describes(rules[i])
}

impl TransformConfig {
    /// Makes written rules ready to run, in their order.
    pub fn compile(rules: &[TransformRuleFile]) -> (result: Result<TransformConfig, TransformError>)
        ensures
            match result {
                Ok(config) => first_rule_fault(rules@) is None && rules_describe(
                    rules@,
                    config.transforms@,
                ),
                Err(error) => first_rule_fault(rules@) == Some(error@),
            },
    {
        let mut transforms: Vec<TransformRule> = Vec::new();
        let mut i: usize = 0;
        while i < rules.len()
            invariant
                i <= rules.len(),
                first_rule_fault(rules@.take(i as int)) is None,
                rules_describe(rules@.take(i as int), transforms@),
            decreases rules.len() - i,
        {
            assert(rules@.take(i + 1).drop_last() == rules@.take(i as int));
            match TransformRule::compile(&rules[i]) {
                Ok(rule) => {
                    transforms.push(rule);
                    assert forall|j: int| 0 <= j < i + 1 implies #[trigger] rules@.take(
                        i + 1,
                    )[j].describes(transforms@[j]) by {
                        if j < i {
                            assert(rules@.take(i as int)[j].describes(transforms@[j]));
                        }
                    }
                },
                Err(error) => {
                    proof {
                        lemma_first_rule_fault(rules@, i + 1);
                    }
                    return Err(error);
                },
            }
            i += 1;
        }
        assert(rules@.take(i as int) == rules@);
        Ok(TransformConfig { transforms })
    }
}

// ---------------------------------------------------------------------------
// Running the rules
// ---------------------------------------------------------------------------

/// How a run over streaming headers ends: what it reports and the headers it leaves.
pub ghost struct HeaderRun {
    pub report: Result<PrebufferOutcome, TransformFault>,
    pub entries: Seq<(Seq<char>, Seq<u8>)>,
}

/// How a run over a whole response ends: what it reports, and the headers and the body it leaves.
pub ghost struct BodyRun {
    pub report: Result<ApplyOutcome, TransformFault>,
    pub entries: Seq<(Seq<char>, Seq<u8>)>,
    pub body: Seq<u8>,
}

impl HeaderRun {
    /// The same run behind rules that changed the headers, or did not.
    pub open spec fn after(self, headers_changed: bool) -> HeaderRun {
        HeaderRun {
            report: match self.report {
                Ok(outcome) => Ok(
                    PrebufferOutcome {
                        disposition: outcome.disposition,
                        headers_changed: outcome.headers_changed || headers_changed,
                    },
                ),
                Err(fault) => Err(fault),
            },
            entries: self.entries,
        }
    }
}

impl BodyRun {
    /// The same run behind rules that changed the headers or the body, or did not.
    pub open spec fn after(self, headers_changed: bool, body_changed: bool) -> BodyRun {
        BodyRun {
            report: match self.report {
                Ok(outcome) => Ok(
                    ApplyOutcome {
                        headers_changed: outcome.headers_changed || headers_changed,
                        body_changed: outcome.body_changed || body_changed,
                    },
                ),
                Err(fault) => Err(fault),
            },
            entries: self.entries,
            body: self.body,
        }
    }
}

/// The run of the rules from an index on over streaming headers. Rules that are not for the
/// response are passed over. The first rule that is and needs the body ends the run before it
/// acts; so does, after it has acted, a rule with `stop` that changed something.
pub open spec fn header_run(
    rules: Seq<TransformRule>,
    index: int,
    url: Seq<char>,
    entries: Seq<(Seq<char>, Seq<u8>)>,
) -> HeaderRun
    decreases rules.len() - index,
{
    if index >= rules.len() {
        HeaderRun {
            report: Ok(
                PrebufferOutcome {
                    disposition: PrebufferDisposition::Stream,
                    headers_changed: false,
                },
            ),
            entries,
        }
    } else if !rules[index].is_for(url, entries) {
        header_run(rules, index + 1, url, entries)
    } else if rules[index].rewrites_body() {
        HeaderRun {
            report: Ok(
                PrebufferOutcome {
                    disposition: PrebufferDisposition::BufferFrom(index as usize),
                    headers_changed: false,
                },
            ),
            entries,
        }
    } else {
        match rules[index].rewrite_entries(entries) {
            Err(fault) => HeaderRun { report: Err(fault), entries },
            Ok(rewritten) => if rewritten != entries && rules[index].stop {
                HeaderRun {
                    report: Ok(
                        PrebufferOutcome {
                            disposition: PrebufferDisposition::Stream,
                            headers_changed: true,
                        },
                    ),
                    entries: rewritten,
                }
            } else {
                header_run(rules, index + 1, url, rewritten).after(rewritten != entries)
            },
        }
    }
}

/// The run of the rules from an index on over a whole response. Rules that are not for the
/// response are passed over; a rule with `stop` that changed something is the last.
pub open spec fn body_run(
    rules: Seq<TransformRule>,
    index: int,
    url: Seq<char>,
    entries: Seq<(Seq<char>, Seq<u8>)>,
    body: Seq<u8>,
) -> BodyRun
    decreases rules.len() - index,
{
    if index >= rules.len() {
        BodyRun {
            report: Ok(ApplyOutcome { headers_changed: false, body_changed: false }),
            entries,
            body,
        }
    } else if !rules[index].is_for(url, entries) {
        body_run(rules, index + 1, url, entries, body)
    } else {
        match rules[index].rewrite_entries(entries) {
            Err(fault) => BodyRun { report: Err(fault), entries, body },
            Ok(rewritten) => {
                let headers_changed = rewritten != entries;
                let body_changed = rules[index].changes_body(body);
                let new_body = rules[index].rewrite_bytes(body);
                if (headers_changed || body_changed) && rules[index].stop {
                    BodyRun {
                        report: Ok(ApplyOutcome { headers_changed, body_changed }),
                        entries: rewritten,
                        body: new_body,
                    }
                } else {
                    body_run(rules, index + 1, url, rewritten, new_body).after(
                        headers_changed,
                        body_changed,
                    )
                }
            },
        }
    }
}

impl TransformConfig {
    /// Runs the rules over the headers of a response that streams, up to the first rule that
    /// needs the body.
    pub fn apply_until_body(&self, request_url: &str, headers: &mut HeaderMap) -> (result: Result<
        PrebufferOutcome,
        TransformError,
    >)
        ensures
            ({
                let run = header_run(
                    self.transforms@,
                    0,
                    request_url@,
                    header_entries(*old(headers)),
                );
                &&& header_entries(*final(headers)) == run.entries
                &&& match result {
                    Ok(outcome) => run.report == Ok::<PrebufferOutcome, TransformFault>(outcome),
                    Err(error) => run.report == Err::<PrebufferOutcome, TransformFault>(error@),
                }
            }),
    {
        let ghost whole = header_run(self.transforms@, 0, request_url@, header_entries(*headers));
        let mut headers_changed = false;
        let mut index: usize = 0;
        while index < self.transforms.len()
            invariant
                index <= self.transforms.len(),
                whole == header_run(
                    self.transforms@,
                    0,
                    request_url@,
                    header_entries(*old(headers)),
                ),
                whole == header_run(
                    self.transforms@,
                    index as int,
                    request_url@,
                    header_entries(*headers),
                ).after(headers_changed),
            decreases self.transforms.len() - index,
        {
            let rule = &self.transforms[index];
            if rule.matches(request_url, headers) {
                if rule.requires_body() {
                    return Ok(
                        PrebufferOutcome {
                            disposition: PrebufferDisposition::BufferFrom(index),
                            headers_changed,
                        },
                    );
                }
                match rule.apply_headers(headers) {
                    Ok(triggered) => {
                        headers_changed = headers_changed || triggered;
                        if triggered && rule.stop {
                            return Ok(
                                PrebufferOutcome {
                                    disposition: PrebufferDisposition::Stream,
                                    headers_changed,
                                },
                            );
                        }
                    },
                    Err(error) => {
                        return Err(error);
                    },
                }
            }
            index += 1;
        }
        Ok(PrebufferOutcome { disposition: PrebufferDisposition::Stream, headers_changed })
    }

    /// Runs the rules from an index on over a response whose body is there.
    pub fn apply_with_body(
        &self,
        start_index: usize,
        request_url: &str,
        headers: &mut HeaderMap,
        body: &mut Vec<u8>,
    ) -> (result: Result<ApplyOutcome, TransformError>)
        ensures
            ({
                let run = body_run(
                    self.transforms@,
                    start_index as int,
                    request_url@,
                    header_entries(*old(headers)),
                    old(body)@,
                );
                &&& header_entries(*final(headers)) == run.entries
                &&& final(body)@ == run.body
                &&& match result {
                    Ok(outcome) => run.report == Ok::<ApplyOutcome, TransformFault>(outcome),
                    Err(error) => run.report == Err::<ApplyOutcome, TransformFault>(error@),
                }
            }),
    {
        let ghost whole = body_run(
            self.transforms@,
            start_index as int,
            request_url@,
            header_entries(*headers),
            body@,
        );
        let mut headers_changed = false;
        let mut body_changed = false;
        let mut index: usize = start_index;
        while index < self.transforms.len()
            invariant
                whole == body_run(
                    self.transforms@,
                    start_index as int,
                    request_url@,
                    header_entries(*old(headers)),
                    old(body)@,
                ),
                whole == body_run(
                    self.transforms@,
                    index as int,
                    request_url@,
                    header_entries(*headers),
                    body@,
                ).after(headers_changed, body_changed),
            decreases self.transforms.len() - index,
        {
            let rule = &self.transforms[index];
            if rule.matches(request_url, headers) {
                match rule.apply(headers, body) {
                    Ok(triggered) => {
                        headers_changed = headers_changed || triggered.headers_changed;
                        body_changed = body_changed || triggered.body_changed;
                        if triggered.triggered && rule.stop {
                            return Ok(ApplyOutcome { headers_changed, body_changed });
                        }
                    },
                    Err(error) => {
                        return Err(error);
                    },
                }
            }
            index += 1;
        }
        Ok(ApplyOutcome { headers_changed, body_changed })
    }
}

// ---------------------------------------------------------------------------
// Laws
// ---------------------------------------------------------------------------

/// Header and cookie transforms preserve streaming: where no rule needs the body, a response
/// never waits for it.
pub proof fn header_rules_preserve_streaming(
    rules: Seq<TransformRule>,
    index: int,
    url: Seq<char>,
    entries: Seq<(Seq<char>, Seq<u8>)>,
)
    requires
        0 <= index,
        forall|i: int| 0 <= i < rules.len() ==> !(#[trigger] rules[i]).rewrites_body(),
    ensures
        header_run(rules, index, url, entries).report matches Ok(outcome) ==> outcome.disposition
            == PrebufferDisposition::Stream,
    decreases rules.len() - index,
{
    if index < rules.len() {
        if !rules[index].is_for(url, entries) {
            header_rules_preserve_streaming(rules, index + 1, url, entries);
        } else if let Ok(rewritten) = rules[index].rewrite_entries(entries) {
            header_rules_preserve_streaming(rules, index + 1, url, rewritten);
        }
    }
}

/// A response waits for its body only at a rule that rewrites bodies and is for the response as
/// the rules before it left it.
pub proof fn buffering_starts_at_a_body_rule(
    rules: Seq<TransformRule>,
    index: int,
    url: Seq<char>,
    entries: Seq<(Seq<char>, Seq<u8>)>,
)
    requires
        0 <= index,
        rules.len() <= usize::MAX,
    ensures
        header_run(rules, index, url, entries).report matches Ok(outcome) ==> (
        outcome.disposition matches PrebufferDisposition::BufferFrom(at) ==> index <= at
            < rules.len() && rules[at as int].rewrites_body() && rules[at as int].is_for(
            url,
            header_run(rules, index, url, entries).entries,
        )),
    decreases rules.len() - index,
{
    if index < rules.len() {
        if !rules[index].is_for(url, entries) {
            buffering_starts_at_a_body_rule(rules, index + 1, url, entries);
        } else if !rules[index].rewrites_body() {
            if let Ok(rewritten) = rules[index].rewrite_entries(entries) {
                buffering_starts_at_a_body_rule(rules, index + 1, url, rewritten);
            }
        }
    }
}

/// Waiting for the body changes nothing in the outcome: the run over the streaming headers,
/// continued over the whole response at the rule where it stopped, leaves the headers, the body
/// and the report of one run over the whole response.
pub proof fn buffering_splits_one_run(
    rules: Seq<TransformRule>,
    index: int,
    url: Seq<char>,
    entries: Seq<(Seq<char>, Seq<u8>)>,
    body: Seq<u8>,
)
    requires
        0 <= index,
        rules.len() <= usize::MAX,
    ensures
        ({
            let first = header_run(rules, index, url, entries);
            match first.report {
                Ok(outcome) => match outcome.disposition {
                    PrebufferDisposition::BufferFrom(at) => body_run(
                        rules,
                        index,
                        url,
                        entries,
                        body,
                    ) == body_run(rules, at as int, url, first.entries, body).after(
                        outcome.headers_changed,
                        false,
                    ),
                    PrebufferDisposition::Stream => body_run(rules, index, url, entries, body) == (
                    BodyRun {
                        report: Ok(
                            ApplyOutcome {
                                headers_changed: outcome.headers_changed,
                                body_changed: false,
                            },
                        ),
                        entries: first.entries,
                        body,
                    }),
                },
                Err(fault) => body_run(rules, index, url, entries, body) == (BodyRun {
                    report: Err(fault),
                    entries: first.entries,
                    body,
                }),
            }
        }),
    decreases rules.len() - index,
{
    if index < rules.len() {
        if !rules[index].is_for(url, entries) {
            buffering_splits_one_run(rules, index + 1, url, entries, body);
        } else if !rules[index].rewrites_body() {
            if let Ok(rewritten) = rules[index].rewrite_entries(entries) {
                buffering_splits_one_run(rules, index + 1, url, rewritten, body);
            }
        }
    }
}

/// A response that no rule is for passes unchanged.
pub proof fn unmatched_responses_pass_unchanged(
    rules: Seq<TransformRule>,
    index: int,
    url: Seq<char>,
    entries: Seq<(Seq<char>, Seq<u8>)>,
    body: Seq<u8>,
)
    requires
        0 <= index,
        forall|i: int| 0 <= i < rules.len() ==> !(#[trigger] rules[i]).is_for(url, entries),
    ensures
        header_run(rules, index, url, entries) == (HeaderRun {
            report: Ok(
                PrebufferOutcome {
                    disposition: PrebufferDisposition::Stream,
                    headers_changed: false,
                },
            ),
            entries,
        }),
        body_run(rules, index, url, entries, body) == (BodyRun {
            report: Ok(ApplyOutcome { headers_changed: false, body_changed: false }),
            entries,
            body,
        }),
    decreases rules.len() - index,
{
    if index < rules.len() {
        assert(!rules[index].is_for(url, entries));
        unmatched_responses_pass_unchanged(rules, index + 1, url, entries, body);
    }
}

/// Rules behind a rule with `stop` that changed something do not run: the outcome is the same
/// whatever they are.
pub proof fn nothing_runs_behind_a_triggered_stop(
    rules: Seq<TransformRule>,
    index: int,
    url: Seq<char>,
    entries: Seq<(Seq<char>, Seq<u8>)>,
    body: Seq<u8>,
)
    requires
        0 <= index < rules.len(),
        rules[index].is_for(url, entries),
        rules[index].stop,
        rules[index].rewrite_entries(entries) matches Ok(rewritten) && (rewritten != entries
            || rules[index].changes_body(body)),
    ensures
        body_run(rules, index, url, entries, body) == body_run(
            rules.take(index + 1),
            index,
            url,
            entries,
            body,
        ),
        !rules[index].rewrites_body() ==> header_run(rules, index, url, entries) == header_run(
            rules.take(index + 1),
            index,
            url,
            entries,
        ),
{
    assert(rules.take(index + 1)[index] == rules[index]);
}

/// A rule for the body leaves the headers alone, and a rule for headers leaves the body alone.
pub proof fn rules_keep_to_their_target(
    rule: TransformRule,
    entries: Seq<(Seq<char>, Seq<u8>)>,
    body: Seq<u8>,
)
    ensures
        rule.target is Body ==> rule.rewrite_entries(entries) == Ok::<
            Seq<(Seq<char>, Seq<u8>)>,
            TransformFault,
        >(entries),
        !rule.rewrites_body() ==> rule.rewrite_bytes(body) == body && !rule.changes_body(body),
    decreases entries.len(),
{
    if entries.len() > 0 {
        rules_keep_to_their_target(rule, entries.drop_last(), body);
        assert(entries.drop_last().push(entries.last()) == entries);
    }
}

/// A rule replaces one text by another and does nothing else to a text.
pub proof fn rules_replace_every_occurrence(rule: TransformRule, text: Seq<char>, i: int)
    ensures
        ({
            let TransformAction::Replace { from, to } = rule.action;
            &&& from@.len() > 0 && 0 <= i <= text.len() - from@.len() && text.subrange(
                i,
                i + from@.len(),
            ) == from@ && (forall|j: int|
                0 <= j < i ==> #[trigger] text.subrange(j, j + from@.len()) != from@)
                ==> rule.rewrite(text) == text.take(i) + to@ + rule.rewrite(
                text.skip(i + from@.len()),
            )
            &&& from@.len() > 0 && (forall|j: int|
                0 <= j <= text.len() - from@.len() ==> #[trigger] text.subrange(j, j + from@.len())
                    != from@) ==> rule.rewrite(text) == text
        }),
{
    let TransformAction::Replace { from, to } = rule.action;
    if from@.len() > 0 {
        if 0 <= i <= text.len() - from@.len() && text.subrange(i, i + from@.len()) == from@ && (
        forall|j: int| 0 <= j < i ==> #[trigger] text.subrange(j, j + from@.len()) != from@) {
            crate::text::replacing_goes_from_occurrence_to_occurrence(text, from@, to@, i);
        }
        if forall|j: int|
            0 <= j <= text.len() - from@.len() ==> #[trigger] text.subrange(j, j + from@.len())
                != from@ {
            crate::text::replacing_leaves_other_texts(text, from@, to@);
        }
    }
}

/// A rule for everything is for every response; one with a pattern for URLs is for the responses
/// whose URL matches it; one with a pattern for content types is for those that state a content
/// type whose part before the first semicolon, in lower case and without white space around it, is
/// not empty and matches it.
pub proof fn rules_are_for_what_they_match(
    rule: TransformRule,
    url: Seq<char>,
    entries: Seq<(Seq<char>, Seq<u8>)>,
    media: Seq<char>,
    rest: Seq<char>,
)
    requires
        !media.contains(';'),
    ensures
        rule.matcher is Everything ==> rule.is_for(url, entries),
        rule.matcher matches TransformMatcher::UrlGlob(pattern) ==> rule.is_for(url, entries)
            == glob_matches(pattern@, url),
        rule.matcher matches TransformMatcher::ContentTypeGlob(pattern) ==> {
            let stated = text_named(entries, "content-type"@);
            let wanted = lower(trim(media));
            &&& stated is None ==> !rule.is_for(url, entries)
            &&& stated == Some(media) || stated == Some(media + seq![';'] + rest) ==> rule.is_for(
                url,
                entries,
            ) == (wanted.len() > 0 && glob_matches(pattern@, wanted))
        },
{
    let whole = media + seq![';'] + rest;
    crate::text::cutting_goes_from_mark_to_mark(media, ';', rest);
    let n = media.len() as int;
    assert forall|j: int| 0 <= j < n implies media[j] != ';' by {
        assert(media.contains(media[j]));
    }
    crate::text::lemma_first_at(media, ';', n);
    assert forall|j: int| 0 <= j < n implies whole[j] != ';' by {
        assert(whole[j] == media[j]);
    }
    crate::text::lemma_first_at(whole, ';', n);
    assert(media.take(n) =~= media);
    assert(whole.take(n) =~= media);
}

/// Whether a rule with a target is for the headers of a name.
pub open spec fn targets_header(target: TransformTarget, name: Seq<char>) -> bool {
    ||| target is Everything
    ||| target is AllHeaders
    ||| target matches TransformTarget::Header(wanted) && wanted@ == name
    ||| target is Cookies && name == "set-cookie"@
}

/// A rule rewrites each header that its target names, and leaves every other as it is: a target of
/// everything or of all headers names every header, one of a header that header, one of cookies
/// `set-cookie`, and one of the body none. It fails where a header that it names is not text, or
/// would not be a header value any more, and nowhere else.
pub proof fn rules_rewrite_the_headers_of_their_target(
    rule: TransformRule,
    entries: Seq<(Seq<char>, Seq<u8>)>,
)
    ensures
        rule.rewrite_entries(entries) matches Ok(rewritten) ==> {
            &&& rewritten.len() == entries.len()
            &&& forall|i: int|
                0 <= i < entries.len() ==> {
                    &&& (#[trigger] rewritten[i]).0 == entries[i].0
                    &&& !targets_header(rule.target, entries[i].0) ==> rewritten[i] == entries[i]
                    &&& targets_header(rule.target, entries[i].0) ==> is_text(entries[i].1)
                        && rewritten[i].1 == encode_utf8(rule.rewrite(ascii_text(entries[i].1)))
                }
        },
        rule.rewrite_entries(entries) is Err <==> exists|i: int|
            0 <= i < entries.len() && targets_header(rule.target, (#[trigger] entries[i]).0) && !(
            is_text(entries[i].1) && is_value(
                encode_utf8(rule.rewrite(ascii_text(entries[i].1))),
            )),
    decreases entries.len(),
{
    if entries.len() > 0 {
        let front = entries.drop_last();
        let n = entries.len() - 1;
        rules_rewrite_the_headers_of_their_target(rule, front);
        assert(rule.selects(entries[n].0) == targets_header(rule.target, entries[n].0));
        assert forall|i: int| 0 <= i < n implies front[i] == #[trigger] entries[i] by {}
        if rule.rewrite_entries(front) is Err {
            let i = choose|i: int|
                0 <= i < front.len() && targets_header(rule.target, (#[trigger] front[i]).0) && !(
                is_text(front[i].1) && is_value(
                    encode_utf8(rule.rewrite(ascii_text(front[i].1))),
                ));
            assert(entries[i] == front[i]);
        } else {
            assert forall|i: int| 0 <= i < n && targets_header(
                rule.target,
                (#[trigger] entries[i]).0,
            ) implies is_text(entries[i].1) && is_value(
                encode_utf8(rule.rewrite(ascii_text(entries[i].1))),
            ) by {
                assert(front[i] == entries[i]);
            }
            assert(entries[n] == entries.last());
        }
    }
}

/// A rule with a target of the body or of everything rewrites the text of a body; where that leaves
/// the text as it was, the bytes stay as they were too. Other rules leave bodies alone.
pub proof fn rules_rewrite_the_bodies_of_their_target(rule: TransformRule, body: Seq<u8>)
    ensures
        ({
            let text = lossy_text(body);
            let targeted = rule.target is Body || rule.target is Everything;
            &&& targeted && rule.rewrite(text) != text ==> rule.changes_body(body)
                && rule.rewrite_bytes(body) == encode_utf8(rule.rewrite(text))
            &&& !targeted || rule.rewrite(text) == text ==> !rule.changes_body(body)
                && rule.rewrite_bytes(body) == body
            &&& rule.rewrites_body() == targeted
        }),
{
}

/// A rule that is not for a response is passed over.
pub proof fn rules_for_other_responses_are_passed_over(
    rules: Seq<TransformRule>,
    index: int,
    url: Seq<char>,
    entries: Seq<(Seq<char>, Seq<u8>)>,
    body: Seq<u8>,
)
    requires
        0 <= index < rules.len(),
        !rules[index].is_for(url, entries),
    ensures
        body_run(rules, index, url, entries, body) == body_run(
            rules,
            index + 1,
            url,
            entries,
            body,
        ),
        header_run(rules, index, url, entries) == header_run(rules, index + 1, url, entries),
{
}

/// A rule without `stop`, or one that changed nothing, never ends the run: what the run leaves is
/// what the rules behind it leave of what it made.
pub proof fn the_run_goes_on_behind_other_rules(
    rules: Seq<TransformRule>,
    index: int,
    url: Seq<char>,
    entries: Seq<(Seq<char>, Seq<u8>)>,
    body: Seq<u8>,
    rewritten: Seq<(Seq<char>, Seq<u8>)>,
)
    requires
        0 <= index < rules.len(),
        rules[index].is_for(url, entries),
        rules[index].rewrite_entries(entries) == Ok::<Seq<(Seq<char>, Seq<u8>)>, TransformFault>(
            rewritten,
        ),
        !rules[index].stop || rewritten == entries && !rules[index].changes_body(body),
    ensures
        ({
            let run = body_run(rules, index, url, entries, body);
            let rest = body_run(
                rules,
                index + 1,
                url,
                rewritten,
                rules[index].rewrite_bytes(body),
            );
            &&& run.entries == rest.entries
            &&& run.body == rest.body
            &&& rest.report matches Err(fault) ==> run.report == Err::<ApplyOutcome, TransformFault>(
                fault,
            )
            &&& rest.report matches Ok(later) ==> run.report == Ok::<ApplyOutcome, TransformFault>(
                ApplyOutcome {
                    headers_changed: later.headers_changed || rewritten != entries,
                    body_changed: later.body_changed || rules[index].changes_body(body),
                },
            )
        }),
        !rules[index].rewrites_body() ==> {
            let run = header_run(rules, index, url, entries);
            let rest = header_run(rules, index + 1, url, rewritten);
            &&& run.entries == rest.entries
            &&& rest.report matches Err(fault) ==> run.report == Err::<
                PrebufferOutcome,
                TransformFault,
            >(fault)
            &&& rest.report matches Ok(later) ==> run.report == Ok::<
                PrebufferOutcome,
                TransformFault,
            >(
                PrebufferOutcome {
                    disposition: later.disposition,
                    headers_changed: later.headers_changed || rewritten != entries,
                },
            )
        },
{
}

/// A rule with `stop` that changed something is the last: what it made is what the run leaves.
pub proof fn a_triggered_stop_leaves_what_it_made(
    rules: Seq<TransformRule>,
    index: int,
    url: Seq<char>,
    entries: Seq<(Seq<char>, Seq<u8>)>,
    body: Seq<u8>,
    rewritten: Seq<(Seq<char>, Seq<u8>)>,
)
    requires
        0 <= index < rules.len(),
        rules[index].is_for(url, entries),
        rules[index].rewrite_entries(entries) == Ok::<Seq<(Seq<char>, Seq<u8>)>, TransformFault>(
            rewritten,
        ),
        rules[index].stop,
        rewritten != entries || rules[index].changes_body(body),
    ensures
        ({
            let run = body_run(rules, index, url, entries, body);
            &&& run.entries == rewritten
            &&& run.body == rules[index].rewrite_bytes(body)
            &&& run.report == Ok::<ApplyOutcome, TransformFault>(
                ApplyOutcome {
                    headers_changed: rewritten != entries,
                    body_changed: rules[index].changes_body(body),
                },
            )
        }),
        !rules[index].rewrites_body() ==> {
            let run = header_run(rules, index, url, entries);
            &&& run.entries == rewritten
            &&& run.report == Ok::<PrebufferOutcome, TransformFault>(
                PrebufferOutcome {
                    disposition: PrebufferDisposition::Stream,
                    headers_changed: true,
                },
            )
        },
{
}

/// A rule that fails ends the run with its failure, and the response is left as the rules before it
/// made it.
pub proof fn a_failing_rule_ends_the_run(
    rules: Seq<TransformRule>,
    index: int,
    url: Seq<char>,
    entries: Seq<(Seq<char>, Seq<u8>)>,
    body: Seq<u8>,
    fault: TransformFault,
)
    requires
        0 <= index < rules.len(),
        rules[index].is_for(url, entries),
        rules[index].rewrite_entries(entries) == Err::<
            Seq<(Seq<char>, Seq<u8>)>,
            TransformFault,
        >(fault),
    ensures
        body_run(rules, index, url, entries, body) == (BodyRun {
            report: Err(fault),
            entries,
            body,
        }),
        !rules[index].rewrites_body() ==> header_run(rules, index, url, entries) == (HeaderRun {
            report: Err(fault),
            entries,
        }),
{
}

/// A rule that rewrites bodies and is for a response makes it wait for its body, with its headers
/// as the rules before it left them.
pub proof fn body_rules_wait_for_the_body(
    rules: Seq<TransformRule>,
    index: int,
    url: Seq<char>,
    entries: Seq<(Seq<char>, Seq<u8>)>,
)
    requires
        0 <= index < rules.len() <= usize::MAX,
        rules[index].is_for(url, entries),
        rules[index].target is Body || rules[index].target is Everything,
    ensures
        header_run(rules, index, url, entries) == (HeaderRun {
            report: Ok(
                PrebufferOutcome {
                    disposition: PrebufferDisposition::BufferFrom(index as usize),
                    headers_changed: false,
                },
            ),
            entries,
        }),
{
}

/// Where no rules are left, a response passes as it is, without waiting for its body.
pub proof fn without_rules_responses_pass(
    rules: Seq<TransformRule>,
    url: Seq<char>,
    entries: Seq<(Seq<char>, Seq<u8>)>,
    body: Seq<u8>,
)
    ensures
        body_run(rules, rules.len() as int, url, entries, body) == (BodyRun {
            report: Ok(ApplyOutcome { headers_changed: false, body_changed: false }),
            entries,
            body,
        }),
        header_run(rules, rules.len() as int, url, entries) == (HeaderRun {
            report: Ok(
                PrebufferOutcome {
                    disposition: PrebufferDisposition::Stream,
                    headers_changed: false,
                },
            ),
            entries,
        }),
{
}

/// The URL that rules look at is the path, with a question mark and the query where there is a
/// query that is not empty.
pub proof fn rules_look_at_path_and_query(path: Seq<char>, query: Seq<char>)
    ensures
        url_text(path, None) == path,
        url_text(path, Some(Seq::empty())) == path,
        query.len() > 0 ==> url_text(path, Some(query)) == path + seq!['?'] + query,
{
    reveal_strlit("?");
    assert("?"@ =~= seq!['?']);
}

/// A written rule is refused where its pattern is none, where it looks for the empty text, or where
/// it is for a header and names none; and nowhere else.
pub proof fn sound_rules_are_accepted(rule: TransformRuleFile)
    ensures
        rule.fault() is None <==> {
            &&& rule.matcher matches TransformMatcherFile::UrlGlob { pattern } ==> glob_compiles(
                pattern@,
            )
            &&& rule.matcher matches TransformMatcherFile::ContentTypeGlob { pattern }
                ==> glob_compiles(lower(pattern@))
            &&& rule.action matches TransformActionFile::Replace { from, .. } && from@.len() > 0
            &&& rule.target matches TransformTargetFile::Header { name } ==> is_header_name(
                lower(trim(name@)),
            )
        },
{
}

/// A rule runs as it is written: the same matcher, action, target and `stop`; patterns for content
/// types and names of headers are in lower case, names without white space around them.
pub proof fn rules_run_as_they_are_written(file: TransformRuleFile, rule: TransformRule)
    requires
        file.describes(rule),
    ensures
        rule.stop == file.stop,
        file.matcher is Everything <==> rule.matcher is Everything,
        file.matcher matches TransformMatcherFile::UrlGlob { pattern } ==> (
        rule.matcher matches TransformMatcher::UrlGlob(found) && found@ == pattern@),
        file.matcher matches TransformMatcherFile::ContentTypeGlob { pattern } ==> (
        rule.matcher matches TransformMatcher::ContentTypeGlob(found) && found@ == lower(
            pattern@,
        )),
        file.action matches TransformActionFile::Replace { from, to } ==> (
        rule.action matches TransformAction::Replace { from: found, to: put } && found@ == from@
            && put@ == to@),
        file.target is Everything <==> rule.target is Everything,
        file.target is Body <==> rule.target is Body,
        file.target is AllHeaders <==> rule.target is AllHeaders,
        file.target is Cookies <==> rule.target is Cookies,
        file.target matches TransformTargetFile::Header { name } ==> (
        rule.target matches TransformTarget::Header(found) && found@ == lower(trim(name@))),
{
}

/// Rules run in the order in which they are written, one for one.
pub proof fn rules_run_in_their_order(
    files: Seq<TransformRuleFile>,
    rules: Seq<TransformRule>,
    i: int,
)
    requires
        rules_describe(files, rules),
        0 <= i < files.len(),
    ensures
        rules.len() == files.len(),
        files[i].describes(rules[i]),
{
}

/// Written rules are refused for the first of them that is faulty, and accepted where none is.
pub proof fn the_first_faulty_rule_counts(files: Seq<TransformRuleFile>, file: TransformRuleFile)
    ensures
        first_rule_fault(Seq::empty()) is None,
        first_rule_fault(files) is Some ==> first_rule_fault(files.push(file)) == first_rule_fault(
            files,
        ),
        first_rule_fault(files) is None ==> first_rule_fault(files.push(file)) == file.fault(),
{
    assert(files.push(file).drop_last() =~= files);
}

/// Failures of rules are told apart, and say which pattern or header they are about.
pub proof fn failures_of_rules_say_what_they_are_about(text: String)
    ensures
        TransformError::InvalidUrlGlob(text)@ == TransformFault::InvalidUrlGlob(text@),
        TransformError::InvalidContentTypeGlob(text)@ == TransformFault::InvalidContentTypeGlob(
            text@,
        ),
        TransformError::EmptyFrom@ == TransformFault::EmptyFrom,
        TransformError::MissingHeaderName@ == TransformFault::MissingHeaderName,
        TransformError::InvalidHeaderName(text)@ == TransformFault::InvalidHeaderName(text@),
        TransformError::HeaderNotText(text)@ == TransformFault::HeaderNotText(text@),
        TransformError::RewrittenHeaderInvalid(text)@ == TransformFault::RewrittenHeaderInvalid(
            text@,
        ),
        TransformError::InvalidUrlGlob(text).message_text() == "invalid url_glob "@ + text@,
        TransformError::InvalidContentTypeGlob(text).message_text() == "invalid content_type_glob "@
            + text@,
        TransformError::EmptyFrom.message_text()
            == "replace transform requires a non-empty from value"@,
        TransformError::MissingHeaderName.message_text() == "header target requires a header name"@,
        TransformError::InvalidHeaderName(text).message_text() == "invalid header target name "@
            + text@,
        TransformError::HeaderNotText(text).message_text() == "response header "@ + text@
            + " is not valid text"@,
        TransformError::RewrittenHeaderInvalid(text).message_text() == "rewritten response header "@
            + text@ + " is invalid"@,
{
}

/// A faulty rule is refused for what is wrong with it: first its pattern, then its text, then its
/// target.
pub proof fn faulty_rules_are_refused_for_their_fault(rule: TransformRuleFile)
    ensures
        rule.matcher matches TransformMatcherFile::UrlGlob { pattern } ==> (!glob_compiles(pattern@)
            ==> rule.fault() == Some(TransformFault::InvalidUrlGlob(pattern@))),
        rule.matcher matches TransformMatcherFile::ContentTypeGlob { pattern } ==> (!glob_compiles(
            lower(pattern@),
        ) ==> rule.fault() == Some(TransformFault::InvalidContentTypeGlob(pattern@))),
        rule.matcher is Everything && rule.action->from@.len() == 0 ==> rule.fault() == Some(
            TransformFault::EmptyFrom,
        ),
        rule.matcher is Everything && rule.action->from@.len() > 0 ==> {
            &&& !(rule.target is Header) ==> rule.fault() is None
            &&& rule.target is Header && trim(rule.target->name@).len() == 0 ==> rule.fault()
                == Some(TransformFault::MissingHeaderName)
            &&& rule.target is Header && trim(rule.target->name@).len() > 0 && !is_header_name(
                lower(trim(rule.target->name@)),
            ) ==> rule.fault() == Some(TransformFault::InvalidHeaderName(rule.target->name@))
        },
{
}

/// A rule fails at the first header of its target that is not text or would not be a header value
/// any more, and says which it is.
pub proof fn rules_fail_at_the_first_header(
    rule: TransformRule,
    front: Seq<(Seq<char>, Seq<u8>)>,
    name: Seq<char>,
    value: Seq<u8>,
    back: Seq<(Seq<char>, Seq<u8>)>,
)
    requires
        rule.rewrite_entries(front) is Ok,
        targets_header(rule.target, name),
    ensures
        !is_text(value) ==> rule.rewrite_entries(front.push((name, value)) + back) == Err::<
            Seq<(Seq<char>, Seq<u8>)>,
            TransformFault,
        >(TransformFault::HeaderNotText(name)),
        is_text(value) && !is_value(encode_utf8(rule.rewrite(ascii_text(value))))
            ==> rule.rewrite_entries(front.push((name, value)) + back) == Err::<
            Seq<(Seq<char>, Seq<u8>)>,
            TransformFault,
        >(TransformFault::RewrittenHeaderInvalid(name)),
{
    let part = front.push((name, value));
    let whole = part + back;
    assert(part.drop_last() =~= front);
    assert(whole.take(part.len() as int) =~= part);
    if !is_text(value) || !is_value(encode_utf8(rule.rewrite(ascii_text(value)))) {
        assert(rule.selects(name));
        lemma_rewrite_fails(rule, whole, part.len() as int);
    }
}

} // verus!
