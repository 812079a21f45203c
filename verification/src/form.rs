//! Submitted form values and what is read from them.
use crate::cli::HttpMode;
use crate::config::RuntimeSettingsFile;
use crate::number::{decimal, decimal_text, parse_decimal, parse_u64, parse_usize};
use crate::text::{
    chars_of, copy_list, copy_text, joined, opt_text, pieces, same_text, split, text_of, texts,
    trim, trimmed,
};
use crate::transform::{
    TransformActionFile, TransformMatcherFile, TransformRuleFile, TransformTargetFile,
};
use vstd::prelude::*;

verus! {

/// The values of a submitted form: names and values in the order in which they came. Where a name
/// comes twice, the later value counts.
#[derive(Debug, Clone)]
pub struct FormValues {
    pub pairs: Vec<(String, String)>,
}

/// The values that pairs give names, the later counting.
pub open spec fn form_map(pairs: Seq<(String, String)>) -> Map<Seq<char>, Seq<char>>
    decreases pairs.len(),
{
    if pairs.len() == 0 {
        Map::empty()
    } else {
        form_map(pairs.drop_last()).insert(pairs.last().0@, pairs.last().1@)
    }
}

impl View for FormValues {
    type V = Map<Seq<char>, Seq<char>>;

    open spec fn view(&self) -> Map<Seq<char>, Seq<char>> {
        form_map(self.pairs@)
    }
}

/// The value under a name, where there is one.
pub open spec fn value_of(values: Map<Seq<char>, Seq<char>>, key: Seq<char>) -> Option<Seq<char>> {
    if values.dom().contains(key) {
        Some(values[key])
    } else {
        None
    }
}

impl FormValues {
    /// The value under a name, where there is one.
    pub fn get(&self, key: &str) -> (value: Option<String>)
        ensures
            opt_text(value) == value_of(self@, key@),
    {
        let mut i: usize = self.pairs.len();
        assert(self.pairs@.take(i as int) =~= self.pairs@);
        while i > 0
            invariant
                i <= self.pairs.len(),
                value_of(self@, key@) == value_of(form_map(self.pairs@.take(i as int)), key@),
            decreases i,
        {
            let ghost front = self.pairs@.take(i as int);
            assert(front.drop_last() =~= self.pairs@.take(i - 1));
            if same_text(self.pairs[i - 1].0.as_str(), key) {
                return Some(self.pairs[i - 1].1.clone());
            }
            i -= 1;
        }
        None
    }

    /// Whether there is a value under a name.
    pub fn contains_key(&self, key: &str) -> (result: bool)
        ensures
            result == self@.dom().contains(key@),
    {
        self.get(key).is_some()
    }
}

// ---------------------------------------------------------------------------
// Single values
// ---------------------------------------------------------------------------

/// A value, or another where there is none.
pub open spec fn text_or(value: Option<Seq<char>>, fallback: Seq<char>) -> Seq<char> {
    match value {
        Some(value) => value,
        None => fallback,
    }
}

/// The text under a name, or another where there is none.
pub fn text_value(values: &FormValues, key: &str, fallback: &str) -> (text: String)
    ensures
        text@ == text_or(value_of(values@, key@), fallback@),
{
    match values.get(key) {
        Some(value) => value,
        None => fallback.to_owned(),
    }
}

/// The text under a name, or nothing.
pub fn text_value_owned(values: &FormValues, key: &str) -> (text: String)
    ensures
        text@ == text_or(value_of(values@, key@), Seq::empty()),
{
    match values.get(key) {
        Some(value) => value,
        None => {
            let empty = String::new();
            assert(empty@ =~= Seq::<char>::empty());
            empty
        },
    }
}

/// An optional text: none where the value is blank, another where there is no value.
pub open spec fn optional_or(value: Option<Seq<char>>, fallback: Option<Seq<char>>) -> Option<
    Seq<char>,
> {
    match value {
        Some(value) => if trim(value).len() == 0 {
            None
        } else {
            Some(value)
        },
        None => fallback,
    }
}

/// An optional text: none where the value is blank, another where there is no value.
pub fn optional_text_value(values: &FormValues, key: &str, fallback: &Option<String>) -> (text:
    Option<String>)
    ensures
        opt_text(text) == optional_or(value_of(values@, key@), opt_text(*fallback)),
{
    match values.get(key) {
        Some(value) => {
            if trimmed(chars_of(value.as_str()).as_slice()).len() == 0 {
                None
            } else {
                Some(value)
            }
        },
        None => copy_text(fallback),
    }
}

/// A path: another where the value is blank or there is none.
pub open spec fn path_or(value: Option<Seq<char>>, fallback: Seq<char>) -> Seq<char> {
    match value {
        Some(value) if trim(value).len() > 0 => value,
        _ => fallback,
    }
}

/// A path: another where the value is blank or there is none.
pub fn path_value(values: &FormValues, key: &str, fallback: &str) -> (path: String)
    ensures
        path@ == path_or(value_of(values@, key@), fallback@),
{
    match values.get(key) {
        Some(value) => {
            if trimmed(chars_of(value.as_str()).as_slice()).len() == 0 {
                fallback.to_owned()
            } else {
                value
            }
        },
        None => fallback.to_owned(),
    }
}

/// An optional path: none where the value is blank, another where there is no value.
pub fn optional_path_value(values: &FormValues, key: &str, fallback: &Option<String>) -> (path:
    Option<String>)
    ensures
        opt_text(path) == optional_or(value_of(values@, key@), opt_text(*fallback)),
{
    optional_text_value(values, key, fallback)
}

/// An optional path as a form shows it.
pub fn optional_path(value: &Option<String>) -> (text: String)
    ensures
        text@ == text_or(opt_text(*value), Seq::empty()),
{
    match value {
        Some(path) => path.clone(),
        None => {
            let empty = String::new();
            assert(empty@ =~= Seq::<char>::empty());
            empty
        },
    }
}

/// A number in decimal: another where the value is none or there is no value.
pub open spec fn number_or(value: Option<Seq<char>>, most: int, fallback: int) -> int {
    match value {
        Some(value) => match parse_decimal(value, false, 0, most) {
            Some(n) => n,
            None => fallback,
        },
        None => fallback,
    }
}

/// A number in decimal: another where the value is none or there is no value.
pub fn usize_value(values: &FormValues, key: &str, fallback: usize) -> (n: usize)
    ensures
        n == number_or(value_of(values@, key@), usize::MAX as int, fallback as int),
{
    match values.get(key) {
        Some(value) => match parse_usize(value.as_str()) {
            Some(n) => n,
            None => fallback,
        },
        None => fallback,
    }
}

/// A number in decimal: another where the value is none or there is no value.
pub fn u64_value(values: &FormValues, key: &str, fallback: u64) -> (n: u64)
    ensures
        n == number_or(value_of(values@, key@), u64::MAX as int, fallback as int),
{
    match values.get(key) {
        Some(value) => match parse_u64(value.as_str()) {
            Some(n) => n,
            None => fallback,
        },
        None => fallback,
    }
}

/// The pieces of a list that are not blank, trimmed.
pub open spec fn listed_pieces(parts: Seq<Seq<char>>) -> Seq<Seq<char>>
    decreases parts.len(),
{
    if parts.len() == 0 {
        Seq::empty()
    } else {
        let front = listed_pieces(parts.drop_last());
        let piece = trim(parts.last());
        if piece.len() > 0 {
            front.push(piece)
        } else {
            front
        }
    }
}

/// A list of texts between commas: another where there is no value.
pub fn comma_list(value: &Option<String>, fallback: &Vec<String>) -> (list: Vec<String>)
    ensures
        texts(list@) == match *value {
            Some(raw) => listed_pieces(split(raw@, ',')),
            None => texts(fallback@),
        },
{
    match value {
        Some(raw) => {
            let chars = chars_of(raw.as_str());
            let parts = pieces(chars.as_slice(), ',');
            let ghost shown = parts@.map_values(|part: &[char]| part@);
            let mut list: Vec<String> = Vec::new();
            let mut i: usize = 0;
            assert(shown.take(0) =~= Seq::<Seq<char>>::empty());
            assert(texts(list@) =~= Seq::<Seq<char>>::empty());
            while i < parts.len()
                invariant
                    i <= parts.len(),
                    shown == parts@.map_values(|part: &[char]| part@),
                    texts(list@) == listed_pieces(shown.take(i as int)),
                decreases parts.len() - i,
            {
                let ghost before = list@;
                assert(shown[i as int] == parts[i as int]@);
                assert(shown.take(i + 1).drop_last() =~= shown.take(i as int));
                let piece = trimmed(parts[i]);
                if piece.len() > 0 {
                    let text = text_of(piece);
                    list.push(text);
                    assert(texts(list@) =~= texts(before).push(text@));
                }
                i += 1;
            }
            assert(shown.take(i as int) =~= shown);
            list
        },
        None => copy_list(fallback),
    }
}

/// How an HTTP mode is written in a form.
pub fn http_mode_value(mode: HttpMode) -> (text: String)
    ensures
        text@ == crate::runtime_manager::mode_name(mode),
{
    crate::runtime_manager::show_mode(mode)
}

/// The HTTP mode that a form names: another where it names none.
pub open spec fn mode_or(value: Option<Seq<char>>, fallback: HttpMode) -> HttpMode {
    if value == Some("http1"@) {
        HttpMode::Http1
    } else if value == Some("http2"@) {
        HttpMode::Http2
    } else if value == Some("auto"@) {
        HttpMode::Auto
    } else {
        fallback
    }
}

/// The HTTP mode that a form names: another where it names none.
pub fn http_mode_from_form(value: &Option<String>, fallback: HttpMode) -> (mode: HttpMode)
    ensures
        mode == mode_or(opt_text(*value), fallback),
{
    match value {
        Some(text) => {
            if same_text(text.as_str(), "http1") {
                HttpMode::Http1
            } else if same_text(text.as_str(), "http2") {
                HttpMode::Http2
            } else if same_text(text.as_str(), "auto") {
                HttpMode::Auto
            } else {
                fallback
            }
        },
        None => fallback,
    }
}

/// The HTTP mode that a form shows is read back.
pub proof fn modes_read_back(mode: HttpMode, fallback: HttpMode)
    ensures
        mode_or(Some(crate::runtime_manager::mode_name(mode)), fallback) == mode,
{
    reveal_strlit("auto");
    reveal_strlit("http1");
    reveal_strlit("http2");
    assert("auto"@.len() == 4);
    assert("http1"@.len() == 5 && "http1"@[4] == '1');
    assert("http2"@.len() == 5 && "http2"@[4] == '2');
}

// ---------------------------------------------------------------------------
// Settings
// ---------------------------------------------------------------------------

/// Whether settings are what a form makes of others: each value that the form has, in place of the
/// one there was; a flag is set where the form has it at all.
pub open spec fn settings_of_form(
    values: Map<Seq<char>, Seq<char>>,
    fallback: RuntimeSettingsFile,
    settings: RuntimeSettingsFile,
) -> bool {
    &&& settings.listen_addr@ == text_or(value_of(values, "listen_addr"@), fallback.listen_addr@)
    &&& settings.frontend_domain@ == text_or(value_of(values, "frontend_domain"@), fallback.frontend_domain@)
    &&& settings.backend_url@ == text_or(value_of(values, "backend_url"@), fallback.backend_url@)
    &&& settings.tls_cert_path@ == path_or(value_of(values, "tls_cert_path"@), fallback.tls_cert_path@)
    &&& settings.tls_key_path@ == path_or(value_of(values, "tls_key_path"@), fallback.tls_key_path@)
    &&& settings.sqlite_path@ == path_or(value_of(values, "sqlite_path"@), fallback.sqlite_path@)
    &&& opt_text(settings.ca_bundle_path) == optional_or(
        value_of(values, "ca_bundle_path"@),
        opt_text(fallback.ca_bundle_path),
    )
    &&& opt_text(settings.upstream_sni_override) == optional_or(
        value_of(values, "upstream_sni_override"@),
        opt_text(fallback.upstream_sni_override),
    )
    &&& settings.http_mode == mode_or(value_of(values, "http_mode"@), fallback.http_mode)
    &&& settings.flush_rows == number_or(
        value_of(values, "flush_rows"@),
        usize::MAX as int,
        fallback.flush_rows as int,
    )
    &&& settings.max_inflight_events == number_or(
        value_of(values, "max_inflight_events"@),
        usize::MAX as int,
        fallback.max_inflight_events as int,
    )
    &&& settings.body_max_bytes == number_or(
        value_of(values, "body_max_bytes"@),
        usize::MAX as int,
        fallback.body_max_bytes as int,
    )
    &&& settings.flush_interval_ms == number_or(
        value_of(values, "flush_interval_ms"@),
        u64::MAX as int,
        fallback.flush_interval_ms as int,
    )
    &&& settings.connect_timeout_ms == number_or(
        value_of(values, "connect_timeout_ms"@),
        u64::MAX as int,
        fallback.connect_timeout_ms as int,
    )
    &&& settings.request_timeout_ms == number_or(
        value_of(values, "request_timeout_ms"@),
        u64::MAX as int,
        fallback.request_timeout_ms as int,
    )
    &&& settings.idle_pool_timeout_ms == number_or(
        value_of(values, "idle_pool_timeout_ms"@),
        u64::MAX as int,
        fallback.idle_pool_timeout_ms as int,
    )
    &&& settings.graceful_shutdown_timeout_ms == number_or(
        value_of(values, "graceful_shutdown_timeout_ms"@),
        u64::MAX as int,
        fallback.graceful_shutdown_timeout_ms as int,
    )
    &&& settings.trust_proxy_headers == values.dom().contains("trust_proxy_headers"@)
    &&& settings.emit_keylog == values.dom().contains("emit_keylog"@)
    &&& texts(settings.header_allowlist@) == match value_of(values, "header_allowlist"@) {
        Some(raw) => listed_pieces(split(raw, ',')),
        None => texts(fallback.header_allowlist@),
    }
    &&& texts(settings.header_denylist@) == match value_of(values, "header_denylist"@) {
        Some(raw) => listed_pieces(split(raw, ',')),
        None => texts(fallback.header_denylist@),
    }
}

/// The settings that a form makes of others.
pub fn runtime_from_form(values: &FormValues, fallback: &RuntimeSettingsFile) -> (settings:
    RuntimeSettingsFile)
    ensures
        settings_of_form(values@, *fallback, settings),
{
    RuntimeSettingsFile {
        listen_addr: text_value(values, "listen_addr", fallback.listen_addr.as_str()),
        frontend_domain: text_value(values, "frontend_domain", fallback.frontend_domain.as_str()),
        backend_url: text_value(values, "backend_url", fallback.backend_url.as_str()),
        tls_cert_path: path_value(values, "tls_cert_path", fallback.tls_cert_path.as_str()),
        tls_key_path: path_value(values, "tls_key_path", fallback.tls_key_path.as_str()),
        sqlite_path: path_value(values, "sqlite_path", fallback.sqlite_path.as_str()),
        ca_bundle_path: optional_path_value(values, "ca_bundle_path", &fallback.ca_bundle_path),
        upstream_sni_override: optional_text_value(
            values,
            "upstream_sni_override",
            &fallback.upstream_sni_override,
        ),
        http_mode: http_mode_from_form(&values.get("http_mode"), fallback.http_mode),
        flush_rows: usize_value(values, "flush_rows", fallback.flush_rows),
        max_inflight_events: usize_value(values, "max_inflight_events", fallback.max_inflight_events),
        body_max_bytes: usize_value(values, "body_max_bytes", fallback.body_max_bytes),
        flush_interval_ms: u64_value(values, "flush_interval_ms", fallback.flush_interval_ms),
        connect_timeout_ms: u64_value(values, "connect_timeout_ms", fallback.connect_timeout_ms),
        request_timeout_ms: u64_value(values, "request_timeout_ms", fallback.request_timeout_ms),
        idle_pool_timeout_ms: u64_value(values, "idle_pool_timeout_ms", fallback.idle_pool_timeout_ms),
        graceful_shutdown_timeout_ms: u64_value(values, "graceful_shutdown_timeout_ms", fallback.graceful_shutdown_timeout_ms),
        trust_proxy_headers: values.contains_key("trust_proxy_headers"),
        emit_keylog: values.contains_key("emit_keylog"),
        header_allowlist: comma_list(&values.get("header_allowlist"), &fallback.header_allowlist),
        header_denylist: comma_list(&values.get("header_denylist"), &fallback.header_denylist),
    }
}

// ---------------------------------------------------------------------------
// Transforms
// ---------------------------------------------------------------------------

/// The name of a field of the transform with an index.
pub open spec fn field_name(index: nat, suffix: Seq<char>) -> Seq<char> {
    "transform_"@ + decimal_text(index) + "_"@ + suffix
}

/// The name of a field of the transform with an index.
pub fn owned_name(index: usize, suffix: &str) -> (name: String)
    ensures
        name@ == field_name(index as nat, suffix@),
{
    let name = joined("transform_", decimal(index as u64).as_str());
    let name = joined(name.as_str(), "_");
    joined(name.as_str(), suffix)
}

/// The value of a field of the transform with an index, where there is one.
pub open spec fn field_of(
    values: Map<Seq<char>, Seq<char>>,
    index: nat,
    suffix: Seq<char>,
) -> Option<Seq<char>> {
    value_of(values, field_name(index, suffix))
}

/// Whether a matcher is the one that a form describes; what is not known stands for everything.
pub open spec fn matcher_of_form(
    values: Map<Seq<char>, Seq<char>>,
    index: nat,
    matcher: TransformMatcherFile,
) -> bool {
    let kind = field_of(values, index, "matcher_type"@);
    let described = text_or(field_of(values, index, "matcher_pattern"@), Seq::empty());
    if kind == Some("url_glob"@) {
        matcher matches TransformMatcherFile::UrlGlob { pattern } && pattern@ == described
    } else if kind == Some("content_type_glob"@) {
        matcher matches TransformMatcherFile::ContentTypeGlob { pattern } && pattern@ == described
    } else {
        matcher is Everything
    }
}

/// The matcher that a form describes.
pub fn matcher_from_form(values: &FormValues, index: usize) -> (matcher: TransformMatcherFile)
    ensures
        matcher_of_form(values@, index as nat, matcher),
{
    let kind = text_value(values, owned_name(index, "matcher_type").as_str(), "any");
    proof {
        reveal_strlit("any");
        reveal_strlit("url_glob");
        reveal_strlit("content_type_glob");
        assert("any"@.len() == 3);
        assert("url_glob"@.len() == 8);
        assert("content_type_glob"@.len() == 17);
    }
    let pattern = text_value_owned(values, owned_name(index, "matcher_pattern").as_str());
    if same_text(kind.as_str(), "url_glob") {
        TransformMatcherFile::UrlGlob { pattern }
    } else if same_text(kind.as_str(), "content_type_glob") {
        TransformMatcherFile::ContentTypeGlob { pattern }
    } else {
        TransformMatcherFile::Everything {  }
    }
}

/// Whether a target is the one that a form describes; what is not known stands for the body.
pub open spec fn target_of_form(
    values: Map<Seq<char>, Seq<char>>,
    index: nat,
    target: TransformTargetFile,
) -> bool {
    let kind = field_of(values, index, "target_type"@);
    if kind == Some("any"@) {
        target is Everything
    } else if kind == Some("all_headers"@) {
        target is AllHeaders
    } else if kind == Some("header"@) {
        target matches TransformTargetFile::Header { name } && name@ == text_or(
            field_of(values, index, "target_name"@),
            Seq::empty(),
        )
    } else if kind == Some("cookies"@) {
        target is Cookies
    } else {
        target is Body
    }
}

/// The target that a form describes.
pub fn target_from_form(values: &FormValues, index: usize) -> (target: TransformTargetFile)
    ensures
        target_of_form(values@, index as nat, target),
{
    let kind = text_value(values, owned_name(index, "target_type").as_str(), "body");
    proof {
        reveal_strlit("any");
        reveal_strlit("body");
        reveal_strlit("all_headers");
        reveal_strlit("header");
        reveal_strlit("cookies");
        assert("any"@.len() == 3);
        assert("body"@.len() == 4);
        assert("all_headers"@.len() == 11);
        assert("header"@.len() == 6);
        assert("cookies"@.len() == 7);
    }
    if same_text(kind.as_str(), "any") {
        TransformTargetFile::Everything {  }
    } else if same_text(kind.as_str(), "all_headers") {
        TransformTargetFile::AllHeaders {  }
    } else if same_text(kind.as_str(), "header") {
        TransformTargetFile::Header {
            name: text_value_owned(values, owned_name(index, "target_name").as_str()),
        }
    } else if same_text(kind.as_str(), "cookies") {
        TransformTargetFile::Cookies {  }
    } else {
        TransformTargetFile::Body {  }
    }
}

/// Whether a rule is the one that a form describes.
pub open spec fn rule_of_form(
    values: Map<Seq<char>, Seq<char>>,
    index: nat,
    rule: TransformRuleFile,
) -> bool {
    &&& matcher_of_form(values, index, rule.matcher)
    &&& match rule.action {
        TransformActionFile::Replace { from, to } => from@ == text_or(
            field_of(values, index, "action_from"@),
            Seq::empty(),
        ) && to@ == text_or(field_of(values, index, "action_to"@), Seq::empty()),
    }
    &&& target_of_form(values, index, rule.target)
    &&& rule.stop == values.dom().contains(field_name(index, "stop"@))
}

/// The rules that a form describes: as many as it says, or as many as there were.
pub fn transforms_from_form(values: &FormValues, fallback: &Vec<TransformRuleFile>) -> (rules: Vec<
    TransformRuleFile,
>)
    ensures
        rules@.len() == number_or(
            value_of(values@, "transform_count"@),
            usize::MAX as int,
            fallback@.len() as int,
        ),
        forall|i: int| 0 <= i < rules@.len() ==> rule_of_form(values@, i as nat, #[trigger] rules@[i]),
{
    let count = usize_value(values, "transform_count", fallback.len());
    let mut rules: Vec<TransformRuleFile> = Vec::new();
    let mut index: usize = 0;
    while index < count
        invariant
            index <= count,
            rules.len() == index,
            forall|i: int|
                0 <= i < index ==> rule_of_form(values@, i as nat, #[trigger] rules@[i]),
        decreases count - index,
    {
        let rule = TransformRuleFile {
            matcher: matcher_from_form(values, index),
            action: TransformActionFile::Replace {
                from: text_value_owned(values, owned_name(index, "action_from").as_str()),
                to: text_value_owned(values, owned_name(index, "action_to").as_str()),
            },
            target: target_from_form(values, index),
            stop: values.contains_key(owned_name(index, "stop").as_str()),
        };
        rules.push(rule);
        index += 1;
    }
    rules
}

/// The kind of a matcher as a form shows it.
pub open spec fn matcher_kind(matcher: TransformMatcherFile) -> Seq<char> {
    match matcher {
        TransformMatcherFile::UrlGlob { .. } => "url_glob"@,
        TransformMatcherFile::ContentTypeGlob { .. } => "content_type_glob"@,
        TransformMatcherFile::Everything {  } => "any"@,
    }
}

/// The kind of a matcher as a form shows it.
pub fn matcher_type_value(value: &TransformMatcherFile) -> (text: String)
    ensures
        text@ == matcher_kind(*value),
{
    match value {
        TransformMatcherFile::UrlGlob { pattern: _ } => "url_glob".to_owned(),
        TransformMatcherFile::ContentTypeGlob { pattern: _ } => "content_type_glob".to_owned(),
        TransformMatcherFile::Everything {  } => "any".to_owned(),
    }
}

/// The pattern of a matcher as a form shows it.
pub open spec fn matcher_pattern(matcher: TransformMatcherFile) -> Seq<char> {
    match matcher {
        TransformMatcherFile::UrlGlob { pattern } => pattern@,
        TransformMatcherFile::ContentTypeGlob { pattern } => pattern@,
        TransformMatcherFile::Everything {  } => Seq::empty(),
    }
}

/// The pattern of a matcher as a form shows it.
pub fn matcher_pattern_value(value: &TransformMatcherFile) -> (text: String)
    ensures
        text@ == matcher_pattern(*value),
{
    match value {
        TransformMatcherFile::UrlGlob { pattern } => pattern.clone(),
        TransformMatcherFile::ContentTypeGlob { pattern } => pattern.clone(),
        TransformMatcherFile::Everything {  } => {
            let empty = String::new();
            assert(empty@ =~= Seq::<char>::empty());
            empty
        },
    }
}

/// The texts of an action as a form shows them.
pub fn action_values(value: &TransformActionFile) -> (texts: (String, String))
    ensures
        match *value {
            TransformActionFile::Replace { from, to } => texts.0@ == from@ && texts.1@ == to@,
        },
{
    match value {
        TransformActionFile::Replace { from, to } => (from.clone(), to.clone()),
    }
}

/// The kind of a target as a form shows it.
pub open spec fn target_kind(target: TransformTargetFile) -> Seq<char> {
    match target {
        TransformTargetFile::Everything {  } => "any"@,
        TransformTargetFile::Body {  } => "body"@,
        TransformTargetFile::AllHeaders {  } => "all_headers"@,
        TransformTargetFile::Header { .. } => "header"@,
        TransformTargetFile::Cookies {  } => "cookies"@,
    }
}

/// The kind of a target as a form shows it.
pub fn target_type_value(value: &TransformTargetFile) -> (text: String)
    ensures
        text@ == target_kind(*value),
{
    match value {
        TransformTargetFile::Everything {  } => "any".to_owned(),
        TransformTargetFile::Body {  } => "body".to_owned(),
        TransformTargetFile::AllHeaders {  } => "all_headers".to_owned(),
        TransformTargetFile::Header { name: _ } => "header".to_owned(),
        TransformTargetFile::Cookies {  } => "cookies".to_owned(),
    }
}

/// The header name of a target as a form shows it.
pub open spec fn target_name(target: TransformTargetFile) -> Seq<char> {
    match target {
        TransformTargetFile::Header { name } => name@,
        _ => Seq::empty(),
    }
}

/// The header name of a target as a form shows it.
pub fn target_name_value(value: &TransformTargetFile) -> (text: String)
    ensures
        text@ == target_name(*value),
{
    match value {
        TransformTargetFile::Header { name } => name.clone(),
        _ => {
            let empty = String::new();
            assert(empty@ =~= Seq::<char>::empty());
            empty
        },
    }
}

/// Whether a form shows a rule in the fields of an index.
pub open spec fn form_shows(
    values: Map<Seq<char>, Seq<char>>,
    index: nat,
    rule: TransformRuleFile,
) -> bool {
    &&& field_of(values, index, "matcher_type"@) == Some(matcher_kind(rule.matcher))
    &&& field_of(values, index, "matcher_pattern"@) == Some(matcher_pattern(rule.matcher))
    &&& field_of(values, index, "action_from"@) == Some(
        match rule.action {
            TransformActionFile::Replace { from, to } => from@,
        },
    )
    &&& field_of(values, index, "action_to"@) == Some(
        match rule.action {
            TransformActionFile::Replace { from, to } => to@,
        },
    )
    &&& field_of(values, index, "target_type"@) == Some(target_kind(rule.target))
    &&& field_of(values, index, "target_name"@) == Some(target_name(rule.target))
    &&& values.dom().contains(field_name(index, "stop"@)) == rule.stop
}

/// A rule that a form shows is the rule that is read back from it.
pub proof fn rules_read_back(
    values: Map<Seq<char>, Seq<char>>,
    index: nat,
    shown: TransformRuleFile,
    read: TransformRuleFile,
)
    requires
        form_shows(values, index, shown),
        rule_of_form(values, index, read),
    ensures
        read.says_same(shown),
{
    reveal_strlit("any");
    reveal_strlit("body");
    reveal_strlit("all_headers");
    reveal_strlit("header");
    reveal_strlit("cookies");
    reveal_strlit("url_glob");
    reveal_strlit("content_type_glob");
    assert("any"@.len() == 3);
    assert("body"@.len() == 4);
    assert("all_headers"@.len() == 11);
    assert("header"@.len() == 6);
    assert("cookies"@.len() == 7);
    assert("url_glob"@.len() == 8);
    assert("content_type_glob"@.len() == 17);
}

/// The value under a name is the last one that the form gives it.
pub proof fn the_last_value_counts(
    pairs: Seq<(String, String)>,
    pair: (String, String),
    key: Seq<char>,
)
    ensures
        value_of(form_map(Seq::empty()), key) is None,
        pair.0@ == key ==> value_of(form_map(pairs.push(pair)), key) == Some(pair.1@),
        pair.0@ != key ==> value_of(form_map(pairs.push(pair)), key) == value_of(
            form_map(pairs),
            key,
        ),
{
    assert(pairs.push(pair).drop_last() =~= pairs);
}

/// A field that the form leaves out keeps what was there. A text field takes what the form says; a
/// path does so unless it is blank; an optional field is emptied by a blank; a number takes what is
/// a number within its bounds.
pub proof fn fields_take_what_the_form_says(
    value: Seq<char>,
    kept: Seq<char>,
    optional: Option<Seq<char>>,
    most: int,
    number: int,
)
    ensures
        text_or(None, kept) == kept,
        text_or(Some(value), kept) == value,
        path_or(None, kept) == kept,
        trim(value).len() == 0 ==> path_or(Some(value), kept) == kept,
        trim(value).len() > 0 ==> path_or(Some(value), kept) == value,
        optional_or(None, optional) == optional,
        trim(value).len() == 0 ==> optional_or(Some(value), optional) is None,
        trim(value).len() > 0 ==> optional_or(Some(value), optional) == Some(value),
        number_or(None, most, number) == number,
        parse_decimal(value, false, 0, most) is None ==> number_or(Some(value), most, number)
            == number,
        parse_decimal(value, false, 0, most) matches Some(n) ==> number_or(
            Some(value),
            most,
            number,
        ) == n,
{
}

/// A list holds what stands between commas, in its order, without white space around it; blank
/// entries are left out.
pub proof fn lists_hold_what_stands_between_commas(parts: Seq<Seq<char>>, part: Seq<char>)
    ensures
        listed_pieces(Seq::empty()) == Seq::<Seq<char>>::empty(),
        trim(part).len() == 0 ==> listed_pieces(parts.push(part)) == listed_pieces(parts),
        trim(part).len() > 0 ==> listed_pieces(parts.push(part)) == listed_pieces(parts).push(
            trim(part),
        ),
{
    assert(parts.push(part).drop_last() =~= parts);
}

/// The settings that a form describes are what its fields say, each under its name, and else what
/// they were; a flag is set where the form has it.
pub proof fn settings_are_what_the_form_says(
    values: Map<Seq<char>, Seq<char>>,
    before: RuntimeSettingsFile,
    after: RuntimeSettingsFile,
)
    requires
        settings_of_form(values, before, after),
    ensures
        after.listen_addr@ == text_or(value_of(values, "listen_addr"@), before.listen_addr@),
        after.frontend_domain@ == text_or(
            value_of(values, "frontend_domain"@),
            before.frontend_domain@,
        ),
        after.backend_url@ == text_or(value_of(values, "backend_url"@), before.backend_url@),
        after.tls_cert_path@ == path_or(value_of(values, "tls_cert_path"@), before.tls_cert_path@),
        after.tls_key_path@ == path_or(value_of(values, "tls_key_path"@), before.tls_key_path@),
        after.sqlite_path@ == path_or(value_of(values, "sqlite_path"@), before.sqlite_path@),
        opt_text(after.ca_bundle_path) == optional_or(
            value_of(values, "ca_bundle_path"@),
            opt_text(before.ca_bundle_path),
        ),
        opt_text(after.upstream_sni_override) == optional_or(
            value_of(values, "upstream_sni_override"@),
            opt_text(before.upstream_sni_override),
        ),
        value_of(values, "http_mode"@) == Some("http1"@) ==> after.http_mode == HttpMode::Http1,
        value_of(values, "http_mode"@) == Some("http2"@) ==> after.http_mode == HttpMode::Http2,
        value_of(values, "http_mode"@) == Some("auto"@) ==> after.http_mode == HttpMode::Auto,
        value_of(values, "http_mode"@) is None ==> after.http_mode == before.http_mode,
        after.flush_rows == number_or(
            value_of(values, "flush_rows"@),
            usize::MAX as int,
            before.flush_rows as int,
        ),
        after.max_inflight_events == number_or(
            value_of(values, "max_inflight_events"@),
            usize::MAX as int,
            before.max_inflight_events as int,
        ),
        after.body_max_bytes == number_or(
            value_of(values, "body_max_bytes"@),
            usize::MAX as int,
            before.body_max_bytes as int,
        ),
        after.flush_interval_ms == number_or(
            value_of(values, "flush_interval_ms"@),
            u64::MAX as int,
            before.flush_interval_ms as int,
        ),
        after.connect_timeout_ms == number_or(
            value_of(values, "connect_timeout_ms"@),
            u64::MAX as int,
            before.connect_timeout_ms as int,
        ),
        after.request_timeout_ms == number_or(
            value_of(values, "request_timeout_ms"@),
            u64::MAX as int,
            before.request_timeout_ms as int,
        ),
        after.idle_pool_timeout_ms == number_or(
            value_of(values, "idle_pool_timeout_ms"@),
            u64::MAX as int,
            before.idle_pool_timeout_ms as int,
        ),
        after.graceful_shutdown_timeout_ms == number_or(
            value_of(values, "graceful_shutdown_timeout_ms"@),
            u64::MAX as int,
            before.graceful_shutdown_timeout_ms as int,
        ),
        after.trust_proxy_headers == (value_of(values, "trust_proxy_headers"@) is Some),
        after.emit_keylog == (value_of(values, "emit_keylog"@) is Some),
        value_of(values, "header_allowlist"@) is None ==> texts(after.header_allowlist@) == texts(
            before.header_allowlist@,
        ),
        value_of(values, "header_allowlist"@) matches Some(raw) ==> texts(after.header_allowlist@)
            == listed_pieces(split(raw, ',')),
        value_of(values, "header_denylist"@) is None ==> texts(after.header_denylist@) == texts(
            before.header_denylist@,
        ),
        value_of(values, "header_denylist"@) matches Some(raw) ==> texts(after.header_denylist@)
            == listed_pieces(split(raw, ',')),
{
    reveal_strlit("http1");
    reveal_strlit("http2");
    reveal_strlit("auto");
    assert("auto"@.len() == 4 && "http1"@.len() == 5 && "http1"@[4] == '1' && "http2"@[4] == '2');
}

/// The rule that a form describes under a number has the matcher, the texts, the target and the
/// `stop` of the fields with that number in their names.
pub proof fn rules_are_what_the_form_says(
    values: Map<Seq<char>, Seq<char>>,
    index: nat,
    rule: TransformRuleFile,
)
    requires
        rule_of_form(values, index, rule),
    ensures
        ({
            let front = "transform_"@ + decimal_text(index) + "_"@;
            let matcher = value_of(values, front + "matcher_type"@);
            let pattern = text_or(value_of(values, front + "matcher_pattern"@), Seq::empty());
            let target = value_of(values, front + "target_type"@);
            let name = text_or(value_of(values, front + "target_name"@), Seq::empty());
            &&& matcher == Some("url_glob"@) ==> rule.matcher is UrlGlob
                && rule.matcher->UrlGlob_pattern@ == pattern
            &&& matcher == Some("content_type_glob"@) ==> rule.matcher is ContentTypeGlob
                && rule.matcher->ContentTypeGlob_pattern@ == pattern
            &&& matcher == Some("any"@) || matcher is None ==> rule.matcher is Everything
            &&& target == Some("any"@) ==> rule.target is Everything
            &&& target == Some("body"@) || target is None ==> rule.target is Body
            &&& target == Some("all_headers"@) ==> rule.target is AllHeaders
            &&& target == Some("header"@) ==> rule.target is Header && rule.target->name@ == name
            &&& target == Some("cookies"@) ==> rule.target is Cookies
            &&& rule.action->from@ == text_or(value_of(values, front + "action_from"@), Seq::empty())
            &&& rule.action->to@ == text_or(value_of(values, front + "action_to"@), Seq::empty())
            &&& rule.stop == (value_of(values, front + "stop"@) is Some)
        }),
{
    reveal_strlit("any");
    reveal_strlit("body");
    reveal_strlit("all_headers");
    reveal_strlit("header");
    reveal_strlit("cookies");
    reveal_strlit("url_glob");
    reveal_strlit("content_type_glob");
    assert("any"@.len() == 3 && "body"@.len() == 4 && "all_headers"@.len() == 11 && "header"@.len()
        == 6 && "cookies"@.len() == 7 && "url_glob"@.len() == 8 && "content_type_glob"@.len()
        == 17);
}

} // verus!
