//! The settings of the proxy: as they are written, and as it runs with them.
use crate::cli::HttpMode;
use crate::number::{decimal, decimal_text};
use crate::text::{
    bytes_of, chars_of, copy_list, copy_text, first_at, is_space, joined, lemma_first_at_bounds,
    lower, lower_is_idempotent, lowered, opt_str, opt_text, pieces, position_of, same_text, split, text_of,
    texts, to_lower, trim, trim_end_char, trimmed, trimmed_end_of,
};
use crate::transform::{
    first_rule_fault, rules_describe, TransformConfig, TransformError, TransformFault,
    TransformRuleFile,
};
use vstd::prelude::*;
use vstd::utf8::encode_utf8;

verus! {

// ---------------------------------------------------------------------------
// Which headers are logged
// ---------------------------------------------------------------------------

/// The header names that a list of settings stands for: trimmed, in lower case, none empty.
pub open spec fn header_names(values: Seq<String>) -> Set<Seq<char>> {
    Set::new(
        |name: Seq<char>|
            name.len() > 0 && exists|i: int|
                0 <= i < values.len() && name == lower(trim(#[trigger] values[i]@)),
    )
}

/// Brings header names into the form in which they are compared, each once.
pub fn normalize_header_names(values: &Vec<String>) -> (names: Vec<String>)
    ensures
        texts(names@).to_set() == header_names(values@),
        texts(names@).no_duplicates(),
{
    let mut names: Vec<String> = Vec::new();
    let mut i: usize = 0;
    assert(texts(names@) == Seq::<Seq<char>>::empty());
    while i < values.len()
        invariant
            i <= values.len(),
            texts(names@).no_duplicates(),
            forall|name: Seq<char>|
                texts(names@).contains(name) <==> name.len() > 0 && exists|j: int|
                    0 <= j < i && name == lower(trim(#[trigger] values[j]@)),
        decreases values.len() - i,
    {
        let name = text_of(
            to_lower(trimmed(chars_of(values[i].as_str()).as_slice())).as_slice(),
        );
        let ghost before = texts(names@);
        let fresh = chars_of(name.as_str()).len() > 0 && position_of(
            &names,
            name.as_str(),
        ).is_none();
        if fresh {
            names.push(name);
            assert(texts(names@) =~= before.push(name@));
        } else {
            assert(name@.len() > 0 ==> before.contains(name@)) by {
                if name@.len() > 0 {
                    let k = choose|k: int| 0 <= k < names.len() && names[k]@ == name@;
                    assert(before[k] == name@);
                }
            }
        }
        assert forall|other: Seq<char>|
            texts(names@).contains(other) <==> other.len() > 0 && exists|j: int|
                0 <= j < i + 1 && other == lower(trim(#[trigger] values[j]@)) by {
            if fresh {
                if texts(names@).contains(other) {
                    let k = choose|k: int| 0 <= k < texts(names@).len() && texts(names@)[k] == other;
                    if k < before.len() {
                        assert(before[k] == other);
                        assert(before.contains(other));
                    } else {
                        assert(other == lower(trim(values[i as int]@)));
                    }
                }
                if before.contains(other) {
                    let k = choose|k: int| 0 <= k < before.len() && before[k] == other;
                    assert(texts(names@)[k] == other);
                }
                if other == name@ {
                    assert(texts(names@)[before.len() as int] == other);
                }
            }
            if other.len() > 0 && exists|j: int|
                0 <= j < i + 1 && other == lower(trim(#[trigger] values[j]@)) {
                let j = choose|j: int| 0 <= j < i + 1 && other == lower(trim(#[trigger] values[j]@));
                if j < i {
                    assert(before.contains(other));
                } else {
                    assert(other == name@);
                }
            }
        }
        i += 1;
    }
    assert(texts(names@).to_set() =~= header_names(values@));
    names
}

/// Which headers are written to the log: those of the allowlist, where it names any, else all
/// but those of the denylist.
#[derive(Debug, Clone)]
pub struct HeaderLogPolicy {
    allowlist: Vec<String>,
    denylist: Vec<String>,
}

impl HeaderLogPolicy {
    /// The names on the allowlist.
    pub closed spec fn allowed(self) -> Set<Seq<char>> {
        texts(self.allowlist@).to_set()
    }

    /// The names on the denylist.
    pub closed spec fn denied(self) -> Set<Seq<char>> {
        texts(self.denylist@).to_set()
    }

    /// Whether headers with a name are logged.
    pub open spec fn logs(self, name: Seq<char>) -> bool {
        if self.allowed() != Set::<Seq<char>>::empty() {
            self.allowed().contains(lower(name))
        } else {
            !self.denied().contains(lower(name))
        }
    }

    /// The policy that two lists of settings stand for.
    pub fn new(allowlist: &Vec<String>, denylist: &Vec<String>) -> (policy: HeaderLogPolicy)
        ensures
            policy.allowed() == header_names(allowlist@),
            policy.denied() == header_names(denylist@),
    {
        HeaderLogPolicy {
            allowlist: normalize_header_names(allowlist),
            denylist: normalize_header_names(denylist),
        }
    }

    /// Whether headers with a name are logged.
    pub fn allows(&self, header_name: &str) -> (result: bool)
        ensures
            result == self.logs(header_name@),
    {
        let normalized = lowered(header_name);
        if self.allowlist.len() > 0 {
            assert(texts(self.allowlist@)[0] == self.allowlist[0]@);
            assert(self.allowed().contains(self.allowlist[0]@));
            listed(&self.allowlist, &normalized)
        } else {
            assert(self.allowed() =~= Set::<Seq<char>>::empty());
            !listed(&self.denylist, &normalized)
        }
    }
}

/// Whether a list holds a text.
fn listed(list: &Vec<String>, wanted: &String) -> (result: bool)
    ensures
        result == texts(list@).to_set().contains(wanted@),
{
    match position_of(list, wanted.as_str()) {
        Some(i) => {
            assert(texts(list@)[i as int] == wanted@);
            true
        },
        None => false,
    }
}

impl Default for HeaderLogPolicy {
    fn default() -> (policy: HeaderLogPolicy)
        ensures
            policy.allowed() == Set::<Seq<char>>::empty(),
            policy.denied() == Set::<Seq<char>>::empty(),
    {
        let policy = HeaderLogPolicy { allowlist: Vec::new(), denylist: Vec::new() };
        assert(policy.allowed() =~= Set::<Seq<char>>::empty());
        assert(policy.denied() =~= Set::<Seq<char>>::empty());
        policy
    }
}

/// Letter case makes no difference to whether a header is logged.
pub proof fn logging_ignores_letter_case(policy: HeaderLogPolicy, a: Seq<char>, b: Seq<char>)
    requires
        lower(a) == lower(b),
    ensures
        policy.logs(a) == policy.logs(b),
{
}

/// An allowlist that names a header makes the denylist irrelevant.
pub proof fn allowlist_overrides_denylist(
    policy: HeaderLogPolicy,
    other: HeaderLogPolicy,
    name: Seq<char>,
)
    requires
        policy.allowed() == other.allowed(),
        policy.allowed() != Set::<Seq<char>>::empty(),
    ensures
        policy.logs(name) == other.logs(name),
{
}

// ---------------------------------------------------------------------------
// Settings as they are written
// ---------------------------------------------------------------------------

/// The runtime settings as they are written.
#[derive(Debug, Clone)]
pub struct RuntimeSettingsFile {
    pub listen_addr: String,
    pub frontend_domain: String,
    pub backend_url: String,
    pub tls_cert_path: String,
    pub tls_key_path: String,
    pub sqlite_path: String,
    pub ca_bundle_path: Option<String>,
    pub upstream_sni_override: Option<String>,
    pub http_mode: HttpMode,
    pub flush_rows: usize,
    pub flush_interval_ms: u64,
    pub max_inflight_events: usize,
    pub body_max_bytes: usize,
    pub connect_timeout_ms: u64,
    pub request_timeout_ms: u64,
    pub idle_pool_timeout_ms: u64,
    pub graceful_shutdown_timeout_ms: u64,
    pub trust_proxy_headers: bool,
    pub emit_keylog: bool,
    pub header_allowlist: Vec<String>,
    pub header_denylist: Vec<String>,
}

/// The whole configuration as it is written.
#[derive(Debug, Clone)]
pub struct AppConfigFile {
    pub runtime: RuntimeSettingsFile,
    pub transforms: Vec<TransformRuleFile>,
}

/// Where events are kept unless the settings say otherwise.
pub fn default_sqlite_path() -> (path: String)
    ensures
        path@ == "./data/kidproxy.sqlite"@,
{
    "./data/kidproxy.sqlite".to_owned()
}

/// The HTTP versions used upstream unless the settings say otherwise.
pub fn default_http_mode() -> (mode: HttpMode)
    ensures
        mode == HttpMode::Auto,
{
    HttpMode::Auto
}

pub fn default_flush_rows() -> (rows: usize)
    ensures
        rows == 5_000,
{
    5_000
}

pub fn default_flush_interval_ms() -> (ms: u64)
    ensures
        ms == 2_000,
{
    2_000
}

pub fn default_max_inflight_events() -> (events: usize)
    ensures
        events == 10_000,
{
    10_000
}

pub fn default_body_max_bytes() -> (bytes: usize)
    ensures
        bytes == 65_536,
{
    65_536
}

pub fn default_connect_timeout_ms() -> (ms: u64)
    ensures
        ms == 5_000,
{
    5_000
}

pub fn default_request_timeout_ms() -> (ms: u64)
    ensures
        ms == 180_000,
{
    180_000
}

pub fn default_idle_pool_timeout_ms() -> (ms: u64)
    ensures
        ms == 90_000,
{
    90_000
}

pub fn default_graceful_shutdown_timeout_ms() -> (ms: u64)
    ensures
        ms == 10_000,
{
    10_000
}

impl Default for RuntimeSettingsFile {
    fn default() -> (settings: RuntimeSettingsFile)
        ensures
            settings.listen_addr@ == "127.0.0.1:8443"@,
            settings.frontend_domain@ == "example.test"@,
            settings.backend_url@ == "https://backend.example"@,
            settings.tls_cert_path@ == "./certs/fullchain.pem"@,
            settings.tls_key_path@ == "./certs/privkey.pem"@,
            settings.sqlite_path@ == "./data/kidproxy.sqlite"@,
            settings.ca_bundle_path is None,
            settings.upstream_sni_override is None,
            settings.http_mode == HttpMode::Auto,
            settings.flush_rows == 5_000,
            settings.flush_interval_ms == 2_000,
            settings.max_inflight_events == 10_000,
            settings.body_max_bytes == 65_536,
            settings.connect_timeout_ms == 5_000,
            settings.request_timeout_ms == 180_000,
            settings.idle_pool_timeout_ms == 90_000,
            settings.graceful_shutdown_timeout_ms == 10_000,
            !settings.trust_proxy_headers,
            !settings.emit_keylog,
            settings.header_allowlist@.len() == 0,
            settings.header_denylist@.len() == 0,
    {
        RuntimeSettingsFile {
            listen_addr: "127.0.0.1:8443".to_owned(),
            frontend_domain: "example.test".to_owned(),
            backend_url: "https://backend.example".to_owned(),
            tls_cert_path: "./certs/fullchain.pem".to_owned(),
            tls_key_path: "./certs/privkey.pem".to_owned(),
            sqlite_path: default_sqlite_path(),
            ca_bundle_path: None,
            upstream_sni_override: None,
            http_mode: default_http_mode(),
            flush_rows: default_flush_rows(),
            flush_interval_ms: default_flush_interval_ms(),
            max_inflight_events: default_max_inflight_events(),
            body_max_bytes: default_body_max_bytes(),
            connect_timeout_ms: default_connect_timeout_ms(),
            request_timeout_ms: default_request_timeout_ms(),
            idle_pool_timeout_ms: default_idle_pool_timeout_ms(),
            graceful_shutdown_timeout_ms: default_graceful_shutdown_timeout_ms(),
            trust_proxy_headers: false,
            emit_keylog: false,
            header_allowlist: Vec::new(),
            header_denylist: Vec::new(),
        }
    }
}

// ---------------------------------------------------------------------------
// What can be wrong with settings
// ---------------------------------------------------------------------------

/// A file that has to be readable before the proxy starts.
#[derive(Debug, Clone, Copy, PartialEq, Eq, Structural)]
pub enum RequiredFile {
    TlsCert,
    TlsKey,
    CaBundle,
}

impl RequiredFile {
    pub open spec fn label_text(self) -> Seq<char> {
        match self {
            RequiredFile::TlsCert => "TLS cert"@,
            RequiredFile::TlsKey => "TLS key"@,
            RequiredFile::CaBundle => "CA bundle"@,
        }
    }

    /// How messages call the file.
    pub fn label(self) -> (text: &'static str)
        ensures
            text@ == self.label_text(),
    {
        match self {
            RequiredFile::TlsCert => "TLS cert",
            RequiredFile::TlsKey => "TLS key",
            RequiredFile::CaBundle => "CA bundle",
        }
    }
}

/// Why the proxy cannot run with its settings.
#[derive(Debug, Clone)]
pub enum ConfigError {
    InvalidListenAddr,
    EmptyDomain,
    InvalidDomain,
    InvalidBackendUrl,
    BackendNotHttps,
    BackendWithoutHost,
    BackendWithoutPort,
    Unreadable { file: RequiredFile, path: String },
    DirectoryNotCreated(String),
    NotPositive(String),
    Transform(TransformError),
    InvalidUpstreamUri(String),
    UpstreamUrlTooLong,
}

/// What a `ConfigError` says.
pub ghost enum ConfigFault {
    InvalidListenAddr,
    EmptyDomain,
    InvalidDomain,
    InvalidBackendUrl,
    BackendNotHttps,
    BackendWithoutHost,
    BackendWithoutPort,
    Unreadable { file: RequiredFile, path: Seq<char> },
    DirectoryNotCreated(Seq<char>),
    NotPositive(Seq<char>),
    Transform(TransformFault),
    InvalidUpstreamUri(Seq<char>),
    UpstreamUrlTooLong,
}

impl View for ConfigError {
    type V = ConfigFault;

    open spec fn view(&self) -> ConfigFault {
        match *self {
            ConfigError::InvalidListenAddr => ConfigFault::InvalidListenAddr,
            ConfigError::EmptyDomain => ConfigFault::EmptyDomain,
            ConfigError::InvalidDomain => ConfigFault::InvalidDomain,
            ConfigError::InvalidBackendUrl => ConfigFault::InvalidBackendUrl,
            ConfigError::BackendNotHttps => ConfigFault::BackendNotHttps,
            ConfigError::BackendWithoutHost => ConfigFault::BackendWithoutHost,
            ConfigError::BackendWithoutPort => ConfigFault::BackendWithoutPort,
            ConfigError::Unreadable { file, path } => ConfigFault::Unreadable { file, path: path@ },
            ConfigError::DirectoryNotCreated(path) => ConfigFault::DirectoryNotCreated(path@),
            ConfigError::NotPositive(label) => ConfigFault::NotPositive(label@),
            ConfigError::Transform(error) => ConfigFault::Transform(error@),
            ConfigError::InvalidUpstreamUri(url) => ConfigFault::InvalidUpstreamUri(url@),
            ConfigError::UpstreamUrlTooLong => ConfigFault::UpstreamUrlTooLong,
        }
    }
}

impl ConfigError {
    /// The message that describes the error.
    pub open spec fn message_text(self) -> Seq<char> {
        match self {
            ConfigError::InvalidListenAddr => "invalid listen address"@,
            ConfigError::EmptyDomain => "domain must not be empty"@,
            ConfigError::InvalidDomain => "domain must be a valid DNS name"@,
            ConfigError::InvalidBackendUrl => "invalid backend URL"@,
            ConfigError::BackendNotHttps => "backend URL must use https"@,
            ConfigError::BackendWithoutHost => "backend URL must include a host"@,
            ConfigError::BackendWithoutPort => "backend URL must include a known HTTPS port"@,
            ConfigError::Unreadable { file, path } => file.label_text()
                + " path is not readable: "@ + path@,
            ConfigError::DirectoryNotCreated(path) => "failed to create "@ + path@,
            ConfigError::NotPositive(label) => label@ + " must be greater than zero"@,
            ConfigError::Transform(error) => error.message_text(),
            ConfigError::InvalidUpstreamUri(url) => "failed to build upstream URI from "@ + url@,
            ConfigError::UpstreamUrlTooLong => "upstream URL is too long"@,
        }
    }

    /// The message that describes the error.
    pub fn message(&self) -> (text: String)
        ensures
            text@ == self.message_text(),
    {
        match self {
            ConfigError::InvalidListenAddr => "invalid listen address".to_owned(),
            ConfigError::EmptyDomain => "domain must not be empty".to_owned(),
            ConfigError::InvalidDomain => "domain must be a valid DNS name".to_owned(),
            ConfigError::InvalidBackendUrl => "invalid backend URL".to_owned(),
            ConfigError::BackendNotHttps => "backend URL must use https".to_owned(),
            ConfigError::BackendWithoutHost => "backend URL must include a host".to_owned(),
            ConfigError::BackendWithoutPort => "backend URL must include a known HTTPS port".to_owned(),
            ConfigError::Unreadable { file, path } => joined(
                joined(file.label(), " path is not readable: ").as_str(),
                path.as_str(),
            ),
            ConfigError::DirectoryNotCreated(path) => joined("failed to create ", path.as_str()),
            ConfigError::NotPositive(label) => joined(
                label.as_str(),
                " must be greater than zero",
            ),
            ConfigError::Transform(error) => error.message(),
            ConfigError::InvalidUpstreamUri(url) => joined(
                "failed to build upstream URI from ",
                url.as_str(),
            ),
            ConfigError::UpstreamUrlTooLong => "upstream URL is too long".to_owned(),
        }
    }
}

/// Refuses a setting of zero.
pub fn validate_positive(label: &str, value: u64) -> (result: Result<(), ConfigError>)
    ensures
        match result {
            Ok(_) => value > 0,
            Err(error) => value == 0 && error@ == ConfigFault::NotPositive(label@),
        },
{
    if value == 0 {
        Err(ConfigError::NotPositive(label.to_owned()))
    } else {
        Ok(())
    }
}

// ---------------------------------------------------------------------------
// Domains, paths and URLs
// ---------------------------------------------------------------------------

/// An ASCII letter, an ASCII digit or a hyphen.
pub open spec fn is_label_char(c: char) -> bool {
    'a' <= c <= 'z' || 'A' <= c <= 'Z' || '0' <= c <= '9' || c == '-'
}

/// A label of a domain name: at most 63 letters, digits and hyphens, with no hyphen at either end.
pub open spec fn is_label(label: Seq<char>) -> bool {
    &&& 0 < label.len() <= 63
    &&& label[0] != '-'
    &&& label.last() != '-'
    &&& forall|i: int| 0 <= i < label.len() ==> is_label_char(#[trigger] label[i])
}

/// Labels with dots between them, and perhaps one more dot at the end.
pub open spec fn are_labels(name: Seq<char>) -> bool {
    let labels = split(name, '.');
    &&& forall|i: int| 0 <= i < labels.len() - 1 ==> is_label(#[trigger] labels[i])
    &&& is_label(labels.last()) || labels.len() > 1 && labels.last().len() == 0
}

/// Whether rama's `Domain` takes a text for a domain name: at most 253 characters that are labels
/// with dots between them. Where a dot stands in front, the character behind it may be any of
/// ASCII but another dot, and the labels are what follows.
pub open spec fn is_domain(text: Seq<char>) -> bool {
    &&& 0 < text.len() <= 253
    &&& if text[0] == '.' {
        text.len() > 2 && text[1] != '.' && text[1] as u32 <= 0x7f && are_labels(text.skip(2))
    } else {
        are_labels(text)
    }
}

/// Parsing a text as rama's `Domain` gives the text as it is written where it is a domain name, and
/// refuses it otherwise.
#[verifier::external_body]
fn parse_domain(text: &str) -> (domain: Option<String>)
    ensures
        domain is Some == is_domain(text@),
        domain matches Some(domain) ==> domain@ == text@,
{
    text.parse::<rama::net::address::Domain>().ok().map(|domain| domain.to_string())
}

/// A domain as it is compared: without white space around it or dots at its end, in lower case.
pub open spec fn domain_result(raw: Seq<char>) -> Result<Seq<char>, ConfigFault> {
    let trimmed = trim_end_char(trim(raw), '.');
    if trimmed.len() == 0 {
        Err(ConfigFault::EmptyDomain)
    } else if !is_domain(trimmed) {
        Err(ConfigFault::InvalidDomain)
    } else {
        Ok(lower(trimmed))
    }
}

/// Brings a domain into the form in which it is compared.
pub fn normalize_domain(raw: &str) -> (result: Result<String, ConfigError>)
    ensures
        match result {
            Ok(domain) => domain_result(raw@) == Ok::<Seq<char>, ConfigFault>(domain@),
            Err(error) => domain_result(raw@) == Err::<Seq<char>, ConfigFault>(error@),
        },
{
    let chars = chars_of(raw);
    let kept = trimmed_end_of(trimmed(chars.as_slice()), '.');
    if kept.len() == 0 {
        return Err(ConfigError::EmptyDomain);
    }
    accept_domain(parse_domain(text_of(kept).as_str()))
}

/// A domain as it is compared, given what it was parsed to.
pub fn accept_domain(domain: Option<String>) -> (result: Result<String, ConfigError>)
    ensures
        match domain {
            Some(domain) => result matches Ok(text) && text@ == lower(domain@),
            None => result == Err::<String, ConfigError>(ConfigError::InvalidDomain),
        },
{
    match domain {
        Some(domain) => Ok(lowered(domain.as_str())),
        None => Err(ConfigError::InvalidDomain),
    }
}

/// Lower case does not move the first dot.
proof fn lemma_first_dot_of_lower(s: Seq<char>)
    ensures
        first_at(lower(s), '.') == first_at(s, '.'),
    decreases s.len(),
{
    if s.len() > 0 && s[0] != '.' {
        lemma_first_dot_of_lower(s.skip(1));
        assert(lower(s).skip(1) =~= lower(s.skip(1)));
    }
}

/// The labels of a text in lower case are its labels in lower case.
proof fn lemma_labels_of_lower(s: Seq<char>)
    ensures
        split(lower(s), '.') == split(s, '.').map_values(|label: Seq<char>| lower(label)),
    decreases s.len(),
{
    let i = first_at(s, '.');
    lemma_first_dot_of_lower(s);
    lemma_first_at_bounds(s, '.');
    if i < s.len() {
        lemma_labels_of_lower(s.skip(i + 1));
        assert(lower(s).take(i) =~= lower(s.take(i)));
        assert(lower(s).skip(i + 1) =~= lower(s.skip(i + 1)));
    }
    assert(split(lower(s), '.') =~= split(s, '.').map_values(|label: Seq<char>| lower(label)));
}

/// Labels stay labels in lower case.
proof fn lemma_lower_keeps_labels(s: Seq<char>)
    requires
        are_labels(s),
    ensures
        are_labels(lower(s)),
{
    lemma_labels_of_lower(s);
    lemma_split_ends(s);
    let labels = split(s, '.');
    let lowered = split(lower(s), '.');
    assert forall|i: int| 0 <= i < lowered.len() && is_label(labels[i]) implies is_label(
        #[trigger] lowered[i],
    ) by {
        assert(lowered[i] == lower(labels[i]));
        assert forall|j: int| 0 <= j < lowered[i].len() implies is_label_char(
            #[trigger] lowered[i][j],
        ) by {
            assert(is_label_char(labels[i][j]));
        }
        assert(is_label_char(labels[i][0]) && is_label_char(labels[i].last()));
    }
    assert(lowered.last() == lower(labels.last()));
}

/// The first label is at the front of a text and the last at its end.
proof fn lemma_split_ends(s: Seq<char>)
    ensures
        ({
            let labels = split(s, '.');
            &&& labels.len() > 0
            &&& labels.len() == 1 ==> labels[0] == s
            &&& labels[0].len() > 0 ==> s.len() > 0 && s[0] == labels[0][0]
            &&& labels.last().len() > 0 ==> s.len() > 0 && s.last() == labels.last().last()
            &&& labels.last().len() == 0 && labels.len() > 1 ==> s.len() > 0 && s.last() == '.'
        }),
    decreases s.len(),
{
    let i = first_at(s, '.');
    lemma_first_at_bounds(s, '.');
    if i < s.len() {
        let rest = s.skip(i + 1);
        lemma_split_ends(rest);
        lemma_at_first(s, '.');
        assert(split(s, '.').last() == split(rest, '.').last());
    }
}

/// At the first mark there is one.
proof fn lemma_at_first(s: Seq<char>, mark: char)
    ensures
        first_at(s, mark) < s.len() ==> s[first_at(s, mark)] == mark,
    decreases s.len(),
{
    if s.len() > 0 && s[0] != mark {
        lemma_at_first(s.skip(1), mark);
        lemma_first_at_bounds(s.skip(1), mark);
    }
}

/// What the end of a text was trimmed of is not at its end any more.
proof fn lemma_trimmed_end(s: Seq<char>, edge: char)
    ensures
        trim_end_char(s, edge).len() > 0 ==> trim_end_char(s, edge).last() != edge,
    decreases s.len(),
{
    if s.len() > 0 && s.last() == edge {
        lemma_trimmed_end(s.drop_last(), edge);
    }
}

/// Bringing a domain into the form in which it is compared leaves nothing more to do: the outcome
/// is not empty, and it is its own form.
pub proof fn normalizing_a_domain_is_idempotent(raw: Seq<char>)
    requires
        domain_result(raw) is Ok,
    ensures
        domain_result(raw)->Ok_0 == lower(trim_end_char(trim(raw), '.')),
        domain_result(raw)->Ok_0.len() > 0,
        domain_result(domain_result(raw)->Ok_0) == domain_result(raw),
{
    let kept = trim_end_char(trim(raw), '.');
    let domain = lower(kept);
    lemma_trimmed_end(trim(raw), '.');
    let labels = if kept[0] == '.' {
        kept.skip(2)
    } else {
        kept
    };
    lemma_split_ends(labels);
    lemma_lower_keeps_labels(labels);
    assert(labels.last() == kept.last());
    assert(split(labels, '.').last().len() > 0);
    assert(is_label_char(split(labels, '.').last().last()));
    if kept[0] != '.' {
        assert(is_label(split(labels, '.')[0]));
        assert(is_label_char(split(labels, '.')[0][0]));
    } else {
        assert(domain.skip(2) =~= lower(labels));
    }
    assert(!is_space(domain[0]) && !is_space(domain.last()) && domain.last() != '.');
    assert(trim(domain) == domain);
    assert(trim_end_char(domain, '.') == domain);
    lower_is_idempotent(kept);
}

/// A path with a slash in front.
pub open spec fn rooted(path: Seq<char>) -> Seq<char> {
    if path.len() > 0 && path[0] == '/' {
        path
    } else {
        "/"@ + path
    }
}

/// Gives a request path a slash in front.
pub fn normalize_request_path(path: &str) -> (result: String)
    ensures
        result@ == rooted(path@),
{
    let chars = chars_of(path);
    if chars.len() > 0 && chars[0] == '/' {
        path.to_owned()
    } else {
        joined("/", path)
    }
}

/// Gives the path of the backend URL a slash in front.
pub fn normalize_backend_prefix(path: &str) -> (result: String)
    ensures
        result@ == rooted(path@),
{
    proof {
        reveal_strlit("/");
    }
    if chars_of(path).len() == 0 || same_text(path, "/") {
        let result = "/".to_owned();
        assert(result@ =~= rooted(path@));
        result
    } else {
        normalize_request_path(path)
    }
}

/// A path with a slash in front stays as it is.
pub proof fn rooting_is_idempotent(path: Seq<char>)
    ensures
        rooted(rooted(path)) == rooted(path),
{
    reveal_strlit("/");
}

/// The parts of a URL that the proxy uses.
#[derive(Debug, Clone)]
pub struct UrlParts {
    pub text: String,
    pub scheme: String,
    pub host: Option<String>,
    pub port: Option<u16>,
    pub port_or_default: Option<u16>,
    pub path: String,
    pub has_fragment: bool,
}

/// The parts of a URL that the proxy uses.
pub ghost struct UrlView {
    pub text: Seq<char>,
    pub scheme: Seq<char>,
    pub host: Option<Seq<char>>,
    pub port: Option<u16>,
    pub port_or_default: Option<u16>,
    pub path: Seq<char>,
    pub has_fragment: bool,
}

impl View for UrlParts {
    type V = UrlView;

    open spec fn view(&self) -> UrlView {
        UrlView {
            text: self.text@,
            scheme: self.scheme@,
            host: opt_text(self.host),
            port: self.port,
            port_or_default: self.port_or_default,
            path: self.path@,
            has_fragment: self.has_fragment,
        }
    }
}

/// The parts that `Url::parse` finds in a text, where it is a URL.
pub uninterp spec fn url_parts(text: Seq<char>) -> Option<UrlView>;

/// `Url::parse` refuses a text or takes it apart as the URL standard has it: its serialization,
/// scheme, host, port, the port that goes with the scheme where none is written, path, and whether
/// there is a fragment. How a URL is read is not spelled out here.
#[verifier::external_body]
fn parse_url(text: &str) -> (parts: Option<UrlParts>)
    ensures
        match parts {
            Some(parts) => url_parts(text@) == Some(parts@),
            None => url_parts(text@) is None,
        },
{
    url::Url::parse(text).ok().map(|url| UrlParts {
        text: url.as_str().to_owned(),
        scheme: url.scheme().to_owned(),
        host: url.host_str().map(str::to_owned),
        port: url.port(),
        port_or_default: url.port_or_known_default(),
        path: url.path().to_owned(),
        has_fragment: url.fragment().is_some(),
    })
}

/// Whether a byte has to be escaped in the path of a URL.
pub open spec fn is_escaped_in_path(byte: u8) -> bool {
    ||| byte < 0x20 || byte >= 0x7f
    ||| byte == 0x20 || byte == 0x22 || byte == 0x23 || byte == 0x3c || byte == 0x3e
    ||| byte == 0x3f || byte == 0x60 || byte == 0x7b || byte == 0x7d
}

/// Whether a byte has to be escaped in the query of a URL.
pub open spec fn is_escaped_in_query(byte: u8) -> bool {
    ||| byte < 0x20 || byte >= 0x7f
    ||| byte == 0x20 || byte == 0x22 || byte == 0x23 || byte == 0x27 || byte == 0x3c || byte
        == 0x3e
}

/// How many bytes a byte takes in a URL: none where it is a tab or ends a line, three where it is
/// escaped, and else one.
pub open spec fn width_in_url(byte: u8, is_escaped: bool) -> nat {
    if byte == 0x09 || byte == 0x0a || byte == 0x0d {
        0
    } else if is_escaped {
        3
    } else {
        1
    }
}

/// How many bytes the bytes of a path take in a URL.
pub open spec fn path_width(bytes: Seq<u8>) -> nat
    decreases bytes.len(),
{
    if bytes.len() == 0 {
        0
    } else {
        path_width(bytes.drop_last()) + width_in_url(bytes.last(), is_escaped_in_path(bytes.last()))
    }
}

/// How many bytes the bytes of a query take in a URL.
pub open spec fn query_width(bytes: Seq<u8>) -> nat
    decreases bytes.len(),
{
    if bytes.len() == 0 {
        0
    } else {
        query_width(bytes.drop_last()) + width_in_url(
            bytes.last(),
            is_escaped_in_query(bytes.last()),
        )
    }
}

/// How many bytes the bytes of a path take in a URL.
fn measure_path(bytes: &Vec<u8>) -> (width: u128)
    ensures
        width == path_width(bytes@),
        width <= 3 * usize::MAX,
{
    let mut width: u128 = 0;
    let mut i: usize = 0;
    while i < bytes.len()
        invariant
            i <= bytes.len(),
            width == path_width(bytes@.take(i as int)),
            width <= 3 * i,
        decreases bytes.len() - i,
    {
        let byte: u8 = bytes[i];
        assert(bytes@.take(i + 1).drop_last() =~= bytes@.take(i as int));
        if !(byte == 0x09 || byte == 0x0a || byte == 0x0d) {
            let is_escaped = byte < 0x20 || byte >= 0x7f || byte == 0x20 || byte == 0x22 || byte
                == 0x23 || byte == 0x3c || byte == 0x3e || byte == 0x3f || byte == 0x60 || byte
                == 0x7b || byte == 0x7d;
            let added: u128 = if is_escaped {
                3
            } else {
                1
            };
            width = width + added;
        }
        i += 1;
    }
    assert(bytes@.take(i as int) =~= bytes@);
    width
}

/// How many bytes the bytes of a query take in a URL.
fn measure_query(bytes: &Vec<u8>) -> (width: u128)
    ensures
        width == query_width(bytes@),
        width <= 3 * usize::MAX,
{
    let mut width: u128 = 0;
    let mut i: usize = 0;
    while i < bytes.len()
        invariant
            i <= bytes.len(),
            width == query_width(bytes@.take(i as int)),
            width <= 3 * i,
        decreases bytes.len() - i,
    {
        let byte: u8 = bytes[i];
        assert(bytes@.take(i + 1).drop_last() =~= bytes@.take(i as int));
        if !(byte == 0x09 || byte == 0x0a || byte == 0x0d) {
            let is_escaped = byte < 0x20 || byte >= 0x7f || byte == 0x20 || byte == 0x22 || byte
                == 0x23 || byte == 0x27 || byte == 0x3c || byte == 0x3e;
            let added: u128 = if is_escaped {
                3
            } else {
                1
            };
            width = width + added;
        }
        i += 1;
    }
    assert(bytes@.take(i as int) =~= bytes@);
    width
}

/// Whether the positions in a URL still are 32-bit numbers when a path takes the place of its own.
/// Up to four bytes may be added in front of a path; one with `..` parts may come out shorter.
pub open spec fn path_fits(url: Seq<char>, path: Seq<char>) -> bool {
    match url_parts(url) {
        Some(parts) => {
            let length = encode_utf8(parts.text).len();
            &&& length <= u32::MAX
            &&& length + path_width(encode_utf8(path)) + 4 <= u32::MAX + encode_utf8(
                parts.path,
            ).len()
        },
        None => true,
    }
}

/// Whether the positions in a URL still are 32-bit numbers when it gets a query. What stands behind
/// the query, which only a fragment does, has one.
pub open spec fn query_fits(url: Seq<char>, query: Option<Seq<char>>) -> bool {
    match url_parts(url) {
        Some(parts) => {
            let length = encode_utf8(parts.text).len();
            &&& length <= u32::MAX
            &&& parts.has_fragment && query is Some ==> length + query_width(encode_utf8(query->0))
                + 1 <= u32::MAX
        },
        None => true,
    }
}

/// Whether a path can be written into a URL.
fn has_room_for_path(url: &str, path: &str) -> (room: bool)
    ensures
        room == path_fits(url@, path@),
{
    match parse_url(url) {
        Some(parts) => {
            let length: u128 = bytes_of(parts.text.as_str()).len() as u128;
            let replaced: u128 = bytes_of(parts.path.as_str()).len() as u128;
            let width: u128 = measure_path(&bytes_of(path));
            length <= u32::MAX as u128 && length + width + 4 <= u32::MAX as u128 + replaced
        },
        None => true,
    }
}

/// Whether a query can be written into a URL.
fn has_room_for_query(url: &str, query: Option<&str>) -> (room: bool)
    ensures
        room == query_fits(url@, opt_str(query)),
{
    match parse_url(url) {
        Some(parts) => {
            let length: u128 = bytes_of(parts.text.as_str()).len() as u128;
            length <= u32::MAX as u128 && match query {
                Some(query) => !parts.has_fragment || length + measure_query(&bytes_of(query)) + 1
                    <= u32::MAX as u128,
                None => true,
            }
        },
        None => true,
    }
}

/// The serialization of a URL with another path, where a text is a URL.
pub uninterp spec fn url_with_path(url: Seq<char>, path: Seq<char>) -> Option<Seq<char>>;

/// `Url::set_path` puts a path in place of that of a URL, escaping what has to be escaped. Nothing
/// comes of a text that is no URL. How the path is escaped is not spelled out here. The positions
/// of a URL's parts are 32-bit numbers, and `set_path` panics where they do not suffice.
#[verifier::external_body]
fn set_url_path(url: &str, path: &str) -> (result: Option<String>)
    requires
        path_fits(url@, path@),
    ensures
        opt_text(result) == url_with_path(url@, path@),
{
    let mut url = url::Url::parse(url).ok()?;
    url.set_path(path);
    Some(url.as_str().to_owned())
}

/// The serialization of a URL with another query, or with none, where a text is a URL.
pub uninterp spec fn url_with_query(url: Seq<char>, query: Option<Seq<char>>) -> Option<Seq<char>>;

/// `Url::set_query` puts a query in place of that of a URL, escaping what has to be escaped, or
/// takes the query away. Nothing comes of a text that is no URL. How the query is escaped is not
/// spelled out here. The positions of a URL's parts are 32-bit numbers, and `set_query` panics where
/// they do not suffice.
#[verifier::external_body]
fn set_url_query(url: &str, query: Option<&str>) -> (result: Option<String>)
    requires
        query_fits(url@, opt_str(query)),
    ensures
        opt_text(result) == url_with_query(url@, opt_str(query)),
{
    let mut url = url::Url::parse(url).ok()?;
    url.set_query(query);
    Some(url.as_str().to_owned())
}

/// The serialization of a URL without its fragment, where a text is a URL.
pub uninterp spec fn url_without_fragment(url: Seq<char>) -> Option<Seq<char>>;

/// `Url::set_fragment`, given nothing, takes the fragment of a URL away. Nothing comes of a text
/// that is no URL. How a URL is written is not spelled out here.
#[verifier::external_body]
fn clear_url_fragment(url: &str) -> (result: Option<String>)
    ensures
        opt_text(result) == url_without_fragment(url@),
{
    let mut url = url::Url::parse(url).ok()?;
    url.set_fragment(None);
    Some(url.as_str().to_owned())
}

/// The text of the URI that rama's `Uri` reads from a text, where it is one.
pub uninterp spec fn uri_text(text: Seq<char>) -> Option<Seq<char>>;

/// Parsing a text as rama's `Uri` refuses it or gives a URI, which is written as a text again.
/// Which texts are URIs and how they are written is not spelled out here.
#[verifier::external_body]
fn parse_uri(text: &str) -> (uri: Option<String>)
    ensures
        opt_text(uri) == uri_text(text@),
{
    text.parse::<rama::http::Uri>().ok().map(|uri| uri.to_string())
}

// ---------------------------------------------------------------------------
// Settings as the proxy runs with them
// ---------------------------------------------------------------------------

/// Which HTTP versions the proxy speaks upstream.
#[derive(Debug, Clone, Copy, PartialEq, Eq, Structural)]
pub enum ResolvedHttpMode {
    Auto,
    Http1,
    Http2,
}

impl ResolvedHttpMode {
    /// The protocols to offer in a TLS handshake, the preferred one first.
    pub fn alpn_protocols(self) -> (protocols: Vec<String>)
        ensures
            texts(protocols@) == match self {
                ResolvedHttpMode::Auto => seq!["h2"@, "http/1.1"@],
                ResolvedHttpMode::Http1 => seq!["http/1.1"@],
                ResolvedHttpMode::Http2 => seq!["h2"@],
            },
    {
        let protocols: Vec<String> = match self {
            ResolvedHttpMode::Auto => vec!["h2".to_owned(), "http/1.1".to_owned()],
            ResolvedHttpMode::Http1 => vec!["http/1.1".to_owned()],
            ResolvedHttpMode::Http2 => vec!["h2".to_owned()],
        };
        assert(texts(protocols@) =~= match self {
            ResolvedHttpMode::Auto => seq!["h2"@, "http/1.1"@],
            ResolvedHttpMode::Http1 => seq!["http/1.1"@],
            ResolvedHttpMode::Http2 => seq!["h2"@],
        });
        protocols
    }
}

/// An HTTP version.
#[derive(Debug, Clone)]
pub enum HttpVersion {
    Http09,
    Http10,
    Http11,
    Http2,
    Http3,
    Other(String),
}

/// The socket address that the proxy listens on.
#[derive(Debug, Clone)]
pub struct ListenAddr {
    pub text: String,
    pub port: u16,
}

impl ListenAddr {
    pub fn copy(&self) -> (copy: ListenAddr)
        ensures
            copy == *self,
    {
        ListenAddr { text: self.text.clone(), port: self.port }
    }
}

/// What looking at the files of the settings found: whether each required file can be read, and
/// the directory for events where it could not be made.
#[derive(Debug, Clone)]
pub struct FileChecks {
    pub cert_readable: bool,
    pub key_readable: bool,
    pub ca_bundle_readable: bool,
    pub failed_directory: Option<String>,
}

/// Where the proxy listens and where its backend is.
#[derive(Debug, Clone)]
pub struct Addresses {
    pub listen_addr: ListenAddr,
    pub frontend_domain: String,
    pub backend_url: String,
    pub backend_host: String,
    pub backend_port: u16,
    pub backend_authority: String,
    pub backend_path_prefix: String,
    pub upstream_sni: String,
}

/// The settings that the proxy runs with.
#[derive(Debug, Clone)]
pub struct RuntimeConfig {
    pub listen_addr: ListenAddr,
    pub frontend_domain: String,
    pub backend_url: String,
    pub backend_host: String,
    pub backend_port: u16,
    pub backend_authority: String,
    pub backend_path_prefix: String,
    pub tls_cert_path: String,
    pub tls_key_path: String,
    pub sqlite_path: String,
    pub ca_bundle_path: Option<String>,
    pub upstream_sni: String,
    pub http_mode: HttpMode,
    pub flush_rows: usize,
    pub flush_interval_ms: u64,
    pub max_inflight_events: usize,
    pub body_max_bytes: usize,
    pub connect_timeout_ms: u64,
    pub request_timeout_ms: u64,
    pub idle_pool_timeout_ms: u64,
    pub graceful_shutdown_timeout_ms: u64,
    pub trust_proxy_headers: bool,
    pub emit_keylog: bool,
    pub header_log_policy: HeaderLogPolicy,
    pub transforms: TransformConfig,
}

/// The host and, where the URL writes one, the port of a backend.
pub open spec fn authority_text(host: Seq<char>, port: Option<u16>) -> Seq<char> {
    match port {
        Some(port) => host + ":"@ + decimal_text(port as nat),
        None => host,
    }
}

/// What the addresses in settings were parsed to: the listen address, the frontend domain, the
/// backend URL and, where there is one, the server name to ask the backend for.
#[derive(Debug)]
pub struct ParsedAddresses {
    pub listen: Option<ListenAddr>,
    pub frontend: Result<String, ConfigError>,
    pub url: Option<UrlParts>,
    pub sni: Option<Result<String, ConfigError>>,
}

/// What a `ParsedAddresses` holds.
pub ghost struct ParsedView {
    pub listen: Option<ListenAddr>,
    pub frontend: Result<Seq<char>, ConfigFault>,
    pub url: Option<UrlView>,
    pub sni: Option<Result<Seq<char>, ConfigFault>>,
}

/// What a parsed domain holds.
pub open spec fn domain_view(parsed: Result<String, ConfigError>) -> Result<Seq<char>, ConfigFault> {
    match parsed {
        Ok(domain) => Ok(domain@),
        Err(error) => Err(error@),
    }
}

impl View for ParsedAddresses {
    type V = ParsedView;

    open spec fn view(&self) -> ParsedView {
        ParsedView {
            listen: self.listen,
            frontend: domain_view(self.frontend),
            url: match self.url {
                Some(url) => Some(url@),
                None => None,
            },
            sni: match self.sni {
                Some(sni) => Some(domain_view(sni)),
                None => None,
            },
        }
    }
}

impl ParsedView {
    /// The first thing that is wrong with the addresses.
    pub open spec fn fault(self) -> Option<ConfigFault> {
        if self.listen is None {
            Some(ConfigFault::InvalidListenAddr)
        } else if let Err(fault) = self.frontend {
            Some(fault)
        } else if self.url is None {
            Some(ConfigFault::InvalidBackendUrl)
        } else if self.url->0.scheme != "https"@ {
            Some(ConfigFault::BackendNotHttps)
        } else if self.url->0.host is None {
            Some(ConfigFault::BackendWithoutHost)
        } else if self.url->0.port_or_default is None {
            Some(ConfigFault::BackendWithoutPort)
        } else {
            match self.sni {
                Some(Err(fault)) => Some(fault),
                _ => None,
            }
        }
    }

    /// Whether addresses are those that these stand for.
    pub open spec fn leads_to(self, found: Addresses) -> bool {
        let url = self.url->0;
        let host = lower(url.host->0);
        &&& self.listen == Some(found.listen_addr)
        &&& self.frontend == Ok::<Seq<char>, ConfigFault>(found.frontend_domain@)
        &&& found.backend_url@ == url.text
        &&& found.backend_host@ == host
        &&& url.port_or_default == Some(found.backend_port)
        &&& found.backend_authority@ == authority_text(host, url.port)
        &&& found.backend_path_prefix@ == rooted(url.path)
        &&& found.upstream_sni@ == match self.sni {
            Some(Ok(name)) => name,
            _ => host,
        }
    }
}

/// Works out the addresses from what they were parsed to.
pub fn resolve_parsed(parsed: ParsedAddresses) -> (result: Result<Addresses, ConfigError>)
    ensures
        match result {
            Ok(found) => parsed@.fault() is None && parsed@.leads_to(found),
            Err(error) => parsed@.fault() == Some(error@),
        },
{
    let listen_addr = match parsed.listen {
        Some(listen_addr) => listen_addr,
        None => {
            return Err(ConfigError::InvalidListenAddr);
        },
    };
    let frontend_domain = match parsed.frontend {
        Ok(domain) => domain,
        Err(error) => {
            return Err(error);
        },
    };
    let url = match parsed.url {
        Some(url) => url,
        None => {
            return Err(ConfigError::InvalidBackendUrl);
        },
    };
    if !same_text(url.scheme.as_str(), "https") {
        return Err(ConfigError::BackendNotHttps);
    }
    let backend_host = match &url.host {
        Some(host) => lowered(host.as_str()),
        None => {
            return Err(ConfigError::BackendWithoutHost);
        },
    };
    let backend_port = match url.port_or_default {
        Some(port) => port,
        None => {
            return Err(ConfigError::BackendWithoutPort);
        },
    };
    let backend_authority = match url.port {
        Some(port) => joined(
            joined(backend_host.as_str(), ":").as_str(),
            decimal(port as u64).as_str(),
        ),
        None => backend_host.clone(),
    };
    let backend_path_prefix = normalize_backend_prefix(url.path.as_str());
    let upstream_sni = match parsed.sni {
        Some(Ok(name)) => name,
        Some(Err(error)) => {
            return Err(error);
        },
        None => backend_host.clone(),
    };
    Ok(
        Addresses {
            listen_addr,
            frontend_domain,
            backend_url: url.text,
            backend_host,
            backend_port,
            backend_authority,
            backend_path_prefix,
            upstream_sni,
        },
    )
}

impl RuntimeSettingsFile {
    /// What the addresses in the settings are parsed to, given the parsed listen address.
    pub open spec fn parsed(self, listen: Option<ListenAddr>) -> ParsedView {
        ParsedView {
            listen,
            frontend: domain_result(self.frontend_domain@),
            url: url_parts(self.backend_url@),
            sni: match self.upstream_sni_override {
                Some(name) => Some(domain_result(name@)),
                None => None,
            },
        }
    }

    /// Parses the addresses in the settings, given the parsed listen address.
    pub fn parse_addresses(&self, listen: Option<ListenAddr>) -> (parsed: ParsedAddresses)
        ensures
            parsed@ == self.parsed(listen),
    {
        ParsedAddresses {
            listen,
            frontend: normalize_domain(self.frontend_domain.as_str()),
            url: parse_url(self.backend_url.as_str()),
            sni: match &self.upstream_sni_override {
                Some(name) => Some(normalize_domain(name.as_str())),
                None => None,
            },
        }
    }

    /// Works out the addresses that the settings stand for, given the parsed listen address.
    pub fn resolve(&self, listen: Option<ListenAddr>) -> (result: Result<Addresses, ConfigError>)
        ensures
            match result {
                Ok(found) => self.parsed(listen).fault() is None && self.parsed(listen).leads_to(
                    found,
                ),
                Err(error) => self.parsed(listen).fault() == Some(error@),
            },
    {
        resolve_parsed(self.parse_addresses(listen))
    }

    /// The first thing that is wrong with the files of the settings.
    pub open spec fn file_fault(self, checks: FileChecks) -> Option<ConfigFault> {
        if !checks.cert_readable {
            Some(
                ConfigFault::Unreadable {
                    file: RequiredFile::TlsCert,
                    path: self.tls_cert_path@,
                },
            )
        } else if !checks.key_readable {
            Some(ConfigFault::Unreadable { file: RequiredFile::TlsKey, path: self.tls_key_path@ })
        } else if self.ca_bundle_path is Some && !checks.ca_bundle_readable {
            Some(
                ConfigFault::Unreadable {
                    file: RequiredFile::CaBundle,
                    path: self.ca_bundle_path->0@,
                },
            )
        } else {
            match checks.failed_directory {
                Some(path) => Some(ConfigFault::DirectoryNotCreated(path@)),
                None => None,
            }
        }
    }

    /// The first setting that has to be positive and is not.
    pub open spec fn limit_fault(self) -> Option<ConfigFault> {
        if self.flush_rows == 0 {
            Some(ConfigFault::NotPositive("flush rows"@))
        } else if self.flush_interval_ms == 0 {
            Some(ConfigFault::NotPositive("flush interval"@))
        } else if self.max_inflight_events == 0 {
            Some(ConfigFault::NotPositive("max inflight events"@))
        } else if self.body_max_bytes == 0 {
            Some(ConfigFault::NotPositive("body max bytes"@))
        } else if self.connect_timeout_ms == 0 {
            Some(ConfigFault::NotPositive("connect timeout"@))
        } else if self.request_timeout_ms == 0 {
            Some(ConfigFault::NotPositive("request timeout"@))
        } else if self.idle_pool_timeout_ms == 0 {
            Some(ConfigFault::NotPositive("idle pool timeout"@))
        } else if self.graceful_shutdown_timeout_ms == 0 {
            Some(ConfigFault::NotPositive("graceful shutdown timeout"@))
        } else {
            None
        }
    }

    /// The first thing that is wrong with a configuration: its addresses, its files, its limits,
    /// its transforms.
    pub open spec fn fault(
        self,
        parsed: ParsedView,
        checks: FileChecks,
        rule_fault: Option<TransformFault>,
    ) -> Option<ConfigFault> {
        if let Some(fault) = parsed.fault() {
            Some(fault)
        } else if let Some(fault) = self.file_fault(checks) {
            Some(fault)
        } else if let Some(fault) = self.limit_fault() {
            Some(fault)
        } else {
            match rule_fault {
                Some(fault) => Some(ConfigFault::Transform(fault)),
                None => None,
            }
        }
    }

    /// Whether a running configuration is the one that the settings stand for.
    pub open spec fn describes(self, parsed: ParsedView, config: RuntimeConfig) -> bool {
        &&& parsed.leads_to(
            Addresses {
                listen_addr: config.listen_addr,
                frontend_domain: config.frontend_domain,
                backend_url: config.backend_url,
                backend_host: config.backend_host,
                backend_port: config.backend_port,
                backend_authority: config.backend_authority,
                backend_path_prefix: config.backend_path_prefix,
                upstream_sni: config.upstream_sni,
            },
        )
        &&& config.tls_cert_path@ == self.tls_cert_path@
        &&& config.tls_key_path@ == self.tls_key_path@
        &&& config.sqlite_path@ == self.sqlite_path@
        &&& opt_text(config.ca_bundle_path) == opt_text(self.ca_bundle_path)
        &&& config.http_mode == self.http_mode
        &&& config.flush_rows == self.flush_rows
        &&& config.flush_interval_ms == self.flush_interval_ms
        &&& config.max_inflight_events == self.max_inflight_events
        &&& config.body_max_bytes == self.body_max_bytes
        &&& config.connect_timeout_ms == self.connect_timeout_ms
        &&& config.request_timeout_ms == self.request_timeout_ms
        &&& config.idle_pool_timeout_ms == self.idle_pool_timeout_ms
        &&& config.graceful_shutdown_timeout_ms == self.graceful_shutdown_timeout_ms
        &&& config.trust_proxy_headers == self.trust_proxy_headers
        &&& config.emit_keylog == self.emit_keylog
        &&& config.header_log_policy.allowed() == header_names(self.header_allowlist@)
        &&& config.header_log_policy.denied() == header_names(self.header_denylist@)
    }

    /// Refuses files that cannot be read or made.
    fn check_files(&self, checks: &FileChecks) -> (result: Result<(), ConfigError>)
        ensures
            match result {
                Ok(_) => self.file_fault(*checks) is None,
                Err(error) => self.file_fault(*checks) == Some(error@),
            },
    {
        if !checks.cert_readable {
            return Err(
                ConfigError::Unreadable {
                    file: RequiredFile::TlsCert,
                    path: self.tls_cert_path.clone(),
                },
            );
        }
        if !checks.key_readable {
            return Err(
                ConfigError::Unreadable {
                    file: RequiredFile::TlsKey,
                    path: self.tls_key_path.clone(),
                },
            );
        }
        if let Some(path) = &self.ca_bundle_path {
            if !checks.ca_bundle_readable {
                return Err(
                    ConfigError::Unreadable { file: RequiredFile::CaBundle, path: path.clone() },
                );
            }
        }
        match &checks.failed_directory {
            Some(path) => Err(ConfigError::DirectoryNotCreated(path.clone())),
            None => Ok(()),
        }
    }

    /// Refuses limits of zero.
    fn check_limits(&self) -> (result: Result<(), ConfigError>)
        ensures
            match result {
                Ok(_) => self.limit_fault() is None,
                Err(error) => self.limit_fault() == Some(error@),
            },
    {
        validate_positive("flush rows", self.flush_rows as u64)?;
        validate_positive("flush interval", self.flush_interval_ms)?;
        validate_positive("max inflight events", self.max_inflight_events as u64)?;
        validate_positive("body max bytes", self.body_max_bytes as u64)?;
        validate_positive("connect timeout", self.connect_timeout_ms)?;
        validate_positive("request timeout", self.request_timeout_ms)?;
        validate_positive("idle pool timeout", self.idle_pool_timeout_ms)?;
        validate_positive("graceful shutdown timeout", self.graceful_shutdown_timeout_ms)?;
        Ok(())
    }

    /// Checks the settings and turns them into those that the proxy runs with, given what their
    /// addresses were parsed to, what looking at the files found and what the transforms were
    /// compiled to.
    pub fn to_runtime_config_with(
        &self,
        parsed: ParsedAddresses,
        checks: &FileChecks,
        transforms: Result<TransformConfig, TransformError>,
    ) -> (result: Result<RuntimeConfig, ConfigError>)
        ensures
            ({
                let rule_fault = match transforms {
                    Ok(_) => None,
                    Err(error) => Some(error@),
                };
                match result {
                    Ok(config) => self.fault(parsed@, *checks, rule_fault) is None
                        && self.describes(parsed@, config) && transforms == Ok::<
                        TransformConfig,
                        TransformError,
                    >(config.transforms),
                    Err(error) => self.fault(parsed@, *checks, rule_fault) == Some(error@),
                }
            }),
    {
        let found = resolve_parsed(parsed)?;
        self.check_files(checks)?;
        self.check_limits()?;
        match transforms {
            Ok(transforms) => Ok(
                RuntimeConfig {
                    listen_addr: found.listen_addr,
                    frontend_domain: found.frontend_domain,
                    backend_url: found.backend_url,
                    backend_host: found.backend_host,
                    backend_port: found.backend_port,
                    backend_authority: found.backend_authority,
                    backend_path_prefix: found.backend_path_prefix,
                    tls_cert_path: self.tls_cert_path.clone(),
                    tls_key_path: self.tls_key_path.clone(),
                    sqlite_path: self.sqlite_path.clone(),
                    ca_bundle_path: copy_text(&self.ca_bundle_path),
                    upstream_sni: found.upstream_sni,
                    http_mode: self.http_mode,
                    flush_rows: self.flush_rows,
                    flush_interval_ms: self.flush_interval_ms,
                    max_inflight_events: self.max_inflight_events,
                    body_max_bytes: self.body_max_bytes,
                    connect_timeout_ms: self.connect_timeout_ms,
                    request_timeout_ms: self.request_timeout_ms,
                    idle_pool_timeout_ms: self.idle_pool_timeout_ms,
                    graceful_shutdown_timeout_ms: self.graceful_shutdown_timeout_ms,
                    trust_proxy_headers: self.trust_proxy_headers,
                    emit_keylog: self.emit_keylog,
                    header_log_policy: HeaderLogPolicy::new(
                        &self.header_allowlist,
                        &self.header_denylist,
                    ),
                    transforms,
                },
            ),
            Err(error) => Err(ConfigError::Transform(error)),
        }
    }

    /// Checks the settings and turns them into those that the proxy runs with, given the parsed
    /// listen address and what looking at the files found.
    pub fn to_runtime_config(
        &self,
        transform_rules: &[TransformRuleFile],
        listen: Option<ListenAddr>,
        checks: &FileChecks,
    ) -> (result: Result<RuntimeConfig, ConfigError>)
        ensures
            ({
                let parsed = self.parsed(listen);
                let fault = self.fault(parsed, *checks, first_rule_fault(transform_rules@));
                match result {
                    Ok(config) => fault is None && self.describes(parsed, config) && rules_describe(
                        transform_rules@,
                        config.transforms.transforms@,
                    ),
                    Err(error) => fault == Some(error@),
                }
            }),
    {
        let parsed = self.parse_addresses(listen);
        let transforms = TransformConfig::compile(transform_rules);
        self.to_runtime_config_with(parsed, checks, transforms)
    }
}

impl AppConfigFile {
    /// Checks the configuration and turns it into the one that the proxy runs with.
    pub fn to_runtime_config(&self, listen: Option<ListenAddr>, checks: &FileChecks) -> (result:
        Result<RuntimeConfig, ConfigError>)
        ensures
            ({
                let parsed = self.runtime.parsed(listen);
                let fault = self.runtime.fault(
                    parsed,
                    *checks,
                    first_rule_fault(self.transforms@),
                );
                match result {
                    Ok(config) => fault is None && self.runtime.describes(parsed, config)
                        && rules_describe(self.transforms@, config.transforms.transforms@),
                    Err(error) => fault == Some(error@),
                }
            }),
    {
        self.runtime.to_runtime_config(self.transforms.as_slice(), listen, checks)
    }
}

/// What the proxy asks its backend for: the request's path behind the path of the backend URL.
pub open spec fn backend_path(prefix: Seq<char>, path: Seq<char>) -> Seq<char> {
    if prefix == "/"@ {
        rooted(path)
    } else {
        trim_end_char(prefix, '/') + rooted(path)
    }
}

impl RuntimeConfig {
    /// Which HTTP versions to speak upstream, given what is known of the backend.
    pub fn resolved_http_mode(&self, backend_supports_h2: Option<bool>) -> (mode: ResolvedHttpMode)
        ensures
            mode == match self.http_mode {
                HttpMode::Http1 => ResolvedHttpMode::Http1,
                HttpMode::Http2 => ResolvedHttpMode::Http2,
                HttpMode::Auto => if backend_supports_h2 == Some(false) {
                    ResolvedHttpMode::Http1
                } else {
                    ResolvedHttpMode::Auto
                },
            },
    {
        match self.http_mode {
            HttpMode::Http1 => ResolvedHttpMode::Http1,
            HttpMode::Http2 => ResolvedHttpMode::Http2,
            HttpMode::Auto => match backend_supports_h2 {
                Some(false) => ResolvedHttpMode::Http1,
                _ => ResolvedHttpMode::Auto,
            },
        }
    }

    /// The HTTP version of upstream requests.
    pub fn upstream_default_version(&self) -> (version: HttpVersion)
        ensures
            version == HttpVersion::Http11,
    {
        HttpVersion::Http11
    }

    /// The path that the proxy asks its backend for.
    pub fn upstream_path(&self, path: &str) -> (result: String)
        ensures
            result@ == backend_path(self.backend_path_prefix@, path@),
    {
        let rooted_path = normalize_request_path(path);
        if same_text(self.backend_path_prefix.as_str(), "/") {
            rooted_path
        } else {
            let prefix = chars_of(self.backend_path_prefix.as_str());
            joined(
                text_of(trimmed_end_of(prefix.as_slice(), '/')).as_str(),
                rooted_path.as_str(),
            )
        }
    }

    /// The URL of the backend for a request: the backend URL with the request's path behind its
    /// own and the request's query, without a fragment. There is none where the backend URL is no
    /// URL, or where the URL would grow too long.
    pub open spec fn backend_url_for(self, path: Seq<char>, query: Option<Seq<char>>) -> Result<
        Seq<char>,
        ConfigFault,
    > {
        let wanted = backend_path(self.backend_path_prefix@, path);
        if !path_fits(self.backend_url@, wanted) {
            Err(ConfigFault::UpstreamUrlTooLong)
        } else {
            match url_with_path(self.backend_url@, wanted) {
                Some(url) => if !query_fits(url, query) {
                    Err(ConfigFault::UpstreamUrlTooLong)
                } else {
                    match url_with_query(url, query) {
                        Some(url) => match url_without_fragment(url) {
                            Some(url) => Ok(url),
                            None => Err(ConfigFault::InvalidBackendUrl),
                        },
                        None => Err(ConfigFault::InvalidBackendUrl),
                    }
                },
                None => Err(ConfigFault::InvalidBackendUrl),
            }
        }
    }

    /// The URI to ask the backend for, given a request's path and query.
    pub fn build_backend_uri(&self, path: &str, query: Option<&str>) -> (result: Result<
        String,
        ConfigError,
    >)
        ensures
            match self.backend_url_for(path@, opt_str(query)) {
                Ok(url) => match result {
                    Ok(uri) => uri_text(url) == Some(uri@),
                    Err(error) => uri_text(url) is None && error@
                        == ConfigFault::InvalidUpstreamUri(url),
                },
                Err(fault) => result matches Err(error) && error@ == fault,
            },
    {
        let combined = self.upstream_path(path);
        if !has_room_for_path(self.backend_url.as_str(), combined.as_str()) {
            return Err(ConfigError::UpstreamUrlTooLong);
        }
        let url = match set_url_path(self.backend_url.as_str(), combined.as_str()) {
            Some(url) => url,
            None => {
                return Err(ConfigError::InvalidBackendUrl);
            },
        };
        if !has_room_for_query(url.as_str(), query) {
            return Err(ConfigError::UpstreamUrlTooLong);
        }
        let url = match set_url_query(url.as_str(), query) {
            Some(url) => url,
            None => {
                return Err(ConfigError::InvalidBackendUrl);
            },
        };
        match clear_url_fragment(url.as_str()) {
            Some(url) => {
                let uri = parse_uri(url.as_str());
                accept_uri(url, uri)
            },
            None => Err(ConfigError::InvalidBackendUrl),
        }
    }
}

/// The URI to ask the backend for, given its URL and what that was parsed to.
pub fn accept_uri(url: String, uri: Option<String>) -> (result: Result<String, ConfigError>)
    ensures
        match uri {
            Some(uri) => result == Ok::<String, ConfigError>(uri),
            None => result == Err::<String, ConfigError>(ConfigError::InvalidUpstreamUri(url)),
        },
{
    match uri {
        Some(uri) => Ok(uri),
        None => Err(ConfigError::InvalidUpstreamUri(url)),
    }
}

/// What the proxy asks its backend for always begins with a slash.
pub proof fn backend_paths_are_rooted(prefix: Seq<char>, path: Seq<char>)
    requires
        prefix.len() > 0 ==> prefix[0] == '/',
    ensures
        backend_path(prefix, path).len() > 0,
        backend_path(prefix, path)[0] == '/',
{
    reveal_strlit("/");
    let kept = trim_end_char(prefix, '/');
    lemma_trim_end_is_prefix(prefix);
    if kept.len() > 0 {
        assert(kept[0] == prefix[0]);
    }
}

/// Trimming the end keeps the front.
proof fn lemma_trim_end_is_prefix(s: Seq<char>)
    ensures
        trim_end_char(s, '/').is_prefix_of(s),
    decreases s.len(),
{
    if s.len() > 0 && s.last() == '/' {
        lemma_trim_end_is_prefix(s.drop_last());
    }
}

/// Running with settings means that all of them were sound: the addresses, the files, the limits
/// and the transforms; the backend is asked over TLS only.
pub proof fn running_settings_are_sound(
    settings: RuntimeSettingsFile,
    parsed: ParsedView,
    checks: FileChecks,
    rule_fault: Option<TransformFault>,
)
    requires
        settings.fault(parsed, checks, rule_fault) is None,
    ensures
        parsed.listen is Some,
        parsed.frontend is Ok,
        parsed.url is Some && parsed.url->0.scheme == "https"@ && parsed.url->0.host is Some,
        checks.cert_readable && checks.key_readable,
        settings.flush_rows > 0 && settings.flush_interval_ms > 0,
        settings.max_inflight_events > 0 && settings.body_max_bytes > 0,
        settings.connect_timeout_ms > 0 && settings.request_timeout_ms > 0,
        settings.idle_pool_timeout_ms > 0 && settings.graceful_shutdown_timeout_ms > 0,
        rule_fault is None,
{
}

// ---------------------------------------------------------------------------
// Comparing configurations
// ---------------------------------------------------------------------------

/// The parts of a path that count, given the pieces between its slashes: none that is empty, and
/// no `.` but in front.
pub open spec fn counted_parts(pieces: Seq<Seq<char>>) -> Seq<Seq<char>>
    decreases pieces.len(),
{
    if pieces.len() == 0 {
        Seq::empty()
    } else {
        let parts = counted_parts(pieces.drop_last());
        let last = pieces.last();
        if last.len() == 0 || pieces.len() > 1 && last == "."@ {
            parts
        } else {
            parts.push(last)
        }
    }
}

/// The parts of a path.
pub open spec fn path_parts(path: Seq<char>) -> Seq<Seq<char>> {
    counted_parts(split(path, '/'))
}

/// Whether a path begins at the root.
pub open spec fn is_absolute(path: Seq<char>) -> bool {
    path.len() > 0 && path[0] == '/'
}

/// Whether two paths are the same part by part: how many slashes stand between the parts, or behind
/// the last, makes no difference.
pub open spec fn is_same_path(a: Seq<char>, b: Seq<char>) -> bool {
    is_absolute(a) == is_absolute(b) && path_parts(a) == path_parts(b)
}

/// The parts of a path.
fn parts_of_path(path: &str) -> (parts: Vec<String>)
    ensures
        texts(parts@) == path_parts(path@),
{
    let chars = chars_of(path);
    let pieces = pieces(chars.as_slice(), '/');
    let ghost shown = pieces@.map_values(|piece: &[char]| piece@);
    let mut parts: Vec<String> = Vec::new();
    let mut i: usize = 0;
    assert(texts(parts@) =~= counted_parts(shown.take(0)));
    while i < pieces.len()
        invariant
            i <= pieces.len(),
            shown == pieces@.map_values(|piece: &[char]| piece@),
            texts(parts@) == counted_parts(shown.take(i as int)),
        decreases pieces.len() - i,
    {
        let piece = text_of(pieces[i]);
        let is_counted = pieces[i].len() > 0 && !(i > 0 && same_text(piece.as_str(), "."));
        proof {
            assert(shown.take(i + 1).drop_last() =~= shown.take(i as int));
            assert(shown.take(i + 1).last() == piece@);
        }
        if is_counted {
            let ghost before = parts@;
            parts.push(piece);
            assert(texts(parts@) =~= texts(before).push(piece@));
        }
        i += 1;
    }
    assert(shown.take(i as int) =~= shown);
    parts
}

/// Whether two paths are the same part by part.
pub fn same_path(a: &str, b: &str) -> (same: bool)
    ensures
        same == is_same_path(a@, b@),
{
    let a_chars = chars_of(a);
    let b_chars = chars_of(b);
    let a_absolute = a_chars.len() > 0 && a_chars[0] == '/';
    let b_absolute = b_chars.len() > 0 && b_chars[0] == '/';
    a_absolute == b_absolute && same_list(&parts_of_path(a), &parts_of_path(b))
}

/// Whether two optional paths are the same part by part.
fn same_optional_path(a: &Option<String>, b: &Option<String>) -> (same: bool)
    ensures
        same == match (*a, *b) {
            (Some(a), Some(b)) => is_same_path(a@, b@),
            (None, None) => true,
            _ => false,
        },
{
    match (a, b) {
        (Some(a), Some(b)) => same_path(a.as_str(), b.as_str()),
        (None, None) => true,
        _ => false,
    }
}

impl RuntimeSettingsFile {
    /// Whether two settings say the same. Paths say the same where their parts do.
    pub open spec fn says_same(self, other: RuntimeSettingsFile) -> bool {
        &&& self.listen_addr@ == other.listen_addr@
        &&& self.frontend_domain@ == other.frontend_domain@
        &&& self.backend_url@ == other.backend_url@
        &&& is_same_path(self.tls_cert_path@, other.tls_cert_path@)
        &&& is_same_path(self.tls_key_path@, other.tls_key_path@)
        &&& is_same_path(self.sqlite_path@, other.sqlite_path@)
        &&& match (self.ca_bundle_path, other.ca_bundle_path) {
            (Some(path), Some(other_path)) => is_same_path(path@, other_path@),
            (None, None) => true,
            _ => false,
        }
        &&& opt_text(self.upstream_sni_override) == opt_text(other.upstream_sni_override)
        &&& self.http_mode == other.http_mode
        &&& self.flush_rows == other.flush_rows
        &&& self.flush_interval_ms == other.flush_interval_ms
        &&& self.max_inflight_events == other.max_inflight_events
        &&& self.body_max_bytes == other.body_max_bytes
        &&& self.connect_timeout_ms == other.connect_timeout_ms
        &&& self.request_timeout_ms == other.request_timeout_ms
        &&& self.idle_pool_timeout_ms == other.idle_pool_timeout_ms
        &&& self.graceful_shutdown_timeout_ms == other.graceful_shutdown_timeout_ms
        &&& self.trust_proxy_headers == other.trust_proxy_headers
        &&& self.emit_keylog == other.emit_keylog
        &&& texts(self.header_allowlist@) == texts(other.header_allowlist@)
        &&& texts(self.header_denylist@) == texts(other.header_denylist@)
    }

    /// Whether two settings are written the same, letter for letter.
    pub open spec fn is_written_like(self, other: RuntimeSettingsFile) -> bool {
        &&& self.listen_addr@ == other.listen_addr@
        &&& self.frontend_domain@ == other.frontend_domain@
        &&& self.backend_url@ == other.backend_url@
        &&& self.tls_cert_path@ == other.tls_cert_path@
        &&& self.tls_key_path@ == other.tls_key_path@
        &&& self.sqlite_path@ == other.sqlite_path@
        &&& opt_text(self.ca_bundle_path) == opt_text(other.ca_bundle_path)
        &&& opt_text(self.upstream_sni_override) == opt_text(other.upstream_sni_override)
        &&& self.http_mode == other.http_mode
        &&& self.flush_rows == other.flush_rows
        &&& self.flush_interval_ms == other.flush_interval_ms
        &&& self.max_inflight_events == other.max_inflight_events
        &&& self.body_max_bytes == other.body_max_bytes
        &&& self.connect_timeout_ms == other.connect_timeout_ms
        &&& self.request_timeout_ms == other.request_timeout_ms
        &&& self.idle_pool_timeout_ms == other.idle_pool_timeout_ms
        &&& self.graceful_shutdown_timeout_ms == other.graceful_shutdown_timeout_ms
        &&& self.trust_proxy_headers == other.trust_proxy_headers
        &&& self.emit_keylog == other.emit_keylog
        &&& texts(self.header_allowlist@) == texts(other.header_allowlist@)
        &&& texts(self.header_denylist@) == texts(other.header_denylist@)
    }

    /// A copy of the settings.
    pub fn copy(&self) -> (copy: RuntimeSettingsFile)
        ensures
            copy.is_written_like(*self),
    {
        RuntimeSettingsFile {
            listen_addr: self.listen_addr.clone(),
            frontend_domain: self.frontend_domain.clone(),
            backend_url: self.backend_url.clone(),
            tls_cert_path: self.tls_cert_path.clone(),
            tls_key_path: self.tls_key_path.clone(),
            sqlite_path: self.sqlite_path.clone(),
            ca_bundle_path: copy_text(&self.ca_bundle_path),
            upstream_sni_override: copy_text(&self.upstream_sni_override),
            http_mode: self.http_mode,
            flush_rows: self.flush_rows,
            flush_interval_ms: self.flush_interval_ms,
            max_inflight_events: self.max_inflight_events,
            body_max_bytes: self.body_max_bytes,
            connect_timeout_ms: self.connect_timeout_ms,
            request_timeout_ms: self.request_timeout_ms,
            idle_pool_timeout_ms: self.idle_pool_timeout_ms,
            graceful_shutdown_timeout_ms: self.graceful_shutdown_timeout_ms,
            trust_proxy_headers: self.trust_proxy_headers,
            emit_keylog: self.emit_keylog,
            header_allowlist: copy_list(&self.header_allowlist),
            header_denylist: copy_list(&self.header_denylist),
        }
    }

    /// Whether two settings say the same.
    pub fn same_settings(&self, other: &RuntimeSettingsFile) -> (same: bool)
        ensures
            same == self.says_same(*other),
    {
        same_text(self.listen_addr.as_str(), other.listen_addr.as_str())
            && same_text(self.frontend_domain.as_str(), other.frontend_domain.as_str())
            && same_text(self.backend_url.as_str(), other.backend_url.as_str())
            && same_path(self.tls_cert_path.as_str(), other.tls_cert_path.as_str())
            && same_path(self.tls_key_path.as_str(), other.tls_key_path.as_str())
            && same_path(self.sqlite_path.as_str(), other.sqlite_path.as_str())
            && same_optional_path(&self.ca_bundle_path, &other.ca_bundle_path)
            && same_optional(&self.upstream_sni_override, &other.upstream_sni_override)
            && self.http_mode == other.http_mode
            && self.flush_rows == other.flush_rows
            && self.flush_interval_ms == other.flush_interval_ms
            && self.max_inflight_events == other.max_inflight_events
            && self.body_max_bytes == other.body_max_bytes
            && self.connect_timeout_ms == other.connect_timeout_ms
            && self.request_timeout_ms == other.request_timeout_ms
            && self.idle_pool_timeout_ms == other.idle_pool_timeout_ms
            && self.graceful_shutdown_timeout_ms == other.graceful_shutdown_timeout_ms
            && self.trust_proxy_headers == other.trust_proxy_headers
            && self.emit_keylog == other.emit_keylog
            && same_list(&self.header_allowlist, &other.header_allowlist)
            && same_list(&self.header_denylist, &other.header_denylist)
    }
}

/// Whether two optional texts are the same.
fn same_optional(a: &Option<String>, b: &Option<String>) -> (same: bool)
    ensures
        same == (opt_text(*a) == opt_text(*b)),
{
    match (a, b) {
        (Some(a), Some(b)) => same_text(a.as_str(), b.as_str()),
        (None, None) => true,
        _ => false,
    }
}

/// Whether two lists of texts are the same.
fn same_list(a: &Vec<String>, b: &Vec<String>) -> (same: bool)
    ensures
        same == (texts(a@) == texts(b@)),
{
    assert(texts(a@).len() == a@.len() && texts(b@).len() == b@.len());
    if a.len() != b.len() {
        return false;
    }
    let mut i: usize = 0;
    while i < a.len()
        invariant
            i <= a.len(),
            a.len() == b.len(),
            forall|j: int| 0 <= j < i ==> a[j]@ == b[j]@,
        decreases a.len() - i,
    {
        if !same_text(a[i].as_str(), b[i].as_str()) {
            assert(texts(a@)[i as int] != texts(b@)[i as int]);
            return false;
        }
        i += 1;
    }
    assert(texts(a@) =~= texts(b@));
    true
}

impl AppConfigFile {
    /// Whether two configurations say the same.
    pub open spec fn says_same(self, other: AppConfigFile) -> bool {
        &&& self.runtime.says_same(other.runtime)
        &&& self.transforms@.len() == other.transforms@.len()
        &&& forall|i: int|
            0 <= i < self.transforms@.len() ==> #[trigger] self.transforms@[i].says_same(
                other.transforms@[i],
            )
    }

    /// Whether two configurations are written the same, letter for letter.
    pub open spec fn is_written_like(self, other: AppConfigFile) -> bool {
        self.runtime.is_written_like(other.runtime) && self.transforms@ == other.transforms@
    }

    /// A copy of the configuration.
    pub fn copy(&self) -> (copy: AppConfigFile)
        ensures
            copy.is_written_like(*self),
    {
        let mut transforms: Vec<TransformRuleFile> = Vec::new();
        let mut i: usize = 0;
        while i < self.transforms.len()
            invariant
                i <= self.transforms.len(),
                transforms@ == self.transforms@.take(i as int),
            decreases self.transforms.len() - i,
        {
            transforms.push(self.transforms[i].copy());
            i += 1;
        }
        assert(transforms@ =~= self.transforms@);
        AppConfigFile { runtime: self.runtime.copy(), transforms }
    }

    /// Whether two configurations say the same.
    pub fn same_config(&self, other: &AppConfigFile) -> (same: bool)
        ensures
            same == self.says_same(*other),
    {
        if !self.runtime.same_settings(&other.runtime) || self.transforms.len()
            != other.transforms.len() {
            return false;
        }
        let mut i: usize = 0;
        while i < self.transforms.len()
            invariant
                i <= self.transforms.len(),
                self.transforms.len() == other.transforms.len(),
                forall|j: int|
                    0 <= j < i ==> #[trigger] self.transforms@[j].says_same(other.transforms@[j]),
            decreases self.transforms.len() - i,
        {
            if !self.transforms[i].same_rule(&other.transforms[i]) {
                return false;
            }
            i += 1;
        }
        true
    }
}

/// A configuration says the same as another exactly where the other says the same as it.
pub proof fn saying_the_same_is_symmetric(a: AppConfigFile, b: AppConfigFile)
    ensures
        a.says_same(b) == b.says_same(a),
{
    if a.says_same(b) {
        assert forall|i: int| 0 <= i < b.transforms@.len() implies #[trigger] b.transforms@[i].says_same(
            a.transforms@[i],
        ) by {
            assert(a.transforms@[i].says_same(b.transforms@[i]));
        }
    }
    if b.says_same(a) {
        assert forall|i: int| 0 <= i < a.transforms@.len() implies #[trigger] a.transforms@[i].says_same(
            b.transforms@[i],
        ) by {
            assert(b.transforms@[i].says_same(a.transforms@[i]));
        }
    }
}

/// Settings that say the same lead to the same proxy: each of them is the same text, number or
/// flag, and paths are the same part by part. Settings that differ in any of them do not say the
/// same.
pub proof fn saying_the_same_is_having_the_same_settings(
    a: RuntimeSettingsFile,
    b: RuntimeSettingsFile,
)
    ensures
        a.listen_addr@ != b.listen_addr@ ==> !a.says_same(b),
        a.frontend_domain@ != b.frontend_domain@ ==> !a.says_same(b),
        a.backend_url@ != b.backend_url@ ==> !a.says_same(b),
        !is_same_path(a.tls_cert_path@, b.tls_cert_path@) ==> !a.says_same(b),
        !is_same_path(a.tls_key_path@, b.tls_key_path@) ==> !a.says_same(b),
        !is_same_path(a.sqlite_path@, b.sqlite_path@) ==> !a.says_same(b),
        (a.ca_bundle_path is Some) != (b.ca_bundle_path is Some) ==> !a.says_same(b),
        a.ca_bundle_path is Some && b.ca_bundle_path is Some && !is_same_path(
            a.ca_bundle_path->0@,
            b.ca_bundle_path->0@,
        ) ==> !a.says_same(b),
        opt_text(a.upstream_sni_override) != opt_text(b.upstream_sni_override) ==> !a.says_same(b),
        a.http_mode != b.http_mode ==> !a.says_same(b),
        a.flush_rows != b.flush_rows ==> !a.says_same(b),
        a.flush_interval_ms != b.flush_interval_ms ==> !a.says_same(b),
        a.max_inflight_events != b.max_inflight_events ==> !a.says_same(b),
        a.body_max_bytes != b.body_max_bytes ==> !a.says_same(b),
        a.connect_timeout_ms != b.connect_timeout_ms ==> !a.says_same(b),
        a.request_timeout_ms != b.request_timeout_ms ==> !a.says_same(b),
        a.idle_pool_timeout_ms != b.idle_pool_timeout_ms ==> !a.says_same(b),
        a.graceful_shutdown_timeout_ms != b.graceful_shutdown_timeout_ms ==> !a.says_same(b),
        a.trust_proxy_headers != b.trust_proxy_headers ==> !a.says_same(b),
        a.emit_keylog != b.emit_keylog ==> !a.says_same(b),
        texts(a.header_allowlist@) != texts(b.header_allowlist@) ==> !a.says_same(b),
        texts(a.header_denylist@) != texts(b.header_denylist@) ==> !a.says_same(b),
        a.says_same(a),
        a.is_written_like(b) ==> a.says_same(b),
{
}

/// Settings that are written alike are the same letter by letter, paths among them.
pub proof fn being_written_alike_is_having_the_same_letters(
    a: RuntimeSettingsFile,
    b: RuntimeSettingsFile,
)
    ensures
        a.is_written_like(b) <==> {
            &&& a.says_same(b)
            &&& a.tls_cert_path@ == b.tls_cert_path@
            &&& a.tls_key_path@ == b.tls_key_path@
            &&& a.sqlite_path@ == b.sqlite_path@
            &&& opt_text(a.ca_bundle_path) == opt_text(b.ca_bundle_path)
        },
{
}

/// Configurations that say the same have settings that say the same, and the same rules one for
/// one.
pub proof fn saying_the_same_is_having_the_same_rules(a: AppConfigFile, b: AppConfigFile, i: int)
    ensures
        a.says_same(b) ==> a.runtime.says_same(b.runtime),
        a.says_same(b) ==> a.transforms@.len() == b.transforms@.len(),
        a.says_same(b) && 0 <= i < a.transforms@.len() ==> a.transforms@[i].says_same(
            b.transforms@[i],
        ),
        a.says_same(a),
        a.is_written_like(b) ==> a.transforms@ == b.transforms@ && a.runtime.is_written_like(
            b.runtime,
        ) && a.says_same(b),
{
    assert forall|k: int| 0 <= k < a.transforms@.len() implies #[trigger] a.transforms@[k].says_same(
        a.transforms@[k],
    ) by {}
}

/// Rules that say the same have the same matcher, action, target and `stop`.
pub proof fn rules_that_say_the_same_are_alike(a: TransformRuleFile, b: TransformRuleFile)
    requires
        a.says_same(b),
    ensures
        a.stop == b.stop,
        a.matcher is Everything <==> b.matcher is Everything,
        a.matcher is UrlGlob <==> b.matcher is UrlGlob,
        a.matcher is ContentTypeGlob <==> b.matcher is ContentTypeGlob,
        a.matcher is UrlGlob ==> a.matcher->UrlGlob_pattern@ == b.matcher->UrlGlob_pattern@,
        a.matcher is ContentTypeGlob ==> a.matcher->ContentTypeGlob_pattern@
            == b.matcher->ContentTypeGlob_pattern@,
        a.action->from@ == b.action->from@,
        a.action->to@ == b.action->to@,
        a.target is Everything <==> b.target is Everything,
        a.target is Body <==> b.target is Body,
        a.target is AllHeaders <==> b.target is AllHeaders,
        a.target is Cookies <==> b.target is Cookies,
        a.target is Header ==> b.target is Header && a.target->name@ == b.target->name@,
{
}

/// The parts of a path are what stands between its slashes, but for empty parts and for a `.` that
/// is not in front; so another slash between two parts, a `.` between them, or a slash at the end
/// makes no difference.
pub proof fn path_parts_are_what_stands_between_slashes(
    front: Seq<char>,
    rest: Seq<char>,
    pieces: Seq<Seq<char>>,
    piece: Seq<char>,
)
    ensures
        path_parts(front) == counted_parts(split(front, '/')),
        counted_parts(Seq::empty()) == Seq::<Seq<char>>::empty(),
        piece.len() == 0 ==> counted_parts(pieces.push(piece)) == counted_parts(pieces),
        piece == seq!['.'] && pieces.len() > 0 ==> counted_parts(pieces.push(piece))
            == counted_parts(pieces),
        piece == seq!['.'] ==> counted_parts(seq![piece]) == seq![piece],
        piece.len() > 0 && piece != seq!['.'] ==> counted_parts(pieces.push(piece))
            == counted_parts(pieces).push(piece),
        is_absolute(front) <==> front.len() > 0 && front[0] == '/',
        is_same_path(front, rest) <==> is_absolute(front) == is_absolute(rest) && path_parts(front)
            == path_parts(rest),
{
    reveal_strlit(".");
    assert("."@ =~= seq!['.']);
    assert(pieces.push(piece).drop_last() =~= pieces);
    assert(seq![piece].drop_last() =~= Seq::<Seq<char>>::empty());
    if piece == seq!['.'] {
        reveal_with_fuel(counted_parts, 2);
        assert(counted_parts(seq![piece]) =~= seq![piece]);
    }
}

/// What the proxy asks its backend for is the path of the backend URL, without the slashes at its
/// end, and behind it the path of the request.
pub proof fn requests_keep_their_path_behind_the_prefix(
    base: Seq<char>,
    slashes: Seq<char>,
    path: Seq<char>,
)
    requires
        base.len() > 0 ==> base.last() != '/',
        forall|i: int| 0 <= i < slashes.len() ==> slashes[i] == '/',
    ensures
        path.len() > 0 && path[0] == '/' ==> backend_path(base + slashes, path) == base + path,
        !(path.len() > 0 && path[0] == '/') ==> backend_path(base + slashes, path) == base + seq![
            '/',
        ] + path,
    decreases slashes.len(),
{
    reveal_strlit("/");
    assert("/"@ =~= seq!['/']);
    let prefix = base + slashes;
    lemma_trim_slashes(base, slashes);
    if prefix == "/"@ {
        if base.len() > 0 {
            assert(prefix[base.len() - 1] == base.last());
            assert(false);
        }
        assert(base =~= Seq::<char>::empty());
        assert(base + path =~= path);
        assert(base + seq!['/'] + path =~= seq!['/'] + path);
    } else {
        assert(base + (seq!['/'] + path) =~= base + seq!['/'] + path);
    }
}

/// Trimming slashes takes all of those at the end.
proof fn lemma_trim_slashes(base: Seq<char>, slashes: Seq<char>)
    requires
        base.len() > 0 ==> base.last() != '/',
        forall|i: int| 0 <= i < slashes.len() ==> slashes[i] == '/',
    ensures
        trim_end_char(base + slashes, '/') == base,
    decreases slashes.len(),
{
    let s = base + slashes;
    if slashes.len() > 0 {
        assert(s.last() == slashes.last());
        assert(s.drop_last() =~= base + slashes.drop_last());
        lemma_trim_slashes(base, slashes.drop_last());
    } else {
        assert(s =~= base);
    }
}

/// The URL of the backend for a request is the backend URL with the wanted path, then with the
/// query of the request, then without a fragment.
pub proof fn requests_go_to_the_backend_url(
    cfg: RuntimeConfig,
    path: Seq<char>,
    query: Option<Seq<char>>,
)
    ensures
        ({
            let wanted = backend_path(cfg.backend_path_prefix@, path);
            let with_path = url_with_path(cfg.backend_url@, wanted);
            let with_query = url_with_query(with_path->0, query);
            let bare = url_without_fragment(with_query->0);
            &&& path_fits(cfg.backend_url@, wanted) && with_path is Some && query_fits(
                with_path->0,
                query,
            ) && with_query is Some && bare is Some ==> cfg.backend_url_for(path, query) == Ok::<
                Seq<char>,
                ConfigFault,
            >(bare->0)
            &&& cfg.backend_url_for(path, query) is Ok ==> with_path is Some && with_query is Some
                && bare is Some
        }),
{
}

/// Paths and queries of up to a billion bytes fit behind a URL that is not long itself.
pub proof fn ordinary_requests_fit(url: Seq<char>, path: Seq<char>, query: Option<Seq<char>>)
    requires
        url_parts(url) matches Some(parts) ==> encode_utf8(parts.text).len() <= 1_000_000_000,
        encode_utf8(path).len() <= 1_000_000_000,
        query matches Some(query) ==> encode_utf8(query).len() <= 1_000_000_000,
    ensures
        path_fits(url, path),
        query_fits(url, query),
{
    lemma_path_width(encode_utf8(path));
    if let Some(text) = query {
        lemma_query_width(encode_utf8(text));
    }
}

/// A path grows threefold at most.
proof fn lemma_path_width(bytes: Seq<u8>)
    ensures
        path_width(bytes) <= 3 * bytes.len(),
    decreases bytes.len(),
{
    if bytes.len() > 0 {
        lemma_path_width(bytes.drop_last());
    }
}

/// A query grows threefold at most.
proof fn lemma_query_width(bytes: Seq<u8>)
    ensures
        query_width(bytes) <= 3 * bytes.len(),
    decreases bytes.len(),
{
    if bytes.len() > 0 {
        lemma_query_width(bytes.drop_last());
    }
}

/// A header is logged where the allowlist names it; with an empty allowlist, where the denylist
/// does not.
pub proof fn lists_decide_what_is_logged(policy: HeaderLogPolicy, name: Seq<char>)
    ensures
        policy.allowed().contains(lower(name)) ==> policy.logs(name),
        policy.allowed() != Set::<Seq<char>>::empty() && !policy.allowed().contains(lower(name))
            ==> !policy.logs(name),
        policy.allowed() == Set::<Seq<char>>::empty() ==> (policy.logs(name)
            <==> !policy.denied().contains(lower(name))),
{
    if policy.allowed().contains(lower(name)) {
        assert(policy.allowed() != Set::<Seq<char>>::empty());
    }
}

/// A list names the headers that it is written with, whatever white space is around a name and in
/// whatever letter case it is written; an empty entry names none.
pub proof fn lists_name_what_they_are_written_with(values: Seq<String>, name: Seq<char>, i: int)
    ensures
        0 <= i < values.len() && lower(trim(values[i]@)).len() > 0 ==> header_names(
            values,
        ).contains(lower(trim(values[i]@))),
        header_names(values).contains(name) ==> name.len() > 0 && exists|k: int|
            0 <= k < values.len() && name == lower(trim(#[trigger] values[k]@)),
{
}

/// The proxy runs where the settings say: on the parsed listen address, for the frontend domain,
/// with the backend of the URL; the host in lower case, the port that is written or goes with the
/// scheme, and the server name of the override, or else the host.
pub proof fn addresses_are_those_of_the_settings(parsed: ParsedView, found: Addresses)
    requires
        parsed.fault() is None,
        parsed.leads_to(found),
    ensures
        parsed.listen == Some(found.listen_addr),
        parsed.frontend == Ok::<Seq<char>, ConfigFault>(found.frontend_domain@),
        parsed.url is Some && parsed.url->0.scheme == "https"@,
        found.backend_url@ == parsed.url->0.text,
        parsed.url->0.host is Some && found.backend_host@ == lower(parsed.url->0.host->0),
        parsed.url->0.port_or_default == Some(found.backend_port),
        parsed.url->0.port is None ==> found.backend_authority@ == found.backend_host@,
        parsed.url->0.port matches Some(port) ==> found.backend_authority@ == found.backend_host@
            + seq![':'] + decimal_text(port as nat),
        parsed.url->0.path.len() > 0 && parsed.url->0.path[0] == '/'
            ==> found.backend_path_prefix@ == parsed.url->0.path,
        parsed.sni is None ==> found.upstream_sni@ == found.backend_host@,
        parsed.sni matches Some(Ok(name)) ==> found.upstream_sni@ == name,
{
    reveal_strlit(":");
    assert(":"@ =~= seq![':']);
}

/// Addresses are refused where one of them cannot be parsed, where the backend is not asked over
/// TLS, or where its URL has no host or port; and nowhere else.
pub proof fn sound_addresses_are_accepted(parsed: ParsedView)
    ensures
        parsed.fault() is None <==> {
            &&& parsed.listen is Some
            &&& parsed.frontend is Ok
            &&& parsed.url is Some
            &&& parsed.url->0.scheme == "https"@
            &&& parsed.url->0.host is Some
            &&& parsed.url->0.port_or_default is Some
            &&& parsed.sni is None || parsed.sni->0 is Ok
        },
        parsed.listen is Some && parsed.frontend is Ok && parsed.url is Some
            && parsed.url->0.scheme != "https"@ ==> parsed.fault() == Some(
            ConfigFault::BackendNotHttps,
        ),
        parsed.listen is None ==> parsed.fault() == Some(ConfigFault::InvalidListenAddr),
        parsed.listen is Some && parsed.frontend is Err ==> parsed.fault() == Some(
            parsed.frontend->Err_0,
        ),
        parsed.listen is Some && parsed.frontend is Ok && parsed.url is None ==> parsed.fault()
            == Some(ConfigFault::InvalidBackendUrl),
{
}

/// Sound settings are accepted: with sound addresses, readable files, positive limits and sound
/// rules there is no fault.
pub proof fn sound_settings_are_accepted(
    settings: RuntimeSettingsFile,
    parsed: ParsedView,
    checks: FileChecks,
    rule_fault: Option<TransformFault>,
)
    ensures
        settings.fault(parsed, checks, rule_fault) is None <==> {
            &&& parsed.fault() is None
            &&& checks.cert_readable
            &&& checks.key_readable
            &&& settings.ca_bundle_path is Some ==> checks.ca_bundle_readable
            &&& checks.failed_directory is None
            &&& settings.flush_rows > 0
            &&& settings.flush_interval_ms > 0
            &&& settings.max_inflight_events > 0
            &&& settings.body_max_bytes > 0
            &&& settings.connect_timeout_ms > 0
            &&& settings.request_timeout_ms > 0
            &&& settings.idle_pool_timeout_ms > 0
            &&& settings.graceful_shutdown_timeout_ms > 0
            &&& rule_fault is None
        },
        parsed.fault() is Some ==> settings.fault(parsed, checks, rule_fault) == parsed.fault(),
{
}

/// The addresses are parsed from what the settings write: the domain, the backend URL and, where
/// there is one, the server name.
pub proof fn addresses_are_parsed_from_the_settings(
    settings: RuntimeSettingsFile,
    listen: Option<ListenAddr>,
)
    ensures
        settings.parsed(listen).listen == listen,
        settings.parsed(listen).frontend == domain_result(settings.frontend_domain@),
        settings.parsed(listen).url == url_parts(settings.backend_url@),
        settings.upstream_sni_override is None ==> settings.parsed(listen).sni is None,
        settings.upstream_sni_override matches Some(name) ==> settings.parsed(listen).sni == Some(
            domain_result(name@),
        ),
{
}

/// The proxy runs with the settings as they are written.
pub proof fn the_proxy_runs_with_its_settings(
    settings: RuntimeSettingsFile,
    parsed: ParsedView,
    config: RuntimeConfig,
)
    requires
        settings.describes(parsed, config),
    ensures
        parsed.listen == Some(config.listen_addr),
        parsed.frontend == Ok::<Seq<char>, ConfigFault>(config.frontend_domain@),
        config.backend_url@ == parsed.url->0.text,
        config.backend_host@ == lower(parsed.url->0.host->0),
        parsed.url->0.port_or_default == Some(config.backend_port),
        config.backend_path_prefix@ == rooted(parsed.url->0.path),
        parsed.sni is None ==> config.upstream_sni@ == config.backend_host@,
        parsed.sni matches Some(Ok(name)) ==> config.upstream_sni@ == name,
        config.tls_cert_path@ == settings.tls_cert_path@,
        config.tls_key_path@ == settings.tls_key_path@,
        config.sqlite_path@ == settings.sqlite_path@,
        opt_text(config.ca_bundle_path) == opt_text(settings.ca_bundle_path),
        config.http_mode == settings.http_mode,
        config.flush_rows == settings.flush_rows,
        config.flush_interval_ms == settings.flush_interval_ms,
        config.max_inflight_events == settings.max_inflight_events,
        config.body_max_bytes == settings.body_max_bytes,
        config.connect_timeout_ms == settings.connect_timeout_ms,
        config.request_timeout_ms == settings.request_timeout_ms,
        config.idle_pool_timeout_ms == settings.idle_pool_timeout_ms,
        config.graceful_shutdown_timeout_ms == settings.graceful_shutdown_timeout_ms,
        config.trust_proxy_headers == settings.trust_proxy_headers,
        config.emit_keylog == settings.emit_keylog,
        config.header_log_policy.allowed() == header_names(settings.header_allowlist@),
        config.header_log_policy.denied() == header_names(settings.header_denylist@),
{
}

/// A domain is accepted where it is labels of letters, digits and hyphens with dots between them,
/// and comes out in lower case without white space around it or dots behind it.
pub proof fn ordinary_domains_are_accepted(front: Seq<char>, host: Seq<char>, back: Seq<char>)
    requires
        forall|i: int| 0 <= i < front.len() ==> is_space(#[trigger] front[i]),
        forall|i: int| 0 <= i < back.len() ==> is_space(#[trigger] back[i]),
        0 < host.len() <= 63,
        forall|i: int|
            0 <= i < host.len() ==> 'a' <= #[trigger] host[i] <= 'z' || 'A' <= host[i] <= 'Z' || '0'
                <= host[i] <= '9',
    ensures
        domain_result(front + host + back) == Ok::<Seq<char>, ConfigFault>(lower(host)),
        domain_result(front + host + seq!['.'] + back) == Ok::<Seq<char>, ConfigFault>(lower(host)),
{
    let dotted = host + seq!['.'];
    assert(is_label_char(host[0]) && is_label_char(host.last()));
    crate::text::trimming_takes_white_space_around(front, host, back);
    crate::text::trimming_takes_white_space_around(front, dotted, back);
    assert(front + host + seq!['.'] + back =~= front + dotted + back);
    assert(trim_end_char(host, '.') == host);
    assert(dotted.drop_last() =~= host);
    assert(dotted.last() == '.');
    assert(trim_end_char(dotted, '.') == host);
    assert(!host.contains('.')) by {
        if host.contains('.') {
            let k = choose|k: int| 0 <= k < host.len() && host[k] == '.';
            assert(is_label_char(host[k]));
        }
    }
    crate::text::cutting_goes_from_mark_to_mark(host, '.', Seq::empty());
    assert(is_label(host)) by {
        assert forall|i: int| 0 <= i < host.len() implies is_label_char(#[trigger] host[i]) by {}
    }
    assert(split(host, '.').last() == host);
}

/// A domain that holds anything but letters, digits, hyphens and dots is refused, unless a dot is
/// in front of it.
pub proof fn other_characters_make_no_domain(text: Seq<char>, i: int)
    requires
        0 <= i < text.len(),
        text[0] != '.',
        !('a' <= text[i] <= 'z' || 'A' <= text[i] <= 'Z' || '0' <= text[i] <= '9' || text[i] == '-'
            || text[i] == '.'),
    ensures
        !is_domain(text),
{
    if are_labels(text) {
        lemma_labels_hold_label_chars(text, i);
    }
}

/// Every character of labels with dots between them is one of a label or a dot.
proof fn lemma_labels_hold_label_chars(text: Seq<char>, i: int)
    requires
        are_labels(text),
        0 <= i < text.len(),
    ensures
        text[i] == '.' || is_label_char(text[i]),
    decreases text.len(),
{
    let n = first_at(text, '.');
    lemma_first_at_bounds(text, '.');
    let labels = split(text, '.');
    if n < text.len() {
        let rest = text.skip(n + 1);
        let others = split(rest, '.');
        lemma_split_ends(rest);
        assert(labels =~= seq![text.take(n)] + others);
        if i < n {
            assert(is_label(labels[0]));
            assert(is_label_char(labels[0][i]));
        } else if i == n {
            lemma_at_first(text, '.');
        } else {
            assert forall|k: int| 0 <= k < others.len() - 1 implies is_label(#[trigger] others[k]) by {
                assert(labels[k + 1] == others[k]);
            }
            assert(labels.last() == others.last());
            if others.len() == 1 && others.last().len() == 0 {
                assert(rest.len() == 0);
            }
            lemma_labels_hold_label_chars(rest, i - n - 1);
        }
    } else {
        assert(labels.last() == text);
        assert(is_label_char(text[i]));
    }
}

/// Faults of a configuration are told apart, and say what they are about.
pub proof fn faults_say_what_they_are_about(text: String, file: RequiredFile, error: TransformError)
    ensures
        ConfigError::InvalidListenAddr@ == ConfigFault::InvalidListenAddr,
        ConfigError::EmptyDomain@ == ConfigFault::EmptyDomain,
        ConfigError::InvalidDomain@ == ConfigFault::InvalidDomain,
        ConfigError::InvalidBackendUrl@ == ConfigFault::InvalidBackendUrl,
        ConfigError::BackendNotHttps@ == ConfigFault::BackendNotHttps,
        ConfigError::BackendWithoutHost@ == ConfigFault::BackendWithoutHost,
        ConfigError::BackendWithoutPort@ == ConfigFault::BackendWithoutPort,
        (ConfigError::Unreadable { file, path: text })@ == (ConfigFault::Unreadable {
            file,
            path: text@,
        }),
        ConfigError::DirectoryNotCreated(text)@ == ConfigFault::DirectoryNotCreated(text@),
        ConfigError::NotPositive(text)@ == ConfigFault::NotPositive(text@),
        ConfigError::Transform(error)@ == ConfigFault::Transform(error@),
        ConfigError::InvalidUpstreamUri(text)@ == ConfigFault::InvalidUpstreamUri(text@),
        ConfigError::UpstreamUrlTooLong@ == ConfigFault::UpstreamUrlTooLong,
        ConfigError::InvalidListenAddr.message_text() == "invalid listen address"@,
        ConfigError::EmptyDomain.message_text() == "domain must not be empty"@,
        ConfigError::InvalidDomain.message_text() == "domain must be a valid DNS name"@,
        ConfigError::InvalidBackendUrl.message_text() == "invalid backend URL"@,
        ConfigError::BackendNotHttps.message_text() == "backend URL must use https"@,
        ConfigError::BackendWithoutHost.message_text() == "backend URL must include a host"@,
        ConfigError::BackendWithoutPort.message_text()
            == "backend URL must include a known HTTPS port"@,
        (ConfigError::Unreadable { file, path: text }).message_text() == file.label_text()
            + " path is not readable: "@ + text@,
        ConfigError::DirectoryNotCreated(text).message_text() == "failed to create "@ + text@,
        ConfigError::NotPositive(text).message_text() == text@ + " must be greater than zero"@,
        ConfigError::Transform(error).message_text() == error.message_text(),
        ConfigError::InvalidUpstreamUri(text).message_text() == "failed to build upstream URI from "@
            + text@,
        RequiredFile::TlsCert.label_text() == "TLS cert"@,
        RequiredFile::TlsKey.label_text() == "TLS key"@,
        RequiredFile::CaBundle.label_text() == "CA bundle"@,
{
}

/// Settings are refused for the first limit that is zero and for the first file that cannot be
/// used.
pub proof fn settings_are_refused_for_their_first_fault(
    settings: RuntimeSettingsFile,
    parsed: ParsedView,
    checks: FileChecks,
    rule_fault: Option<TransformFault>,
)
    requires
        parsed.fault() is None,
    ensures
        ({
            let fault = settings.fault(parsed, checks, rule_fault);
            let files = checks.cert_readable && checks.key_readable && (
            settings.ca_bundle_path is None || checks.ca_bundle_readable)
                && checks.failed_directory is None;
            &&& !checks.cert_readable ==> fault == Some(
                ConfigFault::Unreadable { file: RequiredFile::TlsCert, path: settings.tls_cert_path@ },
            )
            &&& checks.cert_readable && !checks.key_readable ==> fault == Some(
                ConfigFault::Unreadable { file: RequiredFile::TlsKey, path: settings.tls_key_path@ },
            )
            &&& files && settings.flush_rows == 0 ==> fault == Some(
                ConfigFault::NotPositive("flush rows"@),
            )
            &&& files && settings.flush_rows > 0 && settings.flush_interval_ms == 0 ==> fault
                == Some(ConfigFault::NotPositive("flush interval"@))
            &&& files && settings.flush_rows > 0 && settings.flush_interval_ms > 0
                && settings.max_inflight_events == 0 ==> fault == Some(
                ConfigFault::NotPositive("max inflight events"@),
            )
            &&& files && settings.flush_rows > 0 && settings.flush_interval_ms > 0
                && settings.max_inflight_events > 0 && settings.body_max_bytes == 0 ==> fault
                == Some(ConfigFault::NotPositive("body max bytes"@))
            &&& files && settings.limit_fault() is None ==> match rule_fault {
                Some(found) => fault == Some(ConfigFault::Transform(found)),
                None => fault is None,
            }
        }),
{
}

/// A path gets a slash in front where it has none.
pub proof fn paths_get_a_slash_in_front(path: Seq<char>)
    ensures
        path.len() > 0 && path[0] == '/' ==> rooted(path) == path,
        !(path.len() > 0 && path[0] == '/') ==> rooted(path) == seq!['/'] + path,
{
    reveal_strlit("/");
    assert("/"@ =~= seq!['/']);
}

/// A domain is refused as empty where nothing is left of it without white space around it and dots
/// behind it, and as invalid where the rest is no domain name.
pub proof fn domains_are_refused_for_what_they_are(raw: Seq<char>)
    ensures
        ({
            let kept = trim_end_char(trim(raw), '.');
            &&& kept.len() == 0 ==> domain_result(raw) == Err::<Seq<char>, ConfigFault>(
                ConfigFault::EmptyDomain,
            )
            &&& kept.len() > 0 && !is_domain(kept) ==> domain_result(raw) == Err::<
                Seq<char>,
                ConfigFault,
            >(ConfigFault::InvalidDomain)
            &&& kept.len() > 0 && is_domain(kept) ==> domain_result(raw) == Ok::<
                Seq<char>,
                ConfigFault,
            >(lower(kept))
        }),
{
}

/// A domain name of more than one label is a label, a dot and another domain name: each label is one
/// to 63 letters, digits and hyphens with no hyphen at either end, and the whole is not longer than
/// 253 characters.
pub proof fn domain_names_are_labels_between_dots(label: Seq<char>, rest: Seq<char>)
    requires
        !label.contains('.'),
        rest.len() > 0,
        rest[0] != '.',
        label.len() > 0,
    ensures
        is_domain(label + seq!['.'] + rest) <==> label.len() + 1 + rest.len() <= 253 && is_domain(
            rest,
        ) && label.len() <= 63 && label[0] != '-' && label.last() != '-' && forall|i: int|
            0 <= i < label.len() ==> 'a' <= #[trigger] label[i] <= 'z' || 'A' <= label[i] <= 'Z'
                || '0' <= label[i] <= '9' || label[i] == '-',
        is_domain(label) <==> label.len() <= 63 && label[0] != '-' && label.last() != '-' && forall|
            i: int,
        |
            0 <= i < label.len() ==> 'a' <= #[trigger] label[i] <= 'z' || 'A' <= label[i] <= 'Z'
                || '0' <= label[i] <= '9' || label[i] == '-',
{
    let whole = label + seq!['.'] + rest;
    crate::text::cutting_goes_from_mark_to_mark(label, '.', rest);
    assert(label.contains(label[0]));
    assert(whole[0] == label[0]);
    let labels = split(whole, '.');
    let others = split(rest, '.');
    lemma_split_ends(rest);
    assert(labels =~= seq![label] + others);
    assert(labels.last() == others.last());
    assert(is_label(label) <==> label.len() <= 63 && label[0] != '-' && label.last() != '-'
        && forall|i: int|
        0 <= i < label.len() ==> 'a' <= #[trigger] label[i] <= 'z' || 'A' <= label[i] <= 'Z' || '0'
            <= label[i] <= '9' || label[i] == '-') by {
        if is_label(label) {
            assert forall|i: int| 0 <= i < label.len() implies 'a' <= #[trigger] label[i] <= 'z'
                || 'A' <= label[i] <= 'Z' || '0' <= label[i] <= '9' || label[i] == '-' by {
                assert(is_label_char(label[i]));
            }
        }
    }
    assert(split(label, '.').last() == label);
    if are_labels(whole) {
        assert(is_label(labels[0]));
        assert forall|k: int| 0 <= k < others.len() - 1 implies is_label(#[trigger] others[k]) by {
            assert(labels[k + 1] == others[k]);
        }
        if others.len() == 1 && others.last().len() == 0 {
            assert(rest.len() == 0);
        }
    }
    if are_labels(rest) && is_label(label) {
        assert forall|k: int| 0 <= k < labels.len() - 1 implies is_label(#[trigger] labels[k]) by {
            if k > 0 {
                assert(labels[k] == others[k - 1]);
            }
        }
    }
}

/// A dot more at the end of a text is one more empty piece.
proof fn lemma_split_dotted(s: Seq<char>)
    ensures
        split(s.push('.'), '.') == split(s, '.').push(Seq::empty()),
    decreases s.len(),
{
    let dotted = s.push('.');
    let n = first_at(s, '.');
    lemma_first_at_bounds(s, '.');
    let front = s.take(n);
    assert(!front.contains('.')) by {
        if front.contains('.') {
            let k = choose|k: int| 0 <= k < front.len() && front[k] == '.';
            assert(s[k] != '.');
        }
    }
    if n < s.len() {
        let rest = s.skip(n + 1);
        lemma_at_first(s, '.');
        lemma_split_dotted(rest);
        crate::text::cutting_goes_from_mark_to_mark(front, '.', rest);
        crate::text::cutting_goes_from_mark_to_mark(front, '.', rest.push('.'));
        assert(front + seq!['.'] + rest =~= s);
        assert(front + seq!['.'] + rest.push('.') =~= dotted);
        assert(split(dotted, '.') =~= split(s, '.').push(Seq::empty()));
    } else {
        assert(front =~= s);
        crate::text::cutting_goes_from_mark_to_mark(s, '.', Seq::empty());
        crate::text::cutting_goes_from_mark_to_mark(Seq::empty(), '.', Seq::empty());
        assert(s + seq!['.'] + Seq::<char>::empty() =~= dotted);
        assert(split(dotted, '.') =~= split(s, '.').push(Seq::empty()));
    }
}

/// A domain name may end in a dot. One that begins with a dot has one more character of ASCII
/// behind it, which is no dot, and then a domain name.
pub proof fn domain_names_may_have_dots_around(name: Seq<char>, c: char)
    requires
        name.len() > 0,
        name[0] != '.',
        name.last() != '.',
    ensures
        is_domain(name.push('.')) <==> is_domain(name) && name.len() < 253,
        is_domain(seq!['.', c] + name) <==> is_domain(name) && name.len() <= 251 && c != '.' && c as u32
            <= 0x7f,
        !is_domain(Seq::empty()),
        !is_domain(seq!['.']),
{
    let dotted = name.push('.');
    let labels = split(name, '.');
    let more = split(dotted, '.');
    lemma_split_dotted(name);
    lemma_split_ends(name);
    assert(dotted[0] == name[0]);
    assert(more.last() == Seq::<char>::empty());
    if are_labels(name) {
        assert forall|k: int| 0 <= k < more.len() - 1 implies is_label(#[trigger] more[k]) by {
            assert(more[k] == labels[k]);
        }
    }
    if are_labels(dotted) {
        assert forall|k: int| 0 <= k < labels.len() implies is_label(#[trigger] labels[k]) by {
            assert(more[k] == labels[k]);
        }
    }
    assert((seq!['.', c] + name).skip(2) =~= name);
}

} // verus!
