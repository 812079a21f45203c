//! How a proxied exchange can fail and how it can end.
use vstd::prelude::*;

verus! {

/// Where in the path between client and backend an exchange failed.
#[derive(Debug, Clone, Copy, PartialEq, Eq, Structural)]
pub enum ErrorKind {
    Config,
    FrontendTls,
    BackendTls,
    Dns,
    Connect,
    Timeout,
    UpstreamProtocol,
    ClientProtocol,
    SqliteWrite,
    Internal,
}

impl ErrorKind {
    /// The tag under which this kind is logged.
    pub open spec fn tag(self) -> Seq<char> {
        match self {
            ErrorKind::Config => "config"@,
            ErrorKind::FrontendTls => "tls_frontend"@,
            ErrorKind::BackendTls => "tls_backend"@,
            ErrorKind::Dns => "dns"@,
            ErrorKind::Connect => "connect"@,
            ErrorKind::Timeout => "timeout"@,
            ErrorKind::UpstreamProtocol => "upstream_protocol"@,
            ErrorKind::ClientProtocol => "client_protocol"@,
            ErrorKind::SqliteWrite => "sqlite_write"@,
            ErrorKind::Internal => "internal"@,
        }
    }

    pub fn as_str(self) -> (text: &'static str)
        ensures
            text@ == self.tag(),
    {
        match self {
            ErrorKind::Config => "config",
            ErrorKind::FrontendTls => "tls_frontend",
            ErrorKind::BackendTls => "tls_backend",
            ErrorKind::Dns => "dns",
            ErrorKind::Connect => "connect",
            ErrorKind::Timeout => "timeout",
            ErrorKind::UpstreamProtocol => "upstream_protocol",
            ErrorKind::ClientProtocol => "client_protocol",
            ErrorKind::SqliteWrite => "sqlite_write",
            ErrorKind::Internal => "internal",
        }
    }
}

/// How an exchange ended, as far as it has.
#[derive(Debug, Clone, Copy, PartialEq, Eq, Structural)]
pub enum ProxyResult {
    Inflight,
    Success,
    ClientRejected,
    UpstreamError,
    StreamError,
}

impl ProxyResult {
    /// The tag under which this result is logged.
    pub open spec fn tag(self) -> Seq<char> {
        match self {
            ProxyResult::Inflight => "inflight"@,
            ProxyResult::Success => "success"@,
            ProxyResult::ClientRejected => "client_rejected"@,
            ProxyResult::UpstreamError => "upstream_error"@,
            ProxyResult::StreamError => "stream_error"@,
        }
    }

    pub fn as_str(self) -> (text: &'static str)
        ensures
            text@ == self.tag(),
    {
        match self {
            ProxyResult::Inflight => "inflight",
            ProxyResult::Success => "success",
            ProxyResult::ClientRejected => "client_rejected",
            ProxyResult::UpstreamError => "upstream_error",
            ProxyResult::StreamError => "stream_error",
        }
    }
}

/// A failure as it is logged: its kind and a message.
#[derive(Debug, Clone, PartialEq, Eq)]
pub struct ErrorInfo {
    pub kind: ErrorKind,
    pub text: String,
}

impl ErrorInfo {
    pub fn new(kind: ErrorKind, text: &str) -> (info: Self)
        ensures
            info.kind == kind,
            info.text@ == text@,
    {
        ErrorInfo { kind, text: text.to_owned() }
    }

    /// Takes the text that an error displays as.
    pub fn from_display(kind: ErrorKind, displayed: String) -> (info: Self)
        ensures
            info == (ErrorInfo { kind, text: displayed }),
    {
        ErrorInfo { kind, text: displayed }
    }
}

/// Two kinds that are logged under the same tag are the same kind.
pub proof fn error_kind_tags_are_distinct(a: ErrorKind, b: ErrorKind)
    requires
        a.tag() == b.tag(),
    ensures
        a == b,
{
    reveal_strlit("config");
    reveal_strlit("tls_frontend");
    reveal_strlit("tls_backend");
    reveal_strlit("dns");
    reveal_strlit("connect");
    reveal_strlit("timeout");
    reveal_strlit("upstream_protocol");
    reveal_strlit("client_protocol");
    reveal_strlit("sqlite_write");
    reveal_strlit("internal");
    assert("config"@.len() == 6 && "config"@[0] == 'c');
    assert("tls_frontend"@.len() == 12 && "tls_frontend"@[0] == 't');
    assert("tls_backend"@.len() == 11 && "tls_backend"@[0] == 't');
    assert("dns"@.len() == 3 && "dns"@[0] == 'd');
    assert("connect"@.len() == 7 && "connect"@[0] == 'c');
    assert("timeout"@.len() == 7 && "timeout"@[0] == 't');
    assert("upstream_protocol"@.len() == 17 && "upstream_protocol"@[0] == 'u');
    assert("client_protocol"@.len() == 15 && "client_protocol"@[0] == 'c');
    assert("sqlite_write"@.len() == 12 && "sqlite_write"@[0] == 's');
    assert("internal"@.len() == 8 && "internal"@[0] == 'i');
}

/// Two results that are logged under the same tag are the same result.
pub proof fn proxy_result_tags_are_distinct(a: ProxyResult, b: ProxyResult)
    requires
        a.tag() == b.tag(),
    ensures
        a == b,
{
    reveal_strlit("inflight");
    reveal_strlit("success");
    reveal_strlit("client_rejected");
    reveal_strlit("upstream_error");
    reveal_strlit("stream_error");
    assert("inflight"@.len() == 8 && "inflight"@[0] == 'i');
    assert("success"@.len() == 7 && "success"@[0] == 's');
    assert("client_rejected"@.len() == 15 && "client_rejected"@[0] == 'c');
    assert("upstream_error"@.len() == 14 && "upstream_error"@[0] == 'u');
    assert("stream_error"@.len() == 12 && "stream_error"@[0] == 's');
}

/// Kinds of failures and results are logged under these tags.
pub proof fn tags_are_what_the_log_shows()
    ensures
        ErrorKind::Config.tag() == "config"@,
        ErrorKind::FrontendTls.tag() == "tls_frontend"@,
        ErrorKind::BackendTls.tag() == "tls_backend"@,
        ErrorKind::Dns.tag() == "dns"@,
        ErrorKind::Connect.tag() == "connect"@,
        ErrorKind::Timeout.tag() == "timeout"@,
        ErrorKind::UpstreamProtocol.tag() == "upstream_protocol"@,
        ErrorKind::ClientProtocol.tag() == "client_protocol"@,
        ErrorKind::SqliteWrite.tag() == "sqlite_write"@,
        ErrorKind::Internal.tag() == "internal"@,
        ProxyResult::Inflight.tag() == "inflight"@,
        ProxyResult::Success.tag() == "success"@,
        ProxyResult::ClientRejected.tag() == "client_rejected"@,
        ProxyResult::UpstreamError.tag() == "upstream_error"@,
        ProxyResult::StreamError.tag() == "stream_error"@,
{
}

} // verus!
