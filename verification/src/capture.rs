//! One exchange between a client and the backend: what is known of it while it runs, and the
//! event that is logged when it ends.
use crate::body::{body_summary, BodyAccumulator};
use crate::clock::{duration_ms_i64, fresh_id, in_calendar, is_random_id, now, whole_ms};
use crate::config::{HttpVersion, RuntimeConfig};
use crate::error::{ErrorInfo, ErrorKind, ProxyResult};
use crate::event::ProxyEvent;
use crate::fields::{
    cookies_json, forwarded_client, forwarded_client_ip, forwarded_proto, forwarded_scheme,
    logged_headers, parse_content_length, parse_cookies, parse_set_cookies, serialize_headers,
    set_cookies_json, shown_named, stated_length,
};
pub use crate::fields::{header_value, strip_hop_by_hop_headers};
use crate::headers::{first_named, get_header, header_entries};
use crate::json::{json_text, DocumentView};
use crate::text::{
    chars_of, copy_text, cut_once, lower, lowered, opt_text, rcut_once, rsplit_once, same_text,
    split_once, text_of, to_lower,
};
use crate::tls::{backend_tls_metadata, BackendTlsMetadata, FrontendTlsMetadata, NegotiatedTls};
use rama::http::HeaderMap;
use vstd::prelude::*;

verus! {

/// One end of a connection.
#[derive(Debug, Clone)]
pub struct PeerAddr {
    pub ip: String,
    pub port: u16,
}

/// The two ends of a client's connection, as far as they are known.
#[derive(Debug, Clone)]
pub struct SocketEnds {
    pub peer: PeerAddr,
    pub local: Option<PeerAddr>,
}

/// A request without its body, and what is known of the connection it came over.
#[derive(Debug)]
pub struct RequestHead {
    pub method: String,
    pub uri_authority: Option<String>,
    pub path: String,
    pub query: Option<String>,
    pub version: HttpVersion,
    pub headers: HeaderMap,
    pub socket: Option<SocketEnds>,
    pub frontend_tls: FrontendTlsMetadata,
}

/// What is known of the connection that a response came over.
#[derive(Debug, Clone)]
pub struct UpstreamConnection {
    pub peer: Option<PeerAddr>,
    pub negotiated: Option<NegotiatedTls>,
}

/// A response without its body, and what is known of the connection it came over.
#[derive(Debug)]
pub struct ResponseHead {
    pub status: u16,
    pub version: HttpVersion,
    pub headers: HeaderMap,
    pub upstream: Option<UpstreamConnection>,
}

/// A response that the proxy gives itself.
#[derive(Debug, Clone)]
pub struct GatewayResponse {
    pub status: u16,
    pub content_type: String,
    pub body: String,
}

// ---------------------------------------------------------------------------
// Requests
// ---------------------------------------------------------------------------

impl RequestHead {
    /// Whom a request is for: the authority of its URI, else its `host` header.
    pub open spec fn authority(self) -> Option<Seq<char>> {
        match self.uri_authority {
            Some(authority) => Some(authority@),
            None => shown_named(header_entries(self.headers), "host"@),
        }
    }
}

/// Whom a request is for.
pub fn request_authority(req: &RequestHead) -> (authority: Option<String>)
    ensures
        opt_text(authority) == req.authority(),
{
    proof {
        reveal_strlit("host");
        assert(lower("host"@) =~= "host"@);
    }
    match &req.uri_authority {
        Some(authority) => Some(authority.clone()),
        None => header_value(&req.headers, "host"),
    }
}

/// The host in an authority: what stands before the port, without user information, in lower
/// case. An authority without a port stands for itself.
pub open spec fn host_of(authority: Seq<char>) -> Seq<char> {
    let place = match rsplit_once(authority, '@') {
        Some((_, place)) => place,
        None => authority,
    };
    match split_once(place, ':') {
        Some((host, _)) => lower(host),
        None => lower(authority),
    }
}

/// The host in an authority.
pub fn authority_host(authority: &str) -> (host: Option<String>)
    ensures
        opt_text(host) == Some(host_of(authority@)),
{
    let chars = chars_of(authority);
    let place = match rcut_once(chars.as_slice(), '@') {
        Some((_, place)) => place,
        None => chars.as_slice(),
    };
    match cut_once(place, ':') {
        Some((host, _)) => Some(text_of(to_lower(host).as_slice())),
        None => Some(lowered(authority)),
    }
}

impl RequestHead {
    /// Whether a request is for a domain, letter case aside.
    pub open spec fn is_for_domain(self, domain: Seq<char>) -> bool {
        match self.authority() {
            Some(authority) => lower(host_of(authority)) == lower(domain),
            None => false,
        }
    }
}

/// Whether a request is for the domain that the proxy stands in front of.
pub fn host_matches_frontend(req: &RequestHead, frontend_domain: &str) -> (result: bool)
    ensures
        result == req.is_for_domain(frontend_domain@),
{
    match request_authority(req) {
        Some(authority) => match authority_host(authority.as_str()) {
            Some(host) => same_text(
                lowered(host.as_str()).as_str(),
                lowered(frontend_domain).as_str(),
            ),
            None => false,
        },
        None => false,
    }
}

/// The response that the proxy gives where it has none from the backend.
pub fn make_gateway_error(status: u16, message: &str) -> (response: GatewayResponse)
    ensures
        response.status == status,
        response.content_type@ == "text/plain; charset=utf-8"@,
        response.body@ == message@,
{
    GatewayResponse {
        status,
        content_type: "text/plain; charset=utf-8".to_owned(),
        body: message.to_owned(),
    }
}

/// How an HTTP version is written.
pub open spec fn version_text(version: HttpVersion) -> Seq<char> {
    match version {
        HttpVersion::Http09 => "HTTP/0.9"@,
        HttpVersion::Http10 => "HTTP/1.0"@,
        HttpVersion::Http11 => "HTTP/1.1"@,
        HttpVersion::Http2 => "HTTP/2"@,
        HttpVersion::Http3 => "HTTP/3"@,
        HttpVersion::Other(text) => text@,
    }
}

/// Writes an HTTP version.
pub fn format_http_version(version: &HttpVersion) -> (text: String)
    ensures
        text@ == version_text(*version),
{
    match version {
        HttpVersion::Http09 => "HTTP/0.9".to_owned(),
        HttpVersion::Http10 => "HTTP/1.0".to_owned(),
        HttpVersion::Http11 => "HTTP/1.1".to_owned(),
        HttpVersion::Http2 => "HTTP/2".to_owned(),
        HttpVersion::Http3 => "HTTP/3".to_owned(),
        HttpVersion::Other(text) => text.clone(),
    }
}

/// The reason phrase that goes with a status, where there is one.
pub uninterp spec fn reason_of(status: u16) -> Option<Seq<char>>;

/// `StatusCode::canonical_reason` knows the reason phrases of the registered statuses. Which they
/// are is not spelled out here.
#[verifier::external_body]
fn canonical_reason(status: u16) -> (reason: Option<String>)
    ensures
        opt_text(reason) == reason_of(status),
{
    let status = rama::http::StatusCode::from_u16(status).ok()?;
    status.canonical_reason().map(str::to_owned)
}

// ---------------------------------------------------------------------------
// Exchanges
// ---------------------------------------------------------------------------

/// What is known of an exchange while it runs.
#[derive(Debug)]
pub struct ExchangeCapture {
    pub event_id: String,
    pub connection_id: String,
    pub request_start_ts: i128,
    pub client_ip: Option<String>,
    pub client_port: Option<u16>,
    pub proxy_local_ip: Option<String>,
    pub proxy_local_port: Option<u16>,
    pub frontend_server_name: Option<String>,
    pub frontend_http_version: Option<String>,
    pub frontend_scheme: String,
    pub backend_url: String,
    pub backend_host: String,
    pub backend_ip: Option<String>,
    pub backend_port: Option<u16>,
    pub backend_http_version: Option<String>,
    pub upstream_connection_reused: Option<bool>,
    pub method: String,
    pub authority: Option<String>,
    pub path: String,
    pub query: Option<String>,
    pub request_headers_json: String,
    pub request_cookie_header: Option<String>,
    pub request_cookies_json: Option<String>,
    pub request_content_length: Option<i64>,
    pub request_transfer_encoding: Option<String>,
    pub request_content_type: Option<String>,
    pub response_headers_json: Option<String>,
    pub response_set_cookie_json: Option<String>,
    pub response_content_length: Option<i64>,
    pub response_transfer_encoding: Option<String>,
    pub response_content_type: Option<String>,
    pub response_content_encoding: Option<String>,
    pub status_code: Option<u16>,
    pub reason_phrase: Option<String>,
    pub frontend_tls: FrontendTlsMetadata,
    pub backend_tls: BackendTlsMetadata,
    pub upstream_first_byte_ms: Option<i64>,
    pub response_started_at: Option<i128>,
    pub proxy_result: ProxyResult,
    pub error: Option<ErrorInfo>,
    pub request_body: BodyAccumulator,
    pub response_body: BodyAccumulator,
    pub finalized: bool,
}

/// A length as it is kept, and the length it stands for.
pub open spec fn opt_int(value: Option<i64>) -> Option<int> {
    match value {
        Some(value) => Some(value as int),
        None => None,
    }
}

impl ExchangeCapture {
    /// Whether what is kept of the bodies belongs to them and the calendar covers the times.
    pub open spec fn wf(self) -> bool {
        &&& self.request_body.wf()
        &&& self.response_body.wf()
        &&& in_calendar(self.request_start_ts as int)
        &&& self.response_started_at matches Some(at) ==> in_calendar(at as int)
    }

    /// Whether an exchange is the one that a request begins, with nothing known of a response.
    pub open spec fn begins(
        self,
        cfg: RuntimeConfig,
        req: RequestHead,
        event_id: Seq<char>,
        connection_id: Seq<char>,
        started_at: i128,
    ) -> bool {
        let entries = header_entries(req.headers);
        &&& self.event_id@ == event_id
        &&& self.connection_id@ == connection_id
        &&& self.request_start_ts == started_at
        &&& opt_text(self.client_ip) == match forwarded_client(entries) {
            Some(ip) if cfg.trust_proxy_headers => Some(ip),
            _ => match req.socket {
                Some(ends) => Some(ends.peer.ip@),
                None => None,
            },
        }
        &&& self.client_port == match req.socket {
            Some(ends) => Some(ends.peer.port),
            None => None,
        }
        &&& opt_text(self.proxy_local_ip) == match req.socket {
            Some(SocketEnds { local: Some(local), .. }) => Some(local.ip@),
            _ => None,
        }
        &&& self.proxy_local_port == match req.socket {
            Some(SocketEnds { local: Some(local), .. }) => Some(local.port),
            _ => Some(cfg.listen_addr.port),
        }
        &&& opt_text(self.frontend_server_name) == Some(cfg.frontend_domain@)
        &&& opt_text(self.frontend_http_version) == Some(version_text(req.version))
        &&& self.frontend_scheme@ == match forwarded_scheme(entries) {
            Some(scheme) if cfg.trust_proxy_headers => scheme,
            _ => "https"@,
        }
        &&& self.backend_url@ == cfg.backend_url@
        &&& self.backend_host@ == cfg.backend_host@
        &&& self.backend_port == Some(cfg.backend_port)
        &&& self.method@ == req.method@
        &&& opt_text(self.authority) == req.authority()
        &&& self.path@ == req.path@
        &&& opt_text(self.query) == opt_text(req.query)
        &&& self.request_headers_json@ == json_text(
            DocumentView::Object(logged_headers(entries, cfg.header_log_policy)),
        )
        &&& opt_text(self.request_cookie_header) == shown_named(entries, "cookie"@)
        &&& opt_text(self.request_cookies_json) == cookies_json(first_named(entries, "cookie"@))
        &&& opt_int(self.request_content_length) == stated_length(entries)
        &&& opt_text(self.request_transfer_encoding) == shown_named(
            entries,
            "transfer-encoding"@,
        )
        &&& opt_text(self.request_content_type) == shown_named(entries, "content-type"@)
        &&& self.frontend_tls == req.frontend_tls
        &&& self.request_body.seen() == Seq::<u8>::empty()
        &&& self.request_body.max_bytes == cfg.body_max_bytes
        &&& self.response_body.seen() == Seq::<u8>::empty()
        &&& self.response_body.max_bytes == cfg.body_max_bytes
        &&& self.proxy_result == ProxyResult::Inflight
        &&& self.backend_tls == BackendTlsMetadata::unknown()
        &&& self.response_headers_json is None
        &&& self.response_set_cookie_json is None
        &&& self.response_content_length is None
        &&& self.response_transfer_encoding is None
        &&& self.response_content_type is None
        &&& self.response_content_encoding is None
        &&& self.status_code is None
        &&& self.reason_phrase is None
        &&& self.backend_ip is None
        &&& self.backend_http_version is None
        &&& self.upstream_connection_reused is None
        &&& self.upstream_first_byte_ms is None
        &&& self.response_started_at is None
        &&& self.error is None
        &&& !self.finalized
    }

    /// The exchange that a request begins, given its identifiers and the time.
    pub fn begin(
        cfg: &RuntimeConfig,
        req: &RequestHead,
        event_id: String,
        connection_id: String,
        started_at: i128,
    ) -> (exchange: ExchangeCapture)
        requires
            in_calendar(started_at as int),
        ensures
            exchange.wf(),
            exchange.begins(*cfg, *req, event_id@, connection_id@, started_at),
    {
        proof {
            reveal_strlit("cookie");
            reveal_strlit("transfer-encoding");
            reveal_strlit("content-type");
            assert(lower("cookie"@) =~= "cookie"@);
            assert(lower("transfer-encoding"@) =~= "transfer-encoding"@);
            assert(lower("content-type"@) =~= "content-type"@);
        }
        let client_from_headers = if cfg.trust_proxy_headers {
            forwarded_client_ip(&req.headers)
        } else {
            None
        };
        let scheme_from_headers = if cfg.trust_proxy_headers {
            forwarded_proto(&req.headers)
        } else {
            None
        };
        let client_ip = match client_from_headers {
            Some(ip) => Some(ip),
            None => match &req.socket {
                Some(ends) => Some(ends.peer.ip.clone()),
                None => None,
            },
        };
        let client_port = match &req.socket {
            Some(ends) => Some(ends.peer.port),
            None => None,
        };
        let local = match &req.socket {
            Some(ends) => match &ends.local {
                Some(local) => Some((local.ip.clone(), local.port)),
                None => None,
            },
            None => None,
        };
        let (proxy_local_ip, proxy_local_port) = match local {
            Some((ip, port)) => (Some(ip), Some(port)),
            None => (None, Some(cfg.listen_addr.port)),
        };
        let frontend_scheme = match scheme_from_headers {
            Some(scheme) => scheme,
            None => "https".to_owned(),
        };
        let cookie = get_header(&req.headers, "cookie");
        ExchangeCapture {
            event_id,
            connection_id,
            request_start_ts: started_at,
            client_ip,
            client_port,
            proxy_local_ip,
            proxy_local_port,
            frontend_server_name: Some(cfg.frontend_domain.clone()),
            frontend_http_version: Some(format_http_version(&req.version)),
            frontend_scheme,
            backend_url: cfg.backend_url.clone(),
            backend_host: cfg.backend_host.clone(),
            backend_ip: None,
            backend_port: Some(cfg.backend_port),
            backend_http_version: None,
            upstream_connection_reused: None,
            method: req.method.clone(),
            authority: request_authority(req),
            path: req.path.clone(),
            query: copy_text(&req.query),
            request_headers_json: serialize_headers(&req.headers, &cfg.header_log_policy),
            request_cookie_header: header_value(&req.headers, "cookie"),
            request_cookies_json: parse_cookies(&cookie),
            request_content_length: parse_content_length(&req.headers),
            request_transfer_encoding: header_value(&req.headers, "transfer-encoding"),
            request_content_type: header_value(&req.headers, "content-type"),
            response_headers_json: None,
            response_set_cookie_json: None,
            response_content_length: None,
            response_transfer_encoding: None,
            response_content_type: None,
            response_content_encoding: None,
            status_code: None,
            reason_phrase: None,
            frontend_tls: copy_frontend_tls(&req.frontend_tls),
            backend_tls: BackendTlsMetadata::default(),
            upstream_first_byte_ms: None,
            response_started_at: None,
            proxy_result: ProxyResult::Inflight,
            error: None,
            request_body: BodyAccumulator::new(cfg.body_max_bytes),
            response_body: BodyAccumulator::new(cfg.body_max_bytes),
            finalized: false,
        }
    }
}

/// A copy of what is known of the TLS session with the client.
fn copy_frontend_tls(metadata: &FrontendTlsMetadata) -> (copy: FrontendTlsMetadata)
    ensures
        copy == *metadata,
{
    FrontendTlsMetadata {
        version: copy_text(&metadata.version),
        cipher_suite: copy_text(&metadata.cipher_suite),
        alpn: copy_text(&metadata.alpn),
        sni: copy_text(&metadata.sni),
        ja3: copy_text(&metadata.ja3),
        ja4: copy_text(&metadata.ja4),
    }
}

impl ExchangeCapture {
    /// Whether an event is what is logged of the exchange where it ends at a time.
    pub open spec fn is_logged_as(self, ended_at: i128, event: ProxyEvent) -> bool {
        let request = body_summary(self.request_body.seen(), self.request_body.max_bytes as nat);
        let response = body_summary(self.response_body.seen(), self.response_body.max_bytes as nat);
        &&& event.event_id == self.event_id
        &&& event.connection_id == self.connection_id
        &&& event.request_start_ts == self.request_start_ts
        &&& event.request_end_ts == ended_at
        &&& event.duration_ms == whole_ms(ended_at - self.request_start_ts)
        &&& event.client_ip == self.client_ip
        &&& event.client_port == self.client_port
        &&& event.proxy_local_ip == self.proxy_local_ip
        &&& event.proxy_local_port == self.proxy_local_port
        &&& event.frontend_server_name == self.frontend_server_name
        &&& event.frontend_http_version == self.frontend_http_version
        &&& event.frontend_scheme == self.frontend_scheme
        &&& event.backend_url == self.backend_url
        &&& event.backend_host == self.backend_host
        &&& event.backend_ip == self.backend_ip
        &&& event.backend_port == self.backend_port
        &&& event.backend_http_version == self.backend_http_version
        &&& event.upstream_connection_reused == self.upstream_connection_reused
        &&& event.method == self.method
        &&& event.authority == self.authority
        &&& event.path == self.path
        &&& event.query == self.query
        &&& event.request_headers_json == self.request_headers_json
        &&& event.request_cookie_header == self.request_cookie_header
        &&& event.request_cookies_json == self.request_cookies_json
        &&& event.request_content_length == self.request_content_length
        &&& event.request_transfer_encoding == self.request_transfer_encoding
        &&& event.request_content_type == self.request_content_type
        &&& opt_text(event.request_body_sha256) == request.sha256
        &&& opt_text(event.request_body_preview_base64) == request.preview_base64
        &&& event.request_body_truncated == request.truncated
        &&& event.status_code == self.status_code
        &&& event.reason_phrase == self.reason_phrase
        &&& event.response_headers_json == self.response_headers_json
        &&& event.response_set_cookie_json == self.response_set_cookie_json
        &&& event.response_content_length == self.response_content_length
        &&& event.response_transfer_encoding == self.response_transfer_encoding
        &&& event.response_content_type == self.response_content_type
        &&& event.response_content_encoding == self.response_content_encoding
        &&& opt_text(event.response_body_sha256) == response.sha256
        &&& opt_text(event.response_body_preview_base64) == response.preview_base64
        &&& event.response_body_truncated == response.truncated
        &&& event.frontend_tls_version == self.frontend_tls.version
        &&& event.frontend_tls_cipher_suite == self.frontend_tls.cipher_suite
        &&& event.frontend_tls_alpn == self.frontend_tls.alpn
        &&& event.frontend_tls_sni == self.frontend_tls.sni
        &&& event.frontend_tls_ja3 == self.frontend_tls.ja3
        &&& event.frontend_tls_ja4 == self.frontend_tls.ja4
        &&& event.backend_tls_version == self.backend_tls.version
        &&& event.backend_tls_cipher_suite == self.backend_tls.cipher_suite
        &&& event.backend_tls_alpn == self.backend_tls.alpn
        &&& event.backend_tls_sni == self.backend_tls.sni
        &&& event.backend_cert_leaf_sha256 == self.backend_tls.cert_leaf_sha256
        &&& event.backend_cert_subject == self.backend_tls.cert_subject
        &&& event.backend_cert_issuer == self.backend_tls.cert_issuer
        &&& event.backend_cert_not_before == self.backend_tls.cert_not_before
        &&& event.backend_cert_not_after == self.backend_tls.cert_not_after
        &&& event.dns_duration_ms is None
        &&& event.connect_duration_ms is None
        &&& event.tls_handshake_duration_ms is None
        &&& event.upstream_first_byte_ms == self.upstream_first_byte_ms
        &&& opt_int(event.response_stream_duration_ms) == match self.response_started_at {
            Some(at) => Some(whole_ms(ended_at - at)),
            None => None,
        }
        &&& event.error_kind == match self.error {
            Some(error) => Some(error.kind),
            None => None,
        }
        &&& opt_text(event.error_text) == match self.error {
            Some(error) => Some(error.text@),
            None => None,
        }
        &&& event.proxy_result == self.proxy_result
    }

    /// The event that is logged of the exchange where it ends at a time.
    pub fn build_event_at(&self, ended_at: i128) -> (event: ProxyEvent)
        requires
            self.wf(),
            in_calendar(ended_at as int),
        ensures
            self.is_logged_as(ended_at, event),
    {
        let response_stream_duration_ms = match self.response_started_at {
            Some(at) => Some(duration_ms_i64(at, ended_at)),
            None => None,
        };
        let request_body = self.request_body.finish();
        let response_body = self.response_body.finish();
        let (error_kind, error_text) = match &self.error {
            Some(error) => (Some(error.kind), Some(error.text.clone())),
            None => (None, None),
        };
        ProxyEvent {
            event_id: self.event_id.clone(),
            connection_id: self.connection_id.clone(),
            request_start_ts: self.request_start_ts,
            request_end_ts: ended_at,
            duration_ms: duration_ms_i64(self.request_start_ts, ended_at),
            client_ip: copy_text(&self.client_ip),
            client_port: self.client_port,
            proxy_local_ip: copy_text(&self.proxy_local_ip),
            proxy_local_port: self.proxy_local_port,
            frontend_server_name: copy_text(&self.frontend_server_name),
            frontend_http_version: copy_text(&self.frontend_http_version),
            frontend_scheme: self.frontend_scheme.clone(),
            backend_url: self.backend_url.clone(),
            backend_host: self.backend_host.clone(),
            backend_ip: copy_text(&self.backend_ip),
            backend_port: self.backend_port,
            backend_http_version: copy_text(&self.backend_http_version),
            upstream_connection_reused: self.upstream_connection_reused,
            method: self.method.clone(),
            authority: copy_text(&self.authority),
            path: self.path.clone(),
            query: copy_text(&self.query),
            request_headers_json: self.request_headers_json.clone(),
            request_cookie_header: copy_text(&self.request_cookie_header),
            request_cookies_json: copy_text(&self.request_cookies_json),
            request_content_length: self.request_content_length,
            request_transfer_encoding: copy_text(&self.request_transfer_encoding),
            request_content_type: copy_text(&self.request_content_type),
            request_body_sha256: request_body.sha256,
            request_body_preview_base64: request_body.preview_base64,
            request_body_truncated: request_body.truncated,
            status_code: self.status_code,
            reason_phrase: copy_text(&self.reason_phrase),
            response_headers_json: copy_text(&self.response_headers_json),
            response_set_cookie_json: copy_text(&self.response_set_cookie_json),
            response_content_length: self.response_content_length,
            response_transfer_encoding: copy_text(&self.response_transfer_encoding),
            response_content_type: copy_text(&self.response_content_type),
            response_content_encoding: copy_text(&self.response_content_encoding),
            response_body_sha256: response_body.sha256,
            response_body_preview_base64: response_body.preview_base64,
            response_body_truncated: response_body.truncated,
            frontend_tls_version: copy_text(&self.frontend_tls.version),
            frontend_tls_cipher_suite: copy_text(&self.frontend_tls.cipher_suite),
            frontend_tls_alpn: copy_text(&self.frontend_tls.alpn),
            frontend_tls_sni: copy_text(&self.frontend_tls.sni),
            frontend_tls_ja3: copy_text(&self.frontend_tls.ja3),
            frontend_tls_ja4: copy_text(&self.frontend_tls.ja4),
            backend_tls_version: copy_text(&self.backend_tls.version),
            backend_tls_cipher_suite: copy_text(&self.backend_tls.cipher_suite),
            backend_tls_alpn: copy_text(&self.backend_tls.alpn),
            backend_tls_sni: copy_text(&self.backend_tls.sni),
            backend_cert_leaf_sha256: copy_text(&self.backend_tls.cert_leaf_sha256),
            backend_cert_subject: copy_text(&self.backend_tls.cert_subject),
            backend_cert_issuer: copy_text(&self.backend_tls.cert_issuer),
            backend_cert_not_before: self.backend_tls.cert_not_before,
            backend_cert_not_after: self.backend_tls.cert_not_after,
            dns_duration_ms: None,
            connect_duration_ms: None,
            tls_handshake_duration_ms: None,
            upstream_first_byte_ms: self.upstream_first_byte_ms,
            response_stream_duration_ms,
            error_kind,
            error_text,
            proxy_result: self.proxy_result,
        }
    }

    /// The event that is logged of the exchange where it ends now.
    pub fn build_event(&self) -> (event: ProxyEvent)
        requires
            self.wf(),
        ensures
            in_calendar(event.request_end_ts as int),
            self.is_logged_as(event.request_end_ts, event),
    {
        let ended_at = now();
        self.build_event_at(ended_at)
    }
}

/// An exchange that the parts of the proxy work on in turn.
#[derive(Debug)]
pub struct SharedExchangeCapture {
    pub exchange: ExchangeCapture,
}

/// Whether an exchange is another with a response filled in.
pub open spec fn is_with_response(
    before: ExchangeCapture,
    after: ExchangeCapture,
    cfg: RuntimeConfig,
    resp: ResponseHead,
    response_started_at: i128,
) -> bool {
    let entries = header_entries(resp.headers);
    &&& after == (ExchangeCapture {
        status_code: Some(resp.status),
        reason_phrase: after.reason_phrase,
        response_headers_json: after.response_headers_json,
        response_set_cookie_json: after.response_set_cookie_json,
        response_content_length: after.response_content_length,
        response_transfer_encoding: after.response_transfer_encoding,
        response_content_type: after.response_content_type,
        response_content_encoding: after.response_content_encoding,
        backend_http_version: after.backend_http_version,
        response_started_at: Some(response_started_at),
        upstream_first_byte_ms: after.upstream_first_byte_ms,
        proxy_result: ProxyResult::Success,
        backend_ip: after.backend_ip,
        backend_port: after.backend_port,
        backend_tls: after.backend_tls,
        ..before
    })
    &&& opt_text(after.reason_phrase) == reason_of(resp.status)
    &&& opt_text(after.response_headers_json) == Some(
        json_text(DocumentView::Object(logged_headers(entries, cfg.header_log_policy))),
    )
    &&& opt_text(after.response_set_cookie_json) == set_cookies_json(entries)
    &&& opt_int(after.response_content_length) == stated_length(entries)
    &&& opt_text(after.response_transfer_encoding) == shown_named(entries, "transfer-encoding"@)
    &&& opt_text(after.response_content_type) == shown_named(entries, "content-type"@)
    &&& opt_text(after.response_content_encoding) == shown_named(entries, "content-encoding"@)
    &&& opt_text(after.backend_http_version) == Some(version_text(resp.version))
    &&& opt_int(after.upstream_first_byte_ms) == Some(
        whole_ms(response_started_at - before.request_start_ts),
    )
    &&& match resp.upstream {
        Some(UpstreamConnection { peer: Some(peer), .. }) => opt_text(after.backend_ip) == Some(
            peer.ip@,
        ) && after.backend_port == Some(peer.port),
        _ => after.backend_ip == before.backend_ip && after.backend_port == before.backend_port,
    }
    &&& match resp.upstream {
        Some(upstream) => after.backend_tls.is_of_session(
            upstream.negotiated,
            cfg.upstream_sni@,
        ),
        None => after.backend_tls == before.backend_tls,
    }
}

/// An exchange as a failure of its response body leaves it: the failure is noted unless another
/// was noted before.
pub open spec fn with_body_error(before: ExchangeCapture, error: ErrorInfo) -> ExchangeCapture {
    if before.error is None {
        ExchangeCapture { proxy_result: ProxyResult::StreamError, error: Some(error), ..before }
    } else {
        before
    }
}

impl SharedExchangeCapture {
    pub open spec fn wf(self) -> bool {
        self.exchange.wf()
    }

    /// The exchange that a request begins now, under fresh identifiers.
    pub fn new(cfg: &RuntimeConfig, req: &RequestHead) -> (capture: SharedExchangeCapture)
        ensures
            capture.wf(),
            capture.exchange.begins(
                *cfg,
                *req,
                capture.exchange.event_id@,
                capture.exchange.connection_id@,
                capture.exchange.request_start_ts,
            ),
            is_random_id(capture.exchange.event_id@),
            is_random_id(capture.exchange.connection_id@),
    {
        let started_at = now();
        let event_id = fresh_id();
        let connection_id = fresh_id();
        SharedExchangeCapture {
            exchange: ExchangeCapture::begin(cfg, req, event_id, connection_id, started_at),
        }
    }

    /// Notes that the proxy turned the request down.
    pub fn set_rejection(&mut self, status: u16, error: ErrorInfo)
        requires
            old(self).wf(),
        ensures
            final(self).wf(),
            final(self).exchange == (ExchangeCapture {
                status_code: Some(status),
                reason_phrase: final(self).exchange.reason_phrase,
                proxy_result: ProxyResult::ClientRejected,
                error: Some(error),
                ..old(self).exchange
            }),
            opt_text(final(self).exchange.reason_phrase) == reason_of(status),
    {
        self.exchange.status_code = Some(status);
        self.exchange.reason_phrase = canonical_reason(status);
        self.exchange.proxy_result = ProxyResult::ClientRejected;
        self.exchange.error = Some(error);
    }

    /// Notes a response of the backend.
    pub fn set_upstream_response(
        &mut self,
        cfg: &RuntimeConfig,
        resp: &ResponseHead,
        response_started_at: i128,
    )
        requires
            old(self).wf(),
            in_calendar(response_started_at as int),
        ensures
            final(self).wf(),
            is_with_response(
                old(self).exchange,
                final(self).exchange,
                *cfg,
                *resp,
                response_started_at,
            ),
    {
        proof {
            reveal_strlit("transfer-encoding");
            reveal_strlit("content-type");
            reveal_strlit("content-encoding");
            assert(lower("transfer-encoding"@) =~= "transfer-encoding"@);
            assert(lower("content-type"@) =~= "content-type"@);
            assert(lower("content-encoding"@) =~= "content-encoding"@);
        }
        let exchange = &mut self.exchange;
        exchange.status_code = Some(resp.status);
        exchange.reason_phrase = canonical_reason(resp.status);
        exchange.response_headers_json = Some(
            serialize_headers(&resp.headers, &cfg.header_log_policy),
        );
        exchange.response_set_cookie_json = parse_set_cookies(&resp.headers);
        exchange.response_content_length = parse_content_length(&resp.headers);
        exchange.response_transfer_encoding = header_value(&resp.headers, "transfer-encoding");
        exchange.response_content_type = header_value(&resp.headers, "content-type");
        exchange.response_content_encoding = header_value(&resp.headers, "content-encoding");
        exchange.backend_http_version = Some(format_http_version(&resp.version));
        exchange.response_started_at = Some(response_started_at);
        exchange.upstream_first_byte_ms = Some(
            duration_ms_i64(exchange.request_start_ts, response_started_at),
        );
        exchange.proxy_result = ProxyResult::Success;
        if let Some(upstream) = &resp.upstream {
            if let Some(peer) = &upstream.peer {
                exchange.backend_ip = Some(peer.ip.clone());
                exchange.backend_port = Some(peer.port);
            }
            exchange.backend_tls = backend_tls_metadata(
                &upstream.negotiated,
                cfg.upstream_sni.as_str(),
            );
        }
    }

    /// Notes that the backend gave no response.
    pub fn set_upstream_error(&mut self, error: ErrorInfo)
        requires
            old(self).wf(),
        ensures
            final(self).wf(),
            final(self).exchange == (ExchangeCapture {
                proxy_result: ProxyResult::UpstreamError,
                error: Some(error),
                ..old(self).exchange
            }),
    {
        self.exchange.proxy_result = ProxyResult::UpstreamError;
        self.exchange.error = Some(error);
    }

    /// Takes note of bytes of the request body.
    pub fn observe_request_bytes(&mut self, chunk: &[u8])
        requires
            old(self).wf(),
        ensures
            final(self).wf(),
            final(self).exchange == (ExchangeCapture {
                request_body: final(self).exchange.request_body,
                ..old(self).exchange
            }),
            final(self).exchange.request_body.seen() == old(self).exchange.request_body.seen()
                + chunk@,
            final(self).exchange.request_body.max_bytes
                == old(self).exchange.request_body.max_bytes,
    {
        self.exchange.request_body.observe(chunk);
    }

    /// Takes note of bytes of the response body.
    pub fn observe_response_bytes(&mut self, chunk: &[u8])
        requires
            old(self).wf(),
        ensures
            final(self).wf(),
            final(self).exchange == (ExchangeCapture {
                response_body: final(self).exchange.response_body,
                ..old(self).exchange
            }),
            final(self).exchange.response_body.seen() == old(self).exchange.response_body.seen()
                + chunk@,
            final(self).exchange.response_body.max_bytes
                == old(self).exchange.response_body.max_bytes,
    {
        self.exchange.response_body.observe(chunk);
    }

    /// Ends the exchange and gives the event to log, where the exchange had not ended before.
    pub fn finalize_and_send(&mut self) -> (event: Option<ProxyEvent>)
        requires
            old(self).wf(),
        ensures
            final(self).wf(),
            final(self).exchange == (ExchangeCapture { finalized: true, ..old(self).exchange }),
            event is Some == !old(self).exchange.finalized,
            event matches Some(event) ==> in_calendar(event.request_end_ts as int) && old(
                self,
            ).exchange.is_logged_as(event.request_end_ts, event),
    {
        if self.exchange.finalized {
            return None;
        }
        self.exchange.finalized = true;
        let event = self.exchange.build_event();
        Some(event)
    }

    /// Ends the exchange with a failure of the response body, which is noted unless another was
    /// noted before, and gives the event to log, where the exchange had not ended before.
    pub fn finalize_with_body_error_and_send(&mut self, error: ErrorInfo) -> (event: Option<
        ProxyEvent,
    >)
        requires
            old(self).wf(),
        ensures
            final(self).wf(),
            final(self).exchange == (ExchangeCapture {
                finalized: true,
                ..with_body_error(old(self).exchange, error)
            }),
            event is Some == !old(self).exchange.finalized,
            event matches Some(event) ==> in_calendar(event.request_end_ts as int)
                && with_body_error(old(self).exchange, error).is_logged_as(
                event.request_end_ts,
                event,
            ),
    {
        if self.exchange.error.is_none() {
            self.exchange.proxy_result = ProxyResult::StreamError;
            self.exchange.error = Some(error);
        }
        self.finalize_and_send()
    }
}

// ---------------------------------------------------------------------------
// Bodies under observation
// ---------------------------------------------------------------------------

/// Which way a body goes.
#[derive(Debug, Clone, Copy, PartialEq, Eq, Structural)]
pub enum BodyDirection {
    Request,
    Response,
}

/// What a body does when it is asked for more: it yields a frame, with data or without, after
/// which it is at its end or not; it fails; or it has ended.
#[derive(Debug)]
pub enum BodyEvent<'a> {
    Frame { data: Option<&'a [u8]>, end_stream: bool },
    Failed(String),
    End,
}

/// A body that is passed on while an exchange takes note of it. The response body ends the
/// exchange: when it fails, when it ends, or when it is dropped.
#[derive(Debug, Clone, Copy, PartialEq, Eq, Structural)]
pub struct ObservedBody {
    pub direction: BodyDirection,
    pub finalized: bool,
    pub completed: bool,
}

/// Why an exchange failed whose response body was dropped.
pub open spec fn dropped_text() -> Seq<char> {
    "response body dropped before completion"@
}

impl ObservedBody {
    /// A request body that nothing has been asked of.
    pub fn request() -> (body: ObservedBody)
        ensures
            body == (ObservedBody {
                direction: BodyDirection::Request,
                finalized: false,
                completed: false,
            }),
    {
        ObservedBody { direction: BodyDirection::Request, finalized: false, completed: false }
    }

    /// A response body that nothing has been asked of.
    pub fn response() -> (body: ObservedBody)
        ensures
            body == (ObservedBody {
                direction: BodyDirection::Response,
                finalized: false,
                completed: false,
            }),
    {
        ObservedBody { direction: BodyDirection::Response, finalized: false, completed: false }
    }

    /// The body after it was asked for more.
    pub open spec fn after(self, event: BodyEvent<'_>) -> ObservedBody {
        match event {
            BodyEvent::Frame { end_stream, .. } => ObservedBody { completed: end_stream, ..self },
            BodyEvent::Failed(_) => ObservedBody {
                finalized: self.finalized || self.direction == BodyDirection::Response,
                ..self
            },
            BodyEvent::End => ObservedBody {
                completed: true,
                finalized: self.finalized || self.direction == BodyDirection::Response,
                ..self
            },
        }
    }

    /// Whether what the body does ends the exchange.
    pub open spec fn ends_exchange(self, event: BodyEvent<'_>) -> bool {
        self.direction == BodyDirection::Response && match event {
            BodyEvent::Frame { .. } => false,
            BodyEvent::Failed(_) => true,
            BodyEvent::End => !self.finalized,
        }
    }

    /// The exchange as what the body does leaves it, before it ends: a failure is noted unless
    /// another was noted before.
    pub open spec fn noted(self, exchange: ExchangeCapture, event: BodyEvent<'_>) -> ExchangeCapture {
        match event {
            BodyEvent::Failed(message) if self.direction == BodyDirection::Response => {
                with_body_error(
                    exchange,
                    ErrorInfo { kind: ErrorKind::UpstreamProtocol, text: message },
                )
            },
            _ => exchange,
        }
    }

    /// Takes note of what the body does when it is asked for more, and gives the event to log
    /// where that ends the exchange.
    pub fn poll_frame(&mut self, capture: &mut SharedExchangeCapture, event: BodyEvent<'_>) -> (sent:
        Option<ProxyEvent>)
        requires
            old(capture).wf(),
        ensures
            final(capture).wf(),
            *final(self) == old(self).after(event),
            match event {
                BodyEvent::Frame { data, .. } => ({
                    let bytes = match data {
                        Some(chunk) => chunk@,
                        None => Seq::empty(),
                    };
                    &&& sent is None
                    &&& final(capture).exchange == (ExchangeCapture {
                        request_body: final(capture).exchange.request_body,
                        response_body: final(capture).exchange.response_body,
                        ..old(capture).exchange
                    })
                    &&& final(capture).exchange.request_body.max_bytes == old(
                        capture,
                    ).exchange.request_body.max_bytes
                    &&& final(capture).exchange.response_body.max_bytes == old(
                        capture,
                    ).exchange.response_body.max_bytes
                    &&& final(capture).exchange.request_body.seen() == old(
                        capture,
                    ).exchange.request_body.seen() + if old(self).direction
                        == BodyDirection::Request {
                        bytes
                    } else {
                        Seq::empty()
                    }
                    &&& final(capture).exchange.response_body.seen() == old(
                        capture,
                    ).exchange.response_body.seen() + if old(self).direction
                        == BodyDirection::Response {
                        bytes
                    } else {
                        Seq::empty()
                    }
                }),
                _ => ({
                    let noted = old(self).noted(old(capture).exchange, event);
                    &&& sent is Some == (old(self).ends_exchange(event) && !old(
                        capture,
                    ).exchange.finalized)
                    &&& final(capture).exchange == (ExchangeCapture {
                        finalized: old(capture).exchange.finalized || old(self).ends_exchange(
                            event,
                        ),
                        ..noted
                    })
                    &&& sent matches Some(sent) ==> noted.is_logged_as(sent.request_end_ts, sent)
                }),
            },
    {
        let ghost empty = Seq::<u8>::empty();
        proof {
            let exchange = capture.exchange;
            assert(exchange.request_body.seen() + empty =~= exchange.request_body.seen());
            assert(exchange.response_body.seen() + empty =~= exchange.response_body.seen());
        }
        match event {
            BodyEvent::Frame { data, end_stream } => {
                if let Some(chunk) = data {
                    match self.direction {
                        BodyDirection::Request => capture.observe_request_bytes(chunk),
                        BodyDirection::Response => capture.observe_response_bytes(chunk),
                    }
                }
                self.completed = end_stream;
                None
            },
            BodyEvent::Failed(message) => {
                if self.direction == BodyDirection::Response {
                    self.finalized = true;
                    capture.finalize_with_body_error_and_send(
                        ErrorInfo::from_display(ErrorKind::UpstreamProtocol, message),
                    )
                } else {
                    None
                }
            },
            BodyEvent::End => {
                self.completed = true;
                if self.direction == BodyDirection::Response && !self.finalized {
                    self.finalized = true;
                    capture.finalize_and_send()
                } else {
                    None
                }
            },
        }
    }

    /// Takes note that the body is dropped: the response body ends the exchange, with a failure
    /// where it had not come to its end. Gives the event to log where that ends the exchange.
    pub fn drop_body(&mut self, capture: &mut SharedExchangeCapture) -> (sent: Option<ProxyEvent>)
        requires
            old(capture).wf(),
        ensures
            final(capture).wf(),
            ({
                let ends = old(self).direction == BodyDirection::Response && !old(self).finalized;
                let exchange = old(capture).exchange;
                &&& *final(self) == (ObservedBody {
                    finalized: old(self).finalized || ends,
                    ..*old(self)
                })
                &&& sent is Some == (ends && !exchange.finalized)
                &&& !ends ==> final(capture).exchange == exchange
                &&& ends && old(self).completed ==> {
                    &&& final(capture).exchange == (ExchangeCapture { finalized: true, ..exchange })
                    &&& sent matches Some(sent) ==> exchange.is_logged_as(
                        sent.request_end_ts,
                        sent,
                    )
                }
                &&& ends && !old(self).completed ==> exists|error: ErrorInfo|
                    {
                        &&& error.kind == ErrorKind::ClientProtocol
                        &&& error.text@ == dropped_text()
                        &&& final(capture).exchange == (ExchangeCapture {
                            finalized: true,
                            ..#[trigger] with_body_error(exchange, error)
                        })
                        &&& sent matches Some(sent) ==> with_body_error(
                            exchange,
                            error,
                        ).is_logged_as(sent.request_end_ts, sent)
                    }
            }),
    {
        if self.direction == BodyDirection::Response && !self.finalized {
            self.finalized = true;
            if self.completed {
                capture.finalize_and_send()
            } else {
                let error = ErrorInfo::new(
                    ErrorKind::ClientProtocol,
                    "response body dropped before completion",
                );
                let ghost noted = with_body_error(capture.exchange, error);
                capture.finalize_with_body_error_and_send(error)
            }
        } else {
            None
        }
    }
}

// ---------------------------------------------------------------------------
// Laws
// ---------------------------------------------------------------------------

/// The number of events that are logged while a body is asked for more again and again: those
/// that end an exchange that had not ended.
pub open spec fn events_logged(
    body: ObservedBody,
    exchange_ended: bool,
    happenings: Seq<BodyEvent<'_>>,
) -> nat
    decreases happenings.len(),
{
    if happenings.len() == 0 {
        0
    } else {
        let ends = body.ends_exchange(happenings[0]);
        let logged: nat = if ends && !exchange_ended {
            1
        } else {
            0
        };
        logged + events_logged(
            body.after(happenings[0]),
            exchange_ended || ends,
            happenings.skip(1),
        )
    }
}

/// The body after it was asked for more again and again.
pub open spec fn body_after(body: ObservedBody, happenings: Seq<BodyEvent<'_>>) -> ObservedBody
    decreases happenings.len(),
{
    if happenings.len() == 0 {
        body
    } else {
        body_after(body.after(happenings[0]), happenings.skip(1))
    }
}

/// The number of events that are logged when a body is dropped.
pub open spec fn events_logged_on_drop(body: ObservedBody, exchange_ended: bool) -> nat {
    if body.direction == BodyDirection::Response && !body.finalized && !exchange_ended {
        1
    } else {
        0
    }
}

/// Every exchange is logged exactly once: whatever a response body does before it is dropped, it
/// makes for one event in all.
pub proof fn every_exchange_is_logged_once(body: ObservedBody, happenings: Seq<BodyEvent<'_>>)
    requires
        body.direction == BodyDirection::Response,
        !body.finalized,
    ensures
        events_logged(body, false, happenings) + events_logged_on_drop(
            body_after(body, happenings),
            events_logged(body, false, happenings) > 0,
        ) == 1,
    decreases happenings.len(),
{
    if happenings.len() > 0 {
        let next = body.after(happenings[0]);
        if body.ends_exchange(happenings[0]) {
            lemma_nothing_logged_after_end(next, happenings.skip(1));
        } else {
            every_exchange_is_logged_once(next, happenings.skip(1));
        }
    }
}

/// Nothing more is logged of an exchange that has ended.
proof fn lemma_nothing_logged_after_end(body: ObservedBody, happenings: Seq<BodyEvent<'_>>)
    ensures
        events_logged(body, true, happenings) == 0,
    decreases happenings.len(),
{
    if happenings.len() > 0 {
        lemma_nothing_logged_after_end(body.after(happenings[0]), happenings.skip(1));
    }
}

/// Request bodies never end an exchange.
pub proof fn request_bodies_log_nothing(
    body: ObservedBody,
    exchange_ended: bool,
    happenings: Seq<BodyEvent<'_>>,
)
    requires
        body.direction == BodyDirection::Request,
    ensures
        events_logged(body, exchange_ended, happenings) == 0,
        events_logged_on_drop(body_after(body, happenings), exchange_ended) == 0,
    decreases happenings.len(),
{
    if happenings.len() > 0 {
        request_bodies_log_nothing(
            body.after(happenings[0]),
            exchange_ended,
            happenings.skip(1),
        );
    }
}

/// The first failure of an exchange is the one that is logged: a failure of the response body
/// does not replace one that was noted before.
pub proof fn the_first_failure_is_kept(exchange: ExchangeCapture, error: ErrorInfo)
    requires
        exchange.error is Some,
    ensures
        with_body_error(exchange, error) == exchange,
{
}

/// The host in an authority is what stands between the user information and the port, in lower
/// case; an authority without a port stands for itself.
pub proof fn hosts_stand_before_the_port(
    user: Seq<char>,
    host: Seq<char>,
    port: Seq<char>,
)
    requires
        !host.contains(':'),
        !host.contains('@'),
        !port.contains('@'),
    ensures
        host_of(host) == lower(host),
        host_of(host + seq![':'] + port) == lower(host),
        host_of(user + seq!['@'] + (host + seq![':'] + port)) == lower(host),
        host_of(user + seq!['@'] + host) == lower(user + seq!['@'] + host),
{
    let place = host + seq![':'] + port;
    assert(!place.contains('@')) by {
        if place.contains('@') {
            let k = choose|k: int| 0 <= k < place.len() && place[k] == '@';
            if k < host.len() {
                assert(host[k] == '@');
            } else if k > host.len() {
                assert(port[k - host.len() - 1] == '@');
            }
        }
    }
    crate::text::cutting_goes_from_mark_to_mark(host, '@', user);
    crate::text::cutting_goes_from_mark_to_mark(host, ':', port);
    crate::text::cutting_goes_from_mark_to_mark(place, '@', user);
}

/// A request is for a domain where the host of its authority is that domain, letter case aside. The
/// authority is that of its URI, or else its `host` header; without either it is for no domain.
pub proof fn requests_are_for_the_host_they_name(req: RequestHead, domain: Seq<char>)
    ensures
        req.uri_authority matches Some(authority) ==> (req.is_for_domain(domain) <==> lower(
            host_of(authority@),
        ) == lower(domain)),
        req.uri_authority is None ==> match shown_named(header_entries(req.headers), "host"@) {
            Some(authority) => req.is_for_domain(domain) <==> lower(host_of(authority)) == lower(
                domain,
            ),
            None => !req.is_for_domain(domain),
        },
{
}

/// What is logged of a request is what the request was: its method, authority, path and query, its
/// headers and cookies, where it came from and over which connection; and which backend it was for.
pub proof fn events_say_what_requests_were(
    exchange: ExchangeCapture,
    cfg: RuntimeConfig,
    req: RequestHead,
    event_id: Seq<char>,
    connection_id: Seq<char>,
    started_at: i128,
    ended_at: i128,
    event: ProxyEvent,
)
    requires
        exchange.begins(cfg, req, event_id, connection_id, started_at),
        exchange.is_logged_as(ended_at, event),
    ensures
        ({
            let entries = header_entries(req.headers);
            &&& event.event_id@ == event_id
            &&& event.connection_id@ == connection_id
            &&& event.request_start_ts == started_at
            &&& event.request_end_ts == ended_at
            &&& ended_at >= started_at ==> event.duration_ms == (ended_at - started_at) / 1_000_000
            &&& event.method@ == req.method@
            &&& event.path@ == req.path@
            &&& opt_text(event.query) == opt_text(req.query)
            &&& opt_text(event.authority) == req.authority()
            &&& event.request_headers_json@ == json_text(
                DocumentView::Object(logged_headers(entries, cfg.header_log_policy)),
            )
            &&& opt_text(event.request_cookie_header) == shown_named(entries, "cookie"@)
            &&& opt_text(event.request_cookies_json) == cookies_json(first_named(entries, "cookie"@))
            &&& opt_int(event.request_content_length) == stated_length(entries)
            &&& opt_text(event.request_content_type) == shown_named(entries, "content-type"@)
            &&& opt_text(event.request_transfer_encoding) == shown_named(
                entries,
                "transfer-encoding"@,
            )
            &&& opt_text(event.frontend_http_version) == Some(version_text(req.version))
            &&& opt_text(event.frontend_server_name) == Some(cfg.frontend_domain@)
            &&& event.frontend_tls_version == req.frontend_tls.version
            &&& event.frontend_tls_cipher_suite == req.frontend_tls.cipher_suite
            &&& event.frontend_tls_alpn == req.frontend_tls.alpn
            &&& event.frontend_tls_sni == req.frontend_tls.sni
            &&& event.frontend_tls_ja3 == req.frontend_tls.ja3
            &&& event.frontend_tls_ja4 == req.frontend_tls.ja4
            &&& event.backend_url@ == cfg.backend_url@
            &&& event.backend_host@ == cfg.backend_host@
            &&& event.backend_port == Some(cfg.backend_port)
            &&& event.status_code is None
            &&& event.error_kind is None
            &&& event.error_text is None
            &&& event.proxy_result == ProxyResult::Inflight
            &&& event.response_headers_json is None
            &&& event.response_set_cookie_json is None
            &&& event.request_body_sha256 is None
            &&& event.response_body_sha256 is None
        }),
{
    assert(exchange.request_body.seen().len() == 0);
}

/// Where a client came from is what the connection says, unless the proxies in front are trusted
/// and name it; then it is what they say. The scheme is HTTPS unless they say otherwise.
pub proof fn clients_are_who_the_connection_says(
    exchange: ExchangeCapture,
    cfg: RuntimeConfig,
    req: RequestHead,
    event_id: Seq<char>,
    connection_id: Seq<char>,
    started_at: i128,
    ended_at: i128,
    event: ProxyEvent,
)
    requires
        exchange.begins(cfg, req, event_id, connection_id, started_at),
        exchange.is_logged_as(ended_at, event),
    ensures
        ({
            let named = forwarded_client(header_entries(req.headers));
            let scheme = forwarded_scheme(header_entries(req.headers));
            &&& !cfg.trust_proxy_headers || named is None ==> match req.socket {
                Some(ends) => opt_text(event.client_ip) == Some(ends.peer.ip@),
                None => event.client_ip is None,
            }
            &&& cfg.trust_proxy_headers && named is Some ==> opt_text(event.client_ip) == named
            &&& !cfg.trust_proxy_headers || scheme is None ==> event.frontend_scheme@ == "https"@
            &&& cfg.trust_proxy_headers && scheme is Some ==> event.frontend_scheme@ == scheme->0
            &&& req.socket matches Some(ends) ==> event.client_port == Some(ends.peer.port)
            &&& req.socket is None ==> event.client_port is None && event.proxy_local_ip is None
            &&& (req.socket matches Some(SocketEnds { local: Some(local), .. })
                ==> opt_text(event.proxy_local_ip) == Some(local.ip@) && event.proxy_local_port
                == Some(local.port))
            &&& req.socket is None || req.socket->0.local is None ==> event.proxy_local_port == Some(
                cfg.listen_addr.port,
            )
        }),
{
}

/// What is logged of a response is what the response was: its status, version and headers, the
/// cookies it sets, and the connection it came over. What is logged of the request stays.
pub proof fn events_say_what_responses_were(
    before: ExchangeCapture,
    after: ExchangeCapture,
    cfg: RuntimeConfig,
    resp: ResponseHead,
    response_started_at: i128,
    ended_at: i128,
    event: ProxyEvent,
)
    requires
        is_with_response(before, after, cfg, resp, response_started_at),
        after.is_logged_as(ended_at, event),
    ensures
        ({
            let entries = header_entries(resp.headers);
            &&& event.status_code == Some(resp.status)
            &&& opt_text(event.reason_phrase) == reason_of(resp.status)
            &&& opt_text(event.response_headers_json) == Some(
                json_text(DocumentView::Object(logged_headers(entries, cfg.header_log_policy))),
            )
            &&& opt_text(event.response_set_cookie_json) == set_cookies_json(entries)
            &&& opt_int(event.response_content_length) == stated_length(entries)
            &&& opt_text(event.response_content_type) == shown_named(entries, "content-type"@)
            &&& opt_text(event.response_content_encoding) == shown_named(
                entries,
                "content-encoding"@,
            )
            &&& opt_text(event.response_transfer_encoding) == shown_named(
                entries,
                "transfer-encoding"@,
            )
            &&& opt_text(event.backend_http_version) == Some(version_text(resp.version))
            &&& response_started_at >= before.request_start_ts ==> opt_int(
                event.upstream_first_byte_ms,
            ) == Some((response_started_at - before.request_start_ts) / 1_000_000)
            &&& ended_at >= response_started_at ==> opt_int(event.response_stream_duration_ms)
                == Some((ended_at - response_started_at) / 1_000_000)
            &&& event.proxy_result == ProxyResult::Success
            &&& resp.upstream matches Some(UpstreamConnection { peer: Some(peer), .. })
                ==> opt_text(event.backend_ip) == Some(peer.ip@) && event.backend_port == Some(
                peer.port,
            )
            &&& event.event_id == before.event_id
            &&& event.connection_id == before.connection_id
            &&& event.request_start_ts == before.request_start_ts
            &&& event.method == before.method
            &&& event.authority == before.authority
            &&& event.path == before.path
            &&& event.query == before.query
            &&& event.client_ip == before.client_ip
            &&& event.client_port == before.client_port
            &&& event.frontend_scheme == before.frontend_scheme
            &&& event.backend_url == before.backend_url
            &&& event.backend_host == before.backend_host
            &&& event.request_headers_json == before.request_headers_json
            &&& event.request_cookie_header == before.request_cookie_header
            &&& event.request_cookies_json == before.request_cookies_json
            &&& event.request_content_length == before.request_content_length
            &&& event.request_content_type == before.request_content_type
            &&& after.finalized == before.finalized
            &&& after.request_body == before.request_body
            &&& after.response_body == before.response_body
        }),
{
}

/// What is logged of the bodies is what passed through: the digest of all of it, its beginning, and
/// whether it was longer than what is kept.
pub proof fn events_say_what_bodies_were(
    exchange: ExchangeCapture,
    ended_at: i128,
    event: ProxyEvent,
)
    requires
        exchange.is_logged_as(ended_at, event),
    ensures
        ({
            let sent = exchange.request_body.seen();
            let got = exchange.response_body.seen();
            let sent_cap = exchange.request_body.max_bytes;
            let got_cap = exchange.response_body.max_bytes;
            &&& sent.len() == 0 ==> event.request_body_sha256 is None
            &&& sent.len() > 0 ==> opt_text(event.request_body_sha256) == Some(
                crate::digest::hex_text(crate::digest::sha256(sent)),
            )
            &&& 0 < sent.len() <= sent_cap ==> opt_text(event.request_body_preview_base64) == Some(
                crate::digest::base64_text(sent),
            )
            &&& sent.len() > sent_cap > 0 ==> opt_text(event.request_body_preview_base64) == Some(
                crate::digest::base64_text(sent.take(sent_cap as int)),
            )
            &&& event.request_body_truncated == Some(sent.len() > sent_cap)
            &&& got.len() == 0 ==> event.response_body_sha256 is None
            &&& got.len() > 0 ==> opt_text(event.response_body_sha256) == Some(
                crate::digest::hex_text(crate::digest::sha256(got)),
            )
            &&& 0 < got.len() <= got_cap ==> opt_text(event.response_body_preview_base64) == Some(
                crate::digest::base64_text(got),
            )
            &&& got.len() > got_cap > 0 ==> opt_text(event.response_body_preview_base64) == Some(
                crate::digest::base64_text(got.take(got_cap as int)),
            )
            &&& event.response_body_truncated == Some(got.len() > got_cap)
        }),
{
}

/// What is logged of an exchange that failed is what failed: the kind and the text of the failure,
/// and how the exchange came out.
pub proof fn events_say_what_failed(exchange: ExchangeCapture, ended_at: i128, event: ProxyEvent)
    requires
        exchange.is_logged_as(ended_at, event),
    ensures
        exchange.error is None ==> event.error_kind is None && event.error_text is None,
        exchange.error matches Some(error) ==> event.error_kind == Some(error.kind) && opt_text(
            event.error_text,
        ) == Some(error.text@),
        event.proxy_result == exchange.proxy_result,
        event.status_code == exchange.status_code,
        event.reason_phrase == exchange.reason_phrase,
        event.backend_tls_version == exchange.backend_tls.version,
        event.backend_tls_cipher_suite == exchange.backend_tls.cipher_suite,
        event.backend_tls_alpn == exchange.backend_tls.alpn,
        event.backend_tls_sni == exchange.backend_tls.sni,
        event.backend_cert_leaf_sha256 == exchange.backend_tls.cert_leaf_sha256,
        event.backend_cert_subject == exchange.backend_tls.cert_subject,
        event.backend_cert_issuer == exchange.backend_tls.cert_issuer,
        event.backend_cert_not_before == exchange.backend_tls.cert_not_before,
        event.backend_cert_not_after == exchange.backend_tls.cert_not_after,
{
}

/// A failure of a response body is noted with its kind and text, and makes the exchange a stream
/// error; one that comes behind another failure changes nothing.
pub proof fn body_failures_are_noted(before: ExchangeCapture, error: ErrorInfo)
    ensures
        before.error is None ==> with_body_error(before, error).error == Some(error)
            && with_body_error(before, error).proxy_result == ProxyResult::StreamError,
        before.error is Some ==> with_body_error(before, error) == before,
        with_body_error(before, error).status_code == before.status_code,
        with_body_error(before, error).response_body == before.response_body,
        with_body_error(before, error).request_body == before.request_body,
        with_body_error(before, error).finalized == before.finalized,
{
}

/// A response body ends the exchange when it fails or ends, not while it yields frames; a request
/// body never does.
pub proof fn response_bodies_end_the_exchange(body: ObservedBody, event: BodyEvent<'_>)
    ensures
        body.direction == BodyDirection::Request ==> !body.ends_exchange(event) && body.after(
            event,
        ).finalized == body.finalized,
        event is Frame ==> !body.ends_exchange(event) && body.after(event).finalized
            == body.finalized && body.after(event).completed == event->end_stream,
        body.direction == BodyDirection::Response && event is Failed ==> body.ends_exchange(event)
            && body.after(event).finalized,
        body.direction == BodyDirection::Response && event is End ==> body.after(event).finalized
            && body.after(event).completed && body.ends_exchange(event) == !body.finalized,
        body.after(event).direction == body.direction,
{
}

/// HTTP versions are written as HTTP has them.
pub proof fn versions_are_written_as_http_has_them(text: String)
    ensures
        version_text(HttpVersion::Http09) == "HTTP/0.9"@,
        version_text(HttpVersion::Http10) == "HTTP/1.0"@,
        version_text(HttpVersion::Http11) == "HTTP/1.1"@,
        version_text(HttpVersion::Http2) == "HTTP/2"@,
        version_text(HttpVersion::Http3) == "HTTP/3"@,
        version_text(HttpVersion::Other(text)) == text@,
{
}

/// A failure of a response body is noted as one of the backend's protocol, with its message; a
/// failure of a request body is not noted, and nothing else that a body does is a failure.
pub proof fn failures_of_bodies_come_from_the_backend(
    body: ObservedBody,
    exchange: ExchangeCapture,
    event: BodyEvent<'_>,
)
    ensures
        body.direction == BodyDirection::Request ==> body.noted(exchange, event) == exchange,
        !(event is Failed) ==> body.noted(exchange, event) == exchange,
        body.direction == BodyDirection::Response && event is Failed && exchange.error is None ==> {
            let noted = body.noted(exchange, event);
            &&& noted.error is Some
            &&& noted.error->0.kind == ErrorKind::UpstreamProtocol
            &&& noted.error->0.text == event->Failed_0
            &&& noted.proxy_result == ProxyResult::StreamError
        },
        exchange.error is Some ==> body.noted(exchange, event) == exchange,
        dropped_text() == "response body dropped before completion"@,
{
}

/// Noting a response changes nothing that is known of the request, and leaves what is known of the
/// connection to the backend where the response says nothing of it.
pub proof fn noting_a_response_keeps_the_request(
    before: ExchangeCapture,
    after: ExchangeCapture,
    cfg: RuntimeConfig,
    resp: ResponseHead,
    response_started_at: i128,
)
    requires
        is_with_response(before, after, cfg, resp, response_started_at),
    ensures
        before == (ExchangeCapture {
            status_code: before.status_code,
            reason_phrase: before.reason_phrase,
            response_headers_json: before.response_headers_json,
            response_set_cookie_json: before.response_set_cookie_json,
            response_content_length: before.response_content_length,
            response_transfer_encoding: before.response_transfer_encoding,
            response_content_type: before.response_content_type,
            response_content_encoding: before.response_content_encoding,
            backend_http_version: before.backend_http_version,
            response_started_at: before.response_started_at,
            upstream_first_byte_ms: before.upstream_first_byte_ms,
            proxy_result: before.proxy_result,
            backend_ip: before.backend_ip,
            backend_port: before.backend_port,
            backend_tls: before.backend_tls,
            ..after
        }),
        after.response_started_at == Some(response_started_at),
        resp.upstream is None ==> after.backend_tls == before.backend_tls && after.backend_ip
            == before.backend_ip && after.backend_port == before.backend_port,
        resp.upstream matches Some(upstream) ==> after.backend_tls.is_of_session(
            upstream.negotiated,
            cfg.upstream_sni@,
        ),
{
}

/// What the proxy cannot measure is left open in the log; what it knows of the connections is in it.
pub proof fn events_leave_open_what_is_not_known(
    exchange: ExchangeCapture,
    ended_at: i128,
    event: ProxyEvent,
)
    requires
        exchange.is_logged_as(ended_at, event),
    ensures
        event.dns_duration_ms is None,
        event.connect_duration_ms is None,
        event.tls_handshake_duration_ms is None,
        event.upstream_connection_reused == exchange.upstream_connection_reused,
        event.upstream_first_byte_ms == exchange.upstream_first_byte_ms,
        exchange.response_started_at is None ==> event.response_stream_duration_ms is None,
        event.backend_ip == exchange.backend_ip,
        event.backend_port == exchange.backend_port,
        event.backend_http_version == exchange.backend_http_version,
        event.proxy_local_ip == exchange.proxy_local_ip,
        event.proxy_local_port == exchange.proxy_local_port,
        event.frontend_server_name == exchange.frontend_server_name,
        event.frontend_http_version == exchange.frontend_http_version,
        event.frontend_scheme == exchange.frontend_scheme,
        event.client_ip == exchange.client_ip,
        event.client_port == exchange.client_port,
        event.response_headers_json == exchange.response_headers_json,
        event.response_set_cookie_json == exchange.response_set_cookie_json,
        event.response_content_length == exchange.response_content_length,
        event.response_content_type == exchange.response_content_type,
        event.response_content_encoding == exchange.response_content_encoding,
        event.response_transfer_encoding == exchange.response_transfer_encoding,
{
}

} // verus!
