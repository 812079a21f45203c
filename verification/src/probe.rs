//! What a first request to the backend finds out about it.
use crate::capture::ResponseHead;
use crate::config::{HttpVersion, RuntimeConfig};
use crate::headers::{header_entries, header_text, text_named};
use crate::text::{lower, opt_text};
use crate::tls::{backend_tls_metadata, BackendTlsMetadata};
use vstd::prelude::*;

verus! {

/// What is known of the backend. Points in time are nanoseconds since 1970.
#[derive(Debug, Clone)]
pub struct BackendProbe {
    pub backend_url: String,
    pub negotiated_alpn: Option<String>,
    pub tls_version: Option<String>,
    pub supports_h2: Option<bool>,
    pub cert_subject: Option<String>,
    pub cert_issuer: Option<String>,
    pub cert_not_before: Option<i128>,
    pub cert_not_after: Option<i128>,
    pub sample_server_header: Option<String>,
    pub sample_content_encoding: Option<String>,
}

impl BackendProbe {
    /// Whether nothing but its URL is known of the backend.
    pub open spec fn knows_nothing_of(self, cfg: RuntimeConfig) -> bool {
        &&& self.backend_url@ == cfg.backend_url@
        &&& self.negotiated_alpn is None
        &&& self.tls_version is None
        &&& self.supports_h2 is None
        &&& self.cert_subject is None
        &&& self.cert_issuer is None
        &&& self.cert_not_before is None
        &&& self.cert_not_after is None
        &&& self.sample_server_header is None
        &&& self.sample_content_encoding is None
    }

    /// Nothing known of the backend but its URL.
    pub fn fallback(cfg: &RuntimeConfig) -> (probe: BackendProbe)
        ensures
            probe.knows_nothing_of(*cfg),
    {
        BackendProbe {
            backend_url: cfg.backend_url.clone(),
            negotiated_alpn: None,
            tls_version: None,
            supports_h2: None,
            cert_subject: None,
            cert_issuer: None,
            cert_not_before: None,
            cert_not_after: None,
            sample_server_header: None,
            sample_content_encoding: None,
        }
    }

    /// Whether a probe is what a response tells of the backend: whether it speaks HTTP/2, two
    /// headers where they are text, and what is known of the TLS session.
    pub open spec fn tells_of(self, cfg: RuntimeConfig, response: ResponseHead) -> bool {
        let entries = header_entries(response.headers);
        &&& self.backend_url@ == cfg.backend_url@
        &&& self.supports_h2 == Some(response.version == HttpVersion::Http2)
        &&& opt_text(self.sample_server_header) == text_named(entries, "server"@)
        &&& opt_text(self.sample_content_encoding) == text_named(entries, "content-encoding"@)
        &&& match response.upstream {
            Some(upstream) => exists|tls: BackendTlsMetadata|
                {
                    &&& #[trigger] tls.is_of_session(upstream.negotiated, cfg.upstream_sni@)
                    &&& self.negotiated_alpn == tls.alpn
                    &&& self.tls_version == tls.version
                    &&& self.cert_subject == tls.cert_subject
                    &&& self.cert_issuer == tls.cert_issuer
                    &&& self.cert_not_before == tls.cert_not_before
                    &&& self.cert_not_after == tls.cert_not_after
                },
            None => {
                &&& self.negotiated_alpn is None
                &&& self.tls_version is None
                &&& self.cert_subject is None
                &&& self.cert_issuer is None
                &&& self.cert_not_before is None
                &&& self.cert_not_after is None
            },
        }
    }
}

/// What a response tells of the backend.
pub fn probe_backend(cfg: &RuntimeConfig, response: &ResponseHead) -> (probe: BackendProbe)
    ensures
        probe.tells_of(*cfg, *response),
{
    proof {
        reveal_strlit("server");
        reveal_strlit("content-encoding");
        assert(lower("server"@) =~= "server"@);
        assert(lower("content-encoding"@) =~= "content-encoding"@);
    }
    let mut probe = BackendProbe::fallback(cfg);
    let h2 = match &response.version {
        HttpVersion::Http2 => true,
        _ => false,
    };
    probe.supports_h2 = Some(h2);
    probe.sample_server_header = header_text(&response.headers, "server");
    probe.sample_content_encoding = header_text(&response.headers, "content-encoding");
    if let Some(upstream) = &response.upstream {
        let tls = backend_tls_metadata(&upstream.negotiated, cfg.upstream_sni.as_str());
        let ghost session = tls;
        assert(session.is_of_session(upstream.negotiated, cfg.upstream_sni@));
        probe.negotiated_alpn = tls.alpn;
        probe.tls_version = tls.version;
        probe.cert_subject = tls.cert_subject;
        probe.cert_issuer = tls.cert_issuer;
        probe.cert_not_before = tls.cert_not_before;
        probe.cert_not_after = tls.cert_not_after;
    }
    probe
}

/// What is known of the backend: what the probe found, or nothing where it failed.
pub fn probe_or_fallback(cfg: &RuntimeConfig, response: Option<&ResponseHead>) -> (probe:
    BackendProbe)
    ensures
        match response {
            Some(response) => probe.tells_of(*cfg, *response),
            None => probe.knows_nothing_of(*cfg),
        },
{
    match response {
        Some(response) => probe_backend(cfg, response),
        None => BackendProbe::fallback(cfg),
    }
}

/// A probe tells of the backend what its response says: whether it speaks HTTP/2, and its headers
/// where they are text; and of the session what the handshake agreed on.
pub proof fn probes_tell_what_the_response_says(
    probe: BackendProbe,
    cfg: RuntimeConfig,
    response: ResponseHead,
)
    requires
        probe.tells_of(cfg, response),
    ensures
        probe.backend_url@ == cfg.backend_url@,
        response.version is Http2 ==> probe.supports_h2 == Some(true),
        !(response.version is Http2) ==> probe.supports_h2 == Some(false),
        opt_text(probe.sample_server_header) == text_named(
            header_entries(response.headers),
            "server"@,
        ),
        opt_text(probe.sample_content_encoding) == text_named(
            header_entries(response.headers),
            "content-encoding"@,
        ),
        response.upstream is None ==> probe.negotiated_alpn is None && probe.tls_version is None
            && probe.cert_subject is None && probe.cert_issuer is None,
        response.upstream matches Some(upstream) ==> match upstream.negotiated {
            Some(params) => opt_text(probe.negotiated_alpn) == opt_text(params.alpn) && opt_text(
                probe.tls_version,
            ) == Some(params.version@),
            None => probe.negotiated_alpn is None && probe.tls_version is None,
        },
{
}

/// Nothing is known of a backend that could not be asked but its URL.
pub proof fn nothing_is_known_of_silent_backends(probe: BackendProbe, cfg: RuntimeConfig)
    requires
        probe.knows_nothing_of(cfg),
    ensures
        probe.backend_url@ == cfg.backend_url@,
        probe.supports_h2 is None,
        probe.negotiated_alpn is None,
        probe.tls_version is None,
        probe.cert_subject is None,
        probe.cert_issuer is None,
        probe.cert_not_before is None,
        probe.cert_not_after is None,
        probe.sample_server_header is None,
        probe.sample_content_encoding is None,
{
}

} // verus!
