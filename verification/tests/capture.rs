use kidproxy::body::BodyAccumulator;
use kidproxy::capture::{
    authority_host, format_http_version, host_matches_frontend, make_gateway_error,
    request_authority, BodyEvent, ExchangeCapture, ObservedBody, PeerAddr, RequestHead,
    ResponseHead, SharedExchangeCapture, SocketEnds, UpstreamConnection,
};
use kidproxy::config::{FileChecks, HttpVersion, ListenAddr, RuntimeConfig, RuntimeSettingsFile};
use kidproxy::error::{ErrorInfo, ErrorKind, ProxyResult};
use kidproxy::event::ProxyEvent;
use kidproxy::tls::{FrontendTlsMetadata, NegotiatedTls};
use kidproxy::transform::TransformRuleFile;
use rama::http::{HeaderMap, HeaderValue};

fn config(transforms: Vec<TransformRuleFile>) -> RuntimeConfig {
    let settings = RuntimeSettingsFile {
        frontend_domain: "example.test".to_owned(),
        backend_url: "https://backend.local".to_owned(),
        body_max_bytes: 8,
        ..RuntimeSettingsFile::default()
    };
    let listen = ListenAddr {
        text: "127.0.0.1:8443".to_owned(),
        port: 8443,
    };
    let checks = FileChecks {
        cert_readable: true,
        key_readable: true,
        ca_bundle_readable: true,
        failed_directory: None,
    };
    settings
        .to_runtime_config(&transforms, Some(listen), &checks)
        .unwrap()
}

fn request(path: &str, query: Option<&str>, host: &'static str) -> RequestHead {
    let mut headers = HeaderMap::new();
    headers.insert("host", HeaderValue::from_static(host));
    RequestHead {
        method: "GET".to_owned(),
        uri_authority: None,
        path: path.to_owned(),
        query: query.map(str::to_owned),
        version: HttpVersion::Http11,
        headers,
        socket: Some(SocketEnds {
            peer: PeerAddr {
                ip: "192.0.2.7".to_owned(),
                port: 5123,
            },
            local: None,
        }),
        frontend_tls: FrontendTlsMetadata::default(),
    }
}

fn response(status: u16, headers: HeaderMap) -> ResponseHead {
    ResponseHead {
        status,
        version: HttpVersion::Http11,
        headers,
        upstream: None,
    }
}

fn now() -> i128 {
    time::OffsetDateTime::now_utc().unix_timestamp_nanos()
}

#[test]
fn extracts_authority_host_without_port() {
    assert_eq!(
        authority_host("example.test:8443"),
        Some("example.test".to_owned())
    );
    assert_eq!(
        authority_host("user@example.test:8443"),
        Some("example.test".to_owned())
    );
    assert_eq!(
        authority_host("example.test"),
        Some("example.test".to_owned())
    );
}

#[test]
fn requests_are_for_the_domain_they_name() {
    let mut req = request("/", None, "Example.TEST:8443");
    assert_eq!(request_authority(&req), Some("Example.TEST:8443".to_owned()));
    assert!(host_matches_frontend(&req, "example.test"));
    req.uri_authority = Some("other.test".to_owned());
    assert!(!host_matches_frontend(&req, "example.test"));
    req.uri_authority = None;
    req.headers.remove("host");
    assert_eq!(request_authority(&req), None);
    assert!(!host_matches_frontend(&req, "example.test"));
}

#[test]
fn gateway_errors_are_plain_text() {
    let response = make_gateway_error(502, "bad gateway");
    assert_eq!(response.status, 502);
    assert_eq!(response.content_type, "text/plain; charset=utf-8");
    assert_eq!(response.body, "bad gateway");
    assert_eq!(format_http_version(&HttpVersion::Http2), "HTTP/2");
    assert_eq!(format_http_version(&HttpVersion::Http10), "HTTP/1.0");
    assert_eq!(ProxyEvent::empty_json(), "{}");
}

#[test]
fn exchanges_begin_with_what_the_request_tells() {
    let mut cfg = config(Vec::new());
    let mut req = request("/hello", Some("a=1"), "example.test");
    req.headers.insert("cookie", HeaderValue::from_static("a=1"));
    req.headers.insert("content-length", HeaderValue::from_static("3"));
    req.headers
        .insert("x-forwarded-for", HeaderValue::from_static("203.0.113.9"));
    req.headers
        .insert("x-forwarded-proto", HeaderValue::from_static("http"));
    let exchange =
        ExchangeCapture::begin(&cfg, &req, "e".to_owned(), "c".to_owned(), 1_000_000_000);
    assert_eq!(exchange.event_id, "e");
    assert_eq!(exchange.connection_id, "c");
    assert_eq!(exchange.client_ip.as_deref(), Some("192.0.2.7"));
    assert_eq!(exchange.client_port, Some(5123));
    assert_eq!(exchange.proxy_local_port, Some(8443));
    assert_eq!(exchange.frontend_scheme, "https");
    assert_eq!(exchange.request_cookies_json.as_deref(), Some("{\"a\":\"1\"}"));
    assert_eq!(exchange.request_content_length, Some(3));
    assert_eq!(exchange.query.as_deref(), Some("a=1"));
    assert_eq!(exchange.proxy_result, ProxyResult::Inflight);

    cfg.trust_proxy_headers = true;
    let exchange = ExchangeCapture::begin(&cfg, &req, "e".to_owned(), "c".to_owned(), 0);
    assert_eq!(exchange.client_ip.as_deref(), Some("203.0.113.9"));
    assert_eq!(exchange.frontend_scheme, "http");
    let event = exchange.build_event_at(2_500_000);
    assert_eq!(event.duration_ms, 2);
    assert_eq!(event.request_end_ts, 2_500_000);
    assert_eq!(event.response_stream_duration_ms, None);
}

#[test]
fn completed_exchanges_are_logged_once() {
    let cfg = config(Vec::new());
    let req = request("/big-response", None, "example.test");
    let mut capture = SharedExchangeCapture::new(&cfg, &req);
    assert_ne!(capture.exchange.event_id, capture.exchange.connection_id);
    assert_eq!(capture.exchange.event_id.len(), 36);
    let mut request_body = ObservedBody::request();
    assert!(request_body
        .poll_frame(
            &mut capture,
            BodyEvent::Frame {
                data: Some(b"request-body-is-longer-than-preview"),
                end_stream: true,
            },
        )
        .is_none());
    assert!(request_body.drop_body(&mut capture).is_none());

    let mut headers = HeaderMap::new();
    headers.insert("content-type", HeaderValue::from_static("text/plain"));
    capture.set_upstream_response(&cfg, &response(200, headers), now());
    let mut response_body = ObservedBody::response();
    assert!(response_body
        .poll_frame(
            &mut capture,
            BodyEvent::Frame {
                data: Some(b"abcdefghijklmnopqrstuvwxyz"),
                end_stream: false,
            },
        )
        .is_none());
    let event = response_body
        .poll_frame(&mut capture, BodyEvent::End)
        .unwrap();
    assert!(response_body.drop_body(&mut capture).is_none());
    assert!(capture.finalize_and_send().is_none());

    assert_eq!(event.status_code, Some(200));
    assert_eq!(event.reason_phrase.as_deref(), Some("OK"));
    assert_eq!(event.proxy_result, ProxyResult::Success);
    assert_eq!(event.request_body_preview_base64.as_deref(), Some("cmVxdWVzdC0="));
    assert_eq!(event.response_body_preview_base64.as_deref(), Some("YWJjZGVmZ2g="));
    assert_eq!(event.request_body_truncated, Some(true));
    assert_eq!(event.response_body_truncated, Some(true));
    assert_eq!(
        event.response_body_sha256.as_deref(),
        Some("71c480df93d6ae2f1efad1447c66c9525e316218cf51fc8d9ed832f2daf18b73")
    );
    assert_eq!(event.response_content_type.as_deref(), Some("text/plain"));
    assert!(event.request_start_ts <= event.request_end_ts);
}

#[test]
fn responses_that_break_off_are_stream_errors() {
    let cfg = config(Vec::new());
    let req = request("/stream", None, "example.test");
    let mut capture = SharedExchangeCapture::new(&cfg, &req);
    capture.set_upstream_response(&cfg, &response(404, HeaderMap::new()), now());
    let mut body = ObservedBody::response();
    let event = body
        .poll_frame(&mut capture, BodyEvent::Failed("connection reset".to_owned()))
        .unwrap();
    assert_eq!(event.proxy_result, ProxyResult::StreamError);
    assert_eq!(event.error_text.as_deref(), Some("connection reset"));
    assert_eq!(event.reason_phrase.as_deref(), Some("Not Found"));

    let mut capture = SharedExchangeCapture::new(&cfg, &req);
    capture.set_upstream_response(&cfg, &response(200, HeaderMap::new()), now());
    let mut body = ObservedBody::response();
    let event = body.drop_body(&mut capture).unwrap();
    assert_eq!(event.proxy_result, ProxyResult::StreamError);
    assert!(event.error_text.is_some());
}

#[test]
fn the_first_failure_stays() {
    let cfg = config(Vec::new());
    let req = request("/", None, "example.test");
    let mut capture = SharedExchangeCapture::new(&cfg, &req);
    capture.set_upstream_error(ErrorInfo::new(ErrorKind::Connect, "refused"));
    let event = capture
        .finalize_with_body_error_and_send(ErrorInfo::new(ErrorKind::Internal, "later"))
        .unwrap();
    assert_eq!(event.error_text.as_deref(), Some("refused"));
    assert_eq!(event.error_kind, Some(ErrorKind::Connect));
}

#[test]
fn rejections_carry_their_status() {
    let cfg = config(Vec::new());
    let req = request("/", None, "example.test");
    let mut capture = SharedExchangeCapture::new(&cfg, &req);
    capture.set_rejection(421, ErrorInfo::new(ErrorKind::ClientProtocol, "no"));
    let event = capture.finalize_and_send().unwrap();
    assert_eq!(event.status_code, Some(421));
    assert_eq!(event.reason_phrase.as_deref(), Some("Misdirected Request"));
    assert_eq!(event.proxy_result, ProxyResult::ClientRejected);
}

#[test]
fn upstream_connections_are_noted() {
    let cfg = config(Vec::new());
    let req = request("/", None, "example.test");
    let mut capture = SharedExchangeCapture::new(&cfg, &req);
    let mut head = response(200, HeaderMap::new());
    head.upstream = Some(UpstreamConnection {
        peer: Some(PeerAddr {
            ip: "198.51.100.4".to_owned(),
            port: 443,
        }),
        negotiated: Some(NegotiatedTls {
            version: "TLSv1_3".to_owned(),
            alpn: Some("http/1.1".to_owned()),
            peer_certificates: None,
        }),
    });
    capture.set_upstream_response(&cfg, &head, now());
    assert_eq!(capture.exchange.backend_ip.as_deref(), Some("198.51.100.4"));
    assert_eq!(capture.exchange.backend_tls.version.as_deref(), Some("TLSv1_3"));
    assert_eq!(capture.exchange.backend_tls.sni.as_deref(), Some("backend.local"));
    capture.observe_request_bytes(b"ab");
    capture.observe_response_bytes(b"cd");
    let kept: &BodyAccumulator = &capture.exchange.response_body;
    assert_eq!(kept.retained_bytes, b"cd");
}
