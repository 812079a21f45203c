use kidproxy::capture::{
    PeerAddr, RequestHead, ResponseHead, SharedExchangeCapture, SocketEnds, UpstreamConnection,
};
use kidproxy::config::{FileChecks, HeaderLogPolicy, HttpVersion, ListenAddr, RuntimeConfig, RuntimeSettingsFile};
use kidproxy::error::{ErrorKind, ProxyResult};
use kidproxy::probe::{probe_backend, probe_or_fallback, BackendProbe};
use kidproxy::proxy::{
    admit_buffered, admit_request, admit_response, BufferedDecision, RequestDecision,
    ResponseDecision, UpstreamResult,
};
use kidproxy::tls::{FrontendTlsMetadata, NegotiatedTls};
use kidproxy::transform::{
    TransformActionFile, TransformMatcherFile, TransformRuleFile, TransformTargetFile,
};
use rama::http::{HeaderMap, HeaderName, HeaderValue};

fn config(transforms: Vec<TransformRuleFile>) -> RuntimeConfig {
    let settings = RuntimeSettingsFile {
        frontend_domain: "example.test".to_owned(),
        backend_url: "https://backend.local".to_owned(),
        body_max_bytes: 8,
        ..RuntimeSettingsFile::default()
    };
    let listen = ListenAddr {
        text: "127.0.0.1:8443".to_owned(),
        port: 8443,
    };
    let checks = FileChecks {
        cert_readable: true,
        key_readable: true,
        ca_bundle_readable: true,
        failed_directory: None,
    };
    settings
        .to_runtime_config(&transforms, Some(listen), &checks)
        .unwrap()
}

fn request(path: &str, query: Option<&str>, host: &'static str) -> RequestHead {
    let mut headers = HeaderMap::new();
    headers.insert("host", HeaderValue::from_static(host));
    RequestHead {
        method: "GET".to_owned(),
        uri_authority: None,
        path: path.to_owned(),
        query: query.map(str::to_owned),
        version: HttpVersion::Http11,
        headers,
        socket: Some(SocketEnds {
            peer: PeerAddr {
                ip: "192.0.2.7".to_owned(),
                port: 5123,
            },
            local: None,
        }),
        frontend_tls: FrontendTlsMetadata::default(),
    }
}

fn response(status: u16, headers: HeaderMap) -> ResponseHead {
    ResponseHead {
        status,
        version: HttpVersion::Http11,
        headers,
        upstream: None,
    }
}

fn now() -> i128 {
    time::OffsetDateTime::now_utc().unix_timestamp_nanos()
}

fn replace(pattern: &str, from: &str, to: &str, target: TransformTargetFile) -> TransformRuleFile {
    TransformRuleFile {
        matcher: TransformMatcherFile::UrlGlob {
            pattern: pattern.to_owned(),
        },
        action: TransformActionFile::Replace {
            from: from.to_owned(),
            to: to.to_owned(),
        },
        target,
        stop: false,
    }
}

fn text<'a>(headers: &'a HeaderMap, name: &str) -> Option<&'a str> {
    headers.get(name).and_then(|value| value.to_str().ok())
}

#[test]
fn host_mismatches_are_turned_down() {
    let cfg = config(Vec::new());
    let mut req = request("/hello", None, "wrong.test");
    let mut capture = SharedExchangeCapture::new(&cfg, &req);
    match admit_request(&cfg, &mut req, &mut capture) {
        RequestDecision::Reject { response, event } => {
            assert_eq!(response.status, 421);
            assert_eq!(response.body, "misdirected request");
            let event = event.unwrap();
            assert_eq!(event.proxy_result, ProxyResult::ClientRejected);
            assert_eq!(event.error_kind, Some(ErrorKind::ClientProtocol));
            assert_eq!(event.status_code, Some(421));
        }
        other => panic!("unexpected {other:?}"),
    }
    assert!(req.headers.contains_key("host"));
}

#[test]
fn requests_are_passed_on_stripped() {
    let cfg = config(Vec::new());
    let mut req = request("/hello", Some("a=1"), "example.test");
    req.headers
        .insert("connection", HeaderValue::from_static("x-drop"));
    req.headers.insert("x-drop", HeaderValue::from_static("1"));
    req.headers.insert("x-keep", HeaderValue::from_static("2"));
    let mut capture = SharedExchangeCapture::new(&cfg, &req);
    match admit_request(&cfg, &mut req, &mut capture) {
        RequestDecision::Forward { uri } => {
            assert_eq!(uri, "https://backend.local/hello?a=1");
        }
        other => panic!("unexpected {other:?}"),
    }
    assert_eq!(req.headers.len(), 1);
    assert_eq!(text(&req.headers, "x-keep"), Some("2"));
    assert!(!capture.exchange.finalized);
}

#[test]
fn header_logging_leaves_forwarding_alone() {
    let open = config(Vec::new());
    let mut closed = config(Vec::new());
    closed.header_log_policy = HeaderLogPolicy::new(&vec!["x-none".to_owned()], &Vec::new());
    let mut forwarded = Vec::new();
    let mut logged = Vec::new();
    for cfg in [open, closed] {
        let mut req = request("/hello", None, "example.test");
        req.headers.insert("x-keep", HeaderValue::from_static("2"));
        let mut capture = SharedExchangeCapture::new(&cfg, &req);
        let decision = admit_request(&cfg, &mut req, &mut capture);
        assert!(matches!(decision, RequestDecision::Forward { .. }));
        forwarded.push(req.headers);
        logged.push(capture.exchange.request_headers_json);
    }
    assert_eq!(forwarded[0], forwarded[1]);
    assert_ne!(logged[0], logged[1]);
    assert_eq!(logged[1], "{}");
}

#[test]
fn responses_keep_their_location() {
    let cfg = config(Vec::new());
    let req = request("/redirect", None, "example.test");
    let mut capture = SharedExchangeCapture::new(&cfg, &req);
    let mut headers = HeaderMap::new();
    headers.insert(
        "location",
        HeaderValue::from_static("https://backend.local/elsewhere"),
    );
    headers.insert("keep-alive", HeaderValue::from_static("timeout=5"));
    let result = UpstreamResult::Response(response(302, headers));
    match admit_response(&cfg, "/redirect", None, &mut capture, result, now()) {
        ResponseDecision::Stream { head } => {
            assert_eq!(head.status, 302);
            assert_eq!(
                text(&head.headers, "location"),
                Some("https://backend.local/elsewhere")
            );
            assert_eq!(head.headers.len(), 1);
        }
        other => panic!("unexpected {other:?}"),
    }
    assert_eq!(capture.exchange.status_code, Some(302));
}

#[test]
fn backends_that_fail_are_answered_for() {
    let cfg = config(Vec::new());
    let req = request("/hello", None, "example.test");
    let mut capture = SharedExchangeCapture::new(&cfg, &req);
    let result = UpstreamResult::Failed("connection refused".to_owned());
    match admit_response(&cfg, "/hello", None, &mut capture, result, now()) {
        ResponseDecision::Fail { response, event } => {
            assert_eq!(response.status, 502);
            assert_eq!(response.body, "bad gateway");
            let event = event.unwrap();
            assert_eq!(event.proxy_result, ProxyResult::UpstreamError);
            assert_eq!(event.error_text.as_deref(), Some("connection refused"));
        }
        other => panic!("unexpected {other:?}"),
    }
    let mut capture = SharedExchangeCapture::new(&cfg, &req);
    match admit_response(&cfg, "/hello", None, &mut capture, UpstreamResult::TimedOut, now()) {
        ResponseDecision::Fail { response, event } => {
            assert_eq!(response.status, 504);
            assert_eq!(response.body, "gateway timeout");
            assert_eq!(event.unwrap().error_kind, Some(ErrorKind::Timeout));
        }
        other => panic!("unexpected {other:?}"),
    }
}

#[test]
fn header_rules_let_the_response_stream() {
    let cfg = config(vec![replace(
        "/stream",
        "text/plain",
        "text/stream",
        TransformTargetFile::Header {
            name: "content-type".to_owned(),
        },
    )]);
    let req = request("/stream", None, "example.test");
    let mut capture = SharedExchangeCapture::new(&cfg, &req);
    let mut headers = HeaderMap::new();
    headers.insert("content-type", HeaderValue::from_static("text/plain"));
    let result = UpstreamResult::Response(response(200, headers));
    match admit_response(&cfg, "/stream", None, &mut capture, result, now()) {
        ResponseDecision::Stream { head } => {
            assert_eq!(text(&head.headers, "content-type"), Some("text/stream"));
        }
        other => panic!("unexpected {other:?}"),
    }
}

#[test]
fn many_headers_leave_room_for_the_length() {
    let cfg = config(vec![replace(
        "/hello",
        "backend",
        "proxy",
        TransformTargetFile::Body {},
    )]);
    let req = request("/hello", None, "example.test");
    let mut capture = SharedExchangeCapture::new(&cfg, &req);
    let mut headers = HeaderMap::new();
    for i in 0..6553 {
        let name = HeaderName::from_bytes(format!("x-{i}").as_bytes()).unwrap();
        headers.insert(name, HeaderValue::from_static("1"));
    }
    let body = Ok(b"hello from backend".to_vec());
    let head = response(200, headers);
    match admit_buffered(&cfg, "/hello", None, &mut capture, head, 0, body) {
        BufferedDecision::Send { head, .. } => {
            assert_eq!(text(&head.headers, "content-length"), Some("16"));
            assert_eq!(text(&head.headers, "x-6552"), Some("1"));
        }
        other => panic!("unexpected {other:?}"),
    }
}

#[test]
fn rewritten_bodies_have_their_length_restated() {
    let cfg = config(vec![replace(
        "/hello",
        "backend",
        "proxy",
        TransformTargetFile::Body {},
    )]);
    let req = request("/hello", None, "example.test");
    let mut capture = SharedExchangeCapture::new(&cfg, &req);
    let mut headers = HeaderMap::new();
    headers.insert("content-length", HeaderValue::from_static("18"));
    let result = UpstreamResult::Response(response(200, headers));
    let (head, from) = match admit_response(&cfg, "/hello", None, &mut capture, result, now()) {
        ResponseDecision::Buffer { head, from } => (head, from),
        other => panic!("unexpected {other:?}"),
    };
    assert_eq!(from, 0);
    let body = Ok(b"hello from backend".to_vec());
    match admit_buffered(&cfg, "/hello", None, &mut capture, head, from, body) {
        BufferedDecision::Send { head, body } => {
            assert_eq!(body, b"hello from proxy");
            assert_eq!(text(&head.headers, "content-length"), Some("16"));
        }
        other => panic!("unexpected {other:?}"),
    }
}

#[test]
fn everything_targets_rewrite_headers_and_body() {
    let cfg = config(vec![replace(
        "/headers",
        "backend",
        "proxy",
        TransformTargetFile::Everything {},
    )]);
    let req = request("/headers", None, "example.test");
    let mut capture = SharedExchangeCapture::new(&cfg, &req);
    let mut headers = HeaderMap::new();
    headers.insert("x-test", HeaderValue::from_static("backend header"));
    let result = UpstreamResult::Response(response(200, headers));
    let (head, from) = match admit_response(&cfg, "/headers", None, &mut capture, result, now()) {
        ResponseDecision::Buffer { head, from } => (head, from),
        other => panic!("unexpected {other:?}"),
    };
    let body = Ok(b"backend header body".to_vec());
    match admit_buffered(&cfg, "/headers", None, &mut capture, head, from, body) {
        BufferedDecision::Send { head, body } => {
            assert_eq!(text(&head.headers, "x-test"), Some("proxy header"));
            assert_eq!(body, b"proxy header body");
        }
        other => panic!("unexpected {other:?}"),
    }
}

#[test]
fn unmatched_responses_stream_untouched() {
    let cfg = config(vec![replace(
        "/nope*",
        "backend",
        "proxy",
        TransformTargetFile::Everything {},
    )]);
    let req = request("/hello", None, "example.test");
    let mut capture = SharedExchangeCapture::new(&cfg, &req);
    let mut headers = HeaderMap::new();
    headers.insert("x-test", HeaderValue::from_static("backend header"));
    let result = UpstreamResult::Response(response(200, headers));
    match admit_response(&cfg, "/hello", None, &mut capture, result, now()) {
        ResponseDecision::Stream { head } => {
            assert_eq!(text(&head.headers, "x-test"), Some("backend header"));
        }
        other => panic!("unexpected {other:?}"),
    }
}

#[test]
fn rules_that_fail_end_the_exchange() {
    let cfg = config(vec![replace(
        "*",
        "backend",
        "two\nlines",
        TransformTargetFile::AllHeaders {},
    )]);
    let req = request("/hello", None, "example.test");
    let mut capture = SharedExchangeCapture::new(&cfg, &req);
    let mut headers = HeaderMap::new();
    headers.insert("x-test", HeaderValue::from_static("backend header"));
    let result = UpstreamResult::Response(response(200, headers));
    match admit_response(&cfg, "/hello", None, &mut capture, result, now()) {
        ResponseDecision::Fail { response, event } => {
            assert_eq!(response.status, 502);
            assert_eq!(event.unwrap().error_kind, Some(ErrorKind::Internal));
        }
        other => panic!("unexpected {other:?}"),
    }
}

#[test]
fn bodies_that_break_off_while_buffered_are_answered_for() {
    let cfg = config(vec![replace("*", "a", "b", TransformTargetFile::Body {})]);
    let req = request("/hello", None, "example.test");
    let mut capture = SharedExchangeCapture::new(&cfg, &req);
    let head = response(200, HeaderMap::new());
    let body = Err("reset".to_owned());
    match admit_buffered(&cfg, "/hello", None, &mut capture, head, 0, body) {
        BufferedDecision::Fail { response, event } => {
            assert_eq!(response.status, 502);
            assert!(event.is_some());
        }
        other => panic!("unexpected {other:?}"),
    }
}

#[test]
fn probes_tell_of_the_backend() {
    let cfg = config(Vec::new());
    let fallback = BackendProbe::fallback(&cfg);
    assert_eq!(fallback.backend_url, "https://backend.local/");
    assert_eq!(fallback.supports_h2, None);
    let mut headers = HeaderMap::new();
    headers.insert("server", HeaderValue::from_static("test"));
    let mut head = response(200, headers);
    let probe = probe_backend(&cfg, &head);
    assert_eq!(probe.supports_h2, Some(false));
    assert_eq!(probe.sample_server_header.as_deref(), Some("test"));
    assert_eq!(probe.sample_content_encoding, None);
    assert_eq!(probe.tls_version, None);
    head.version = HttpVersion::Http2;
    head.upstream = Some(UpstreamConnection {
        peer: None,
        negotiated: Some(NegotiatedTls {
            version: "TLSv1_2".to_owned(),
            alpn: Some("h2".to_owned()),
            peer_certificates: None,
        }),
    });
    let probe = probe_or_fallback(&cfg, Some(&head));
    assert_eq!(probe.supports_h2, Some(true));
    assert_eq!(probe.negotiated_alpn.as_deref(), Some("h2"));
    assert_eq!(probe.tls_version.as_deref(), Some("TLSv1_2"));
    assert_eq!(probe_or_fallback(&cfg, None).supports_h2, None);
}
