use kidproxy::cli::{Cli, HttpMode};
use kidproxy::config::{
    accept_domain, accept_uri, normalize_backend_prefix, normalize_domain, normalize_header_names,
    normalize_request_path, same_path, validate_positive, AppConfigFile, ConfigError, FileChecks,
    HeaderLogPolicy, HttpVersion, ListenAddr, RequiredFile, ResolvedHttpMode, RuntimeConfig,
    RuntimeSettingsFile,
};
use kidproxy::error::{ErrorInfo, ErrorKind, ProxyResult};
use kidproxy::transform::{
    TransformActionFile, TransformError, TransformMatcherFile, TransformRuleFile,
    TransformTargetFile,
};
use std::path::Path;

fn test_runtime() -> RuntimeSettingsFile {
    RuntimeSettingsFile {
        listen_addr: "127.0.0.1:8443".to_owned(),
        frontend_domain: "Example.TEST".to_owned(),
        backend_url: "https://backend.example/base".to_owned(),
        tls_cert_path: "cert.pem".to_owned(),
        tls_key_path: "key.pem".to_owned(),
        sqlite_path: "events.sqlite".to_owned(),
        ca_bundle_path: None,
        upstream_sni_override: None,
        http_mode: HttpMode::Auto,
        flush_rows: 1,
        flush_interval_ms: 1,
        max_inflight_events: 1,
        body_max_bytes: 32,
        connect_timeout_ms: 1,
        request_timeout_ms: 1,
        idle_pool_timeout_ms: 1,
        graceful_shutdown_timeout_ms: 1,
        trust_proxy_headers: false,
        emit_keylog: false,
        header_allowlist: vec!["X-Test".to_owned()],
        header_denylist: vec!["X-Drop".to_owned()],
    }
}

fn listen() -> Option<ListenAddr> {
    Some(ListenAddr {
        text: "127.0.0.1:8443".to_owned(),
        port: 8443,
    })
}

fn readable() -> FileChecks {
    FileChecks {
        cert_readable: true,
        key_readable: true,
        ca_bundle_readable: true,
        failed_directory: None,
    }
}

fn running(runtime: RuntimeSettingsFile) -> Result<RuntimeConfig, ConfigError> {
    AppConfigFile {
        runtime,
        transforms: Vec::new(),
    }
    .to_runtime_config(listen(), &readable())
}

#[test]
fn validates_https_backend_and_builds_backend_uri() {
    let config = running(test_runtime()).unwrap();

    assert_eq!(config.frontend_domain, "example.test");
    assert_eq!(config.backend_host, "backend.example");
    assert!(config.header_log_policy.allows("x-test"));
    assert!(!config.header_log_policy.allows("x-drop"));

    let uri = config.build_backend_uri("/hello", Some("a=1")).unwrap();
    assert_eq!(uri, "https://backend.example/base/hello?a=1");
}

#[test]
fn rejects_non_https_backend_urls() {
    let mut runtime = test_runtime();
    runtime.backend_url = "http://backend.example".to_owned();

    let result = running(runtime);

    assert!(result.is_err());
    if let Err(err) = result {
        assert!(err.message().contains("backend URL must use https"));
    }
}

#[test]
fn running_config_takes_over_the_settings() {
    let mut runtime = test_runtime();
    runtime.backend_url = "https://Backend.example:9443/base/?old=1#part".to_owned();
    runtime.upstream_sni_override = Some("SNI.example".to_owned());
    let config = running(runtime).unwrap();
    assert_eq!(config.backend_port, 9443);
    assert_eq!(config.backend_authority, "backend.example:9443");
    assert_eq!(config.backend_path_prefix, "/base/");
    assert_eq!(config.upstream_sni, "sni.example");
    assert_eq!(config.listen_addr.port, 8443);
    assert_eq!(
        config.build_backend_uri("hello", None).unwrap(),
        "https://backend.example:9443/base/hello"
    );
    assert_eq!(config.upstream_path("/"), "/base/");
}

#[test]
fn default_port_is_left_out_of_the_authority() {
    let config = running(test_runtime()).unwrap();
    assert_eq!(config.backend_port, 443);
    assert_eq!(config.backend_authority, "backend.example");
    assert_eq!(config.upstream_sni, "backend.example");
    assert_eq!(config.flush_rows, 1);
    assert_eq!(config.request_timeout_ms, 1);
}

#[test]
fn each_fault_of_the_settings_is_named() {
    let mut runtime = test_runtime();
    runtime.backend_url = "not a url".to_owned();
    assert!(matches!(running(runtime), Err(ConfigError::InvalidBackendUrl)));

    let mut runtime = test_runtime();
    runtime.frontend_domain = " . ".to_owned();
    assert!(matches!(running(runtime), Err(ConfigError::EmptyDomain)));

    let mut runtime = test_runtime();
    runtime.frontend_domain = "bad domain".to_owned();
    assert!(matches!(running(runtime), Err(ConfigError::InvalidDomain)));

    let mut runtime = test_runtime();
    runtime.flush_rows = 0;
    assert!(matches!(running(runtime), Err(ConfigError::NotPositive(label)) if label == "flush rows"));

    let app = AppConfigFile {
        runtime: test_runtime(),
        transforms: Vec::new(),
    };
    assert!(matches!(
        app.to_runtime_config(None, &readable()),
        Err(ConfigError::InvalidListenAddr)
    ));
    let mut checks = readable();
    checks.key_readable = false;
    assert!(matches!(
        app.to_runtime_config(listen(), &checks),
        Err(ConfigError::Unreadable { file: RequiredFile::TlsKey, path }) if path == "key.pem"
    ));
    let mut checks = readable();
    checks.failed_directory = Some("data".to_owned());
    assert!(matches!(
        app.to_runtime_config(listen(), &checks),
        Err(ConfigError::DirectoryNotCreated(path)) if path == "data"
    ));
    let app = AppConfigFile {
        runtime: test_runtime(),
        transforms: vec![TransformRuleFile {
            matcher: TransformMatcherFile::Everything {},
            action: TransformActionFile::Replace {
                from: String::new(),
                to: String::new(),
            },
            target: TransformTargetFile::Body {},
            stop: false,
        }],
    };
    let result = app.to_runtime_config(listen(), &readable());
    assert!(matches!(
        result,
        Err(ConfigError::Transform(TransformError::EmptyFrom))
    ));
}

#[test]
fn unreadable_ca_bundles_count_only_where_one_is_named() {
    let mut checks = readable();
    checks.ca_bundle_readable = false;
    let mut app = AppConfigFile {
        runtime: test_runtime(),
        transforms: Vec::new(),
    };
    assert!(app.to_runtime_config(listen(), &checks).is_ok());
    app.runtime.ca_bundle_path = Some("ca.pem".to_owned());
    let result = app.to_runtime_config(listen(), &checks);
    assert!(matches!(
        result,
        Err(ConfigError::Unreadable { file: RequiredFile::CaBundle, path }) if path == "ca.pem"
    ));
    checks.ca_bundle_readable = true;
    let config = app.to_runtime_config(listen(), &checks).unwrap();
    assert_eq!(config.ca_bundle_path, Some("ca.pem".to_owned()));
}

#[test]
fn domains_are_trimmed_and_lowered() {
    assert_eq!(normalize_domain(" Example.TEST. ").unwrap(), "example.test");
    assert!(matches!(normalize_domain("  "), Err(ConfigError::EmptyDomain)));
    assert!(matches!(normalize_domain("a b"), Err(ConfigError::InvalidDomain)));
    assert!(matches!(accept_domain(None), Err(ConfigError::InvalidDomain)));
    assert_eq!(accept_domain(Some("a.b".to_owned())).unwrap(), "a.b");
}

#[test]
fn domain_names_are_labels_between_dots() {
    let label = "a".repeat(63);
    let longest = format!("{label}.{label}.{label}.{}", "a".repeat(61));
    for name in ["localhost", "a-b.c", "1.2", ".example.com", ".-ab.com", &label, &longest] {
        assert_eq!(normalize_domain(name).unwrap(), name);
    }
    let long_label = format!("{label}a");
    let too_long = format!("{longest}a");
    for name in [
        "-a.com", "a-.com", "a..b", ".a.com", "..ab", ".a", "a_b", "ex\u{e4}mple", ".\u{e9}ab.com",
        &long_label, &too_long,
    ] {
        assert!(matches!(normalize_domain(name), Err(ConfigError::InvalidDomain)), "{name}");
    }
    assert!(matches!(normalize_domain(" . "), Err(ConfigError::EmptyDomain)));
}

#[test]
fn normalized_domains_stay_as_they_are() {
    for name in [" Example.TEST. ", "A-B.c..", ".Example.COM"] {
        let domain = normalize_domain(name).unwrap();
        assert!(!domain.is_empty());
        assert_eq!(normalize_domain(&domain).unwrap(), domain);
    }
}

#[test]
fn protocols_go_with_the_http_mode() {
    assert_eq!(ResolvedHttpMode::Auto.alpn_protocols(), vec!["h2", "http/1.1"]);
    assert_eq!(ResolvedHttpMode::Http1.alpn_protocols(), vec!["http/1.1"]);
    assert_eq!(ResolvedHttpMode::Http2.alpn_protocols(), vec!["h2"]);
}

#[test]
fn paths_are_compared_part_by_part() {
    let paths = [
        "", ".", "./", "/", "//", "/.", "a", "./a", "././a", "a/", "a//", "/a", "//a", "/./a", "a/b",
        "a//b", "a/./b", "a/b/.", "a/../b", "b", "..", "../", "a/.b", "a/b.", ".a", "certs/a.pem",
        "certs//a.pem",
    ];
    for a in paths {
        for b in paths {
            assert_eq!(same_path(a, b), Path::new(a) == Path::new(b), "{a:?} {b:?}");
        }
    }
}

#[test]
fn settings_with_the_same_paths_say_the_same() {
    let settings = RuntimeSettingsFile {
        tls_cert_path: "certs/a.pem".to_owned(),
        ca_bundle_path: Some("/etc/ca.pem".to_owned()),
        ..test_runtime()
    };
    let mut other = settings.copy();
    other.tls_cert_path = "certs//a.pem".to_owned();
    other.tls_key_path = "key.pem/".to_owned();
    other.sqlite_path = "events.sqlite/.".to_owned();
    other.ca_bundle_path = Some("/etc/./ca.pem".to_owned());
    assert!(settings.same_settings(&other));
    other.tls_cert_path = "./certs/a.pem".to_owned();
    assert!(!settings.same_settings(&other));
    let mut other = settings.copy();
    other.ca_bundle_path = None;
    assert!(!settings.same_settings(&other));
}

#[test]
fn long_urls_are_named_in_the_error() {
    assert_eq!(ConfigError::UpstreamUrlTooLong.message(), "upstream URL is too long");
}

#[test]
fn paths_are_rooted() {
    assert_eq!(normalize_request_path("hello"), "/hello");
    assert_eq!(normalize_request_path("/hello"), "/hello");
    assert_eq!(normalize_request_path(""), "/");
    let rooted = normalize_request_path("a/b");
    assert_eq!(normalize_request_path(&rooted), rooted);
    assert_eq!(normalize_backend_prefix(""), "/");
    assert_eq!(normalize_backend_prefix("/"), "/");
    assert_eq!(normalize_backend_prefix("/base/"), "/base/");
    assert_eq!(normalize_backend_prefix("base"), "/base");
}

#[test]
fn positive_values_are_demanded() {
    assert!(validate_positive("x", 1).is_ok());
    let error = validate_positive("x", 0).unwrap_err();
    assert!(error.message().contains('x'));
}

#[test]
fn uris_that_cannot_be_read_are_refused() {
    assert_eq!(accept_uri("u".to_owned(), Some("v".to_owned())).unwrap(), "v");
    assert!(matches!(
        accept_uri("u".to_owned(), None),
        Err(ConfigError::InvalidUpstreamUri(url)) if url == "u"
    ));
}

#[test]
fn long_paths_and_queries_make_no_uri() {
    let config = running(test_runtime()).unwrap();
    let long = "a".repeat(70_000);
    assert!(matches!(
        config.build_backend_uri(&long, None),
        Err(ConfigError::InvalidUpstreamUri(url))
            if url == format!("https://backend.example/base/{long}")
    ));
    assert!(matches!(
        config.build_backend_uri("/", Some(&long)),
        Err(ConfigError::InvalidUpstreamUri(url))
            if url == format!("https://backend.example/base/?{long}")
    ));
}

#[test]
fn queries_and_fragments_of_the_backend_are_dropped() {
    let runtime = RuntimeSettingsFile {
        backend_url: "https://backend.example/base?old=1#part".to_owned(),
        ..test_runtime()
    };
    let config = running(runtime).unwrap();
    assert_eq!(
        config.build_backend_uri("/a b?#", Some("x='y z'\t#")).unwrap(),
        "https://backend.example/base/a%20b%3F%23?x=%27y%20z%27%23"
    );
    assert_eq!(
        config.build_backend_uri("/a/../b", None).unwrap(),
        "https://backend.example/base/b"
    );
}

#[test]
fn header_policies_ignore_letter_case() {
    let list = vec![" X-One ".to_owned(), "".to_owned(), "x-two".to_owned(), "X-ONE".to_owned()];
    let shown = normalize_header_names(&list);
    assert_eq!(shown, vec!["x-one".to_owned(), "x-two".to_owned()]);
    let policy = HeaderLogPolicy::new(&list, &list);
    assert!(policy.allows("X-One"));
    assert!(policy.allows("x-TWO"));
    assert!(!policy.allows("x-three"));
    let policy = HeaderLogPolicy::new(&Vec::new(), &list);
    assert!(!policy.allows("X-One"));
    assert!(policy.allows("x-three"));
    assert!(HeaderLogPolicy::default().allows("anything"));
}

#[test]
fn http_modes_resolve_by_what_the_backend_speaks() {
    let mut config = running(test_runtime()).unwrap();
    assert_eq!(config.resolved_http_mode(Some(true)), ResolvedHttpMode::Auto);
    assert_eq!(config.resolved_http_mode(Some(false)), ResolvedHttpMode::Http1);
    assert_eq!(config.resolved_http_mode(None), ResolvedHttpMode::Auto);
    config.http_mode = HttpMode::Http1;
    assert_eq!(config.resolved_http_mode(Some(true)), ResolvedHttpMode::Http1);
    assert!(matches!(config.upstream_default_version(), HttpVersion::Http11));
    config.http_mode = HttpMode::Http2;
    assert_eq!(config.resolved_http_mode(None), ResolvedHttpMode::Http2);
    assert!(matches!(config.upstream_default_version(), HttpVersion::Http11));
}

#[test]
fn copies_say_the_same() {
    let app = AppConfigFile {
        runtime: test_runtime(),
        transforms: Vec::new(),
    };
    let mut other = app.copy();
    assert!(app.same_config(&other));
    assert!(other.same_config(&app));
    other.runtime.emit_keylog = true;
    assert!(!app.same_config(&other));
    assert!(!app.runtime.same_settings(&other.runtime));
}

#[test]
fn defaults_are_the_documented_ones() {
    let cli = Cli::default();
    assert_eq!(cli.config_path, "./kidproxy.json");
    assert_eq!(cli.admin_listen_addr, "127.0.0.1:3000");
    let settings = RuntimeSettingsFile::default();
    assert_eq!(settings.listen_addr, "127.0.0.1:8443");
    assert_eq!(settings.frontend_domain, "example.test");
    assert_eq!(settings.backend_url, "https://backend.example");
    assert_eq!(settings.tls_cert_path, "./certs/fullchain.pem");
    assert_eq!(settings.tls_key_path, "./certs/privkey.pem");
    assert_eq!(settings.sqlite_path, "./data/kidproxy.sqlite");
    assert_eq!(settings.http_mode, HttpMode::Auto);
    assert_eq!(settings.flush_rows, 5_000);
    assert_eq!(settings.flush_interval_ms, 2_000);
    assert_eq!(settings.max_inflight_events, 10_000);
    assert_eq!(settings.body_max_bytes, 65_536);
    assert_eq!(settings.connect_timeout_ms, 5_000);
    assert_eq!(settings.request_timeout_ms, 180_000);
    assert_eq!(settings.idle_pool_timeout_ms, 90_000);
    assert_eq!(settings.graceful_shutdown_timeout_ms, 10_000);
    assert!(settings.header_allowlist.is_empty());
}

#[test]
fn errors_and_results_have_names() {
    assert_eq!(ErrorKind::Timeout.as_str(), "timeout");
    assert_eq!(ErrorKind::SqliteWrite.as_str(), "sqlite_write");
    assert_eq!(ProxyResult::ClientRejected.as_str(), "client_rejected");
    assert_eq!(ProxyResult::Inflight.as_str(), "inflight");
    let info = ErrorInfo::new(ErrorKind::Dns, "no such host");
    assert_eq!(info.kind, ErrorKind::Dns);
    assert_eq!(info.text, "no such host");
}
