use kidproxy::transform::{
    normalized_content_type, request_url, PrebufferDisposition, TransformActionFile,
    TransformConfig, TransformError, TransformMatcherFile, TransformRule, TransformRuleFile,
    TransformTargetFile,
};
use rama::http::header;
use rama::http::{HeaderMap, HeaderValue};

fn rule_file(
    matcher: TransformMatcherFile,
    from: &str,
    to: &str,
    target: TransformTargetFile,
    stop: bool,
) -> TransformRuleFile {
    TransformRuleFile {
        matcher,
        action: TransformActionFile::Replace {
            from: from.to_owned(),
            to: to.to_owned(),
        },
        target,
        stop,
    }
}

fn everywhere() -> TransformMatcherFile {
    TransformMatcherFile::Everything {}
}

fn rule(from: &str, to: &str, target: TransformTargetFile, stop: bool) -> TransformRule {
    TransformRule::try_from(rule_file(everywhere(), from, to, target, stop)).unwrap()
}

fn text<'a>(headers: &'a HeaderMap, name: &str) -> Option<&'a str> {
    headers.get(name).and_then(|value| value.to_str().ok())
}

#[test]
fn parses_valid_transform_config() {
    let rules = vec![
        rule_file(
            TransformMatcherFile::UrlGlob {
                pattern: "/hello*".to_owned(),
            },
            "hello",
            "hi",
            TransformTargetFile::Body {},
            true,
        ),
        rule_file(
            TransformMatcherFile::ContentTypeGlob {
                pattern: "text/*".to_owned(),
            },
            "backend",
            "proxy",
            TransformTargetFile::AllHeaders {},
            false,
        ),
    ];
    let runtime = TransformConfig {
        transforms: rules
            .into_iter()
            .map(TransformRule::try_from)
            .collect::<Result<Vec<_>, TransformError>>()
            .unwrap(),
    };

    assert_eq!(runtime.transforms.len(), 2);
}

#[test]
fn rejects_empty_replace_from() {
    let file = rule_file(everywhere(), "", "b", TransformTargetFile::Body {}, false);
    let result = TransformRule::try_from(file);
    assert!(result.is_err());
    assert!(matches!(result, Err(TransformError::EmptyFrom)));
}

#[test]
fn matches_url_glob_against_path_and_query() {
    let config = TransformConfig {
        transforms: vec![TransformRule::try_from(rule_file(
            TransformMatcherFile::UrlGlob {
                pattern: "/hello?name=*".to_owned(),
            },
            "hello",
            "hi",
            TransformTargetFile::Body {},
            false,
        ))
        .unwrap()],
    };
    let headers = HeaderMap::new();

    assert!(config.transforms[0].matches("/hello?name=test", &headers));
    assert!(!config.transforms[0].matches("/goodbye", &headers));
}

#[test]
fn matches_content_type_without_parameters() {
    let rule = TransformRule::try_from(rule_file(
        TransformMatcherFile::ContentTypeGlob {
            pattern: "text/*".to_owned(),
        },
        "a",
        "b",
        TransformTargetFile::AllHeaders {},
        false,
    ))
    .unwrap();
    let mut headers = HeaderMap::new();
    assert!(!rule.matches("/hello", &headers));
    headers.insert(
        header::CONTENT_TYPE,
        HeaderValue::from_static("text/html; charset=utf-8"),
    );

    assert!(rule.matches("/hello", &headers));
}

#[test]
fn everything_matcher_always_matches() {
    let rule = rule("a", "b", TransformTargetFile::Body {}, false);

    assert!(rule.matches("/anything", &HeaderMap::new()));
}

#[test]
fn rewrites_all_headers() {
    let rule = rule("backend", "proxy", TransformTargetFile::AllHeaders {}, false);
    let mut headers = HeaderMap::new();
    headers.insert("x-test", HeaderValue::from_static("backend header"));

    assert!(rule.apply_headers(&mut headers).unwrap());
    assert_eq!(text(&headers, "x-test"), Some("proxy header"));
}

#[test]
fn rewrites_specific_header() {
    let target = TransformTargetFile::Header {
        name: "x-test".to_owned(),
    };
    let rule = rule("backend", "proxy", target, false);
    let mut headers = HeaderMap::new();
    headers.insert("x-test", HeaderValue::from_static("backend header"));
    headers.insert("x-other", HeaderValue::from_static("backend header"));

    assert!(rule.apply_headers(&mut headers).unwrap());
    assert_eq!(text(&headers, "x-test"), Some("proxy header"));
    assert_eq!(text(&headers, "x-other"), Some("backend header"));
}

#[test]
fn rewrites_cookies() {
    let rule = rule("backend", "proxy", TransformTargetFile::Cookies {}, false);
    let mut headers = HeaderMap::new();
    headers.append(
        header::SET_COOKIE,
        HeaderValue::from_static("session=backend-token; Path=/"),
    );

    assert!(rule.apply_headers(&mut headers).unwrap());
    assert_eq!(
        headers
            .get(header::SET_COOKIE)
            .and_then(|value| value.to_str().ok()),
        Some("session=proxy-token; Path=/")
    );
}

#[test]
fn rewrites_body() {
    let rule = rule("backend", "proxy", TransformTargetFile::Body {}, false);
    let mut body = b"hello backend".to_vec();

    let outcome = rule.apply(&mut HeaderMap::new(), &mut body).unwrap();
    assert!(outcome.triggered);
    assert_eq!(body, b"hello proxy");
}

#[test]
fn stops_processing_after_triggered_stop_rule() {
    let config = TransformConfig {
        transforms: vec![
            rule("backend", "proxy", TransformTargetFile::AllHeaders {}, true),
            rule("proxy", "final", TransformTargetFile::AllHeaders {}, false),
        ],
    };
    let mut headers = HeaderMap::new();
    headers.insert("x-test", HeaderValue::from_static("backend header"));

    let outcome = config.apply_until_body("/hello", &mut headers).unwrap();
    assert_eq!(outcome.disposition, PrebufferDisposition::Stream);
    assert_eq!(text(&headers, "x-test"), Some("proxy header"));
}

#[test]
fn an_untriggered_stop_rule_lets_later_rules_run() {
    let config = TransformConfig {
        transforms: vec![
            rule("absent", "x", TransformTargetFile::AllHeaders {}, true),
            rule("backend", "proxy", TransformTargetFile::AllHeaders {}, false),
        ],
    };
    let mut headers = HeaderMap::new();
    headers.insert("x-test", HeaderValue::from_static("backend header"));

    let outcome = config.apply_until_body("/hello", &mut headers).unwrap();
    assert!(outcome.headers_changed);
    assert_eq!(text(&headers, "x-test"), Some("proxy header"));
}

#[test]
fn compiling_names_what_is_wrong() {
    let bad_url = TransformMatcherFile::UrlGlob {
        pattern: "/a***".to_owned(),
    };
    let result = TransformRule::compile(&rule_file(
        bad_url,
        "a",
        "b",
        TransformTargetFile::Body {},
        false,
    ));
    assert!(matches!(result, Err(TransformError::InvalidUrlGlob(pattern)) if pattern == "/a***"));

    let bad_type = TransformMatcherFile::ContentTypeGlob {
        pattern: "text/[".to_owned(),
    };
    let result = TransformRule::compile(&rule_file(
        bad_type,
        "a",
        "b",
        TransformTargetFile::Body {},
        false,
    ));
    assert!(matches!(result, Err(TransformError::InvalidContentTypeGlob(_))));

    for name in ["", "  "] {
        let target = TransformTargetFile::Header {
            name: name.to_owned(),
        };
        let result = TransformRule::compile(&rule_file(everywhere(), "a", "b", target, false));
        assert!(matches!(result, Err(TransformError::MissingHeaderName)));
    }
    let target = TransformTargetFile::Header {
        name: "x test".to_owned(),
    };
    let result = TransformRule::compile(&rule_file(everywhere(), "a", "b", target, false));
    assert!(matches!(result, Err(TransformError::InvalidHeaderName(_))));
    assert!(!result.unwrap_err().message().is_empty());
}

#[test]
fn a_list_of_rules_compiles_in_order() {
    let good = rule_file(everywhere(), "a", "b", TransformTargetFile::Body {}, false);
    let bad = rule_file(everywhere(), "", "b", TransformTargetFile::Body {}, false);
    let config = TransformConfig::compile(&[good.copy(), good.copy()]).unwrap();
    assert_eq!(config.transforms.len(), 2);
    assert!(matches!(
        TransformConfig::compile(&[good.copy(), bad.copy()]),
        Err(TransformError::EmptyFrom)
    ));
    assert!(good.same_rule(&good.copy()));
    assert!(!good.same_rule(&bad));
    assert_eq!(TransformConfig::default().transforms.len(), 0);
}

#[test]
fn failing_header_rewrites_are_reported() {
    let rule = rule("backend", "two\nlines", TransformTargetFile::AllHeaders {}, false);
    let mut headers = HeaderMap::new();
    headers.insert("x-test", HeaderValue::from_static("backend header"));
    assert!(matches!(
        rule.apply_headers(&mut headers),
        Err(TransformError::RewrittenHeaderInvalid(name)) if name == "x-test"
    ));
    let mut headers = HeaderMap::new();
    headers.insert("x-odd", HeaderValue::from_bytes(b"caf\xe9").unwrap());
    assert!(matches!(
        rule.apply_headers(&mut headers),
        Err(TransformError::HeaderNotText(name)) if name == "x-odd"
    ));
}

#[test]
fn header_rewrites_keep_every_name_and_its_values() {
    let rule = rule("b", "bb", TransformTargetFile::AllHeaders {}, false);
    let mut headers = HeaderMap::new();
    headers.append("x-a", HeaderValue::from_static("b1"));
    headers.append("x-a", HeaderValue::from_static("c"));
    headers.append("x-a", HeaderValue::from_static("bb"));
    headers.append("x-b", HeaderValue::from_static("plain b"));

    assert!(rule.apply_headers(&mut headers).unwrap());
    let values: Vec<&HeaderValue> = headers.get_all("x-a").iter().collect();
    assert_eq!(values, vec!["bb1", "c", "bbbb"]);
    assert_eq!(text(&headers, "x-b"), Some("plain bb"));
    assert_eq!(headers.len(), 4);
}

#[test]
fn body_rules_wait_for_the_body() {
    let config = TransformConfig {
        transforms: vec![
            rule("backend", "proxy", TransformTargetFile::AllHeaders {}, false),
            rule("backend", "proxy", TransformTargetFile::Everything {}, false),
            rule("proxy", "final", TransformTargetFile::AllHeaders {}, false),
        ],
    };
    let mut headers = HeaderMap::new();
    headers.insert("x-test", HeaderValue::from_static("backend header"));
    let outcome = config.apply_until_body("/headers", &mut headers).unwrap();
    assert_eq!(outcome.disposition, PrebufferDisposition::BufferFrom(1));
    assert!(outcome.headers_changed);
    assert_eq!(text(&headers, "x-test"), Some("proxy header"));

    let mut body = b"backend header body".to_vec();
    let outcome = config
        .apply_with_body(1, "/headers", &mut headers, &mut body)
        .unwrap();
    assert!(outcome.body_changed);
    assert!(outcome.headers_changed);
    assert_eq!(body, b"proxy header body");
    assert_eq!(text(&headers, "x-test"), Some("final header"));
}

#[test]
fn bodies_that_are_not_text_are_read_leniently() {
    let rule = rule("b", "c", TransformTargetFile::Body {}, false);
    let mut untouched = b"a\xff".to_vec();
    assert!(!rule.apply_body(&mut untouched));
    assert_eq!(untouched, b"a\xff");
    assert_eq!(rule.rewritten_body("abc"), Some(b"acc".to_vec()));
    assert_eq!(rule.rewritten_body("xyz"), None);
    assert!(rule.requires_body());
    assert!(!rule.selects_header("x-test"));
    assert_eq!(rule.replace_text("bb"), "cc");
}

#[test]
fn request_urls_join_path_and_query() {
    assert_eq!(request_url("/a", None), "/a");
    assert_eq!(request_url("/a", Some("b=1")), "/a?b=1");
    let mut headers = HeaderMap::new();
    assert_eq!(normalized_content_type(&headers), None);
    headers.insert("content-type", HeaderValue::from_static(" Text/HTML ; q=1"));
    assert_eq!(normalized_content_type(&headers), Some("text/html".to_owned()));
    headers.insert("content-type", HeaderValue::from_static("; q=1"));
    assert_eq!(normalized_content_type(&headers), None);
}
