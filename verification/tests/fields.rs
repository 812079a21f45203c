use kidproxy::capture::{header_value, strip_hop_by_hop_headers};
use kidproxy::config::HeaderLogPolicy;
use kidproxy::fields::{
    forwarded_client_ip, forwarded_proto, parse_content_length, parse_cookies,
    parse_set_cookie_value, parse_set_cookies, serialize_headers, stringify_header_value,
};
use kidproxy::headers::{header_text, text_of_value, valid_value};
use kidproxy::json::{JsonField, JsonLeaf};
use rama::http::header;
use rama::http::{HeaderMap, HeaderName, HeaderValue};

fn value(text: &'static str) -> HeaderValue {
    HeaderValue::from_static(text)
}

fn names(texts: &[&str]) -> Vec<String> {
    texts.iter().map(|text| text.to_string()).collect()
}

#[test]
fn strips_hop_by_hop_headers_and_connection_tokens() {
    let mut headers = HeaderMap::new();
    headers.insert(
        header::CONNECTION,
        HeaderValue::from_static("x-remove, keep-alive"),
    );
    headers.insert(
        HeaderName::from_static("x-remove"),
        HeaderValue::from_static("1"),
    );
    headers.insert(
        header::KEEP_ALIVE.clone(),
        HeaderValue::from_static("timeout=5"),
    );
    headers.insert(header::CONTENT_TYPE, HeaderValue::from_static("text/plain"));

    strip_hop_by_hop_headers(&mut headers);

    assert!(!headers.contains_key(header::CONNECTION));
    assert!(!headers.contains_key("x-remove"));
    assert!(!headers.contains_key(header::KEEP_ALIVE.clone()));
    assert_eq!(
        headers
            .get(header::CONTENT_TYPE)
            .and_then(|value| value.to_str().ok()),
        Some("text/plain")
    );
}

#[test]
fn stripping_twice_changes_nothing_more() {
    let mut headers = HeaderMap::new();
    headers.append("connection", value("Close, X-One"));
    headers.append("connection", value(" x-two ,"));
    headers.append("x-one", value("1"));
    headers.append("x-two", value("2"));
    headers.append("trailer", value("x-sum"));
    headers.append("proxy-authenticate", value("Basic"));
    headers.append("proxy-authorization", value("Basic"));
    headers.append("te", value("trailers"));
    headers.append("upgrade", value("h2c"));
    headers.append("transfer-encoding", value("chunked"));
    headers.append("x-kept", value("a"));
    headers.append("x-kept", value("b"));

    strip_hop_by_hop_headers(&mut headers);
    let once = headers.clone();
    strip_hop_by_hop_headers(&mut headers);

    assert_eq!(headers, once);
    let kept: Vec<&HeaderValue> = headers.get_all("x-kept").iter().collect();
    assert_eq!(kept, vec!["a", "b"]);
    assert!(headers.contains_key("x-two"));
    assert_eq!(headers.len(), 3);
}

#[test]
fn header_text_is_the_first_value() {
    let mut headers = HeaderMap::new();
    headers.append("x-test", value("first"));
    headers.append("x-test", value("second"));
    headers.append("x-odd", HeaderValue::from_bytes(b"caf\xe9").unwrap());

    assert_eq!(header_value(&headers, "X-Test"), Some("first".to_owned()));
    assert_eq!(header_value(&headers, "x-odd"), Some("0x636166e9".to_owned()));
    assert_eq!(header_value(&headers, "x-none"), None);
    assert_eq!(header_text(&headers, "x-test"), Some("first".to_owned()));
    assert_eq!(header_text(&headers, "x-odd"), None);
    assert_eq!(stringify_header_value(b"caf\xc3\xa9"), "0x636166c3a9".to_owned());
    assert_eq!(stringify_header_value(b"cafe"), "cafe".to_owned());
    assert_eq!(text_of_value(b"a\tb"), Some("a\tb".to_owned()));
    assert_eq!(text_of_value(b"a\x01b"), None);
    let kept = text_of_value(b"GET /a?b=1 ~").unwrap();
    assert_eq!(kept.as_bytes(), b"GET /a?b=1 ~");
    assert!(valid_value(b"caf\xe9\t"));
    assert!(!valid_value(b"a\nb"));
    assert!(!valid_value(b"\x7f"));
}

#[test]
fn logged_headers_follow_the_policy() {
    let mut headers = HeaderMap::new();
    headers.append("accept", value("text/html"));
    headers.append("accept", value("text/plain"));
    headers.append("authorization", value("secret"));

    let all = HeaderLogPolicy::default();
    assert_eq!(
        serialize_headers(&headers, &all),
        "{\"accept\":[\"text/html\",\"text/plain\"],\"authorization\":[\"secret\"]}"
    );
    let denied = HeaderLogPolicy::new(&names(&[]), &names(&["Authorization"]));
    assert_eq!(
        serialize_headers(&headers, &denied),
        "{\"accept\":[\"text/html\",\"text/plain\"]}"
    );
    let only = HeaderLogPolicy::new(&names(&["authorization"]), &names(&["authorization"]));
    assert_eq!(serialize_headers(&headers, &only), "{\"authorization\":[\"secret\"]}");
    let none = HeaderLogPolicy::new(&names(&["x-other"]), &names(&[]));
    assert_eq!(serialize_headers(&headers, &none), "{}");
}

#[test]
fn cookies_are_split_into_pairs() {
    assert_eq!(parse_cookies(&None), None);
    assert_eq!(
        parse_cookies(&Some(b"a=1; b = two words ;flag; a=3".to_vec())),
        Some("{\"a\":\"3\",\"b\":\"two words\"}".to_owned())
    );
    assert_eq!(parse_cookies(&Some(b"nothing".to_vec())), Some("{}".to_owned()));
    assert_eq!(parse_cookies(&Some(b"a=\xe9".to_vec())), None);
}

#[test]
fn set_cookie_values_keep_their_attributes() {
    let object = parse_set_cookie_value("id=7; Path=/; HttpOnly");
    let keys: Vec<&str> = object.iter().map(|pair| pair.0.as_str()).collect();
    assert_eq!(keys, vec!["name", "value", "attributes", "raw"]);
    match &object[2].1 {
        JsonField::Object(pairs) => {
            assert_eq!(pairs.len(), 2);
            assert_eq!(pairs[0].0, "path");
            assert!(matches!(&pairs[0].1, JsonLeaf::Text(text) if text == "/"));
            assert_eq!(pairs[1].0, "httponly");
            assert!(matches!(pairs[1].1, JsonLeaf::Flag(true)));
        }
        other => panic!("unexpected attributes {other:?}"),
    }
    assert!(matches!(&object[0].1, JsonField::Text(text) if text == "id"));
    assert!(matches!(&object[1].1, JsonField::Text(text) if text == "7"));

    let mut headers = HeaderMap::new();
    assert_eq!(parse_set_cookies(&headers), None);
    headers.append("set-cookie", value("id=7; Path=/; HttpOnly"));
    headers.append("set-cookie", value("b=2"));
    assert_eq!(
        parse_set_cookies(&headers),
        Some(
            "[{\"attributes\":{\"httponly\":true,\"path\":\"/\"},\"name\":\"id\",\
             \"raw\":\"id=7; Path=/; HttpOnly\",\"value\":\"7\"},\
             {\"attributes\":{},\"name\":\"b\",\"raw\":\"b=2\",\"value\":\"2\"}]"
                .to_owned()
        )
    );
    headers.remove("set-cookie");
    headers.append("set-cookie", HeaderValue::from_bytes(b"a=\xe9").unwrap());
    assert_eq!(parse_set_cookies(&headers), None);
}

#[test]
fn content_length_is_a_number_or_missing() {
    let mut headers = HeaderMap::new();
    assert_eq!(parse_content_length(&headers), None);
    headers.insert("content-length", value("42"));
    assert_eq!(parse_content_length(&headers), Some(42));
    headers.insert("content-length", value("forty-two"));
    assert_eq!(parse_content_length(&headers), None);
}

#[test]
fn forwarded_headers_name_the_client() {
    let mut headers = HeaderMap::new();
    assert_eq!(forwarded_client_ip(&headers), None);
    assert_eq!(forwarded_proto(&headers), None);
    headers.insert("x-forwarded-for", value(" 203.0.113.9 , 10.0.0.1"));
    headers.insert("x-forwarded-proto", value("http"));
    assert_eq!(forwarded_client_ip(&headers), Some("203.0.113.9".to_owned()));
    assert_eq!(forwarded_proto(&headers), Some("http".to_owned()));
    headers.insert("forwarded", value("by=x; for=\"[2001:db8::1]\" ;proto=\"https\""));
    assert_eq!(forwarded_client_ip(&headers), Some("2001:db8::1".to_owned()));
    assert_eq!(forwarded_proto(&headers), Some("https".to_owned()));
}
