use kidproxy::error::ProxyResult;
use kidproxy::event::ProxyEvent;
use kidproxy::writer::{OutputTime, ParquetWriterHandle, WriterMessage, WriterState, WriterStep};
use std::path::Path;

fn event(now: i128) -> ProxyEvent {
    ProxyEvent {
        event_id: "7b9f1a52-0d3c-4f64-8f8b-6a2d8b6f7f01".to_owned(),
        connection_id: "7b9f1a52-0d3c-4f64-8f8b-6a2d8b6f7f02".to_owned(),
        request_start_ts: now,
        request_end_ts: now,
        duration_ms: 1,
        client_ip: Some("127.0.0.1".to_owned()),
        client_port: Some(1234),
        proxy_local_ip: Some("127.0.0.1".to_owned()),
        proxy_local_port: Some(8443),
        frontend_server_name: Some("example.test".to_owned()),
        frontend_http_version: Some("HTTP/1.1".to_owned()),
        frontend_scheme: "https".to_owned(),
        backend_url: "https://backend.test".to_owned(),
        backend_host: "backend.test".to_owned(),
        backend_ip: Some("127.0.0.1".to_owned()),
        backend_port: Some(443),
        backend_http_version: Some("HTTP/1.1".to_owned()),
        upstream_connection_reused: Some(false),
        method: "GET".to_owned(),
        authority: Some("example.test".to_owned()),
        path: "/".to_owned(),
        query: None,
        request_headers_json: "{}".to_owned(),
        request_cookie_header: None,
        request_cookies_json: None,
        request_content_length: None,
        request_transfer_encoding: None,
        request_content_type: None,
        request_body_sha256: None,
        request_body_preview_base64: None,
        request_body_truncated: None,
        status_code: Some(200),
        reason_phrase: Some("OK".to_owned()),
        response_headers_json: Some("{}".to_owned()),
        response_set_cookie_json: None,
        response_content_length: Some(0),
        response_transfer_encoding: None,
        response_content_type: Some("text/plain".to_owned()),
        response_content_encoding: None,
        response_body_sha256: None,
        response_body_preview_base64: None,
        response_body_truncated: None,
        frontend_tls_version: Some("TLSv1.3".to_owned()),
        frontend_tls_cipher_suite: None,
        frontend_tls_alpn: Some("http/1.1".to_owned()),
        frontend_tls_sni: Some("example.test".to_owned()),
        frontend_tls_ja3: None,
        frontend_tls_ja4: None,
        backend_tls_version: Some("TLSv1.3".to_owned()),
        backend_tls_cipher_suite: None,
        backend_tls_alpn: Some("http/1.1".to_owned()),
        backend_tls_sni: Some("backend.test".to_owned()),
        backend_cert_leaf_sha256: None,
        backend_cert_subject: None,
        backend_cert_issuer: None,
        backend_cert_not_before: Some(now),
        backend_cert_not_after: Some(now),
        dns_duration_ms: None,
        connect_duration_ms: None,
        tls_handshake_duration_ms: None,
        upstream_first_byte_ms: Some(1),
        response_stream_duration_ms: Some(1),
        error_kind: None,
        error_text: None,
        proxy_result: ProxyResult::Success,
    }
}

#[test]
fn partitions_output_paths_by_hour() {
    let dir = "/tmp/data/parquet";
    let state = WriterState::new(dir, 1);
    let path = state.next_output_path(4711);
    let path = Path::new(&path);
    let parent = path.parent().unwrap();

    assert_eq!(
        path.extension().and_then(|value| value.to_str()),
        Some("parquet")
    );
    assert!(parent.starts_with(dir));
    assert_eq!(parent.components().count(), Path::new(dir).components().count() + 4);
}

#[test]
fn output_paths_show_the_time_the_process_and_the_batch() {
    let mut state = WriterState::new("out/", 1);
    state.sequence = 3;
    let at = OutputTime {
        year: 987,
        month: 1,
        day: 31,
        hour: 5,
        unix_seconds: -17,
    };
    assert_eq!(state.output_dir_at(at), "out/0987/01/31/05");
    assert_eq!(
        state.output_path_at(at, 42),
        "out/0987/01/31/05/-17-42-3.parquet"
    );
    let at = OutputTime {
        year: 2024,
        month: 12,
        day: 9,
        hour: 23,
        unix_seconds: 1_733_785_200,
    };
    let state = WriterState::new("out", 1);
    assert_eq!(
        state.output_path_at(at, 42),
        "out/2024/12/09/23/1733785200-42-0.parquet"
    );
}

#[test]
fn batches_are_written_when_there_are_enough_events() {
    let mut state = WriterState::new("out", 2);
    let waiting = WriterStep {
        drain: false,
        flush: false,
        stop: false,
    };
    assert_eq!(state.run(WriterMessage::Event(event(1))), waiting);
    let step = state.run(WriterMessage::Event(event(2)));
    assert!(step.flush);
    assert!(!step.stop);
    assert!(state.run(WriterMessage::Tick).flush);
    assert!(state.run(WriterMessage::Closed).stop);
    let step = state.run(WriterMessage::Shutdown);
    assert!(step.drain && step.flush && step.stop);
    assert!(!state.drain_pending_events(WriterMessage::Event(event(3))));
    assert!(state.drain_pending_events(WriterMessage::Shutdown));
    assert!(!state.drain_pending_events(WriterMessage::Tick));
    let starts: Vec<i128> = state.buffer.iter().map(|event| event.request_start_ts).collect();
    assert_eq!(starts, vec![1, 2, 3]);
}

#[test]
fn failed_batches_stay_and_are_counted() {
    let mut state = WriterState::new("out", 1);
    let mut handle = ParquetWriterHandle::new();
    assert!(!state.has_rows());
    state.try_flush(&mut handle, false);
    assert_eq!(handle.write_failures(), 0);
    assert_eq!(state.sequence, 0);

    state.run(WriterMessage::Event(event(1)));
    assert!(state.has_rows());
    state.try_flush(&mut handle, false);
    assert_eq!(handle.write_failures(), 1);
    assert_eq!(state.buffer.len(), 1);
    state.try_flush(&mut handle, true);
    assert_eq!(state.sequence, 1);
    assert_eq!(state.buffer.len(), 0);
    assert_eq!(handle.write_failures(), 1);
}

#[test]
fn events_that_find_the_queue_full_are_counted() {
    let mut handle = ParquetWriterHandle::new();
    handle.try_send(true);
    assert_eq!(handle.dropped_events(), 0);
    handle.try_send(false);
    handle.try_send(false);
    assert_eq!(handle.dropped_events(), 2);
    handle.note_failure();
    assert_eq!(handle.write_failures(), 1);
}
