use arrow::array::{Array, BooleanArray, StringArray, TimestampMillisecondArray, UInt16Array};
use arrow::datatypes::{DataType, TimeUnit};
use kidproxy::error::{ErrorKind, ProxyResult};
use kidproxy::event::ProxyEvent;
use kidproxy::migration::{event_table_name, sql_row, CreateProxyEvents, SqlCell, SqlType};
use kidproxy::schema::{
    event_column_specs, event_row, events_fit, events_to_columns, events_to_record_batch,
    parquet_schema, timestamp_ms, CellValue, ColumnData, ColumnKind,
};

fn event(now: i128) -> ProxyEvent {
    ProxyEvent {
        event_id: "7b9f1a52-0d3c-4f64-8f8b-6a2d8b6f7f01".to_owned(),
        connection_id: "7b9f1a52-0d3c-4f64-8f8b-6a2d8b6f7f02".to_owned(),
        request_start_ts: now,
        request_end_ts: now,
        duration_ms: 1,
        client_ip: Some("127.0.0.1".to_owned()),
        client_port: Some(1234),
        proxy_local_ip: Some("127.0.0.1".to_owned()),
        proxy_local_port: Some(8443),
        frontend_server_name: Some("example.test".to_owned()),
        frontend_http_version: Some("HTTP/1.1".to_owned()),
        frontend_scheme: "https".to_owned(),
        backend_url: "https://backend.test".to_owned(),
        backend_host: "backend.test".to_owned(),
        backend_ip: Some("127.0.0.1".to_owned()),
        backend_port: Some(443),
        backend_http_version: Some("HTTP/1.1".to_owned()),
        upstream_connection_reused: Some(false),
        method: "GET".to_owned(),
        authority: Some("example.test".to_owned()),
        path: "/".to_owned(),
        query: None,
        request_headers_json: "{}".to_owned(),
        request_cookie_header: None,
        request_cookies_json: None,
        request_content_length: None,
        request_transfer_encoding: None,
        request_content_type: None,
        request_body_sha256: None,
        request_body_preview_base64: None,
        request_body_truncated: None,
        status_code: Some(200),
        reason_phrase: Some("OK".to_owned()),
        response_headers_json: Some("{}".to_owned()),
        response_set_cookie_json: None,
        response_content_length: Some(0),
        response_transfer_encoding: None,
        response_content_type: Some("text/plain".to_owned()),
        response_content_encoding: None,
        response_body_sha256: None,
        response_body_preview_base64: None,
        response_body_truncated: None,
        frontend_tls_version: Some("TLSv1.3".to_owned()),
        frontend_tls_cipher_suite: None,
        frontend_tls_alpn: Some("http/1.1".to_owned()),
        frontend_tls_sni: Some("example.test".to_owned()),
        frontend_tls_ja3: None,
        frontend_tls_ja4: None,
        backend_tls_version: Some("TLSv1.3".to_owned()),
        backend_tls_cipher_suite: None,
        backend_tls_alpn: Some("http/1.1".to_owned()),
        backend_tls_sni: Some("backend.test".to_owned()),
        backend_cert_leaf_sha256: None,
        backend_cert_subject: None,
        backend_cert_issuer: None,
        backend_cert_not_before: Some(now),
        backend_cert_not_after: Some(now),
        dns_duration_ms: None,
        connect_duration_ms: None,
        tls_handshake_duration_ms: None,
        upstream_first_byte_ms: Some(1),
        response_stream_duration_ms: Some(1),
        error_kind: None,
        error_text: None,
        proxy_result: ProxyResult::Success,
    }
}

#[test]
fn builds_record_batch_with_expected_schema() {
    let now = time::OffsetDateTime::now_utc().unix_timestamp_nanos();
    let batch = events_to_record_batch(&[event(now)]).unwrap().inner;

    assert_eq!(batch.num_rows(), 1);
    assert_eq!(
        batch
            .schema()
            .field_with_name("request_start_ts")
            .unwrap()
            .data_type(),
        &DataType::Timestamp(TimeUnit::Millisecond, Some("UTC".into()))
    );
    assert!(batch.column_by_name("proxy_result").is_some());
}

#[test]
fn batches_hold_each_event_in_its_row() {
    let mut second = event(2_000_000_000);
    second.status_code = None;
    second.upstream_connection_reused = None;
    second.error_kind = Some(ErrorKind::Connect);
    second.proxy_result = ProxyResult::UpstreamError;
    let events = [event(1_500_000_000), second];
    assert!(events_fit(&events));
    let batch = events_to_record_batch(&events).unwrap().inner;
    assert_eq!(batch.num_rows(), 2);
    assert_eq!(batch.num_columns(), 65);

    let start = batch.column_by_name("request_start_ts").unwrap();
    let start = start
        .as_any()
        .downcast_ref::<TimestampMillisecondArray>()
        .unwrap();
    assert_eq!(start.value(0), 1_500);
    assert_eq!(start.value(1), 2_000);
    let status = batch.column_by_name("status_code").unwrap();
    let status = status.as_any().downcast_ref::<UInt16Array>().unwrap();
    assert_eq!(status.value(0), 200);
    assert!(status.is_null(1));
    let reused = batch.column_by_name("upstream_connection_reused").unwrap();
    let reused = reused.as_any().downcast_ref::<BooleanArray>().unwrap();
    assert!(!reused.value(0));
    assert!(reused.is_null(1));
    let result = batch.column_by_name("proxy_result").unwrap();
    let result = result.as_any().downcast_ref::<StringArray>().unwrap();
    assert_eq!(result.value(0), "success");
    assert_eq!(result.value(1), "upstream_error");
    let kind = batch.column_by_name("error_kind").unwrap();
    let kind = kind.as_any().downcast_ref::<StringArray>().unwrap();
    assert!(kind.is_null(0));
    assert_eq!(kind.value(1), "connect");
}

#[test]
fn no_events_make_an_empty_batch() {
    let batch = events_to_record_batch(&[]).unwrap().inner;
    assert_eq!(batch.num_rows(), 0);
    assert_eq!(batch.num_columns(), 65);
}

#[test]
fn schema_lists_the_columns_in_order() {
    let schema = parquet_schema();
    let columns = event_column_specs();
    assert_eq!(schema.fields().len(), columns.len());
    for (field, column) in schema.fields().iter().zip(columns.iter()) {
        assert_eq!(field.name(), &column.name);
        assert_eq!(field.is_nullable(), column.nullable);
    }
    assert_eq!(columns[0].name, "event_id");
    assert_eq!(columns[0].kind, ColumnKind::Text);
    assert!(!columns[0].nullable);
    assert_eq!(columns[64].name, "proxy_result");
}

#[test]
fn rows_have_a_cell_of_each_column() {
    let row = event_row(&event(7_000_000));
    assert_eq!(row.len(), event_column_specs().len());
    assert!(matches!(row[2], CellValue::Millis(Some(7))));
    let columns = events_to_columns(&[event(7_000_000), event(9_000_000)]);
    assert_eq!(columns.len(), row.len());
    assert!(matches!(&columns[2], ColumnData::Millis(cells) if *cells == vec![Some(7), Some(9)]));
}

#[test]
fn timestamps_are_cut_to_milliseconds() {
    assert_eq!(timestamp_ms(1_999_999), 1);
    assert_eq!(timestamp_ms(-1_999_999), -1);
    assert_eq!(timestamp_ms(0), 0);
    assert_eq!(timestamp_ms(1_704_067_200_000_000_000), 1_704_067_200_000);
}

#[test]
fn database_has_the_columns_of_the_files() {
    assert_eq!(event_table_name(), "proxy_events");
    let table = CreateProxyEvents::up();
    assert_eq!(table.name, "proxy_events");
    assert!(table.if_not_exists);
    let columns = table.columns;
    let specs = event_column_specs();
    assert_eq!(columns.len(), specs.len());
    for (column, spec) in columns.iter().zip(specs.iter()) {
        assert_eq!(column.name, spec.name);
        assert_eq!(column.nullable, spec.nullable);
        assert_eq!(column.primary_key, spec.name == "event_id");
    }
    assert_eq!(columns[0].sql_type, SqlType::Varchar);
}

#[test]
fn database_rows_hold_times_as_texts() {
    let mut event = event(1_704_067_200_000_000_001);
    event.backend_cert_not_before = Some(0);
    event.backend_cert_not_after = Some(253_402_300_799_000_000_000);
    let row = sql_row(&event).unwrap();
    assert_eq!(row.len(), event_column_specs().len());
    let text = |text: &str| SqlCell::Text(Some(text.to_owned()));
    assert_eq!(row[0], text("7b9f1a52-0d3c-4f64-8f8b-6a2d8b6f7f01"));
    assert_eq!(row[2], text("2024-01-01T00:00:00.000000001Z"));
    assert_eq!(row[3], text("2024-01-01T00:00:00.000000001Z"));
    assert_eq!(row[4], SqlCell::BigInteger(Some(1)));
    assert_eq!(row[6], SqlCell::Integer(Some(1234)));
    assert_eq!(row[55], text("1970-01-01T00:00:00Z"));
    assert_eq!(row[56], text("9999-12-31T23:59:59Z"));
    event.backend_cert_not_before = None;
    assert_eq!(sql_row(&event).unwrap()[55], SqlCell::Text(None));
    event.backend_cert_not_after = Some(i128::MAX);
    assert_eq!(sql_row(&event), None);
}
