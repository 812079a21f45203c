//! Events as rows of a table: the columns that the event files have, and the cells of each event.
use crate::clock::whole_ms;
use crate::event::ProxyEvent;
use crate::text::{copy_text, opt_text};
use arrow::array::{
    ArrayRef, BooleanArray, Int64Array, StringArray, TimestampMillisecondArray, UInt16Array,
};
use arrow::datatypes::{DataType, Field, Schema, TimeUnit};
use arrow::record_batch::RecordBatch;
use std::sync::Arc;
use vstd::prelude::*;

verus! {

/// What the cells of a column hold: texts, points in time in milliseconds since 1970 (UTC),
/// integers or flags.
#[derive(Debug, Clone, Copy, PartialEq, Eq, Structural)]
pub enum ColumnKind {
    Text,
    Millis,
    Int64,
    UInt16,
    Boolean,
}

/// A column: its name, what its cells hold, and whether they may be empty.
#[derive(Debug, Clone)]
pub struct ColumnSpec {
    pub name: String,
    pub kind: ColumnKind,
    pub nullable: bool,
}

/// What a `ColumnSpec` says.
pub ghost struct ColumnView {
    pub name: Seq<char>,
    pub kind: ColumnKind,
    pub nullable: bool,
}

impl View for ColumnSpec {
    type V = ColumnView;

    open spec fn view(&self) -> ColumnView {
        ColumnView { name: self.name@, kind: self.kind, nullable: self.nullable }
    }
}

/// A column of the given name, kind and nullability.
pub open spec fn col(name: Seq<char>, kind: ColumnKind, nullable: bool) -> ColumnView {
    ColumnView { name, kind, nullable }
}

/// The columns of the event files, in order.
pub open spec fn event_columns() -> Seq<ColumnView> {
    seq![
        col("event_id"@, ColumnKind::Text, false),
        col("connection_id"@, ColumnKind::Text, false),
        col("request_start_ts"@, ColumnKind::Millis, false),
        col("request_end_ts"@, ColumnKind::Millis, false),
        col("duration_ms"@, ColumnKind::Int64, false),
        col("client_ip"@, ColumnKind::Text, true),
        col("client_port"@, ColumnKind::UInt16, true),
        col("proxy_local_ip"@, ColumnKind::Text, true),
        col("proxy_local_port"@, ColumnKind::UInt16, true),
        col("frontend_server_name"@, ColumnKind::Text, true),
        col("frontend_http_version"@, ColumnKind::Text, true),
        col("frontend_scheme"@, ColumnKind::Text, false),
        col("backend_url"@, ColumnKind::Text, false),
        col("backend_host"@, ColumnKind::Text, false),
        col("backend_ip"@, ColumnKind::Text, true),
        col("backend_port"@, ColumnKind::UInt16, true),
        col("backend_http_version"@, ColumnKind::Text, true),
        col("upstream_connection_reused"@, ColumnKind::Boolean, true),
        col("method"@, ColumnKind::Text, false),
        col("authority"@, ColumnKind::Text, true),
        col("path"@, ColumnKind::Text, false),
        col("query"@, ColumnKind::Text, true),
        col("request_headers_json"@, ColumnKind::Text, false),
        col("request_cookie_header"@, ColumnKind::Text, true),
        col("request_cookies_json"@, ColumnKind::Text, true),
        col("request_content_length"@, ColumnKind::Int64, true),
        col("request_transfer_encoding"@, ColumnKind::Text, true),
        col("request_content_type"@, ColumnKind::Text, true),
        col("request_body_sha256"@, ColumnKind::Text, true),
        col("request_body_preview_base64"@, ColumnKind::Text, true),
        col("request_body_truncated"@, ColumnKind::Boolean, true),
        col("status_code"@, ColumnKind::UInt16, true),
        col("reason_phrase"@, ColumnKind::Text, true),
        col("response_headers_json"@, ColumnKind::Text, true),
        col("response_set_cookie_json"@, ColumnKind::Text, true),
        col("response_content_length"@, ColumnKind::Int64, true),
        col("response_transfer_encoding"@, ColumnKind::Text, true),
        col("response_content_type"@, ColumnKind::Text, true),
        col("response_content_encoding"@, ColumnKind::Text, true),
        col("response_body_sha256"@, ColumnKind::Text, true),
        col("response_body_preview_base64"@, ColumnKind::Text, true),
        col("response_body_truncated"@, ColumnKind::Boolean, true),
        col("frontend_tls_version"@, ColumnKind::Text, true),
        col("frontend_tls_cipher_suite"@, ColumnKind::Text, true),
        col("frontend_tls_alpn"@, ColumnKind::Text, true),
        col("frontend_tls_sni"@, ColumnKind::Text, true),
        col("frontend_tls_ja3"@, ColumnKind::Text, true),
        col("frontend_tls_ja4"@, ColumnKind::Text, true),
        col("backend_tls_version"@, ColumnKind::Text, true),
        col("backend_tls_cipher_suite"@, ColumnKind::Text, true),
        col("backend_tls_alpn"@, ColumnKind::Text, true),
        col("backend_tls_sni"@, ColumnKind::Text, true),
        col("backend_cert_leaf_sha256"@, ColumnKind::Text, true),
        col("backend_cert_subject"@, ColumnKind::Text, true),
        col("backend_cert_issuer"@, ColumnKind::Text, true),
        col("backend_cert_not_before"@, ColumnKind::Millis, true),
        col("backend_cert_not_after"@, ColumnKind::Millis, true),
        col("dns_duration_ms"@, ColumnKind::Int64, true),
        col("connect_duration_ms"@, ColumnKind::Int64, true),
        col("tls_handshake_duration_ms"@, ColumnKind::Int64, true),
        col("upstream_first_byte_ms"@, ColumnKind::Int64, true),
        col("response_stream_duration_ms"@, ColumnKind::Int64, true),
        col("error_kind"@, ColumnKind::Text, true),
        col("error_text"@, ColumnKind::Text, true),
        col("proxy_result"@, ColumnKind::Text, false),
    ]
}

/// A cell of a row. A point in time is in milliseconds since 1970.
pub ghost enum Cell {
    Text(Option<Seq<char>>),
    Millis(Option<int>),
    Int64(Option<i64>),
    UInt16(Option<u16>),
    Boolean(Option<bool>),
}

impl Cell {
    /// What kind of column the cell belongs in.
    pub open spec fn kind(self) -> ColumnKind {
        match self {
            Cell::Text(_) => ColumnKind::Text,
            Cell::Millis(_) => ColumnKind::Millis,
            Cell::Int64(_) => ColumnKind::Int64,
            Cell::UInt16(_) => ColumnKind::UInt16,
            Cell::Boolean(_) => ColumnKind::Boolean,
        }
    }

    /// Whether the cell is empty.
    pub open spec fn is_empty(self) -> bool {
        match self {
            Cell::Text(value) => value is None,
            Cell::Millis(value) => value is None,
            Cell::Int64(value) => value is None,
            Cell::UInt16(value) => value is None,
            Cell::Boolean(value) => value is None,
        }
    }
}

/// The 64-bit integer that the low 64 bits of a number make.
pub open spec fn low_i64(n: int) -> int {
    let low = n % 0x1_0000_0000_0000_0000;
    if low < 0x8000_0000_0000_0000 {
        low
    } else {
        low - 0x1_0000_0000_0000_0000
    }
}

/// A point in time, in nanoseconds, as the files hold it: the whole milliseconds of the 64-bit
/// integer that it is cut to.
pub open spec fn stored_ms(nanos: int) -> int {
    whole_ms(low_i64(nanos))
}

/// An optional point in time as the files hold it.
pub open spec fn opt_stored_ms(nanos: Option<i128>) -> Option<int> {
    match nanos {
        Some(nanos) => Some(stored_ms(nanos as int)),
        None => None,
    }
}

/// The cells of an event, in the order of the columns.
pub open spec fn event_cells(event: ProxyEvent) -> Seq<Cell> {
    seq![
        Cell::Text(Some(event.event_id@)),
        Cell::Text(Some(event.connection_id@)),
        Cell::Millis(Some(stored_ms(event.request_start_ts as int))),
        Cell::Millis(Some(stored_ms(event.request_end_ts as int))),
        Cell::Int64(Some(event.duration_ms)),
        Cell::Text(opt_text(event.client_ip)),
        Cell::UInt16(event.client_port),
        Cell::Text(opt_text(event.proxy_local_ip)),
        Cell::UInt16(event.proxy_local_port),
        Cell::Text(opt_text(event.frontend_server_name)),
        Cell::Text(opt_text(event.frontend_http_version)),
        Cell::Text(Some(event.frontend_scheme@)),
        Cell::Text(Some(event.backend_url@)),
        Cell::Text(Some(event.backend_host@)),
        Cell::Text(opt_text(event.backend_ip)),
        Cell::UInt16(event.backend_port),
        Cell::Text(opt_text(event.backend_http_version)),
        Cell::Boolean(event.upstream_connection_reused),
        Cell::Text(Some(event.method@)),
        Cell::Text(opt_text(event.authority)),
        Cell::Text(Some(event.path@)),
        Cell::Text(opt_text(event.query)),
        Cell::Text(Some(event.request_headers_json@)),
        Cell::Text(opt_text(event.request_cookie_header)),
        Cell::Text(opt_text(event.request_cookies_json)),
        Cell::Int64(event.request_content_length),
        Cell::Text(opt_text(event.request_transfer_encoding)),
        Cell::Text(opt_text(event.request_content_type)),
        Cell::Text(opt_text(event.request_body_sha256)),
        Cell::Text(opt_text(event.request_body_preview_base64)),
        Cell::Boolean(event.request_body_truncated),
        Cell::UInt16(event.status_code),
        Cell::Text(opt_text(event.reason_phrase)),
        Cell::Text(opt_text(event.response_headers_json)),
        Cell::Text(opt_text(event.response_set_cookie_json)),
        Cell::Int64(event.response_content_length),
        Cell::Text(opt_text(event.response_transfer_encoding)),
        Cell::Text(opt_text(event.response_content_type)),
        Cell::Text(opt_text(event.response_content_encoding)),
        Cell::Text(opt_text(event.response_body_sha256)),
        Cell::Text(opt_text(event.response_body_preview_base64)),
        Cell::Boolean(event.response_body_truncated),
        Cell::Text(opt_text(event.frontend_tls_version)),
        Cell::Text(opt_text(event.frontend_tls_cipher_suite)),
        Cell::Text(opt_text(event.frontend_tls_alpn)),
        Cell::Text(opt_text(event.frontend_tls_sni)),
        Cell::Text(opt_text(event.frontend_tls_ja3)),
        Cell::Text(opt_text(event.frontend_tls_ja4)),
        Cell::Text(opt_text(event.backend_tls_version)),
        Cell::Text(opt_text(event.backend_tls_cipher_suite)),
        Cell::Text(opt_text(event.backend_tls_alpn)),
        Cell::Text(opt_text(event.backend_tls_sni)),
        Cell::Text(opt_text(event.backend_cert_leaf_sha256)),
        Cell::Text(opt_text(event.backend_cert_subject)),
        Cell::Text(opt_text(event.backend_cert_issuer)),
        Cell::Millis(opt_stored_ms(event.backend_cert_not_before)),
        Cell::Millis(opt_stored_ms(event.backend_cert_not_after)),
        Cell::Int64(event.dns_duration_ms),
        Cell::Int64(event.connect_duration_ms),
        Cell::Int64(event.tls_handshake_duration_ms),
        Cell::Int64(event.upstream_first_byte_ms),
        Cell::Int64(event.response_stream_duration_ms),
        Cell::Text(match event.error_kind {
            Some(kind) => Some(kind.tag()),
            None => None,
        }),
        Cell::Text(opt_text(event.error_text)),
        Cell::Text(Some(event.proxy_result.tag())),
    ]
}

/// A point in time, in nanoseconds, as the files hold it.
pub fn timestamp_ms(nanos: i128) -> (ms: i64)
    ensures
        ms == stored_ms(nanos as int),
{
    let low: u128 = if nanos >= 0 {
        (nanos as u128) % 0x1_0000_0000_0000_0000
    } else {
        let below: u128 = (-(nanos + 1)) as u128;
        0xffff_ffff_ffff_ffff - below % 0x1_0000_0000_0000_0000
    };
    proof {
        if nanos < 0 {
            let below = -(nanos + 1);
            let q = below / 0x1_0000_0000_0000_0000;
            let r = below % 0x1_0000_0000_0000_0000;
            assert(nanos == (-(q + 1)) * 0x1_0000_0000_0000_0000 + (0xffff_ffff_ffff_ffff - r));
        }
        assert(low == nanos as int % 0x1_0000_0000_0000_0000);
    }
    if low < 0x8000_0000_0000_0000 {
        (low / 1_000_000) as i64
    } else {
        let size: u128 = 0x1_0000_0000_0000_0000 - low;
        -((size / 1_000_000) as i64)
    }
}

/// An optional point in time as the files hold it.
fn opt_timestamp_ms(nanos: Option<i128>) -> (ms: Option<i64>)
    ensures
        match ms {
            Some(ms) => opt_stored_ms(nanos) == Some(ms as int),
            None => opt_stored_ms(nanos) is None,
        },
{
    match nanos {
        Some(nanos) => Some(timestamp_ms(nanos)),
        None => None,
    }
}

/// Points in time between the years 1678 and 2262 are held exactly to the millisecond.
pub proof fn near_timestamps_are_exact(nanos: int)
    requires
        i64::MIN <= nanos <= i64::MAX,
    ensures
        stored_ms(nanos) == whole_ms(nanos),
{
}

/// A cell of a row.
#[derive(Debug, Clone)]
pub enum CellValue {
    Text(Option<String>),
    Millis(Option<i64>),
    Int64(Option<i64>),
    UInt16(Option<u16>),
    Boolean(Option<bool>),
}

impl View for CellValue {
    type V = Cell;

    open spec fn view(&self) -> Cell {
        match *self {
            CellValue::Text(value) => Cell::Text(opt_text(value)),
            CellValue::Millis(value) => Cell::Millis(
                match value {
                    Some(ms) => Some(ms as int),
                    None => None,
                },
            ),
            CellValue::Int64(value) => Cell::Int64(value),
            CellValue::UInt16(value) => Cell::UInt16(value),
            CellValue::Boolean(value) => Cell::Boolean(value),
        }
    }
}

/// The cells that a row shows.
pub open spec fn row_view(row: Seq<CellValue>) -> Seq<Cell> {
    row.map_values(|cell: CellValue| cell@)
}

/// A column of the given name, kind and nullability.
fn column(name: &str, kind: ColumnKind, nullable: bool) -> (spec: ColumnSpec)
    ensures
        spec@ == col(name@, kind, nullable),
{
    ColumnSpec { name: name.to_owned(), kind, nullable }
}

/// The columns that a list of specifications shows.
pub open spec fn column_views(columns: Seq<ColumnSpec>) -> Seq<ColumnView> {
    columns.map_values(|column: ColumnSpec| column@)
}

/// The columns of the event files, in order.
pub fn event_column_specs() -> (columns: Vec<ColumnSpec>)
    ensures
        column_views(columns@) == event_columns(),
{
    let columns: Vec<ColumnSpec> = vec![
        column("event_id", ColumnKind::Text, false),
        column("connection_id", ColumnKind::Text, false),
        column("request_start_ts", ColumnKind::Millis, false),
        column("request_end_ts", ColumnKind::Millis, false),
        column("duration_ms", ColumnKind::Int64, false),
        column("client_ip", ColumnKind::Text, true),
        column("client_port", ColumnKind::UInt16, true),
        column("proxy_local_ip", ColumnKind::Text, true),
        column("proxy_local_port", ColumnKind::UInt16, true),
        column("frontend_server_name", ColumnKind::Text, true),
        column("frontend_http_version", ColumnKind::Text, true),
        column("frontend_scheme", ColumnKind::Text, false),
        column("backend_url", ColumnKind::Text, false),
        column("backend_host", ColumnKind::Text, false),
        column("backend_ip", ColumnKind::Text, true),
        column("backend_port", ColumnKind::UInt16, true),
        column("backend_http_version", ColumnKind::Text, true),
        column("upstream_connection_reused", ColumnKind::Boolean, true),
        column("method", ColumnKind::Text, false),
        column("authority", ColumnKind::Text, true),
        column("path", ColumnKind::Text, false),
        column("query", ColumnKind::Text, true),
        column("request_headers_json", ColumnKind::Text, false),
        column("request_cookie_header", ColumnKind::Text, true),
        column("request_cookies_json", ColumnKind::Text, true),
        column("request_content_length", ColumnKind::Int64, true),
        column("request_transfer_encoding", ColumnKind::Text, true),
        column("request_content_type", ColumnKind::Text, true),
        column("request_body_sha256", ColumnKind::Text, true),
        column("request_body_preview_base64", ColumnKind::Text, true),
        column("request_body_truncated", ColumnKind::Boolean, true),
        column("status_code", ColumnKind::UInt16, true),
        column("reason_phrase", ColumnKind::Text, true),
        column("response_headers_json", ColumnKind::Text, true),
        column("response_set_cookie_json", ColumnKind::Text, true),
        column("response_content_length", ColumnKind::Int64, true),
        column("response_transfer_encoding", ColumnKind::Text, true),
        column("response_content_type", ColumnKind::Text, true),
        column("response_content_encoding", ColumnKind::Text, true),
        column("response_body_sha256", ColumnKind::Text, true),
        column("response_body_preview_base64", ColumnKind::Text, true),
        column("response_body_truncated", ColumnKind::Boolean, true),
        column("frontend_tls_version", ColumnKind::Text, true),
        column("frontend_tls_cipher_suite", ColumnKind::Text, true),
        column("frontend_tls_alpn", ColumnKind::Text, true),
        column("frontend_tls_sni", ColumnKind::Text, true),
        column("frontend_tls_ja3", ColumnKind::Text, true),
        column("frontend_tls_ja4", ColumnKind::Text, true),
        column("backend_tls_version", ColumnKind::Text, true),
        column("backend_tls_cipher_suite", ColumnKind::Text, true),
        column("backend_tls_alpn", ColumnKind::Text, true),
        column("backend_tls_sni", ColumnKind::Text, true),
        column("backend_cert_leaf_sha256", ColumnKind::Text, true),
        column("backend_cert_subject", ColumnKind::Text, true),
        column("backend_cert_issuer", ColumnKind::Text, true),
        column("backend_cert_not_before", ColumnKind::Millis, true),
        column("backend_cert_not_after", ColumnKind::Millis, true),
        column("dns_duration_ms", ColumnKind::Int64, true),
        column("connect_duration_ms", ColumnKind::Int64, true),
        column("tls_handshake_duration_ms", ColumnKind::Int64, true),
        column("upstream_first_byte_ms", ColumnKind::Int64, true),
        column("response_stream_duration_ms", ColumnKind::Int64, true),
        column("error_kind", ColumnKind::Text, true),
        column("error_text", ColumnKind::Text, true),
        column("proxy_result", ColumnKind::Text, false),
    ];
    assert(column_views(columns@) =~= event_columns());
    columns
}

/// The cells of an event, in the order of the columns.
pub fn event_row(event: &ProxyEvent) -> (row: Vec<CellValue>)
    ensures
        row_view(row@) == event_cells(*event),
{
    let row: Vec<CellValue> = vec![
        CellValue::Text(Some(event.event_id.clone())),
        CellValue::Text(Some(event.connection_id.clone())),
        CellValue::Millis(Some(timestamp_ms(event.request_start_ts))),
        CellValue::Millis(Some(timestamp_ms(event.request_end_ts))),
        CellValue::Int64(Some(event.duration_ms)),
        CellValue::Text(copy_text(&event.client_ip)),
        CellValue::UInt16(event.client_port),
        CellValue::Text(copy_text(&event.proxy_local_ip)),
        CellValue::UInt16(event.proxy_local_port),
        CellValue::Text(copy_text(&event.frontend_server_name)),
        CellValue::Text(copy_text(&event.frontend_http_version)),
        CellValue::Text(Some(event.frontend_scheme.clone())),
        CellValue::Text(Some(event.backend_url.clone())),
        CellValue::Text(Some(event.backend_host.clone())),
        CellValue::Text(copy_text(&event.backend_ip)),
        CellValue::UInt16(event.backend_port),
        CellValue::Text(copy_text(&event.backend_http_version)),
        CellValue::Boolean(event.upstream_connection_reused),
        CellValue::Text(Some(event.method.clone())),
        CellValue::Text(copy_text(&event.authority)),
        CellValue::Text(Some(event.path.clone())),
        CellValue::Text(copy_text(&event.query)),
        CellValue::Text(Some(event.request_headers_json.clone())),
        CellValue::Text(copy_text(&event.request_cookie_header)),
        CellValue::Text(copy_text(&event.request_cookies_json)),
        CellValue::Int64(event.request_content_length),
        CellValue::Text(copy_text(&event.request_transfer_encoding)),
        CellValue::Text(copy_text(&event.request_content_type)),
        CellValue::Text(copy_text(&event.request_body_sha256)),
        CellValue::Text(copy_text(&event.request_body_preview_base64)),
        CellValue::Boolean(event.request_body_truncated),
        CellValue::UInt16(event.status_code),
        CellValue::Text(copy_text(&event.reason_phrase)),
        CellValue::Text(copy_text(&event.response_headers_json)),
        CellValue::Text(copy_text(&event.response_set_cookie_json)),
        CellValue::Int64(event.response_content_length),
        CellValue::Text(copy_text(&event.response_transfer_encoding)),
        CellValue::Text(copy_text(&event.response_content_type)),
        CellValue::Text(copy_text(&event.response_content_encoding)),
        CellValue::Text(copy_text(&event.response_body_sha256)),
        CellValue::Text(copy_text(&event.response_body_preview_base64)),
        CellValue::Boolean(event.response_body_truncated),
        CellValue::Text(copy_text(&event.frontend_tls_version)),
        CellValue::Text(copy_text(&event.frontend_tls_cipher_suite)),
        CellValue::Text(copy_text(&event.frontend_tls_alpn)),
        CellValue::Text(copy_text(&event.frontend_tls_sni)),
        CellValue::Text(copy_text(&event.frontend_tls_ja3)),
        CellValue::Text(copy_text(&event.frontend_tls_ja4)),
        CellValue::Text(copy_text(&event.backend_tls_version)),
        CellValue::Text(copy_text(&event.backend_tls_cipher_suite)),
        CellValue::Text(copy_text(&event.backend_tls_alpn)),
        CellValue::Text(copy_text(&event.backend_tls_sni)),
        CellValue::Text(copy_text(&event.backend_cert_leaf_sha256)),
        CellValue::Text(copy_text(&event.backend_cert_subject)),
        CellValue::Text(copy_text(&event.backend_cert_issuer)),
        CellValue::Millis(opt_timestamp_ms(event.backend_cert_not_before)),
        CellValue::Millis(opt_timestamp_ms(event.backend_cert_not_after)),
        CellValue::Int64(event.dns_duration_ms),
        CellValue::Int64(event.connect_duration_ms),
        CellValue::Int64(event.tls_handshake_duration_ms),
        CellValue::Int64(event.upstream_first_byte_ms),
        CellValue::Int64(event.response_stream_duration_ms),
        CellValue::Text(match event.error_kind {
            Some(kind) => Some(kind.as_str().to_owned()),
            None => None,
        }),
        CellValue::Text(copy_text(&event.error_text)),
        CellValue::Text(Some(event.proxy_result.as_str().to_owned())),
    ];
    assert(row_view(row@) =~= event_cells(*event));
    row
}

/// The cells of an event fit the columns: as many, of the right kinds, and none empty that may
/// not be.
pub proof fn events_fit_the_columns(event: ProxyEvent, i: int)
    requires
        0 <= i < event_columns().len(),
    ensures
        event_cells(event).len() == event_columns().len(),
        event_cells(event)[i].kind() == event_columns()[i].kind,
        event_cells(event)[i].is_empty() ==> event_columns()[i].nullable,
{
}

// ---------------------------------------------------------------------------
// Rows as columns
// ---------------------------------------------------------------------------

/// The cells of a column, from the first row on.
#[derive(Debug, Clone)]
pub enum ColumnData {
    Text(Vec<Option<String>>),
    Millis(Vec<Option<i64>>),
    Int64(Vec<Option<i64>>),
    UInt16(Vec<Option<u16>>),
    Boolean(Vec<Option<bool>>),
}

/// The cells that a column shows.
pub open spec fn column_cells(column: ColumnData) -> Seq<Cell> {
    match column {
        ColumnData::Text(cells) => cells@.map_values(|cell: Option<String>| CellValue::Text(cell)@),
        ColumnData::Millis(cells) => cells@.map_values(|cell: Option<i64>| CellValue::Millis(cell)@),
        ColumnData::Int64(cells) => cells@.map_values(|cell: Option<i64>| CellValue::Int64(cell)@),
        ColumnData::UInt16(cells) => cells@.map_values(
            |cell: Option<u16>| CellValue::UInt16(cell)@,
        ),
        ColumnData::Boolean(cells) => cells@.map_values(
            |cell: Option<bool>| CellValue::Boolean(cell)@,
        ),
    }
}

impl ColumnData {
    /// What the column's cells hold.
    pub open spec fn kind(self) -> ColumnKind {
        match self {
            ColumnData::Text(_) => ColumnKind::Text,
            ColumnData::Millis(_) => ColumnKind::Millis,
            ColumnData::Int64(_) => ColumnKind::Int64,
            ColumnData::UInt16(_) => ColumnKind::UInt16,
            ColumnData::Boolean(_) => ColumnKind::Boolean,
        }
    }
}

/// The column of a table of events with an index.
pub open spec fn event_column(events: Seq<ProxyEvent>, index: int) -> Seq<Cell> {
    events.map_values(|event: ProxyEvent| event_cells(event)[index])
}

/// A column without cells.
fn empty_column(kind: ColumnKind) -> (column: ColumnData)
    ensures
        column.kind() == kind,
        column_cells(column) == Seq::<Cell>::empty(),
{
    let column = match kind {
        ColumnKind::Text => ColumnData::Text(Vec::new()),
        ColumnKind::Millis => ColumnData::Millis(Vec::new()),
        ColumnKind::Int64 => ColumnData::Int64(Vec::new()),
        ColumnKind::UInt16 => ColumnData::UInt16(Vec::new()),
        ColumnKind::Boolean => ColumnData::Boolean(Vec::new()),
    };
    assert(column_cells(column) =~= Seq::<Cell>::empty());
    column
}

/// Puts a cell behind those of a column of its kind.
fn push_cell(column: &mut ColumnData, cell: CellValue)
    requires
        cell@.kind() == old(column).kind(),
    ensures
        final(column).kind() == old(column).kind(),
        column_cells(*final(column)) == column_cells(*old(column)).push(cell@),
{
    match (column, cell) {
        (ColumnData::Text(cells), CellValue::Text(value)) => {
            let ghost before = cells@;
            cells.push(value);
            assert(cells@.map_values(|cell: Option<String>| CellValue::Text(cell)@) =~= before.map_values(
                |cell: Option<String>| CellValue::Text(cell)@,
            ).push(CellValue::Text(value)@));
        },
        (ColumnData::Millis(cells), CellValue::Millis(value)) => {
            let ghost before = cells@;
            cells.push(value);
            assert(cells@.map_values(|cell: Option<i64>| CellValue::Millis(cell)@) =~= before.map_values(
                |cell: Option<i64>| CellValue::Millis(cell)@,
            ).push(CellValue::Millis(value)@));
        },
        (ColumnData::Int64(cells), CellValue::Int64(value)) => {
            let ghost before = cells@;
            cells.push(value);
            assert(cells@.map_values(|cell: Option<i64>| CellValue::Int64(cell)@) =~= before.map_values(
                |cell: Option<i64>| CellValue::Int64(cell)@,
            ).push(CellValue::Int64(value)@));
        },
        (ColumnData::UInt16(cells), CellValue::UInt16(value)) => {
            let ghost before = cells@;
            cells.push(value);
            assert(cells@.map_values(|cell: Option<u16>| CellValue::UInt16(cell)@) =~= before.map_values(
                |cell: Option<u16>| CellValue::UInt16(cell)@,
            ).push(CellValue::UInt16(value)@));
        },
        (ColumnData::Boolean(cells), CellValue::Boolean(value)) => {
            let ghost before = cells@;
            cells.push(value);
            assert(cells@.map_values(|cell: Option<bool>| CellValue::Boolean(cell)@) =~= before.map_values(
                |cell: Option<bool>| CellValue::Boolean(cell)@,
            ).push(CellValue::Boolean(value)@));
        },
        _ => {},
    }
}

/// Whether columns hold the rows of events, one for one.
pub open spec fn columns_hold(columns: Seq<ColumnData>, events: Seq<ProxyEvent>) -> bool {
    &&& columns.len() == event_columns().len()
    &&& forall|c: int|
        0 <= c < columns.len() ==> {
            &&& (#[trigger] columns[c]).kind() == event_columns()[c].kind
            &&& column_cells(columns[c]) == event_column(events, c)
        }
}

/// Puts the row of one more event behind those that columns hold.
fn push_row(columns: &mut Vec<ColumnData>, event: &ProxyEvent, Ghost(events): Ghost<Seq<ProxyEvent>>)
    requires
        columns_hold(old(columns)@, events),
    ensures
        columns_hold(final(columns)@, events.push(*event)),
{
    let row = event_row(event);
    let ghost before = columns@;
    let ghost cells = event_cells(*event);
    let mut c: usize = 0;
    let ghost width = event_columns().len();
    assert(row@.len() == row_view(row@).len());
    while c < row.len()
        invariant
            c <= row.len(),
            row.len() == width,
            columns.len() == width,
            before.len() == width,
            width == event_columns().len(),
            row_view(row@) == cells,
            cells == event_cells(*event),
            columns_hold(before, events),
            forall|k: int|
                0 <= k < c ==> (#[trigger] columns[k]).kind() == before[k].kind() && column_cells(
                    columns[k],
                ) == column_cells(before[k]).push(cells[k]),
            forall|k: int| c <= k < width ==> #[trigger] columns[k] == before[k],
        decreases row.len() - c,
    {
        let cell = row[c].clone_cell();
        proof {
            events_fit_the_columns(*event, c as int);
            assert(row_view(row@)[c as int] == row[c as int]@);
            assert(columns[c as int] == before[c as int]);
        }
        let mut column = columns.remove(c);
        push_cell(&mut column, cell);
        columns.insert(c, column);
        assert(columns@ =~= columns@.update(c as int, column));
        c += 1;
    }
    assert forall|k: int| 0 <= k < columns.len() implies {
        &&& (#[trigger] columns@[k]).kind() == event_columns()[k].kind
        &&& column_cells(columns@[k]) == event_column(events.push(*event), k)
    } by {
        assert(before[k].kind() == event_columns()[k].kind);
        assert(event_column(events.push(*event), k) =~= event_column(events, k).push(cells[k]));
    }
}

impl CellValue {
    /// A copy of the cell.
    pub fn clone_cell(&self) -> (copy: CellValue)
        ensures
            copy@ == self@,
    {
        match self {
            CellValue::Text(value) => CellValue::Text(copy_text(value)),
            CellValue::Millis(value) => CellValue::Millis(*value),
            CellValue::Int64(value) => CellValue::Int64(*value),
            CellValue::UInt16(value) => CellValue::UInt16(*value),
            CellValue::Boolean(value) => CellValue::Boolean(*value),
        }
    }
}

/// The rows of events as columns.
pub fn events_to_columns(events: &[ProxyEvent]) -> (columns: Vec<ColumnData>)
    ensures
        columns_hold(columns@, events@),
{
    let specs = event_column_specs();
    let mut columns: Vec<ColumnData> = Vec::new();
    let mut c: usize = 0;
    assert(specs@.len() == column_views(specs@).len());
    while c < specs.len()
        invariant
            c <= specs.len(),
            specs.len() == event_columns().len(),
            column_views(specs@) == event_columns(),
            columns.len() == c,
            forall|k: int|
                0 <= k < c ==> (#[trigger] columns[k]).kind() == event_columns()[k].kind
                    && column_cells(columns[k]) == Seq::<Cell>::empty(),
        decreases specs.len() - c,
    {
        assert(column_views(specs@)[c as int] == specs[c as int]@);
        columns.push(empty_column(specs[c].kind));
        c += 1;
    }
    let ghost none = Seq::<ProxyEvent>::empty();
    assert forall|k: int| 0 <= k < columns.len() implies {
        &&& (#[trigger] columns@[k]).kind() == event_columns()[k].kind
        &&& column_cells(columns@[k]) == event_column(none, k)
    } by {
        assert(event_column(none, k) =~= Seq::<Cell>::empty());
    }
    let mut i: usize = 0;
    assert(events@.take(0) =~= none);
    while i < events.len()
        invariant
            i <= events.len(),
            columns_hold(columns@, events@.take(i as int)),
        decreases events.len() - i,
    {
        let ghost front = events@.take(i as int);
        push_row(&mut columns, &events[i], Ghost(front));
        assert(events@.take(i + 1) =~= front.push(events@[i as int]));
        i += 1;
    }
    assert(events@.take(i as int) =~= events@);
    columns
}

// ---------------------------------------------------------------------------
// Record batches
// ---------------------------------------------------------------------------

/// arrow's schema: a list of columns.
#[verifier::external_type_specification]
#[verifier::external_body]
pub struct ExSchema(arrow::datatypes::Schema);

/// The columns that an arrow schema lists.
pub uninterp spec fn schema_columns(schema: Schema) -> Seq<ColumnView>;

/// `Schema::new` makes a schema of the columns it is given, in their order.
#[verifier::external_body]
fn arrow_schema(columns: &Vec<ColumnSpec>) -> (schema: Schema)
    ensures
        schema_columns(schema) == column_views(columns@),
{
    let fields: Vec<Field> = columns.iter().map(|column| Field::new(column.name.as_str(), match column.kind {
        ColumnKind::Text => DataType::Utf8,
        ColumnKind::Millis => DataType::Timestamp(TimeUnit::Millisecond, Some("UTC".into())),
        ColumnKind::Int64 => DataType::Int64,
        ColumnKind::UInt16 => DataType::UInt16,
        ColumnKind::Boolean => DataType::Boolean,
    }, column.nullable)).collect();
    Schema::new(fields)
}

/// The schema of the event files.
pub fn parquet_schema() -> (schema: Schema)
    ensures
        schema_columns(schema) == event_columns(),
{
    let columns = event_column_specs();
    arrow_schema(&columns)
}

/// A batch of rows, held by arrow as columns. What it holds is `batch_table`; the batch itself is
/// for whoever writes it to a file.
#[verifier::external_body]
pub struct EventBatch {
    pub inner: RecordBatch,
}

/// The columns of a batch, each with its cells.
pub uninterp spec fn batch_table(batch: EventBatch) -> Seq<(ColumnView, Seq<Cell>)>;

/// The bytes of the texts in cells, in UTF-8.
pub open spec fn text_bytes(cells: Seq<Cell>) -> int
    decreases cells.len(),
{
    if cells.len() == 0 {
        0
    } else {
        text_bytes(cells.drop_last()) + match cells.last() {
            Cell::Text(Some(text)) => vstd::utf8::encode_utf8(text).len() as int,
            _ => 0,
        }
    }
}

/// Whether columns make a batch: as many as the schema lists and at least one, of the kinds it
/// lists, all of one length, none with an empty cell where the schema has none, and none with
/// more text than a column of texts can hold.
pub open spec fn makes_batch(columns: Seq<ColumnView>, data: Seq<ColumnData>) -> bool {
    &&& columns.len() == data.len()
    &&& data.len() > 0
    &&& forall|c: int|
        0 <= c < data.len() ==> {
            let cells = column_cells(#[trigger] data[c]);
            &&& data[c].kind() == columns[c].kind
            &&& cells.len() == column_cells(data[0]).len()
            &&& text_bytes(cells) <= i32::MAX
            &&& !columns[c].nullable ==> forall|i: int|
                0 <= i < cells.len() ==> !(#[trigger] cells[i]).is_empty()
        }
}

/// `RecordBatch::try_new` puts columns under a schema and succeeds where they fit it.
#[verifier::external_body]
fn record_batch(schema: Schema, data: &Vec<ColumnData>) -> (batch: Option<EventBatch>)
    requires
        makes_batch(schema_columns(schema), data@),
    ensures
        batch matches Some(batch) && batch_table(batch) == Seq::new(
            data@.len(),
            |c: int| (schema_columns(schema)[c], column_cells(data@[c])),
        ),
{
    let arrays = data.iter().map(|column| -> ArrayRef { match column {
        ColumnData::Text(cells) => Arc::new(StringArray::from(cells.clone())),
        ColumnData::Millis(cells) => Arc::new(TimestampMillisecondArray::from(cells.clone()).with_timezone("UTC")),
        ColumnData::Int64(cells) => Arc::new(Int64Array::from(cells.clone())),
        ColumnData::UInt16(cells) => Arc::new(UInt16Array::from(cells.clone())),
        ColumnData::Boolean(cells) => Arc::new(BooleanArray::from(cells.clone())),
    } });
    RecordBatch::try_new(Arc::new(schema), arrays.collect()).ok().map(|inner| EventBatch { inner })
}

/// Whether no column of a table of events has more text than a column of texts can hold.
pub open spec fn texts_fit(events: Seq<ProxyEvent>) -> bool {
    forall|c: int|
        0 <= c < event_columns().len() ==> text_bytes(#[trigger] event_column(events, c))
            <= i32::MAX
}

/// Fewer cells hold no more text.
proof fn lemma_text_bytes_grow(cells: Seq<Cell>, n: int)
    requires
        0 <= n <= cells.len(),
    ensures
        0 <= text_bytes(cells.take(n)) <= text_bytes(cells),
    decreases cells.len(),
{
    if n < cells.len() {
        lemma_text_bytes_grow(cells.drop_last(), n);
        assert(cells.drop_last().take(n) =~= cells.take(n));
    } else {
        assert(cells.take(n) =~= cells);
        if cells.len() > 0 {
            lemma_text_bytes_grow(cells.drop_last(), cells.len() - 1);
            assert(cells.drop_last().take(cells.len() - 1) =~= cells.drop_last());
        }
    }
}

/// Cells that are no texts hold no text.
proof fn lemma_no_text_bytes(cells: Seq<Cell>)
    requires
        forall|i: int| 0 <= i < cells.len() ==> (#[trigger] cells[i]).kind() != ColumnKind::Text,
    ensures
        text_bytes(cells) == 0,
    decreases cells.len(),
{
    if cells.len() > 0 {
        assert(cells[cells.len() - 1].kind() != ColumnKind::Text);
        lemma_no_text_bytes(cells.drop_last());
    }
}

/// Whether a column has no more text than a column of texts can hold.
fn column_fits(column: &ColumnData) -> (fits: bool)
    ensures
        fits == (text_bytes(column_cells(*column)) <= i32::MAX),
{
    let ghost cells = column_cells(*column);
    match column {
        ColumnData::Text(values) => {
            let mut total: usize = 0;
            let mut i: usize = 0;
            assert(cells.take(0) =~= Seq::<Cell>::empty());
            while i < values.len()
                invariant
                    i <= values.len(),
                    cells == column_cells(*column),
                    *column == ColumnData::Text(*values),
                    total == text_bytes(cells.take(i as int)),
                    total <= i32::MAX,
                decreases values.len() - i,
            {
                proof {
                    assert(cells.take(i + 1).drop_last() =~= cells.take(i as int));
                    assert(cells[i as int] == CellValue::Text(values[i as int])@);
                    lemma_text_bytes_grow(cells, i + 1);
                }
                if let Some(text) = &values[i] {
                    let size = text.as_str().as_bytes().len();
                    if size > 0x7fff_ffff - total {
                        return false;
                    }
                    total += size;
                }
                i += 1;
            }
            assert(cells.take(i as int) =~= cells);
            true
        },
        _ => {
            proof {
                assert forall|i: int| 0 <= i < cells.len() implies (#[trigger] cells[i]).kind()
                    != ColumnKind::Text by {}
                lemma_no_text_bytes(cells);
            }
            true
        },
    }
}

/// Whether no column of a table of events has more text than a column of texts can hold.
pub fn events_fit(events: &[ProxyEvent]) -> (fits: bool)
    ensures
        fits == texts_fit(events@),
{
    let columns = events_to_columns(events);
    let mut c: usize = 0;
    while c < columns.len()
        invariant
            c <= columns.len(),
            columns_hold(columns@, events@),
            forall|k: int|
                0 <= k < c ==> text_bytes(#[trigger] event_column(events@, k)) <= i32::MAX,
        decreases columns.len() - c,
    {
        assert(column_cells(columns[c as int]) == event_column(events@, c as int));
        if !column_fits(&columns[c]) {
            return false;
        }
        c += 1;
    }
    true
}

/// The events as a batch of rows.
pub fn events_to_record_batch(events: &[ProxyEvent]) -> (batch: Option<EventBatch>)
    requires
        texts_fit(events@),
    ensures
        batch matches Some(batch) && batch_table(batch) == Seq::new(
            event_columns().len(),
            |c: int| (event_columns()[c], event_column(events@, c)),
        ),
{
    let schema = parquet_schema();
    let data = events_to_columns(events);
    proof {
        assert forall|c: int| 0 <= c < data.len() implies {
            let cells = column_cells(#[trigger] data@[c]);
            &&& data@[c].kind() == event_columns()[c].kind
            &&& cells.len() == column_cells(data@[0]).len()
            &&& text_bytes(cells) <= i32::MAX
            &&& !event_columns()[c].nullable ==> forall|i: int|
                0 <= i < cells.len() ==> !(#[trigger] cells[i]).is_empty()
        } by {
            assert(column_cells(data@[0]) == event_column(events@, 0));
            let cells = column_cells(data@[c]);
            assert(cells == event_column(events@, c));
            if !event_columns()[c].nullable {
                assert forall|i: int| 0 <= i < cells.len() implies !(#[trigger] cells[i]).is_empty() by {
                    events_fit_the_columns(events@[i], c);
                }
            }
        }
    }
    let batch = record_batch(schema, &data);
    assert(Seq::new(
        data@.len(),
        |c: int| (schema_columns(schema)[c], column_cells(data@[c])),
    ) =~= Seq::new(
        event_columns().len(),
        |c: int| (event_columns()[c], event_column(events@, c)),
    ));
    batch
}

/// The first columns of an event file hold what their names say: who asked whom, and what the
/// request was.
pub proof fn events_are_filed_under_their_names(event: ProxyEvent)
    ensures
        event_columns()[0] == col("event_id"@, ColumnKind::Text, false) && event_cells(event)[0] == Cell::Text(Some(event.event_id@)),
        event_columns()[1] == col("connection_id"@, ColumnKind::Text, false) && event_cells(event)[1] == Cell::Text(Some(event.connection_id@)),
        event_columns()[2] == col("request_start_ts"@, ColumnKind::Millis, false) && event_cells(event)[2] == Cell::Millis(Some(stored_ms(event.request_start_ts as int))),
        event_columns()[3] == col("request_end_ts"@, ColumnKind::Millis, false) && event_cells(event)[3] == Cell::Millis(Some(stored_ms(event.request_end_ts as int))),
        event_columns()[4] == col("duration_ms"@, ColumnKind::Int64, false) && event_cells(event)[4] == Cell::Int64(Some(event.duration_ms)),
        event_columns()[5] == col("client_ip"@, ColumnKind::Text, true) && event_cells(event)[5] == Cell::Text(opt_text(event.client_ip)),
        event_columns()[6] == col("client_port"@, ColumnKind::UInt16, true) && event_cells(event)[6] == Cell::UInt16(event.client_port),
        event_columns()[7] == col("proxy_local_ip"@, ColumnKind::Text, true) && event_cells(event)[7] == Cell::Text(opt_text(event.proxy_local_ip)),
        event_columns()[8] == col("proxy_local_port"@, ColumnKind::UInt16, true) && event_cells(event)[8] == Cell::UInt16(event.proxy_local_port),
        event_columns()[9] == col("frontend_server_name"@, ColumnKind::Text, true) && event_cells(event)[9] == Cell::Text(opt_text(event.frontend_server_name)),
        event_columns()[10] == col("frontend_http_version"@, ColumnKind::Text, true) && event_cells(event)[10] == Cell::Text(opt_text(event.frontend_http_version)),
        event_columns()[11] == col("frontend_scheme"@, ColumnKind::Text, false) && event_cells(event)[11] == Cell::Text(Some(event.frontend_scheme@)),
        event_columns()[12] == col("backend_url"@, ColumnKind::Text, false) && event_cells(event)[12] == Cell::Text(Some(event.backend_url@)),
        event_columns()[13] == col("backend_host"@, ColumnKind::Text, false) && event_cells(event)[13] == Cell::Text(Some(event.backend_host@)),
        event_columns()[14] == col("backend_ip"@, ColumnKind::Text, true) && event_cells(event)[14] == Cell::Text(opt_text(event.backend_ip)),
        event_columns()[15] == col("backend_port"@, ColumnKind::UInt16, true) && event_cells(event)[15] == Cell::UInt16(event.backend_port),
        event_columns()[16] == col("backend_http_version"@, ColumnKind::Text, true) && event_cells(event)[16] == Cell::Text(opt_text(event.backend_http_version)),
        event_columns()[17] == col("upstream_connection_reused"@, ColumnKind::Boolean, true) && event_cells(event)[17] == Cell::Boolean(event.upstream_connection_reused),
        event_columns()[18] == col("method"@, ColumnKind::Text, false) && event_cells(event)[18] == Cell::Text(Some(event.method@)),
        event_columns()[19] == col("authority"@, ColumnKind::Text, true) && event_cells(event)[19] == Cell::Text(opt_text(event.authority)),
        event_columns()[20] == col("path"@, ColumnKind::Text, false) && event_cells(event)[20] == Cell::Text(Some(event.path@)),
        event_columns()[21] == col("query"@, ColumnKind::Text, true) && event_cells(event)[21] == Cell::Text(opt_text(event.query)),
        event_columns()[22] == col("request_headers_json"@, ColumnKind::Text, false) && event_cells(event)[22] == Cell::Text(Some(event.request_headers_json@)),
        event_columns()[23] == col("request_cookie_header"@, ColumnKind::Text, true) && event_cells(event)[23] == Cell::Text(opt_text(event.request_cookie_header)),
        event_columns()[24] == col("request_cookies_json"@, ColumnKind::Text, true) && event_cells(event)[24] == Cell::Text(opt_text(event.request_cookies_json)),
        event_columns()[25] == col("request_content_length"@, ColumnKind::Int64, true) && event_cells(event)[25] == Cell::Int64(event.request_content_length),
        event_columns()[26] == col("request_transfer_encoding"@, ColumnKind::Text, true) && event_cells(event)[26] == Cell::Text(opt_text(event.request_transfer_encoding)),
        event_columns()[27] == col("request_content_type"@, ColumnKind::Text, true) && event_cells(event)[27] == Cell::Text(opt_text(event.request_content_type)),
        event_columns()[28] == col("request_body_sha256"@, ColumnKind::Text, true) && event_cells(event)[28] == Cell::Text(opt_text(event.request_body_sha256)),
        event_columns()[29] == col("request_body_preview_base64"@, ColumnKind::Text, true) && event_cells(event)[29] == Cell::Text(opt_text(event.request_body_preview_base64)),
        event_columns()[30] == col("request_body_truncated"@, ColumnKind::Boolean, true) && event_cells(event)[30] == Cell::Boolean(event.request_body_truncated),
        event_columns()[31] == col("status_code"@, ColumnKind::UInt16, true) && event_cells(event)[31] == Cell::UInt16(event.status_code),
        event_columns()[32] == col("reason_phrase"@, ColumnKind::Text, true) && event_cells(event)[32] == Cell::Text(opt_text(event.reason_phrase)),
        event_columns().len() == 65,
        event_cells(event).len() == 65,
{
}

/// The other columns of an event file hold what their names say: what the response was, over which
/// connection it came, how long it took, and how the exchange ended.
pub proof fn responses_are_filed_under_their_names(event: ProxyEvent)
    ensures
        event_columns()[33] == col("response_headers_json"@, ColumnKind::Text, true) && event_cells(event)[33] == Cell::Text(opt_text(event.response_headers_json)),
        event_columns()[34] == col("response_set_cookie_json"@, ColumnKind::Text, true) && event_cells(event)[34] == Cell::Text(opt_text(event.response_set_cookie_json)),
        event_columns()[35] == col("response_content_length"@, ColumnKind::Int64, true) && event_cells(event)[35] == Cell::Int64(event.response_content_length),
        event_columns()[36] == col("response_transfer_encoding"@, ColumnKind::Text, true) && event_cells(event)[36] == Cell::Text(opt_text(event.response_transfer_encoding)),
        event_columns()[37] == col("response_content_type"@, ColumnKind::Text, true) && event_cells(event)[37] == Cell::Text(opt_text(event.response_content_type)),
        event_columns()[38] == col("response_content_encoding"@, ColumnKind::Text, true) && event_cells(event)[38] == Cell::Text(opt_text(event.response_content_encoding)),
        event_columns()[39] == col("response_body_sha256"@, ColumnKind::Text, true) && event_cells(event)[39] == Cell::Text(opt_text(event.response_body_sha256)),
        event_columns()[40] == col("response_body_preview_base64"@, ColumnKind::Text, true) && event_cells(event)[40] == Cell::Text(opt_text(event.response_body_preview_base64)),
        event_columns()[41] == col("response_body_truncated"@, ColumnKind::Boolean, true) && event_cells(event)[41] == Cell::Boolean(event.response_body_truncated),
        event_columns()[42] == col("frontend_tls_version"@, ColumnKind::Text, true) && event_cells(event)[42] == Cell::Text(opt_text(event.frontend_tls_version)),
        event_columns()[43] == col("frontend_tls_cipher_suite"@, ColumnKind::Text, true) && event_cells(event)[43] == Cell::Text(opt_text(event.frontend_tls_cipher_suite)),
        event_columns()[44] == col("frontend_tls_alpn"@, ColumnKind::Text, true) && event_cells(event)[44] == Cell::Text(opt_text(event.frontend_tls_alpn)),
        event_columns()[45] == col("frontend_tls_sni"@, ColumnKind::Text, true) && event_cells(event)[45] == Cell::Text(opt_text(event.frontend_tls_sni)),
        event_columns()[46] == col("frontend_tls_ja3"@, ColumnKind::Text, true) && event_cells(event)[46] == Cell::Text(opt_text(event.frontend_tls_ja3)),
        event_columns()[47] == col("frontend_tls_ja4"@, ColumnKind::Text, true) && event_cells(event)[47] == Cell::Text(opt_text(event.frontend_tls_ja4)),
        event_columns()[48] == col("backend_tls_version"@, ColumnKind::Text, true) && event_cells(event)[48] == Cell::Text(opt_text(event.backend_tls_version)),
        event_columns()[49] == col("backend_tls_cipher_suite"@, ColumnKind::Text, true) && event_cells(event)[49] == Cell::Text(opt_text(event.backend_tls_cipher_suite)),
        event_columns()[50] == col("backend_tls_alpn"@, ColumnKind::Text, true) && event_cells(event)[50] == Cell::Text(opt_text(event.backend_tls_alpn)),
        event_columns()[51] == col("backend_tls_sni"@, ColumnKind::Text, true) && event_cells(event)[51] == Cell::Text(opt_text(event.backend_tls_sni)),
        event_columns()[52] == col("backend_cert_leaf_sha256"@, ColumnKind::Text, true) && event_cells(event)[52] == Cell::Text(opt_text(event.backend_cert_leaf_sha256)),
        event_columns()[53] == col("backend_cert_subject"@, ColumnKind::Text, true) && event_cells(event)[53] == Cell::Text(opt_text(event.backend_cert_subject)),
        event_columns()[54] == col("backend_cert_issuer"@, ColumnKind::Text, true) && event_cells(event)[54] == Cell::Text(opt_text(event.backend_cert_issuer)),
        event_columns()[55] == col("backend_cert_not_before"@, ColumnKind::Millis, true) && event_cells(event)[55] == Cell::Millis(opt_stored_ms(event.backend_cert_not_before)),
        event_columns()[56] == col("backend_cert_not_after"@, ColumnKind::Millis, true) && event_cells(event)[56] == Cell::Millis(opt_stored_ms(event.backend_cert_not_after)),
        event_columns()[57] == col("dns_duration_ms"@, ColumnKind::Int64, true) && event_cells(event)[57] == Cell::Int64(event.dns_duration_ms),
        event_columns()[58] == col("connect_duration_ms"@, ColumnKind::Int64, true) && event_cells(event)[58] == Cell::Int64(event.connect_duration_ms),
        event_columns()[59] == col("tls_handshake_duration_ms"@, ColumnKind::Int64, true) && event_cells(event)[59] == Cell::Int64(event.tls_handshake_duration_ms),
        event_columns()[60] == col("upstream_first_byte_ms"@, ColumnKind::Int64, true) && event_cells(event)[60] == Cell::Int64(event.upstream_first_byte_ms),
        event_columns()[61] == col("response_stream_duration_ms"@, ColumnKind::Int64, true) && event_cells(event)[61] == Cell::Int64(event.response_stream_duration_ms),
        event_columns()[62] == col("error_kind"@, ColumnKind::Text, true) && event_cells(event)[62] == Cell::Text(
            match event.error_kind {
                Some(kind) => Some(kind.tag()),
                None => None,
            },
        ),
        event_columns()[63] == col("error_text"@, ColumnKind::Text, true) && event_cells(event)[63] == Cell::Text(opt_text(event.error_text)),
        event_columns()[64] == col("proxy_result"@, ColumnKind::Text, false) && event_cells(event)[64] == Cell::Text(Some(event.proxy_result.tag())),
{
}

/// The columns of a batch hold the cells of its events, row by row.
pub proof fn columns_hold_rows_in_their_order(events: Seq<ProxyEvent>, column: int, row: int)
    requires
        0 <= row < events.len(),
        0 <= column < event_columns().len(),
    ensures
        event_column(events, column).len() == events.len(),
        event_column(events, column)[row] == event_cells(events[row])[column],
{
}

/// Optional points in time are held where there are any.
pub proof fn optional_times_are_held(nanos: i128)
    ensures
        opt_stored_ms(None) is None,
        opt_stored_ms(Some(nanos)) == Some(stored_ms(nanos as int)),
        0 <= nanos <= i64::MAX ==> stored_ms(nanos as int) == nanos / 1_000_000,
{
}

/// Cells are taken for what they hold, in rows and in columns.
pub proof fn cells_are_what_they_hold(
    text: Option<String>,
    number: Option<i64>,
    small: Option<u16>,
    flag: Option<bool>,
    row: Seq<CellValue>,
    i: int,
)
    ensures
        CellValue::Text(text)@ == Cell::Text(opt_text(text)),
        number is None ==> CellValue::Millis(number)@ == Cell::Millis(None),
        number matches Some(ms) ==> CellValue::Millis(number)@ == Cell::Millis(Some(ms as int)),
        CellValue::Int64(number)@ == Cell::Int64(number),
        CellValue::UInt16(small)@ == Cell::UInt16(small),
        CellValue::Boolean(flag)@ == Cell::Boolean(flag),
        row_view(row).len() == row.len(),
        0 <= i < row.len() ==> row_view(row)[i] == row[i]@,
{
}

/// Columns that hold events have a cell for each of them: that of the event in the column.
pub proof fn columns_hold_a_cell_for_each_event(
    columns: Seq<ColumnData>,
    events: Seq<ProxyEvent>,
    c: int,
    r: int,
)
    requires
        columns_hold(columns, events),
        0 <= c < columns.len(),
        0 <= r < events.len(),
    ensures
        columns.len() == event_columns().len(),
        columns[c].kind() == event_columns()[c].kind,
        column_cells(columns[c]).len() == events.len(),
        column_cells(columns[c])[r] == event_cells(events[r])[c],
{
}

/// The cells of a column are those that it lists.
pub proof fn columns_list_their_cells(
    texts: Vec<Option<String>>,
    times: Vec<Option<i64>>,
    numbers: Vec<Option<i64>>,
    smalls: Vec<Option<u16>>,
    flags: Vec<Option<bool>>,
    i: int,
)
    requires
        0 <= i,
    ensures
        i < texts@.len() ==> column_cells(ColumnData::Text(texts))[i] == Cell::Text(
            opt_text(texts@[i]),
        ),
        i < times@.len() && times@[i] is Some ==> column_cells(ColumnData::Millis(times))[i]
            == Cell::Millis(Some(times@[i]->0 as int)),
        i < numbers@.len() ==> column_cells(ColumnData::Int64(numbers))[i] == Cell::Int64(
            numbers@[i],
        ),
        i < smalls@.len() ==> column_cells(ColumnData::UInt16(smalls))[i] == Cell::UInt16(
            smalls@[i],
        ),
        i < flags@.len() ==> column_cells(ColumnData::Boolean(flags))[i] == Cell::Boolean(
            flags@[i],
        ),
{
}

} // verus!
