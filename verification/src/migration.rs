//! The table of events in the SQLite database: its name, its columns and its rows.
use crate::clock::{rfc3339_text, write_rfc3339};
use crate::event::ProxyEvent;
use crate::schema::{event_cells, event_columns, event_row, row_view, Cell, CellValue, ColumnKind};
use crate::text::{copy_text, opt_text};
use vstd::prelude::*;

verus! {

/// The type of a column in the database.
#[derive(Debug, Clone, Copy, PartialEq, Eq, Structural)]
pub enum SqlType {
    Varchar,
    Text,
    Integer,
    BigInteger,
    Boolean,
}

/// A column in the database.
#[derive(Debug, Clone)]
pub struct SqlColumn {
    pub name: String,
    pub sql_type: SqlType,
    pub nullable: bool,
    pub primary_key: bool,
}

/// What a `SqlColumn` says.
pub ghost struct SqlColumnView {
    pub name: Seq<char>,
    pub sql_type: SqlType,
    pub nullable: bool,
    pub primary_key: bool,
}

impl View for SqlColumn {
    type V = SqlColumnView;

    open spec fn view(&self) -> SqlColumnView {
        SqlColumnView {
            name: self.name@,
            sql_type: self.sql_type,
            nullable: self.nullable,
            primary_key: self.primary_key,
        }
    }
}

/// A column that is not the primary key.
pub open spec fn plain(name: Seq<char>, sql_type: SqlType, nullable: bool) -> SqlColumnView {
    SqlColumnView { name, sql_type, nullable, primary_key: false }
}

/// The columns of the table of events, in order.
pub open spec fn event_table() -> Seq<SqlColumnView> {
    seq![
        SqlColumnView {
            name: "event_id"@,
            sql_type: SqlType::Varchar,
            nullable: false,
            primary_key: true,
        },
        plain("connection_id"@, SqlType::Varchar, false),
        plain("request_start_ts"@, SqlType::Varchar, false),
        plain("request_end_ts"@, SqlType::Varchar, false),
        plain("duration_ms"@, SqlType::BigInteger, false),
        plain("client_ip"@, SqlType::Varchar, true),
        plain("client_port"@, SqlType::Integer, true),
        plain("proxy_local_ip"@, SqlType::Varchar, true),
        plain("proxy_local_port"@, SqlType::Integer, true),
        plain("frontend_server_name"@, SqlType::Varchar, true),
        plain("frontend_http_version"@, SqlType::Varchar, true),
        plain("frontend_scheme"@, SqlType::Varchar, false),
        plain("backend_url"@, SqlType::Varchar, false),
        plain("backend_host"@, SqlType::Varchar, false),
        plain("backend_ip"@, SqlType::Varchar, true),
        plain("backend_port"@, SqlType::Integer, true),
        plain("backend_http_version"@, SqlType::Varchar, true),
        plain("upstream_connection_reused"@, SqlType::Boolean, true),
        plain("method"@, SqlType::Varchar, false),
        plain("authority"@, SqlType::Varchar, true),
        plain("path"@, SqlType::Varchar, false),
        plain("query"@, SqlType::Varchar, true),
        plain("request_headers_json"@, SqlType::Text, false),
        plain("request_cookie_header"@, SqlType::Text, true),
        plain("request_cookies_json"@, SqlType::Text, true),
        plain("request_content_length"@, SqlType::BigInteger, true),
        plain("request_transfer_encoding"@, SqlType::Varchar, true),
        plain("request_content_type"@, SqlType::Varchar, true),
        plain("request_body_sha256"@, SqlType::Varchar, true),
        plain("request_body_preview_base64"@, SqlType::Text, true),
        plain("request_body_truncated"@, SqlType::Boolean, true),
        plain("status_code"@, SqlType::Integer, true),
        plain("reason_phrase"@, SqlType::Varchar, true),
        plain("response_headers_json"@, SqlType::Text, true),
        plain("response_set_cookie_json"@, SqlType::Text, true),
        plain("response_content_length"@, SqlType::BigInteger, true),
        plain("response_transfer_encoding"@, SqlType::Varchar, true),
        plain("response_content_type"@, SqlType::Varchar, true),
        plain("response_content_encoding"@, SqlType::Varchar, true),
        plain("response_body_sha256"@, SqlType::Varchar, true),
        plain("response_body_preview_base64"@, SqlType::Text, true),
        plain("response_body_truncated"@, SqlType::Boolean, true),
        plain("frontend_tls_version"@, SqlType::Varchar, true),
        plain("frontend_tls_cipher_suite"@, SqlType::Varchar, true),
        plain("frontend_tls_alpn"@, SqlType::Varchar, true),
        plain("frontend_tls_sni"@, SqlType::Varchar, true),
        plain("frontend_tls_ja3"@, SqlType::Varchar, true),
        plain("frontend_tls_ja4"@, SqlType::Varchar, true),
        plain("backend_tls_version"@, SqlType::Varchar, true),
        plain("backend_tls_cipher_suite"@, SqlType::Varchar, true),
        plain("backend_tls_alpn"@, SqlType::Varchar, true),
        plain("backend_tls_sni"@, SqlType::Varchar, true),
        plain("backend_cert_leaf_sha256"@, SqlType::Varchar, true),
        plain("backend_cert_subject"@, SqlType::Text, true),
        plain("backend_cert_issuer"@, SqlType::Text, true),
        plain("backend_cert_not_before"@, SqlType::Varchar, true),
        plain("backend_cert_not_after"@, SqlType::Varchar, true),
        plain("dns_duration_ms"@, SqlType::BigInteger, true),
        plain("connect_duration_ms"@, SqlType::BigInteger, true),
        plain("tls_handshake_duration_ms"@, SqlType::BigInteger, true),
        plain("upstream_first_byte_ms"@, SqlType::BigInteger, true),
        plain("response_stream_duration_ms"@, SqlType::BigInteger, true),
        plain("error_kind"@, SqlType::Varchar, true),
        plain("error_text"@, SqlType::Text, true),
        plain("proxy_result"@, SqlType::Varchar, false),
    ]
}

/// The name of the table of events.
pub fn event_table_name() -> (name: String)
    ensures
        name@ == "proxy_events"@,
{
    "proxy_events".to_owned()
}

/// A column that is not the primary key.
fn plain_column(name: &str, sql_type: SqlType, nullable: bool) -> (column: SqlColumn)
    ensures
        column@ == plain(name@, sql_type, nullable),
{
    SqlColumn { name: name.to_owned(), sql_type, nullable, primary_key: false }
}

/// The columns that a list shows.
pub open spec fn sql_views(columns: Seq<SqlColumn>) -> Seq<SqlColumnView> {
    columns.map_values(|column: SqlColumn| column@)
}

/// A table to be created in the database.
#[derive(Debug, Clone)]
pub struct SqlTable {
    pub name: String,
    /// Whether a table of that name that is there already is left as it is.
    pub if_not_exists: bool,
    pub columns: Vec<SqlColumn>,
}

/// The step that creates the table of events.
#[derive(Debug, Clone, Copy)]
pub struct CreateProxyEvents;

impl CreateProxyEvents {
    /// The table of events, which is created unless it is there.
    pub fn up() -> (table: SqlTable)
        ensures
            table.name@ == "proxy_events"@,
            table.if_not_exists,
            sql_views(table.columns@) == event_table(),
    {
        let columns: Vec<SqlColumn> = vec![
            SqlColumn {
                name: "event_id".to_owned(),
                sql_type: SqlType::Varchar,
                nullable: false,
                primary_key: true,
            },
            plain_column("connection_id", SqlType::Varchar, false),
            plain_column("request_start_ts", SqlType::Varchar, false),
            plain_column("request_end_ts", SqlType::Varchar, false),
            plain_column("duration_ms", SqlType::BigInteger, false),
            plain_column("client_ip", SqlType::Varchar, true),
            plain_column("client_port", SqlType::Integer, true),
            plain_column("proxy_local_ip", SqlType::Varchar, true),
            plain_column("proxy_local_port", SqlType::Integer, true),
            plain_column("frontend_server_name", SqlType::Varchar, true),
            plain_column("frontend_http_version", SqlType::Varchar, true),
            plain_column("frontend_scheme", SqlType::Varchar, false),
            plain_column("backend_url", SqlType::Varchar, false),
            plain_column("backend_host", SqlType::Varchar, false),
            plain_column("backend_ip", SqlType::Varchar, true),
            plain_column("backend_port", SqlType::Integer, true),
            plain_column("backend_http_version", SqlType::Varchar, true),
            plain_column("upstream_connection_reused", SqlType::Boolean, true),
            plain_column("method", SqlType::Varchar, false),
            plain_column("authority", SqlType::Varchar, true),
            plain_column("path", SqlType::Varchar, false),
            plain_column("query", SqlType::Varchar, true),
            plain_column("request_headers_json", SqlType::Text, false),
            plain_column("request_cookie_header", SqlType::Text, true),
            plain_column("request_cookies_json", SqlType::Text, true),
            plain_column("request_content_length", SqlType::BigInteger, true),
            plain_column("request_transfer_encoding", SqlType::Varchar, true),
            plain_column("request_content_type", SqlType::Varchar, true),
            plain_column("request_body_sha256", SqlType::Varchar, true),
            plain_column("request_body_preview_base64", SqlType::Text, true),
            plain_column("request_body_truncated", SqlType::Boolean, true),
            plain_column("status_code", SqlType::Integer, true),
            plain_column("reason_phrase", SqlType::Varchar, true),
            plain_column("response_headers_json", SqlType::Text, true),
            plain_column("response_set_cookie_json", SqlType::Text, true),
            plain_column("response_content_length", SqlType::BigInteger, true),
            plain_column("response_transfer_encoding", SqlType::Varchar, true),
            plain_column("response_content_type", SqlType::Varchar, true),
            plain_column("response_content_encoding", SqlType::Varchar, true),
            plain_column("response_body_sha256", SqlType::Varchar, true),
            plain_column("response_body_preview_base64", SqlType::Text, true),
            plain_column("response_body_truncated", SqlType::Boolean, true),
            plain_column("frontend_tls_version", SqlType::Varchar, true),
            plain_column("frontend_tls_cipher_suite", SqlType::Varchar, true),
            plain_column("frontend_tls_alpn", SqlType::Varchar, true),
            plain_column("frontend_tls_sni", SqlType::Varchar, true),
            plain_column("frontend_tls_ja3", SqlType::Varchar, true),
            plain_column("frontend_tls_ja4", SqlType::Varchar, true),
            plain_column("backend_tls_version", SqlType::Varchar, true),
            plain_column("backend_tls_cipher_suite", SqlType::Varchar, true),
            plain_column("backend_tls_alpn", SqlType::Varchar, true),
            plain_column("backend_tls_sni", SqlType::Varchar, true),
            plain_column("backend_cert_leaf_sha256", SqlType::Varchar, true),
            plain_column("backend_cert_subject", SqlType::Text, true),
            plain_column("backend_cert_issuer", SqlType::Text, true),
            plain_column("backend_cert_not_before", SqlType::Varchar, true),
            plain_column("backend_cert_not_after", SqlType::Varchar, true),
            plain_column("dns_duration_ms", SqlType::BigInteger, true),
            plain_column("connect_duration_ms", SqlType::BigInteger, true),
            plain_column("tls_handshake_duration_ms", SqlType::BigInteger, true),
            plain_column("upstream_first_byte_ms", SqlType::BigInteger, true),
            plain_column("response_stream_duration_ms", SqlType::BigInteger, true),
            plain_column("error_kind", SqlType::Varchar, true),
            plain_column("error_text", SqlType::Text, true),
            plain_column("proxy_result", SqlType::Varchar, false),
        ];
        assert(sql_views(columns@) =~= event_table());
        SqlTable { name: event_table_name(), if_not_exists: true, columns }
    }
}

/// Whether a column of the database can hold what a column of the event files holds. Points in
/// time are written as texts.
pub open spec fn holds_kind(sql_type: SqlType, kind: ColumnKind) -> bool {
    match kind {
        ColumnKind::Text => sql_type == SqlType::Varchar || sql_type == SqlType::Text,
        ColumnKind::Millis => sql_type == SqlType::Varchar,
        ColumnKind::Int64 => sql_type == SqlType::BigInteger,
        ColumnKind::UInt16 => sql_type == SqlType::Integer,
        ColumnKind::Boolean => sql_type == SqlType::Boolean,
    }
}

/// The database and the event files have the same columns: the same names in the same order, the
/// same nullability, and types that correspond.
pub proof fn database_and_files_have_the_same_columns(i: int)
    requires
        0 <= i < event_table().len(),
    ensures
        event_table().len() == event_columns().len(),
        event_table()[i].name == event_columns()[i].name,
        event_table()[i].nullable == event_columns()[i].nullable,
        holds_kind(event_table()[i].sql_type, event_columns()[i].kind),
{
}

/// The primary key of the table of events is the event's identifier, which is never empty, and
/// nothing else is.
pub proof fn event_id_is_the_primary_key(i: int)
    requires
        0 <= i < event_table().len(),
    ensures
        event_table()[i].primary_key <==> i == 0,
        event_table()[0].name == "event_id"@,
        !event_table()[0].nullable,
{
}

// ---------------------------------------------------------------------------
// Rows
// ---------------------------------------------------------------------------

/// A cell of a row in the database.
#[derive(Debug, Clone, PartialEq, Eq)]
pub enum SqlCell {
    Text(Option<String>),
    Integer(Option<i32>),
    BigInteger(Option<i64>),
    Boolean(Option<bool>),
}

/// What a `SqlCell` holds.
pub ghost enum SqlCellView {
    Text(Option<Seq<char>>),
    Integer(Option<i32>),
    BigInteger(Option<i64>),
    Boolean(Option<bool>),
}

impl View for SqlCell {
    type V = SqlCellView;

    open spec fn view(&self) -> SqlCellView {
        match *self {
            SqlCell::Text(value) => SqlCellView::Text(opt_text(value)),
            SqlCell::Integer(value) => SqlCellView::Integer(value),
            SqlCell::BigInteger(value) => SqlCellView::BigInteger(value),
            SqlCell::Boolean(value) => SqlCellView::Boolean(value),
        }
    }
}

impl SqlCellView {
    /// Whether a column of a type can hold the cell.
    pub open spec fn fits(self, sql_type: SqlType) -> bool {
        match self {
            SqlCellView::Text(_) => sql_type == SqlType::Varchar || sql_type == SqlType::Text,
            SqlCellView::Integer(_) => sql_type == SqlType::Integer,
            SqlCellView::BigInteger(_) => sql_type == SqlType::BigInteger,
            SqlCellView::Boolean(_) => sql_type == SqlType::Boolean,
        }
    }

    /// Whether the cell holds nothing.
    pub open spec fn is_null(self) -> bool {
        match self {
            SqlCellView::Text(value) => value is None,
            SqlCellView::Integer(value) => value is None,
            SqlCellView::BigInteger(value) => value is None,
            SqlCellView::Boolean(value) => value is None,
        }
    }
}

/// The point in time, in nanoseconds, that an event has for a column of the database.
pub open spec fn event_time(event: ProxyEvent, column: int) -> Option<i128> {
    if column == 2 {
        Some(event.request_start_ts)
    } else if column == 3 {
        Some(event.request_end_ts)
    } else if column == 55 {
        event.backend_cert_not_before
    } else if column == 56 {
        event.backend_cert_not_after
    } else {
        None
    }
}

/// Whether a point in time, where there is one, can be written as a text.
pub open spec fn is_writable(nanos: Option<i128>) -> bool {
    nanos matches Some(nanos) ==> rfc3339_text(nanos) is Some
}

/// The text of a point in time, where there is one.
pub open spec fn time_text(nanos: Option<i128>) -> Option<Seq<char>> {
    match nanos {
        Some(nanos) => rfc3339_text(nanos),
        None => None,
    }
}

/// A cell of an event as the database holds it: points in time as texts, small numbers as wider
/// ones.
pub open spec fn sql_cell(cell: Cell, nanos: Option<i128>) -> SqlCellView {
    match cell {
        Cell::Text(value) => SqlCellView::Text(value),
        Cell::Millis(_) => SqlCellView::Text(time_text(nanos)),
        Cell::Int64(value) => SqlCellView::BigInteger(value),
        Cell::UInt16(value) => SqlCellView::Integer(
            match value {
                Some(value) => Some(value as i32),
                None => None,
            },
        ),
        Cell::Boolean(value) => SqlCellView::Boolean(value),
    }
}

/// Whether the points in time of an event can all be written as texts.
pub open spec fn times_are_writable(event: ProxyEvent) -> bool {
    forall|i: int| is_writable(#[trigger] event_time(event, i))
}

/// The text of a point in time, where there is one; nothing where it cannot be written.
fn write_time(nanos: Option<i128>) -> (text: Option<Option<String>>)
    ensures
        match text {
            Some(text) => is_writable(nanos) && opt_text(text) == time_text(nanos),
            None => !is_writable(nanos),
        },
{
    match nanos {
        Some(nanos) => match write_rfc3339(nanos) {
            Some(text) => Some(Some(text)),
            None => None,
        },
        None => Some(None),
    }
}

/// The point in time that an event has for a column.
fn time_of(event: &ProxyEvent, column: usize) -> (nanos: Option<i128>)
    ensures
        nanos == event_time(*event, column as int),
{
    if column == 2 {
        Some(event.request_start_ts)
    } else if column == 3 {
        Some(event.request_end_ts)
    } else if column == 55 {
        event.backend_cert_not_before
    } else if column == 56 {
        event.backend_cert_not_after
    } else {
        None
    }
}

/// A cell of an event as the database holds it; nothing where a point in time cannot be written.
fn sql_cell_of(cell: &CellValue, nanos: Option<i128>) -> (result: Option<SqlCell>)
    ensures
        match result {
            Some(result) => is_writable(nanos) && result@ == sql_cell(cell@, nanos),
            None => !is_writable(nanos),
        },
{
    let time = match write_time(nanos) {
        Some(time) => time,
        None => {
            return None;
        },
    };
    Some(
        match cell {
            CellValue::Text(value) => SqlCell::Text(copy_text(value)),
            CellValue::Millis(_) => SqlCell::Text(time),
            CellValue::Int64(value) => SqlCell::BigInteger(*value),
            CellValue::UInt16(value) => SqlCell::Integer(
                match value {
                    Some(value) => Some(*value as i32),
                    None => None,
                },
            ),
            CellValue::Boolean(value) => SqlCell::Boolean(*value),
        },
    )
}

/// The row that an event makes in the database, in the order of the columns: each point in time is
/// the text of its nanoseconds. There is none where one of them cannot be written as a text.
pub fn sql_row(event: &ProxyEvent) -> (row: Option<Vec<SqlCell>>)
    ensures
        match row {
            Some(row) => {
                &&& times_are_writable(*event)
                &&& row@.len() == event_cells(*event).len()
                &&& forall|i: int|
                    0 <= i < row@.len() ==> (#[trigger] row@[i])@ == sql_cell(
                        event_cells(*event)[i],
                        event_time(*event, i),
                    )
            },
            None => !times_are_writable(*event),
        },
{
    let cells = event_row(event);
    let ghost held = event_cells(*event);
    assert(cells@.len() == row_view(cells@).len());
    let mut row: Vec<SqlCell> = Vec::new();
    let mut i: usize = 0;
    while i < cells.len()
        invariant
            i <= cells.len(),
            row@.len() == i,
            row_view(cells@) == held,
            forall|j: int| 0 <= j < i ==> is_writable(#[trigger] event_time(*event, j)),
            forall|j: int|
                0 <= j < i ==> (#[trigger] row@[j])@ == sql_cell(held[j], event_time(*event, j)),
        decreases cells.len() - i,
    {
        assert(held[i as int] == cells@[i as int]@);
        match sql_cell_of(&cells[i], time_of(event, i)) {
            Some(cell) => {
                row.push(cell);
            },
            None => {
                return None;
            },
        }
        i += 1;
    }
    Some(row)
}

/// The columns of the database with points in time in them are those that the event files hold
/// points in time in, and the rows of events fit the columns: as many cells, of the right types, and
/// none empty that may not be.
pub proof fn rows_fit_the_columns(event: ProxyEvent, i: int)
    requires
        0 <= i < event_table().len(),
        times_are_writable(event),
    ensures
        event_cells(event).len() == event_table().len(),
        ({
            let cell = sql_cell(event_cells(event)[i], event_time(event, i));
            &&& cell.fits(event_table()[i].sql_type)
            &&& cell.is_null() ==> event_table()[i].nullable
            &&& event_cells(event)[i] is Millis ==> cell == SqlCellView::Text(
                time_text(event_time(event, i)),
            )
            &&& event_time(event, i) is Some ==> event_cells(event)[i] is Millis
        }),
{
    assert(is_writable(event_time(event, i)));
}

/// Points in time are held as their texts, small numbers and large ones as numbers, texts and flags
/// as they are.
pub proof fn cells_are_held_as_they_are(
    text: Option<Seq<char>>,
    ms: Option<int>,
    large: Option<i64>,
    small: u16,
    flag: Option<bool>,
    nanos: i128,
)
    ensures
        sql_cell(Cell::Text(text), None) == SqlCellView::Text(text),
        sql_cell(Cell::Millis(ms), Some(nanos)) == SqlCellView::Text(rfc3339_text(nanos)),
        sql_cell(Cell::Millis(ms), None) == SqlCellView::Text(None),
        sql_cell(Cell::Int64(large), None) == SqlCellView::BigInteger(large),
        sql_cell(Cell::UInt16(Some(small)), None) == SqlCellView::Integer(Some(small as i32)),
        sql_cell(Cell::UInt16(None), None) == SqlCellView::Integer(None),
        sql_cell(Cell::Boolean(flag), None) == SqlCellView::Boolean(flag),
{
}

/// The points in time of an event stand in the columns that are named for them.
pub proof fn times_stand_in_their_columns(event: ProxyEvent, i: int)
    ensures
        event_table()[2].name == "request_start_ts"@ && event_time(event, 2) == Some(
            event.request_start_ts,
        ),
        event_table()[3].name == "request_end_ts"@ && event_time(event, 3) == Some(
            event.request_end_ts,
        ),
        event_table()[55].name == "backend_cert_not_before"@ && event_time(event, 55)
            == event.backend_cert_not_before,
        event_table()[56].name == "backend_cert_not_after"@ && event_time(event, 56)
            == event.backend_cert_not_after,
        i != 2 && i != 3 && i != 55 && i != 56 ==> event_time(event, i) is None,
        times_are_writable(event) <==> {
            &&& rfc3339_text(event.request_start_ts) is Some
            &&& rfc3339_text(event.request_end_ts) is Some
            &&& event.backend_cert_not_before matches Some(nanos) ==> rfc3339_text(nanos) is Some
            &&& event.backend_cert_not_after matches Some(nanos) ==> rfc3339_text(nanos) is Some
        },
{
    if times_are_writable(event) {
        assert(is_writable(event_time(event, 2)));
        assert(is_writable(event_time(event, 3)));
        assert(is_writable(event_time(event, 55)));
        assert(is_writable(event_time(event, 56)));
    }
}

} // verus!
