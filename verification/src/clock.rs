//! Points in time, spans between them, and fresh identifiers.
//!
//! A point in time is a number of nanoseconds since the beginning of 1970, UTC.
use vstd::prelude::*;

verus! {

/// Whether a point in time is one that the calendar covers: within about three million
/// years of 1970.
pub open spec fn in_calendar(nanos: int) -> bool {
    -100_000_000_000_000_000_000_000 <= nanos <= 100_000_000_000_000_000_000_000
}

/// `OffsetDateTime::now_utc` reads the clock; `unix_timestamp_nanos` counts from 1970. Which time
/// it is no one can say beforehand, only that the calendar covers it.
#[verifier::external_body]
pub(crate) fn now() -> (nanos: i128)
    ensures
        in_calendar(nanos as int),
{
    time::OffsetDateTime::now_utc().unix_timestamp_nanos()
}

/// The whole milliseconds in a span of nanoseconds, rounded towards zero.
pub open spec fn whole_ms(nanos: int) -> int {
    if nanos >= 0 {
        nanos / 1_000_000
    } else {
        -(-nanos / 1_000_000)
    }
}

/// The whole milliseconds between two points in time.
pub fn duration_ms_i64(from: i128, to: i128) -> (ms: i64)
    requires
        in_calendar(from as int),
        in_calendar(to as int),
    ensures
        ms == whole_ms(to - from),
{
    let span: i128 = to - from;
    if span >= 0 {
        ((span as u128) / 1_000_000) as i64
    } else {
        let size: u128 = (-span) as u128;
        -((size / 1_000_000) as i64)
    }
}

/// Whether a character is a hexadecimal digit in lower case.
pub open spec fn is_hex_char(c: char) -> bool {
    '0' <= c <= '9' || 'a' <= c <= 'f'
}

/// Whether a text is a random identifier as RFC 9562 writes them: 36 characters, hyphens in
/// four places, version 4, variant 1.
pub open spec fn is_random_id(text: Seq<char>) -> bool {
    &&& text.len() == 36
    &&& forall|i: int|
        0 <= i < 36 ==> if i == 8 || i == 13 || i == 18 || i == 23 {
            #[trigger] text[i] == '-'
        } else {
            is_hex_char(text[i])
        }
    &&& text[14] == '4'
    &&& (text[19] == '8' || text[19] == '9' || text[19] == 'a' || text[19] == 'b')
}

/// `Uuid::new_v4` makes up an identifier. Which one no one can say beforehand, only how it is
/// written.
#[verifier::external_body]
pub(crate) fn fresh_id() -> (text: String)
    ensures
        is_random_id(text@),
{
    uuid::Uuid::new_v4().to_string()
}

/// A span and the same span backwards have the same size.
pub proof fn spans_are_symmetric(nanos: int)
    ensures
        whole_ms(-nanos) == -whole_ms(nanos),
{
}

/// The text of a point in time as RFC 3339 has it, in UTC, where it can be written so.
pub uninterp spec fn rfc3339_text(nanos: i128) -> Option<Seq<char>>;

/// `OffsetDateTime::from_unix_timestamp_nanos` and `format` write a point in time as RFC 3339 has
/// it, in UTC, or refuse one outside of the calendar or of the years that RFC 3339 knows. How it is
/// written is not spelled out here.
#[verifier::external_body]
pub(crate) fn write_rfc3339(nanos: i128) -> (text: Option<String>)
    ensures
        crate::text::opt_text(text) == rfc3339_text(nanos),
{
    let at = time::OffsetDateTime::from_unix_timestamp_nanos(nanos).ok()?;
    at.format(&time::format_description::well_known::Rfc3339).ok()
}

/// A span has as many whole milliseconds as millions of nanoseconds fit in it; what is left over
/// does not count.
pub proof fn spans_count_whole_milliseconds(ms: int, rest: int)
    requires
        ms >= 0,
        0 <= rest < 1_000_000,
    ensures
        whole_ms(ms * 1_000_000 + rest) == ms,
        whole_ms(-(ms * 1_000_000 + rest)) == -ms,
{
}

} // verus!
