//! Timestamps as the operator reads them.

use vstd::prelude::*;

use crate::numerals::{signed_decimal, signed_decimal_text};

verus! {

/// The earliest timestamp that is a date, in milliseconds since the Unix epoch.
pub const FIRST_DATE_MS: i64 = -8_334_601_228_800_000;

/// The latest timestamp that is a date.
pub const LAST_DATE_MS: i64 = 8_210_266_876_799_999;

/// An offset from UTC lies within a day.
pub const DAY_SECS: i32 = 86_400;

/// The offset of the local time zone from UTC at a timestamp, in seconds, which
/// `DateTime::with_timezone(&Local)` finds. There is one exactly for the timestamps that
/// `DateTime::<Utc>::from_timestamp_millis` takes, which are those from [`FIRST_DATE_MS`] to
/// [`LAST_DATE_MS`], and it lies within a day. Which it is depends on the machine.
#[verifier::external_body]
fn local_offset(timestamp_ms: i64) -> (offset_secs: Option<i32>)
    ensures
        offset_secs is Some <==> FIRST_DATE_MS <= timestamp_ms <= LAST_DATE_MS,
        match offset_secs {
            Some(secs) => -DAY_SECS < secs < DAY_SECS,
            None => true,
        },
{
    chrono::DateTime::<chrono::Utc>::from_timestamp_millis(timestamp_ms).map(
        |date| date.with_timezone(&chrono::Local).offset().local_minus_utc(),
    )
}

/// What `DateTime::format` makes of a timestamp in a zone with this offset from UTC.
pub uninterp spec fn date_text(timestamp_ms: i64, offset_secs: i32, format: Seq<char>) -> Seq<char>;

/// `DateTime::format` on a timestamp in the zone `FixedOffset` of this offset from UTC. There is a
/// date exactly from [`FIRST_DATE_MS`] to [`LAST_DATE_MS`], and its text holds the hyphens and colons
/// of the format.
#[verifier::external_body]
fn date_at(timestamp_ms: i64, offset_secs: i32, format: &str) -> (text: Option<String>)
    requires
        -DAY_SECS < offset_secs < DAY_SECS,
        format@ == "%Y-%m-%d %H:%M:%S"@,
    ensures
        text is Some <==> FIRST_DATE_MS <= timestamp_ms <= LAST_DATE_MS,
        match text {
            Some(date) => {
                &&& date@ == date_text(timestamp_ms, offset_secs, format@)
                &&& date@.contains('-')
                &&& date@.contains(':')
            },
            None => true,
        },
{
    let zone = chrono::FixedOffset::east_opt(offset_secs)?;
    chrono::DateTime::<chrono::Utc>::from_timestamp_millis(timestamp_ms).map(
        |date| date.with_timezone(&zone).format(format).to_string(),
    )
}

/// The text of a timestamp: its date where it has one, and else the number.
pub open spec fn timestamp_shown(timestamp_ms: i64, date: Option<Seq<char>>) -> Seq<char> {
    match date {
        Some(text) => text,
        None => signed_decimal(timestamp_ms as int),
    }
}

/// The text of a timestamp, given its date where it has one.
pub fn timestamp_text(timestamp_ms: i64, date: Option<String>) -> (text: String)
    ensures
        text@ == timestamp_shown(
            timestamp_ms,
            match date {
                Some(shown) => Some(shown@),
                None => None,
            },
        ),
{
    match date {
        Some(text) => text,
        None => signed_decimal_text(timestamp_ms),
    }
}

/// The text of a timestamp where the local time is so many seconds ahead of UTC: its date, or its
/// number where it is no date.
pub open spec fn timestamp_text_at(timestamp_ms: i64, offset_secs: i32) -> Seq<char> {
    timestamp_shown(
        timestamp_ms,
        if FIRST_DATE_MS <= timestamp_ms <= LAST_DATE_MS {
            Some(date_text(timestamp_ms, offset_secs, "%Y-%m-%d %H:%M:%S"@))
        } else {
            None
        },
    )
}

/// The text of a timestamp at an offset from UTC.
pub fn format_timestamp_at(timestamp_ms: i64, offset_secs: i32) -> (text: String)
    requires
        -DAY_SECS < offset_secs < DAY_SECS,
    ensures
        text@ == timestamp_text_at(timestamp_ms, offset_secs),
        FIRST_DATE_MS <= timestamp_ms <= LAST_DATE_MS ==> text@.contains('-') && text@.contains(
            ':',
        ),
{
    timestamp_text(timestamp_ms, date_at(timestamp_ms, offset_secs, "%Y-%m-%d %H:%M:%S"))
}

/// Whether a text is that of a timestamp, at whatever offset the local time zone has.
pub open spec fn is_timestamp_text(text: Seq<char>, timestamp_ms: i64) -> bool {
    exists|offset_secs: i32|
        -DAY_SECS < offset_secs < DAY_SECS && text == #[trigger] timestamp_text_at(
            timestamp_ms,
            offset_secs,
        )
}

/// The local date and time of a timestamp, or its number where it is no date.
pub fn format_timestamp(timestamp_ms: i64) -> (text: String)
    ensures
        is_timestamp_text(text@, timestamp_ms),
        FIRST_DATE_MS <= timestamp_ms <= LAST_DATE_MS ==> text@.contains('-') && text@.contains(
            ':',
        ),
        !(FIRST_DATE_MS <= timestamp_ms <= LAST_DATE_MS) ==> text@ == signed_decimal(
            timestamp_ms as int,
        ),
{
    let offset_secs: i32 = match local_offset(timestamp_ms) {
        Some(secs) => secs,
        None => 0,
    };
    format_timestamp_at(timestamp_ms, offset_secs)
}

} // verus!
