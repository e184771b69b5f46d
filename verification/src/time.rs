//! Wall-clock time.

use vstd::prelude::*;

verus! {

/// Offset of Japan Standard Time from UTC, in seconds.
pub const JST_OFFSET_SECONDS: i32 = 32400;

/// The current time in the zone `offset_seconds` east of UTC, in
/// milliseconds since the Unix epoch.
///
/// Calls `chrono::FixedOffset::east_opt`, `chrono::Utc::now`,
/// `DateTime::with_timezone` and `DateTime::timestamp_millis`. Nothing is
/// claimed of the result: it is whatever the system clock says. The offset
/// must lie strictly within a day, else `east_opt` has no zone to give; the
/// clock must not stand before the epoch.
#[verifier::external_body]
fn now_millis_at(offset_seconds: i32) -> i64
    requires
        -86_400 < offset_seconds < 86_400,
{
    let offset = chrono::FixedOffset::east_opt(offset_seconds).unwrap();
    chrono::Utc::now().with_timezone(&offset).timestamp_millis()
}

/// The current time in Japan Standard Time, in milliseconds since the Unix
/// epoch.
pub fn get_jst_timestamp() -> i64 {
    now_millis_at(JST_OFFSET_SECONDS)
}

/// The RFC 3339 text of the instant `millis` milliseconds after the Unix
/// epoch, as a clock `offset_seconds` east of UTC shows it; nothing for an
/// instant out of the range of the calendar.
pub uninterp spec fn rfc3339_text(millis: i64, offset_seconds: i32) -> Option<Seq<char>>;

/// The RFC 3339 text of the instant `millis` milliseconds after the Unix
/// epoch, as a clock `offset_seconds` east of UTC shows it.
///
/// Calls `chrono::DateTime::from_timestamp_millis`, which gives nothing for
/// an instant out of its range, then `DateTime::with_timezone` and
/// `DateTime::to_rfc3339`. The text is a function of the two numbers alone;
/// it is named, not spelled out. The offset must lie strictly within a day,
/// else `chrono::FixedOffset::east_opt` has no zone to give.
#[verifier::external_body]
fn format_rfc3339(millis: i64, offset_seconds: i32) -> (res: Option<String>)
    requires
        -86_400 < offset_seconds < 86_400,
    ensures
        match res {
            Some(text) => rfc3339_text(millis, offset_seconds) == Some(text@),
            None => rfc3339_text(millis, offset_seconds) is None,
        },
{
    let offset = chrono::FixedOffset::east_opt(offset_seconds).unwrap();
    chrono::DateTime::from_timestamp_millis(millis).map(|t| t.with_timezone(&offset).to_rfc3339())
}

/// The RFC 3339 text of `millis` in Japan Standard Time.
pub open spec fn jst_rfc3339_text(millis: i64) -> Option<Seq<char>> {
    rfc3339_text(millis, JST_OFFSET_SECONDS)
}

/// The RFC 3339 text of the instant `millis` milliseconds after the Unix
/// epoch in Japan Standard Time, such as `2023-01-01T00:00:00+09:00`;
/// nothing for an instant out of the range of the calendar.
pub fn timestamp_to_jst_rfc3339(millis: i64) -> (res: Option<String>)
    ensures
        match res {
            Some(text) => jst_rfc3339_text(millis) == Some(text@),
            None => jst_rfc3339_text(millis) is None,
        },
{
    format_rfc3339(millis, JST_OFFSET_SECONDS)
}

} // verus!
