//! Calendar conversions, delegated to `chrono`.

use vstd::prelude::*;

verus! {

/// First second chrono's `DateTime<Utc>` represents: -262143-01-01T00:00:00Z.
pub const FIRST_REPRESENTABLE_SECS: i64 = -8_334_601_228_800;

/// Last second chrono's `DateTime<Utc>` represents: +262142-12-31T23:59:59Z.
pub const LAST_REPRESENTABLE_SECS: i64 = 8_210_266_876_799;

/// Whether `secs` seconds after the Unix epoch is a date-time that chrono's
/// `DateTime<Utc>` can represent: the days from -262143-01-01 to
/// +262142-12-31, the range of chrono's `NaiveDate`.
pub open spec fn spec_timestamp_representable(secs: i64) -> bool {
    FIRST_REPRESENTABLE_SECS <= secs <= LAST_REPRESENTABLE_SECS
}

/// The calendar day, formatted `YYYY-MM-DD`, of `secs` seconds after the Unix
/// epoch in UTC.
pub uninterp spec fn spec_calendar_day(secs: i64) -> Seq<char>;

/// Calls `chrono::DateTime::<Utc>::from_timestamp(secs, 0)` and reports
/// whether it returned a value. The contract claims that it does exactly for
/// the seconds whose day lies in `NaiveDate`'s range (from -262143-01-01 to
/// +262142-12-31), as chrono's source computes it.
#[verifier::external_body]
pub(crate) fn timestamp_representable(secs: i64) -> (r: bool)
    ensures
        r == spec_timestamp_representable(secs),
{
    chrono::DateTime::<chrono::Utc>::from_timestamp(secs, 0).is_some()
}

/// Calls `chrono::DateTime::<Utc>::from_timestamp(secs, 0)` and formats the
/// date-time it returns with chrono's `format("%Y-%m-%d")`. The contract
/// claims that a text comes back exactly when the timestamp is representable
/// (the same test as `timestamp_representable`), and names the text
/// `spec_calendar_day(secs)`; its characters are left to chrono.
#[verifier::external_body]
pub(crate) fn calendar_day(secs: i64) -> (r: Option<String>)
    ensures
        r is Some <==> spec_timestamp_representable(secs),
        r matches Some(day) ==> day@ == spec_calendar_day(secs),
{
    match chrono::DateTime::<chrono::Utc>::from_timestamp(secs, 0) {
        Some(moment) => Some(moment.format("%Y-%m-%d").to_string()),
        None => None,
    }
}

} // verus!
