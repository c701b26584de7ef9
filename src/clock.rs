//! The wall clock and the rendering of times, through chrono.
use vstd::prelude::*;

verus! {

/// The last microsecond of the year 9999, counted from the Unix epoch.
pub const LAST_FOUR_DIGIT_YEAR_MICROS: i64 = 253402300799999999;

/// The UTC date and time at `micros` microseconds after the Unix epoch,
/// written as year, month, day, hour, minute and second with no separators.
pub uninterp spec fn utc_compact(micros: int) -> Seq<char>;

/// Relies on chrono's `Utc::now` and `DateTime::timestamp_micros`: the
/// current time in microseconds since the Unix epoch. The value depends on
/// the system clock, so nothing is promised of it. (`Utc::now` panics only
/// when the system clock reads earlier than the Unix epoch.)
#[verifier::external_body]
pub(crate) fn current_micros() -> (r: i64) {
    chrono::Utc::now().timestamp_micros()
}

/// Relies on chrono's `DateTime::from_timestamp_micros`, which yields a time
/// for every instant of the years 0 to 9999 (and beyond), and on formatting
/// it with the pattern `%Y%m%d%H%M%S`.
#[verifier::external_body]
pub(crate) fn compact_utc(micros: i64) -> (r: Option<String>)
    ensures
        r matches Some(s) ==> s@ == utc_compact(micros as int),
        0 <= micros <= LAST_FOUR_DIGIT_YEAR_MICROS ==> r is Some,
{
    match chrono::DateTime::from_timestamp_micros(micros) {
        Some(d) => Some(d.format("%Y%m%d%H%M%S").to_string()),
        None => None,
    }
}

} // verus!
