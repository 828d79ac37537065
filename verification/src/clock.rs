//! Time stamps for file names, formatted by `chrono`.

use vstd::prelude::*;
use crate::text::{opt_view};
use crate::calendar::{in_stamp_range, is_stamp_of};

verus! {

/// A reading of the clock: seconds since the Unix epoch, and nanoseconds
/// since the last whole second, as `DateTime::timestamp` and
/// `DateTime::timestamp_subsec_nanos` give them.
#[derive(Clone, Copy, Debug)]
pub struct ClockReading {
    pub secs: i64,
    pub nanos: u32,
}

/// A name for the `%Y%m%d%H%M%S%.3f` text of the instant `secs`, `nanos`
/// (year, month, day, hour, minute, second, a dot and milliseconds), as
/// `chrono` formats it; `None` where `DateTime::from_timestamp` has no
/// instant for them.
pub uninterp spec fn compact_stamp(secs: i64, nanos: u32) -> Option<Seq<char>>;

/// The characters that `chrono` writes for the numeric fields of the
/// `%Y%m%d%H%M%S%.3f` pattern: digits, the sign of a year outside
/// 0..=9999, and the decimal point before the milliseconds.
pub open spec fn stamp_char(c: char) -> bool {
    ('0' <= c && c <= '9') || c == '+' || c == '-' || c == '.'
}

/// The instant `secs`, `nanos`, from `chrono::DateTime::from_timestamp`,
/// formatted with `DateTime::format("%Y%m%d%H%M%S%.3f")`.
///
/// Trusted: the result is named by `compact_stamp`; it is `None` exactly
/// where `from_timestamp` is. Where it is `Some`, every character is a
/// digit, a sign or the decimal point: `chrono` writes `%Y` as digits, with a
/// sign only outside 0..=9999, the other fields as two digits, and `%.3f` as
/// `.` and three digits. For a reading in the years 0 to 9999 outside a leap
/// second, `from_timestamp` gives the UTC date and time of the proleptic
/// Gregorian calendar that lies `secs` seconds and `nanos` nanoseconds after
/// 1970-01-01T00:00:00Z, and the text is that date and time, each field
/// zero-padded (`%Y` to four digits), with the milliseconds after the `.`:
/// the stamp of the reading as `is_stamp_of` defines it.
#[verifier::external_body]
fn format_compact(secs: i64, nanos: u32) -> (r: Option<String>)
    ensures
        opt_view(r) == compact_stamp(secs, nanos),
        r matches Some(s) ==> forall|i: int| 0 <= i < s@.len() ==> stamp_char(#[trigger] s@[i]),
        in_stamp_range(secs as int, nanos as int) ==> r is Some,
        r matches Some(s) ==> (in_stamp_range(secs as int, nanos as int) ==> is_stamp_of(s@, secs as int, nanos as int)),
{
    match chrono::DateTime::from_timestamp(secs, nanos) {
        Some(t) => Some(t.format("%Y%m%d%H%M%S%.3f").to_string()),
        None => None,
    }
}

/// The compact stamp of a clock reading, for naming files.
pub fn compact(reading: &ClockReading) -> (r: Option<String>)
    ensures
        opt_view(r) == compact_stamp(reading.secs, reading.nanos),
        r matches Some(s) ==> forall|i: int| 0 <= i < s@.len() ==> stamp_char(#[trigger] s@[i]),
        in_stamp_range(reading.secs as int, reading.nanos as int) ==> (r matches Some(s)
            && is_stamp_of(s@, reading.secs as int, reading.nanos as int)),
{
    format_compact(reading.secs, reading.nanos)
}

} // verus!
