//! What the library needs of calendar time, through `chrono`.

use chrono::Timelike;
use vstd::prelude::*;

use crate::text::all_ascii_digits;

verus! {

/// The first second `chrono` can represent: -262143-01-01 00:00:00 UTC.
pub const MIN_UTC_SECS: i64 = -8334601228800;

/// The last second `chrono` can represent: +262142-12-31 23:59:59 UTC.
pub const MAX_UTC_SECS: i64 = 8210266876799;

/// Whether `chrono::DateTime::from_timestamp(secs, 0)` gives a date: its day
/// lies between the first day of year -262143 and the last day of year 262142.
pub open spec fn spec_utc_in_range(secs: int) -> bool {
    MIN_UTC_SECS <= secs <= MAX_UTC_SECS
}

/// Whether `secs` seconds since the epoch is a date that `chrono` can represent.
///
/// Trusted: `chrono::DateTime::from_timestamp(secs, 0)`. The source takes the
/// day `secs.div_euclid(86400)` and gives `None` exactly when that day is
/// outside `NaiveDate::MIN` (year -262143) to `NaiveDate::MAX` (year 262142),
/// whose first and last seconds are `MIN_UTC_SECS` and `MAX_UTC_SECS`.
#[verifier::external_body]
pub fn utc_timestamp_in_range(secs: i64) -> (ok: bool)
    ensures
        ok == spec_utc_in_range(secs as int),
{
    chrono::DateTime::from_timestamp(secs, 0).is_some()
}

/// The local calendar day of `secs` as `%Y%m%d` prints it, or `None` when
/// `secs` is not a date that `chrono` can represent.
///
/// Trusted: `chrono::DateTime::from_timestamp(secs, 0)` read in the machine's
/// time zone and formatted; `None` exactly when the timestamp is out of range.
/// Which day it is depends on the time zone, so it is not named. chrono reads
/// the local time as the UTC time plus the zone's offset, a `FixedOffset`,
/// which is always less than a day (`FixedOffset::east_opt`), and formats it
/// as it formats UTC times: so the text is the UTC day (`spec_utc_stamp`) of
/// a time less than a day from `secs` (stated away from the ends of the
/// range, where that time must itself be in range).
#[verifier::external_body]
pub fn local_date(secs: i64) -> (r: Option<String>)
    ensures
        r is Some == spec_utc_in_range(secs as int),
        r matches Some(d) ==> (MIN_UTC_SECS + 86400 <= secs <= MAX_UTC_SECS - 86400 ==> exists|off: int|
            -86400 < off < 86400 && d@ == (#[trigger] spec_utc_stamp(secs + off)).0),
{
    chrono::DateTime::from_timestamp(secs, 0)
        .map(|d| d.with_timezone(&chrono::Local).format("%Y%m%d").to_string())
}

/// The local hour (0 to 23) of `secs`, or `None` when `secs` is not a date that
/// `chrono` can represent.
///
/// Trusted: `chrono::DateTime::from_timestamp(secs, 0)` read in the machine's
/// time zone, then `Timelike::hour`, documented as 0 to 23. Which hour it is
/// depends on the time zone, so nothing more is said of it.
#[verifier::external_body]
pub fn local_hour_of(secs: i64) -> (r: Option<u32>)
    ensures
        r is Some == spec_utc_in_range(secs as int),
        r matches Some(h) ==> h < 24,
{
    chrono::DateTime::from_timestamp(secs, 0).map(|d| d.with_timezone(&chrono::Local).hour())
}

/// The start of the local hour `hour` on the local day of `day` (both read
/// in the machine's time zone), or `None` when there is no such time.
///
/// Trusted: `chrono`'s `with_hour(hour)`, `with_minute(0)`, `with_second(0)`
/// on the local time of `day`, then `timestamp`; the result depends on the
/// time zone, so nothing is said of it.
#[verifier::external_body]
pub fn local_hour_start(day: i64, hour: u32) -> (r: Option<i64>)
    ensures
        r is Some ==> spec_utc_in_range(day as int),
{
    let local = chrono::DateTime::from_timestamp(day, 0)?.with_timezone(&chrono::Local);
    Some(local.with_hour(hour)?.with_minute(0)?.with_second(0)?.timestamp())
}

/// The whole seconds of the time `ms` milliseconds after the epoch, or `None`
/// when that is not a date that `chrono` can represent.
///
/// Trusted: `chrono::DateTime::from_timestamp_millis(ms)`, then `timestamp`.
/// The source calls `from_timestamp(ms.div_euclid(1000), nanos)` with nanos
/// below a second, so it gives a date exactly when the floor of `ms / 1000`
/// is in range; `timestamp` gives back those seconds.
#[verifier::external_body]
pub fn utc_seconds_from_millis(ms: i64) -> (r: Option<i64>)
    ensures
        r is Some == spec_utc_in_range((ms as int) / 1000),
        r matches Some(s) ==> s == (ms as int) / 1000,
{
    chrono::DateTime::from_timestamp_millis(ms).map(|d| d.timestamp())
}

/// The first second of year 0: 0000-01-01 00:00:00 UTC.
pub const FIRST_4_DIGIT_YEAR_SECS: i64 = -62167219200;

/// The last second of year 9999: 9999-12-31 23:59:59 UTC.
pub const LAST_4_DIGIT_YEAR_SECS: i64 = 253402300799;

/// What `chrono` prints for the UTC time `secs` with `%Y%m%d` and `%H%M%S`.
pub uninterp spec fn spec_utc_stamp(secs: int) -> (Seq<char>, Seq<char>);

/// The UTC day (`%Y%m%d`) and time of day (`%H%M%S`) of `secs`, or `None`
/// when `secs` is not a date that `chrono` can represent.
///
/// Trusted: `chrono::DateTime::from_timestamp(secs, 0)` (`None` exactly when
/// out of range, as in `utc_timestamp_in_range`) and two calls of `format`;
/// the printed texts are named `spec_utc_stamp` of `secs`. chrono's formatter
/// prints hour, minute and second with two zero-padded digits each, and the
/// year with four zero-padded digits when it is 0 to 9999 (the seconds
/// `FIRST_4_DIGIT_YEAR_SECS` to `LAST_4_DIGIT_YEAR_SECS`), month and day with two.
#[verifier::external_body]
pub fn utc_stamp(secs: i64) -> (r: Option<(String, String)>)
    ensures
        r is Some == spec_utc_in_range(secs as int),
        r matches Some((d, t)) ==> (d@, t@) == spec_utc_stamp(secs as int),
        r matches Some((d, t)) ==> t@.len() == 6 && all_ascii_digits(t@),
        r matches Some((d, t)) ==> (FIRST_4_DIGIT_YEAR_SECS <= secs <= LAST_4_DIGIT_YEAR_SECS ==> d@.len() == 8
            && all_ascii_digits(d@)),
{
    chrono::DateTime::from_timestamp(secs, 0)
        .map(|d| (d.format("%Y%m%d").to_string(), d.format("%H%M%S").to_string()))
}

} // verus!
