//! The few places where this library leans on outside crates: fresh
//! identifiers, the clock, time-zone resolution, and the ISO 8601
//! duration parser. Each is a thin trusted wrapper; everything that can
//! be computed from their plain results is verified elsewhere.

use vstd::prelude::*;

verus! {

/// The parts of an ISO 8601 duration, as the outside parser reports them:
/// either calendar units down to milliseconds, or a whole number of weeks.
#[derive(Copy, Clone, Debug, PartialEq, Eq, Structural)]
pub enum IsoDurationParts {
    /// Year, month, day, hour, minute, second and millisecond counts.
    Ymdhms {
        /// Calendar years.
        year: u32,
        /// Months.
        month: u32,
        /// Days.
        day: u32,
        /// Hours.
        hour: u32,
        /// Minutes.
        minute: u32,
        /// Seconds.
        second: u32,
        /// Milliseconds.
        millisecond: u32,
    },
    /// A duration counted in weeks.
    Weeks(u32),
}

/// What `iso8601::duration` parses from a string: a pure function of the
/// text alone.
pub uninterp spec fn iso_duration_of(s: Seq<char>) -> Option<IsoDurationParts>;

/// Relies on `iso8601::duration`: parses an ISO 8601 duration string.
/// The result is converted variant for variant, field for field.
#[verifier::external_body]
pub fn parse_iso_duration(s: &str) -> (r: Option<IsoDurationParts>)
    ensures
        r == iso_duration_of(s@),
{
    match iso8601::duration(s) {
        Ok(iso8601::Duration::YMDHMS { year, month, day, hour, minute, second, millisecond }) => {
            Some(IsoDurationParts::Ymdhms { year, month, day, hour, minute, second, millisecond })
        },
        Ok(iso8601::Duration::Weeks(w)) => Some(IsoDurationParts::Weeks(w)),
        Err(_) => None,
    }
}

/// Relies on `uuid::Uuid::new_v4` and its hyphenated `Display` form: a
/// fresh random identifier, always 36 characters of lower-case hexadecimal
/// digits and hyphens. Nothing else can be promised of a random value.
#[verifier::external_body]
pub fn new_uid() -> (r: String)
    ensures
        r@.len() == 36,
        forall|i: int|
            0 <= i < r@.len() ==> (48 <= r@[i] as u32 <= 57 || 97 <= r@[i] as u32 <= 102 || r@[i]
                == '-'),
{
    uuid::Uuid::new_v4().to_string()
}

/// Relies on `chrono::Utc::now` and the `Datelike`/`Timelike` accessors:
/// the current civil date and time in UTC, as plain fields. The clock's
/// value cannot be promised; the caller validates the parts.
#[verifier::external_body]
pub fn now_utc_parts() -> (r: (i32, u32, u32, u32, u32, u32)) {
    let now = chrono::Utc::now();
    (
        chrono::Datelike::year(&now),
        chrono::Datelike::month(&now),
        chrono::Datelike::day(&now),
        chrono::Timelike::hour(&now),
        chrono::Timelike::minute(&now),
        chrono::Timelike::second(&now),
    )
}

/// Relies on `chrono_tz::Tz::from_str`, `chrono::TimeZone::from_local_datetime`
/// and `DateTime::with_timezone`: resolves a named time zone's offset at
/// the given local time and returns the same instant as UTC fields. The
/// zone database decides the outcome; of every result only the field
/// ranges chrono documents are stated.
#[verifier::external_body]
pub fn local_to_utc_parts(tzid: &str, y: i32, mo: u32, d: u32, h: u32, mi: u32, s: u32) -> (r:
    Option<(i32, u32, u32, u32, u32, u32)>)
    ensures
        r matches Some(p) ==> 1 <= p.1 <= 12 && 1 <= p.2 <= 31 && p.3 < 24 && p.4 < 60 && p.5 < 60,
{
    let tz: chrono_tz::Tz = tzid.parse().ok()?;
    let nd = chrono::NaiveDate::from_ymd_opt(y, mo, d)?;
    let ndt = nd.and_hms_opt(h, mi, s)?;
    let local = chrono::TimeZone::from_local_datetime(&tz, &ndt).single()?;
    let utc = local.with_timezone(&chrono::Utc);
    Some((
        chrono::Datelike::year(&utc),
        chrono::Datelike::month(&utc),
        chrono::Datelike::day(&utc),
        chrono::Timelike::hour(&utc),
        chrono::Timelike::minute(&utc),
        chrono::Timelike::second(&utc),
    ))
}

} // verus!
