//! Calendar dates and date-times, modelled as plain fields, with the
//! format's three `DATE-TIME` forms: floating, UTC (trailing `Z`), and a
//! local time with a named time zone.

use crate::chars::chars_to_string;
use crate::chars::str_chars;
use crate::numbers::dec_digit;
use crate::numbers::digit_val;
use crate::numbers::is_digit;
use crate::outside::local_to_utc_parts;
use crate::properties::param_lookup;
use crate::properties::Property;
use crate::properties::PropertyModel;
use vstd::prelude::*;
use vstd::string::StringExecFns;

verus! {

/// A calendar date.
#[derive(Debug, Copy, Clone, PartialEq, Eq, Structural)]
pub struct DateParts {
    /// Four-digit year.
    pub year: u16,
    /// Month, one-based.
    pub month: u8,
    /// Day of the month, one-based.
    pub day: u8,
}

/// A calendar date with a time of day.
#[derive(Debug, Copy, Clone, PartialEq, Eq, Structural)]
pub struct DateTimeParts {
    /// Four-digit year.
    pub year: u16,
    /// Month, one-based.
    pub month: u8,
    /// Day of the month, one-based.
    pub day: u8,
    /// Hour of the day.
    pub hour: u8,
    /// Minute.
    pub minute: u8,
    /// Second.
    pub second: u8,
}

/// Gregorian leap years.
pub open spec fn is_leap_year(y: int) -> bool {
    (y % 4 == 0 && y % 100 != 0) || y % 400 == 0
}

/// The number of days in a month.
pub open spec fn days_in_month(y: int, m: int) -> int {
    if m == 2 {
        if is_leap_year(y) {
            29
        } else {
            28
        }
    } else if m == 4 || m == 6 || m == 9 || m == 11 {
        30
    } else {
        31
    }
}

/// A real calendar date with a four-digit year.
pub open spec fn valid_date(y: int, m: int, d: int) -> bool {
    0 <= y <= 9999 && 1 <= m <= 12 && 1 <= d <= days_in_month(y, m)
}

/// A time of day in whole seconds.
pub open spec fn valid_time(h: int, mi: int, s: int) -> bool {
    0 <= h < 24 && 0 <= mi < 60 && 0 <= s < 60
}

impl DateParts {
    /// A real calendar date.
    pub open spec fn wf(&self) -> bool {
        valid_date(self.year as int, self.month as int, self.day as int)
    }

    /// Builds a date when the parts form a real calendar date.
    pub fn from_ymd(year: u16, month: u8, day: u8) -> (r: Option<DateParts>)
        ensures
            r matches Some(d) ==> d == (DateParts { year, month, day }) && d.wf(),
            r is None <==> !valid_date(year as int, month as int, day as int),
    {
        let dim = days_in_month_x(year, month);
        if year <= 9999 && 1 <= month && month <= 12 && 1 <= day && day <= dim {
            Some(DateParts { year, month, day })
        } else {
            None
        }
    }
}

impl DateTimeParts {
    /// A real calendar date with a valid time of day.
    pub open spec fn wf(&self) -> bool {
        valid_date(self.year as int, self.month as int, self.day as int) && valid_time(
            self.hour as int,
            self.minute as int,
            self.second as int,
        )
    }

    /// Builds a date-time when the parts are a real date and time.
    pub fn from_ymd_hms(year: u16, month: u8, day: u8, hour: u8, minute: u8, second: u8) -> (r:
        Option<DateTimeParts>)
        ensures
            r matches Some(d) ==> d == (DateTimeParts { year, month, day, hour, minute, second })
                && d.wf(),
            r is None <==> !(valid_date(year as int, month as int, day as int) && valid_time(
                hour as int,
                minute as int,
                second as int,
            )),
    {
        let dim = days_in_month_x(year, month);
        if year <= 9999 && 1 <= month && month <= 12 && 1 <= day && day <= dim && hour < 24
            && minute < 60 && second < 60 {
            Some(DateTimeParts { year, month, day, hour, minute, second })
        } else {
            None
        }
    }

    /// The date half.
    pub fn date(&self) -> (r: DateParts)
        ensures
            r == (DateParts { year: self.year, month: self.month, day: self.day }),
    {
        DateParts { year: self.year, month: self.month, day: self.day }
    }
}

/// The number of days in a month.
pub fn days_in_month_x(y: u16, m: u8) -> (r: u8)
    ensures
        r as int == days_in_month(y as int, m as int),
{
    if m == 2 {
        if (y % 4 == 0 && y % 100 != 0) || y % 400 == 0 {
            29
        } else {
            28
        }
    } else if m == 4 || m == 6 || m == 9 || m == 11 {
        30
    } else {
        31
    }
}

/// A fixed-width decimal field: `width` digits, zero-padded.
pub open spec fn padded(n: int, width: int) -> Seq<char>
    decreases width,
{
    if width <= 0 {
        Seq::empty()
    } else {
        padded(n / 10, width - 1) + seq![dec_digit(n % 10)]
    }
}

/// Appends `n` as `width` zero-padded decimal digits.
pub fn push_padded(out: &mut Vec<char>, n: u32, width: u32)
    ensures
        final(out)@ == old(out)@ + padded(n as int, width as int),
    decreases width,
{
    if width == 0 {
        proof {
            assert(final(out)@ =~= old(out)@ + padded(n as int, 0));
        }
    } else {
        push_padded(out, n / 10, width - 1);
        let d = n % 10;
        let c: char = if d == 0 {
            '0'
        } else if d == 1 {
            '1'
        } else if d == 2 {
            '2'
        } else if d == 3 {
            '3'
        } else if d == 4 {
            '4'
        } else if d == 5 {
            '5'
        } else if d == 6 {
            '6'
        } else if d == 7 {
            '7'
        } else if d == 8 {
            '8'
        } else {
            '9'
        };
        out.push(c);
        proof {
            assert(c == dec_digit(n as int % 10));
            assert((old(out)@ + padded(n as int / 10, width - 1)) + seq![dec_digit(n as int % 10)]
                =~= old(out)@ + (padded(n as int / 10, width - 1) + seq![
                dec_digit(n as int % 10),
            ]));
        }
    }
}

/// `YYYYMMDD`.
pub open spec fn date_str(d: DateParts) -> Seq<char> {
    padded(d.year as int, 4) + padded(d.month as int, 2) + padded(d.day as int, 2)
}

/// `YYYYMMDDTHHMMSS`.
pub open spec fn naive_date_time_str(d: DateTimeParts) -> Seq<char> {
    padded(d.year as int, 4) + padded(d.month as int, 2) + padded(d.day as int, 2) + seq!['T']
        + padded(d.hour as int, 2) + padded(d.minute as int, 2) + padded(d.second as int, 2)
}

/// `YYYYMMDDTHHMMSSZ`.
pub open spec fn utc_date_time_str(d: DateTimeParts) -> Seq<char> {
    naive_date_time_str(d) + seq!['Z']
}

/// Writes `YYYYMMDD`.
pub fn format_date(d: &DateParts) -> (r: String)
    ensures
        r@ == date_str(*d),
{
    let mut out: Vec<char> = Vec::new();
    push_padded(&mut out, d.year as u32, 4);
    push_padded(&mut out, d.month as u32, 2);
    push_padded(&mut out, d.day as u32, 2);
    proof {
        assert(out@ =~= date_str(*d));
    }
    chars_to_string(&out)
}

/// Writes `YYYYMMDDTHHMMSS`.
pub fn format_naive_date_time(d: &DateTimeParts) -> (r: String)
    ensures
        r@ == naive_date_time_str(*d),
{
    let mut out: Vec<char> = Vec::new();
    push_padded(&mut out, d.year as u32, 4);
    push_padded(&mut out, d.month as u32, 2);
    push_padded(&mut out, d.day as u32, 2);
    out.push('T');
    push_padded(&mut out, d.hour as u32, 2);
    push_padded(&mut out, d.minute as u32, 2);
    push_padded(&mut out, d.second as u32, 2);
    proof {
        assert(out@ =~= naive_date_time_str(*d));
    }
    chars_to_string(&out)
}

/// Writes `YYYYMMDDTHHMMSSZ`.
pub fn format_utc_date_time(d: &DateTimeParts) -> (r: String)
    ensures
        r@ == utc_date_time_str(*d),
{
    let mut out: Vec<char> = Vec::new();
    push_padded(&mut out, d.year as u32, 4);
    push_padded(&mut out, d.month as u32, 2);
    push_padded(&mut out, d.day as u32, 2);
    out.push('T');
    push_padded(&mut out, d.hour as u32, 2);
    push_padded(&mut out, d.minute as u32, 2);
    push_padded(&mut out, d.second as u32, 2);
    out.push('Z');
    proof {
        assert(out@ =~= utc_date_time_str(*d));
    }
    chars_to_string(&out)
}

/// The value of the fixed-width digit run `s[i..i+w]`, when all digits.
pub open spec fn field_val(s: Seq<char>, i: int, w: int) -> int
    decreases w,
{
    if w <= 0 {
        0
    } else {
        field_val(s, i, w - 1) * 10 + digit_val(s[i + w - 1])
    }
}

/// Are `s[i..i+w]` all decimal digits?
pub open spec fn all_digits_at(s: Seq<char>, i: int, w: int) -> bool {
    forall|t: int| i <= t < i + w ==> is_digit(s[t])
}

/// What an 8-digit `YYYYMMDD` value parses to: a real calendar date or
/// nothing.
pub open spec fn parse_date_spec(s: Seq<char>) -> Option<DateParts> {
    if s.len() == 8 && all_digits_at(s, 0, 8) && valid_date(
        field_val(s, 0, 4),
        field_val(s, 4, 2),
        field_val(s, 6, 2),
    ) {
        Some(
            DateParts {
                year: field_val(s, 0, 4) as u16,
                month: field_val(s, 4, 2) as u8,
                day: field_val(s, 6, 2) as u8,
            },
        )
    } else {
        None
    }
}

/// What a 15-character `YYYYMMDDTHHMMSS` value parses to.
pub open spec fn parse_naive_spec(s: Seq<char>) -> Option<DateTimeParts> {
    if s.len() == 15 && s[8] == 'T' && all_digits_at(s, 0, 8) && all_digits_at(s, 9, 6)
        && valid_date(field_val(s, 0, 4), field_val(s, 4, 2), field_val(s, 6, 2)) && valid_time(
        field_val(s, 9, 2),
        field_val(s, 11, 2),
        field_val(s, 13, 2),
    ) {
        Some(
            DateTimeParts {
                year: field_val(s, 0, 4) as u16,
                month: field_val(s, 4, 2) as u8,
                day: field_val(s, 6, 2) as u8,
                hour: field_val(s, 9, 2) as u8,
                minute: field_val(s, 11, 2) as u8,
                second: field_val(s, 13, 2) as u8,
            },
        )
    } else {
        None
    }
}

/// What a 16-character `YYYYMMDDTHHMMSSZ` value parses to.
pub open spec fn parse_utc_spec(s: Seq<char>) -> Option<DateTimeParts> {
    if s.len() == 16 && s[15] == 'Z' {
        parse_naive_spec(s.take(15))
    } else {
        None
    }
}

/// Powers of ten, for digit-count bounds.
pub open spec fn pow10(n: int) -> int
    decreases n,
{
    if n <= 0 {
        1
    } else {
        10 * pow10(n - 1)
    }
}

proof fn lemma_pow10_le(a: int, b: int)
    requires
        a <= b,
    ensures
        pow10(a) <= pow10(b),
        pow10(a) >= 1,
    decreases b - a,
{
    if a < b {
        lemma_pow10_le(a, b - 1);
    } else if a == b {
        lemma_pow10_le_base(a);
    }
}

proof fn lemma_pow10_le_base(a: int)
    ensures
        pow10(a) >= 1,
    decreases a,
{
    if a > 0 {
        lemma_pow10_le_base(a - 1);
    }
}

/// Reads the fixed-width digit run `v[i..i+w]`; `None` on a non-digit.
fn read_field(v: &Vec<char>, i: usize, w: usize) -> (r: Option<u32>)
    requires
        i + w <= v@.len(),
        w <= 8,
    ensures
        match r {
            Some(x) => all_digits_at(v@, i as int, w as int) && x as int == field_val(
                v@,
                i as int,
                w as int,
            ),
            None => !all_digits_at(v@, i as int, w as int),
        },
{
    let n = v.len();
    let mut acc: u32 = 0;
    let mut k: usize = 0;
    proof {
        reveal_with_fuel(pow10, 10);
        assert(pow10(8) == 100000000);
    }
    loop
        invariant
            k <= w,
            i + w <= n,
            n == v@.len(),
            w <= 8,
            pow10(8) == 100000000,
            acc < pow10(k as int),
            acc as int == field_val(v@, i as int, k as int),
            all_digits_at(v@, i as int, k as int),
        ensures
            k == w,
            acc as int == field_val(v@, i as int, k as int),
            all_digits_at(v@, i as int, k as int),
        decreases w - k,
    {
        if k >= w {
            break ;
        }
        let c = v[i + k];
        let u = c as u32;
        if !(48 <= u && u <= 57) {
            proof {
                assert(!is_digit(v@[i + k]));
            }
            return None;
        }
        proof {
            lemma_pow10_le(k as int + 1, 8);
            assert(pow10(k as int + 1) == 10 * pow10(k as int));
            assert(acc * 10 + (u - 48) < pow10(k as int + 1));
        }
        acc = acc * 10 + (u - 48);
        k = k + 1;
        proof {
            assert(acc as int == field_val(v@, i as int, k as int));
            assert forall|t: int| i <= t < i + k implies is_digit(v@[t]) by {}
        }
    }
    Some(acc)
}

/// Parses an 8-digit `YYYYMMDD` date.
pub fn parse_date(s: &str) -> (r: Option<DateParts>)
    ensures
        r == parse_date_spec(s@),
        r matches Some(d) ==> d.wf(),
{
    let v = str_chars(s);
    if v.len() != 8 {
        return None;
    }
    let y = match read_field(&v, 0, 4) {
        Some(x) => x,
        None => {
            return None;
        },
    };
    let mo = match read_field(&v, 4, 2) {
        Some(x) => x,
        None => {
            return None;
        },
    };
    let d = match read_field(&v, 6, 2) {
        Some(x) => x,
        None => {
            return None;
        },
    };
    proof {
        assert(all_digits_at(v@, 0, 8)) by {
            assert(forall|t: int|
                0 <= t < 8 ==> is_digit(v@[t]) || !(all_digits_at(v@, 0, 4) && all_digits_at(
                    v@,
                    4,
                    2,
                ) && all_digits_at(v@, 6, 2)));
        }
    }
    let dim = days_in_month_x(y as u16, mo as u8);
    if 1 <= mo && mo <= 12 && 1 <= d && d <= dim as u32 && y <= 9999 {
        Some(DateParts { year: y as u16, month: mo as u8, day: d as u8 })
    } else {
        None
    }
}

/// Parses a 15-character `YYYYMMDDTHHMMSS` date-time.
pub fn parse_naive_date_time(s: &str) -> (r: Option<DateTimeParts>)
    ensures
        r == parse_naive_spec(s@),
        r matches Some(d) ==> d.wf(),
{
    let v = str_chars(s);
    if v.len() != 15 {
        return None;
    }
    if v[8] != 'T' {
        return None;
    }
    let y = match read_field(&v, 0, 4) {
        Some(x) => x,
        None => {
            return None;
        },
    };
    let mo = match read_field(&v, 4, 2) {
        Some(x) => x,
        None => {
            return None;
        },
    };
    let d = match read_field(&v, 6, 2) {
        Some(x) => x,
        None => {
            return None;
        },
    };
    let h = match read_field(&v, 9, 2) {
        Some(x) => x,
        None => {
            return None;
        },
    };
    let mi = match read_field(&v, 11, 2) {
        Some(x) => x,
        None => {
            return None;
        },
    };
    let sec = match read_field(&v, 13, 2) {
        Some(x) => x,
        None => {
            return None;
        },
    };
    proof {
        assert(all_digits_at(v@, 0, 8)) by {
            assert(forall|t: int| 0 <= t < 4 ==> is_digit(v@[t]));
            assert(forall|t: int| 4 <= t < 6 ==> is_digit(v@[t]));
            assert(forall|t: int| 6 <= t < 8 ==> is_digit(v@[t]));
        }
        assert(all_digits_at(v@, 9, 6)) by {
            assert(forall|t: int| 9 <= t < 11 ==> is_digit(v@[t]));
            assert(forall|t: int| 11 <= t < 13 ==> is_digit(v@[t]));
            assert(forall|t: int| 13 <= t < 15 ==> is_digit(v@[t]));
        }
    }
    let dim = days_in_month_x(y as u16, mo as u8);
    if 1 <= mo && mo <= 12 && 1 <= d && d <= dim as u32 && y <= 9999 && h < 24 && mi < 60 && sec
        < 60 {
        Some(
            DateTimeParts {
                year: y as u16,
                month: mo as u8,
                day: d as u8,
                hour: h as u8,
                minute: mi as u8,
                second: sec as u8,
            },
        )
    } else {
        None
    }
}

/// Parses a 16-character `YYYYMMDDTHHMMSSZ` UTC date-time.
pub fn parse_utc_date_time(s: &str) -> (r: Option<DateTimeParts>)
    ensures
        r == parse_utc_spec(s@),
        r matches Some(d) ==> d.wf(),
{
    let v = str_chars(s);
    if v.len() != 16 {
        return None;
    }
    if v[15] != 'Z' {
        return None;
    }
    let head = crate::chars::range_string(&v, 0, 15);
    proof {
        assert(head@ =~= s@.take(15));
    }
    parse_naive_date_time(head.as_str())
}

} // verus!

verus! {

/// The three `DATE-TIME` forms of the format.
#[derive(Debug, Clone, PartialEq, Eq)]
pub enum CalendarDateTime {
    /// A date-time with no zone: interpreted in the reader's local zone.
    Floating(DateTimeParts),
    /// A date-time in UTC, written with a trailing `Z`.
    Utc(DateTimeParts),
    /// A local date-time tied to a named time zone.
    WithTimezone {
        /// The date and time in the named zone.
        date_time: DateTimeParts,
        /// The zone's identifier.
        tzid: String,
    },
}

/// The model of a `CalendarDateTime`.
pub enum CalendarDateTimeModel {
    /// No zone.
    Floating(DateTimeParts),
    /// UTC.
    Utc(DateTimeParts),
    /// A named zone.
    WithTimezone {
        /// The date and time in the named zone.
        date_time: DateTimeParts,
        /// The zone's identifier.
        tzid: Seq<char>,
    },
}

impl View for CalendarDateTime {
    type V = CalendarDateTimeModel;

    open spec fn view(&self) -> CalendarDateTimeModel {
        match self {
            CalendarDateTime::Floating(d) => CalendarDateTimeModel::Floating(*d),
            CalendarDateTime::Utc(d) => CalendarDateTimeModel::Utc(*d),
            CalendarDateTime::WithTimezone { date_time, tzid } => CalendarDateTimeModel::WithTimezone {
                date_time: *date_time,
                tzid: tzid@,
            },
        }
    }
}

/// How a typed property's value and parameters decode to a date-time:
/// a `TZID` parameter forces the zoned form; otherwise a bare form is
/// floating, and a `Z`-suffixed form is UTC.
pub open spec fn cdt_from_property_spec(p: PropertyModel) -> Option<CalendarDateTimeModel> {
    match param_lookup(p.params, "TZID"@) {
        Some(tz) => match parse_naive_spec(p.val) {
            Some(d) => Some(CalendarDateTimeModel::WithTimezone { date_time: d, tzid: tz.val }),
            None => None,
        },
        None => match parse_naive_spec(p.val) {
            Some(d) => Some(CalendarDateTimeModel::Floating(d)),
            None => match parse_utc_spec(p.val) {
                Some(d) => Some(CalendarDateTimeModel::Utc(d)),
                None => None,
            },
        },
    }
}

impl CalendarDateTime {
    /// Reads a date-time from a typed property, dispatching on the `TZID`
    /// parameter and the value's form.
    pub fn from_property(property: &Property) -> (r: Option<CalendarDateTime>)
        ensures
            match r {
                Some(c) => cdt_from_property_spec(property@) == Some(c@),
                None => cdt_from_property_spec(property@) is None,
            },
    {
        match property.get_param("TZID") {
            Some(tz) => {
                match parse_naive_date_time(property.value()) {
                    Some(d) => Some(
                        CalendarDateTime::WithTimezone {
                            date_time: d,
                            tzid: String::from_str(tz.value()),
                        },
                    ),
                    None => None,
                }
            },
            None => {
                match parse_naive_date_time(property.value()) {
                    Some(d) => Some(CalendarDateTime::Floating(d)),
                    None => match parse_utc_date_time(property.value()) {
                        Some(d) => Some(CalendarDateTime::Utc(d)),
                        None => None,
                    },
                }
            },
        }
    }

    /// Parses a bare value: UTC form first, then floating.
    pub fn from_str(s: &str) -> (r: Result<CalendarDateTime, ()>)
        ensures
            match r {
                Ok(c) => c@ == match parse_utc_spec(s@) {
                    Some(d) => CalendarDateTimeModel::Utc(d),
                    None => match parse_naive_spec(s@) {
                        Some(d) => CalendarDateTimeModel::Floating(d),
                        None => arbitrary(),
                    },
                } && (parse_utc_spec(s@) is Some || parse_naive_spec(s@) is Some),
                Err(_) => parse_utc_spec(s@) is None && parse_naive_spec(s@) is None,
            },
    {
        match parse_utc_date_time(s) {
            Some(d) => Ok(CalendarDateTime::Utc(d)),
            None => match parse_naive_date_time(s) {
                Some(d) => Ok(CalendarDateTime::Floating(d)),
                None => Err(()),
            },
        }
    }

    /// Writes this date-time as a property under `key`, in its own form:
    /// floating bare, UTC with `Z`, zoned with a `TZID` parameter.
    pub fn to_property(&self, key: &str) -> (r: Property)
        ensures
            r@.key == key@,
            r.wf(),
            match self@ {
                CalendarDateTimeModel::Floating(d) => r@.val == naive_date_time_str(d)
                    && r@.params.len() == 0,
                CalendarDateTimeModel::Utc(d) => r@.val == utc_date_time_str(d) && r@.params.len()
                    == 0,
                CalendarDateTimeModel::WithTimezone { date_time, tzid } => r@.val
                    == naive_date_time_str(date_time) && (param_lookup(r@.params, "TZID"@) matches
                Some(p) && p.val == tzid),
            },
    {
        match self {
            CalendarDateTime::Floating(d) => Property::from_raw_parts(
                String::from_str(key),
                format_naive_date_time(d),
            ),
            CalendarDateTime::Utc(d) => Property::from_raw_parts(
                String::from_str(key),
                format_utc_date_time(d),
            ),
            CalendarDateTime::WithTimezone { date_time, tzid } => Property::from_raw_parts(
                String::from_str(key),
                format_naive_date_time(date_time),
            ).add_parameter("TZID", tzid.as_str()),
        }
    }

    /// Converts to UTC where that needs no guess: a UTC value stands, a
    /// floating one is refused, and a zoned one asks the time-zone
    /// resolver; whatever comes back, any result is a valid date-time.
    pub fn try_into_utc(&self) -> (r: Option<DateTimeParts>)
        requires
            self@ matches CalendarDateTimeModel::WithTimezone { date_time, tzid } ==> date_time.wf(),
        ensures
            self@ matches CalendarDateTimeModel::Utc(d) ==> r == Some(d),
            self@ is Floating ==> r is None,
            r matches Some(d) ==> (self@ is WithTimezone ==> d.wf()),
    {
        match self {
            CalendarDateTime::Floating(_) => None,
            CalendarDateTime::Utc(d) => Some(*d),
            CalendarDateTime::WithTimezone { date_time, tzid } => {
                match local_to_utc_parts(
                    tzid.as_str(),
                    date_time.year as i32,
                    date_time.month as u32,
                    date_time.day as u32,
                    date_time.hour as u32,
                    date_time.minute as u32,
                    date_time.second as u32,
                ) {
                    Some((y, mo, d, h, mi, s)) => {
                        if 0 <= y && y <= 9999 {
                            match DateTimeParts::from_ymd_hms(
                                y as u16,
                                mo as u8,
                                d as u8,
                                h as u8,
                                mi as u8,
                                s as u8,
                            ) {
                                Some(p) => Some(p),
                                None => None,
                            }
                        } else {
                            None
                        }
                    },
                    None => None,
                }
            },
        }
    }
}

/// Either a date-time or a bare date, told apart by `VALUE=DATE`.
#[derive(Debug, Clone, PartialEq, Eq)]
pub enum DatePerhapsTime {
    /// A date with a time.
    DateTime(CalendarDateTime),
    /// A bare date.
    Date(DateParts),
}

/// The model of a `DatePerhapsTime`.
pub enum DatePerhapsTimeModel {
    /// A date with a time.
    DateTime(CalendarDateTimeModel),
    /// A bare date.
    Date(DateParts),
}

impl View for DatePerhapsTime {
    type V = DatePerhapsTimeModel;

    open spec fn view(&self) -> DatePerhapsTimeModel {
        match self {
            DatePerhapsTime::DateTime(c) => DatePerhapsTimeModel::DateTime(c@),
            DatePerhapsTime::Date(d) => DatePerhapsTimeModel::Date(*d),
        }
    }
}

/// How a typed property decodes: a `VALUE=DATE` parameter selects the
/// bare-date codec; anything else goes through the date-time forms.
pub open spec fn dpt_from_property_spec(p: PropertyModel) -> Option<DatePerhapsTimeModel> {
    let vt = match param_lookup(p.params, "VALUE"@) {
        Some(q) => crate::value_types::value_type_from_str(q.val),
        None => None,
    };
    if vt == Some(crate::value_types::ValueType::Date) {
        match parse_date_spec(p.val) {
            Some(d) => Some(DatePerhapsTimeModel::Date(d)),
            None => None,
        }
    } else {
        match cdt_from_property_spec(p) {
            Some(c) => Some(DatePerhapsTimeModel::DateTime(c)),
            None => None,
        }
    }
}

impl DatePerhapsTime {
    /// Reads a date-or-date-time from a typed property.
    pub fn from_property(property: &Property) -> (r: Option<DatePerhapsTime>)
        ensures
            match r {
                Some(c) => dpt_from_property_spec(property@) == Some(c@),
                None => dpt_from_property_spec(property@) is None,
            },
    {
        let is_date = match property.value_type() {
            Some(crate::value_types::ValueType::Date) => true,
            _ => false,
        };
        if is_date {
            match parse_date(property.value()) {
                Some(d) => Some(DatePerhapsTime::Date(d)),
                None => None,
            }
        } else {
            match CalendarDateTime::from_property(property) {
                Some(c) => Some(DatePerhapsTime::DateTime(c)),
                None => None,
            }
        }
    }

    /// Writes this value as a property under `key`.
    pub fn to_property(&self, key: &str) -> (r: Property)
        ensures
            r@.key == key@,
            r.wf(),
            match self@ {
                DatePerhapsTimeModel::Date(d) => r@.val == date_str(d) && (param_lookup(
                    r@.params,
                    "VALUE"@,
                ) matches Some(p) && p.val == "DATE"@),
                DatePerhapsTimeModel::DateTime(c) => match c {
                    CalendarDateTimeModel::Floating(d) => r@.val == naive_date_time_str(d)
                        && r@.params.len() == 0,
                    CalendarDateTimeModel::Utc(d) => r@.val == utc_date_time_str(d)
                        && r@.params.len() == 0,
                    CalendarDateTimeModel::WithTimezone { date_time, tzid } => r@.val
                        == naive_date_time_str(date_time) && (param_lookup(r@.params, "TZID"@)
                    matches Some(p) && p.val == tzid),
                },
            },
    {
        match self {
            DatePerhapsTime::DateTime(c) => c.to_property(key),
            DatePerhapsTime::Date(d) => naive_date_to_property(d, key),
        }
    }
}

/// Writes a bare date as a `VALUE=DATE` property under `key`.
pub fn naive_date_to_property(date: &DateParts, key: &str) -> (r: Property)
    ensures
        r@.key == key@,
        r@.val == date_str(*date),
        param_lookup(r@.params, "VALUE"@) matches Some(p) && p.val == "DATE"@,
        r.wf(),
{
    Property::from_raw_parts(String::from_str(key), format_date(date)).add_parameter(
        "VALUE",
        "DATE",
    )
}

/// The first parameter with key `k` in a parsed parameter list.
pub open spec fn parser_param_lookup(
    ps: Seq<crate::parser::grammar::ParamModel>,
    k: Seq<char>,
) -> Option<crate::parser::grammar::ParamModel>
    decreases ps.len(),
{
    if ps.len() == 0 {
        None
    } else if ps[0].key == k {
        Some(ps[0])
    } else {
        parser_param_lookup(ps.skip(1), k)
    }
}

/// How a freshly parsed property decodes, in the order the dispatch
/// tries the forms: UTC, bare date, then a local form whose zone comes
/// from a `TZID` parameter; an empty `TZID` is an error.
pub open spec fn dpt_from_parser_spec(p: crate::parser::grammar::PropModel) -> Result<
    DatePerhapsTimeModel,
    int,
> {
    match parse_utc_spec(p.val) {
        Some(d) => Ok(DatePerhapsTimeModel::DateTime(CalendarDateTimeModel::Utc(d))),
        None => match parse_date_spec(p.val) {
            Some(d) => Ok(DatePerhapsTimeModel::Date(d)),
            None => match parse_naive_spec(p.val) {
                Some(d) => match parser_param_lookup(p.params, "TZID"@) {
                    Some(tz) => match tz.val {
                        Some(z) => Ok(
                            DatePerhapsTimeModel::DateTime(
                                CalendarDateTimeModel::WithTimezone { date_time: d, tzid: z },
                            ),
                        ),
                        None => Err(1),
                    },
                    None => Ok(
                        DatePerhapsTimeModel::DateTime(CalendarDateTimeModel::Floating(d)),
                    ),
                },
                None => Err(2),
            },
        },
    }
}

impl DatePerhapsTime {
    /// Reads a parsed property's value as a date or date-time, trying the
    /// UTC form, the bare date, and the local forms in that order.
    pub fn from_parser_property(p: &crate::parser::properties::Property) -> (r: Result<
        DatePerhapsTime,
        &'static str,
    >)
        ensures
            match r {
                Ok(c) => dpt_from_parser_spec(p@) == Ok::<DatePerhapsTimeModel, int>(c@),
                Err(_) => dpt_from_parser_spec(p@) is Err,
            },
    {
        if let Some(d) = parse_utc_date_time(p.val.as_str()) {
            return Ok(DatePerhapsTime::DateTime(CalendarDateTime::Utc(d)));
        }
        if let Some(d) = parse_date(p.val.as_str()) {
            return Ok(DatePerhapsTime::Date(d));
        }
        if let Some(d) = parse_naive_date_time(p.val.as_str()) {
            let n = p.params.len();
            let mut i: usize = 0;
            let ghost ps = p@.params;
            proof {
                assert(ps.skip(0) =~= ps);
            }
            loop
                invariant
                    i <= n,
                    n == p.params@.len(),
                    ps == p@.params,
                    ps.len() == n,
                    forall|t: int| 0 <= t < n ==> ps[t] == p.params@[t]@,
                    parser_param_lookup(ps, "TZID"@) == parser_param_lookup(
                        ps.skip(i as int),
                        "TZID"@,
                    ),
                ensures
                    i <= n,
                    parser_param_lookup(ps, "TZID"@) == parser_param_lookup(
                        ps.skip(i as int),
                        "TZID"@,
                    ),
                    i == n || ps[i as int].key == "TZID"@,
                decreases n - i,
            {
                if i >= n {
                    break ;
                }
                proof {
                    assert(ps.skip(i as int)[0] == ps[i as int]);
                    assert(ps.skip(i as int).skip(1) =~= ps.skip(i as int + 1));
                }
                if p.params[i].key.eq_str("TZID") {
                    break ;
                }
                i = i + 1;
            }
            if i < n {
                proof {
                    assert(parser_param_lookup(ps.skip(i as int), "TZID"@) == Some(ps[i as int]))
                        by {
                        assert(ps.skip(i as int)[0] == ps[i as int]);
                    }
                }
                match &p.params[i].val {
                    Some(z) => {
                        return Ok(
                            DatePerhapsTime::DateTime(
                                CalendarDateTime::WithTimezone {
                                    date_time: d,
                                    tzid: String::from_str(z.as_str()),
                                },
                            ),
                        );
                    },
                    None => {
                        return Err("Found empty TZID param.");
                    },
                }
            } else {
                proof {
                    assert(ps.skip(n as int) =~= Seq::<
                        crate::parser::grammar::ParamModel,
                    >::empty());
                }
                return Ok(DatePerhapsTime::DateTime(CalendarDateTime::Floating(d)));
            }
        }
        Err("Value does not look like a known DATE-TIME")
    }
}

} // verus!
