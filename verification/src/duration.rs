//! Durations: the builder-facing week/day/time duration of the format
//! (no year or month units), and the seconds-counted delta used by alarm
//! triggers and refresh intervals.

use crate::chars::chars_to_string;
use crate::numbers::dec_rep;
use crate::numbers::push_dec;
use crate::outside::iso_duration_of;
use crate::outside::parse_iso_duration;
use crate::outside::IsoDurationParts;
use vstd::prelude::*;

verus! {

/// A duration in the format's own units: sign, weeks, days, hours,
/// minutes and seconds. Year and month magnitudes do not exist here —
/// the format's durations never carry calendar-relative units.
#[derive(Debug, Copy, Clone, PartialEq, Eq, Structural)]
pub struct Duration {
    /// The sign: a negative duration points into the past.
    pub positive: bool,
    /// Whole weeks.
    pub weeks: u64,
    /// Whole days.
    pub days: u64,
    /// Whole hours.
    pub hours: u64,
    /// Whole minutes.
    pub minutes: u64,
    /// Whole seconds.
    pub seconds: u64,
}

/// The zero duration, positive.
pub open spec fn duration_default() -> Duration {
    Duration { positive: true, weeks: 0, days: 0, hours: 0, minutes: 0, seconds: 0 }
}

impl Default for Duration {
    /// The zero duration.
    fn default() -> (r: Self)
        ensures
            r == duration_default(),
    {
        Duration { positive: true, weeks: 0, days: 0, hours: 0, minutes: 0, seconds: 0 }
    }
}

/// How a duration is written: sign, `P`, the nonzero date units, and a
/// `T` section when any time unit is nonzero.
pub open spec fn duration_str(d: Duration) -> Seq<char> {
    let sign: Seq<char> = if d.positive {
        Seq::empty()
    } else {
        seq!['-']
    };
    let w: Seq<char> = if d.weeks > 0 {
        dec_rep(d.weeks as nat) + seq!['W']
    } else {
        Seq::empty()
    };
    let dd: Seq<char> = if d.days > 0 {
        dec_rep(d.days as nat) + seq!['D']
    } else {
        Seq::empty()
    };
    let h: Seq<char> = if d.hours > 0 {
        dec_rep(d.hours as nat) + seq!['H']
    } else {
        Seq::empty()
    };
    let m: Seq<char> = if d.minutes > 0 {
        dec_rep(d.minutes as nat) + seq!['M']
    } else {
        Seq::empty()
    };
    let s: Seq<char> = if d.seconds > 0 {
        dec_rep(d.seconds as nat) + seq!['S']
    } else {
        Seq::empty()
    };
    let time: Seq<char> = if d.hours > 0 || d.minutes > 0 || d.seconds > 0 {
        seq!['T'] + h + m + s
    } else {
        Seq::empty()
    };
    sign + seq!['P'] + w + dd + time
}

/// The duration a parsed ISO form denotes, by the format's rules: year
/// and month units are rejected; milliseconds are not represented.
pub open spec fn duration_from_iso(p: IsoDurationParts) -> Option<Duration> {
    match p {
        IsoDurationParts::Ymdhms { year, month, day, hour, minute, second, millisecond } => {
            if year > 0 || month > 0 {
                None
            } else {
                Some(
                    Duration {
                        positive: true,
                        weeks: 0,
                        days: day as u64,
                        hours: hour as u64,
                        minutes: minute as u64,
                        seconds: second as u64,
                    },
                )
            }
        },
        IsoDurationParts::Weeks(w) => Some(
            Duration {
                positive: true,
                weeks: w as u64,
                days: 0,
                hours: 0,
                minutes: 0,
                seconds: 0,
            },
        ),
    }
}

/// What `Duration::from_str` accepts: an optional leading minus, then an
/// ISO 8601 duration without year or month units.
pub open spec fn duration_parse(s: Seq<char>) -> Option<Duration> {
    if s.len() == 0 {
        None
    } else if s[0] == '-' {
        match iso_duration_of(s.skip(1)) {
            Some(p) => match duration_from_iso(p) {
                Some(d) => Some(Duration { positive: false, ..d }),
                None => None,
            },
            None => None,
        }
    } else {
        match iso_duration_of(s) {
            Some(p) => duration_from_iso(p),
            None => None,
        }
    }
}

impl Duration {
    /// A duration from all of its parts.
    pub fn new(positive: bool, weeks: u64, days: u64, hours: u64, minutes: u64, seconds: u64) -> (r:
        Self)
        ensures
            r == (Duration { positive, weeks, days, hours, minutes, seconds }),
    {
        Self { positive, weeks, days, hours, minutes, seconds }
    }

    /// A positive duration of whole weeks.
    pub fn weeks(weeks: u64) -> (r: Self)
        ensures
            r == (Duration { weeks, ..duration_default() }),
    {
        Self { weeks, ..Self::default() }
    }

    /// A positive duration of whole days.
    pub fn days(days: u64) -> (r: Self)
        ensures
            r == (Duration { days, ..duration_default() }),
    {
        Self { days, ..Self::default() }
    }

    /// A positive duration of whole hours.
    pub fn hours(hours: u64) -> (r: Self)
        ensures
            r == (Duration { hours, ..duration_default() }),
    {
        Self { hours, ..Self::default() }
    }

    /// A positive duration of whole minutes.
    pub fn minutes(minutes: u64) -> (r: Self)
        ensures
            r == (Duration { minutes, ..duration_default() }),
    {
        Self { minutes, ..Self::default() }
    }

    /// A positive duration of whole seconds.
    pub fn seconds(seconds: u64) -> (r: Self)
        ensures
            r == (Duration { seconds, ..duration_default() }),
    {
        Self { seconds, ..Self::default() }
    }

    /// The same duration with the week count replaced.
    pub fn and_weeks(self, weeks: u64) -> (r: Self)
        ensures
            r == (Duration { weeks, ..self }),
    {
        Self { weeks, ..self }
    }

    /// The same duration with the day count replaced.
    pub fn and_days(self, days: u64) -> (r: Self)
        ensures
            r == (Duration { days, ..self }),
    {
        Self { days, ..self }
    }

    /// The same duration with the hour count replaced.
    pub fn and_hours(self, hours: u64) -> (r: Self)
        ensures
            r == (Duration { hours, ..self }),
    {
        Self { hours, ..self }
    }

    /// The same duration with the minute count replaced.
    pub fn and_minutes(self, minutes: u64) -> (r: Self)
        ensures
            r == (Duration { minutes, ..self }),
    {
        Self { minutes, ..self }
    }

    /// The same duration with the second count replaced.
    pub fn and_seconds(self, seconds: u64) -> (r: Self)
        ensures
            r == (Duration { seconds, ..self }),
    {
        Self { seconds, ..self }
    }

    /// The same duration with the opposite sign.
    pub fn neg(self) -> (r: Self)
        ensures
            r == (Duration { positive: !self.positive, ..self }),
    {
        Self { positive: !self.positive, ..self }
    }

    /// Parses a duration: an optional leading minus, then the ISO 8601
    /// form. A duration carrying year or month units is rejected, as the
    /// format demands.
    pub fn from_str(s: &str) -> (r: Result<Self, ()>)
        ensures
            match r {
                Ok(d) => duration_parse(s@) == Some(d),
                Err(_) => duration_parse(s@) is None,
            },
    {
        let v = crate::chars::str_chars(s);
        if v.len() == 0 {
            return Err(());
        }
        if v[0] == '-' {
            let rest = crate::chars::range_string(&v, 1, v.len());
            proof {
                assert(rest@ =~= s@.skip(1));
            }
            match parse_iso_duration(rest.as_str()) {
                Some(p) => match Self::try_from_iso(p) {
                    Ok(d) => Ok(d.neg()),
                    Err(_) => Err(()),
                },
                None => Err(()),
            }
        } else {
            match parse_iso_duration(s) {
                Some(p) => Self::try_from_iso(p),
                None => Err(()),
            }
        }
    }

    /// Accepts a parsed ISO duration, rejecting year and month units.
    pub fn try_from_iso(value: IsoDurationParts) -> (r: Result<Self, ()>)
        ensures
            match r {
                Ok(d) => duration_from_iso(value) == Some(d),
                Err(_) => duration_from_iso(value) is None,
            },
    {
        match value {
            IsoDurationParts::Ymdhms { year, month, day, hour, minute, second, millisecond: _ } => {
                if year > 0 || month > 0 {
                    Err(())
                } else {
                    Ok(
                        Self::new(
                            true,
                            0,
                            day as u64,
                            hour as u64,
                            minute as u64,
                            second as u64,
                        ),
                    )
                }
            },
            IsoDurationParts::Weeks(w) => Ok(Self::weeks(w as u64)),
        }
    }

    /// Writes the duration: sign, `P`, nonzero units, `T` before any time
    /// units.
    #[verifier::rlimit(100)]
    pub fn to_string(&self) -> (r: String)
        ensures
            r@ == duration_str(*self),
    {
        let ghost sign: Seq<char> = if self.positive {
            Seq::empty()
        } else {
            seq!['-']
        };
        let ghost wpart: Seq<char> = if self.weeks > 0 {
            dec_rep(self.weeks as nat) + seq!['W']
        } else {
            Seq::empty()
        };
        let ghost dpart: Seq<char> = if self.days > 0 {
            dec_rep(self.days as nat) + seq!['D']
        } else {
            Seq::empty()
        };
        let ghost hpart: Seq<char> = if self.hours > 0 {
            dec_rep(self.hours as nat) + seq!['H']
        } else {
            Seq::empty()
        };
        let ghost mpart: Seq<char> = if self.minutes > 0 {
            dec_rep(self.minutes as nat) + seq!['M']
        } else {
            Seq::empty()
        };
        let ghost spart: Seq<char> = if self.seconds > 0 {
            dec_rep(self.seconds as nat) + seq!['S']
        } else {
            Seq::empty()
        };
        let ghost tpart: Seq<char> = if self.hours > 0 || self.minutes > 0 || self.seconds > 0 {
            seq!['T'] + hpart + mpart + spart
        } else {
            Seq::empty()
        };
        let mut out: Vec<char> = Vec::new();
        if !self.positive {
            out.push('-');
        }
        out.push('P');
        proof {
            assert(out@ =~= sign + seq!['P']);
        }
        if self.weeks > 0 {
            push_dec(&mut out, self.weeks);
            out.push('W');
        }
        proof {
            assert(out@ =~= sign + seq!['P'] + wpart);
        }
        if self.days > 0 {
            push_dec(&mut out, self.days);
            out.push('D');
        }
        proof {
            assert(out@ =~= sign + seq!['P'] + wpart + dpart);
        }
        if self.hours > 0 || self.minutes > 0 || self.seconds > 0 {
            let ghost base = out@;
            out.push('T');
            if self.hours > 0 {
                push_dec(&mut out, self.hours);
                out.push('H');
            }
            proof {
                assert(out@ =~= base + seq!['T'] + hpart);
            }
            if self.minutes > 0 {
                push_dec(&mut out, self.minutes);
                out.push('M');
            }
            proof {
                assert(out@ =~= base + seq!['T'] + hpart + mpart);
            }
            if self.seconds > 0 {
                push_dec(&mut out, self.seconds);
                out.push('S');
            }
            proof {
                assert(out@ =~= base + seq!['T'] + hpart + mpart + spart);
                assert(tpart == seq!['T'] + hpart + mpart + spart);
                assert(out@ =~= base + tpart);
            }
        }
        proof {
            assert(out@ =~= sign + seq!['P'] + wpart + dpart + tpart);
            assert(duration_str(*self) == sign + seq!['P'] + wpart + dpart + tpart);
        }
        chars_to_string(&out)
    }

    /// This duration as a `DURATION` property.
    pub fn to_property(&self) -> (r: crate::properties::Property)
        ensures
            r@.key == "DURATION"@,
            r@.val == duration_str(*self),
            r@.params.len() == 0,
            r.wf(),
    {
        crate::properties::Property::from_raw_parts(
            <String as vstd::string::StringExecFns>::from_str("DURATION"),
            self.to_string(),
        )
    }
}

/// The widest seconds count a delta may carry (the millisecond count of
/// an `i64`, in whole seconds).
pub const MAX_DELTA_SECS: i64 = 9_223_372_036_854_775;

/// A signed span of time counted in whole seconds, as alarm triggers and
/// refresh intervals store it.
#[derive(Debug, Copy, Clone, PartialEq, Eq, Structural)]
pub struct DeltaSeconds {
    /// The signed seconds count.
    pub secs: i64,
}

impl DeltaSeconds {
    /// A representable seconds count.
    pub open spec fn wf(&self) -> bool {
        -MAX_DELTA_SECS <= self.secs <= MAX_DELTA_SECS
    }

    /// The signed seconds count.
    pub open spec fn spec_secs(&self) -> int {
        self.secs as int
    }

    /// The signed seconds count.
    pub fn secs(&self) -> (r: i64)
        ensures
            r as int == self.spec_secs(),
    {
        self.secs
    }

    /// A delta of whole seconds.
    pub fn seconds(n: i64) -> (r: Self)
        requires
            -MAX_DELTA_SECS <= n <= MAX_DELTA_SECS,
        ensures
            r.spec_secs() == n,
            r.wf(),
    {
        Self { secs: n }
    }

    /// A delta of whole minutes.
    pub fn minutes(n: i64) -> (r: Self)
        requires
            -MAX_DELTA_SECS <= n * 60 <= MAX_DELTA_SECS,
        ensures
            r.spec_secs() == n * 60,
            r.wf(),
    {
        Self { secs: n * 60 }
    }

    /// A delta of whole hours.
    pub fn hours(n: i64) -> (r: Self)
        requires
            -MAX_DELTA_SECS <= n * 3600 <= MAX_DELTA_SECS,
        ensures
            r.spec_secs() == n * 3600,
            r.wf(),
    {
        Self { secs: n * 3600 }
    }

    /// A delta of whole days.
    pub fn days(n: i64) -> (r: Self)
        requires
            -MAX_DELTA_SECS <= n * 86400 <= MAX_DELTA_SECS,
        ensures
            r.spec_secs() == n * 86400,
            r.wf(),
    {
        Self { secs: n * 86400 }
    }

    /// A delta of whole weeks.
    pub fn weeks(n: i64) -> (r: Self)
        requires
            -MAX_DELTA_SECS <= n * 604800 <= MAX_DELTA_SECS,
        ensures
            r.spec_secs() == n * 604800,
            r.wf(),
    {
        Self { secs: n * 604800 }
    }

    /// The same span in the opposite direction.
    pub fn neg(self) -> (r: Self)
        requires
            self.wf(),
        ensures
            r.spec_secs() == -self.spec_secs(),
            r.wf(),
    {
        Self { secs: -self.secs }
    }

    /// Writes the delta in the ISO style seconds deltas use on the wire:
    /// `P0D` for zero, otherwise a sign, `PT`, the magnitude and `S`.
    pub fn to_string(&self) -> (r: String)
        requires
            self.wf(),
        ensures
            r@ == delta_seconds_str(self.spec_secs()),
    {
        let mut out: Vec<char> = Vec::new();
        if self.secs == 0 {
            out.push('P');
            out.push('0');
            out.push('D');
        } else if self.secs < 0 {
            out.push('-');
            out.push('P');
            out.push('T');
            push_dec(&mut out, (-self.secs) as u64);
            out.push('S');
        } else {
            out.push('P');
            out.push('T');
            push_dec(&mut out, self.secs as u64);
            out.push('S');
        }
        proof {
            assert(out@ =~= delta_seconds_str(self.spec_secs()));
        }
        chars_to_string(&out)
    }

    /// This delta as a `DURATION` property.
    pub fn to_property(&self) -> (r: crate::properties::Property)
        requires
            self.wf(),
        ensures
            r@.key == "DURATION"@,
            r@.val == delta_seconds_str(self.spec_secs()),
            r@.params.len() == 0,
            r.wf(),
    {
        crate::properties::Property::from_raw_parts(
            <String as vstd::string::StringExecFns>::from_str("DURATION"),
            self.to_string(),
        )
    }
}

/// How a seconds delta is written: `P0D` for zero, else sign, `PT`,
/// magnitude, `S`.
pub open spec fn delta_seconds_str(secs: int) -> Seq<char> {
    if secs == 0 {
        seq!['P', '0', 'D']
    } else if secs < 0 {
        seq!['-', 'P', 'T'] + dec_rep((-secs) as nat) + seq!['S']
    } else {
        seq!['P', 'T'] + dec_rep(secs as nat) + seq!['S']
    }
}

/// The seconds a parsed ISO duration spans: years as 365 days, months as
/// 30 days, weeks as 7 days.
pub open spec fn iso_parts_secs(p: IsoDurationParts) -> int {
    match p {
        IsoDurationParts::Ymdhms { year, month, day, hour, minute, second, millisecond } => {
            year * 365 * 86400 + month * 30 * 86400 + day * 86400 + hour * 3600 + minute * 60
                + second
        },
        IsoDurationParts::Weeks(w) => w * 7 * 86400,
    }
}

/// What parsing a duration value into a seconds delta yields: the ISO
/// parse, its seconds count, rejected when it cannot be represented.
pub open spec fn delta_parse(s: Seq<char>) -> Option<DeltaSeconds> {
    match iso_duration_of(s) {
        Some(p) => if iso_parts_secs(p) <= MAX_DELTA_SECS {
            Some(DeltaSeconds { secs: iso_parts_secs(p) as i64 })
        } else {
            None
        },
        None => None,
    }
}

/// Parses a duration value into a (nonnegative) seconds delta.
pub fn parse_delta_seconds(s: &str) -> (r: Option<DeltaSeconds>)
    ensures
        r == delta_parse(s@),
        r matches Some(d) ==> d.wf() && d.spec_secs() >= 0,
{
    match parse_iso_duration(s) {
        Some(p) => {
            let total: u64 = match p {
                IsoDurationParts::Ymdhms { year, month, day, hour, minute, second, millisecond: _,
                } => {
                    (year as u64) * 365 * 86400 + (month as u64) * 30 * 86400 + (day as u64) * 86400
                        + (hour as u64) * 3600 + (minute as u64) * 60 + (second as u64)
                },
                IsoDurationParts::Weeks(w) => (w as u64) * 7 * 86400,
            };
            if total <= 9_223_372_036_854_775u64 {
                Some(DeltaSeconds { secs: total as i64 })
            } else {
                None
            }
        },
        None => None,
    }
}

} // verus!
