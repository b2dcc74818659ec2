//! The registry of value data types a property may carry.

use crate::chars::char_is_lowercase;
use crate::chars::str_chars;
use crate::chars::unicode_lowercase;
use crate::parser::parsed_string::str_eq_str;
use vstd::prelude::*;

verus! {

/// A value data type named by the `VALUE` parameter or implied by a
/// property's name.
#[derive(Copy, Clone, Debug, Eq, PartialEq)]
pub enum ValueType {
    /// Inline binary data.
    Binary,
    /// A boolean.
    Boolean,
    /// A calendar user address.
    CalAddress,
    /// A calendar date.
    Date,
    /// A date with a time of day.
    DateTime,
    /// A duration of time.
    Duration,
    /// A real number.
    Float,
    /// An integer.
    Integer,
    /// A period of time.
    Period,
    /// A recurrence rule.
    Recur,
    /// Human-readable text.
    Text,
    /// A time of day.
    Time,
    /// A uniform resource identifier.
    Uri,
    /// An offset from UTC.
    UtcOffset,
}

/// Decoding of a `VALUE` parameter's value.
pub open spec fn value_type_from_str(s: Seq<char>) -> Option<ValueType> {
    if s == "BINARY"@ {
        Some(ValueType::Binary)
    } else if s == "BOOLEAN"@ {
        Some(ValueType::Boolean)
    } else if s == "CAL-ADDRESS"@ {
        Some(ValueType::CalAddress)
    } else if s == "DATE"@ {
        Some(ValueType::Date)
    } else if s == "DATE-TIME"@ {
        Some(ValueType::DateTime)
    } else if s == "DURATION"@ {
        Some(ValueType::Duration)
    } else if s == "FLOAT"@ {
        Some(ValueType::Float)
    } else if s == "INTEGER"@ {
        Some(ValueType::Integer)
    } else if s == "PERIOD"@ {
        Some(ValueType::Period)
    } else if s == "RECUR"@ {
        Some(ValueType::Recur)
    } else if s == "TEXT"@ {
        Some(ValueType::Text)
    } else if s == "TIME"@ {
        Some(ValueType::Time)
    } else if s == "URI"@ {
        Some(ValueType::Uri)
    } else if s == "UTC-OFFSET"@ {
        Some(ValueType::UtcOffset)
    } else {
        None
    }
}

impl ValueType {
    /// Decodes a `VALUE` parameter's value.
    pub fn from_str(val: &str) -> (r: Option<Self>)
        ensures
            r == value_type_from_str(val@),
    {
        if str_eq_str(val, "BINARY") {
            Some(Self::Binary)
        } else if str_eq_str(val, "BOOLEAN") {
            Some(Self::Boolean)
        } else if str_eq_str(val, "CAL-ADDRESS") {
            Some(Self::CalAddress)
        } else if str_eq_str(val, "DATE") {
            Some(Self::Date)
        } else if str_eq_str(val, "DATE-TIME") {
            Some(Self::DateTime)
        } else if str_eq_str(val, "DURATION") {
            Some(Self::Duration)
        } else if str_eq_str(val, "FLOAT") {
            Some(Self::Float)
        } else if str_eq_str(val, "INTEGER") {
            Some(Self::Integer)
        } else if str_eq_str(val, "PERIOD") {
            Some(Self::Period)
        } else if str_eq_str(val, "RECUR") {
            Some(Self::Recur)
        } else if str_eq_str(val, "TEXT") {
            Some(Self::Text)
        } else if str_eq_str(val, "TIME") {
            Some(Self::Time)
        } else if str_eq_str(val, "URI") {
            Some(Self::Uri)
        } else if str_eq_str(val, "UTC-OFFSET") {
            Some(Self::UtcOffset)
        } else {
            None
        }
    }

    /// The default value type registered for an upper-case property name;
    /// a name with any lower-case letter is refused.
    pub open spec fn by_name_spec(name: Seq<char>) -> Option<ValueType> {
        if exists|i: int| 0 <= i < name.len() && unicode_lowercase(name[i]) {
            None
        } else {
            Self::value_type_by_upper_name(name)
        }
    }

    /// The registry itself, for names already known to be upper-case.
    pub open spec fn value_type_by_upper_name(name: Seq<char>) -> Option<ValueType> {
        if name == "CALSCALE"@ || name == "METHOD"@ || name == "PRODID"@ || name == "VERSION"@
            || name == "CATEGORIES"@ || name == "CLASS"@ || name == "COMMENT"@ || name
            == "DESCRIPTION"@ || name == "LOCATION"@ || name == "RESOURCES"@ || name == "STATUS"@
            || name == "SUMMARY"@ || name == "TRANSP"@ || name == "TZID"@ || name == "TZNAME"@
            || name == "CONTACT"@ || name == "RELATED-TO"@ || name == "UID"@ || name == "ACTION"@
            || name == "REQUEST-STATUS"@ {
            Some(ValueType::Text)
        } else if name == "GEO"@ {
            Some(ValueType::Float)
        } else if name == "PERCENT-COMPLETE"@ || name == "PRIORITY"@ || name == "REPEAT"@ || name
            == "SEQUENCE"@ {
            Some(ValueType::Integer)
        } else if name == "COMPLETED"@ || name == "DTEND"@ || name == "DUE"@ || name == "DTSTART"@
            || name == "RECURRENCE-ID"@ || name == "EXDATE"@ || name == "RDATE"@ || name
            == "CREATED"@ || name == "DTSTAMP"@ || name == "LAST-MODIFIED"@ {
            Some(ValueType::DateTime)
        } else if name == "DURATION"@ || name == "TRIGGER"@ {
            Some(ValueType::Duration)
        } else if name == "FREEBUSY"@ {
            Some(ValueType::Period)
        } else if name == "TZOFFSETFROM"@ || name == "TZOFFSETTO"@ {
            Some(ValueType::UtcOffset)
        } else if name == "ATTACH"@ || name == "TZURL"@ || name == "URL"@ {
            Some(ValueType::Uri)
        } else if name == "ATTENDEE"@ || name == "ORGANIZER"@ {
            Some(ValueType::CalAddress)
        } else if name == "RRULE"@ {
            Some(ValueType::Recur)
        } else {
            None
        }
    }

    /// The default value type registered for a property name.
    pub fn by_name(name: &str) -> (r: Option<Self>)
        ensures
            r == Self::by_name_spec(name@),
    {
        let v = str_chars(name);
        let n = v.len();
        let mut i: usize = 0;
        loop
            invariant
                i <= n,
                n == v@.len(),
                v@ == name@,
                forall|t: int| 0 <= t < i ==> !unicode_lowercase(name@[t]),
            ensures
                i <= n,
                forall|t: int| 0 <= t < i ==> !unicode_lowercase(name@[t]),
                i == n || unicode_lowercase(name@[i as int]),
            decreases n - i,
        {
            if i >= n {
                break ;
            }
            if char_is_lowercase(v[i]) {
                break ;
            }
            i = i + 1;
        }
        if i < n {
            return None;
        }
        if str_eq_str(name, "CALSCALE") || str_eq_str(name, "METHOD") || str_eq_str(name, "PRODID")
            || str_eq_str(name, "VERSION") || str_eq_str(name, "CATEGORIES") || str_eq_str(
            name,
            "CLASS",
        ) || str_eq_str(name, "COMMENT") || str_eq_str(name, "DESCRIPTION") || str_eq_str(
            name,
            "LOCATION",
        ) || str_eq_str(name, "RESOURCES") || str_eq_str(name, "STATUS") || str_eq_str(
            name,
            "SUMMARY",
        ) || str_eq_str(name, "TRANSP") || str_eq_str(name, "TZID") || str_eq_str(name, "TZNAME")
            || str_eq_str(name, "CONTACT") || str_eq_str(name, "RELATED-TO") || str_eq_str(
            name,
            "UID",
        ) || str_eq_str(name, "ACTION") || str_eq_str(name, "REQUEST-STATUS") {
            Some(ValueType::Text)
        } else if str_eq_str(name, "GEO") {
            Some(ValueType::Float)
        } else if str_eq_str(name, "PERCENT-COMPLETE") || str_eq_str(name, "PRIORITY")
            || str_eq_str(name, "REPEAT") || str_eq_str(name, "SEQUENCE") {
            Some(ValueType::Integer)
        } else if str_eq_str(name, "COMPLETED") || str_eq_str(name, "DTEND") || str_eq_str(
            name,
            "DUE",
        ) || str_eq_str(name, "DTSTART") || str_eq_str(name, "RECURRENCE-ID") || str_eq_str(
            name,
            "EXDATE",
        ) || str_eq_str(name, "RDATE") || str_eq_str(name, "CREATED") || str_eq_str(name, "DTSTAMP")
            || str_eq_str(name, "LAST-MODIFIED") {
            Some(ValueType::DateTime)
        } else if str_eq_str(name, "DURATION") || str_eq_str(name, "TRIGGER") {
            Some(ValueType::Duration)
        } else if str_eq_str(name, "FREEBUSY") {
            Some(ValueType::Period)
        } else if str_eq_str(name, "TZOFFSETFROM") || str_eq_str(name, "TZOFFSETTO") {
            Some(ValueType::UtcOffset)
        } else if str_eq_str(name, "ATTACH") || str_eq_str(name, "TZURL") || str_eq_str(
            name,
            "URL",
        ) {
            Some(ValueType::Uri)
        } else if str_eq_str(name, "ATTENDEE") || str_eq_str(name, "ORGANIZER") {
            Some(ValueType::CalAddress)
        } else if str_eq_str(name, "RRULE") {
            Some(ValueType::Recur)
        } else {
            None
        }
    }

    /// Decodes a whole parameter: only `VALUE` parameters carry a value
    /// type.
    pub fn try_from_parameter(par: &crate::properties::Parameter) -> (r: Option<Self>)
        ensures
            r == if par@.key == "VALUE"@ {
                value_type_from_str(par@.val)
            } else {
                None::<ValueType>
            },
    {
        if str_eq_str(par.key(), "VALUE") {
            Self::from_str(par.value())
        } else {
            None
        }
    }
}

} // verus!
