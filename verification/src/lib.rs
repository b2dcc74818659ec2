//! An iCalendar (RFC 5545) engine: line folding and unfolding, a
//! recursive-descent parser for components, properties and parameters,
//! value-domain codecs (dates, date-times, durations, alarm triggers),
//! and a serializer that renders a component tree back to text.

pub mod calendar;
pub mod chars;
pub mod components;
pub mod date_time;
pub mod duration;
pub mod escaping;
pub mod folding;
pub mod numbers;
pub mod outside;
pub mod parser;
pub mod properties;
pub mod repeats;
pub mod strorder;
pub mod value_types;

pub use calendar::calendar_component::CalendarComponent;
pub use calendar::Calendar;
pub use components::alarm::Alarm;
pub use components::alarm::Related;
pub use components::alarm::Trigger;
pub use components::event::Event;
pub use components::other::Other;
pub use components::todo::Todo;
pub use components::venue::Venue;
pub use components::InnerComponent;
pub use date_time::CalendarDateTime;
pub use date_time::DateParts;
pub use date_time::DatePerhapsTime;
pub use date_time::DateTimeParts;
pub use duration::DeltaSeconds;
pub use duration::Duration;
pub use properties::Class;
pub use properties::EventStatus;
pub use properties::Parameter;
pub use properties::Property;
pub use properties::TodoStatus;
pub use value_types::ValueType;

use vstd::prelude::*;

verus! {

impl core::str::FromStr for Calendar {
    type Err = String;

    /// Unfolds and parses text into a typed calendar.
    fn from_str(s: &str) -> Result<Calendar, String> {
        Calendar::parse_from(s)
    }
}

impl CalendarComponent {
    /// Unfolds and parses one component, dispatching it to its typed kind.
    pub fn parse_one(s: &str) -> (r: Result<CalendarComponent, String>)
        ensures
            match r {
                Ok(c) => crate::parser::grammar::parse_component(
                    crate::folding::unfold_spec(s@),
                    0,
                ) matches Some((m, j)) && crate::calendar::calendar_component_matches(m, c@),
                Err(_) => crate::parser::grammar::parse_component(
                    crate::folding::unfold_spec(s@),
                    0,
                ) is None,
            },
    {
        let unfolded = crate::folding::unfold(s);
        match crate::parser::read_component(unfolded.as_str()) {
            Ok(c) => Ok(CalendarComponent::from_parsed(&c)),
            Err(e) => Err(e),
        }
    }
}

impl core::str::FromStr for CalendarComponent {
    type Err = String;

    /// Unfolds and parses one component, dispatching it to its typed kind.
    fn from_str(s: &str) -> Result<CalendarComponent, String> {
        CalendarComponent::parse_one(s)
    }
}

} // verus!
