//! The closed set of component kinds a calendar holds.

use crate::components::event::Event;
use crate::components::inner_matches;
use crate::components::inner_wf;
use crate::components::other::Other;
use crate::components::todo::Todo;
use crate::components::venue::Venue;
use crate::components::InnerModel;
use crate::components::OtherModel;
use vstd::prelude::*;

verus! {

/// A component of a calendar: a to-do, an event, a venue, or any other
/// kind under its own name.
#[derive(Debug, PartialEq)]
pub enum CalendarComponent {
    /// A to-do entry.
    Todo(Todo),
    /// An event.
    Event(Event),
    /// A venue.
    Venue(Venue),
    /// Any other component kind.
    Other(Other),
}

/// The model of a calendar component.
pub enum CalendarComponentModel {
    /// A to-do entry.
    Todo(InnerModel),
    /// An event.
    Event(InnerModel),
    /// A venue.
    Venue(InnerModel),
    /// Any other component kind.
    Other(OtherModel),
}

impl View for CalendarComponent {
    type V = CalendarComponentModel;

    open spec fn view(&self) -> CalendarComponentModel {
        match self {
            CalendarComponent::Todo(t) => CalendarComponentModel::Todo(t@),
            CalendarComponent::Event(e) => CalendarComponentModel::Event(e@),
            CalendarComponent::Venue(v) => CalendarComponentModel::Venue(v@),
            CalendarComponent::Other(o) => CalendarComponentModel::Other(o@),
        }
    }
}

/// The kind name a component renders under.
pub open spec fn cal_comp_kind(m: CalendarComponentModel) -> Seq<char> {
    match m {
        CalendarComponentModel::Todo(_) => "VTODO"@,
        CalendarComponentModel::Event(_) => "VEVENT"@,
        CalendarComponentModel::Venue(_) => "VVENUE"@,
        CalendarComponentModel::Other(o) => o.name,
    }
}

/// The component's content.
pub open spec fn cal_comp_inner(m: CalendarComponentModel) -> InnerModel {
    match m {
        CalendarComponentModel::Todo(i) => i,
        CalendarComponentModel::Event(i) => i,
        CalendarComponentModel::Venue(i) => i,
        CalendarComponentModel::Other(o) => o.inner,
    }
}

/// The component's content is well formed.
pub open spec fn cal_comp_wf(m: CalendarComponentModel) -> bool {
    inner_wf(cal_comp_inner(m))
}

impl CalendarComponent {
    /// The contained event, when this is one.
    pub fn as_event(&self) -> (r: Option<&Event>)
        ensures
            match self@ {
                CalendarComponentModel::Event(i) => r matches Some(e) && e@ == i,
                _ => r is None,
            },
    {
        match self {
            CalendarComponent::Event(e) => Some(e),
            _ => None,
        }
    }

    /// The contained to-do entry, when this is one.
    pub fn as_todo(&self) -> (r: Option<&Todo>)
        ensures
            match self@ {
                CalendarComponentModel::Todo(i) => r matches Some(t) && t@ == i,
                _ => r is None,
            },
    {
        match self {
            CalendarComponent::Todo(t) => Some(t),
            _ => None,
        }
    }

    /// Wraps an event.
    pub fn from_event(e: Event) -> (r: CalendarComponent)
        ensures
            r@ == CalendarComponentModel::Event(e@),
    {
        CalendarComponent::Event(e)
    }

    /// Wraps a to-do entry.
    pub fn from_todo(t: Todo) -> (r: CalendarComponent)
        ensures
            r@ == CalendarComponentModel::Todo(t@),
    {
        CalendarComponent::Todo(t)
    }

    /// Wraps a venue.
    pub fn from_venue(v: Venue) -> (r: CalendarComponent)
        ensures
            r@ == CalendarComponentModel::Venue(v@),
    {
        CalendarComponent::Venue(v)
    }

    /// Wraps an alarm, which renders under the `VALARM` kind.
    pub fn from_other(o: Other) -> (r: CalendarComponent)
        ensures
            r@ == CalendarComponentModel::Other(o@),
    {
        CalendarComponent::Other(o)
    }

    /// Dispatches a parsed component to its typed kind by name: `VEVENT`,
    /// `VTODO` and `VVENUE` become their own kinds; everything else keeps
    /// its name.
    pub fn from_parsed(c: &crate::parser::components::Component) -> (r: CalendarComponent)
        ensures
            cal_comp_wf(r@),
            inner_matches(c@, cal_comp_inner(r@)),
            c@.name == "VEVENT"@ ==> r@ is Event,
            c@.name == "VTODO"@ ==> r@ is Todo,
            c@.name == "VVENUE"@ ==> r@ is Venue,
            !(c@.name == "VEVENT"@ || c@.name == "VTODO"@ || c@.name == "VVENUE"@) ==> (r@ matches
                CalendarComponentModel::Other(o) && o.name == c@.name),
            cal_comp_kind(r@) == if c@.name == "VTODO"@ {
                "VTODO"@
            } else if c@.name == "VEVENT"@ {
                "VEVENT"@
            } else if c@.name == "VVENUE"@ {
                "VVENUE"@
            } else {
                c@.name
            },
    {
        proof {
            reveal_strlit("VEVENT");
            reveal_strlit("VTODO");
            reveal_strlit("VVENUE");
            assert("VEVENT"@ != "VTODO"@) by {
                assert("VEVENT"@.len() != "VTODO"@.len());
            }
            assert("VEVENT"@ != "VVENUE"@) by {
                assert("VEVENT"@[1] != "VVENUE"@[1]);
            }
            assert("VTODO"@ != "VVENUE"@) by {
                assert("VTODO"@.len() != "VVENUE"@.len());
            }
        }
        let inner = crate::components::inner_from_parsed(c);
        if c.name.eq_str("VEVENT") {
            CalendarComponent::Event(Event { inner })
        } else if c.name.eq_str("VTODO") {
            CalendarComponent::Todo(Todo { inner })
        } else if c.name.eq_str("VVENUE") {
            CalendarComponent::Venue(Venue { inner })
        } else {
            let name = c.name.to_owned();
            CalendarComponent::Other(
                Other::from_parts(
                    {
                        let mut o = String::new();
                        vstd::string::StringExecFns::append(&mut o, name.as_str());
                        o
                    },
                    inner,
                ),
            )
        }
    }
}

} // verus!
