//! The event component.

use crate::components::inner_wf;
use crate::components::plain_prop;
use crate::components::prop_lookup;
use crate::components::InnerComponent;
use crate::components::InnerModel;
use crate::date_time::DateParts;
use crate::date_time::DatePerhapsTime;
use crate::date_time::DateTimeParts;
use crate::properties::event_status_from_str;
use crate::properties::event_status_str;
use crate::properties::Class;
use crate::properties::EventStatus;
use crate::properties::Property;
use vstd::prelude::*;

verus! {

/// An event: a component rendered under the `VEVENT` kind.
#[derive(Debug, PartialEq, Eq)]
pub struct Event {
    /// The event's content.
    pub inner: InnerComponent,
}

impl View for Event {
    type V = InnerModel;

    open spec fn view(&self) -> InnerModel {
        self.inner@
    }
}

impl Event {
    /// Creates a new event.
    pub fn new() -> (r: Event)
        ensures
            r@.properties.len() == 0,
            r@.multi_properties.len() == 0,
            r@.components.len() == 0,
            inner_wf(r@),
    {
        Event { inner: InnerComponent::new() }
    }

    /// End of the builder pattern: takes the finished event.
    pub fn done(&mut self) -> (r: Event)
        ensures
            r == *old(self),
            final(self)@.properties.len() == 0,
            final(self)@.multi_properties.len() == 0,
            final(self)@.components.len() == 0,
            inner_wf(final(self)@),
    {
        Event { inner: self.inner.done() }
    }

    /// Sets the overall status.
    pub fn status(self, status: EventStatus) -> (r: Event)
        requires
            inner_wf(self@),
        ensures
            inner_wf(r@),
            prop_lookup(r@.properties, "STATUS"@) == Some(
                plain_prop("STATUS"@, event_status_str(status)),
            ),
            forall|k: Seq<char>|
                k != "STATUS"@ ==> prop_lookup(r@.properties, k) == prop_lookup(
                    self@.properties,
                    k,
                ),
            r@.multi_properties == self@.multi_properties,
            r@.components == self@.components,
    {
        let p = status.to_property();
        proof {
            assert(p@ =~= plain_prop("STATUS"@, event_status_str(status)));
        }
        let mut inner = self.inner;
        inner.insert_property(p);
        Event { inner }
    }

    /// Reads the overall status.
    pub fn get_status(&self) -> (r: Option<EventStatus>)
        ensures
            r == match prop_lookup(self@.properties, "STATUS"@) {
                Some(p) => event_status_from_str(p.val),
                None => None::<EventStatus>,
            },
    {
        match self.inner.property_value("STATUS") {
            Some(v) => EventStatus::from_str(v),
            None => None,
        }
    }

    /// Sets the summary.
    pub fn summary(self, desc: &str) -> (r: Event)
        requires
            inner_wf(self@),
        ensures
            inner_wf(r@),
            prop_lookup(r@.properties, "SUMMARY"@) == Some(
                plain_prop("SUMMARY"@, crate::escaping::escape_newlines_spec(desc@)),
            ),
            forall|k: Seq<char>|
                k != "SUMMARY"@ ==> prop_lookup(r@.properties, k) == prop_lookup(
                    self@.properties,
                    k,
                ),
            r@.multi_properties == self@.multi_properties,
            r@.components == self@.components,
    {
        let mut inner = self.inner;
        inner.add_property("SUMMARY", desc);
        Event { inner }
    }

    /// Reads the summary.
    pub fn get_summary(&self) -> (r: Option<&str>)
        ensures
            match r {
                Some(v) => prop_lookup(self@.properties, "SUMMARY"@) matches Some(p) && p.val == v@,
                None => prop_lookup(self@.properties, "SUMMARY"@) is None,
            },
    {
        self.inner.property_value("SUMMARY")
    }

    /// Sets the description.
    pub fn description(self, desc: &str) -> (r: Event)
        requires
            inner_wf(self@),
        ensures
            inner_wf(r@),
            prop_lookup(r@.properties, "DESCRIPTION"@) == Some(
                plain_prop("DESCRIPTION"@, crate::escaping::escape_newlines_spec(desc@)),
            ),
            forall|k: Seq<char>|
                k != "DESCRIPTION"@ ==> prop_lookup(r@.properties, k) == prop_lookup(
                    self@.properties,
                    k,
                ),
            r@.multi_properties == self@.multi_properties,
            r@.components == self@.components,
    {
        let mut inner = self.inner;
        inner.add_property("DESCRIPTION", desc);
        Event { inner }
    }

    /// Reads the description.
    pub fn get_description(&self) -> (r: Option<&str>)
        ensures
            match r {
                Some(v) => prop_lookup(self@.properties, "DESCRIPTION"@) matches Some(p) && p.val
                    == v@,
                None => prop_lookup(self@.properties, "DESCRIPTION"@) is None,
            },
    {
        self.inner.property_value("DESCRIPTION")
    }

    /// Sets the location.
    pub fn location(self, loc: &str) -> (r: Event)
        requires
            inner_wf(self@),
        ensures
            inner_wf(r@),
            prop_lookup(r@.properties, "LOCATION"@) == Some(
                plain_prop("LOCATION"@, crate::escaping::escape_newlines_spec(loc@)),
            ),
            forall|k: Seq<char>|
                k != "LOCATION"@ ==> prop_lookup(r@.properties, k) == prop_lookup(
                    self@.properties,
                    k,
                ),
            r@.multi_properties == self@.multi_properties,
            r@.components == self@.components,
    {
        let mut inner = self.inner;
        inner.add_property("LOCATION", loc);
        Event { inner }
    }

    /// Reads the location.
    pub fn get_location(&self) -> (r: Option<&str>)
        ensures
            match r {
                Some(v) => prop_lookup(self@.properties, "LOCATION"@) matches Some(p) && p.val
                    == v@,
                None => prop_lookup(self@.properties, "LOCATION"@) is None,
            },
    {
        self.inner.property_value("LOCATION")
    }

    /// Sets the unique identifier.
    pub fn uid(self, uid: &str) -> (r: Event)
        requires
            inner_wf(self@),
        ensures
            inner_wf(r@),
            prop_lookup(r@.properties, "UID"@) == Some(
                plain_prop("UID"@, crate::escaping::escape_newlines_spec(uid@)),
            ),
            forall|k: Seq<char>|
                k != "UID"@ ==> prop_lookup(r@.properties, k) == prop_lookup(self@.properties, k),
            r@.multi_properties == self@.multi_properties,
            r@.components == self@.components,
    {
        let mut inner = self.inner;
        inner.add_property("UID", uid);
        Event { inner }
    }

    /// Reads the unique identifier.
    pub fn get_uid(&self) -> (r: Option<&str>)
        ensures
            match r {
                Some(v) => prop_lookup(self@.properties, "UID"@) matches Some(p) && p.val == v@,
                None => prop_lookup(self@.properties, "UID"@) is None,
            },
    {
        self.inner.property_value("UID")
    }

    /// Sets the URL.
    pub fn url(self, url: &str) -> (r: Event)
        requires
            inner_wf(self@),
        ensures
            inner_wf(r@),
            prop_lookup(r@.properties, "URL"@) == Some(
                plain_prop("URL"@, crate::escaping::escape_newlines_spec(url@)),
            ),
            forall|k: Seq<char>|
                k != "URL"@ ==> prop_lookup(r@.properties, k) == prop_lookup(self@.properties, k),
            r@.multi_properties == self@.multi_properties,
            r@.components == self@.components,
    {
        let mut inner = self.inner;
        inner.add_property("URL", url);
        Event { inner }
    }

    /// Reads the URL.
    pub fn get_url(&self) -> (r: Option<&str>)
        ensures
            match r {
                Some(v) => prop_lookup(self@.properties, "URL"@) matches Some(p) && p.val == v@,
                None => prop_lookup(self@.properties, "URL"@) is None,
            },
    {
        self.inner.property_value("URL")
    }

    /// Sets the relative priority, capped at ten.
    pub fn priority(self, priority: u32) -> (r: Event)
        requires
            inner_wf(self@),
        ensures
            inner_wf(r@),
            prop_lookup(r@.properties, "PRIORITY"@) == Some(
                plain_prop(
                    "PRIORITY"@,
                    crate::numbers::dec_rep(
                        if priority <= 10 {
                            priority as nat
                        } else {
                            10
                        },
                    ),
                ),
            ),
            forall|k: Seq<char>|
                k != "PRIORITY"@ ==> prop_lookup(r@.properties, k) == prop_lookup(
                    self@.properties,
                    k,
                ),
            r@.multi_properties == self@.multi_properties,
            r@.components == self@.components,
    {
        let mut inner = self.inner;
        inner.priority(priority);
        Event { inner }
    }

    /// Reads the relative priority.
    pub fn get_priority(&self) -> (r: Option<u32>)
        ensures
            r == match prop_lookup(self@.properties, "PRIORITY"@) {
                Some(p) => match crate::numbers::parse_u32_spec(p.val) {
                    Some(v) => if v <= 10 {
                        Some(v)
                    } else {
                        None::<u32>
                    },
                    None => None::<u32>,
                },
                None => None::<u32>,
            },
    {
        self.inner.get_priority()
    }

    /// Sets the visibility class.
    pub fn class(self, class: Class) -> (r: Event)
        requires
            inner_wf(self@),
        ensures
            inner_wf(r@),
            prop_lookup(r@.properties, "CLASS"@) == Some(
                plain_prop("CLASS"@, crate::properties::class_str(class)),
            ),
            forall|k: Seq<char>|
                k != "CLASS"@ ==> prop_lookup(r@.properties, k) == prop_lookup(self@.properties, k),
            r@.multi_properties == self@.multi_properties,
            r@.components == self@.components,
    {
        let mut inner = self.inner;
        inner.class(class);
        Event { inner }
    }

    /// Reads the visibility class.
    pub fn get_class(&self) -> (r: Option<Class>)
        ensures
            r == match prop_lookup(self@.properties, "CLASS"@) {
                Some(p) => crate::properties::class_from_str(p.val),
                None => None::<Class>,
            },
    {
        self.inner.get_class()
    }

    /// Sets the `DTSTAMP` property from a UTC date-time.
    pub fn timestamp(self, dt: DateTimeParts) -> (r: Event)
        requires
            inner_wf(self@),
        ensures
            inner_wf(r@),
            prop_lookup(r@.properties, "DTSTAMP"@) == Some(
                plain_prop("DTSTAMP"@, crate::date_time::utc_date_time_str(dt)),
            ),
            forall|k: Seq<char>|
                k != "DTSTAMP"@ ==> prop_lookup(r@.properties, k) == prop_lookup(
                    self@.properties,
                    k,
                ),
            r@.multi_properties == self@.multi_properties,
            r@.components == self@.components,
    {
        let mut inner = self.inner;
        inner.timestamp(&dt);
        Event { inner }
    }

    /// Reads the `DTSTAMP` property.
    pub fn get_timestamp(&self) -> (r: Option<DateTimeParts>)
        ensures
            r == match prop_lookup(self@.properties, "DTSTAMP"@) {
                Some(p) => crate::date_time::parse_utc_spec(p.val),
                None => None::<DateTimeParts>,
            },
    {
        self.inner.get_timestamp()
    }

    /// Sets `DTSTART`.
    pub fn starts(self, dt: DatePerhapsTime) -> (r: Event)
        requires
            inner_wf(self@),
        ensures
            inner_wf(r@),
            prop_lookup(r@.properties, "DTSTART"@) is Some,
            forall|k: Seq<char>|
                k != "DTSTART"@ ==> prop_lookup(r@.properties, k) == prop_lookup(
                    self@.properties,
                    k,
                ),
            r@.multi_properties == self@.multi_properties,
            r@.components == self@.components,
    {
        let mut inner = self.inner;
        inner.starts(&dt);
        Event { inner }
    }

    /// Reads `DTSTART`.
    pub fn get_start(&self) -> (r: Option<DatePerhapsTime>)
        ensures
            match prop_lookup(self@.properties, "DTSTART"@) {
                Some(p) => match r {
                    Some(c) => crate::date_time::dpt_from_property_spec(p) == Some(c@),
                    None => crate::date_time::dpt_from_property_spec(p) is None,
                },
                None => r is None,
            },
    {
        self.inner.get_date_perhaps_time("DTSTART")
    }

    /// Sets `DTEND`.
    pub fn ends(self, dt: DatePerhapsTime) -> (r: Event)
        requires
            inner_wf(self@),
        ensures
            inner_wf(r@),
            prop_lookup(r@.properties, "DTEND"@) is Some,
            forall|k: Seq<char>|
                k != "DTEND"@ ==> prop_lookup(r@.properties, k) == prop_lookup(self@.properties, k),
            r@.multi_properties == self@.multi_properties,
            r@.components == self@.components,
    {
        let mut inner = self.inner;
        inner.ends(&dt);
        Event { inner }
    }

    /// Reads `DTEND`.
    pub fn get_end(&self) -> (r: Option<DatePerhapsTime>)
        ensures
            match prop_lookup(self@.properties, "DTEND"@) {
                Some(p) => match r {
                    Some(c) => crate::date_time::dpt_from_property_spec(p) == Some(c@),
                    None => crate::date_time::dpt_from_property_spec(p) is None,
                },
                None => r is None,
            },
    {
        self.inner.get_date_perhaps_time("DTEND")
    }

    /// Sets `DTSTART` and `DTEND` to one bare date.
    pub fn all_day(self, date: DateParts) -> (r: Event)
        requires
            inner_wf(self@),
        ensures
            inner_wf(r@),
            prop_lookup(r@.properties, "DTSTART"@) is Some,
            prop_lookup(r@.properties, "DTEND"@) is Some,
            r@.multi_properties == self@.multi_properties,
            r@.components == self@.components,
    {
        let mut inner = self.inner;
        inner.all_day(&date);
        Event { inner }
    }

    /// Sets the `LOCATION` with a venue identifier.
    pub fn venue(self, location: &str, venue_uid: &str) -> (r: Event)
        requires
            inner_wf(self@),
        ensures
            inner_wf(r@),
            prop_lookup(r@.properties, "LOCATION"@) is Some,
            r@.multi_properties == self@.multi_properties,
            r@.components == self@.components,
    {
        let mut inner = self.inner;
        inner.venue(location, venue_uid);
        Event { inner }
    }

    /// Stores a prepared single-valued property.
    pub fn append_property(self, property: Property) -> (r: Event)
        requires
            inner_wf(self@),
            property.wf(),
        ensures
            inner_wf(r@),
            prop_lookup(r@.properties, property@.key) == Some(property@),
            forall|k: Seq<char>|
                k != property@.key ==> prop_lookup(r@.properties, k) == prop_lookup(
                    self@.properties,
                    k,
                ),
            r@.multi_properties == self@.multi_properties,
            r@.components == self@.components,
    {
        let mut inner = self.inner;
        inner.insert_property(property);
        Event { inner }
    }

    /// Builds and stores a single-valued property.
    pub fn add_property(self, key: &str, val: &str) -> (r: Event)
        requires
            inner_wf(self@),
        ensures
            inner_wf(r@),
            prop_lookup(r@.properties, key@) == Some(
                plain_prop(key@, crate::escaping::escape_newlines_spec(val@)),
            ),
            forall|k: Seq<char>|
                k != key@ ==> prop_lookup(r@.properties, k) == prop_lookup(self@.properties, k),
            r@.multi_properties == self@.multi_properties,
            r@.components == self@.components,
    {
        let mut inner = self.inner;
        inner.add_property(key, val);
        Event { inner }
    }

    /// Builds and appends a repeatable property.
    pub fn add_multi_property(self, key: &str, val: &str) -> (r: Event)
        requires
            inner_wf(self@),
        ensures
            inner_wf(r@),
            r@.multi_properties == self@.multi_properties.push(
                plain_prop(key@, crate::escaping::escape_newlines_spec(val@)),
            ),
            r@.properties == self@.properties,
            r@.components == self@.components,
    {
        let mut inner = self.inner;
        inner.add_multi_property(key, val);
        Event { inner }
    }

    /// Appends a child component.
    pub fn append_component(self, child: crate::components::other::Other) -> (r: Event)
        requires
            inner_wf(self@),
            inner_wf(child@.inner),
        ensures
            inner_wf(r@),
            r@.components == self@.components.push(child@),
            r@.properties == self@.properties,
            r@.multi_properties == self@.multi_properties,
    {
        let mut inner = self.inner;
        inner.push_component(child);
        Event { inner }
    }

    /// Attaches an alarm as a child component.
    pub fn alarm(self, alarm: crate::components::alarm::Alarm) -> (r: Event)
        requires
            inner_wf(self@),
            inner_wf(alarm@),
        ensures
            inner_wf(r@),
            r@.components.len() == self@.components.len() + 1,
            r@.properties == self@.properties,
            r@.multi_properties == self@.multi_properties,
    {
        self.append_component(alarm.into_other())
    }

    /// Renders this event on its own, as text under the `VEVENT` kind.
    pub fn to_string(&self) -> (r: String)
        ensures
            exists|now: Seq<char>, uid: Seq<char>|
                crate::components::synth_inputs_wf(now, uid) && r@
                    == crate::components::render_inner("VEVENT"@, self@, now, uid),
            crate::components::fully_stamped(self@) ==> r@ == crate::components::render_inner(
                "VEVENT"@,
                self@,
                Seq::empty(),
                Seq::empty(),
            ),
    {
        let r = crate::components::component_to_string("VEVENT", &self.inner);
        proof {
            let (n2, u2) = choose|n2: Seq<char>, u2: Seq<char>|
                crate::components::synth_inputs_wf(n2, u2) && r@
                    == crate::components::render_inner("VEVENT"@, self.inner@, n2, u2);
            assert(r@ == crate::components::render_inner("VEVENT"@, self@, n2, u2));
        }
        r
    }

    /// Renders this event on its own; the render cannot fail.
    pub fn try_into_string(&self) -> (r: Result<String, String>)
        ensures
            r matches Ok(s) && exists|now: Seq<char>, uid: Seq<char>|
                crate::components::synth_inputs_wf(now, uid) && s@
                    == crate::components::render_inner("VEVENT"@, self@, now, uid),
    {
        Ok(self.to_string())
    }
}

} // verus!
