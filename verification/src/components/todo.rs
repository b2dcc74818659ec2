//! The to-do component.

use crate::components::inner_wf;
use crate::components::plain_prop;
use crate::components::prop_lookup;
use crate::components::InnerComponent;
use crate::components::InnerModel;
use crate::date_time::DatePerhapsTime;
use crate::date_time::DateTimeParts;
use crate::numbers::u32_to_string;
use crate::properties::todo_status_from_str;
use crate::properties::todo_status_str;
use crate::properties::Property;
use crate::properties::TodoStatus;
use vstd::prelude::*;

verus! {

/// A to-do entry: a component rendered under the `VTODO` kind.
#[derive(Debug, PartialEq, Eq)]
pub struct Todo {
    /// The entry's content.
    pub inner: InnerComponent,
}

impl View for Todo {
    type V = InnerModel;

    open spec fn view(&self) -> InnerModel {
        self.inner@
    }
}

impl Todo {
    /// Creates a new to-do entry.
    pub fn new() -> (r: Todo)
        ensures
            r@.properties.len() == 0,
            r@.multi_properties.len() == 0,
            r@.components.len() == 0,
            inner_wf(r@),
    {
        Todo { inner: InnerComponent::new() }
    }

    /// End of the builder pattern: takes the finished entry.
    pub fn done(&mut self) -> (r: Todo)
        ensures
            r == *old(self),
            final(self)@.properties.len() == 0,
            final(self)@.multi_properties.len() == 0,
            final(self)@.components.len() == 0,
            inner_wf(final(self)@),
    {
        Todo { inner: self.inner.done() }
    }

    /// Sets the completion percentage (meant for zero to one hundred).
    pub fn percent_complete(self, percent: u8) -> (r: Todo)
        requires
            inner_wf(self@),
        ensures
            inner_wf(r@),
            prop_lookup(r@.properties, "PERCENT-COMPLETE"@) == Some(
                plain_prop("PERCENT-COMPLETE"@, crate::numbers::dec_rep(percent as nat)),
            ),
            forall|k: Seq<char>|
                k != "PERCENT-COMPLETE"@ ==> prop_lookup(r@.properties, k) == prop_lookup(
                    self@.properties,
                    k,
                ),
            r@.multi_properties == self@.multi_properties,
            r@.components == self@.components,
    {
        let mut inner = self.inner;
        let formatted = u32_to_string(percent as u32);
        let p = Property::from_raw_parts(
            <String as vstd::string::StringExecFns>::from_str("PERCENT-COMPLETE"),
            formatted,
        );
        inner.insert_property(p);
        Todo { inner }
    }

    /// Reads the completion percentage.
    pub fn get_percent_complete(&self) -> (r: Option<u8>)
        ensures
            r == match prop_lookup(self@.properties, "PERCENT-COMPLETE"@) {
                Some(p) => match crate::numbers::parse_u32_spec(p.val) {
                    Some(v) => if v <= 255 {
                        Some(v as u8)
                    } else {
                        None::<u8>
                    },
                    None => None::<u8>,
                },
                None => None::<u8>,
            },
    {
        match self.inner.property_value("PERCENT-COMPLETE") {
            Some(v) => match crate::numbers::parse_u32(v) {
                Some(n) => if n <= 255 {
                    Some(n as u8)
                } else {
                    None
                },
                None => None,
            },
            None => None,
        }
    }

    /// Sets `DUE`.
    pub fn due(self, dt: DatePerhapsTime) -> (r: Todo)
        requires
            inner_wf(self@),
        ensures
            inner_wf(r@),
            prop_lookup(r@.properties, "DUE"@) is Some,
            forall|k: Seq<char>|
                k != "DUE"@ ==> prop_lookup(r@.properties, k) == prop_lookup(self@.properties, k),
            r@.multi_properties == self@.multi_properties,
            r@.components == self@.components,
    {
        let mut inner = self.inner;
        let p = dt.to_property("DUE");
        inner.insert_property(p);
        Todo { inner }
    }

    /// Reads `DUE`.
    pub fn get_due(&self) -> (r: Option<DatePerhapsTime>)
        ensures
            match prop_lookup(self@.properties, "DUE"@) {
                Some(p) => match r {
                    Some(c) => crate::date_time::dpt_from_property_spec(p) == Some(c@),
                    None => crate::date_time::dpt_from_property_spec(p) is None,
                },
                None => r is None,
            },
    {
        self.inner.get_date_perhaps_time("DUE")
    }

    /// Sets `COMPLETED`, a UTC date-time.
    pub fn completed(self, dt: DateTimeParts) -> (r: Todo)
        requires
            inner_wf(self@),
        ensures
            inner_wf(r@),
            prop_lookup(r@.properties, "COMPLETED"@) == Some(
                plain_prop("COMPLETED"@, crate::date_time::utc_date_time_str(dt)),
            ),
            forall|k: Seq<char>|
                k != "COMPLETED"@ ==> prop_lookup(r@.properties, k) == prop_lookup(
                    self@.properties,
                    k,
                ),
            r@.multi_properties == self@.multi_properties,
            r@.components == self@.components,
    {
        let mut inner = self.inner;
        let formatted = crate::date_time::format_utc_date_time(&dt);
        let p = Property::from_raw_parts(
            <String as vstd::string::StringExecFns>::from_str("COMPLETED"),
            formatted,
        );
        inner.insert_property(p);
        Todo { inner }
    }

    /// Reads `COMPLETED`.
    pub fn get_completed(&self) -> (r: Option<DateTimeParts>)
        ensures
            r == match prop_lookup(self@.properties, "COMPLETED"@) {
                Some(p) => crate::date_time::parse_utc_spec(p.val),
                None => None::<DateTimeParts>,
            },
    {
        match self.inner.property_value("COMPLETED") {
            Some(v) => crate::date_time::parse_utc_date_time(v),
            None => None,
        }
    }

    /// Sets the overall status.
    pub fn status(self, status: TodoStatus) -> (r: Todo)
        requires
            inner_wf(self@),
        ensures
            inner_wf(r@),
            prop_lookup(r@.properties, "STATUS"@) == Some(
                plain_prop("STATUS"@, todo_status_str(status)),
            ),
            forall|k: Seq<char>|
                k != "STATUS"@ ==> prop_lookup(r@.properties, k) == prop_lookup(
                    self@.properties,
                    k,
                ),
            r@.multi_properties == self@.multi_properties,
            r@.components == self@.components,
    {
        let p = status.to_property();
        proof {
            assert(p@ =~= plain_prop("STATUS"@, todo_status_str(status)));
        }
        let mut inner = self.inner;
        inner.insert_property(p);
        Todo { inner }
    }

    /// Reads the overall status.
    pub fn get_status(&self) -> (r: Option<TodoStatus>)
        ensures
            r == match prop_lookup(self@.properties, "STATUS"@) {
                Some(p) => todo_status_from_str(p.val),
                None => None::<TodoStatus>,
            },
    {
        match self.inner.property_value("STATUS") {
            Some(v) => TodoStatus::from_str(v),
            None => None,
        }
    }

    /// Sets the summary.
    pub fn summary(self, desc: &str) -> (r: Todo)
        requires
            inner_wf(self@),
        ensures
            inner_wf(r@),
            prop_lookup(r@.properties, "SUMMARY"@) == Some(
                plain_prop("SUMMARY"@, crate::escaping::escape_newlines_spec(desc@)),
            ),
            forall|k: Seq<char>|
                k != "SUMMARY"@ ==> prop_lookup(r@.properties, k) == prop_lookup(
                    self@.properties,
                    k,
                ),
            r@.multi_properties == self@.multi_properties,
            r@.components == self@.components,
    {
        let mut inner = self.inner;
        inner.add_property("SUMMARY", desc);
        Todo { inner }
    }

    /// Reads the summary.
    pub fn get_summary(&self) -> (r: Option<&str>)
        ensures
            match r {
                Some(v) => prop_lookup(self@.properties, "SUMMARY"@) matches Some(p) && p.val == v@,
                None => prop_lookup(self@.properties, "SUMMARY"@) is None,
            },
    {
        self.inner.property_value("SUMMARY")
    }

    /// Sets the unique identifier.
    pub fn uid(self, uid: &str) -> (r: Todo)
        requires
            inner_wf(self@),
        ensures
            inner_wf(r@),
            prop_lookup(r@.properties, "UID"@) == Some(
                plain_prop("UID"@, crate::escaping::escape_newlines_spec(uid@)),
            ),
            forall|k: Seq<char>|
                k != "UID"@ ==> prop_lookup(r@.properties, k) == prop_lookup(self@.properties, k),
            r@.multi_properties == self@.multi_properties,
            r@.components == self@.components,
    {
        let mut inner = self.inner;
        inner.add_property("UID", uid);
        Todo { inner }
    }

    /// Sets the sequence number.
    pub fn sequence(self, sequence: u32) -> (r: Todo)
        requires
            inner_wf(self@),
        ensures
            inner_wf(r@),
            prop_lookup(r@.properties, "SEQUENCE"@) == Some(
                plain_prop("SEQUENCE"@, crate::numbers::dec_rep(sequence as nat)),
            ),
            forall|k: Seq<char>|
                k != "SEQUENCE"@ ==> prop_lookup(r@.properties, k) == prop_lookup(
                    self@.properties,
                    k,
                ),
            r@.multi_properties == self@.multi_properties,
            r@.components == self@.components,
    {
        let mut inner = self.inner;
        inner.sequence(sequence);
        Todo { inner }
    }

    /// Sets `DTSTART`.
    pub fn starts(self, dt: DatePerhapsTime) -> (r: Todo)
        requires
            inner_wf(self@),
        ensures
            inner_wf(r@),
            prop_lookup(r@.properties, "DTSTART"@) is Some,
            forall|k: Seq<char>|
                k != "DTSTART"@ ==> prop_lookup(r@.properties, k) == prop_lookup(
                    self@.properties,
                    k,
                ),
            r@.multi_properties == self@.multi_properties,
            r@.components == self@.components,
    {
        let mut inner = self.inner;
        inner.starts(&dt);
        Todo { inner }
    }

    /// Builds and stores a single-valued property.
    pub fn add_property(self, key: &str, val: &str) -> (r: Todo)
        requires
            inner_wf(self@),
        ensures
            inner_wf(r@),
            prop_lookup(r@.properties, key@) == Some(
                plain_prop(key@, crate::escaping::escape_newlines_spec(val@)),
            ),
            forall|k: Seq<char>|
                k != key@ ==> prop_lookup(r@.properties, k) == prop_lookup(self@.properties, k),
            r@.multi_properties == self@.multi_properties,
            r@.components == self@.components,
    {
        let mut inner = self.inner;
        inner.add_property(key, val);
        Todo { inner }
    }

    /// Stores a prepared single-valued property.
    pub fn append_property(self, property: Property) -> (r: Todo)
        requires
            inner_wf(self@),
            property.wf(),
        ensures
            inner_wf(r@),
            prop_lookup(r@.properties, property@.key) == Some(property@),
            forall|k: Seq<char>|
                k != property@.key ==> prop_lookup(r@.properties, k) == prop_lookup(
                    self@.properties,
                    k,
                ),
            r@.multi_properties == self@.multi_properties,
            r@.components == self@.components,
    {
        let mut inner = self.inner;
        inner.insert_property(property);
        Todo { inner }
    }

    /// Appends a child component.
    pub fn append_component(self, child: crate::components::other::Other) -> (r: Todo)
        requires
            inner_wf(self@),
            inner_wf(child@.inner),
        ensures
            inner_wf(r@),
            r@.components == self@.components.push(child@),
            r@.properties == self@.properties,
            r@.multi_properties == self@.multi_properties,
    {
        let mut inner = self.inner;
        inner.push_component(child);
        Todo { inner }
    }

    /// Renders this entry on its own, as text under the `VTODO` kind.
    pub fn to_string(&self) -> (r: String)
        ensures
            exists|now: Seq<char>, uid: Seq<char>|
                crate::components::synth_inputs_wf(now, uid) && r@
                    == crate::components::render_inner("VTODO"@, self@, now, uid),
    {
        let r = crate::components::component_to_string("VTODO", &self.inner);
        proof {
            let (n2, u2) = choose|n2: Seq<char>, u2: Seq<char>|
                crate::components::synth_inputs_wf(n2, u2) && r@
                    == crate::components::render_inner("VTODO"@, self.inner@, n2, u2);
            assert(r@ == crate::components::render_inner("VTODO"@, self@, n2, u2));
        }
        r
    }
}

} // verus!
