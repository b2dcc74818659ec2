//! The alarm component: an action, a trigger (relative or absolute), and
//! an optional duration-and-repeat pair.

use crate::components::inner_wf;
use crate::components::plain_prop;
use crate::components::prop_lookup;
use crate::components::InnerComponent;
use crate::components::InnerModel;
use crate::date_time::CalendarDateTime;
use crate::date_time::CalendarDateTimeModel;
use crate::duration::delta_parse;
use crate::duration::delta_seconds_str;
use crate::duration::parse_delta_seconds;
use crate::duration::DeltaSeconds;
use crate::numbers::parse_u32;
use crate::numbers::parse_u32_spec;
use crate::numbers::u32_to_string;
use crate::parser::parsed_string::str_eq_str;
use crate::properties::param_lookup;
use crate::properties::Parameter;
use crate::properties::Property;
use crate::properties::PropertyModel;
use vstd::prelude::*;

verus! {

/// What happens when an alarm fires.
#[derive(Debug, Clone, PartialEq, Eq)]
pub enum Action {
    /// Play a sound.
    Audio,
    /// Send a message.
    Email,
    /// Show a text.
    Display,
    /// Any other action name.
    Other(String),
}

/// Decoding of the `ACTION` property value; unknown names are kept.
pub open spec fn action_from_str(s: Seq<char>) -> Action {
    if s == "AUDIO"@ {
        Action::Audio
    } else if s == "EMAIL"@ {
        Action::Email
    } else if s == "DISPLAY"@ {
        Action::Display
    } else {
        Action::Other(arbitrary())
    }
}

impl Action {
    /// Decodes an `ACTION` property value.
    pub fn from_str(s: &str) -> (r: Action)
        ensures
            s@ == "AUDIO"@ ==> r == Action::Audio,
            s@ == "EMAIL"@ ==> r == Action::Email,
            s@ == "DISPLAY"@ ==> r == Action::Display,
            !(s@ == "AUDIO"@ || s@ == "EMAIL"@ || s@ == "DISPLAY"@) ==> (r matches Action::Other(
                o,
            ) && o@ == s@),
    {
        proof {
            reveal_strlit("AUDIO");
            reveal_strlit("EMAIL");
            reveal_strlit("DISPLAY");
            assert("AUDIO"@ != "EMAIL"@) by {
                assert("AUDIO"@[0] != "EMAIL"@[0]);
            }
            assert("AUDIO"@ != "DISPLAY"@) by {
                assert("AUDIO"@.len() != "DISPLAY"@.len());
            }
            assert("EMAIL"@ != "DISPLAY"@) by {
                assert("EMAIL"@.len() != "DISPLAY"@.len());
            }
        }
        if str_eq_str(s, "AUDIO") {
            Action::Audio
        } else if str_eq_str(s, "EMAIL") {
            Action::Email
        } else if str_eq_str(s, "DISPLAY") {
            Action::Display
        } else {
            Action::Other(<String as vstd::string::StringExecFns>::from_str(s))
        }
    }

    /// The `ACTION` property value this action writes.
    pub open spec fn spec_str(&self) -> Seq<char> {
        match self {
            Action::Audio => "AUDIO"@,
            Action::Email => "EMAIL"@,
            Action::Display => "DISPLAY"@,
            Action::Other(o) => o@,
        }
    }

    /// This action as an `ACTION` property.
    pub fn to_property(&self) -> (r: Property)
        ensures
            r@.key == "ACTION"@,
            r@.val == self.spec_str(),
            r@.params.len() == 0,
            r.wf(),
    {
        let val: String = match self {
            Action::Audio => <String as vstd::string::StringExecFns>::from_str("AUDIO"),
            Action::Email => <String as vstd::string::StringExecFns>::from_str("EMAIL"),
            Action::Display => <String as vstd::string::StringExecFns>::from_str("DISPLAY"),
            Action::Other(o) => o.clone(),
        };
        Property::from_raw_parts(<String as vstd::string::StringExecFns>::from_str("ACTION"), val)
    }
}

/// The repeat count of an alarm.
#[derive(Copy, Clone, Debug, PartialEq, Eq, Structural)]
pub struct Repeat(pub u32);

impl Default for Repeat {
    /// No repetition.
    fn default() -> (r: Self)
        ensures
            r == Repeat(0u32),
    {
        Repeat(0)
    }
}

impl Repeat {
    /// A repeat count.
    pub fn from_count(count: u32) -> (r: Repeat)
        ensures
            r == Repeat(count),
    {
        Repeat(count)
    }

    /// This count as a `REPEAT` property.
    pub fn to_property(&self) -> (r: Property)
        ensures
            r@.key == "REPEAT"@,
            r@.val == crate::numbers::dec_rep(self.0 as nat),
            r@.params.len() == 0,
            r.wf(),
    {
        let formatted = u32_to_string(self.0);
        Property::from_raw_parts(
            <String as vstd::string::StringExecFns>::from_str("REPEAT"),
            formatted,
        )
    }
}

/// Whether a relative trigger anchors to the start or the end.
#[derive(Copy, Clone, Debug, PartialEq, Eq, Structural)]
pub enum Related {
    /// Off the component's start.
    Start,
    /// Off the component's end.
    End,
}

/// Decoding of the `RELATED` parameter value.
pub open spec fn related_from_str(s: Seq<char>) -> Option<Related> {
    if s == "START"@ {
        Some(Related::Start)
    } else if s == "END"@ {
        Some(Related::End)
    } else {
        None
    }
}

impl Related {
    /// Decodes a `RELATED` parameter value.
    pub fn from_str(s: &str) -> (r: Option<Related>)
        ensures
            r == related_from_str(s@),
    {
        if str_eq_str(s, "START") {
            Some(Related::Start)
        } else if str_eq_str(s, "END") {
            Some(Related::End)
        } else {
            None
        }
    }

    /// This anchor as a `RELATED` parameter.
    pub fn to_parameter(&self) -> (r: Parameter)
        ensures
            r@.key == "RELATED"@,
            r@.val == match self {
                Related::Start => "START"@,
                Related::End => "END"@,
            },
    {
        match self {
            Related::Start => Parameter::new("RELATED", "START"),
            Related::End => Parameter::new("RELATED", "END"),
        }
    }
}

/// When an alarm fires: a signed offset (optionally anchored), or an
/// absolute date-time.
#[derive(Debug, Clone, PartialEq, Eq)]
pub enum Trigger {
    /// An offset from the component's start or end.
    Duration(DeltaSeconds, Option<Related>),
    /// An absolute instant.
    DateTime(CalendarDateTime),
}

/// The model of a trigger.
pub enum TriggerModel {
    /// An offset from the component's start or end.
    Duration(DeltaSeconds, Option<Related>),
    /// An absolute instant.
    DateTime(CalendarDateTimeModel),
}

impl View for Trigger {
    type V = TriggerModel;

    open spec fn view(&self) -> TriggerModel {
        match self {
            Trigger::Duration(d, rel) => TriggerModel::Duration(*d, *rel),
            Trigger::DateTime(c) => TriggerModel::DateTime(c@),
        }
    }
}

/// How a `TRIGGER` property decodes: `VALUE=DATE-TIME` selects the
/// absolute form; `VALUE=DURATION` or no `VALUE` parameter selects the
/// relative form, whose anchor is the `RELATED` parameter when it names
/// one. Any other `VALUE`, or a value that fits neither codec, is no
/// trigger.
pub open spec fn trigger_from_property_spec(p: PropertyModel) -> Option<TriggerModel> {
    if p.key != "TRIGGER"@ {
        None
    } else {
        let vt = param_lookup(p.params, "VALUE"@);
        if vt matches Some(q) && q.val == "DATE-TIME"@ {
            match crate::date_time::parse_utc_spec(p.val) {
                Some(d) => Some(TriggerModel::DateTime(CalendarDateTimeModel::Utc(d))),
                None => match crate::date_time::parse_naive_spec(p.val) {
                    Some(d) => Some(TriggerModel::DateTime(CalendarDateTimeModel::Floating(d))),
                    None => None,
                },
            }
        } else if vt is None || (vt matches Some(q) && q.val == "DURATION"@) {
            let rel = match param_lookup(p.params, "RELATED"@) {
                Some(q) => related_from_str(q.val),
                None => None,
            };
            match delta_parse(p.val) {
                Some(d) => Some(TriggerModel::Duration(d, rel)),
                None => None,
            }
        } else {
            None
        }
    }
}

impl Trigger {
    /// A positive offset after the start.
    pub fn after_start(duration: DeltaSeconds) -> (r: Trigger)
        ensures
            r@ == TriggerModel::Duration(duration, Some(Related::Start)),
    {
        Trigger::Duration(duration, Some(Related::Start))
    }

    /// A positive offset after the end.
    pub fn after_end(duration: DeltaSeconds) -> (r: Trigger)
        ensures
            r@ == TriggerModel::Duration(duration, Some(Related::End)),
    {
        Trigger::Duration(duration, Some(Related::End))
    }

    /// An offset before the start.
    pub fn before_start(duration: DeltaSeconds) -> (r: Trigger)
        requires
            duration.wf(),
        ensures
            r@ matches TriggerModel::Duration(d, rel) && d.spec_secs() == -duration.spec_secs()
                && rel == Some(Related::Start),
    {
        Trigger::Duration(duration.neg(), Some(Related::Start))
    }

    /// An offset before the end.
    pub fn before_end(duration: DeltaSeconds) -> (r: Trigger)
        requires
            duration.wf(),
        ensures
            r@ matches TriggerModel::Duration(d, rel) && d.spec_secs() == -duration.spec_secs()
                && rel == Some(Related::End),
    {
        Trigger::Duration(duration.neg(), Some(Related::End))
    }

    /// A relative trigger with no anchor (the format reads it as "start").
    pub fn from_duration(duration: DeltaSeconds) -> (r: Trigger)
        ensures
            r@ == TriggerModel::Duration(duration, None::<Related>),
    {
        Trigger::Duration(duration, None)
    }

    /// A relative trigger with an anchor.
    pub fn from_duration_related(duration: DeltaSeconds, related: Related) -> (r: Trigger)
        ensures
            r@ == TriggerModel::Duration(duration, Some(related)),
    {
        Trigger::Duration(duration, Some(related))
    }

    /// An absolute trigger.
    pub fn from_date_time(dt: CalendarDateTime) -> (r: Trigger)
        ensures
            r@ == TriggerModel::DateTime(dt@),
    {
        Trigger::DateTime(dt)
    }

    /// The anchor, when this trigger is relative and names one.
    pub fn related(&self) -> (r: Option<Related>)
        ensures
            r == match self@ {
                TriggerModel::Duration(_, rel) => rel,
                TriggerModel::DateTime(_) => None::<Related>,
            },
    {
        match self {
            Trigger::Duration(_, related) => *related,
            Trigger::DateTime(_) => None,
        }
    }

    /// The offset, when this trigger is relative.
    pub fn as_duration(&self) -> (r: Option<&DeltaSeconds>)
        ensures
            match self@ {
                TriggerModel::Duration(d, _) => r matches Some(x) && *x == d,
                TriggerModel::DateTime(_) => r is None,
            },
    {
        match self {
            Trigger::Duration(duration, _) => Some(duration),
            Trigger::DateTime(_) => None,
        }
    }

    /// The instant, when this trigger is absolute.
    pub fn as_date_time(&self) -> (r: Option<&CalendarDateTime>)
        ensures
            match self@ {
                TriggerModel::DateTime(d) => r matches Some(x) && x@ == d,
                TriggerModel::Duration(_, _) => r is None,
            },
    {
        match self {
            Trigger::Duration(_, _) => None,
            Trigger::DateTime(dt) => Some(dt),
        }
    }

    /// Reads a `TRIGGER` property, dispatching on its `VALUE` parameter.
    pub fn from_property(prop: &Property) -> (r: Option<Trigger>)
        ensures
            match r {
                Some(t) => trigger_from_property_spec(prop@) == Some(t@),
                None => trigger_from_property_spec(prop@) is None,
            },
    {
        if !prop.key_is("TRIGGER") {
            return None;
        }
        let is_date_time: bool;
        let is_duration: bool;
        match prop.get_param("VALUE") {
            Some(q) => {
                is_date_time = str_eq_str(q.value(), "DATE-TIME");
                is_duration = str_eq_str(q.value(), "DURATION");
            },
            None => {
                is_date_time = false;
                is_duration = true;
            },
        }
        if is_date_time {
            match CalendarDateTime::from_str(prop.value()) {
                Ok(c) => Some(Trigger::DateTime(c)),
                Err(_) => None,
            }
        } else if is_duration {
            let rel = match prop.get_param("RELATED") {
                Some(q) => Related::from_str(q.value()),
                None => None,
            };
            match parse_delta_seconds(prop.value()) {
                Some(d) => Some(Trigger::Duration(d, rel)),
                None => None,
            }
        } else {
            None
        }
    }

    /// Writes this trigger as a `TRIGGER` property: a relative one as a
    /// duration value with its anchor parameter, an absolute one tagged
    /// `VALUE=DATE-TIME`.
    pub fn to_property(&self) -> (r: Property)
        requires
            self@ matches TriggerModel::Duration(d, _) ==> d.wf(),
        ensures
            r@.key == "TRIGGER"@,
            r.wf(),
            match self@ {
                TriggerModel::Duration(d, rel) => r@.val == delta_seconds_str(d.spec_secs()) && (
                match rel {
                    Some(a) => param_lookup(r@.params, "RELATED"@) matches Some(q) && q.val
                        == match a {
                        Related::Start => "START"@,
                        Related::End => "END"@,
                    },
                    None => r@.params.len() == 0,
                }),
                TriggerModel::DateTime(c) => param_lookup(r@.params, "VALUE"@) matches Some(q)
                    && q.val == "DATE-TIME"@,
            },
    {
        match self {
            Trigger::Duration(duration, Some(related)) => {
                let base = Property::from_raw_parts(
                    <String as vstd::string::StringExecFns>::from_str("TRIGGER"),
                    duration.to_string(),
                );
                base.append_parameter(related.to_parameter())
            },
            Trigger::Duration(duration, None) => Property::from_raw_parts(
                <String as vstd::string::StringExecFns>::from_str("TRIGGER"),
                duration.to_string(),
            ),
            Trigger::DateTime(dt) => dt.to_property("TRIGGER").add_parameter("VALUE", "DATE-TIME"),
        }
    }
}

/// An alarm: a component rendered under the `VALARM` kind.
#[derive(Debug, PartialEq, Eq)]
pub struct Alarm {
    /// The alarm's content.
    pub inner: InnerComponent,
}

impl View for Alarm {
    type V = InnerModel;

    open spec fn view(&self) -> InnerModel {
        self.inner@
    }
}

impl Alarm {
    /// An empty alarm; callers are expected to give it an action and a
    /// trigger.
    pub fn new_empty() -> (r: Alarm)
        ensures
            r@.properties.len() == 0,
            r@.multi_properties.len() == 0,
            r@.components.len() == 0,
            inner_wf(r@),
    {
        Alarm { inner: InnerComponent::new() }
    }

    /// An audio alarm with the given trigger.
    pub fn audio(trigger: Trigger) -> (r: Alarm)
        requires
            trigger@ matches TriggerModel::Duration(d, _) ==> d.wf(),
        ensures
            inner_wf(r@),
            prop_lookup(r@.properties, "ACTION"@) == Some(plain_prop("ACTION"@, "AUDIO"@)),
            prop_lookup(r@.properties, "TRIGGER"@) is Some,
    {
        proof {
            reveal_strlit("ACTION");
            reveal_strlit("TRIGGER");
            assert("ACTION"@ != "TRIGGER"@) by {
                assert("ACTION"@.len() != "TRIGGER"@.len());
            }
        }
        let mut inner = InnerComponent::new();
        let ap = Action::Audio.to_property();
        proof {
            assert(ap@ =~= plain_prop("ACTION"@, "AUDIO"@));
        }
        inner.insert_property(ap);
        inner.insert_property(trigger.to_property());
        Alarm { inner }
    }

    /// A display alarm with the given text and trigger.
    pub fn display(description: &str, trigger: Trigger) -> (r: Alarm)
        requires
            trigger@ matches TriggerModel::Duration(d, _) ==> d.wf(),
        ensures
            inner_wf(r@),
            prop_lookup(r@.properties, "ACTION"@) == Some(plain_prop("ACTION"@, "DISPLAY"@)),
            prop_lookup(r@.properties, "TRIGGER"@) is Some,
            prop_lookup(r@.properties, "DESCRIPTION"@) == Some(
                plain_prop("DESCRIPTION"@, crate::escaping::escape_newlines_spec(description@)),
            ),
    {
        proof {
            reveal_strlit("ACTION");
            reveal_strlit("TRIGGER");
            reveal_strlit("DESCRIPTION");
            assert("ACTION"@ != "TRIGGER"@) by {
                assert("ACTION"@.len() != "TRIGGER"@.len());
            }
            assert("ACTION"@ != "DESCRIPTION"@) by {
                assert("ACTION"@.len() != "DESCRIPTION"@.len());
            }
            assert("TRIGGER"@ != "DESCRIPTION"@) by {
                assert("TRIGGER"@.len() != "DESCRIPTION"@.len());
            }
        }
        let mut inner = InnerComponent::new();
        let ap = Action::Display.to_property();
        proof {
            assert(ap@ =~= plain_prop("ACTION"@, "DISPLAY"@));
        }
        inner.insert_property(ap);
        inner.insert_property(trigger.to_property());
        inner.add_property("DESCRIPTION", description);
        Alarm { inner }
    }

    /// An email alarm with the given text, trigger and summary.
    pub fn email(description: &str, trigger: Trigger, summary: &str) -> (r: Alarm)
        requires
            trigger@ matches TriggerModel::Duration(d, _) ==> d.wf(),
        ensures
            inner_wf(r@),
            prop_lookup(r@.properties, "ACTION"@) == Some(plain_prop("ACTION"@, "EMAIL"@)),
            prop_lookup(r@.properties, "TRIGGER"@) is Some,
            prop_lookup(r@.properties, "DESCRIPTION"@) == Some(
                plain_prop("DESCRIPTION"@, crate::escaping::escape_newlines_spec(description@)),
            ),
            prop_lookup(r@.properties, "SUMMARY"@) == Some(
                plain_prop("SUMMARY"@, crate::escaping::escape_newlines_spec(summary@)),
            ),
    {
        proof {
            reveal_strlit("ACTION");
            reveal_strlit("TRIGGER");
            reveal_strlit("DESCRIPTION");
            reveal_strlit("SUMMARY");
            assert("ACTION"@ != "TRIGGER"@) by {
                assert("ACTION"@.len() != "TRIGGER"@.len());
            }
            assert("ACTION"@ != "DESCRIPTION"@) by {
                assert("ACTION"@.len() != "DESCRIPTION"@.len());
            }
            assert("TRIGGER"@ != "DESCRIPTION"@) by {
                assert("TRIGGER"@.len() != "DESCRIPTION"@.len());
            }
            assert("ACTION"@ != "SUMMARY"@) by {
                assert("ACTION"@[0] != "SUMMARY"@[0]);
            }
            assert("TRIGGER"@ != "SUMMARY"@) by {
                assert("TRIGGER"@[0] != "SUMMARY"@[0]);
            }
            assert("DESCRIPTION"@ != "SUMMARY"@) by {
                assert("DESCRIPTION"@[0] != "SUMMARY"@[0]);
            }
        }
        let mut inner = InnerComponent::new();
        let ap = Action::Email.to_property();
        proof {
            assert(ap@ =~= plain_prop("ACTION"@, "EMAIL"@));
        }
        inner.insert_property(ap);
        inner.insert_property(trigger.to_property());
        inner.add_property("DESCRIPTION", description);
        inner.add_property("SUMMARY", summary);
        Alarm { inner }
    }

    /// Sets the `DURATION` and `REPEAT` properties, which the format only
    /// allows together.
    pub fn duration_and_repeat(self, duration: DeltaSeconds, repeat_count: u32) -> (r: Alarm)
        requires
            inner_wf(self@),
            duration.wf(),
        ensures
            inner_wf(r@),
            prop_lookup(r@.properties, "DURATION"@) == Some(
                plain_prop("DURATION"@, delta_seconds_str(duration.spec_secs())),
            ),
            prop_lookup(r@.properties, "REPEAT"@) == Some(
                plain_prop("REPEAT"@, crate::numbers::dec_rep(repeat_count as nat)),
            ),
    {
        proof {
            reveal_strlit("DURATION");
            reveal_strlit("REPEAT");
            assert("DURATION"@ != "REPEAT"@) by {
                assert("DURATION"@.len() != "REPEAT"@.len());
            }
        }
        let mut inner = self.inner;
        let p = duration.to_property();
        proof {
            assert(p@ =~= plain_prop("DURATION"@, delta_seconds_str(duration.spec_secs())));
        }
        inner.insert_property(p);
        let rp = Repeat(repeat_count).to_property();
        proof {
            assert(rp@ =~= plain_prop("REPEAT"@, crate::numbers::dec_rep(repeat_count as nat)));
        }
        inner.insert_property(rp);
        Alarm { inner }
    }

    /// Sets the unique identifier.
    pub fn uid(self, uid: &str) -> (r: Alarm)
        requires
            inner_wf(self@),
        ensures
            inner_wf(r@),
            prop_lookup(r@.properties, "UID"@) == Some(
                plain_prop("UID"@, crate::escaping::escape_newlines_spec(uid@)),
            ),
            forall|k: Seq<char>|
                k != "UID"@ ==> prop_lookup(r@.properties, k) == prop_lookup(self@.properties, k),
    {
        let mut inner = self.inner;
        inner.add_property("UID", uid);
        Alarm { inner }
    }

    /// Builds and stores a single-valued property.
    pub fn add_property(self, key: &str, val: &str) -> (r: Alarm)
        requires
            inner_wf(self@),
        ensures
            inner_wf(r@),
            prop_lookup(r@.properties, key@) == Some(
                plain_prop(key@, crate::escaping::escape_newlines_spec(val@)),
            ),
            forall|k: Seq<char>|
                k != key@ ==> prop_lookup(r@.properties, k) == prop_lookup(self@.properties, k),
    {
        let mut inner = self.inner;
        inner.add_property(key, val);
        Alarm { inner }
    }

    /// Stores a prepared single-valued property.
    pub fn append_property(self, property: Property) -> (r: Alarm)
        requires
            inner_wf(self@),
            property.wf(),
        ensures
            inner_wf(r@),
            prop_lookup(r@.properties, property@.key) == Some(property@),
            forall|k: Seq<char>|
                k != property@.key ==> prop_lookup(r@.properties, k) == prop_lookup(
                    self@.properties,
                    k,
                ),
    {
        let mut inner = self.inner;
        inner.insert_property(property);
        Alarm { inner }
    }

    /// End of the builder pattern: takes the finished alarm.
    pub fn done(&mut self) -> (r: Alarm)
        ensures
            r == *old(self),
            final(self)@.properties.len() == 0,
            final(self)@.multi_properties.len() == 0,
            final(self)@.components.len() == 0,
            inner_wf(final(self)@),
    {
        Alarm { inner: self.inner.done() }
    }

    /// Reads the `ACTION` property.
    pub fn get_action(&self) -> (r: Option<Action>)
        ensures
            r is Some <==> prop_lookup(self@.properties, "ACTION"@) is Some,
            match prop_lookup(self@.properties, "ACTION"@) {
                Some(p) => r matches Some(a) && (p.val == "AUDIO"@ ==> a == Action::Audio) && (p.val
                    == "EMAIL"@ ==> a == Action::Email) && (p.val == "DISPLAY"@ ==> a
                    == Action::Display),
                None => r is None,
            },
    {
        match self.inner.property_value("ACTION") {
            Some(v) => Some(Action::from_str(v)),
            None => None,
        }
    }

    /// Reads the `TRIGGER` property.
    pub fn get_trigger(&self) -> (r: Option<Trigger>)
        ensures
            match prop_lookup(self@.properties, "TRIGGER"@) {
                Some(p) => match r {
                    Some(t) => trigger_from_property_spec(p) == Some(t@),
                    None => trigger_from_property_spec(p) is None,
                },
                None => r is None,
            },
    {
        match self.inner.get_property("TRIGGER") {
            Some(p) => Trigger::from_property(p),
            None => None,
        }
    }

    /// Reads the description.
    pub fn get_description(&self) -> (r: Option<&str>)
        ensures
            match r {
                Some(v) => prop_lookup(self@.properties, "DESCRIPTION"@) matches Some(p) && p.val
                    == v@,
                None => prop_lookup(self@.properties, "DESCRIPTION"@) is None,
            },
    {
        self.inner.property_value("DESCRIPTION")
    }

    /// Reads the repeat count; absent or unreadable counts read as zero.
    pub fn get_repeat(&self) -> (r: u32)
        ensures
            r as int == match prop_lookup(self@.properties, "REPEAT"@) {
                Some(p) => match parse_u32_spec(p.val) {
                    Some(v) => v as int,
                    None => 0,
                },
                None => 0,
            },
    {
        match self.inner.property_value("REPEAT") {
            Some(v) => match parse_u32(v) {
                Some(n) => n,
                None => 0,
            },
            None => 0,
        }
    }

    /// This alarm as a plain component under the `VALARM` kind.
    pub fn into_other(self) -> (r: crate::components::other::Other)
        ensures
            r@.name == "VALARM"@,
            r@.inner == self@,
    {
        crate::components::other::Other::from_parts(
            <String as vstd::string::StringExecFns>::from_str("VALARM"),
            self.inner,
        )
    }

    /// Renders this alarm on its own, as text under the `VALARM` kind.
    pub fn to_string(&self) -> (r: String)
        ensures
            exists|now: Seq<char>, uid: Seq<char>|
                crate::components::synth_inputs_wf(now, uid) && r@
                    == crate::components::render_inner("VALARM"@, self@, now, uid),
    {
        let r = crate::components::component_to_string("VALARM", &self.inner);
        proof {
            let (n2, u2) = choose|n2: Seq<char>, u2: Seq<char>|
                crate::components::synth_inputs_wf(n2, u2) && r@
                    == crate::components::render_inner("VALARM"@, self.inner@, n2, u2);
            assert(r@ == crate::components::render_inner("VALARM"@, self@, n2, u2));
        }
        r
    }
}

} // verus!
