//! A calendar: its own properties in insertion order and a list of typed
//! components, rendered inside explicit `VCALENDAR` framing.

pub mod calendar_component;

pub use calendar_component::CalendarComponent;
pub use calendar_component::CalendarComponentModel;

use crate::calendar::calendar_component::cal_comp_inner;
use crate::calendar::calendar_component::cal_comp_kind;
use crate::calendar::calendar_component::cal_comp_wf;
use crate::chars::chars_to_string;
use crate::chars::push_str_chars;
use crate::components::fresh_render_inputs;
use crate::components::prop_matches;
use crate::components::render_inner;
use crate::components::render_inner_into;
use crate::components::render_property_list;
use crate::components::lemma_render_property_list_snoc;
use crate::duration::DeltaSeconds;
use crate::folding::unfold;
use crate::folding::unfold_spec;
use crate::parser::grammar::parse_components_all;
use crate::properties::Parameter;
use crate::properties::Property;
use crate::properties::PropertyModel;
use vstd::prelude::*;

verus! {

/// The model of a typed calendar.
pub struct CalendarModel {
    /// Top-level properties, in insertion order.
    pub properties: Seq<PropertyModel>,
    /// The components, in insertion order.
    pub components: Seq<CalendarComponentModel>,
}

/// A calendar.
#[derive(Debug, PartialEq)]
pub struct Calendar {
    /// Top-level calendar properties.
    pub properties: Vec<Property>,
    /// Events, to-dos and venues defined in the calendar.
    pub components: Vec<CalendarComponent>,
}

impl View for Calendar {
    type V = CalendarModel;

    open spec fn view(&self) -> CalendarModel {
        CalendarModel {
            properties: self.properties@.map_values(|p: Property| p@),
            components: self.components@.map_values(|c: CalendarComponent| c@),
        }
    }
}

/// The first property named `k` in an ordered property list.
pub open spec fn first_prop(ps: Seq<PropertyModel>, k: Seq<char>) -> Option<PropertyModel>
    decreases ps.len(),
{
    if ps.len() == 0 {
        None
    } else if ps[0].key == k {
        Some(ps[0])
    } else {
        first_prop(ps.skip(1), k)
    }
}

/// The rendered components of a calendar, in order.
pub open spec fn render_cal_comps(
    cs: Seq<CalendarComponentModel>,
    now: Seq<char>,
    uid: Seq<char>,
) -> Seq<char>
    decreases cs.len(),
{
    if cs.len() == 0 {
        Seq::empty()
    } else {
        render_inner(cal_comp_kind(cs[0]), cal_comp_inner(cs[0]), now, uid) + render_cal_comps(
            cs.subrange(1, cs.len() as int),
            now,
            uid,
        )
    }
}

#[verifier::rlimit(50)]
pub proof fn lemma_render_cal_comps_snoc(
    cs: Seq<CalendarComponentModel>,
    k: int,
    now: Seq<char>,
    uid: Seq<char>,
)
    requires
        0 <= k < cs.len(),
    ensures
        render_cal_comps(cs.take(k + 1), now, uid) == render_cal_comps(cs.take(k), now, uid)
            + render_inner(cal_comp_kind(cs[k]), cal_comp_inner(cs[k]), now, uid),
    decreases k,
{
    let a = cs.take(k + 1);
    assert(a.len() == k + 1);
    assert(render_cal_comps(a, now, uid) == render_inner(
        cal_comp_kind(a[0]),
        cal_comp_inner(a[0]),
        now,
        uid,
    ) + render_cal_comps(a.subrange(1, a.len() as int), now, uid));
    if k == 0 {
        assert(a.subrange(1, a.len() as int) =~= Seq::empty());
        assert(a[0] == cs[0]);
        assert(render_cal_comps(cs.take(0), now, uid) =~= Seq::empty()) by {
            assert(cs.take(0) =~= Seq::<CalendarComponentModel>::empty());
        }
        let one = render_inner(cal_comp_kind(cs[0]), cal_comp_inner(cs[0]), now, uid);
        assert(one + Seq::<char>::empty() =~= one);
        assert(Seq::<char>::empty() + one =~= one);
    } else {
        let tail = cs.subrange(1, cs.len() as int);
        lemma_render_cal_comps_snoc(tail, k - 1, now, uid);
        assert(a[0] == cs[0]);
        assert(a.subrange(1, a.len() as int) =~= tail.take(k));
        assert(cs.take(k).subrange(1, k as int) =~= tail.take(k - 1));
        assert(tail[k - 1] == cs[k]);
        let h = render_inner(cal_comp_kind(cs[0]), cal_comp_inner(cs[0]), now, uid);
        let mid = render_cal_comps(tail.take(k - 1), now, uid);
        let lastp = render_inner(cal_comp_kind(cs[k]), cal_comp_inner(cs[k]), now, uid);
        assert(render_cal_comps(cs.take(k + 1), now, uid) == h + (mid + lastp));
        assert(h + (mid + lastp) =~= (h + mid) + lastp);
    }
}

/// Every component of the calendar carries explicit `DTSTAMP` and `UID`
/// properties throughout, so a render synthesizes nothing.
pub open spec fn calendar_fully_stamped(m: CalendarModel) -> bool {
    forall|i: int|
        0 <= i < m.components.len() ==> crate::components::fully_stamped(
            cal_comp_inner(#[trigger] m.components[i]),
        )
}

/// With every `DTSTAMP` and `UID` stored, the rendered components do not
/// depend on the synthesized values.
pub proof fn lemma_render_cal_comps_no_synthesis(
    cs: Seq<CalendarComponentModel>,
    now: Seq<char>,
    uid: Seq<char>,
)
    requires
        forall|i: int|
            0 <= i < cs.len() ==> crate::components::fully_stamped(
                cal_comp_inner(#[trigger] cs[i]),
            ),
    ensures
        render_cal_comps(cs, now, uid) == render_cal_comps(cs, Seq::empty(), Seq::empty()),
    decreases cs.len(),
{
    if cs.len() > 0 {
        let tail = cs.subrange(1, cs.len() as int);
        assert(forall|i: int| 0 <= i < tail.len() ==> tail[i] == cs[i + 1]);
        crate::components::lemma_render_inner_no_synthesis(
            cal_comp_kind(cs[0]),
            cal_comp_inner(cs[0]),
            now,
            uid,
        );
        lemma_render_cal_comps_no_synthesis(tail, now, uid);
    }
}

/// The rendered calendar: the `VCALENDAR` framing, its own properties in
/// insertion order, and the components depth first.
pub open spec fn render_calendar_text(m: CalendarModel, now: Seq<char>, uid: Seq<char>) -> Seq<
    char,
> {
    crate::parser::grammar::begin_kw() + "VCALENDAR"@ + seq!['\r', '\n'] + render_property_list(
        m.properties,
    ) + render_cal_comps(m.components, now, uid) + crate::parser::grammar::end_kw() + "VCALENDAR"@
        + seq!['\r', '\n']
}

impl Calendar {
    /// Produces a calendar without any default properties.
    pub fn empty() -> (r: Calendar)
        ensures
            r@.properties.len() == 0,
            r@.components.len() == 0,
    {
        let r = Calendar { properties: Vec::new(), components: Vec::new() };
        proof {
            assert(r@.properties =~= Seq::<PropertyModel>::empty());
            assert(r@.components =~= Seq::<CalendarComponentModel>::empty());
        }
        r
    }

    /// Creates a new calendar, prefilled with the `VERSION`, `PRODID` and
    /// `CALSCALE` properties.
    pub fn new() -> (r: Calendar)
        ensures
            r@.properties.len() == 3,
            r@.properties[0] == crate::components::plain_prop("VERSION"@, "2.0"@),
            r@.properties[1] == crate::components::plain_prop("PRODID"@, "ICALENDAR-RS"@),
            r@.properties[2] == crate::components::plain_prop("CALSCALE"@, "GREGORIAN"@),
            r@.components.len() == 0,
    {
        let mut properties: Vec<Property> = Vec::new();
        properties.push(
            Property::from_raw_parts(
                <String as vstd::string::StringExecFns>::from_str("VERSION"),
                <String as vstd::string::StringExecFns>::from_str("2.0"),
            ),
        );
        properties.push(
            Property::from_raw_parts(
                <String as vstd::string::StringExecFns>::from_str("PRODID"),
                <String as vstd::string::StringExecFns>::from_str("ICALENDAR-RS"),
            ),
        );
        properties.push(
            Property::from_raw_parts(
                <String as vstd::string::StringExecFns>::from_str("CALSCALE"),
                <String as vstd::string::StringExecFns>::from_str("GREGORIAN"),
            ),
        );
        let r = Calendar { properties, components: Vec::new() };
        proof {
            assert(r@.components =~= Seq::<CalendarComponentModel>::empty());
            assert(r@.properties[0] =~= crate::components::plain_prop("VERSION"@, "2.0"@));
            assert(r@.properties[1] =~= crate::components::plain_prop("PRODID"@, "ICALENDAR-RS"@));
            assert(r@.properties[2] =~= crate::components::plain_prop("CALSCALE"@, "GREGORIAN"@));
        }
        r
    }

    /// Appends a component.
    pub fn push(&mut self, component: CalendarComponent)
        ensures
            final(self)@.components == old(self)@.components.push(component@),
            final(self)@.properties == old(self)@.properties,
    {
        let ghost before = self@;
        self.components.push(component);
        proof {
            assert(final(self)@.components =~= before.components.push(component@));
            assert(final(self)@.properties =~= before.properties);
        }
    }

    /// Moves all components of `other` to the end of this calendar,
    /// leaving `other` without components.
    pub fn append(&mut self, other: &mut Calendar)
        ensures
            final(self)@.components == old(self)@.components + old(other)@.components,
            final(self)@.properties == old(self)@.properties,
            final(other)@.components.len() == 0,
            final(other)@.properties == old(other)@.properties,
    {
        self.components.append(&mut other.components);
        proof {
            assert(final(self)@.components =~= old(self)@.components + old(other)@.components);
            assert(final(self)@.properties =~= old(self)@.properties);
            assert(final(other)@.components =~= Seq::<CalendarComponentModel>::empty());
            assert(final(other)@.properties =~= old(other)@.properties);
        }
    }

    /// Appends a calendar property.
    pub fn append_property(&mut self, property: Property)
        ensures
            final(self)@.properties == old(self)@.properties.push(property@),
            final(self)@.components == old(self)@.components,
    {
        let ghost before = self@;
        self.properties.push(property);
        proof {
            assert(final(self)@.properties =~= before.properties.push(property@));
            assert(final(self)@.components =~= before.components);
        }
    }

    /// The value of the first calendar property named `key`.
    pub fn property_value(&self, key: &str) -> (r: Option<&str>)
        ensures
            match r {
                Some(v) => first_prop(self@.properties, key@) matches Some(p) && p.val == v@,
                None => first_prop(self@.properties, key@) is None,
            },
    {
        let n = self.properties.len();
        let mut i: usize = 0;
        proof {
            assert(self@.properties.skip(0) =~= self@.properties);
        }
        loop
            invariant
                i <= n,
                n == self.properties@.len(),
                first_prop(self@.properties, key@) == first_prop(
                    self@.properties.skip(i as int),
                    key@,
                ),
            ensures
                i <= n,
                first_prop(self@.properties, key@) == first_prop(
                    self@.properties.skip(i as int),
                    key@,
                ),
                i == n || self@.properties[i as int].key == key@,
            decreases n - i,
        {
            if i >= n {
                break ;
            }
            proof {
                assert(self@.properties.skip(i as int)[0] == self@.properties[i as int]);
                assert(self@.properties.skip(i as int).skip(1) =~= self@.properties.skip(
                    i as int + 1,
                ));
            }
            if self.properties[i].key_is(key) {
                break ;
            }
            i = i + 1;
        }
        if i < n {
            proof {
                assert(first_prop(self@.properties.skip(i as int), key@) == Some(
                    self@.properties[i as int],
                )) by {
                    assert(self@.properties.skip(i as int)[0] == self@.properties[i as int]);
                }
            }
            Some(self.properties[i].value())
        } else {
            proof {
                assert(self@.properties.skip(n as int) =~= Seq::<PropertyModel>::empty());
            }
            None
        }
    }

    /// Sets the `NAME` and `X-WR-CALNAME` properties.
    pub fn name(&mut self, name: &str)
        ensures
            final(self)@.properties == old(self)@.properties.push(
                crate::components::plain_prop("NAME"@, crate::escaping::escape_newlines_spec(name@)),
            ).push(crate::components::plain_prop("X-WR-CALNAME"@, crate::escaping::escape_newlines_spec(name@))),
            final(self)@.components == old(self)@.components,
    {
        let p1 = Property::new("NAME", name);
        proof {
            assert(p1@ =~= crate::components::plain_prop("NAME"@, crate::escaping::escape_newlines_spec(name@)));
        }
        self.append_property(p1);
        let p2 = Property::new("X-WR-CALNAME", name);
        proof {
            assert(p2@ =~= crate::components::plain_prop("X-WR-CALNAME"@, crate::escaping::escape_newlines_spec(name@)));
        }
        self.append_property(p2);
    }

    /// Reads the `NAME` or `X-WR-CALNAME` property.
    pub fn get_name(&self) -> (r: Option<&str>)
        ensures
            match first_prop(self@.properties, "NAME"@) {
                Some(p) => r matches Some(v) && p.val == v@,
                None => match first_prop(self@.properties, "X-WR-CALNAME"@) {
                    Some(p) => r matches Some(v) && p.val == v@,
                    None => r is None,
                },
            },
    {
        match self.property_value("NAME") {
            Some(v) => Some(v),
            None => self.property_value("X-WR-CALNAME"),
        }
    }

    /// Sets the `DESCRIPTION` and `X-WR-CALDESC` properties.
    pub fn description(&mut self, description: &str)
        ensures
            final(self)@.properties == old(self)@.properties.push(
                crate::components::plain_prop("DESCRIPTION"@, crate::escaping::escape_newlines_spec(description@)),
            ).push(crate::components::plain_prop("X-WR-CALDESC"@, crate::escaping::escape_newlines_spec(description@))),
            final(self)@.components == old(self)@.components,
    {
        let p1 = Property::new("DESCRIPTION", description);
        proof {
            assert(p1@ =~= crate::components::plain_prop("DESCRIPTION"@, crate::escaping::escape_newlines_spec(description@)));
        }
        self.append_property(p1);
        let p2 = Property::new("X-WR-CALDESC", description);
        proof {
            assert(p2@ =~= crate::components::plain_prop("X-WR-CALDESC"@, crate::escaping::escape_newlines_spec(description@)));
        }
        self.append_property(p2);
    }

    /// Reads the `DESCRIPTION` or `X-WR-CALDESC` property.
    pub fn get_description(&self) -> (r: Option<&str>)
        ensures
            match first_prop(self@.properties, "DESCRIPTION"@) {
                Some(p) => r matches Some(v) && p.val == v@,
                None => match first_prop(self@.properties, "X-WR-CALDESC"@) {
                    Some(p) => r matches Some(v) && p.val == v@,
                    None => r is None,
                },
            },
    {
        match self.property_value("DESCRIPTION") {
            Some(v) => Some(v),
            None => self.property_value("X-WR-CALDESC"),
        }
    }

    /// Sets the `TIMEZONE-ID` and `X-WR-TIMEZONE` properties.
    pub fn timezone(&mut self, timezone: &str)
        ensures
            final(self)@.properties == old(self)@.properties.push(
                crate::components::plain_prop("TIMEZONE-ID"@, crate::escaping::escape_newlines_spec(timezone@)),
            ).push(crate::components::plain_prop("X-WR-TIMEZONE"@, crate::escaping::escape_newlines_spec(timezone@))),
            final(self)@.components == old(self)@.components,
    {
        let p1 = Property::new("TIMEZONE-ID", timezone);
        proof {
            assert(p1@ =~= crate::components::plain_prop("TIMEZONE-ID"@, crate::escaping::escape_newlines_spec(timezone@)));
        }
        self.append_property(p1);
        let p2 = Property::new("X-WR-TIMEZONE", timezone);
        proof {
            assert(p2@ =~= crate::components::plain_prop("X-WR-TIMEZONE"@, crate::escaping::escape_newlines_spec(timezone@)));
        }
        self.append_property(p2);
    }

    /// Reads the `TIMEZONE_ID` or `X-WR-TIMEZONE` property.
    pub fn get_timezone(&self) -> (r: Option<&str>)
        ensures
            match first_prop(self@.properties, "TIMEZONE_ID"@) {
                Some(p) => r matches Some(v) && p.val == v@,
                None => match first_prop(self@.properties, "X-WR-TIMEZONE"@) {
                    Some(p) => r matches Some(v) && p.val == v@,
                    None => r is None,
                },
            },
    {
        match self.property_value("TIMEZONE_ID") {
            Some(v) => Some(v),
            None => self.property_value("X-WR-TIMEZONE"),
        }
    }

    /// Sets the `REFRESH-INTERVAL` and `X-PUBLISHED-TTL` properties from a
    /// seconds delta.
    pub fn ttl(&mut self, duration: &DeltaSeconds)
        requires
            duration.wf(),
        ensures
            final(self)@.properties.len() == old(self)@.properties.len() + 2,
            final(self)@.components == old(self)@.components,
    {
        let duration_string = duration.to_string();
        let p1 = Property::new("REFRESH-INTERVAL", duration_string.as_str()).append_parameter(
            Parameter::new("VALUE", "DURATION"),
        );
        self.append_property(p1);
        let p2 = Property::new("X-PUBLISHED-TTL", duration_string.as_str());
        self.append_property(p2);
    }

    /// End of the builder pattern: takes the finished calendar.
    pub fn done(&mut self) -> (r: Calendar)
        ensures
            r == *old(self),
            final(self)@.properties == Seq::<PropertyModel>::empty(),
            final(self)@.components == Seq::<CalendarComponentModel>::empty(),
    {
        let mut taken = Calendar { properties: Vec::new(), components: Vec::new() };
        proof {
            assert(taken@.properties =~= Seq::<PropertyModel>::empty());
            assert(taken@.components =~= Seq::<CalendarComponentModel>::empty());
        }
        core::mem::swap(&mut taken, self);
        taken
    }

    /// Renders the calendar: explicit `VCALENDAR` framing, the calendar's
    /// own properties as given, each component depth first with `DTSTAMP`
    /// and `UID` synthesized where absent.
    pub fn to_string(&self) -> (r: String)
        ensures
            exists|now: Seq<char>, uid: Seq<char>|
                crate::components::synth_inputs_wf(now, uid) && r@ == render_calendar_text(
                    self@,
                    now,
                    uid,
                ),
            calendar_fully_stamped(self@) ==> r@ == render_calendar_text(
                self@,
                Seq::empty(),
                Seq::empty(),
            ),
    {
        let (now, uid) = fresh_render_inputs();
        let mut out: Vec<char> = Vec::new();
        push_str_chars(&mut out, "BEGIN:");
        push_str_chars(&mut out, "VCALENDAR");
        out.push('\r');
        out.push('\n');
        proof {
            reveal_strlit("BEGIN:");
            assert(out@ =~= crate::parser::grammar::begin_kw() + "VCALENDAR"@ + seq!['\r', '\n']);
        }
        let ghost head = out@;
        let m = self.properties.len();
        let mut i: usize = 0;
        proof {
            assert(self@.properties.take(0) =~= Seq::<PropertyModel>::empty());
            assert(out@ =~= head + render_property_list(self@.properties.take(0)));
        }
        while i < m
            invariant
                i <= m,
                m == self.properties@.len(),
                self@.properties == self.properties@.map_values(|p: Property| p@),
                self@.properties.len() == m,
                out@ == head + render_property_list(self@.properties.take(i as int)),
            decreases m - i,
        {
            self.properties[i].render_into(&mut out);
            proof {
                assert(self@.properties[i as int] == self.properties@[i as int]@);
                lemma_render_property_list_snoc(self@.properties, i as int);
                assert(out@ =~= head + render_property_list(self@.properties.take(i as int + 1)));
            }
            i = i + 1;
        }
        proof {
            assert(self@.properties.take(m as int) =~= self@.properties);
        }
        let ghost props_done = out@;
        let mc = self.components.len();
        let mut t: usize = 0;
        proof {
            assert(self@.components.take(0) =~= Seq::<CalendarComponentModel>::empty());
            assert(out@ =~= props_done + render_cal_comps(self@.components.take(0), now@, uid@));
        }
        while t < mc
            invariant
                t <= mc,
                mc == self.components@.len(),
                self@.components == self.components@.map_values(|c: CalendarComponent| c@),
                self@.components.len() == mc,
                out@ == props_done + render_cal_comps(self@.components.take(t as int), now@, uid@),
            decreases mc - t,
        {
            proof {
                assert(self@.components[t as int] == self.components@[t as int]@);
            }
            match &self.components[t] {
                CalendarComponent::Todo(c) => {
                    render_inner_into(&mut out, "VTODO", &c.inner, now.as_str(), uid.as_str());
                },
                CalendarComponent::Event(c) => {
                    render_inner_into(&mut out, "VEVENT", &c.inner, now.as_str(), uid.as_str());
                },
                CalendarComponent::Venue(c) => {
                    render_inner_into(&mut out, "VVENUE", &c.inner, now.as_str(), uid.as_str());
                },
                CalendarComponent::Other(c) => {
                    render_inner_into(
                        &mut out,
                        c.name.as_str(),
                        &c.inner,
                        now.as_str(),
                        uid.as_str(),
                    );
                },
            }
            proof {
                lemma_render_cal_comps_snoc(self@.components, t as int, now@, uid@);
                assert(out@ =~= props_done + render_cal_comps(
                    self@.components.take(t as int + 1),
                    now@,
                    uid@,
                ));
            }
            t = t + 1;
        }
        proof {
            assert(self@.components.take(mc as int) =~= self@.components);
        }
        push_str_chars(&mut out, "END:");
        push_str_chars(&mut out, "VCALENDAR");
        out.push('\r');
        out.push('\n');
        proof {
            reveal_strlit("END:");
            assert(out@ =~= render_calendar_text(self@, now@, uid@));
            if calendar_fully_stamped(self@) {
                lemma_render_cal_comps_no_synthesis(self@.components, now@, uid@);
            }
        }
        chars_to_string(&out)
    }

    /// Renders the calendar; the render cannot fail.
    pub fn try_into_string(&self) -> (r: Result<String, String>)
        ensures
            r matches Ok(s) && exists|now: Seq<char>, uid: Seq<char>|
                crate::components::synth_inputs_wf(now, uid) && s@ == render_calendar_text(
                    self@,
                    now,
                    uid,
                ),
            calendar_fully_stamped(self@) ==> (r matches Ok(s) && s@ == render_calendar_text(
                self@,
                Seq::empty(),
                Seq::empty(),
            )),
    {
        Ok(self.to_string())
    }

    /// Parses text into a typed calendar: the input is unfolded, parsed
    /// as components, and a leading `VCALENDAR` root is unwrapped; its
    /// properties carry over in order and each component converts to its
    /// typed kind.
    pub fn parse_from(input: &str) -> (r: Result<Calendar, String>)
        ensures
            match r {
                Ok(c) => parse_components_all(unfold_spec(input@), 0) matches Some(ms)
                    && typed_calendar_matches(crate::parser::calendar::calendar_of(ms), c@),
                Err(_) => parse_components_all(unfold_spec(input@), 0) is None,
            },
    {
        let unfolded = unfold(input);
        let parsed = match crate::parser::calendar::read_calendar(unfolded.as_str()) {
            Ok(p) => p,
            Err(e) => {
                return Err(e);
            },
        };
        let mut properties: Vec<Property> = Vec::new();
        let np = parsed.properties.len();
        let mut i: usize = 0;
        while i < np
            invariant
                i <= np,
                np == parsed.properties@.len(),
                properties@.len() == i,
                forall|t: int|
                    0 <= t < i ==> (#[trigger] properties@[t])@.key == parsed.properties@[t]@.name
                        && prop_matches(parsed.properties@[t]@, properties@[t]@),
            decreases np - i,
        {
            let tp = crate::components::property_from_parsed(&parsed.properties[i]);
            properties.push(tp);
            i = i + 1;
        }
        let mut components: Vec<CalendarComponent> = Vec::new();
        let nc = parsed.components.len();
        let mut t: usize = 0;
        while t < nc
            invariant
                t <= nc,
                nc == parsed.components@.len(),
                components@.len() == t,
                forall|u: int|
                    0 <= u < t ==> calendar_component_matches(
                        parsed.components@[u]@,
                        (#[trigger] components@[u])@,
                    ),
            decreases nc - t,
        {
            let cc = CalendarComponent::from_parsed(&parsed.components[t]);
            components.push(cc);
            t = t + 1;
        }
        let ghost pm = parsed@;
        let cal = Calendar { properties, components };
        proof {
            assert(typed_calendar_matches(pm, cal@)) by {
                assert(forall|u: int|
                    0 <= u < pm.components.len() ==> pm.components[u]
                        == crate::parser::components::comps_model(parsed.components@)[u]);
            }
        }
        Ok(cal)
    }
}

/// One typed component faithfully carries one parsed component: the kind
/// dispatch on the name, and a faithful body.
pub open spec fn calendar_component_matches(
    pm: crate::parser::grammar::CompModel,
    m: CalendarComponentModel,
) -> bool {
    &&& crate::components::inner_matches(pm, cal_comp_inner(m))
    &&& cal_comp_wf(m)
    &&& cal_comp_kind(m) == if pm.name == "VTODO"@ {
        "VTODO"@
    } else if pm.name == "VEVENT"@ {
        "VEVENT"@
    } else if pm.name == "VVENUE"@ {
        "VVENUE"@
    } else {
        pm.name
    }
}

/// A typed calendar faithfully carries a parsed one: properties in order,
/// components pointwise.
pub open spec fn typed_calendar_matches(
    pm: crate::parser::calendar::CalModel,
    m: CalendarModel,
) -> bool {
    &&& m.properties.len() == pm.properties.len()
    &&& forall|t: int|
        0 <= t < pm.properties.len() ==> prop_matches(
            pm.properties[t],
            #[trigger] m.properties[t],
        )
    &&& m.components.len() == pm.components.len()
    &&& forall|t: int|
        0 <= t < pm.components.len() ==> calendar_component_matches(
            pm.components[t],
            #[trigger] m.components[t],
        )
}

} // verus!
