//! The document level: a calendar is a forest of components; a leading
//! `VCALENDAR` component, when present, is the implicit root.

use crate::chars::chars_to_string;
use crate::chars::push_str_chars;
use crate::chars::str_chars;
use crate::parser::components::comps_model;
use crate::parser::components::parse_component_at;
use crate::parser::components::structural_error_message;
use crate::parser::components::Component;
use crate::parser::grammar::parse_components_all;
use crate::parser::grammar::CompModel;
use crate::parser::grammar::PropModel;
use crate::parser::properties::Property;
use crate::parser::render::crlf;
use crate::parser::render::lemma_render_comps_snoc;
use crate::parser::render::render_component_into;
use crate::parser::render::render_comps;
use crate::parser::render::render_properties_into;
use crate::parser::render::render_props;
use crate::parser::scan::newlines_end_x;
use vstd::prelude::*;

verus! {

/// The model of a parsed calendar: top-level properties and components.
#[verifier::ext_equal]
pub struct CalModel {
    pub properties: Seq<PropModel>,
    pub components: Seq<CompModel>,
}

/// How a parsed forest becomes a calendar: a leading `VCALENDAR` root is
/// unwrapped; otherwise the forest itself is the calendar's content.
pub open spec fn calendar_of(cs: Seq<CompModel>) -> CalModel {
    if cs.len() > 0 && cs[0].name == "VCALENDAR"@ {
        CalModel { properties: cs[0].properties, components: cs[0].components }
    } else {
        CalModel { properties: Seq::empty(), components: cs }
    }
}

/// A parsed calendar, for reserialization.
#[derive(Debug, PartialEq)]
pub struct Calendar {
    pub properties: Vec<Property>,
    pub components: Vec<Component>,
}

impl View for Calendar {
    type V = CalModel;

    open spec fn view(&self) -> CalModel {
        CalModel {
            properties: self.properties@.map_values(|p: Property| p@),
            components: comps_model(self.components@),
        }
    }
}

/// The rendered text of a calendar: explicit `VCALENDAR` framing around
/// its properties and components.
pub open spec fn render_calendar(m: CalModel) -> Seq<char> {
    crate::parser::grammar::begin_kw() + "VCALENDAR"@ + crlf() + render_props(m.properties)
        + render_comps(m.components) + crate::parser::grammar::end_kw() + "VCALENDAR"@ + crlf()
}

impl Calendar {
    /// Renders the calendar, folding each long line. Nothing is
    /// synthesized here: what was parsed is what is written.
    pub fn to_string(&self) -> (r: String)
        ensures
            r@ == render_calendar(self@),
    {
        let mut out: Vec<char> = Vec::new();
        push_str_chars(&mut out, "BEGIN:");
        push_str_chars(&mut out, "VCALENDAR");
        out.push('\r');
        out.push('\n');
        proof {
            reveal_strlit("BEGIN:");
            assert(out@ =~= crate::parser::grammar::begin_kw() + "VCALENDAR"@ + crlf());
        }
        render_properties_into(&mut out, &self.properties);
        let ghost mid = out@;
        let m = self.components.len();
        let mut i: usize = 0;
        proof {
            assert(self@.components.take(0) =~= Seq::<CompModel>::empty());
            assert(out@ =~= mid + render_comps(self@.components.take(0)));
        }
        while i < m
            invariant
                i <= m,
                m == self.components@.len(),
                self@.components == comps_model(self.components@),
                self@.components.len() == m,
                forall|t: int| 0 <= t < m ==> self@.components[t] == self.components@[t]@,
                out@ == mid + render_comps(self@.components.take(i as int)),
            decreases m - i,
        {
            render_component_into(&mut out, &self.components[i]);
            proof {
                lemma_render_comps_snoc(self@.components, i as int);
                assert(out@ =~= mid + render_comps(self@.components.take(i as int + 1)));
            }
            i = i + 1;
        }
        proof {
            assert(self@.components.take(m as int) =~= self@.components);
        }
        push_str_chars(&mut out, "END:");
        push_str_chars(&mut out, "VCALENDAR");
        out.push('\r');
        out.push('\n');
        proof {
            reveal_strlit("END:");
            assert(out@ =~= render_calendar(self@));
        }
        chars_to_string(&out)
    }
}

/// Parses the whole input as a sequence of components; the entire input
/// must be consumed.
pub(crate) fn parse_all_components(v: &Vec<char>) -> (r: Result<Vec<Component>, usize>)
    ensures
        match r {
            Ok(cs) => parse_components_all(v@, 0) matches Some(ms) && ms == cs@.map_values(
                |c: Component| c@,
            ),
            Err(pos) => parse_components_all(v@, 0) is None && pos <= v@.len(),
        },
{
    let n = v.len();
    let mut out: Vec<Component> = Vec::new();
    let mut pos: usize = 0;
    loop
        invariant
            pos <= n,
            n == v@.len(),
            match parse_components_all(v@, pos as int) {
                Some(ms) => parse_components_all(v@, 0) matches Some(all) && all == out@.map_values(
                    |c: Component| c@,
                ) + ms,
                None => parse_components_all(v@, 0) is None,
            },
        ensures
            pos <= n,
            parse_components_all(v@, 0) matches Some(all) && all == out@.map_values(
                |c: Component| c@,
            ),
        decreases n - pos,
    {
        let ghost here = parse_components_all(v@, pos as int);
        let p = newlines_end_x(v, pos);
        if p >= n {
            proof {
                assert(here == Some(Seq::<CompModel>::empty()));
                assert(out@.map_values(|c: Component| c@) + Seq::<CompModel>::empty()
                    =~= out@.map_values(|c: Component| c@));
            }
            break ;
        }
        match parse_component_at(v, p) {
            Some((c, j)) => {
                let ghost oldo = out@;
                out.push(c);
                pos = j;
                proof {
                    assert(out@.map_values(|q: Component| q@) =~= oldo.map_values(
                        |q: Component| q@,
                    ) + seq![c@]);
                    match parse_components_all(v@, pos as int) {
                        Some(ms) => {
                            assert(here == Some(seq![c@] + ms));
                            assert(oldo.map_values(|q: Component| q@) + (seq![c@] + ms)
                                =~= (oldo.map_values(|q: Component| q@) + seq![c@]) + ms);
                        },
                        None => {},
                    }
                }
            },
            None => {
                return Err(p);
            },
        }
    }
    Ok(out)
}

/// Parses iCalendar text into a list of components. The input must have
/// been normalized (unfolded) first; the whole input must parse.
pub fn read_components(input: &str) -> (r: Result<Vec<Component>, String>)
    ensures
        match r {
            Ok(cs) => parse_components_all(input@, 0) matches Some(ms) && ms == cs@.map_values(
                |c: Component| c@,
            ),
            Err(_) => parse_components_all(input@, 0) is None,
        },
{
    let v = str_chars(input);
    match parse_all_components(&v) {
        Ok(cs) => Ok(cs),
        Err(pos) => Err(structural_error_message(&v, pos)),
    }
}

/// Parses iCalendar text into a list of components, reporting failure
/// without position detail.
pub fn read_calendar_simple(input: &str) -> (r: Result<Vec<Component>, String>)
    ensures
        match r {
            Ok(cs) => parse_components_all(input@, 0) matches Some(ms) && ms == cs@.map_values(
                |c: Component| c@,
            ),
            Err(_) => parse_components_all(input@, 0) is None,
        },
{
    let v = str_chars(input);
    match parse_all_components(&v) {
        Ok(cs) => Ok(cs),
        Err(_) => Err(String::from_str("error: invalid calendar")),
    }
}

/// Parses iCalendar text into a [`Calendar`]: a leading `VCALENDAR`
/// component becomes the root; otherwise the components stand on their
/// own. The whole input must parse.
pub fn read_calendar(input: &str) -> (r: Result<Calendar, String>)
    ensures
        match r {
            Ok(c) => parse_components_all(input@, 0) matches Some(ms) && c@ == calendar_of(ms),
            Err(_) => parse_components_all(input@, 0) is None,
        },
{
    let v = str_chars(input);
    let mut comps = match parse_all_components(&v) {
        Ok(cs) => cs,
        Err(pos) => {
            return Err(structural_error_message(&v, pos));
        },
    };
    let ghost ms = comps@.map_values(|c: Component| c@);
    if comps.len() > 0 && comps[0].name.eq_str("VCALENDAR") {
        let root = comps.remove(0);
        proof {
            assert(ms[0] == root@);
        }
        let cal = Calendar { properties: root.properties, components: root.components };
        proof {
            assert(cal@ == calendar_of(ms));
        }
        Ok(cal)
    } else {
        let cal = Calendar { properties: Vec::new(), components: comps };
        proof {
            if ms.len() > 0 {
                assert(ms[0] == comps@[0]@);
            }
            assert(cal@.properties =~= Seq::<PropModel>::empty());
            assert(cal@.components =~= ms);
        }
        Ok(cal)
    }
}

} // verus!
