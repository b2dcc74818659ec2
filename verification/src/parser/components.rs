//! `BEGIN:<NAME> … END:<NAME>` blocks and the recursive-descent parser
//! that reads them.

use crate::chars::chars_to_string;
use crate::chars::str_chars;
use crate::parser::grammar::parse_begin_line;
use crate::parser::grammar::parse_children;
use crate::parser::grammar::parse_component;
use crate::parser::grammar::parse_end_line;
use crate::parser::grammar::CompModel;
use crate::parser::grammar::PropModel;
use crate::parser::parsed_string::ParseString;
use crate::parser::properties::parse_property_at;
use crate::parser::properties::Property;
use crate::parser::scan::begin_kw_x;
use crate::parser::scan::ci_match_x;
use crate::parser::scan::end_kw_x;
use crate::parser::scan::key_end_x;
use crate::parser::scan::newlines_end_x;
use crate::parser::scan::range_eq_x;
use vstd::prelude::*;
use vstd::string::StringExecFns;

verus! {

broadcast use vstd::std_specs::vec::group_vec_axioms;

} // verus!

verus! {

/// A parsed component: its name, its properties and its nested
/// components, each in encountered order.
#[derive(Debug, PartialEq, Eq)]
pub struct Component {
    pub name: ParseString,
    pub properties: Vec<Property>,
    pub components: Vec<Component>,
}

/// The models of a sequence of components.
pub open spec fn comps_model(cs: Seq<Component>) -> Seq<CompModel>
    decreases cs,
{
    Seq::new(
        cs.len(),
        |t: int|
            if 0 <= t < cs.len() {
                comp_model(cs[t])
            } else {
                arbitrary()
            },
    )
}

/// The model of one component.
pub open spec fn comp_model(c: Component) -> CompModel
    decreases c,
{
    CompModel {
        name: c.name@,
        properties: c.properties@.map_values(|p: Property| p@),
        components: comps_model(c.components@),
    }
}

impl View for Component {
    type V = CompModel;

    open spec fn view(&self) -> CompModel {
        comp_model(*self)
    }
}

impl Component {
    /// A component with no properties and no children.
    pub fn new_empty(name: &str) -> (r: Component)
        ensures
            r@.name == name@,
            r@.properties.len() == 0,
            r@.components.len() == 0,
    {
        let r = Component {
            name: ParseString::from_str(name),
            properties: Vec::new(),
            components: Vec::new(),
        };
        proof {
            assert(r@.properties =~= Seq::<PropModel>::empty());
            assert(r@.components =~= Seq::<CompModel>::empty());
        }
        r
    }

    /// The first property named `name`, if any (case-sensitively).
    pub fn find_prop(&self, name: &str) -> (r: Option<&Property>)
        ensures
            match r {
                Some(p) => exists|t: int|
                    0 <= t < self@.properties.len() && self@.properties[t] == p@
                        && p@.name == name@,
                None => forall|t: int|
                    0 <= t < self@.properties.len() ==> self@.properties[t].name != name@,
            },
    {
        let n = self.properties.len();
        let mut i: usize = 0;
        loop
            invariant
                i <= n,
                n == self.properties@.len(),
                forall|t: int| 0 <= t < i ==> self@.properties[t].name != name@,
            ensures
                i == n,
                forall|t: int| 0 <= t < i ==> self@.properties[t].name != name@,
            decreases n - i,
        {
            if i >= n {
                break ;
            }
            if self.properties[i].name.eq_str(name) {
                proof {
                    assert(self@.properties[i as int] == self.properties@[i as int]@);
                }
                return Some(&self.properties[i]);
            }
            proof {
                assert(self@.properties[i as int] == self.properties@[i as int]@);
            }
            i = i + 1;
        }
        None
    }
}

/// Parses the `BEGIN:<NAME>` line at `i`: returns the name's characters
/// and the position after the line and following blank lines.
fn parse_begin_line_at(v: &Vec<char>, i: usize) -> (r: Option<(Vec<char>, usize)>)
    requires
        i <= v@.len(),
    ensures
        match r {
            Some((name, j)) => parse_begin_line(v@, i as int) == Some((name@, j as int)) && i < j
                <= v@.len(),
            None => parse_begin_line(v@, i as int) is None,
        },
{
    let n = v.len();
    let p = newlines_end_x(v, i);
    let bkw = begin_kw_x();
    if ci_match_x(v, p, &bkw) {
        let k = key_end_x(v, p + 6);
        let mut name: Vec<char> = Vec::new();
        crate::chars::push_range(&mut name, v, p + 6, k);
        proof {
            assert(name@ =~= v@.subrange(p + 6, k as int));
        }
        if k == n {
            proof {
                crate::parser::grammar::lemma_parse_begin_line_bounds(v@, i as int);
            }
            Some((name, k))
        } else if v[k] == '\n' {
            let j = newlines_end_x(v, k + 1);
            proof {
                crate::parser::grammar::lemma_parse_begin_line_bounds(v@, i as int);
            }
            Some((name, j))
        } else if n - k > 1 && v[k] == '\r' && v[k + 1] == '\n' {
            let j = newlines_end_x(v, k + 2);
            proof {
                crate::parser::grammar::lemma_parse_begin_line_bounds(v@, i as int);
            }
            Some((name, j))
        } else {
            None
        }
    } else {
        None
    }
}

/// Parses one whole component at `i`. `None` is a structural failure:
/// no `BEGIN` line, a mismatched or missing `END`, or a bad line inside.
pub(crate) fn parse_component_at(v: &Vec<char>, i: usize) -> (r: Option<(Component, usize)>)
    requires
        i <= v@.len(),
    ensures
        match r {
            Some((c, j)) => parse_component(v@, i as int) == Some((c@, j as int)) && i < j
                <= v@.len(),
            None => parse_component(v@, i as int) is None,
        },
    decreases v@.len() - i,
{
    let n = v.len();
    let (namev, j0) = match parse_begin_line_at(v, i) {
        Some(x) => x,
        None => {
            return None;
        },
    };
    let ghost gname = namev@;
    let mut props: Vec<Property> = Vec::new();
    let mut comps: Vec<Component> = Vec::new();
    let mut pos: usize = j0;
    let ekw = end_kw_x();
    let bkw = begin_kw_x();
    proof {
        assert(props@.map_values(|p: Property| p@) =~= Seq::<PropModel>::empty());
        assert(Seq::new(comps@.len(), |t: int| comps@[t]@) =~= Seq::<CompModel>::empty());
    }
    let after_end: usize;
    loop
        invariant
            j0 <= pos <= n,
            i < j0,
            i <= v@.len(),
            n == v@.len(),
            parse_begin_line(v@, i as int) == Some((gname, j0 as int)),
            gname == namev@,
            ekw@ == crate::parser::grammar::end_kw(),
            bkw@ == crate::parser::grammar::begin_kw(),
            match parse_children(v@, pos as int, gname) {
                Some((ps, cs, k)) => parse_children(v@, j0 as int, gname) == Some(
                    (
                        props@.map_values(|p: Property| p@) + ps,
                        Seq::new(comps@.len(), |t: int| comps@[t]@) + cs,
                        k,
                    ),
                ),
                None => parse_children(v@, j0 as int, gname) is None,
            },
        ensures
            parse_children(v@, j0 as int, gname) == Some(
                (
                    props@.map_values(|p: Property| p@),
                    Seq::new(comps@.len(), |t: int| comps@[t]@),
                    after_end as int,
                ),
            ),
            after_end <= n,
        decreases n - pos,
    {
        let ghost here = parse_children(v@, pos as int, gname);
        let p = newlines_end_x(v, pos);
        if p >= n {
            return None;
        }
        if ci_match_x(v, p, &ekw) {
            // committed to the closing line: the name must match exactly
            let nl = namev.len();
            if nl <= n - (p + 4) && range_eq_x(v, p + 4, p + 4 + nl, &namev) {
                let k0 = p + 4 + nl;
                if k0 == n {
                    proof {
                        assert(parse_end_line(v@, p as int, gname) == Some(k0 as int));
                        assert(props@.map_values(|q: Property| q@) + Seq::<PropModel>::empty()
                            =~= props@.map_values(|q: Property| q@));
                        assert(Seq::new(comps@.len(), |t: int| comps@[t]@) + Seq::<
                            CompModel,
                        >::empty() =~= Seq::new(comps@.len(), |t: int| comps@[t]@));
                    }
                    after_end = k0;
                    break ;
                } else if v[k0] == '\n' {
                    let k = newlines_end_x(v, k0 + 1);
                    proof {
                        assert(parse_end_line(v@, p as int, gname) == Some(k as int));
                        assert(props@.map_values(|q: Property| q@) + Seq::<PropModel>::empty()
                            =~= props@.map_values(|q: Property| q@));
                        assert(Seq::new(comps@.len(), |t: int| comps@[t]@) + Seq::<
                            CompModel,
                        >::empty() =~= Seq::new(comps@.len(), |t: int| comps@[t]@));
                    }
                    after_end = k;
                    break ;
                } else if n - k0 > 1 && v[k0] == '\r' && v[k0 + 1] == '\n' {
                    let k = newlines_end_x(v, k0 + 2);
                    proof {
                        assert(parse_end_line(v@, p as int, gname) == Some(k as int));
                        assert(props@.map_values(|q: Property| q@) + Seq::<PropModel>::empty()
                            =~= props@.map_values(|q: Property| q@));
                        assert(Seq::new(comps@.len(), |t: int| comps@[t]@) + Seq::<
                            CompModel,
                        >::empty() =~= Seq::new(comps@.len(), |t: int| comps@[t]@));
                    }
                    after_end = k;
                    break ;
                } else {
                    proof {
                        assert(parse_end_line(v@, p as int, gname) is None);
                    }
                    return None;
                }
            } else {
                proof {
                    assert(parse_end_line(v@, p as int, gname) is None);
                }
                return None;
            }
        } else if ci_match_x(v, p, &bkw) {
            // committed to a nested component
            match parse_component_at(v, p) {
                Some((c, j)) => {
                    let ghost oldc = comps@;
                    let ghost oldp = props@;
                    comps.push(c);
                    pos = j;
                    proof {
                        assert(Seq::new(comps@.len(), |t: int| comps@[t]@) =~= Seq::new(
                            oldc.len(),
                            |t: int| oldc[t]@,
                        ) + seq![c@]);
                        match parse_children(v@, pos as int, gname) {
                            Some((ps, cs, k)) => {
                                assert(Seq::new(oldc.len(), |t: int| oldc[t]@) + (seq![c@] + cs)
                                    =~= (Seq::new(oldc.len(), |t: int| oldc[t]@) + seq![c@]) + cs);
                            },
                            None => {},
                        }
                    }
                },
                None => {
                    return None;
                },
            }
        } else {
            match parse_property_at(v, p) {
                Some((prop, j)) => {
                    if j <= p {
                        return None;
                    }
                    let ghost oldp = props@;
                    props.push(prop);
                    pos = j;
                    proof {
                        assert(props@.map_values(|q: Property| q@) =~= oldp.map_values(
                            |q: Property| q@,
                        ) + seq![prop@]);
                        match parse_children(v@, pos as int, gname) {
                            Some((ps, cs, k)) => {
                                assert(oldp.map_values(|q: Property| q@) + (seq![prop@] + ps)
                                    =~= (oldp.map_values(|q: Property| q@) + seq![prop@]) + ps);
                            },
                            None => {},
                        }
                    }
                },
                None => {
                    return None;
                },
            }
        }
    }
    let ghost gprops = props@;
    let ghost gcomps = comps@;
    let comp = Component {
        name: ParseString::from_string(chars_to_string(&namev)),
        properties: props,
        components: comps,
    };
    proof {
        assert(comp.components@ == gcomps);
        assert(comp.properties@ == gprops);
        assert(comp@.components.len() == gcomps.len());
        assert forall|t: int| 0 <= t < gcomps.len() implies comp@.components[t] == gcomps[t]@ by {
            assert(comp.components[t] == gcomps[t]);
        }
        assert(comp@.components =~= Seq::new(gcomps.len(), |t: int| gcomps[t]@));
        assert(comp@.properties =~= gprops.map_values(|p: Property| p@));
        assert(comp@.name == gname);
        assert(parse_component(v@, i as int) == Some((comp@, after_end as int)));
        crate::parser::grammar::lemma_parse_children_bounds(v@, j0 as int, gname);
        assert(i < after_end);
    }
    Some((comp, after_end))
}

/// Parses exactly one component from the start of `input`; text after the
/// component's `END` line is ignored.
pub fn read_component(input: &str) -> (r: Result<Component, String>)
    ensures
        match r {
            Ok(c) => parse_component(input@, 0) matches Some((m, j)) && c@ == m,
            Err(_) => parse_component(input@, 0) is None,
        },
{
    let v = str_chars(input);
    match parse_component_at(&v, 0) {
        Some((c, _)) => Ok(c),
        None => Err(structural_error_message(&v, 0)),
    }
}

/// A structural-error message naming the line (of the normalized text) at
/// which the parse gave up.
pub(crate) fn structural_error_message(v: &Vec<char>, pos: usize) -> (r: String)
    requires
        pos <= v@.len(),
{
    let mut line: usize = 1;
    let mut i: usize = 0;
    while i < pos
        invariant
            i <= pos <= v@.len(),
            line >= 1,
        decreases pos - i,
    {
        if v[i] == '\n' && line < usize::MAX {
            line = line + 1;
        }
        i = i + 1;
    }
    let mut msg = String::from_str("error: invalid component structure near line ");
    let digits = crate::numbers::usize_to_string(line);
    msg.append(digits.as_str());
    msg
}

} // verus!
