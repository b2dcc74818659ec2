//! `;KEY=VALUE` parameters of a content line.

use crate::chars::range_string;
use crate::parser::grammar::parse_param;
use crate::parser::grammar::parse_params;
use crate::parser::grammar::ParamModel;
use crate::parser::parsed_string::ParseString;
use crate::parser::scan::all_sp_range;
use crate::parser::scan::key_end_x;
use crate::parser::scan::sp_end_x;
use crate::parser::scan::till_quote_x;
use crate::parser::scan::till_sep_x;
use vstd::prelude::*;

verus! {

/// A key-value pair attached to a property; the value is optional.
#[derive(Debug, Clone, PartialEq, Eq)]
pub struct Parameter {
    pub key: ParseString,
    pub val: Option<ParseString>,
}

impl View for Parameter {
    type V = ParamModel;

    open spec fn view(&self) -> ParamModel {
        ParamModel {
            key: self.key@,
            val: match self.val {
                Some(v) => Some(v@),
                None => None,
            },
        }
    }
}

impl Parameter {
    /// Builds a parameter from borrowed key and value.
    pub fn new_ref(key: &str, val: Option<&str>) -> (r: Parameter)
        ensures
            r@.key == key@,
            r@.val is None <==> val is None,
            val matches Some(w) ==> r@.val == Some(w@),
    {
        Parameter {
            key: ParseString::from_str(key),
            val: match val {
                Some(v) => Some(ParseString::from_str(v)),
                None => None,
            },
        }
    }
}

/// Normalizes a parsed parameter value over the range `v[a..b]`: an
/// all-blank value (the empty one included) becomes "no value".
fn norm_range(v: &Vec<char>, a: usize, b: usize) -> (r: Option<ParseString>)
    requires
        a <= b <= v@.len(),
    ensures
        match r {
            Some(p) => crate::parser::grammar::norm_param_val(v@.subrange(a as int, b as int))
                == Some(p@),
            None => crate::parser::grammar::norm_param_val(v@.subrange(a as int, b as int))
                is None,
        },
{
    if all_sp_range(v, a, b) {
        None
    } else {
        Some(ParseString::from_string(range_string(v, a, b)))
    }
}

/// Parses one parameter at `i`; `None` means no parameter starts there.
pub(crate) fn parse_parameter_at(v: &Vec<char>, i: usize) -> (r: Option<(Parameter, usize)>)
    requires
        i <= v@.len(),
    ensures
        match r {
            Some((p, j)) => parse_param(v@, i as int) == Some((p@, j as int)) && i < j <= v@.len(),
            None => parse_param(v@, i as int) is None,
        },
{
    let n = v.len();
    if i < n && v[i] == ';' {
        let k0 = sp_end_x(v, i + 1);
        let k1 = key_end_x(v, k0);
        let key = ParseString::from_string(range_string(v, k0, k1));
        if k1 < n && v[k1] == '=' {
            let v0 = k1 + 1;
            if v0 == n {
                Some((Parameter { key, val: None }, v0))
            } else if v[v0] == '"' {
                let q = till_quote_x(v, v0 + 1);
                if q < n && q > v0 + 1 {
                    Some((Parameter { key, val: norm_range(v, v0 + 1, q) }, q + 1))
                } else {
                    let e = till_sep_x(v, v0);
                    Some((Parameter { key, val: norm_range(v, v0, e) }, e))
                }
            } else {
                let e = till_sep_x(v, v0);
                Some((Parameter { key, val: norm_range(v, v0, e) }, e))
            }
        } else {
            Some((Parameter { key, val: None }, k1))
        }
    } else {
        None
    }
}

/// Parses the whole parameter list at `i`, left to right, in order.
pub(crate) fn parse_parameters_at(v: &Vec<char>, i: usize) -> (r: (Vec<Parameter>, usize))
    requires
        i <= v@.len(),
    ensures
        ({
            let (ps, j) = parse_params(v@, i as int);
            &&& r.0@.len() == ps.len()
            &&& forall|t: int| 0 <= t < ps.len() ==> r.0@[t]@ == ps[t]
            &&& r.1 as int == j
            &&& i <= r.1 <= v@.len()
        }),
{
    let mut out: Vec<Parameter> = Vec::new();
    let mut pos: usize = i;
    let ghost (all, fin) = parse_params(v@, i as int);
    proof {
        crate::parser::grammar::lemma_parse_params_bounds(v@, i as int);
    }
    loop
        invariant
            i <= pos <= v@.len(),
            parse_params(v@, i as int).1 == parse_params(v@, pos as int).1,
            all == parse_params(v@, i as int).0,
            fin == parse_params(v@, i as int).1,
            out@.len() <= all.len(),
            all =~= out@.map_values(|p: Parameter| p@) + parse_params(v@, pos as int).0,
            forall|t: int| 0 <= t < out@.len() ==> out@[t]@ == all[t],
        ensures
            pos as int == fin,
            out@.map_values(|p: Parameter| p@) =~= all,
            forall|t: int| 0 <= t < out@.len() ==> out@[t]@ == all[t],
        decreases v@.len() - pos,
    {
        let ghost before = parse_params(v@, pos as int);
        match parse_parameter_at(v, pos) {
            Some((p, j)) => {
                proof {
                    crate::parser::grammar::lemma_parse_params_bounds(v@, j as int);
                    assert(before.0 =~= seq![p@] + parse_params(v@, j as int).0);
                }
                let ghost old_out = out@;
                out.push(p);
                pos = j;
                proof {
                    assert(out@.map_values(|q: Parameter| q@) =~= old_out.map_values(
                        |q: Parameter| q@,
                    ) + seq![p@]);
                    assert(all =~= out@.map_values(|q: Parameter| q@) + parse_params(
                        v@,
                        pos as int,
                    ).0);
                    assert(forall|t: int|
                        0 <= t < out@.len() ==> out@[t]@ == all[t]) by {
                        assert(all == out@.map_values(|q: Parameter| q@) + parse_params(
                            v@,
                            pos as int,
                        ).0);
                    }
                }
            },
            None => {
                proof {
                    assert(before.0 =~= Seq::<ParamModel>::empty());
                    assert(before.1 == pos as int);
                }
                break ;
            },
        }
    }
    (out, pos)
}

} // verus!

verus! {

/// Parses one parameter from the start of `input`: the parameter and how
/// many characters it consumed. `None` means no parameter starts there.
pub fn parse_parameter(input: &str) -> (r: Option<(Parameter, usize)>)
    ensures
        match r {
            Some((p, j)) => parse_param(input@, 0) == Some((p@, j as int)),
            None => parse_param(input@, 0) is None,
        },
{
    let v = crate::chars::str_chars(input);
    parse_parameter_at(&v, 0)
}

/// Parses a whole parameter list from the start of `input`: the
/// parameters in order and how many characters they consumed.
pub fn parse_parameter_list(input: &str) -> (r: (Vec<Parameter>, usize))
    ensures
        ({
            let (ps, j) = parse_params(input@, 0);
            &&& r.0@.len() == ps.len()
            &&& forall|t: int| 0 <= t < ps.len() ==> r.0@[t]@ == ps[t]
            &&& r.1 as int == j
        }),
{
    let v = crate::chars::str_chars(input);
    parse_parameters_at(&v, 0)
}

} // verus!
