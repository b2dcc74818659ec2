//! One content line: `name (";" parameter)* ":" value`.

use crate::chars::range_string;
use crate::chars::str_chars;
use crate::parser::grammar::parse_params;
use crate::parser::grammar::parse_property;
use crate::parser::grammar::PropModel;
use crate::parser::parameters::parse_parameters_at;
use crate::parser::parameters::Parameter;
use crate::parser::parsed_string::ParseString;
use crate::parser::scan::key_end_x;
use crate::parser::scan::line_feed_at_x;
use crate::parser::scan::multispace_end_x;
use crate::parser::scan::name_begin_x;
use crate::parser::scan::name_end_x;
use crate::parser::scan::range_eq_x;
use vstd::prelude::*;

verus! {

/// One property of a component: name, raw value, and parameters in parse
/// order.
#[derive(Debug, Clone, PartialEq, Eq)]
pub struct Property {
    pub name: ParseString,
    pub val: ParseString,
    pub params: Vec<Parameter>,
}

impl View for Property {
    type V = PropModel;

    open spec fn view(&self) -> PropModel {
        PropModel {
            name: self.name@,
            val: self.val@,
            params: self.params@.map_values(|p: Parameter| p@),
        }
    }
}

impl Property {
    /// Builds a parameter-less property from borrowed name and value.
    pub fn new_ref(key: &str, val: &str) -> (r: Property)
        ensures
            r@.name == key@,
            r@.val == val@,
            r@.params.len() == 0,
    {
        let r = Property {
            name: ParseString::from_str(key),
            val: ParseString::from_str(val),
            params: Vec::new(),
        };
        proof {
            assert(r@.params =~= Seq::<crate::parser::grammar::ParamModel>::empty());
        }
        r
    }
}

impl Property {
    /// Is this property's name one the format allows to repeat within a
    /// component?
    pub fn is_multi_property(&self) -> (r: bool)
        ensures
            r == crate::components::is_multi_name(self@.name),
    {
        crate::components::is_multi_property_name(self.name.as_str())
    }
}

/// Parses one content line at `i`. `None` is a hard failure: the line's
/// name is the structural `BEGIN` or `END`.
pub(crate) fn parse_property_at(v: &Vec<char>, i: usize) -> (r: Option<(Property, usize)>)
    requires
        i <= v@.len(),
    ensures
        match r {
            Some((p, j)) => parse_property(v@, i as int) == Some((p@, j as int)) && i <= j
                <= v@.len(),
            None => parse_property(v@, i as int) is None,
        },
{
    let n = v.len();
    let m0 = multispace_end_x(v, i);
    let k1 = key_end_x(v, m0);
    let bkw = name_begin_x();
    let ekw = name_end_x();
    if range_eq_x(v, m0, k1, &bkw) || range_eq_x(v, m0, k1, &ekw) {
        return None;
    }
    let (params, pp) = parse_parameters_at(v, k1);
    if pp < n && v[pp] == ':' {
        let v0 = pp + 1;
        let le = line_feed_at_x(v, v0);
        let name = ParseString::from_string(range_string(v, m0, k1));
        let ghost sp = parse_property(v@, i as int);
        if le == n {
            let val = ParseString::from_string(range_string(v, v0, le));
            let p = Property { name, val, params };
            proof {
                assert(p@.params =~= parse_params(v@, k1 as int).0);
            }
            Some((p, le))
        } else if le > v0 && v[le - 1] == '\r' {
            let val = ParseString::from_string(range_string(v, v0, le - 1));
            let p = Property { name, val, params };
            proof {
                assert(p@.params =~= parse_params(v@, k1 as int).0);
            }
            Some((p, le + 1))
        } else {
            let val = ParseString::from_string(range_string(v, v0, le));
            let p = Property { name, val, params };
            proof {
                assert(p@.params =~= parse_params(v@, k1 as int).0);
            }
            Some((p, le + 1))
        }
    } else {
        // a bare key with nothing else: a value-less property
        let k = key_end_x(v, i);
        let after = if k < n && v[k] == '\n' {
            k + 1
        } else if n - k > 1 && v[k] == '\r' && v[k + 1] == '\n' {
            k + 2
        } else {
            k
        };
        let p = Property {
            name: ParseString::from_string(range_string(v, i, k)),
            val: ParseString::from_str(""),
            params: Vec::new(),
        };
        proof {
            reveal_strlit("");
            assert(p@.params =~= Seq::<crate::parser::grammar::ParamModel>::empty());
            assert(p@.val =~= Seq::<char>::empty());
        }
        Some((p, after))
    }
}

/// Parses one property from the start of `input`; trailing text after the
/// line is ignored. An error reports that the line is structural framing.
pub fn parse_property_str(input: &str) -> (r: Result<Property, String>)
    ensures
        match r {
            Ok(p) => parse_property(input@, 0) matches Some((m, j)) && p@ == m,
            Err(_) => parse_property(input@, 0) is None,
        },
{
    let v = str_chars(input);
    match parse_property_at(&v, 0) {
        Some((p, _)) => Ok(p),
        None => Err(ParseString::from_str(
            "error: property cannot be END or BEGIN",
        ).into_owned().as_str().to_owned()),
    }
}

} // verus!

verus! {

/// Parses one property from the start of `input`: the property and how
/// many characters it consumed. `None` is the structural-name failure.
pub fn parse_property_prefix(input: &str) -> (r: Option<(Property, usize)>)
    ensures
        match r {
            Some((p, j)) => parse_property(input@, 0) == Some((p@, j as int)),
            None => parse_property(input@, 0) is None,
        },
{
    let v = str_chars(input);
    parse_property_at(&v, 0)
}

} // verus!
