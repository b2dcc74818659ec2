//! The content-line grammar, as specification functions.
//!
//! One logical line is `name (";" parameter)* ":" value`; a component is a
//! `BEGIN:<NAME>` line, an interleaving of properties and nested
//! components, and a matching `END:<NAME>` line. These functions define
//! what the executable parser returns; the parser's contracts state
//! equality with them.

use crate::chars::ascii_alphanumeric;
use crate::chars::unicode_alphanumeric;
use vstd::prelude::*;

verus! {

/// The parsed form of one `;KEY=VALUE` parameter.
#[verifier::ext_equal]
pub struct ParamModel {
    pub key: Seq<char>,
    pub val: Option<Seq<char>>,
}

/// The parsed form of one content line.
#[verifier::ext_equal]
pub struct PropModel {
    pub name: Seq<char>,
    pub val: Seq<char>,
    pub params: Seq<ParamModel>,
}

/// The parsed form of a `BEGIN`/`END` block.
#[verifier::ext_equal]
pub struct CompModel {
    pub name: Seq<char>,
    pub properties: Seq<PropModel>,
    pub components: Seq<CompModel>,
}

/// A character allowed in a property, parameter or component name: the
/// four punctuation characters, a letter or a digit. Below 128 the
/// letter-or-digit test is the ASCII one (which is what the Unicode
/// classifier returns there); beyond it the Unicode classifier decides.
pub open spec fn is_key_char(c: char) -> bool {
    c == '.' || c == ',' || c == '/' || c == '_' || c == '-' || ascii_alphanumeric(c) || ((
    c as u32) >= 128 && unicode_alphanumeric(c))
}

/// One space or horizontal tab.
pub open spec fn is_sp(c: char) -> bool {
    c == ' ' || c == '\t'
}

/// Whitespace that `multispace0` accepts before a property name.
pub open spec fn is_multispace(c: char) -> bool {
    c == ' ' || c == '\t' || c == '\r' || c == '\n'
}

/// End of the run of key characters starting at `i`.
pub open spec fn key_end(s: Seq<char>, i: int) -> int
    decreases s.len() - i,
    when 0 <= i <= s.len()
{
    if i < s.len() && is_key_char(s[i]) {
        key_end(s, i + 1)
    } else {
        i
    }
}

/// End of the run of spaces and tabs starting at `i`.
pub open spec fn sp_end(s: Seq<char>, i: int) -> int
    decreases s.len() - i,
    when 0 <= i <= s.len()
{
    if i < s.len() && is_sp(s[i]) {
        sp_end(s, i + 1)
    } else {
        i
    }
}

/// End of the run of blank-line whitespace starting at `i`.
pub open spec fn multispace_end(s: Seq<char>, i: int) -> int
    decreases s.len() - i,
    when 0 <= i <= s.len()
{
    if i < s.len() && is_multispace(s[i]) {
        multispace_end(s, i + 1)
    } else {
        i
    }
}

/// Position after the run of line terminators (CRLF or LF) starting at `i`.
pub open spec fn newlines_end(s: Seq<char>, i: int) -> int
    decreases s.len() - i,
    when 0 <= i <= s.len()
{
    if i < s.len() && s[i] == '\n' {
        newlines_end(s, i + 1)
    } else if i + 1 < s.len() && s[i] == '\r' && s[i + 1] == '\n' {
        newlines_end(s, i + 2)
    } else {
        i
    }
}

/// Index of the first line feed at or after `i`, or the end of the text.
pub open spec fn line_feed_at(s: Seq<char>, i: int) -> int
    decreases s.len() - i,
    when 0 <= i <= s.len()
{
    if i < s.len() && s[i] != '\n' {
        line_feed_at(s, i + 1)
    } else {
        i
    }
}

/// Index of the first `;` or `:` at or after `i`, or the end of the text.
pub open spec fn till_sep(s: Seq<char>, i: int) -> int
    decreases s.len() - i,
    when 0 <= i <= s.len()
{
    if i < s.len() && s[i] != ';' && s[i] != ':' {
        till_sep(s, i + 1)
    } else {
        i
    }
}

/// Index of the first double quote at or after `i`, or the end of the text.
pub open spec fn till_quote(s: Seq<char>, i: int) -> int
    decreases s.len() - i,
    when 0 <= i <= s.len()
{
    if i < s.len() && s[i] != '"' {
        till_quote(s, i + 1)
    } else {
        i
    }
}

pub proof fn lemma_scan_bounds(s: Seq<char>, i: int)
    requires
        0 <= i <= s.len(),
    ensures
        i <= key_end(s, i) <= s.len(),
        i <= sp_end(s, i) <= s.len(),
        i <= multispace_end(s, i) <= s.len(),
        i <= newlines_end(s, i) <= s.len(),
        i <= line_feed_at(s, i) <= s.len(),
        i <= till_sep(s, i) <= s.len(),
        i <= till_quote(s, i) <= s.len(),
    decreases s.len() - i,
{
    if i < s.len() {
        lemma_scan_bounds(s, i + 1);
        if i + 1 < s.len() {
            lemma_scan_bounds(s, i + 2);
        }
    }
}

/// Every character of `s` is a space or tab (an empty `s` qualifies).
pub open spec fn all_sp(s: Seq<char>) -> bool {
    forall|i: int| 0 <= i < s.len() ==> is_sp(s[i])
}

/// `c` equals the ASCII keyword character `w`, ignoring letter case
/// (`w` is an upper-case letter or a punctuation character).
pub open spec fn ci_eq(c: char, w: char) -> bool {
    c == w || (65 <= w as u32 <= 90 && c as u32 == w as u32 + 32)
}

/// Case-insensitive match of the ASCII keyword `w` at position `i` of `s`.
pub open spec fn ci_match(s: Seq<char>, i: int, w: Seq<char>) -> bool {
    &&& 0 <= i
    &&& i + w.len() <= s.len()
    &&& forall|k: int| 0 <= k < w.len() ==> ci_eq(s[i + k], w[k])
}

pub open spec fn begin_kw() -> Seq<char> {
    seq!['B', 'E', 'G', 'I', 'N', ':']
}

pub open spec fn end_kw() -> Seq<char> {
    seq!['E', 'N', 'D', ':']
}

pub open spec fn name_begin() -> Seq<char> {
    seq!['B', 'E', 'G', 'I', 'N']
}

pub open spec fn name_end() -> Seq<char> {
    seq!['E', 'N', 'D']
}

/// Normalizes a parsed parameter value: a missing, empty or all-blank
/// value means "no value", so `;KEY=` round-trips like `;KEY`.
pub open spec fn norm_param_val(v: Seq<char>) -> Option<Seq<char>> {
    if all_sp(v) {
        None
    } else {
        Some(v)
    }
}

/// Parses one `;KEY`, `;KEY=VALUE` or `;KEY="VALUE"` parameter at `i`.
/// Returns the parameter and the position after it.
pub open spec fn parse_param(s: Seq<char>, i: int) -> Option<(ParamModel, int)>
    recommends
        0 <= i <= s.len(),
{
    if i < s.len() && s[i] == ';' {
        let k0 = sp_end(s, i + 1);
        let k1 = key_end(s, k0);
        let key = s.subrange(k0, k1);
        if k1 < s.len() && s[k1] == '=' {
            let v0 = k1 + 1;
            if v0 == s.len() {
                // `=` at the very end of the input: no value
                Some((ParamModel { key, val: None }, v0))
            } else if s[v0] == '"' && till_quote(s, v0 + 1) < s.len() && till_quote(s, v0 + 1) > v0
                + 1 {
                // a non-empty double-quoted value; may contain `;` and `:`
                let q = till_quote(s, v0 + 1);
                Some((ParamModel { key, val: norm_param_val(s.subrange(v0 + 1, q)) }, q + 1))
            } else {
                // unquoted: runs to the next `;` or `:`
                let e = till_sep(s, v0);
                Some((ParamModel { key, val: norm_param_val(s.subrange(v0, e)) }, e))
            }
        } else {
            Some((ParamModel { key, val: None }, k1))
        }
    } else {
        None
    }
}

/// Parses the whole `(";" parameter)*` list at `i`, left to right.
pub open spec fn parse_params(s: Seq<char>, i: int) -> (Seq<ParamModel>, int)
    decreases s.len() - i,
    when 0 <= i <= s.len()
    via parse_params_dec
{
    match parse_param(s, i) {
        Some((p, j)) => {
            if i < j <= s.len() {
                let (rest, k) = parse_params(s, j);
                (seq![p] + rest, k)
            } else {
                (Seq::empty(), i)
            }
        },
        None => (Seq::empty(), i),
    }
}

#[via_fn]
proof fn parse_params_dec(s: Seq<char>, i: int) {
}

pub proof fn lemma_parse_param_bounds(s: Seq<char>, i: int)
    requires
        0 <= i <= s.len(),
    ensures
        parse_param(s, i) matches Some((p, j)) ==> i < j <= s.len(),
{
    if i < s.len() && s[i] == ';' {
        lemma_scan_bounds(s, i + 1);
        let k0 = sp_end(s, i + 1);
        lemma_scan_bounds(s, k0);
        let k1 = key_end(s, k0);
        if k1 < s.len() && s[k1] == '=' {
            let v0 = k1 + 1;
            if v0 < s.len() {
                lemma_scan_bounds(s, v0 + 1);
                lemma_scan_bounds(s, v0);
            }
        }
    }
}

pub proof fn lemma_parse_params_bounds(s: Seq<char>, i: int)
    requires
        0 <= i <= s.len(),
    ensures
        i <= parse_params(s, i).1 <= s.len(),
    decreases s.len() - i,
{
    lemma_parse_param_bounds(s, i);
    match parse_param(s, i) {
        Some((p, j)) => {
            if i < j <= s.len() {
                lemma_parse_params_bounds(s, j);
            }
        },
        None => {},
    }
}

/// Parses one content line at `i`: a full `name;params:value` line, or —
/// when the colon is absent — a bare name as a value-less property. A name
/// that is the structural `BEGIN` or `END` is rejected outright: inside a
/// component such a line can only be framing, never data.
pub open spec fn parse_property(s: Seq<char>, i: int) -> Option<(PropModel, int)>
    recommends
        0 <= i <= s.len(),
{
    let m0 = multispace_end(s, i);
    let k1 = key_end(s, m0);
    let name = s.subrange(m0, k1);
    if name == name_begin() || name == name_end() {
        None
    } else {
        let (params, pp) = parse_params(s, k1);
        if pp < s.len() && s[pp] == ':' {
            let v0 = pp + 1;
            let le = line_feed_at(s, v0);
            if le == s.len() {
                Some((PropModel { name, val: s.subrange(v0, le), params }, le))
            } else if le > v0 && s[le - 1] == '\r' {
                Some((PropModel { name, val: s.subrange(v0, le - 1), params }, le + 1))
            } else {
                Some((PropModel { name, val: s.subrange(v0, le), params }, le + 1))
            }
        } else {
            // compatibility: a bare key with nothing else on the line
            let k = key_end(s, i);
            let after = if k < s.len() && s[k] == '\n' {
                k + 1
            } else if k + 1 < s.len() && s[k] == '\r' && s[k + 1] == '\n' {
                k + 2
            } else {
                k
            };
            Some(
                (PropModel { name: s.subrange(i, k), val: Seq::empty(), params: Seq::empty() },
                after),
            )
        }
    }
}

pub proof fn lemma_parse_property_bounds(s: Seq<char>, i: int)
    requires
        0 <= i <= s.len(),
    ensures
        parse_property(s, i) matches Some((p, j)) ==> i <= j <= s.len(),
{
    lemma_scan_bounds(s, i);
    let m0 = multispace_end(s, i);
    lemma_scan_bounds(s, m0);
    let k1 = key_end(s, m0);
    lemma_parse_params_bounds(s, k1);
    let pp = parse_params(s, k1).1;
    if pp < s.len() {
        lemma_scan_bounds(s, pp + 1);
    }
}

/// Parses a `BEGIN:<NAME>` line at `i` (after blank lines): the keyword is
/// matched case-insensitively, the captured name verbatim; the line must
/// end after the name. Returns the name and the position after the line
/// and any blank lines that follow it.
pub open spec fn parse_begin_line(s: Seq<char>, i: int) -> Option<(Seq<char>, int)>
    recommends
        0 <= i <= s.len(),
{
    let p = newlines_end(s, i);
    if ci_match(s, p, begin_kw()) {
        let k = key_end(s, p + 6);
        let name = s.subrange(p + 6, k);
        if k == s.len() {
            Some((name, k))
        } else if s[k] == '\n' {
            Some((name, newlines_end(s, k + 1)))
        } else if k + 1 < s.len() && s[k] == '\r' && s[k + 1] == '\n' {
            Some((name, newlines_end(s, k + 2)))
        } else {
            None
        }
    } else {
        None
    }
}

/// Parses the `END:<NAME>` line that closes the block whose `BEGIN`
/// captured `name`: keyword case-insensitive, name exact, line end
/// required. Returns the position after the line and trailing blank lines.
pub open spec fn parse_end_line(s: Seq<char>, p: int, name: Seq<char>) -> Option<int>
    recommends
        0 <= p <= s.len(),
{
    if p + 4 + name.len() <= s.len() && s.subrange(p + 4, p + 4 + name.len()) == name {
        let k = p + 4 + name.len();
        if k == s.len() {
            Some(k)
        } else if s[k] == '\n' {
            Some(newlines_end(s, k + 1))
        } else if k + 1 < s.len() && s[k] == '\r' && s[k + 1] == '\n' {
            Some(newlines_end(s, k + 2))
        } else {
            None
        }
    } else {
        None
    }
}

/// Parses the body of an open component: properties and nested components
/// in any interleaving, until the matching `END` line. Once the block is
/// open there is no backtracking: any failure, a mismatched `END`, or the
/// end of the input is a structural error (`None`).
pub open spec fn parse_children(s: Seq<char>, i: int, name: Seq<char>) -> Option<
    (Seq<PropModel>, Seq<CompModel>, int),
>
    decreases s.len() - i, 1int,
    when 0 <= i <= s.len()
    via parse_children_dec
{
    let p = newlines_end(s, i);
    if p >= s.len() {
        // unterminated component
        None
    } else if ci_match(s, p, end_kw()) {
        // committed to the closing line: the name must match exactly
        match parse_end_line(s, p, name) {
            Some(k) => Some((Seq::empty(), Seq::empty(), k)),
            None => None,
        }
    } else if ci_match(s, p, begin_kw()) {
        // committed to a nested component
        match parse_component(s, p) {
            Some((comp, j)) => {
                if p < j <= s.len() {
                    match parse_children(s, j, name) {
                        Some((ps, cs, k)) => Some((ps, seq![comp] + cs, k)),
                        None => None,
                    }
                } else {
                    None
                }
            },
            None => None,
        }
    } else {
        match parse_property(s, p) {
            Some((prop, j)) => {
                if p < j <= s.len() {
                    match parse_children(s, j, name) {
                        Some((ps, cs, k)) => Some((seq![prop] + ps, cs, k)),
                        None => None,
                    }
                } else {
                    // a line that consumes nothing cannot be data
                    None
                }
            },
            None => None,
        }
    }
}

#[via_fn]
proof fn parse_children_dec(s: Seq<char>, i: int, name: Seq<char>) {
    lemma_scan_bounds(s, i);
}

/// Parses one whole component at `i`: its `BEGIN` line, its body, and its
/// matching `END` line.
pub open spec fn parse_component(s: Seq<char>, i: int) -> Option<(CompModel, int)>
    decreases s.len() - i, 0int,
    when 0 <= i <= s.len()
    via parse_component_dec
{
    match parse_begin_line(s, i) {
        Some((name, j)) => {
            if i < j <= s.len() {
                match parse_children(s, j, name) {
                    Some((ps, cs, k)) => Some(
                        (CompModel { name, properties: ps, components: cs }, k),
                    ),
                    None => None,
                }
            } else {
                None
            }
        },
        None => None,
    }
}

#[via_fn]
proof fn parse_component_dec(s: Seq<char>, i: int) {
}

pub proof fn lemma_parse_begin_line_bounds(s: Seq<char>, i: int)
    requires
        0 <= i <= s.len(),
    ensures
        parse_begin_line(s, i) matches Some((name, j)) ==> i < j <= s.len(),
{
    lemma_scan_bounds(s, i);
    let p = newlines_end(s, i);
    if ci_match(s, p, begin_kw()) {
        lemma_scan_bounds(s, p + 6);
        let k = key_end(s, p + 6);
        if k < s.len() {
            lemma_scan_bounds(s, k + 1);
            if k + 1 < s.len() {
                lemma_scan_bounds(s, k + 2);
            }
        }
    }
}

pub proof fn lemma_parse_children_bounds(s: Seq<char>, i: int, name: Seq<char>)
    requires
        0 <= i <= s.len(),
    ensures
        parse_children(s, i, name) matches Some((ps, cs, k)) ==> i <= k <= s.len(),
        parse_component(s, i) matches Some((c, k)) ==> i < k <= s.len(),
    decreases s.len() - i, 2int,
{
    lemma_scan_bounds(s, i);
    let p = newlines_end(s, i);
    if p < s.len() && ci_match(s, p, end_kw()) {
        let k0 = p + 4 + name.len();
        if k0 < s.len() {
            lemma_scan_bounds(s, k0 + 1);
            if k0 + 1 < s.len() {
                lemma_scan_bounds(s, k0 + 2);
            }
        }
    }
    if p < s.len() && !ci_match(s, p, end_kw()) && ci_match(s, p, begin_kw()) {
        match parse_component(s, p) {
            Some((comp, j)) => {
                if p < j <= s.len() {
                    lemma_parse_children_bounds(s, j, name);
                }
            },
            None => {},
        }
    }
    if p < s.len() && !ci_match(s, p, end_kw()) && !ci_match(s, p, begin_kw()) {
        match parse_property(s, p) {
            Some((prop, j)) => {
                lemma_parse_property_bounds(s, p);
                if p < j <= s.len() {
                    lemma_parse_children_bounds(s, j, name);
                }
            },
            None => {},
        }
    }
    // the component half
    lemma_parse_begin_line_bounds(s, i);
    match parse_begin_line(s, i) {
        Some((nm, j)) => {
            if i < j <= s.len() {
                lemma_parse_children_bounds(s, j, nm);
            }
        },
        None => {},
    }
}

/// Parses a whole document: components separated by blank lines, with the
/// entire input consumed. Trailing garbage is an error.
pub open spec fn parse_components_all(s: Seq<char>, i: int) -> Option<Seq<CompModel>>
    decreases s.len() - i,
    when 0 <= i <= s.len()
    via parse_components_all_dec
{
    let p = newlines_end(s, i);
    if p >= s.len() {
        Some(Seq::empty())
    } else {
        match parse_component(s, p) {
            Some((c, j)) => {
                if p < j <= s.len() {
                    match parse_components_all(s, j) {
                        Some(cs) => Some(seq![c] + cs),
                        None => None,
                    }
                } else {
                    None
                }
            },
            None => None,
        }
    }
}

#[via_fn]
proof fn parse_components_all_dec(s: Seq<char>, i: int) {
    lemma_scan_bounds(s, i);
}

} // verus!
