//! The serializer's inverse obligations, proven at the content-line
//! level: parsing a rendered parameter list or property line restores it
//! exactly, for values that are expressible on the wire.

use crate::parser::grammar::all_sp;
use crate::parser::grammar::is_key_char;
use crate::parser::grammar::is_multispace;
use crate::parser::grammar::is_sp;
use crate::parser::grammar::key_end;
use crate::parser::grammar::line_feed_at;
use crate::parser::grammar::multispace_end;
use crate::parser::grammar::name_begin;
use crate::parser::grammar::name_end;
use crate::parser::grammar::parse_param;
use crate::parser::grammar::parse_params;
use crate::parser::grammar::parse_property;
use crate::parser::grammar::sp_end;
use crate::parser::grammar::till_sep;
use crate::parser::grammar::ParamModel;
use crate::parser::grammar::PropModel;
use crate::parser::render::crlf;
use crate::parser::render::prop_line;
use crate::parser::render::render_param;
use crate::parser::render::render_params;
use vstd::prelude::*;

verus! {

/// A name that survives the wire: key characters only, and not the
/// structural `BEGIN` or `END`.
pub open spec fn wire_name(k: Seq<char>) -> bool {
    &&& forall|i: int| 0 <= i < k.len() ==> is_key_char(#[trigger] k[i])
    &&& k != name_begin()
    &&& k != name_end()
}

/// A parameter that survives the wire unquoted: a key of key characters;
/// a value, when present, that is nonempty, not all blank, does not start
/// with a double quote, and holds no separator or line-break character.
pub open spec fn wire_param(q: ParamModel) -> bool {
    &&& forall|i: int| 0 <= i < q.key.len() ==> is_key_char(#[trigger] q.key[i])
    &&& match q.val {
        Some(v) => {
            &&& v.len() > 0
            &&& !all_sp(v)
            &&& v[0] != '"'
            &&& forall|j: int|
                0 <= j < v.len() ==> #[trigger] v[j] != ';' && v[j] != ':' && v[j] != '\r' && v[j]
                    != '\n'
        },
        None => true,
    }
}

/// A property value that survives the wire: free of line breaks.
pub open spec fn wire_value(v: Seq<char>) -> bool {
    forall|j: int| 0 <= j < v.len() ==> #[trigger] v[j] != '\r' && v[j] != '\n'
}

/// A property that survives the wire as one content line.
pub open spec fn wire_prop(p: PropModel) -> bool {
    &&& wire_name(p.name)
    &&& wire_value(p.val)
    &&& forall|i: int| 0 <= i < p.params.len() ==> wire_param(#[trigger] p.params[i])
}

/// A key character is none of the grammar's separators or whitespace.
proof fn lemma_key_char_facts(c: char)
    requires
        is_key_char(c),
    ensures
        !is_sp(c),
        !is_multispace(c),
        c != ';' && c != ':' && c != '=' && c != '"' && c != '\r' && c != '\n',
{
}

/// `key_end` stops exactly at the end of a run of key characters.
proof fn lemma_key_end_range(s: Seq<char>, a: int, b: int)
    requires
        0 <= a <= b <= s.len(),
        forall|t: int| a <= t < b ==> is_key_char(#[trigger] s[t]),
        b == s.len() || !is_key_char(s[b]),
    ensures
        key_end(s, a) == b,
    decreases b - a,
{
    if a < b {
        lemma_key_end_range(s, a + 1, b);
    }
}

/// `till_sep` stops exactly at the first separator.
proof fn lemma_till_sep_range(s: Seq<char>, a: int, b: int)
    requires
        0 <= a <= b <= s.len(),
        forall|t: int| a <= t < b ==> #[trigger] s[t] != ';' && s[t] != ':',
        b == s.len() || s[b] == ';' || s[b] == ':',
    ensures
        till_sep(s, a) == b,
    decreases b - a,
{
    if a < b {
        lemma_till_sep_range(s, a + 1, b);
    }
}

/// `line_feed_at` stops exactly at the first line feed.
proof fn lemma_line_feed_range(s: Seq<char>, a: int, b: int)
    requires
        0 <= a <= b <= s.len(),
        forall|t: int| a <= t < b ==> #[trigger] s[t] != '\n',
        b == s.len() || s[b] == '\n',
    ensures
        line_feed_at(s, a) == b,
    decreases b - a,
{
    if a < b {
        lemma_line_feed_range(s, a + 1, b);
    }
}

/// Parsing a rendered parameter at its position restores it exactly,
/// provided the text continues with another separator (the next
/// parameter's `;` or the property's `:`) or ends there.
pub proof fn lemma_parse_render_param(s: Seq<char>, i: int, q: ParamModel)
    requires
        wire_param(q),
        0 <= i,
        i + render_param(q).len() <= s.len(),
        s.subrange(i, i + render_param(q).len() as int) == render_param(q),
        i + render_param(q).len() == s.len() || s[i + render_param(q).len()] == ';' || s[i
            + render_param(q).len()] == ':',
    ensures
        parse_param(s, i) == Some((q, i + render_param(q).len() as int)),
{
    let r = render_param(q);
    let fin = i + r.len();
    assert forall|t: int| 0 <= t < r.len() implies s[i + t] == r[t] by {
        assert(s.subrange(i, fin as int)[t] == s[i + t]);
        assert(s.subrange(i, fin as int)[t] == r[t]);
    }
    assert(s[i] == r[0]);
    assert(s[i] == ';');
    let k0 = i + 1;
    // the run after the `;` starts with a key character, an `=`, or the
    // text that follows the parameter: never a blank
    assert(sp_end(s, k0) == k0) by {
        if k0 < s.len() && is_sp(s[k0]) {
            if q.key.len() > 0 {
                assert(s[k0] == r[1]);
                assert(r[1] == q.key[0]);
                lemma_key_char_facts(q.key[0]);
            } else {
                match q.val {
                    Some(v) => {
                        assert(s[k0] == r[1]);
                        assert(r[1] == '=');
                    },
                    None => {
                        assert(k0 == fin);
                    },
                }
            }
        }
    }
    let k1 = k0 + q.key.len();
    assert forall|t: int| k0 <= t < k1 implies s[t] == q.key[t - k0] && is_key_char(
        #[trigger] s[t],
    ) by {
        assert(s[t] == r[t - i]);
        assert(r[t - i] == q.key[t - i - 1]);
    }
    assert(key_end(s, k0) == k1) by {
        if k1 < s.len() {
            if k1 < fin {
                assert(s[k1] == r[k1 - i]);
                assert(r[k1 - i] == '=');
                lemma_key_char_facts_converse();
                assert(!is_key_char('='));
            } else {
                assert(!is_key_char(s[k1]));
            }
        }
        lemma_key_end_range(s, k0, k1);
    }
    assert(s.subrange(k0, k1) =~= q.key);
    match q.val {
        Some(v) => {
            assert(s[k1] == r[k1 - i]);
            assert(s[k1] == '=');
            let v0 = k1 + 1;
            assert(v0 < fin);
            assert(s[v0] == r[v0 - i]);
            assert(s[v0] == v[0]);
            assert(s[v0] != '"');
            let e = v0 + v.len();
            assert forall|t: int| v0 <= t < e implies s[t] == v[t - v0] && #[trigger] s[t] != ';'
                && s[t] != ':' by {
                assert(s[t] == r[t - i]);
                assert(r[t - i] == v[t - v0]);
            }
            assert(till_sep(s, v0) == e) by {
                lemma_till_sep_range(s, v0, e);
            }
            assert(s.subrange(v0, e) =~= v);
            assert(crate::parser::grammar::norm_param_val(v) == Some(v));
            assert(e == fin);
        },
        None => {
            // either the input ends right after the key, or the next
            // character is the following `;` or `:`, never an `=`
            assert(k1 == fin);
            if k1 < s.len() {
                assert(s[k1] != '=');
            }
        },
    }
}

/// `=` is not a key character (spelled out once for reuse).
proof fn lemma_key_char_facts_converse()
    ensures
        !is_key_char('='),
        !is_key_char(';'),
        !is_key_char(':'),
        !is_key_char('\r'),
        !is_key_char('\n'),
        !is_key_char('"'),
{
}

/// Parsing a rendered parameter list at its position restores it exactly,
/// provided a `:` follows it.
pub proof fn lemma_parse_render_params(s: Seq<char>, i: int, ps: Seq<ParamModel>)
    requires
        forall|t: int| 0 <= t < ps.len() ==> wire_param(#[trigger] ps[t]),
        0 <= i,
        i + render_params(ps).len() <= s.len(),
        s.subrange(i, i + render_params(ps).len() as int) == render_params(ps),
        s[i + render_params(ps).len()] == ':',
        i + render_params(ps).len() < s.len(),
    ensures
        parse_params(s, i) == (ps, i + render_params(ps).len() as int),
    decreases ps.len(),
{
    let r = render_params(ps);
    let fin = i + r.len();
    if ps.len() == 0 {
        assert(parse_param(s, i) is None) by {
            assert(s[i] == ':');
        }
    } else {
        let q = ps[0];
        let r0 = render_param(q);
        let tail = ps.subrange(1, ps.len() as int);
        assert(r == r0 + render_params(tail));
        assert(s.subrange(i, i + r0.len() as int) =~= r0) by {
            assert(forall|t: int| 0 <= t < r0.len() ==> r[t] == r0[t]);
        }
        let mid = i + r0.len();
        assert(mid == s.len() || s[mid] == ';' || s[mid] == ':') by {
            if mid < fin {
                assert(s[mid] == r[mid - i]);
                assert(r[mid - i] == render_params(tail)[0]);
                assert(render_params(tail)[0] == render_param(tail[0])[0]);
                assert(render_param(tail[0])[0] == ';');
            }
        }
        lemma_parse_render_param(s, i, q);
        assert(s.subrange(mid, mid + render_params(tail).len() as int) =~= render_params(tail)) by {
            assert(forall|t: int|
                0 <= t < render_params(tail).len() ==> s[mid + t] == r[mid - i + t]
                    && r[mid - i + t] == render_params(tail)[t]);
        }
        lemma_parse_render_params(s, mid, tail);
        assert(seq![q] + tail =~= ps);
    }
}

/// Parsing a rendered (unfolded) content line restores the property
/// exactly: the line, its CRLF terminator, and the position after both.
pub proof fn lemma_parse_render_property(s: Seq<char>, i: int, p: PropModel)
    requires
        wire_prop(p),
        0 <= i,
        i + prop_line(p).len() + 2 <= s.len(),
        s.subrange(i, i + prop_line(p).len() + 2) == prop_line(p) + crlf(),
    ensures
        parse_property(s, i) == Some((p, i + prop_line(p).len() + 2)),
{
    let line = prop_line(p);
    let full = line + crlf();
    let fin = i + line.len() + 2;
    assert(forall|t: int| 0 <= t < full.len() ==> s[i + t] == full[t]) by {
        assert(forall|t: int|
            0 <= t < full.len() ==> s.subrange(i, fin)[t] == s[i + t] && s.subrange(i, fin)[t]
                == full[t]);
    }
    let rp = render_params(p.params);
    // the line decomposes as name, parameters, colon, value
    assert(line == p.name + rp + seq![':'] + p.val);
    let n0 = i;
    let n1 = i + p.name.len();
    let pp = n1 + rp.len();
    let v0 = pp + 1;
    let vend = v0 + p.val.len();
    assert(multispace_end(s, i) == i) by {
        if i < s.len() && is_multispace(s[i]) {
            if p.name.len() > 0 {
                assert(s[i] == full[0]);
                assert(full[0] == p.name[0]);
                lemma_key_char_facts(p.name[0]);
            } else if rp.len() > 0 {
                assert(s[i] == full[0]);
                assert(full[0] == rp[0]);
                assert(rp == render_param(p.params[0]) + render_params(
                    p.params.subrange(1, p.params.len() as int),
                ));
                assert(rp[0] == render_param(p.params[0])[0]);
                assert(render_param(p.params[0])[0] == ';');
            } else {
                assert(s[i] == full[0]);
                assert(full[0] == ':');
            }
        }
    }
    assert forall|t: int| n0 <= t < n1 implies s[t] == p.name[t - n0] && is_key_char(
        #[trigger] s[t],
    ) by {
        assert(s[t] == full[t - i]);
        assert(full[t - i] == p.name[t - i]);
    }
    assert(key_end(s, n0) == n1) by {
        lemma_key_char_facts_converse();
        assert(s[n1] == full[n1 - i]);
        if rp.len() > 0 {
            assert(full[n1 - i] == rp[0]);
            assert(rp == render_param(p.params[0]) + render_params(
                p.params.subrange(1, p.params.len() as int),
            ));
            assert(rp[0] == render_param(p.params[0])[0]);
            assert(render_param(p.params[0])[0] == ';');
        } else {
            assert(full[n1 - i] == ':');
        }
        lemma_key_end_range(s, n0, n1);
    }
    assert(s.subrange(n0, n1) =~= p.name);
    assert(s.subrange(n1, n1 + rp.len() as int) =~= rp) by {
        assert(forall|t: int|
            0 <= t < rp.len() ==> s[n1 + t] == full[n1 - i + t] && full[n1 - i + t] == rp[t]);
    }
    assert(s[pp] == full[pp - i]);
    assert(s[pp] == ':');
    lemma_parse_render_params(s, n1, p.params);
    // the value runs to the CRLF terminator
    assert forall|t: int| v0 <= t < vend implies s[t] == p.val[t - v0] && #[trigger] s[t] != '\n'
        && s[t] != '\r' by {
        assert(s[t] == full[t - i]);
        assert(full[t - i] == p.val[t - v0]);
    }
    assert(s[vend] == full[vend - i]);
    assert(s[vend] == '\r');
    assert(s[vend + 1] == full[vend + 1 - i]);
    assert(s[vend + 1] == '\n');
    assert(line_feed_at(s, v0) == vend + 1) by {
        lemma_line_feed_range(s, v0, vend + 1);
    }
    assert(s.subrange(v0, vend) =~= p.val);
    assert(parse_property(s, i) == Some(
        (PropModel { name: s.subrange(n0, n1), val: s.subrange(v0, vend), params: p.params }, fin),
    ));
    assert(PropModel { name: s.subrange(n0, n1), val: s.subrange(v0, vend), params: p.params }
        =~= p);
}

} // verus!

verus! {

/// The cut semantics, as a law over all names: a block opened as `A` and
/// closed as a different name `B` is a structural failure — the open
/// component is never silently closed or matched by the wrong `END`.
pub proof fn lemma_mismatched_end_rejected(a: Seq<char>, b: Seq<char>)
    requires
        forall|i: int| 0 <= i < a.len() ==> is_key_char(#[trigger] a[i]),
        forall|i: int| 0 <= i < b.len() ==> is_key_char(#[trigger] b[i]),
        a != b,
    ensures
        crate::parser::grammar::parse_component(
            crate::parser::grammar::begin_kw() + a + crlf() + crate::parser::grammar::end_kw() + b
                + crlf(),
            0,
        ) is None,
{
    let la = a.len() as int;
    let lb = b.len() as int;
    let s = crate::parser::grammar::begin_kw() + a + crlf() + crate::parser::grammar::end_kw() + b
        + crlf();
    let bk = crate::parser::grammar::begin_kw();
    let ek = crate::parser::grammar::end_kw();
    assert(s.len() == 14 + la + lb);
    lemma_key_char_facts_converse();
    // where each character of the assembled text comes from
    assert forall|t: int| 0 <= t < s.len() implies s[t] == (if t < 6 {
        bk[t]
    } else if t < 6 + la {
        a[t - 6]
    } else if t == 6 + la {
        '\r'
    } else if t == 7 + la {
        '\n'
    } else if t < 12 + la {
        ek[t - 8 - la]
    } else if t < 12 + la + lb {
        b[t - 12 - la]
    } else if t == 12 + la + lb {
        '\r'
    } else {
        '\n'
    }) by {
        assert(crlf() == seq!['\r', '\n']);
    }
    // the opening line parses and captures `a`
    assert(crate::parser::grammar::newlines_end(s, 0) == 0) by {
        assert(s[0] == 'B');
    }
    assert(crate::parser::grammar::ci_match(s, 0, bk)) by {
        assert forall|k: int| 0 <= k < bk.len() implies crate::parser::grammar::ci_eq(
            s[k],
            bk[k],
        ) by {
            assert(s[k] == bk[k]);
        }
    }
    assert(key_end(s, 6) == 6 + la) by {
        assert forall|t: int| 6 <= t < 6 + la implies is_key_char(#[trigger] s[t]) by {
            assert(s[t] == a[t - 6]);
        }
        assert(s[6 + la] == '\r');
        lemma_key_end_range(s, 6, 6 + la);
    }
    assert(s.subrange(6, 6 + la) =~= a);
    let j0 = 8 + la;
    assert(crate::parser::grammar::newlines_end(s, j0) == j0) by {
        assert(s[j0] == 'E');
    }
    assert(crate::parser::grammar::parse_begin_line(s, 0) == Some((a, j0))) by {
        assert(s[6 + la] != '\n');
        assert(s[6 + la] == '\r' && s[7 + la] == '\n');
    }
    // the body is committed to the closing line, whose name must be `a`
    assert(crate::parser::grammar::ci_match(s, j0, ek)) by {
        assert forall|k: int| 0 <= k < ek.len() implies crate::parser::grammar::ci_eq(
            s[j0 + k],
            ek[k],
        ) by {
            assert(s[j0 + k] == ek[k]);
        }
    }
    assert(!crate::parser::grammar::ci_match(s, j0, bk)) by {
        if crate::parser::grammar::ci_match(s, j0, bk) {
            assert(crate::parser::grammar::ci_eq(s[j0 + 3], bk[3]));
            assert(s[j0 + 3] == ':' && bk[3] == 'I');
        }
    }
    // `parse_end_line` fails: the text after `END:` is `b`, not `a`
    assert(crate::parser::grammar::parse_end_line(s, j0, a) is None) by {
        if j0 + 4 + la <= s.len() {
            let sub = s.subrange(12 + la, 12 + 2 * la);
            if sub == a {
                if la == lb {
                    assert(sub =~= b) by {
                        assert(forall|t: int| 0 <= t < lb ==> sub[t] == s[12 + la + t]);
                    }
                } else if la < lb {
                    // `a` is a proper prefix of `b`: the closing line does
                    // not end after it
                    let k2 = 12 + 2 * la;
                    assert(s[k2] == b[la]);
                    assert(is_key_char(s[k2]));
                    assert(s[k2] != '\n' && s[k2] != '\r');
                    assert(k2 < s.len());
                } else {
                    // the subrange reaches past `b` into the terminator,
                    // but a name never holds a carriage return
                    assert(sub[lb] == s[12 + la + lb]);
                    assert(s[12 + la + lb] == '\r');
                    assert(is_key_char(a[lb]));
                    assert(a[lb] != '\r');
                }
            }
        }
    }
    assert(crate::parser::grammar::parse_children(s, j0, a) is None);
    assert(crate::parser::grammar::parse_component(s, 0) is None);
}

} // verus!

verus! {

/// The rendered parameters of a wire-safe list hold no line feed.
proof fn lemma_render_params_no_lf(ps: Seq<ParamModel>)
    requires
        forall|i: int| 0 <= i < ps.len() ==> wire_param(#[trigger] ps[i]),
    ensures
        forall|t: int| 0 <= t < render_params(ps).len() ==> #[trigger] render_params(ps)[t] != '\n',
    decreases ps.len(),
{
    if ps.len() > 0 {
        let q = ps[0];
        let r0 = render_param(q);
        let tail = ps.subrange(1, ps.len() as int);
        lemma_render_params_no_lf(tail);
        assert forall|t: int| 0 <= t < r0.len() implies #[trigger] r0[t] != '\n' by {
            match q.val {
                Some(v) => {
                    if 1 <= t < 1 + q.key.len() {
                        assert(r0[t] == q.key[t - 1]);
                        lemma_key_char_facts(q.key[t - 1]);
                    } else if t > 1 + q.key.len() {
                        assert(r0[t] == v[t - 2 - q.key.len()]);
                    }
                },
                None => {
                    if t >= 1 {
                        assert(r0[t] == q.key[t - 1]);
                        lemma_key_char_facts(q.key[t - 1]);
                    }
                },
            }
        }
        assert forall|t: int| 0 <= t < render_params(ps).len() implies #[trigger] render_params(
            ps,
        )[t] != '\n' by {
            assert(render_params(ps) == r0 + render_params(tail));
            if t >= r0.len() {
                assert(render_params(ps)[t] == render_params(tail)[t - r0.len()]);
            }
        }
    }
}

/// A wire-safe property's logical line holds no line feed, so it is
/// fold-free.
pub proof fn lemma_prop_line_fold_free(p: PropModel)
    requires
        wire_prop(p),
    ensures
        crate::folding::is_fold_free(prop_line(p)),
        forall|t: int| 0 <= t < prop_line(p).len() ==> #[trigger] prop_line(p)[t] != '\n',
{
    let line = prop_line(p);
    let rp = render_params(p.params);
    lemma_render_params_no_lf(p.params);
    assert forall|t: int| 0 <= t < line.len() implies #[trigger] line[t] != '\n' by {
        if t < p.name.len() {
            assert(line[t] == p.name[t]);
            lemma_key_char_facts(p.name[t]);
        } else if t < p.name.len() + rp.len() {
            assert(line[t] == rp[t - p.name.len()]);
        } else if t == p.name.len() + rp.len() {
            assert(line[t] == ':');
        } else {
            assert(line[t] == p.val[t - p.name.len() - rp.len() - 1]);
        }
    }
    assert forall|i: int| 0 <= i < line.len() implies !crate::folding::fold_seq_at(line, i) by {
        if i + 1 < line.len() {
            assert(line[i + 1] != '\n');
        }
    }
}

/// One property's whole wire round trip: rendering folds its logical
/// line; unfolding restores the line exactly; and parsing the unfolded
/// text restores the property, consuming it entirely.
pub proof fn lemma_property_wire_round_trip(p: PropModel)
    requires
        wire_prop(p),
    ensures
        crate::folding::unfold_spec(crate::parser::render::render_prop(p)) == prop_line(p)
            + crlf(),
        parse_property(prop_line(p) + crlf(), 0) == Some(
            (p, prop_line(p).len() + 2 as int),
        ),
{
    let line = prop_line(p);
    lemma_prop_line_fold_free(p);
    // unfolding undoes the fold and keeps the terminator
    assert(crate::parser::render::render_prop(p) =~= crate::folding::fold_spec_at(line, 75)
        + crlf());
    crate::folding::lemma_unfold_folded_at(line, 75, crlf());
    crate::folding::lemma_unfold_crlf_head(Seq::empty());
    assert(crate::folding::crlf_sp().take(2) =~= crlf());
    assert(crate::folding::crlf_sp().take(2) + Seq::<char>::empty() =~= crlf());
    assert(crate::folding::unfold_spec(crlf()) =~= crlf()) by {
        assert(crlf() + Seq::<char>::empty() =~= crlf());
    }
    assert(crate::folding::unfold_spec(crate::parser::render::render_prop(p)) =~= line + crlf());
    // parsing the unfolded line restores the property
    let s = line + crlf();
    assert(s.subrange(0, line.len() + 2 as int) =~= line + crlf());
    lemma_parse_render_property(s, 0, p);
}

} // verus!
