//! Rendering a parsed tree back to text: the exact inverse obligations of
//! the parser, with each logical line folded to 75 octets.

use crate::chars::chars_to_string;
use crate::chars::push_str_chars;
use crate::folding::fold_chars;
use crate::folding::fold_spec;
use crate::parser::grammar::begin_kw;
use crate::parser::grammar::end_kw;
use crate::parser::grammar::CompModel;
use crate::parser::grammar::ParamModel;
use crate::parser::grammar::PropModel;
use crate::parser::components::comps_model;
use crate::parser::components::Component;
use crate::parser::parameters::Parameter;
use crate::parser::properties::Property;
use vstd::prelude::*;

verus! {

/// A CRLF line terminator.
pub open spec fn crlf() -> Seq<char> {
    seq!['\r', '\n']
}

/// `;KEY` or `;KEY=VALUE`.
pub open spec fn render_param(p: ParamModel) -> Seq<char> {
    match p.val {
        Some(v) => seq![';'] + p.key + seq!['='] + v,
        None => seq![';'] + p.key,
    }
}

pub open spec fn render_params(ps: Seq<ParamModel>) -> Seq<char>
    decreases ps.len(),
{
    if ps.len() == 0 {
        Seq::empty()
    } else {
        render_param(ps[0]) + render_params(ps.subrange(1, ps.len() as int))
    }
}

pub proof fn lemma_render_params_snoc(ps: Seq<ParamModel>, k: int)
    requires
        0 <= k < ps.len(),
    ensures
        render_params(ps.take(k + 1)) == render_params(ps.take(k)) + render_param(ps[k]),
    decreases k,
{
    let a = ps.take(k + 1);
    if k == 0 {
        assert(a.subrange(1, a.len() as int) =~= Seq::empty());
        assert(a[0] == ps[0]);
        assert(render_params(ps.take(0)) =~= Seq::empty()) by {
            assert(ps.take(0) =~= Seq::<ParamModel>::empty());
        }
        assert(render_param(ps[0]) + Seq::<char>::empty() =~= render_param(ps[0]));
        assert(Seq::<char>::empty() + render_param(ps[0]) =~= render_param(ps[0]));
    } else {
        let tail = ps.subrange(1, ps.len() as int);
        lemma_render_params_snoc(tail, k - 1);
        assert(a[0] == ps[0]);
        assert(a.subrange(1, a.len() as int) =~= tail.take(k));
        assert(ps.take(k).subrange(1, k as int) =~= tail.take(k - 1));
        assert(tail[k - 1] == ps[k]);
        assert(render_params(ps.take(k + 1)) == render_param(ps[0]) + (render_params(
            tail.take(k - 1),
        ) + render_param(ps[k])));
        assert(render_param(ps[0]) + (render_params(tail.take(k - 1)) + render_param(ps[k]))
            =~= (render_param(ps[0]) + render_params(tail.take(k - 1))) + render_param(ps[k]));
    }
}

/// The logical content line of one property, before folding.
pub open spec fn prop_line(p: PropModel) -> Seq<char> {
    p.name + render_params(p.params) + seq![':'] + p.val
}

/// One rendered property: its folded line and the terminator.
pub open spec fn render_prop(p: PropModel) -> Seq<char> {
    fold_spec(prop_line(p)) + crlf()
}

pub open spec fn render_props(ps: Seq<PropModel>) -> Seq<char>
    decreases ps.len(),
{
    if ps.len() == 0 {
        Seq::empty()
    } else {
        render_prop(ps[0]) + render_props(ps.subrange(1, ps.len() as int))
    }
}

pub proof fn lemma_render_props_snoc(ps: Seq<PropModel>, k: int)
    requires
        0 <= k < ps.len(),
    ensures
        render_props(ps.take(k + 1)) == render_props(ps.take(k)) + render_prop(ps[k]),
    decreases k,
{
    let a = ps.take(k + 1);
    if k == 0 {
        assert(a.subrange(1, a.len() as int) =~= Seq::empty());
        assert(a[0] == ps[0]);
        assert(render_props(ps.take(0)) =~= Seq::empty()) by {
            assert(ps.take(0) =~= Seq::<PropModel>::empty());
        }
        assert(render_prop(ps[0]) + Seq::<char>::empty() =~= render_prop(ps[0]));
        assert(Seq::<char>::empty() + render_prop(ps[0]) =~= render_prop(ps[0]));
    } else {
        let tail = ps.subrange(1, ps.len() as int);
        lemma_render_props_snoc(tail, k - 1);
        assert(a[0] == ps[0]);
        assert(a.subrange(1, a.len() as int) =~= tail.take(k));
        assert(ps.take(k).subrange(1, k as int) =~= tail.take(k - 1));
        assert(tail[k - 1] == ps[k]);
        assert(render_props(ps.take(k + 1)) == render_prop(ps[0]) + (render_props(tail.take(k - 1))
            + render_prop(ps[k])));
        assert(render_prop(ps[0]) + (render_props(tail.take(k - 1)) + render_prop(ps[k]))
            =~= (render_prop(ps[0]) + render_props(tail.take(k - 1))) + render_prop(ps[k]));
    }
}

/// One rendered component: `BEGIN` line, properties, children, `END` line.
pub open spec fn render_comp(c: CompModel) -> Seq<char>
    decreases c,
{
    begin_kw() + c.name + crlf() + render_props(c.properties) + render_comps(c.components)
        + end_kw() + c.name + crlf()
}

pub open spec fn render_comps(cs: Seq<CompModel>) -> Seq<char>
    decreases cs,
{
    if cs.len() == 0 {
        Seq::empty()
    } else {
        render_comp(cs[0]) + render_comps(cs.subrange(1, cs.len() as int))
    }
}

#[verifier::rlimit(50)]
pub proof fn lemma_render_comps_snoc(cs: Seq<CompModel>, k: int)
    requires
        0 <= k < cs.len(),
    ensures
        render_comps(cs.take(k + 1)) == render_comps(cs.take(k)) + render_comp(cs[k]),
    decreases k,
{
    let a = cs.take(k + 1);
    assert(a.len() == k + 1);
    assert(render_comps(a) == render_comp(a[0]) + render_comps(a.subrange(1, a.len() as int)));
    if k == 0 {
        assert(a.subrange(1, a.len() as int) =~= Seq::empty());
        assert(a[0] == cs[0]);
        assert(render_comps(cs.take(0)) =~= Seq::empty()) by {
            assert(cs.take(0) =~= Seq::<CompModel>::empty());
        }
        assert(render_comp(cs[0]) + Seq::<char>::empty() =~= render_comp(cs[0]));
        assert(Seq::<char>::empty() + render_comp(cs[0]) =~= render_comp(cs[0]));
    } else {
        let tail = cs.subrange(1, cs.len() as int);
        lemma_render_comps_snoc(tail, k - 1);
        assert(a[0] == cs[0]);
        assert(a.subrange(1, a.len() as int) =~= tail.take(k));
        assert(cs.take(k).subrange(1, k as int) =~= tail.take(k - 1));
        assert(tail[k - 1] == cs[k]);
        assert(render_comps(cs.take(k + 1)) == render_comp(cs[0]) + (render_comps(tail.take(k - 1))
            + render_comp(cs[k])));
        assert(render_comp(cs[0]) + (render_comps(tail.take(k - 1)) + render_comp(cs[k]))
            =~= (render_comp(cs[0]) + render_comps(tail.take(k - 1))) + render_comp(cs[k]));
    }
}

/// Appends the folded content line of `p` and its terminator.
pub(crate) fn render_property_into(out: &mut Vec<char>, p: &Property)
    ensures
        final(out)@ == old(out)@ + render_prop(p@),
{
    let mut line: Vec<char> = Vec::new();
    push_str_chars(&mut line, p.name.as_str());
    let m = p.params.len();
    let mut i: usize = 0;
    proof {
        assert(p@.params.take(0) =~= Seq::<ParamModel>::empty());
        assert(line@ =~= p@.name + render_params(p@.params.take(0)));
    }
    while i < m
        invariant
            i <= m,
            m == p.params@.len(),
            p@.params.len() == m,
            p@.params == p.params@.map_values(|q: Parameter| q@),
            line@ == p@.name + render_params(p@.params.take(i as int)),
        decreases m - i,
    {
        let ghost pre = line@;
        line.push(';');
        push_str_chars(&mut line, p.params[i].key.as_str());
        match &p.params[i].val {
            Some(v) => {
                line.push('=');
                push_str_chars(&mut line, v.as_str());
                proof {
                    assert(line@ =~= pre + render_param(p@.params[i as int]));
                }
            },
            None => {
                proof {
                    assert(line@ =~= pre + render_param(p@.params[i as int]));
                }
            },
        }
        proof {
            lemma_render_params_snoc(p@.params, i as int);
            assert(line@ =~= p@.name + render_params(p@.params.take(i as int + 1)));
        }
        i = i + 1;
    }
    proof {
        assert(p@.params.take(m as int) =~= p@.params);
    }
    line.push(':');
    push_str_chars(&mut line, p.val.as_str());
    proof {
        assert(line@ =~= prop_line(p@));
    }
    let folded = fold_chars(&line);
    let n = folded.len();
    crate::chars::push_range(out, &folded, 0, n);
    out.push('\r');
    out.push('\n');
    proof {
        assert(folded@.subrange(0, n as int) =~= fold_spec(prop_line(p@)));
        assert(final(out)@ =~= old(out)@ + render_prop(p@));
    }
}

/// Appends the rendered properties, in order.
pub(crate) fn render_properties_into(out: &mut Vec<char>, ps: &Vec<Property>)
    ensures
        final(out)@ == old(out)@ + render_props(ps@.map_values(|p: Property| p@)),
{
    let ghost models = ps@.map_values(|p: Property| p@);
    let m = ps.len();
    let mut i: usize = 0;
    proof {
        assert(models.take(0) =~= Seq::<PropModel>::empty());
        assert(out@ =~= out@ + render_props(models.take(0)));
    }
    while i < m
        invariant
            i <= m,
            m == ps@.len(),
            models == ps@.map_values(|p: Property| p@),
            out@ == old(out)@ + render_props(models.take(i as int)),
        decreases m - i,
    {
        render_property_into(out, &ps[i]);
        proof {
            lemma_render_props_snoc(models, i as int);
            assert(out@ =~= old(out)@ + render_props(models.take(i as int + 1)));
        }
        i = i + 1;
    }
    proof {
        assert(models.take(m as int) =~= models);
    }
}

/// Appends the rendered component: framing lines, properties, children.
pub(crate) fn render_component_into(out: &mut Vec<char>, c: &Component)
    ensures
        final(out)@ == old(out)@ + render_comp(c@),
    decreases *c,
{
    push_str_chars(out, "BEGIN:");
    push_str_chars(out, c.name.as_str());
    out.push('\r');
    out.push('\n');
    proof {
        reveal_strlit("BEGIN:");
        assert(out@ =~= old(out)@ + begin_kw() + c@.name + crlf());
    }
    render_properties_into(out, &c.properties);
    let ghost mid = out@;
    proof {
        assert(mid == old(out)@ + begin_kw() + c@.name + crlf() + render_props(c@.properties));
    }
    let m = c.components.len();
    let mut i: usize = 0;
    proof {
        assert(c@.components.take(0) =~= Seq::<CompModel>::empty());
        assert(out@ =~= mid + render_comps(c@.components.take(0)));
    }
    while i < m
        invariant
            i <= m,
            m == c.components@.len(),
            c@.components == comps_model(c.components@),
            c@.components.len() == m,
            forall|t: int| 0 <= t < m ==> c@.components[t] == c.components@[t]@,
            out@ == mid + render_comps(c@.components.take(i as int)),
        decreases m - i,
    {
        render_component_into(out, &c.components[i]);
        proof {
            lemma_render_comps_snoc(c@.components, i as int);
            assert(c@.components[i as int] == c.components@[i as int]@);
            assert(out@ =~= mid + render_comps(c@.components.take(i as int + 1)));
        }
        i = i + 1;
    }
    proof {
        assert(c@.components.take(m as int) =~= c@.components);
    }
    push_str_chars(out, "END:");
    push_str_chars(out, c.name.as_str());
    out.push('\r');
    out.push('\n');
    proof {
        reveal_strlit("END:");
        assert(out@ =~= old(out)@ + render_comp(c@));
    }
}

impl Component {
    /// Renders this component to text, folding each long line.
    pub fn to_string(&self) -> (r: String)
        ensures
            r@ == render_comp(self@),
    {
        let mut out: Vec<char> = Vec::new();
        render_component_into(&mut out, self);
        chars_to_string(&out)
    }
}

} // verus!
