//! The typed component tree: a key-unique, key-sorted map of
//! single-valued properties, a list of repeatable properties in insertion
//! order, and child components. The serializer renders the map in key
//! order and synthesizes `DTSTAMP` and `UID` when absent.

pub mod alarm;
pub mod event;
pub mod other;
pub mod todo;
pub mod venue;

use crate::chars::chars_to_string;
use crate::chars::push_str_chars;
use crate::date_time::dpt_from_property_spec;
use crate::date_time::naive_date_to_property;
use crate::date_time::utc_date_time_str;
use crate::date_time::DateParts;
use crate::date_time::DatePerhapsTime;
use crate::date_time::DateTimeParts;
use crate::escaping::escape_newlines_spec;
use crate::numbers::parse_u32;
use crate::numbers::parse_u32_spec;
use crate::numbers::u32_to_string;
use crate::parser::parsed_string::str_eq_str;
use crate::properties::param_lookup;
use crate::properties::render_property;
use crate::properties::Class;
use crate::properties::Parameter;
use crate::properties::ParameterModel;
use crate::properties::Property;
use crate::properties::PropertyModel;
use crate::strorder::lemma_lex_trans;
use crate::strorder::lemma_lex_trichotomy;
use crate::strorder::lex_lt;
use crate::strorder::str_lex_lt;
use vstd::prelude::*;
use vstd::string::StringExecFns;

verus! {

broadcast use vstd::std_specs::vec::group_vec_axioms;

/// The model of an inner component.
#[verifier::ext_equal]
pub struct InnerModel {
    /// Single-valued properties, strictly sorted by key.
    pub properties: Seq<PropertyModel>,
    /// Repeatable properties, in insertion order.
    pub multi_properties: Seq<PropertyModel>,
    /// Child components, in insertion order.
    pub components: Seq<OtherModel>,
}

/// The model of a child component.
#[verifier::ext_equal]
pub struct OtherModel {
    /// The component's kind name.
    pub name: Seq<char>,
    /// Its content.
    pub inner: InnerModel,
}

/// The models of a vector of properties.
pub open spec fn props_of(v: Vec<Property>) -> Seq<PropertyModel> {
    v@.map_values(|q: Property| q@)
}

/// Strictly sorted by key: sorted and duplicate-free at once.
pub open spec fn props_sorted(ps: Seq<PropertyModel>) -> bool {
    forall|i: int, j: int| 0 <= i < j < ps.len() ==> lex_lt(ps[i].key, ps[j].key)
}

/// The first (and, when sorted, only) property with key `k`.
pub open spec fn prop_lookup(ps: Seq<PropertyModel>, k: Seq<char>) -> Option<PropertyModel>
    decreases ps.len(),
{
    if ps.len() == 0 {
        None
    } else if ps[0].key == k {
        Some(ps[0])
    } else {
        prop_lookup(ps.skip(1), k)
    }
}

/// All parameter lists of `ps` hold each key once.
pub open spec fn props_wf(ps: Seq<PropertyModel>) -> bool {
    forall|i: int|
        0 <= i < ps.len() ==> crate::properties::param_keys_unique(#[trigger] ps[i].params)
}

/// Replacing or inserting at position `i` changes only that key's lookup.
proof fn lemma_prop_lookup_pointwise(
    olds: Seq<PropertyModel>,
    news: Seq<PropertyModel>,
    q: PropertyModel,
    i: int,
)
    requires
        0 <= i <= olds.len(),
        i < news.len(),
        news[i] == q,
        news.len() == olds.len() || news.len() == olds.len() + 1,
        news.len() == olds.len() ==> olds[i].key == q.key && forall|t: int|
            0 <= t < news.len() && t != i ==> news[t] == olds[t],
        news.len() == olds.len() + 1 ==> (forall|t: int| 0 <= t < i ==> news[t] == olds[t])
            && (forall|t: int| i < t < news.len() ==> news[t] == olds[t - 1]),
        forall|t: int| 0 <= t < i ==> olds[t].key != q.key,
    ensures
        prop_lookup(news, q.key) == Some(q),
        forall|k: Seq<char>| k != q.key ==> prop_lookup(news, k) == prop_lookup(olds, k),
    decreases olds.len(),
{
    if i == 0 {
        assert(prop_lookup(news, q.key) == Some(q));
        assert forall|k: Seq<char>| k != q.key implies prop_lookup(news, k) == prop_lookup(
            olds,
            k,
        ) by {
            if news.len() == olds.len() && olds.len() > 0 {
                assert(news.skip(1) =~= olds.skip(1));
                assert(olds[0].key == q.key);
            } else {
                // insertion at the head: the tail is the old list itself
                assert(news.skip(1) =~= olds);
            }
        }
    } else {
        assert(news[0] == olds[0]);
        assert(olds[0].key != q.key);
        assert(news.skip(1)[i - 1] == q);
        if news.len() == olds.len() {
            assert(olds.skip(1)[i - 1].key == q.key);
            assert(forall|t: int|
                0 <= t < news.skip(1).len() && t != i - 1 ==> news.skip(1)[t] == olds.skip(1)[t]);
        } else {
            assert(forall|t: int| 0 <= t < i - 1 ==> news.skip(1)[t] == olds.skip(1)[t]);
            assert(forall|t: int|
                i - 1 < t < news.skip(1).len() ==> news.skip(1)[t] == olds.skip(1)[t - 1]);
        }
        assert(forall|t: int| 0 <= t < i - 1 ==> olds.skip(1)[t].key != q.key);
        lemma_prop_lookup_pointwise(olds.skip(1), news.skip(1), q, i - 1);
        assert(prop_lookup(news, q.key) == prop_lookup(news.skip(1), q.key));
        assert forall|k: Seq<char>| k != q.key implies prop_lookup(news, k) == prop_lookup(
            olds,
            k,
        ) by {
            assert(prop_lookup(news.skip(1), k) == prop_lookup(olds.skip(1), k));
        }
    }
}

/// Inserts `p` into a key-sorted property list: an existing property with
/// the same key is replaced; otherwise `p` lands at its sorted position.
pub(crate) fn insert_sorted_property(vec: &mut Vec<Property>, p: Property)
    requires
        props_sorted(props_of(*old(vec))),
    ensures
        props_sorted(props_of(*final(vec))),
        prop_lookup(props_of(*final(vec)), p@.key) == Some(p@),
        forall|k: Seq<char>|
            k != p@.key ==> #[trigger] prop_lookup(props_of(*final(vec)), k) == prop_lookup(
                props_of(*old(vec)),
                k,
            ),
        forall|t: int|
            0 <= t < final(vec)@.len() ==> (#[trigger] props_of(*final(vec))[t]).params == p@.params
                || exists|u: int| 0 <= u < old(vec)@.len() && props_of(*final(vec))[t] == props_of(
                *old(vec),
            )[u],
{
    let ghost olds = vec@.map_values(|q: Property| q@);
    let n = vec.len();
    let mut i: usize = 0;
    loop
        invariant
            i <= n,
            n == vec@.len(),
            olds == vec@.map_values(|q: Property| q@),
            forall|t: int| 0 <= t < i ==> lex_lt(olds[t].key, p@.key),
        ensures
            i <= n,
            n == vec@.len(),
            olds == vec@.map_values(|q: Property| q@),
            forall|t: int| 0 <= t < i ==> lex_lt(olds[t].key, p@.key),
            i == n || !lex_lt(olds[i as int].key, p@.key),
        decreases n - i,
    {
        if i >= n {
            break ;
        }
        proof {
            assert(olds[i as int] == vec@[i as int]@);
        }
        if !str_lex_lt(vec[i].key(), p.key()) {
            break ;
        }
        i = i + 1;
    }
    let ghost qm = p@;
    if i < n {
        let same = str_eq_str(vec[i].key(), p.key());
        proof {
            assert(olds[i as int] == vec@[i as int]@);
        }
        if same {
            vec.set(i, p);
            proof {
                let news = vec@.map_values(|q: Property| q@);
                assert(news.len() == olds.len());
                assert(forall|t: int| 0 <= t < news.len() && t != i ==> news[t] == olds[t]);
                assert(news[i as int] == qm);
                assert forall|t: int| 0 <= t < i implies olds[t].key != qm.key by {
                    lemma_lex_trichotomy(olds[t].key, qm.key);
                }
                lemma_prop_lookup_pointwise(olds, news, qm, i as int);
                assert(props_sorted(news)) by {
                    assert forall|a: int, b: int| 0 <= a < b < news.len() implies lex_lt(
                        news[a].key,
                        news[b].key,
                    ) by {
                        assert(news[a].key == olds[a].key && news[b].key == olds[b].key);
                    }
                }
            }
        } else {
            vec.insert(i, p);
            proof {
                let news = vec@.map_values(|q: Property| q@);
                assert(news.len() == olds.len() + 1);
                assert(forall|t: int| 0 <= t < i ==> news[t] == olds[t]);
                assert(forall|t: int| i < t < news.len() ==> news[t] == olds[t - 1]);
                assert(news[i as int] == qm);
                assert forall|t: int| 0 <= t < i implies olds[t].key != qm.key by {
                    lemma_lex_trichotomy(olds[t].key, qm.key);
                }
                lemma_prop_lookup_pointwise(olds, news, qm, i as int);
                assert(props_sorted(news)) by {
                    lemma_lex_trichotomy(olds[i as int].key, qm.key);
                    assert(lex_lt(qm.key, olds[i as int].key));
                    assert forall|a: int, b: int| 0 <= a < b < news.len() implies lex_lt(
                        news[a].key,
                        news[b].key,
                    ) by {
                        if a < i && b == i {
                        } else if a == i && b > i {
                            if i < b - 1 + 1 && b - 1 > i - 1 {
                                if b - 1 == i {
                                    assert(lex_lt(qm.key, olds[i as int].key));
                                } else {
                                    assert(lex_lt(olds[i as int].key, olds[b - 1].key));
                                    lemma_lex_trans(qm.key, olds[i as int].key, olds[b - 1].key);
                                }
                            }
                        } else if a < i && b > i {
                            assert(lex_lt(olds[a].key, qm.key));
                            assert(news[b] == olds[b - 1]);
                            if b - 1 == a {
                            } else {
                                assert(lex_lt(olds[a].key, olds[b - 1].key));
                            }
                        } else {
                        }
                    }
                }
            }
        }
    } else {
        vec.push(p);
        proof {
            let news = vec@.map_values(|q: Property| q@);
            assert(news.len() == olds.len() + 1);
            assert(forall|t: int| 0 <= t < i ==> news[t] == olds[t]);
            assert(news[i as int] == qm);
            assert forall|t: int| 0 <= t < i implies olds[t].key != qm.key by {
                lemma_lex_trichotomy(olds[t].key, qm.key);
            }
            lemma_prop_lookup_pointwise(olds, news, qm, i as int);
            assert(props_sorted(news)) by {
                assert forall|a: int, b: int| 0 <= a < b < news.len() implies lex_lt(
                    news[a].key,
                    news[b].key,
                ) by {
                    if b == i {
                        assert(lex_lt(olds[a].key, qm.key));
                    }
                }
            }
        }
    }
}

/// Names the format allows to repeat within one component.
pub open spec fn is_multi_name(s: Seq<char>) -> bool {
    ||| s == "ATTACH"@
    ||| s == "ATTENDEE"@
    ||| s == "CATEGORIES"@
    ||| s == "COMMENT"@
    ||| s == "CONTACT"@
    ||| s == "EXDATE"@
    ||| s == "FREEBUSY"@
    ||| s == "IANA-PROP"@
    ||| s == "RDATE"@
    ||| s == "RELATED"@
    ||| s == "RESOURCES"@
    ||| s == "RSTATUS"@
    ||| s == "X-PROP"@
}

/// Is this a name the format allows to repeat?
pub fn is_multi_property_name(s: &str) -> (r: bool)
    ensures
        r == is_multi_name(s@),
{
    str_eq_str(s, "ATTACH") || str_eq_str(s, "ATTENDEE") || str_eq_str(s, "CATEGORIES")
        || str_eq_str(s, "COMMENT") || str_eq_str(s, "CONTACT") || str_eq_str(s, "EXDATE")
        || str_eq_str(s, "FREEBUSY") || str_eq_str(s, "IANA-PROP") || str_eq_str(s, "RDATE")
        || str_eq_str(s, "RELATED") || str_eq_str(s, "RESOURCES") || str_eq_str(s, "RSTATUS")
        || str_eq_str(s, "X-PROP")
}

/// The shared content of every typed component.
#[derive(Debug, PartialEq, Eq)]
pub struct InnerComponent {
    /// Single-valued properties, strictly sorted by key.
    pub properties: Vec<Property>,
    /// Repeatable properties, in insertion order.
    pub multi_properties: Vec<Property>,
    /// Child components, in insertion order.
    pub components: Vec<other::Other>,
}

/// The models of a list of child components.
pub open spec fn others_model(cs: Seq<other::Other>) -> Seq<OtherModel>
    decreases cs,
{
    Seq::new(
        cs.len(),
        |t: int|
            if 0 <= t < cs.len() {
                other_model(cs[t])
            } else {
                arbitrary()
            },
    )
}

/// The model of one child component.
pub open spec fn other_model(c: other::Other) -> OtherModel
    decreases c,
{
    OtherModel { name: c.name@, inner: inner_model(c.inner) }
}

/// The model of an inner component.
pub open spec fn inner_model(c: InnerComponent) -> InnerModel
    decreases c,
{
    InnerModel {
        properties: c.properties@.map_values(|p: Property| p@),
        multi_properties: c.multi_properties@.map_values(|p: Property| p@),
        components: others_model(c.components@),
    }
}

impl View for InnerComponent {
    type V = InnerModel;

    open spec fn view(&self) -> InnerModel {
        inner_model(*self)
    }
}

/// The single-valued map is sorted and the parameter lists are key-unique,
/// recursively.
pub open spec fn inner_wf(m: InnerModel) -> bool
    decreases m,
{
    &&& props_sorted(m.properties)
    &&& props_wf(m.properties)
    &&& props_wf(m.multi_properties)
    &&& forall|i: int|
        0 <= i < m.components.len() ==> inner_wf(#[trigger] m.components[i].inner)
}

impl InnerComponent {
    /// An empty component body.
    pub fn new() -> (r: InnerComponent)
        ensures
            r@.properties.len() == 0,
            r@.multi_properties.len() == 0,
            r@.components.len() == 0,
            inner_wf(r@),
    {
        let r = InnerComponent {
            properties: Vec::new(),
            multi_properties: Vec::new(),
            components: Vec::new(),
        };
        proof {
            assert(r@.properties =~= Seq::<PropertyModel>::empty());
            assert(r@.multi_properties =~= Seq::<PropertyModel>::empty());
            assert(r@.components =~= Seq::<OtherModel>::empty());
        }
        r
    }

    /// End of the builder pattern: takes the content, leaving an empty
    /// body behind.
    pub fn done(&mut self) -> (r: InnerComponent)
        ensures
            r == *old(self),
            final(self)@.properties == Seq::<PropertyModel>::empty(),
            final(self)@.multi_properties == Seq::<PropertyModel>::empty(),
            final(self)@.components == Seq::<OtherModel>::empty(),
            inner_wf(final(self)@),
    {
        let mut taken = InnerComponent::new();
        proof {
            assert(taken@.properties =~= Seq::<PropertyModel>::empty());
            assert(taken@.multi_properties =~= Seq::<PropertyModel>::empty());
            assert(taken@.components =~= Seq::<OtherModel>::empty());
        }
        core::mem::swap(&mut taken, self);
        taken
    }

    /// Stores a single-valued property; a property of the same name is
    /// overwritten (last write wins).
    pub fn insert_property(&mut self, property: Property)
        requires
            inner_wf(old(self)@),
            property.wf(),
        ensures
            inner_wf(final(self)@),
            prop_lookup(final(self)@.properties, property@.key) == Some(property@),
            forall|k: Seq<char>|
                k != property@.key ==> prop_lookup(final(self)@.properties, k) == prop_lookup(
                    old(self)@.properties,
                    k,
                ),
            final(self)@.multi_properties == old(self)@.multi_properties,
            final(self)@.components == old(self)@.components,
    {
        let ghost before = self@;
        insert_sorted_property(&mut self.properties, property);
        proof {
            assert(final(self)@.components =~= before.components);
            assert(final(self)@.multi_properties =~= before.multi_properties);
            assert(props_wf(final(self)@.properties)) by {
                assert(forall|t: int|
                    0 <= t < final(self)@.properties.len()
                        ==> crate::properties::param_keys_unique(
                        #[trigger] final(self)@.properties[t].params,
                    ));
            }
        }
    }

    /// Appends a repeatable property; earlier ones with the same name
    /// stay, in order.
    pub fn insert_multi(&mut self, property: Property)
        requires
            inner_wf(old(self)@),
            property.wf(),
        ensures
            inner_wf(final(self)@),
            final(self)@.multi_properties == old(self)@.multi_properties.push(property@),
            final(self)@.properties == old(self)@.properties,
            final(self)@.components == old(self)@.components,
    {
        let ghost before = self@;
        self.multi_properties.push(property);
        proof {
            assert(final(self)@.multi_properties =~= before.multi_properties.push(property@));
            assert(final(self)@.properties =~= before.properties);
            assert(final(self)@.components =~= before.components);
        }
    }

    /// Appends a child component.
    pub fn push_component(&mut self, child: other::Other)
        requires
            inner_wf(old(self)@),
            inner_wf(child@.inner),
        ensures
            inner_wf(final(self)@),
            final(self)@.components == old(self)@.components.push(child@),
            final(self)@.properties == old(self)@.properties,
            final(self)@.multi_properties == old(self)@.multi_properties,
    {
        let ghost before = self@;
        self.components.push(child);
        proof {
            assert(final(self)@.components =~= before.components.push(child@));
            assert(final(self)@.properties =~= before.properties);
            assert(final(self)@.multi_properties =~= before.multi_properties);
        }
    }

    /// The single-valued property named `key`, if stored.
    pub fn get_property(&self, key: &str) -> (r: Option<&Property>)
        ensures
            match r {
                Some(p) => prop_lookup(self@.properties, key@) == Some(p@),
                None => prop_lookup(self@.properties, key@) is None,
            },
    {
        let n = self.properties.len();
        let mut i: usize = 0;
        proof {
            assert(self@.properties.skip(0) =~= self@.properties);
        }
        loop
            invariant
                i <= n,
                n == self.properties@.len(),
                prop_lookup(self@.properties, key@) == prop_lookup(
                    self@.properties.skip(i as int),
                    key@,
                ),
            ensures
                i <= n,
                prop_lookup(self@.properties, key@) == prop_lookup(
                    self@.properties.skip(i as int),
                    key@,
                ),
                i == n || self@.properties[i as int].key == key@,
            decreases n - i,
        {
            if i >= n {
                break ;
            }
            proof {
                assert(self@.properties.skip(i as int)[0] == self@.properties[i as int]);
                assert(self@.properties.skip(i as int).skip(1) =~= self@.properties.skip(
                    i as int + 1,
                ));
            }
            if self.properties[i].key_is(key) {
                break ;
            }
            i = i + 1;
        }
        if i < n {
            proof {
                assert(prop_lookup(self@.properties.skip(i as int), key@) == Some(
                    self@.properties[i as int],
                )) by {
                    assert(self@.properties.skip(i as int)[0] == self@.properties[i as int]);
                }
            }
            Some(&self.properties[i])
        } else {
            proof {
                assert(self@.properties.skip(n as int) =~= Seq::<PropertyModel>::empty());
            }
            None
        }
    }

    /// The raw value of the single-valued property named `key`.
    pub fn property_value(&self, key: &str) -> (r: Option<&str>)
        ensures
            match r {
                Some(v) => prop_lookup(self@.properties, key@) matches Some(p) && p.val == v@,
                None => prop_lookup(self@.properties, key@) is None,
            },
    {
        match self.get_property(key) {
            Some(p) => Some(p.value()),
            None => None,
        }
    }
}

} // verus!

verus! {

/// The synthesized `DTSTAMP` property.
pub open spec fn dtstamp_model(now: Seq<char>) -> PropertyModel {
    PropertyModel { key: "DTSTAMP"@, val: now, params: Seq::empty() }
}

/// The synthesized `UID` property.
pub open spec fn uid_model(uid: Seq<char>) -> PropertyModel {
    PropertyModel { key: "UID"@, val: uid, params: Seq::empty() }
}

/// The rendered text of a property list, in order.
pub open spec fn render_property_list(ps: Seq<PropertyModel>) -> Seq<char>
    decreases ps.len(),
{
    if ps.len() == 0 {
        Seq::empty()
    } else {
        render_property(ps[0]) + render_property_list(ps.subrange(1, ps.len() as int))
    }
}

pub proof fn lemma_render_property_list_snoc(ps: Seq<PropertyModel>, k: int)
    requires
        0 <= k < ps.len(),
    ensures
        render_property_list(ps.take(k + 1)) == render_property_list(ps.take(k)) + render_property(
            ps[k],
        ),
    decreases k,
{
    let a = ps.take(k + 1);
    if k == 0 {
        assert(a.subrange(1, a.len() as int) =~= Seq::empty());
        assert(a[0] == ps[0]);
        assert(render_property_list(ps.take(0)) =~= Seq::empty()) by {
            assert(ps.take(0) =~= Seq::<PropertyModel>::empty());
        }
        assert(render_property(ps[0]) + Seq::<char>::empty() =~= render_property(ps[0]));
        assert(Seq::<char>::empty() + render_property(ps[0]) =~= render_property(ps[0]));
    } else {
        let tail = ps.subrange(1, ps.len() as int);
        lemma_render_property_list_snoc(tail, k - 1);
        assert(a[0] == ps[0]);
        assert(a.subrange(1, a.len() as int) =~= tail.take(k));
        assert(ps.take(k).subrange(1, k as int) =~= tail.take(k - 1));
        assert(tail[k - 1] == ps[k]);
        assert(render_property_list(ps.take(k + 1)) == render_property(ps[0])
            + (render_property_list(tail.take(k - 1)) + render_property(ps[k])));
        assert(render_property(ps[0]) + (render_property_list(tail.take(k - 1)) + render_property(
            ps[k],
        )) =~= (render_property(ps[0]) + render_property_list(tail.take(k - 1)))
            + render_property(ps[k]));
    }
}

/// One rendered component body, depth first: the framing lines, a
/// synthesized `DTSTAMP` when none is stored, the single-valued
/// properties in key order, a synthesized `UID` when none is stored, the
/// repeatable properties in insertion order, then the children.
pub open spec fn render_inner(
    kind: Seq<char>,
    m: InnerModel,
    now: Seq<char>,
    uid: Seq<char>,
) -> Seq<char>
    decreases m,
{
    crate::parser::grammar::begin_kw() + kind + seq!['\r', '\n'] + (if prop_lookup(
        m.properties,
        "DTSTAMP"@,
    ) is None {
        render_property(dtstamp_model(now))
    } else {
        Seq::empty()
    }) + render_property_list(m.properties) + (if prop_lookup(m.properties, "UID"@) is None {
        render_property(uid_model(uid))
    } else {
        Seq::empty()
    }) + render_property_list(m.multi_properties) + render_other_list(m.components, now, uid)
        + crate::parser::grammar::end_kw() + kind + seq!['\r', '\n']
}

/// The rendered children, in order.
pub open spec fn render_other_list(cs: Seq<OtherModel>, now: Seq<char>, uid: Seq<char>) -> Seq<
    char,
>
    decreases cs,
{
    if cs.len() == 0 {
        Seq::empty()
    } else {
        render_inner(cs[0].name, cs[0].inner, now, uid) + render_other_list(
            cs.subrange(1, cs.len() as int),
            now,
            uid,
        )
    }
}

#[verifier::rlimit(50)]
pub proof fn lemma_render_other_list_snoc(cs: Seq<OtherModel>, k: int, now: Seq<char>, uid: Seq<
    char,
>)
    requires
        0 <= k < cs.len(),
    ensures
        render_other_list(cs.take(k + 1), now, uid) == render_other_list(cs.take(k), now, uid)
            + render_inner(cs[k].name, cs[k].inner, now, uid),
    decreases k,
{
    let a = cs.take(k + 1);
    assert(a.len() == k + 1);
    assert(render_other_list(a, now, uid) == render_inner(a[0].name, a[0].inner, now, uid)
        + render_other_list(a.subrange(1, a.len() as int), now, uid));
    if k == 0 {
        assert(a.subrange(1, a.len() as int) =~= Seq::empty());
        assert(a[0] == cs[0]);
        assert(render_other_list(cs.take(0), now, uid) =~= Seq::empty()) by {
            assert(cs.take(0) =~= Seq::<OtherModel>::empty());
        }
        let one = render_inner(cs[0].name, cs[0].inner, now, uid);
        assert(one + Seq::<char>::empty() =~= one);
        assert(Seq::<char>::empty() + one =~= one);
    } else {
        let tail = cs.subrange(1, cs.len() as int);
        lemma_render_other_list_snoc(tail, k - 1, now, uid);
        assert(a[0] == cs[0]);
        assert(a.subrange(1, a.len() as int) =~= tail.take(k));
        assert(cs.take(k).subrange(1, k as int) =~= tail.take(k - 1));
        assert(tail[k - 1] == cs[k]);
        let h = render_inner(cs[0].name, cs[0].inner, now, uid);
        let mid = render_other_list(tail.take(k - 1), now, uid);
        let lastp = render_inner(cs[k].name, cs[k].inner, now, uid);
        assert(render_other_list(cs.take(k + 1), now, uid) == h + (mid + lastp));
        assert(h + (mid + lastp) =~= (h + mid) + lastp);
    }
}

/// Writes one component body: framing, synthesis, properties, children.
#[verifier::rlimit(100)]
pub(crate) fn render_inner_into(
    out: &mut Vec<char>,
    kind: &str,
    inner: &InnerComponent,
    now: &str,
    uid: &str,
)
    ensures
        final(out)@ == old(out)@ + render_inner(kind@, inner@, now@, uid@),
    decreases *inner,
{
    push_str_chars(out, "BEGIN:");
    push_str_chars(out, kind);
    out.push('\r');
    out.push('\n');
    proof {
        reveal_strlit("BEGIN:");
        assert(out@ =~= old(out)@ + crate::parser::grammar::begin_kw() + kind@ + seq!['\r', '\n']);
    }
    match inner.get_property("DTSTAMP") {
        Some(_) => {
        },
        None => {
            let p = Property::from_raw_parts(
                <String as vstd::string::StringExecFns>::from_str("DTSTAMP"),
                <String as vstd::string::StringExecFns>::from_str(now),
            );
            p.render_into(out);
            proof {
                assert(p@ == dtstamp_model(now@)) by {
                    assert(p@.params =~= Seq::<ParameterModel>::empty());
                }
            }
        },
    }
    let ghost stamp_done = out@;
    let m = inner.properties.len();
    let mut i: usize = 0;
    proof {
        assert(inner@.properties.take(0) =~= Seq::<PropertyModel>::empty());
        assert(out@ =~= stamp_done + render_property_list(inner@.properties.take(0)));
    }
    while i < m
        invariant
            i <= m,
            m == inner.properties@.len(),
            inner@.properties == props_of(inner.properties),
            inner@.properties.len() == m,
            out@ == stamp_done + render_property_list(inner@.properties.take(i as int)),
        decreases m - i,
    {
        inner.properties[i].render_into(out);
        proof {
            assert(inner@.properties[i as int] == inner.properties@[i as int]@);
            lemma_render_property_list_snoc(inner@.properties, i as int);
            assert(out@ =~= stamp_done + render_property_list(
                inner@.properties.take(i as int + 1),
            ));
        }
        i = i + 1;
    }
    proof {
        assert(inner@.properties.take(m as int) =~= inner@.properties);
    }
    match inner.get_property("UID") {
        Some(_) => {
        },
        None => {
            let p = Property::from_raw_parts(
                <String as vstd::string::StringExecFns>::from_str("UID"),
                <String as vstd::string::StringExecFns>::from_str(uid),
            );
            p.render_into(out);
            proof {
                assert(p@ == uid_model(uid@)) by {
                    assert(p@.params =~= Seq::<ParameterModel>::empty());
                }
            }
        },
    }
    let ghost uid_done = out@;
    let mm = inner.multi_properties.len();
    let mut j: usize = 0;
    proof {
        assert(inner@.multi_properties.take(0) =~= Seq::<PropertyModel>::empty());
        assert(out@ =~= uid_done + render_property_list(inner@.multi_properties.take(0)));
    }
    while j < mm
        invariant
            j <= mm,
            mm == inner.multi_properties@.len(),
            inner@.multi_properties == props_of(inner.multi_properties),
            inner@.multi_properties.len() == mm,
            out@ == uid_done + render_property_list(inner@.multi_properties.take(j as int)),
        decreases mm - j,
    {
        inner.multi_properties[j].render_into(out);
        proof {
            assert(inner@.multi_properties[j as int] == inner.multi_properties@[j as int]@);
            lemma_render_property_list_snoc(inner@.multi_properties, j as int);
            assert(out@ =~= uid_done + render_property_list(
                inner@.multi_properties.take(j as int + 1),
            ));
        }
        j = j + 1;
    }
    proof {
        assert(inner@.multi_properties.take(mm as int) =~= inner@.multi_properties);
    }
    let ghost multi_done = out@;
    let mc = inner.components.len();
    let mut t: usize = 0;
    proof {
        assert(inner@.components.take(0) =~= Seq::<OtherModel>::empty());
        assert(out@ =~= multi_done + render_other_list(inner@.components.take(0), now@, uid@));
    }
    while t < mc
        invariant
            t <= mc,
            mc == inner.components@.len(),
            inner@.components == others_model(inner.components@),
            inner@.components.len() == mc,
            forall|u: int| 0 <= u < mc ==> inner@.components[u] == inner.components@[u]@,
            out@ == multi_done + render_other_list(inner@.components.take(t as int), now@, uid@),
        decreases mc - t,
    {
        render_inner_into(out, inner.components[t].name.as_str(), &inner.components[t].inner, now, uid);
        proof {
            assert(inner@.components[t as int] == inner.components@[t as int]@);
            lemma_render_other_list_snoc(inner@.components, t as int, now@, uid@);
            assert(out@ =~= multi_done + render_other_list(
                inner@.components.take(t as int + 1),
                now@,
                uid@,
            ));
        }
        t = t + 1;
    }
    proof {
        assert(inner@.components.take(mc as int) =~= inner@.components);
    }
    push_str_chars(out, "END:");
    push_str_chars(out, kind);
    out.push('\r');
    out.push('\n');
    proof {
        reveal_strlit("END:");
        assert(out@ =~= old(out)@ + render_inner(kind@, inner@, now@, uid@));
    }
}

/// Well-formed synthesis inputs: `now` is the UTC wire form of a real
/// date-time, and `uid` is a 36-character hyphenated identifier of
/// lower-case hexadecimal digits.
pub open spec fn synth_inputs_wf(now: Seq<char>, uid: Seq<char>) -> bool {
    &&& exists|d: DateTimeParts| d.wf() && now == utc_date_time_str(d)
    &&& uid.len() == 36
    &&& forall|i: int|
        0 <= i < uid.len() ==> (48 <= #[trigger] uid[i] as u32 <= 57 || 97 <= uid[i] as u32 <= 102
            || uid[i] == '-')
}

/// A fresh `(now, uid)` pair for one render pass: the clock's current
/// UTC time formatted for `DTSTAMP` (an epoch placeholder when the clock
/// reports something unrepresentable), and a fresh random identifier.
pub(crate) fn fresh_render_inputs() -> (r: (String, String))
    ensures
        synth_inputs_wf(r.0@, r.1@),
{
    let (y, mo, d, h, mi, s) = crate::outside::now_utc_parts();
    let dt = if 0 <= y && y <= 9999 && mo <= 255 && d <= 255 && h <= 255 && mi <= 255 && s <= 255 {
        match DateTimeParts::from_ymd_hms(y as u16, mo as u8, d as u8, h as u8, mi as u8, s as u8) {
            Some(p) => p,
            None => DateTimeParts { year: 1970, month: 1, day: 1, hour: 0, minute: 0, second: 0 },
        }
    } else {
        DateTimeParts { year: 1970, month: 1, day: 1, hour: 0, minute: 0, second: 0 }
    };
    proof {
        assert(dt.wf());
    }
    let now = crate::date_time::format_utc_date_time(&dt);
    let uid = crate::outside::new_uid();
    (now, uid)
}

/// Every component in the tree carries explicit `DTSTAMP` and `UID`
/// properties, so a render synthesizes nothing.
pub open spec fn fully_stamped(m: InnerModel) -> bool
    decreases m,
{
    &&& prop_lookup(m.properties, "DTSTAMP"@) is Some
    &&& prop_lookup(m.properties, "UID"@) is Some
    &&& forall|i: int|
        0 <= i < m.components.len() ==> fully_stamped((#[trigger] m.components[i]).inner)
}

/// Renders one component of kind `kind` to a finished string, on its own.
pub(crate) fn component_to_string(kind: &str, inner: &InnerComponent) -> (r: String)
    ensures
        exists|now: Seq<char>, uid: Seq<char>|
            synth_inputs_wf(now, uid) && r@ == render_inner(kind@, inner@, now, uid),
        fully_stamped(inner@) ==> r@ == render_inner(kind@, inner@, Seq::empty(), Seq::empty()),
{
    let (now, uid) = fresh_render_inputs();
    let mut out: Vec<char> = Vec::new();
    render_inner_into(&mut out, kind, inner, now.as_str(), uid.as_str());
    proof {
        if fully_stamped(inner@) {
            lemma_render_inner_no_synthesis(kind@, inner@, now@, uid@);
        }
    }
    chars_to_string(&out)
}

/// With every `DTSTAMP` and `UID` stored, the render does not depend on
/// the synthesized values: serialization is deterministic.
pub proof fn lemma_render_inner_no_synthesis(
    kind: Seq<char>,
    m: InnerModel,
    now: Seq<char>,
    uid: Seq<char>,
)
    requires
        fully_stamped(m),
    ensures
        render_inner(kind, m, now, uid) == render_inner(kind, m, Seq::empty(), Seq::empty()),
    decreases m, 1int,
{
    lemma_render_other_list_fixed(m.components, now, uid);
}

proof fn lemma_render_other_list_fixed(cs: Seq<OtherModel>, now: Seq<char>, uid: Seq<char>)
    requires
        forall|i: int| 0 <= i < cs.len() ==> fully_stamped((#[trigger] cs[i]).inner),
    ensures
        render_other_list(cs, now, uid) == render_other_list(cs, Seq::empty(), Seq::empty()),
    decreases cs, 0int,
{
    if cs.len() > 0 {
        let tail = cs.subrange(1, cs.len() as int);
        assert(forall|i: int| 0 <= i < tail.len() ==> tail[i] == cs[i + 1]);
        lemma_render_inner_no_synthesis(cs[0].name, cs[0].inner, now, uid);
        lemma_render_other_list_fixed(tail, now, uid);
    }
}

} // verus!

verus! {

/// The model of a freshly built key-value property.
pub open spec fn plain_prop(key: Seq<char>, val: Seq<char>) -> PropertyModel {
    PropertyModel { key, val, params: Seq::empty() }
}

impl InnerComponent {
    /// Builds and stores a single-valued property; raw line feeds in the
    /// value are pre-escaped by the constructor.
    pub fn add_property(&mut self, key: &str, val: &str)
        requires
            inner_wf(old(self)@),
        ensures
            inner_wf(final(self)@),
            prop_lookup(final(self)@.properties, key@) == Some(
                plain_prop(key@, escape_newlines_spec(val@)),
            ),
            forall|k: Seq<char>|
                k != key@ ==> prop_lookup(final(self)@.properties, k) == prop_lookup(
                    old(self)@.properties,
                    k,
                ),
            final(self)@.multi_properties == old(self)@.multi_properties,
            final(self)@.components == old(self)@.components,
    {
        let p = Property::new(key, val);
        proof {
            assert(p@ =~= plain_prop(key@, escape_newlines_spec(val@)));
        }
        self.insert_property(p);
    }

    /// Builds and appends a repeatable property; raw line feeds in the
    /// value are pre-escaped by the constructor.
    pub fn add_multi_property(&mut self, key: &str, val: &str)
        requires
            inner_wf(old(self)@),
        ensures
            inner_wf(final(self)@),
            final(self)@.multi_properties == old(self)@.multi_properties.push(
                plain_prop(key@, escape_newlines_spec(val@)),
            ),
            final(self)@.properties == old(self)@.properties,
            final(self)@.components == old(self)@.components,
    {
        let p = Property::new(key, val);
        proof {
            assert(p@ =~= plain_prop(key@, escape_newlines_spec(val@)));
        }
        self.insert_multi(p);
    }

    /// Sets the `DTSTAMP` property from a UTC date-time.
    pub fn timestamp(&mut self, dt: &DateTimeParts)
        requires
            inner_wf(old(self)@),
        ensures
            inner_wf(final(self)@),
            prop_lookup(final(self)@.properties, "DTSTAMP"@) == Some(
                plain_prop("DTSTAMP"@, utc_date_time_str(*dt)),
            ),
            forall|k: Seq<char>|
                k != "DTSTAMP"@ ==> prop_lookup(final(self)@.properties, k) == prop_lookup(
                    old(self)@.properties,
                    k,
                ),
            final(self)@.multi_properties == old(self)@.multi_properties,
            final(self)@.components == old(self)@.components,
    {
        let formatted = crate::date_time::format_utc_date_time(dt);
        let p = Property::from_raw_parts(
            <String as vstd::string::StringExecFns>::from_str("DTSTAMP"),
            formatted,
        );
        proof {
            assert(p@ =~= plain_prop("DTSTAMP"@, utc_date_time_str(*dt)));
        }
        self.insert_property(p);
    }

    /// Reads the `DTSTAMP` property as a UTC date-time.
    pub fn get_timestamp(&self) -> (r: Option<DateTimeParts>)
        ensures
            r == match prop_lookup(self@.properties, "DTSTAMP"@) {
                Some(p) => crate::date_time::parse_utc_spec(p.val),
                None => None::<DateTimeParts>,
            },
    {
        match self.property_value("DTSTAMP") {
            Some(v) => crate::date_time::parse_utc_date_time(v),
            None => None,
        }
    }

    /// Reads a date-or-date-time property.
    pub fn get_date_perhaps_time(&self, key: &str) -> (r: Option<DatePerhapsTime>)
        ensures
            match prop_lookup(self@.properties, key@) {
                Some(p) => match r {
                    Some(c) => dpt_from_property_spec(p) == Some(c@),
                    None => dpt_from_property_spec(p) is None,
                },
                None => r is None,
            },
    {
        match self.get_property(key) {
            Some(p) => DatePerhapsTime::from_property(p),
            None => None,
        }
    }

    /// Sets the priority, capped at ten.
    pub fn priority(&mut self, priority: u32)
        requires
            inner_wf(old(self)@),
        ensures
            inner_wf(final(self)@),
            prop_lookup(final(self)@.properties, "PRIORITY"@) == Some(
                plain_prop(
                    "PRIORITY"@,
                    crate::numbers::dec_rep(
                        if priority <= 10 {
                            priority as nat
                        } else {
                            10
                        },
                    ),
                ),
            ),
            forall|k: Seq<char>|
                k != "PRIORITY"@ ==> prop_lookup(final(self)@.properties, k) == prop_lookup(
                    old(self)@.properties,
                    k,
                ),
            final(self)@.multi_properties == old(self)@.multi_properties,
            final(self)@.components == old(self)@.components,
    {
        let capped = if priority <= 10 {
            priority
        } else {
            10
        };
        let formatted = u32_to_string(capped);
        let p = Property::from_raw_parts(
            <String as vstd::string::StringExecFns>::from_str("PRIORITY"),
            formatted,
        );
        self.insert_property(p);
    }

    /// Reads the priority; out-of-range values read as absent.
    pub fn get_priority(&self) -> (r: Option<u32>)
        ensures
            r == match prop_lookup(self@.properties, "PRIORITY"@) {
                Some(p) => match parse_u32_spec(p.val) {
                    Some(v) => if v <= 10 {
                        Some(v)
                    } else {
                        None::<u32>
                    },
                    None => None::<u32>,
                },
                None => None::<u32>,
            },
    {
        match self.property_value("PRIORITY") {
            Some(v) => match parse_u32(v) {
                Some(n) => if n <= 10 {
                    Some(n)
                } else {
                    None
                },
                None => None,
            },
            None => None,
        }
    }

    /// Sets the sequence number.
    pub fn sequence(&mut self, sequence: u32)
        requires
            inner_wf(old(self)@),
        ensures
            inner_wf(final(self)@),
            prop_lookup(final(self)@.properties, "SEQUENCE"@) == Some(
                plain_prop("SEQUENCE"@, crate::numbers::dec_rep(sequence as nat)),
            ),
            forall|k: Seq<char>|
                k != "SEQUENCE"@ ==> prop_lookup(final(self)@.properties, k) == prop_lookup(
                    old(self)@.properties,
                    k,
                ),
            final(self)@.multi_properties == old(self)@.multi_properties,
            final(self)@.components == old(self)@.components,
    {
        let formatted = u32_to_string(sequence);
        let p = Property::from_raw_parts(
            <String as vstd::string::StringExecFns>::from_str("SEQUENCE"),
            formatted,
        );
        self.insert_property(p);
    }

    /// Reads the sequence number.
    pub fn get_sequence(&self) -> (r: Option<u32>)
        ensures
            r == match prop_lookup(self@.properties, "SEQUENCE"@) {
                Some(p) => parse_u32_spec(p.val),
                None => None::<u32>,
            },
    {
        match self.property_value("SEQUENCE") {
            Some(v) => parse_u32(v),
            None => None,
        }
    }

    /// Sets the visibility class.
    pub fn class(&mut self, class: Class)
        requires
            inner_wf(old(self)@),
        ensures
            inner_wf(final(self)@),
            prop_lookup(final(self)@.properties, "CLASS"@) == Some(
                plain_prop("CLASS"@, crate::properties::class_str(class)),
            ),
            forall|k: Seq<char>|
                k != "CLASS"@ ==> prop_lookup(final(self)@.properties, k) == prop_lookup(
                    old(self)@.properties,
                    k,
                ),
            final(self)@.multi_properties == old(self)@.multi_properties,
            final(self)@.components == old(self)@.components,
    {
        let p = class.to_property();
        proof {
            assert(p@ =~= plain_prop("CLASS"@, crate::properties::class_str(class)));
        }
        self.insert_property(p);
    }

    /// Reads the visibility class.
    pub fn get_class(&self) -> (r: Option<Class>)
        ensures
            r == match prop_lookup(self@.properties, "CLASS"@) {
                Some(p) => crate::properties::class_from_str(p.val),
                None => None::<Class>,
            },
    {
        match self.property_value("CLASS") {
            Some(v) => Class::from_str(v),
            None => None,
        }
    }

    /// Sets `DTSTART` from a date or date-time.
    pub fn starts(&mut self, dt: &DatePerhapsTime)
        requires
            inner_wf(old(self)@),
        ensures
            inner_wf(final(self)@),
            prop_lookup(final(self)@.properties, "DTSTART"@) matches Some(p) && p.key == "DTSTART"@,
            forall|k: Seq<char>|
                k != "DTSTART"@ ==> prop_lookup(final(self)@.properties, k) == prop_lookup(
                    old(self)@.properties,
                    k,
                ),
            final(self)@.multi_properties == old(self)@.multi_properties,
            final(self)@.components == old(self)@.components,
    {
        let p = dt.to_property("DTSTART");
        self.insert_property(p);
    }

    /// Sets `DTEND` from a date or date-time.
    pub fn ends(&mut self, dt: &DatePerhapsTime)
        requires
            inner_wf(old(self)@),
        ensures
            inner_wf(final(self)@),
            prop_lookup(final(self)@.properties, "DTEND"@) matches Some(p) && p.key == "DTEND"@,
            forall|k: Seq<char>|
                k != "DTEND"@ ==> prop_lookup(final(self)@.properties, k) == prop_lookup(
                    old(self)@.properties,
                    k,
                ),
            final(self)@.multi_properties == old(self)@.multi_properties,
            final(self)@.components == old(self)@.components,
    {
        let p = dt.to_property("DTEND");
        self.insert_property(p);
    }

    /// Sets `DTSTART` and `DTEND` to the same bare date.
    pub fn all_day(&mut self, date: &DateParts)
        requires
            inner_wf(old(self)@),
        ensures
            inner_wf(final(self)@),
            prop_lookup(final(self)@.properties, "DTSTART"@) matches Some(p) && p.val == crate::date_time::date_str(*date),
            prop_lookup(final(self)@.properties, "DTEND"@) matches Some(p) && p.val == crate::date_time::date_str(*date),
            forall|k: Seq<char>|
                k != "DTSTART"@ && k != "DTEND"@ ==> prop_lookup(final(self)@.properties, k)
                    == prop_lookup(old(self)@.properties, k),
            final(self)@.multi_properties == old(self)@.multi_properties,
            final(self)@.components == old(self)@.components,
    {
        let p1 = naive_date_to_property(date, "DTSTART");
        self.insert_property(p1);
        let p2 = naive_date_to_property(date, "DTEND");
        self.insert_property(p2);
    }

    /// Sets the `LOCATION` with a venue identifier parameter.
    pub fn venue(&mut self, location: &str, venue_uid: &str)
        requires
            inner_wf(old(self)@),
        ensures
            inner_wf(final(self)@),
            prop_lookup(final(self)@.properties, "LOCATION"@) matches Some(p) && p.val
                == escape_newlines_spec(location@) && (param_lookup(p.params, "VVENUE"@) matches
            Some(q) && q.val == venue_uid@),
            forall|k: Seq<char>|
                k != "LOCATION"@ ==> prop_lookup(final(self)@.properties, k) == prop_lookup(
                    old(self)@.properties,
                    k,
                ),
            final(self)@.multi_properties == old(self)@.multi_properties,
            final(self)@.components == old(self)@.components,
    {
        let p = Property::new("LOCATION", location).add_parameter("VVENUE", venue_uid);
        self.insert_property(p);
    }
}

} // verus!

verus! {

/// The value the last parameter with key `k` contributes when a parsed
/// parameter list is folded into a key-unique one ("no value" reads as
/// the empty value).
pub open spec fn last_param_val(
    ps: Seq<crate::parser::grammar::ParamModel>,
    k: Seq<char>,
) -> Option<Seq<char>>
    decreases ps.len(),
{
    if ps.len() == 0 {
        None
    } else if ps[ps.len() - 1].key == k {
        Some(
            match ps[ps.len() - 1].val {
                Some(v) => v,
                None => Seq::empty(),
            },
        )
    } else {
        last_param_val(ps.drop_last(), k)
    }
}

/// No two parsed parameters share a key.
pub open spec fn parser_params_unique(ps: Seq<crate::parser::grammar::ParamModel>) -> bool {
    forall|i: int, j: int| 0 <= i < j < ps.len() ==> ps[i].key != ps[j].key
}

/// The typed form of one parsed parameter: a missing value reads as the
/// empty one.
pub open spec fn typed_param_of(q: crate::parser::grammar::ParamModel) -> ParameterModel {
    ParameterModel {
        key: q.key,
        val: match q.val {
            Some(v) => v,
            None => Seq::empty(),
        },
    }
}

/// A typed property faithfully carries a parsed one: same name, the raw
/// value byte for byte (backslash decoding is opt-in, never automatic),
/// and for each parameter key the last parsed occurrence.
pub open spec fn prop_matches(
    pm: crate::parser::grammar::PropModel,
    tm: PropertyModel,
) -> bool {
    &&& tm.key == pm.name
    &&& tm.val == pm.val
    &&& crate::properties::param_keys_unique(tm.params)
    &&& forall|k: Seq<char>|
        #[trigger] param_lookup(tm.params, k) == match last_param_val(pm.params, k) {
            Some(v) => Some(ParameterModel { key: k, val: v }),
            None => None::<ParameterModel>,
        }
}

/// The repeatable properties a parsed property list contributes, in
/// order: exactly those with repeatable names.
pub open spec fn multi_seq_matches(
    ps: Seq<crate::parser::grammar::PropModel>,
    ms: Seq<PropertyModel>,
) -> bool
    decreases ps.len(),
{
    if ps.len() == 0 {
        ms.len() == 0
    } else if is_multi_name(ps[ps.len() - 1].name) {
        &&& ms.len() > 0
        &&& prop_matches(ps[ps.len() - 1], ms[ms.len() - 1])
        &&& multi_seq_matches(ps.drop_last(), ms.drop_last())
    } else {
        multi_seq_matches(ps.drop_last(), ms)
    }
}

/// The last single-valued (non-repeatable) parsed property named `k`.
pub open spec fn last_single(
    ps: Seq<crate::parser::grammar::PropModel>,
    k: Seq<char>,
) -> Option<crate::parser::grammar::PropModel>
    decreases ps.len(),
{
    if ps.len() == 0 {
        None
    } else if ps[ps.len() - 1].name == k && !is_multi_name(k) {
        Some(ps[ps.len() - 1])
    } else {
        last_single(ps.drop_last(), k)
    }
}

/// A typed component body faithfully carries a parsed component: last
/// write wins in the single-valued map, repeatable properties keep their
/// order, children convert one for one.
pub open spec fn inner_matches(cm: crate::parser::grammar::CompModel, m: InnerModel) -> bool
    decreases cm,
{
    &&& multi_seq_matches(cm.properties, m.multi_properties)
    &&& forall|k: Seq<char>|
        match last_single(cm.properties, k) {
            Some(pm) => #[trigger] prop_lookup(m.properties, k) matches Some(tm) && prop_matches(
                pm,
                tm,
            ),
            None => prop_lookup(m.properties, k) is None,
        }
    &&& m.components.len() == cm.components.len()
    &&& forall|i: int|
        0 <= i < cm.components.len() ==> (#[trigger] m.components[i]).name == cm.components[i].name
            && inner_matches(cm.components[i], m.components[i].inner)
}

/// Converts one parsed property to a typed one: name and raw value are
/// kept byte for byte, and the parameters fold into a key-unique list,
/// last occurrence winning.
pub fn property_from_parsed(p: &crate::parser::properties::Property) -> (r: Property)
    ensures
        r.wf(),
        prop_matches(p@, r@),
        parser_params_unique(p@.params) ==> r@.params == p@.params.map_values(
            |q: crate::parser::grammar::ParamModel| typed_param_of(q),
        ),
{
    let mut r = Property::from_raw_parts(
        <String as vstd::string::StringExecFns>::from_str(p.name.as_str()),
        <String as vstd::string::StringExecFns>::from_str(p.val.as_str()),
    );
    let ghost ps = p@.params;
    proof {
        assert(ps.take(0) =~= Seq::<crate::parser::grammar::ParamModel>::empty());
        assert forall|k: Seq<char>|
            #[trigger] param_lookup(r@.params, k) == match last_param_val(ps.take(0), k) {
                Some(v) => Some(ParameterModel { key: k, val: v }),
                None => None::<ParameterModel>,
            } by {}
        assert(r@.params =~= ps.take(0).map_values(
            |q: crate::parser::grammar::ParamModel| typed_param_of(q),
        ));
    }
    let n = p.params.len();
    let mut i: usize = 0;
    while i < n
        invariant
            i <= n,
            n == p.params@.len(),
            ps == p@.params,
            ps.len() == n,
            forall|t: int| 0 <= t < n ==> ps[t] == p.params@[t]@,
            r.wf(),
            r@.key == p@.name,
            r@.val == p@.val,
            forall|k: Seq<char>|
                #[trigger] param_lookup(r@.params, k) == match last_param_val(ps.take(i as int), k) {
                    Some(v) => Some(ParameterModel { key: k, val: v }),
                    None => None::<ParameterModel>,
                },
            parser_params_unique(ps) ==> r@.params == ps.take(i as int).map_values(
                |q: crate::parser::grammar::ParamModel| typed_param_of(q),
            ),
        decreases n - i,
    {
        let key_str = p.params[i].key.as_str();
        let par = match &p.params[i].val {
            Some(v) => Parameter::new(key_str, v.as_str()),
            None => Parameter::new(key_str, ""),
        };
        proof {
            reveal_strlit("");
            assert(par@.key == ps[i as int].key);
            assert(par@.val == match ps[i as int].val {
                Some(v) => v,
                None => Seq::<char>::empty(),
            });
        }
        let ghost oldr = r@;
        r = r.append_parameter(par);
        proof {
            let tk = ps.take(i as int + 1);
            assert(tk.drop_last() =~= ps.take(i as int));
            assert(tk[tk.len() - 1] == ps[i as int]);
            if parser_params_unique(ps) {
                // earlier keys all differ from this one, so the fold
                // appends and the order of the parsed list is preserved
                assert(par@ == typed_param_of(ps[i as int]));
                let mapped = ps.take(i as int).map_values(
                    |q: crate::parser::grammar::ParamModel| typed_param_of(q),
                );
                assert forall|t: int| 0 <= t < mapped.len() implies (#[trigger] mapped[t]).key
                    != par@.key by {
                    assert(mapped[t] == typed_param_of(ps[t]));
                    assert(ps[t].key != ps[i as int].key);
                }
                crate::properties::lemma_param_fold_insert_at(mapped, par@, mapped.len() as int);
                assert(r@.params == mapped.push(par@));
                assert(mapped.push(par@) =~= tk.map_values(
                    |q: crate::parser::grammar::ParamModel| typed_param_of(q),
                ));
            }
            assert forall|k: Seq<char>|
                #[trigger] param_lookup(r@.params, k) == match last_param_val(
                    ps.take(i as int + 1),
                    k,
                ) {
                    Some(v) => Some(ParameterModel { key: k, val: v }),
                    None => None::<ParameterModel>,
                } by {
                if k == par@.key {
                    assert(param_lookup(r@.params, k) == Some(par@));
                } else {
                    assert(param_lookup(r@.params, k) == param_lookup(oldr.params, k));
                }
            }
        }
        i = i + 1;
    }
    proof {
        assert(ps.take(n as int) =~= ps);
    }
    r
}

/// Converts a parsed component body: repeatable names collect in order,
/// single-valued names fold last-write-wins, children convert in order.
pub fn inner_from_parsed(c: &crate::parser::components::Component) -> (r: InnerComponent)
    ensures
        inner_wf(r@),
        inner_matches(c@, r@),
    decreases *c,
{
    let mut inner = InnerComponent::new();
    let ghost ps = c@.properties;
    proof {
        assert(ps.take(0) =~= Seq::<crate::parser::grammar::PropModel>::empty());
        assert(multi_seq_matches(ps.take(0), inner@.multi_properties));
        assert forall|k: Seq<char>|
            match last_single(ps.take(0), k) {
                Some(pm) => #[trigger] prop_lookup(inner@.properties, k) matches Some(tm)
                    && prop_matches(pm, tm),
                None => prop_lookup(inner@.properties, k) is None,
            } by {}
    }
    let n = c.properties.len();
    let mut i: usize = 0;
    while i < n
        invariant
            i <= n,
            n == c.properties@.len(),
            ps == c@.properties,
            ps.len() == n,
            forall|t: int| 0 <= t < n ==> ps[t] == c.properties@[t]@,
            inner_wf(inner@),
            inner@.components.len() == 0,
            multi_seq_matches(ps.take(i as int), inner@.multi_properties),
            forall|k: Seq<char>|
                match last_single(ps.take(i as int), k) {
                    Some(pm) => #[trigger] prop_lookup(inner@.properties, k) matches Some(tm)
                        && prop_matches(pm, tm),
                    None => prop_lookup(inner@.properties, k) is None,
                },
        decreases n - i,
    {
        let tp = property_from_parsed(&c.properties[i]);
        proof {
            assert(c.properties@[i as int]@ == ps[i as int]);
        }
        let ghost before = inner@;
        if is_multi_property_name(tp.key()) {
            inner.insert_multi(tp);
        } else {
            inner.insert_property(tp);
        }
        proof {
            let tk = ps.take(i as int + 1);
            assert(tk.drop_last() =~= ps.take(i as int));
            assert(tk[tk.len() - 1] == ps[i as int]);
            if is_multi_name(ps[i as int].name) {
                assert(inner@.multi_properties.drop_last() =~= before.multi_properties);
                assert(multi_seq_matches(tk, inner@.multi_properties));
                assert forall|k: Seq<char>|
                    match last_single(tk, k) {
                        Some(pm) => #[trigger] prop_lookup(inner@.properties, k) matches Some(tm)
                            && prop_matches(pm, tm),
                        None => prop_lookup(inner@.properties, k) is None,
                    } by {
                    if ps[i as int].name == k {
                        assert(is_multi_name(k));
                    }
                }
            } else {
                assert(multi_seq_matches(tk, inner@.multi_properties));
                assert forall|k: Seq<char>|
                    match last_single(tk, k) {
                        Some(pm) => #[trigger] prop_lookup(inner@.properties, k) matches Some(tm)
                            && prop_matches(pm, tm),
                        None => prop_lookup(inner@.properties, k) is None,
                    } by {
                    if k == ps[i as int].name {
                    } else {
                        assert(prop_lookup(inner@.properties, k) == prop_lookup(
                            before.properties,
                            k,
                        ));
                    }
                }
            }
        }
        i = i + 1;
    }
    proof {
        assert(ps.take(n as int) =~= ps);
    }
    let nc = c.components.len();
    let mut t: usize = 0;
    while t < nc
        invariant
            t <= nc,
            nc == c.components@.len(),
            c@.components.len() == nc,
            forall|u: int| 0 <= u < nc ==> c@.components[u] == c.components@[u]@,
            inner_wf(inner@),
            multi_seq_matches(c@.properties, inner@.multi_properties),
            forall|k: Seq<char>|
                match last_single(c@.properties, k) {
                    Some(pm) => #[trigger] prop_lookup(inner@.properties, k) matches Some(tm)
                        && prop_matches(pm, tm),
                    None => prop_lookup(inner@.properties, k) is None,
                },
            inner@.components.len() == t,
            forall|u: int|
                0 <= u < t ==> (#[trigger] inner@.components[u]).name == c@.components[u].name
                    && inner_matches(c@.components[u], inner@.components[u].inner),
        decreases nc - t,
    {
        let child_inner = inner_from_parsed(&c.components[t]);
        let child_name = crate::parser::parsed_string::ParseString::to_owned(
            &c.components[t].name,
        );
        let child = other::Other::from_parts(
            {
                let s = child_name.as_str();
                let mut o = String::new();
                o.append(s);
                o
            },
            child_inner,
        );
        proof {
            assert(c.components@[t as int]@ == c@.components[t as int]);
            assert(child@.name == c@.components[t as int].name);
        }
        inner.push_component(child);
        t = t + 1;
    }
    inner
}

} // verus!
