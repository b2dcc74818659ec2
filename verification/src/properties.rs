//! Typed properties: key, value and a key-unique parameter list. A value
//! keeps its bytes: the constructors pre-escape raw line feeds (which
//! could not survive on a content line) and everything else — parsed
//! escape sequences included — passes through untouched; backslash
//! decoding is a caller's opt-in step.

use crate::chars::chars_to_string;
use crate::chars::push_str_chars;
use crate::escaping::escape_newlines;
use crate::escaping::escape_newlines_spec;
use crate::escaping::lemma_escape_newlines_line_safe;
use crate::folding::fold_chars;
use crate::folding::fold_spec;
use crate::value_types::ValueType;
use vstd::prelude::*;
use vstd::string::StringExecFns;

verus! {

/// The model of a parameter: its key and its (possibly empty) value.
#[verifier::ext_equal]
pub struct ParameterModel {
    pub key: Seq<char>,
    pub val: Seq<char>,
}

/// The model of a typed property.
#[verifier::ext_equal]
pub struct PropertyModel {
    pub key: Seq<char>,
    pub val: Seq<char>,
    pub params: Seq<ParameterModel>,
}

/// Key-value pairs inside of properties.
#[derive(Clone, Debug, PartialEq, Eq)]
pub struct Parameter {
    key: String,
    val: String,
}

impl View for Parameter {
    type V = ParameterModel;

    closed spec fn view(&self) -> ParameterModel {
        ParameterModel { key: self.key@, val: self.val@ }
    }
}

impl Parameter {
    /// Creates a new parameter.
    pub fn new(key: &str, val: &str) -> (r: Parameter)
        ensures
            r@.key == key@,
            r@.val == val@,
    {
        Parameter { key: String::from_str(key), val: String::from_str(val) }
    }

    /// The key.
    pub fn key(&self) -> (r: &str)
        ensures
            r@ == self@.key,
    {
        self.key.as_str()
    }

    /// The value.
    pub fn value(&self) -> (r: &str)
        ensures
            r@ == self@.val,
    {
        self.val.as_str()
    }
}

/// No two parameters share a key.
pub open spec fn param_keys_unique(ps: Seq<ParameterModel>) -> bool {
    forall|i: int, j: int| 0 <= i < j < ps.len() ==> ps[i].key != ps[j].key
}

/// Replace-or-append: the list with `q` in place of its first key match,
/// or appended when the key is fresh — exactly what `append_parameter`
/// does to the parameter list.
pub open spec fn param_fold_insert(acc: Seq<ParameterModel>, q: ParameterModel) -> Seq<
    ParameterModel,
>
    decreases acc.len(),
{
    if acc.len() == 0 {
        seq![q]
    } else if acc[0].key == q.key {
        seq![q] + acc.skip(1)
    } else {
        seq![acc[0]] + param_fold_insert(acc.skip(1), q)
    }
}

/// `param_fold_insert` replaces in place at the first key match, and
/// appends when no entry matches.
pub proof fn lemma_param_fold_insert_at(acc: Seq<ParameterModel>, q: ParameterModel, i: int)
    requires
        0 <= i <= acc.len(),
        forall|t: int| 0 <= t < i ==> (#[trigger] acc[t]).key != q.key,
        i < acc.len() ==> acc[i].key == q.key,
    ensures
        i < acc.len() ==> param_fold_insert(acc, q) == acc.update(i, q),
        i == acc.len() ==> param_fold_insert(acc, q) == acc.push(q),
    decreases acc.len(),
{
    if acc.len() == 0 {
        assert(param_fold_insert(acc, q) =~= acc.push(q));
    } else if i == 0 {
        assert(param_fold_insert(acc, q) =~= acc.update(0, q));
    } else {
        assert(forall|t: int| 0 <= t < i - 1 ==> (#[trigger] acc.skip(1)[t]).key != q.key);
        lemma_param_fold_insert_at(acc.skip(1), q, i - 1);
        if i < acc.len() {
            assert(seq![acc[0]] + acc.skip(1).update(i - 1, q) =~= acc.update(i, q));
        } else {
            assert(seq![acc[0]] + acc.skip(1).push(q) =~= acc.push(q));
        }
    }
}

/// The first (and, when keys are unique, only) parameter with key `k`.
pub open spec fn param_lookup(ps: Seq<ParameterModel>, k: Seq<char>) -> Option<ParameterModel>
    decreases ps.len(),
{
    if ps.len() == 0 {
        None
    } else if ps[0].key == k {
        Some(ps[0])
    } else {
        param_lookup(ps.skip(1), k)
    }
}

/// Key-value pairs inside of components: a name, a raw value, and the
/// parameters in insertion order with unique keys.
#[derive(Clone, Debug, PartialEq, Eq)]
pub struct Property {
    key: String,
    val: String,
    params: Vec<Parameter>,
}

impl View for Property {
    type V = PropertyModel;

    closed spec fn view(&self) -> PropertyModel {
        PropertyModel {
            key: self.key@,
            val: self.val@,
            params: self.params@.map_values(|p: Parameter| p@),
        }
    }
}

impl Property {
    /// The parameter list holds each key once.
    pub open spec fn wf(&self) -> bool {
        param_keys_unique(self@.params)
    }

    /// Creates a new property. Raw line feeds in the value are
    /// pre-escaped to backslash-`n`, so a stored value never breaks a
    /// content line; any other byte is kept as given.
    pub fn new(key: &str, val: &str) -> (r: Property)
        ensures
            r@.key == key@,
            r@.val == escape_newlines_spec(val@),
            forall|i: int| 0 <= i < r@.val.len() ==> #[trigger] r@.val[i] != '\n',
            r@.params.len() == 0,
            r.wf(),
    {
        let r = Property {
            key: String::from_str(key),
            val: escape_newlines(val),
            params: Vec::new(),
        };
        proof {
            assert(r@.params =~= Seq::<ParameterModel>::empty());
            lemma_escape_newlines_line_safe(val@);
        }
        r
    }

    /// Creates a new property from owned strings; raw line feeds in the
    /// value are pre-escaped as in [`Property::new`].
    pub fn new_pre_alloc(key: String, val: String) -> (r: Property)
        ensures
            r@.key == key@,
            r@.val == escape_newlines_spec(val@),
            forall|i: int| 0 <= i < r@.val.len() ==> #[trigger] r@.val[i] != '\n',
            r@.params.len() == 0,
            r.wf(),
    {
        let escaped = escape_newlines(val.as_str());
        let r = Property { key, val: escaped, params: Vec::new() };
        proof {
            assert(r@.params =~= Seq::<ParameterModel>::empty());
            lemma_escape_newlines_line_safe(val@);
        }
        r
    }

    /// Builds a property from parts that are already wire-safe: machine
    /// formatted values, and values read back from a parsed content line
    /// (which keep their raw bytes, escape sequences included).
    pub(crate) fn from_raw_parts(key: String, val: String) -> (r: Property)
        ensures
            r@.key == key@,
            r@.val == val@,
            r@.params.len() == 0,
            r.wf(),
    {
        let r = Property { key, val, params: Vec::new() };
        proof {
            assert(r@.params =~= Seq::<ParameterModel>::empty());
        }
        r
    }

    /// The key.
    pub fn key(&self) -> (r: &str)
        ensures
            r@ == self@.key,
    {
        self.key.as_str()
    }

    /// The raw value.
    pub fn value(&self) -> (r: &str)
        ensures
            r@ == self@.val,
    {
        self.val.as_str()
    }

    /// Does this property carry exactly the given key?
    pub fn key_is(&self, key: &str) -> (r: bool)
        ensures
            r == (self@.key == key@),
    {
        crate::parser::parsed_string::str_eq_str(self.key.as_str(), key)
    }

    /// The parameters, in insertion order.
    pub fn params(&self) -> (r: &Vec<Parameter>)
        ensures
            r@.map_values(|p: Parameter| p@) == self@.params,
    {
        &self.params
    }

    /// A list of properties built from key-value pairs.
    pub fn from_array<const N: usize>(array: [(&str, &str); N]) -> (r: Vec<Property>)
        ensures
            r@.len() == N,
            forall|i: int|
                0 <= i < N ==> (#[trigger] r@[i])@.key == array@[i].0@ && r@[i]@.val
                    == escape_newlines_spec(array@[i].1@) && r@[i]@.params.len() == 0
                    && r@[i].wf(),
    {
        let mut out: Vec<Property> = Vec::new();
        let mut i: usize = 0;
        while i < N
            invariant
                i <= N,
                out@.len() == i,
                forall|t: int|
                    0 <= t < i ==> (#[trigger] out@[t])@.key == array@[t].0@ && out@[t]@.val
                        == escape_newlines_spec(array@[t].1@) && out@[t]@.params.len() == 0
                        && out@[t].wf(),
            decreases N - i,
        {
            let (k, v) = array[i];
            out.push(Property::new(k, v));
            i = i + 1;
        }
        out
    }

    /// The `VALUE` parameter, decoded, if one is set and recognized.
    pub fn value_type(&self) -> (r: Option<ValueType>)
        ensures
            r == match param_lookup(self@.params, "VALUE"@) {
                Some(p) => crate::value_types::value_type_from_str(p.val),
                None => None::<ValueType>,
            },
    {
        match self.get_param("VALUE") {
            Some(p) => ValueType::from_str(p.value()),
            None => None,
        }
    }

    /// The first parameter with the given key.
    pub fn get_param(&self, key: &str) -> (r: Option<&Parameter>)
        ensures
            match r {
                Some(p) => param_lookup(self@.params, key@) == Some(p@),
                None => param_lookup(self@.params, key@) is None,
            },
    {
        let n = self.params.len();
        let mut i: usize = 0;
        proof {
            assert(self@.params.skip(0) =~= self@.params);
        }
        loop
            invariant
                i <= n,
                n == self.params@.len(),
                param_lookup(self@.params, key@) == param_lookup(
                    self@.params.skip(i as int),
                    key@,
                ),
            ensures
                i <= n,
                param_lookup(self@.params, key@) == param_lookup(self@.params.skip(i as int), key@),
                i == n || self@.params[i as int].key == key@,
            decreases n - i,
        {
            if i >= n {
                break ;
            }
            proof {
                assert(self@.params.skip(i as int)[0] == self@.params[i as int]);
                assert(self@.params.skip(i as int).skip(1) =~= self@.params.skip(i as int + 1));
            }
            if crate::parser::parsed_string::str_eq_str(self.params[i].key.as_str(), key) {
                break ;
            }
            i = i + 1;
        }
        if i < n {
            proof {
                assert(param_lookup(self@.params.skip(i as int), key@) == Some(
                    self@.params[i as int],
                )) by {
                    assert(self@.params.skip(i as int)[0] == self@.params[i as int]);
                }
            }
            Some(&self.params[i])
        } else {
            proof {
                assert(self@.params.skip(n as int) =~= Seq::<ParameterModel>::empty());
            }
            None
        }
    }

    /// Reads the value through a converter.
    pub fn get_value_as<T, F: Fn(&str) -> Option<T>>(&self, converter: F) -> (r: Option<T>)
        requires
            forall|s: &str| s@ == self@.val ==> call_requires(converter, (s,)),
        ensures
            exists|s: &str| s@ == self@.val && call_ensures(converter, (s,), r),
    {
        let v = self.value();
        converter(v)
    }

    /// Reads a parameter's value through a converter; an absent parameter
    /// reads as nothing.
    pub fn get_param_as<T, F: Fn(&str) -> Option<T>>(&self, key: &str, converter: F) -> (r: Option<
        T,
    >)
        requires
            forall|s: &str|
                (param_lookup(self@.params, key@) matches Some(p) && s@ == p.val) ==> call_requires(
                    converter,
                    (s,),
                ),
        ensures
            param_lookup(self@.params, key@) is None ==> r is None,
            param_lookup(self@.params, key@) matches Some(p) ==> exists|s: &str|
                s@ == p.val && call_ensures(converter, (s,), r),
    {
        match self.get_param(key) {
            Some(p) => converter(p.value()),
            None => None,
        }
    }

    /// Appends a parameter; an existing parameter with the same key is
    /// replaced in place, so keys stay unique.
    pub fn append_parameter(self, parameter: Parameter) -> (r: Property)
        requires
            self.wf(),
        ensures
            r.wf(),
            r@.key == self@.key,
            r@.val == self@.val,
            r@.params == param_fold_insert(self@.params, parameter@),
            param_lookup(r@.params, parameter@.key) == Some(parameter@),
            forall|k: Seq<char>|
                k != parameter@.key ==> param_lookup(r@.params, k) == param_lookup(
                    self@.params,
                    k,
                ),
    {
        let mut me = self;
        let ghost olds = me@.params;
        let n = me.params.len();
        let mut i: usize = 0;
        loop
            invariant
                i <= n,
                n == me.params@.len(),
                olds == me@.params,
                forall|t: int| 0 <= t < i ==> olds[t].key != parameter@.key,
            ensures
                i <= n,
                olds == me@.params,
                n == me.params@.len(),
                forall|t: int| 0 <= t < i ==> olds[t].key != parameter@.key,
                i == n || olds[i as int].key == parameter@.key,
            decreases n - i,
        {
            if i >= n {
                break ;
            }
            if crate::parser::parsed_string::str_eq_str(
                me.params[i].key.as_str(),
                parameter.key.as_str(),
            ) {
                break ;
            }
            i = i + 1;
        }
        if i < n {
            me.params.set(i, parameter);
        } else {
            me.params.push(parameter);
        }
        proof {
            let news = me@.params;
            assert(news.len() == if i < n {
                n as int
            } else {
                n + 1
            });
            assert(forall|t: int| 0 <= t < news.len() && t != i ==> news[t] == olds[t]);
            assert(news[i as int] == parameter@);
            assert(param_keys_unique(news)) by {
                assert(forall|a: int, b: int|
                    0 <= a < b < news.len() && a != i && b != i ==> news[a].key != news[b].key);
                assert forall|a: int| 0 <= a < news.len() && a != i implies news[a].key
                    != parameter@.key by {
                    if a < i {
                        assert(olds[a].key != parameter@.key);
                    } else {
                        if i < n {
                            assert(olds[i as int].key == parameter@.key);
                            assert(olds[a].key != olds[i as int].key);
                        }
                    }
                }
            }
            lemma_param_lookup_pointwise(olds, news, parameter@, i as int);
            lemma_param_fold_insert_at(olds, parameter@, i as int);
            if i < n {
                assert(news =~= olds.update(i as int, parameter@));
            } else {
                assert(news =~= olds.push(parameter@));
            }
        }
        me
    }

    /// Creates and appends a parameter.
    pub fn add_parameter(self, key: &str, val: &str) -> (r: Property)
        requires
            self.wf(),
        ensures
            r.wf(),
            r@.key == self@.key,
            r@.val == self@.val,
            param_lookup(r@.params, key@) matches Some(p) && p.key == key@ && p.val == val@,
            r@.params == param_fold_insert(
                self@.params,
                ParameterModel { key: key@, val: val@ },
            ),
            forall|k: Seq<char>|
                k != key@ ==> param_lookup(r@.params, k) == param_lookup(self@.params, k),
    {
        self.append_parameter(Parameter::new(key, val))
    }

    /// End of the builder pattern: takes the finished property, leaving an
    /// empty one behind.
    pub fn done(&mut self) -> (r: Property)
        ensures
            r == *old(self),
            final(self)@.key == Seq::<char>::empty(),
            final(self)@.val == Seq::<char>::empty(),
            final(self)@.params == Seq::<ParameterModel>::empty(),
    {
        let mut taken = Property { key: String::new(), val: String::new(), params: Vec::new() };
        proof {
            assert(taken@.params =~= Seq::<ParameterModel>::empty());
        }
        core::mem::swap(&mut taken, self);
        taken
    }

    /// Writes this property as a folded content line with terminator.
    pub(crate) fn render_into(&self, out: &mut Vec<char>)
        ensures
            final(out)@ == old(out)@ + render_property(self@),
    {
        let mut line: Vec<char> = Vec::new();
        push_str_chars(&mut line, self.key.as_str());
        let m = self.params.len();
        let mut i: usize = 0;
        proof {
            assert(self@.params.take(0) =~= Seq::<ParameterModel>::empty());
            assert(line@ =~= self@.key + render_parameters(self@.params.take(0)));
        }
        while i < m
            invariant
                i <= m,
                m == self.params@.len(),
                self@.params.len() == m,
                self@.params == self.params@.map_values(|q: Parameter| q@),
                line@ == self@.key + render_parameters(self@.params.take(i as int)),
            decreases m - i,
        {
            let ghost pre = line@;
            line.push(';');
            push_str_chars(&mut line, self.params[i].key.as_str());
            line.push('=');
            if value_needs_quotes(self.params[i].val.as_str()) {
                line.push('"');
                push_str_chars(&mut line, self.params[i].val.as_str());
                line.push('"');
            } else {
                push_str_chars(&mut line, self.params[i].val.as_str());
            }
            proof {
                assert(line@ =~= pre + render_parameter(self@.params[i as int]));
                lemma_render_parameters_snoc(self@.params, i as int);
                assert(line@ =~= self@.key + render_parameters(self@.params.take(i as int + 1)));
            }
            i = i + 1;
        }
        proof {
            assert(self@.params.take(m as int) =~= self@.params);
        }
        line.push(':');
        push_str_chars(&mut line, self.val.as_str());
        proof {
            assert(line@ =~= property_line(self@));
        }
        let folded = fold_chars(&line);
        let fn_ = folded.len();
        crate::chars::push_range(out, &folded, 0, fn_);
        out.push('\r');
        out.push('\n');
        proof {
            assert(folded@.subrange(0, fn_ as int) =~= fold_spec(property_line(self@)));
            assert(final(out)@ =~= old(out)@ + render_property(self@));
        }
    }

    /// Renders this property alone: its folded content line.
    pub fn try_into_string(&self) -> (r: Result<String, String>)
        ensures
            r matches Ok(s) && s@ == render_property(self@),
    {
        let mut out: Vec<char> = Vec::new();
        self.render_into(&mut out);
        Ok(chars_to_string(&out))
    }
}

/// Replacing or appending at position `i` changes only that key's lookup.
proof fn lemma_param_lookup_pointwise(
    olds: Seq<ParameterModel>,
    news: Seq<ParameterModel>,
    q: ParameterModel,
    i: int,
)
    requires
        0 <= i <= olds.len(),
        news.len() == olds.len() || (i == olds.len() && news.len() == olds.len() + 1),
        i < news.len(),
        news[i] == q,
        news.len() == olds.len() ==> olds[i].key == q.key,
        forall|t: int| 0 <= t < news.len() && t != i ==> news[t] == olds[t],
        forall|t: int| 0 <= t < i ==> olds[t].key != q.key,
    ensures
        param_lookup(news, q.key) == Some(q),
        forall|k: Seq<char>| k != q.key ==> param_lookup(news, k) == param_lookup(olds, k),
    decreases olds.len(),
{
    if i == 0 {
        assert(param_lookup(news, q.key) == Some(q));
        assert forall|k: Seq<char>| k != q.key implies param_lookup(news, k) == param_lookup(
            olds,
            k,
        ) by {
            if olds.len() == 0 {
                assert(news[0] == q);
                assert(news[0].key != k);
                assert(news.skip(1) =~= Seq::<ParameterModel>::empty());
                assert(param_lookup(news, k) == param_lookup(news.skip(1), k));
                assert(param_lookup(news, k) is None);
                assert(param_lookup(olds, k) is None);
            } else {
                assert(news[0] == q);
                // replacement at the head: the tails agree and the heads
                // both carry the replaced key
                assert(news.skip(1) =~= olds.skip(1));
                assert(param_lookup(news, k) == param_lookup(olds.skip(1), k));
                assert(olds[0].key == q.key);
                assert(param_lookup(olds, k) == param_lookup(olds.skip(1), k));
            }
        }
    } else {
        assert(news[0] == olds[0]);
        assert(olds[0].key != q.key);
        assert(news.skip(1)[i - 1] == q);
        if news.len() == olds.len() {
            assert(olds.skip(1)[i - 1].key == q.key);
        }
        assert(forall|t: int|
            0 <= t < news.skip(1).len() && t != i - 1 ==> news.skip(1)[t] == olds.skip(1)[t]);
        assert(forall|t: int| 0 <= t < i - 1 ==> olds.skip(1)[t].key != q.key);
        lemma_param_lookup_pointwise(olds.skip(1), news.skip(1), q, i - 1);
        assert(param_lookup(news, q.key) == param_lookup(news.skip(1), q.key));
        assert forall|k: Seq<char>| k != q.key implies param_lookup(news, k) == param_lookup(
            olds,
            k,
        ) by {
            assert(param_lookup(news.skip(1), k) == param_lookup(olds.skip(1), k));
        }
    }
}

/// The value must be double-quoted on the wire: a bare `;` or `:` would
/// end it early.
pub open spec fn param_needs_quotes(v: Seq<char>) -> bool {
    exists|i: int| 0 <= i < v.len() && (v[i] == ';' || v[i] == ':')
}

/// `;KEY=VALUE`, as the typed serializer writes it: always with the
/// equals sign (an empty value parses back as "no value"), the value
/// double-quoted when it holds a `;` or `:`.
pub open spec fn render_parameter(p: ParameterModel) -> Seq<char> {
    if param_needs_quotes(p.val) {
        seq![';'] + p.key + seq!['=', '"'] + p.val + seq!['"']
    } else {
        seq![';'] + p.key + seq!['='] + p.val
    }
}

/// Does the value need double quotes on the wire?
pub(crate) fn value_needs_quotes(s: &str) -> (r: bool)
    ensures
        r == param_needs_quotes(s@),
{
    let v = crate::chars::str_chars(s);
    let n = v.len();
    let mut i: usize = 0;
    loop
        invariant
            i <= n,
            n == v@.len(),
            v@ == s@,
            forall|t: int| 0 <= t < i ==> !(s@[t] == ';' || s@[t] == ':'),
        ensures
            i <= n,
            forall|t: int| 0 <= t < i ==> !(s@[t] == ';' || s@[t] == ':'),
            i == n || (s@[i as int] == ';' || s@[i as int] == ':'),
        decreases n - i,
    {
        if i >= n {
            break ;
        }
        if v[i] == ';' || v[i] == ':' {
            break ;
        }
        i = i + 1;
    }
    i < n
}

pub open spec fn render_parameters(ps: Seq<ParameterModel>) -> Seq<char>
    decreases ps.len(),
{
    if ps.len() == 0 {
        Seq::empty()
    } else {
        render_parameter(ps[0]) + render_parameters(ps.subrange(1, ps.len() as int))
    }
}

pub proof fn lemma_render_parameters_snoc(ps: Seq<ParameterModel>, k: int)
    requires
        0 <= k < ps.len(),
    ensures
        render_parameters(ps.take(k + 1)) == render_parameters(ps.take(k)) + render_parameter(
            ps[k],
        ),
    decreases k,
{
    let a = ps.take(k + 1);
    if k == 0 {
        assert(a.subrange(1, a.len() as int) =~= Seq::empty());
        assert(a[0] == ps[0]);
        assert(render_parameters(ps.take(0)) =~= Seq::empty()) by {
            assert(ps.take(0) =~= Seq::<ParameterModel>::empty());
        }
        assert(render_parameter(ps[0]) + Seq::<char>::empty() =~= render_parameter(ps[0]));
        assert(Seq::<char>::empty() + render_parameter(ps[0]) =~= render_parameter(ps[0]));
    } else {
        let tail = ps.subrange(1, ps.len() as int);
        lemma_render_parameters_snoc(tail, k - 1);
        assert(a[0] == ps[0]);
        assert(a.subrange(1, a.len() as int) =~= tail.take(k));
        assert(ps.take(k).subrange(1, k as int) =~= tail.take(k - 1));
        assert(tail[k - 1] == ps[k]);
        assert(render_parameters(ps.take(k + 1)) == render_parameter(ps[0]) + (render_parameters(
            tail.take(k - 1),
        ) + render_parameter(ps[k])));
        assert(render_parameter(ps[0]) + (render_parameters(tail.take(k - 1)) + render_parameter(
            ps[k],
        )) =~= (render_parameter(ps[0]) + render_parameters(tail.take(k - 1))) + render_parameter(
            ps[k],
        ));
    }
}

/// The logical content line of a typed property: the stored value is
/// written byte for byte (constructors have already pre-escaped raw line
/// feeds, and parsed values carry their original escape sequences).
pub open spec fn property_line(p: PropertyModel) -> Seq<char> {
    p.key + render_parameters(p.params) + seq![':'] + p.val
}

/// A typed property on the wire: the folded line and its terminator.
pub open spec fn render_property(p: PropertyModel) -> Seq<char> {
    fold_spec(property_line(p)) + seq!['\r', '\n']
}

/// The access classification of a calendar component.
#[derive(Copy, Clone, Debug, Eq, PartialEq)]
pub enum Class {
    /// Visible to everyone.
    Public,
    /// Visible to the owner.
    Private,
    /// Visible to the owner, marked confidential.
    Confidential,
}

impl Class {
    /// Decodes the `CLASS` property value.
    pub(crate) fn from_str(s: &str) -> (r: Option<Self>)
        ensures
            r == class_from_str(s@),
    {
        if crate::parser::parsed_string::str_eq_str(s, "PUBLIC") {
            Some(Self::Public)
        } else if crate::parser::parsed_string::str_eq_str(s, "PRIVATE") {
            Some(Self::Private)
        } else if crate::parser::parsed_string::str_eq_str(s, "CONFIDENTIAL") {
            Some(Self::Confidential)
        } else {
            None
        }
    }

    /// The property value this classification writes.
    pub(crate) fn as_str(&self) -> (r: &'static str)
        ensures
            r@ == class_str(*self),
    {
        match self {
            Class::Public => "PUBLIC",
            Class::Private => "PRIVATE",
            Class::Confidential => "CONFIDENTIAL",
        }
    }

    /// This classification as a `CLASS` property.
    pub fn to_property(&self) -> (r: Property)
        ensures
            r@.key == "CLASS"@,
            r@.val == class_str(*self),
            r@.params.len() == 0,
            r.wf(),
    {
        Property::from_raw_parts(String::from_str("CLASS"), String::from_str(self.as_str()))
    }
}

pub open spec fn class_str(c: Class) -> Seq<char> {
    match c {
        Class::Public => "PUBLIC"@,
        Class::Private => "PRIVATE"@,
        Class::Confidential => "CONFIDENTIAL"@,
    }
}

pub open spec fn class_from_str(s: Seq<char>) -> Option<Class> {
    if s == "PUBLIC"@ {
        Some(Class::Public)
    } else if s == "PRIVATE"@ {
        Some(Class::Private)
    } else if s == "CONFIDENTIAL"@ {
        Some(Class::Confidential)
    } else {
        None
    }
}

/// The status of an event.
#[derive(Copy, Clone, Debug, Eq, PartialEq)]
pub enum EventStatus {
    /// The event is tentative.
    Tentative,
    /// The event is definite.
    Confirmed,
    /// The event was cancelled.
    Cancelled,
}

pub open spec fn event_status_str(s: EventStatus) -> Seq<char> {
    match s {
        EventStatus::Tentative => "TENTATIVE"@,
        EventStatus::Confirmed => "CONFIRMED"@,
        EventStatus::Cancelled => "CANCELLED"@,
    }
}

pub open spec fn event_status_from_str(s: Seq<char>) -> Option<EventStatus> {
    if s == "TENTATIVE"@ {
        Some(EventStatus::Tentative)
    } else if s == "CONFIRMED"@ {
        Some(EventStatus::Confirmed)
    } else if s == "CANCELLED"@ {
        Some(EventStatus::Cancelled)
    } else {
        None
    }
}

impl EventStatus {
    /// Decodes the `STATUS` property value of an event.
    pub(crate) fn from_str(s: &str) -> (r: Option<Self>)
        ensures
            r == event_status_from_str(s@),
    {
        if crate::parser::parsed_string::str_eq_str(s, "TENTATIVE") {
            Some(Self::Tentative)
        } else if crate::parser::parsed_string::str_eq_str(s, "CONFIRMED") {
            Some(Self::Confirmed)
        } else if crate::parser::parsed_string::str_eq_str(s, "CANCELLED") {
            Some(Self::Cancelled)
        } else {
            None
        }
    }

    /// The property value this status writes.
    pub(crate) fn as_str(&self) -> (r: &'static str)
        ensures
            r@ == event_status_str(*self),
    {
        match self {
            EventStatus::Tentative => "TENTATIVE",
            EventStatus::Confirmed => "CONFIRMED",
            EventStatus::Cancelled => "CANCELLED",
        }
    }

    /// This status as a `STATUS` property.
    pub fn to_property(&self) -> (r: Property)
        ensures
            r@.key == "STATUS"@,
            r@.val == event_status_str(*self),
            r@.params.len() == 0,
            r.wf(),
    {
        Property::from_raw_parts(String::from_str("STATUS"), String::from_str(self.as_str()))
    }
}

/// The status of a to-do entry.
#[derive(Copy, Clone, Debug, Eq, PartialEq)]
pub enum TodoStatus {
    /// Needs action.
    NeedsAction,
    /// Completed.
    Completed,
    /// In process.
    InProcess,
    /// Cancelled.
    Cancelled,
}

pub open spec fn todo_status_str(s: TodoStatus) -> Seq<char> {
    match s {
        TodoStatus::NeedsAction => "NEEDS-ACTION"@,
        TodoStatus::Completed => "COMPLETED"@,
        TodoStatus::InProcess => "IN-PROCESS"@,
        TodoStatus::Cancelled => "CANCELLED"@,
    }
}

pub open spec fn todo_status_from_str(s: Seq<char>) -> Option<TodoStatus> {
    if s == "NEEDS-ACTION"@ {
        Some(TodoStatus::NeedsAction)
    } else if s == "COMPLETED"@ {
        Some(TodoStatus::Completed)
    } else if s == "IN-PROCESS"@ {
        Some(TodoStatus::InProcess)
    } else if s == "CANCELLED"@ {
        Some(TodoStatus::Cancelled)
    } else {
        None
    }
}

impl TodoStatus {
    /// Decodes the `STATUS` property value of a to-do entry.
    pub(crate) fn from_str(s: &str) -> (r: Option<Self>)
        ensures
            r == todo_status_from_str(s@),
    {
        if crate::parser::parsed_string::str_eq_str(s, "NEEDS-ACTION") {
            Some(Self::NeedsAction)
        } else if crate::parser::parsed_string::str_eq_str(s, "COMPLETED") {
            Some(Self::Completed)
        } else if crate::parser::parsed_string::str_eq_str(s, "IN-PROCESS") {
            Some(Self::InProcess)
        } else if crate::parser::parsed_string::str_eq_str(s, "CANCELLED") {
            Some(Self::Cancelled)
        } else {
            None
        }
    }

    /// The property value this status writes.
    pub(crate) fn as_str(&self) -> (r: &'static str)
        ensures
            r@ == todo_status_str(*self),
    {
        match self {
            TodoStatus::NeedsAction => "NEEDS-ACTION",
            TodoStatus::Completed => "COMPLETED",
            TodoStatus::InProcess => "IN-PROCESS",
            TodoStatus::Cancelled => "CANCELLED",
        }
    }

    /// This status as a `STATUS` property.
    pub fn to_property(&self) -> (r: Property)
        ensures
            r@.key == "STATUS"@,
            r@.val == todo_status_str(*self),
            r@.params.len() == 0,
            r.wf(),
    {
        Property::from_raw_parts(String::from_str("STATUS"), String::from_str(self.as_str()))
    }
}

} // verus!
