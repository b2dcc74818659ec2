//! Executable counterparts of the grammar's scanning functions.

use crate::chars::char_is_alphanumeric;
use crate::parser::grammar::begin_kw;
use crate::parser::grammar::ci_eq;
use crate::parser::grammar::ci_match;
use crate::parser::grammar::end_kw;
use crate::parser::grammar::is_key_char;
use crate::parser::grammar::is_sp;
use crate::parser::grammar::key_end;
use crate::parser::grammar::line_feed_at;
use crate::parser::grammar::multispace_end;
use crate::parser::grammar::newlines_end;
use crate::parser::grammar::sp_end;
use crate::parser::grammar::till_quote;
use crate::parser::grammar::till_sep;
use vstd::prelude::*;

verus! {

/// Is `c` allowed in a name?
pub fn is_key_char_x(c: char) -> (r: bool)
    ensures
        r == is_key_char(c),
{
    if (c as u32) < 128 {
        c == '.' || c == ',' || c == '/' || c == '_' || c == '-'
            || crate::chars::ascii_alphanumeric_x(c)
    } else {
        char_is_alphanumeric(c)
    }
}

pub fn key_end_x(v: &Vec<char>, i: usize) -> (r: usize)
    requires
        i <= v@.len(),
    ensures
        r as int == key_end(v@, i as int),
        i <= r <= v@.len(),
{
    let n = v.len();
    let mut j: usize = i;
    loop
        invariant
            i <= j <= n,
            n == v@.len(),
            key_end(v@, i as int) == key_end(v@, j as int),
        ensures
            i <= j <= n,
            key_end(v@, i as int) == j as int,
        decreases n - j,
    {
        if j >= n {
            break ;
        }
        if !is_key_char_x(v[j]) {
            break ;
        }
        j = j + 1;
    }
    j
}

pub fn sp_end_x(v: &Vec<char>, i: usize) -> (r: usize)
    requires
        i <= v@.len(),
    ensures
        r as int == sp_end(v@, i as int),
        i <= r <= v@.len(),
{
    let n = v.len();
    let mut j: usize = i;
    loop
        invariant
            i <= j <= n,
            n == v@.len(),
            sp_end(v@, i as int) == sp_end(v@, j as int),
        ensures
            i <= j <= n,
            sp_end(v@, i as int) == j as int,
        decreases n - j,
    {
        if j >= n {
            break ;
        }
        if !(v[j] == ' ' || v[j] == '\t') {
            break ;
        }
        j = j + 1;
    }
    j
}

pub fn multispace_end_x(v: &Vec<char>, i: usize) -> (r: usize)
    requires
        i <= v@.len(),
    ensures
        r as int == multispace_end(v@, i as int),
        i <= r <= v@.len(),
{
    let n = v.len();
    let mut j: usize = i;
    loop
        invariant
            i <= j <= n,
            n == v@.len(),
            multispace_end(v@, i as int) == multispace_end(v@, j as int),
        ensures
            i <= j <= n,
            multispace_end(v@, i as int) == j as int,
        decreases n - j,
    {
        if j >= n {
            break ;
        }
        if !(v[j] == ' ' || v[j] == '\t' || v[j] == '\r' || v[j] == '\n') {
            break ;
        }
        j = j + 1;
    }
    j
}

pub fn newlines_end_x(v: &Vec<char>, i: usize) -> (r: usize)
    requires
        i <= v@.len(),
    ensures
        r as int == newlines_end(v@, i as int),
        i <= r <= v@.len(),
{
    let n = v.len();
    let mut j: usize = i;
    loop
        invariant
            i <= j <= n,
            n == v@.len(),
            newlines_end(v@, i as int) == newlines_end(v@, j as int),
        ensures
            i <= j <= n,
            newlines_end(v@, i as int) == j as int,
        decreases n - j,
    {
        if j >= n {
            break ;
        }
        if v[j] == '\n' {
            j = j + 1;
        } else if n - j > 1 && v[j] == '\r' && v[j + 1] == '\n' {
            j = j + 2;
        } else {
            break ;
        }
    }
    j
}

pub fn line_feed_at_x(v: &Vec<char>, i: usize) -> (r: usize)
    requires
        i <= v@.len(),
    ensures
        r as int == line_feed_at(v@, i as int),
        i <= r <= v@.len(),
{
    let n = v.len();
    let mut j: usize = i;
    loop
        invariant
            i <= j <= n,
            n == v@.len(),
            line_feed_at(v@, i as int) == line_feed_at(v@, j as int),
        ensures
            i <= j <= n,
            line_feed_at(v@, i as int) == j as int,
        decreases n - j,
    {
        if j >= n {
            break ;
        }
        if v[j] == '\n' {
            break ;
        }
        j = j + 1;
    }
    j
}

pub fn till_sep_x(v: &Vec<char>, i: usize) -> (r: usize)
    requires
        i <= v@.len(),
    ensures
        r as int == till_sep(v@, i as int),
        i <= r <= v@.len(),
{
    let n = v.len();
    let mut j: usize = i;
    loop
        invariant
            i <= j <= n,
            n == v@.len(),
            till_sep(v@, i as int) == till_sep(v@, j as int),
        ensures
            i <= j <= n,
            till_sep(v@, i as int) == j as int,
        decreases n - j,
    {
        if j >= n {
            break ;
        }
        if v[j] == ';' || v[j] == ':' {
            break ;
        }
        j = j + 1;
    }
    j
}

pub fn till_quote_x(v: &Vec<char>, i: usize) -> (r: usize)
    requires
        i <= v@.len(),
    ensures
        r as int == till_quote(v@, i as int),
        i <= r <= v@.len(),
{
    let n = v.len();
    let mut j: usize = i;
    loop
        invariant
            i <= j <= n,
            n == v@.len(),
            till_quote(v@, i as int) == till_quote(v@, j as int),
        ensures
            i <= j <= n,
            till_quote(v@, i as int) == j as int,
        decreases n - j,
    {
        if j >= n {
            break ;
        }
        if v[j] == '"' {
            break ;
        }
        j = j + 1;
    }
    j
}

/// Does the ASCII keyword `kw` match at `v[i..]`, ignoring letter case?
/// `kw` holds upper-case letters and punctuation only.
pub fn ci_match_x(v: &Vec<char>, i: usize, kw: &Vec<char>) -> (r: bool)
    requires
        i <= v@.len(),
    ensures
        r == ci_match(v@, i as int, kw@),
{
    let n = v.len();
    let m = kw.len();
    if n - i < m {
        return false;
    }
    let mut k: usize = 0;
    loop
        invariant
            k <= m,
            i + m <= n,
            n == v@.len(),
            m == kw@.len(),
            forall|t: int| 0 <= t < k ==> ci_eq(v@[i + t], kw@[t]),
        ensures
            k == m,
            forall|t: int| 0 <= t < k ==> ci_eq(v@[i + t], kw@[t]),
        decreases m - k,
    {
        if k >= m {
            break ;
        }
        let c = v[i + k];
        let w = kw[k];
        let ok = c == w || (65 <= w as u32 && w as u32 <= 90 && c as u32 == w as u32 + 32);
        if !ok {
            proof {
                assert(!ci_eq(v@[i + k], kw@[k as int]));
                assert(!ci_match(v@, i as int, kw@)) by {
                    if ci_match(v@, i as int, kw@) {
                        assert(ci_eq(v@[i as int + k as int], kw@[k as int]));
                    }
                }
            }
            return false;
        }
        k = k + 1;
    }
    proof {
        if k == kw@.len() {
            assert forall|t: int| 0 <= t < kw@.len() implies ci_eq(v@[i as int + t], kw@[t]) by {
                assert(ci_eq(v@[i + t], kw@[t]));
            }
        }
    }
    true
}

/// The character vector of the `BEGIN:` keyword.
pub fn begin_kw_x() -> (r: Vec<char>)
    ensures
        r@ == begin_kw(),
{
    let mut v: Vec<char> = Vec::new();
    v.push('B');
    v.push('E');
    v.push('G');
    v.push('I');
    v.push('N');
    v.push(':');
    proof {
        assert(v@ =~= begin_kw());
    }
    v
}

/// The character vector of the `END:` keyword.
pub fn end_kw_x() -> (r: Vec<char>)
    ensures
        r@ == end_kw(),
{
    let mut v: Vec<char> = Vec::new();
    v.push('E');
    v.push('N');
    v.push('D');
    v.push(':');
    proof {
        assert(v@ =~= end_kw());
    }
    v
}

/// Is every character of `v[a..b]` a space or tab?
pub fn all_sp_range(v: &Vec<char>, a: usize, b: usize) -> (r: bool)
    requires
        a <= b <= v@.len(),
    ensures
        r == crate::parser::grammar::all_sp(v@.subrange(a as int, b as int)),
{
    let mut j: usize = a;
    let ghost sub = v@.subrange(a as int, b as int);
    loop
        invariant
            a <= j <= b <= v@.len(),
            sub == v@.subrange(a as int, b as int),
            forall|t: int| 0 <= t < j - a ==> is_sp(sub[t]),
        ensures
            j == b,
            forall|t: int| 0 <= t < j - a ==> is_sp(sub[t]),
        decreases b - j,
    {
        if j >= b {
            break ;
        }
        if !(v[j] == ' ' || v[j] == '\t') {
            proof {
                assert(sub[j - a] == v@[j as int]);
                assert(!is_sp(sub[j - a]));
            }
            return false;
        }
        j = j + 1;
    }
    proof {
        assert forall|t: int| 0 <= t < sub.len() implies is_sp(sub[t]) by {
            assert(0 <= t < j - a);
        }
    }
    true
}

} // verus!

verus! {

/// Exact (case-sensitive) match of `v[a..b]` against `w`.
pub fn range_eq_x(v: &Vec<char>, a: usize, b: usize, w: &Vec<char>) -> (r: bool)
    requires
        a <= b <= v@.len(),
    ensures
        r == (v@.subrange(a as int, b as int) == w@),
{
    let ghost sub = v@.subrange(a as int, b as int);
    if b - a != w.len() {
        proof {
            assert(sub.len() != w@.len());
        }
        return false;
    }
    let m = w.len();
    let mut k: usize = 0;
    loop
        invariant
            k <= m,
            a + m <= v@.len(),
            b - a == m,
            m == w@.len(),
            sub == v@.subrange(a as int, b as int),
            forall|t: int| 0 <= t < k ==> sub[t] == w@[t],
        ensures
            k == m,
            forall|t: int| 0 <= t < k ==> sub[t] == w@[t],
        decreases m - k,
    {
        if k >= m {
            break ;
        }
        if v[a + k] != w[k] {
            proof {
                assert(sub[k as int] == v@[a + k]);
            }
            return false;
        }
        k = k + 1;
    }
    proof {
        assert(sub =~= w@);
    }
    true
}

/// The character vector of the name `BEGIN`.
pub fn name_begin_x() -> (r: Vec<char>)
    ensures
        r@ == crate::parser::grammar::name_begin(),
{
    let mut v: Vec<char> = Vec::new();
    v.push('B');
    v.push('E');
    v.push('G');
    v.push('I');
    v.push('N');
    proof {
        assert(v@ =~= crate::parser::grammar::name_begin());
    }
    v
}

/// The character vector of the name `END`.
pub fn name_end_x() -> (r: Vec<char>)
    ensures
        r@ == crate::parser::grammar::name_end(),
{
    let mut v: Vec<char> = Vec::new();
    v.push('E');
    v.push('N');
    v.push('D');
    proof {
        assert(v@ =~= crate::parser::grammar::name_end());
    }
    v
}

} // verus!
