//! Character and string primitives shared by the parser and serializer:
//! conversion between `&str` and `Vec<char>`, UTF-8 byte widths, and the
//! Unicode character classes the grammar depends on.

use vstd::prelude::*;
use vstd::string::StrSliceExecFns;

verus! {

/// Number of bytes the UTF-8 encoding of `c` occupies.
pub open spec fn utf8_len_spec(c: char) -> int {
    if (c as u32) < 0x80 {
        1
    } else if (c as u32) < 0x800 {
        2
    } else if (c as u32) < 0x10000 {
        3
    } else {
        4
    }
}

/// Total UTF-8 byte length of a character sequence.
pub open spec fn seq_utf8_len(s: Seq<char>) -> int
    decreases s.len(),
{
    if s.len() == 0 {
        0
    } else {
        utf8_len_spec(s[0]) + seq_utf8_len(s.skip(1))
    }
}

pub proof fn lemma_seq_utf8_len_nonneg(s: Seq<char>)
    ensures
        seq_utf8_len(s) >= 0,
        s.len() > 0 ==> seq_utf8_len(s) >= 1,
    decreases s.len(),
{
    if s.len() > 0 {
        lemma_seq_utf8_len_nonneg(s.skip(1));
    }
}

pub fn utf8_len(c: char) -> (n: usize)
    ensures
        n as int == utf8_len_spec(c),
        1 <= n <= 4,
{
    let u = c as u32;
    if u < 0x80 {
        1
    } else if u < 0x800 {
        2
    } else if u < 0x10000 {
        3
    } else {
        4
    }
}

/// The characters of `s`, in order, as a vector.
pub fn str_chars(s: &str) -> (v: Vec<char>)
    ensures
        v@ == s@,
{
    let n = s.unicode_len();
    let mut v: Vec<char> = Vec::new();
    let mut i: usize = 0;
    while i < n
        invariant
            i <= n,
            n == s@.len(),
            v@ == s@.take(i as int),
        decreases n - i,
    {
        let c = s.get_char(i);
        v.push(c);
        i = i + 1;
        proof {
            assert(v@ =~= s@.take(i as int));
        }
    }
    proof {
        assert(s@.take(n as int) =~= s@);
    }
    v
}

/// Relies on `String`'s `FromIterator<char>`: collecting the characters of
/// `v` in order yields a string whose characters are exactly `v`.
#[verifier::external_body]
pub fn chars_to_string(v: &Vec<char>) -> (s: String)
    ensures
        s@ == v@,
{
    v.iter().collect()
}

/// Appends `v[a..b]` to `out`.
pub fn push_range(out: &mut Vec<char>, v: &Vec<char>, a: usize, b: usize)
    requires
        a <= b <= v@.len(),
    ensures
        final(out)@ == old(out)@ + v@.subrange(a as int, b as int),
{
    let mut i: usize = a;
    while i < b
        invariant
            a <= i <= b <= v@.len(),
            out@ == old(out)@ + v@.subrange(a as int, i as int),
        decreases b - i,
    {
        let c = v[i];
        out.push(c);
        i = i + 1;
        proof {
            assert(out@ =~= old(out)@ + v@.subrange(a as int, i as int));
        }
    }
}

/// The substring `v[a..b]` as an owned `String`.
pub fn range_string(v: &Vec<char>, a: usize, b: usize) -> (s: String)
    requires
        a <= b <= v@.len(),
    ensures
        s@ == v@.subrange(a as int, b as int),
{
    let mut t: Vec<char> = Vec::new();
    push_range(&mut t, v, a, b);
    chars_to_string(&t)
}

/// What `char::is_whitespace` returns: the Unicode `White_Space` property.
pub uninterp spec fn unicode_whitespace(c: char) -> bool;

/// Relies on `char::is_whitespace`: a pure character classification whose
/// result depends on the character alone.
#[verifier::external_body]
pub fn char_is_whitespace(c: char) -> (r: bool)
    ensures
        r == unicode_whitespace(c),
{
    c.is_whitespace()
}

/// What `char::is_alphanumeric` returns: Unicode alphabetic or numeric.
pub uninterp spec fn unicode_alphanumeric(c: char) -> bool;

/// An ASCII letter or digit.
pub open spec fn ascii_alphanumeric(c: char) -> bool {
    (97 <= c as u32 && c as u32 <= 122) || (65 <= c as u32 && c as u32 <= 90) || (48 <= c as u32
        && c as u32 <= 57)
}

/// Is `c` an ASCII letter or digit?
pub fn ascii_alphanumeric_x(c: char) -> (r: bool)
    ensures
        r == ascii_alphanumeric(c),
{
    let u = c as u32;
    (97 <= u && u <= 122) || (65 <= u && u <= 90) || (48 <= u && u <= 57)
}

/// Relies on `char::is_alphanumeric`: a pure character classification
/// (Unicode `Alphabetic` or a numeric category). On the ASCII range its
/// documentation pins the result to ASCII letters and digits exactly.
#[verifier::external_body]
pub fn char_is_alphanumeric(c: char) -> (r: bool)
    ensures
        r == unicode_alphanumeric(c),
        (c as u32) < 128 ==> (r <==> ascii_alphanumeric(c)),
{
    c.is_alphanumeric()
}

/// Relies on `char::is_lowercase`: a pure character classification
/// (Unicode `Lowercase`). On the ASCII range its documentation pins the
/// result to the letters `a`-`z` exactly.
#[verifier::external_body]
pub fn char_is_lowercase(c: char) -> (r: bool)
    ensures
        r == unicode_lowercase(c),
        (c as u32) < 128 ==> (r <==> (97 <= c as u32 && c as u32 <= 122)),
{
    c.is_lowercase()
}

/// What `char::is_lowercase` returns: the Unicode `Lowercase` property.
pub uninterp spec fn unicode_lowercase(c: char) -> bool;

} // verus!

verus! {

/// Appends the characters of `s` to `out`.
pub fn push_str_chars(out: &mut Vec<char>, s: &str)
    ensures
        final(out)@ == old(out)@ + s@,
{
    let v = str_chars(s);
    let n = v.len();
    push_range(out, &v, 0, n);
    proof {
        assert(old(out)@ + v@.subrange(0, n as int) =~= old(out)@ + s@);
    }
}

} // verus!
