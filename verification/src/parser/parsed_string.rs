//! An owned string produced by the parser.

use crate::chars::chars_to_string;
use crate::chars::str_chars;
use crate::escaping::unescape_chars;
use crate::escaping::unescape_spec;
use vstd::prelude::*;
use vstd::string::StringExecFns;

verus! {

/// A string parsed from an iCalendar input.
#[derive(Debug, Clone, PartialEq, Eq)]
pub struct ParseString {
    text: String,
}

impl View for ParseString {
    type V = Seq<char>;

    closed spec fn view(&self) -> Seq<char> {
        self.text@
    }
}

impl ParseString {
    /// Wraps an owned string.
    pub fn from_string(text: String) -> (r: ParseString)
        ensures
            r@ == text@,
    {
        ParseString { text }
    }

    /// Copies a borrowed string.
    pub fn from_str(text: &str) -> (r: ParseString)
        ensures
            r@ == text@,
    {
        ParseString { text: String::from_str(text) }
    }

    /// An owned copy.
    pub fn to_owned(&self) -> (r: ParseString)
        ensures
            r@ == self@,
    {
        ParseString { text: self.text.clone() }
    }

    /// Takes ownership; the value already owns its text.
    pub fn into_owned(self) -> (r: ParseString)
        ensures
            r@ == self@,
    {
        self
    }

    /// The text as a string slice.
    pub fn as_str(&self) -> (r: &str)
        ensures
            r@ == self@,
    {
        self.text.as_str()
    }

    /// Decodes the backslash escape sequences `\\ \, \; \: \N \n`.
    pub fn unescape_text(self) -> (r: ParseString)
        ensures
            r@ == unescape_spec(self@),
    {
        let v = str_chars(self.text.as_str());
        let u = unescape_chars(&v);
        ParseString { text: chars_to_string(&u) }
    }

    /// Character-for-character equality with a string slice.
    pub fn eq_str(&self, other: &str) -> (r: bool)
        ensures
            r == (self@ == other@),
    {
        str_eq_str(self.text.as_str(), other)
    }
}

/// Character-for-character equality of two string slices.
pub fn str_eq_str(a: &str, b: &str) -> (r: bool)
    ensures
        r == (a@ == b@),
{
    let va = str_chars(a);
    let vb = str_chars(b);
    if va.len() != vb.len() {
        proof {
            assert(a@ != b@);
        }
        return false;
    }
    let n = va.len();
    let mut i: usize = 0;
    loop
        invariant
            i <= n,
            n == va@.len() == vb@.len(),
            va@ == a@,
            vb@ == b@,
            forall|t: int| 0 <= t < i ==> va@[t] == vb@[t],
        ensures
            i == n,
            forall|t: int| 0 <= t < i ==> va@[t] == vb@[t],
        decreases n - i,
    {
        if i >= n {
            break ;
        }
        if va[i] != vb[i] {
            proof {
                assert(a@[i as int] != b@[i as int]);
            }
            return false;
        }
        i = i + 1;
    }
    proof {
        assert(a@ =~= b@);
    }
    true
}

} // verus!
