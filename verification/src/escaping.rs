//! Backslash escape handling for text values. Decoding (`\\ \, \; \: \N
//! \n` to their plain characters) is opt-in, for consumers that interpret
//! a TEXT value; stored values otherwise keep their raw bytes. The one
//! encoding step is the constructors' pre-escaping of raw line feeds,
//! which could not survive on a content line.

use crate::chars::chars_to_string;
use crate::chars::str_chars;
use vstd::prelude::*;

verus! {

/// Decoding: a left-to-right scan; an unrecognized backslash sequence is
/// kept as it stands.
pub open spec fn unescape_spec(s: Seq<char>) -> Seq<char>
    decreases s.len(),
{
    if s.len() == 0 {
        Seq::empty()
    } else if s.len() >= 2 && s[0] == '\\' && (s[1] == '\\' || s[1] == ',' || s[1] == ';' || s[1]
        == ':') {
        seq![s[1]] + unescape_spec(s.skip(2))
    } else if s.len() >= 2 && s[0] == '\\' && (s[1] == 'N' || s[1] == 'n') {
        seq!['\n'] + unescape_spec(s.skip(2))
    } else {
        seq![s[0]] + unescape_spec(s.skip(1))
    }
}

/// The constructors' pre-escaping: each raw line feed becomes the
/// two-character sequence backslash-`n`; every other character is kept.
pub open spec fn escape_newlines_spec(s: Seq<char>) -> Seq<char>
    decreases s.len(),
{
    if s.len() == 0 {
        Seq::empty()
    } else if s[0] == '\n' {
        seq!['\\', 'n'] + escape_newlines_spec(s.skip(1))
    } else {
        seq![s[0]] + escape_newlines_spec(s.skip(1))
    }
}

/// A pre-escaped value holds no raw line feed, so it fits a content line.
pub proof fn lemma_escape_newlines_line_safe(s: Seq<char>)
    ensures
        forall|i: int|
            0 <= i < escape_newlines_spec(s).len() ==> #[trigger] escape_newlines_spec(s)[i]
                != '\n',
        s.len() > 0 && s[0] != '\n' ==> escape_newlines_spec(s)[0] == s[0],
    decreases s.len(),
{
    if s.len() > 0 {
        lemma_escape_newlines_line_safe(s.skip(1));
        let e = escape_newlines_spec(s);
        let tail = escape_newlines_spec(s.skip(1));
        if s[0] == '\n' {
            assert forall|i: int| 0 <= i < e.len() implies #[trigger] e[i] != '\n' by {
                if i >= 2 {
                    assert(e[i] == tail[i - 2]);
                }
            }
        } else {
            assert forall|i: int| 0 <= i < e.len() implies #[trigger] e[i] != '\n' by {
                if i >= 1 {
                    assert(e[i] == tail[i - 1]);
                }
            }
        }
    }
}

/// Decodes the escape sequences of `s`.
pub fn unescape_chars(v: &Vec<char>) -> (r: Vec<char>)
    ensures
        r@ == unescape_spec(v@),
{
    let n = v.len();
    let mut out: Vec<char> = Vec::new();
    let mut i: usize = 0;
    proof {
        assert(v@.skip(0) =~= v@);
    }
    while i < n
        invariant
            i <= n,
            n == v@.len(),
            unescape_spec(v@) == out@ + unescape_spec(v@.skip(i as int)),
        decreases n - i,
    {
        let ghost pre = out@;
        let ghost rest = v@.skip(i as int);
        if n - i > 1 && v[i] == '\\' && (v[i + 1] == '\\' || v[i + 1] == ',' || v[i + 1] == ';' || v[
            i + 1] == ':') {
            let c = v[i + 1];
            out.push(c);
            i = i + 2;
            proof {
                assert(rest.skip(2) =~= v@.skip(i as int));
                assert(out@ + unescape_spec(v@.skip(i as int)) =~= pre + unescape_spec(rest));
            }
        } else if n - i > 1 && v[i] == '\\' && (v[i + 1] == 'N' || v[i + 1] == 'n') {
            out.push('\n');
            i = i + 2;
            proof {
                assert(rest.skip(2) =~= v@.skip(i as int));
                assert(out@ + unescape_spec(v@.skip(i as int)) =~= pre + unescape_spec(rest));
            }
        } else {
            let c = v[i];
            out.push(c);
            i = i + 1;
            proof {
                assert(rest.skip(1) =~= v@.skip(i as int));
                assert(unescape_spec(rest) == seq![rest[0]] + unescape_spec(rest.skip(1)));
                assert(out@ + unescape_spec(v@.skip(i as int)) =~= pre + unescape_spec(rest));
            }
        }
    }
    proof {
        assert(v@.skip(n as int) =~= Seq::<char>::empty());
        assert(out@ =~= unescape_spec(v@));
    }
    out
}

/// Pre-escapes the raw line feeds of a value.
pub fn escape_newlines(s: &str) -> (r: String)
    ensures
        r@ == escape_newlines_spec(s@),
{
    let v = str_chars(s);
    let n = v.len();
    let mut out: Vec<char> = Vec::new();
    let mut i: usize = 0;
    proof {
        assert(v@.skip(0) =~= v@);
    }
    while i < n
        invariant
            i <= n,
            n == v@.len(),
            escape_newlines_spec(v@) == out@ + escape_newlines_spec(v@.skip(i as int)),
        decreases n - i,
    {
        let ghost pre = out@;
        let ghost rest = v@.skip(i as int);
        if v[i] == '\n' {
            out.push('\\');
            out.push('n');
        } else {
            let c = v[i];
            out.push(c);
        }
        i = i + 1;
        proof {
            assert(rest.skip(1) =~= v@.skip(i as int));
            assert(escape_newlines_spec(rest) == if rest[0] == '\n' {
                seq!['\\', 'n'] + escape_newlines_spec(rest.skip(1))
            } else {
                seq![rest[0]] + escape_newlines_spec(rest.skip(1))
            });
            assert(out@ + escape_newlines_spec(v@.skip(i as int)) =~= pre + escape_newlines_spec(
                rest,
            ));
        }
    }
    proof {
        assert(v@.skip(n as int) =~= Seq::<char>::empty());
        assert(out@ =~= escape_newlines_spec(v@));
    }
    chars_to_string(&out)
}

} // verus!
