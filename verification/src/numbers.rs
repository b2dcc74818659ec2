//! Decimal rendering and parsing of unsigned integers.

use crate::chars::chars_to_string;
use crate::chars::str_chars;
use vstd::prelude::*;

verus! {

/// The decimal digit character for `d`.
pub open spec fn dec_digit(d: int) -> char
    recommends
        0 <= d <= 9,
{
    if d == 0 {
        '0'
    } else if d == 1 {
        '1'
    } else if d == 2 {
        '2'
    } else if d == 3 {
        '3'
    } else if d == 4 {
        '4'
    } else if d == 5 {
        '5'
    } else if d == 6 {
        '6'
    } else if d == 7 {
        '7'
    } else if d == 8 {
        '8'
    } else {
        '9'
    }
}

/// The decimal representation of `n`, without sign or leading zeros
/// (zero itself is `0`).
pub open spec fn dec_rep(n: nat) -> Seq<char>
    decreases n,
{
    if n < 10 {
        seq![dec_digit(n as int)]
    } else {
        dec_rep(n / 10) + seq![dec_digit((n % 10) as int)]
    }
}

fn digit_char(d: u64) -> (c: char)
    requires
        d < 10,
    ensures
        c == dec_digit(d as int),
{
    if d == 0 {
        '0'
    } else if d == 1 {
        '1'
    } else if d == 2 {
        '2'
    } else if d == 3 {
        '3'
    } else if d == 4 {
        '4'
    } else if d == 5 {
        '5'
    } else if d == 6 {
        '6'
    } else if d == 7 {
        '7'
    } else if d == 8 {
        '8'
    } else {
        '9'
    }
}

/// Appends the decimal representation of `x` to `out`.
pub fn push_dec(out: &mut Vec<char>, x: u64)
    ensures
        final(out)@ == old(out)@ + dec_rep(x as nat),
    decreases x,
{
    if x < 10 {
        let c = digit_char(x);
        out.push(c);
        proof {
            assert(final(out)@ =~= old(out)@ + dec_rep(x as nat));
        }
    } else {
        push_dec(out, x / 10);
        let c = digit_char(x % 10);
        out.push(c);
        proof {
            assert((old(out)@ + dec_rep((x / 10) as nat)) + seq![dec_digit((x % 10) as int)] =~= old(
                out,
            )@ + (dec_rep((x / 10) as nat) + seq![dec_digit((x % 10) as int)]));
        }
    }
}

/// The decimal representation of `x`.
pub fn u64_to_string(x: u64) -> (r: String)
    ensures
        r@ == dec_rep(x as nat),
{
    let mut out: Vec<char> = Vec::new();
    push_dec(&mut out, x);
    chars_to_string(&out)
}

/// The decimal representation of `x`.
pub fn u32_to_string(x: u32) -> (r: String)
    ensures
        r@ == dec_rep(x as nat),
{
    u64_to_string(x as u64)
}

/// The decimal representation of `x`.
pub fn usize_to_string(x: usize) -> (r: String)
    ensures
        r@ == dec_rep(x as nat),
{
    u64_to_string(x as u64)
}

/// An ASCII decimal digit.
pub open spec fn is_digit(c: char) -> bool {
    48 <= c as u32 <= 57
}

pub open spec fn digit_val(c: char) -> int {
    c as u32 - 48
}

/// The number written by a digit string (most significant first).
pub open spec fn digits_val(s: Seq<char>) -> int
    decreases s.len(),
{
    if s.len() == 0 {
        0
    } else {
        digits_val(s.take(s.len() - 1)) * 10 + digit_val(s[s.len() - 1])
    }
}

pub open spec fn all_digits(s: Seq<char>) -> bool {
    forall|i: int| 0 <= i < s.len() ==> is_digit(s[i])
}

pub proof fn lemma_digits_val_nonneg(s: Seq<char>)
    requires
        all_digits(s),
    ensures
        digits_val(s) >= 0,
    decreases s.len(),
{
    if s.len() > 0 {
        assert(all_digits(s.take(s.len() - 1))) by {
            assert(forall|i: int|
                0 <= i < s.len() - 1 ==> s.take(s.len() - 1)[i] == s[i] && is_digit(s[i]));
        }
        lemma_digits_val_nonneg(s.take(s.len() - 1));
    }
}

/// What `u32::from_str` accepts: an optional plus sign, then at least one
/// digit, with the value in range.
pub open spec fn parse_u32_spec(s: Seq<char>) -> Option<u32> {
    let body = if s.len() > 0 && s[0] == '+' {
        s.skip(1)
    } else {
        s
    };
    if body.len() > 0 && all_digits(body) && digits_val(body) <= u32::MAX {
        Some(digits_val(body) as u32)
    } else {
        None
    }
}

/// Parses an unsigned decimal number: optional plus sign, digits only,
/// rejecting the empty body, stray characters and overflow.
pub fn parse_u32(s: &str) -> (r: Option<u32>)
    ensures
        r == parse_u32_spec(s@),
{
    let v = str_chars(s);
    let n = v.len();
    let start: usize = if n > 0 && v[0] == '+' {
        1
    } else {
        0
    };
    let ghost body = if s@.len() > 0 && s@[0] == '+' {
        s@.skip(1)
    } else {
        s@
    };
    proof {
        assert(body =~= v@.subrange(start as int, n as int));
    }
    if start == n {
        return None;
    }
    let mut acc: u64 = 0;
    let mut i: usize = start;
    loop
        invariant
            start <= i <= n,
            n == v@.len(),
            v@ == s@,
            body == v@.subrange(start as int, n as int),
            body == if s@.len() > 0 && s@[0] == '+' {
                s@.skip(1)
            } else {
                s@
            },
            start == if s@.len() > 0 && s@[0] == '+' {
                1int
            } else {
                0int
            },
            body.len() > 0,
            acc <= u32::MAX,
            acc as int == digits_val(body.take(i - start)),
            all_digits(body.take(i - start)),
        ensures
            i == n,
            acc <= u32::MAX,
            acc as int == digits_val(body),
            all_digits(body),
        decreases n - i,
    {
        if i >= n {
            proof {
                assert(body.take(i - start) =~= body);
            }
            break ;
        }
        let c = v[i];
        let u = c as u32;
        if !(48 <= u && u <= 57) {
            proof {
                assert(body[i - start] == v@[i as int]);
                assert(!is_digit(body[i - start]));
                assert(!all_digits(body));
            }
            return None;
        }
        let d = (u - 48) as u64;
        let next = acc * 10 + d;
        proof {
            assert(body.take(i + 1 - start) =~= body.take(i - start) + seq![body[i - start]]);
            assert(body.take(i + 1 - start).take(i - start) =~= body.take(i - start));
            assert(body[i - start] == v@[i as int]);
            assert(digits_val(body.take(i + 1 - start)) == digits_val(body.take(i - start)) * 10
                + digit_val(body[i - start]));
        }
        if next > 0xffff_ffff {
            // the value has already left the 32-bit range; more digits
            // only grow it
            proof {
                let k = i + 1 - start;
                assert(all_digits(body.take(k as int))) by {
                    assert(forall|t: int|
                        0 <= t < k - 1 ==> body.take(k as int)[t] == body.take(k - 1 as int)[t]);
                    assert(body.take(k as int)[k - 1] == body[i - start]);
                }
                assert(digits_val(body.take(k as int)) == next);
                lemma_digits_more_digits_grow(body, k as int);
            }
            return None;
        }
        acc = next;
        i = i + 1;
    }
    Some(acc as u32)
}

/// Once a digit prefix exceeds `u32::MAX`, the whole digit string does.
proof fn lemma_digits_more_digits_grow(s: Seq<char>, k: int)
    requires
        0 < k <= s.len(),
        all_digits(s.take(k)),
        digits_val(s.take(k)) > u32::MAX,
    ensures
        all_digits(s) ==> digits_val(s) > u32::MAX,
    decreases s.len() - k,
{
    if k == s.len() {
        assert(s.take(k) =~= s);
    } else {
        if all_digits(s) {
            assert(all_digits(s.take(k + 1))) by {
                assert(forall|i: int| 0 <= i < k + 1 ==> s.take(k + 1)[i] == s[i] && is_digit(s[i]));
            }
            assert(s.take(k + 1).take(k) =~= s.take(k));
            assert(digits_val(s.take(k + 1)) == digits_val(s.take(k)) * 10 + digit_val(
                s.take(k + 1)[k],
            ));
            assert(digits_val(s.take(k)) * 10 > u32::MAX * 10) by (nonlinear_arith)
                requires
                    digits_val(s.take(k)) > u32::MAX,
            ;
            lemma_digits_more_digits_grow(s, k + 1);
        }
    }
}

} // verus!
