//! RFC 5545 line folding and unfolding.
//!
//! A long content line may be *folded* by inserting a CRLF followed by a
//! single space; *unfolding* removes every line-terminator-plus-single
//!-whitespace sequence. Folding counts octets (75 per physical line) and
//! never splits inside a multi-byte UTF-8 character.

use crate::chars::char_is_whitespace;
use crate::chars::push_range;
use crate::chars::chars_to_string;
use crate::chars::lemma_seq_utf8_len_nonneg;
use crate::chars::seq_utf8_len;
use crate::chars::str_chars;
use crate::chars::unicode_whitespace;
use crate::chars::utf8_len;
use crate::chars::utf8_len_spec;
use vstd::prelude::*;

verus! {

/// A continuation character: the single whitespace that follows a fold's
/// line terminator.
pub open spec fn is_cont_ws(c: char) -> bool {
    c == ' ' || c == '\t'
}

/// A fold sequence starts at index `i` of `s`: a line terminator
/// (CRLF or bare LF) immediately followed by one continuation whitespace.
pub open spec fn fold_seq_at(s: Seq<char>, i: int) -> bool {
    ||| (i + 2 < s.len() && s[i] == '\r' && s[i + 1] == '\n' && is_cont_ws(s[i + 2]))
    ||| (i + 1 < s.len() && s[i] == '\n' && is_cont_ws(s[i + 1]))
}

/// No fold sequence occurs anywhere in `s`.
pub open spec fn is_fold_free(s: Seq<char>) -> bool {
    forall|i: int| 0 <= i < s.len() ==> !fold_seq_at(s, i)
}

/// Unfolding: a single left-to-right scan that removes each fold sequence
/// (CRLF + one whitespace, or LF + one whitespace) and copies every other
/// character.
pub open spec fn unfold_spec(s: Seq<char>) -> Seq<char>
    decreases s.len(),
{
    if s.len() == 0 {
        Seq::empty()
    } else if s.len() >= 3 && s[0] == '\r' && s[1] == '\n' && is_cont_ws(s[2]) {
        unfold_spec(s.skip(3))
    } else if s.len() >= 2 && s[0] == '\n' && is_cont_ws(s[1]) {
        unfold_spec(s.skip(2))
    } else {
        seq![s[0]] + unfold_spec(s.skip(1))
    }
}

/// Normalize content lines.
///
/// This simplifies line endings and unfolds breaks to simplify parsing.
/// The format specifies that content may be folded to fit into a certain
/// length, which must be undone before parsing.
///
/// This is a copying operation.
pub fn unfold(input: &str) -> (r: String)
    ensures
        r@ == unfold_spec(input@),
{
    let v = str_chars(input);
    let n = v.len();
    let mut out: Vec<char> = Vec::new();
    let mut i: usize = 0;
    proof {
        assert(v@.skip(0) =~= v@);
    }
    while i < n
        invariant
            i <= n,
            n == v@.len(),
            unfold_spec(v@) == out@ + unfold_spec(v@.skip(i as int)),
        decreases n - i,
    {
        let ghost pre = out@;
        let ghost rest = v@.skip(i as int);
        if n - i > 2 && v[i] == '\r' && v[i + 1] == '\n' && (v[i + 2] == ' ' || v[i + 2] == '\t') {
            i = i + 3;
            proof {
                assert(rest.skip(3) =~= v@.skip(i as int));
            }
        } else if n - i > 1 && v[i] == '\n' && (v[i + 1] == ' ' || v[i + 1] == '\t') {
            i = i + 2;
            proof {
                assert(rest.skip(2) =~= v@.skip(i as int));
            }
        } else {
            let c = v[i];
            out.push(c);
            i = i + 1;
            proof {
                assert(rest.skip(1) =~= v@.skip(i as int));
                assert(rest != Seq::<char>::empty());
                assert(unfold_spec(rest) == seq![rest[0]] + unfold_spec(rest.skip(1)));
                assert(out@ + unfold_spec(v@.skip(i as int)) =~= pre + unfold_spec(rest));
            }
        }
    }
    proof {
        assert(v@.skip(n as int) =~= Seq::<char>::empty());
        assert(out@ =~= unfold_spec(v@));
    }
    chars_to_string(&out)
}

/// Collapsing line-ending variants: each CRLF becomes a bare LF, in a
/// single left-to-right scan.
pub open spec fn simplify_spec(s: Seq<char>) -> Seq<char>
    decreases s.len(),
{
    if s.len() == 0 {
        Seq::empty()
    } else if s.len() >= 2 && s[0] == '\r' && s[1] == '\n' {
        seq!['\n'] + simplify_spec(s.skip(2))
    } else {
        seq![s[0]] + simplify_spec(s.skip(1))
    }
}

/// Replaces every CRLF line ending with a bare LF.
pub fn simplify_line_endings(input: &str) -> (r: String)
    ensures
        r@ == simplify_spec(input@),
{
    let v = str_chars(input);
    let n = v.len();
    let mut out: Vec<char> = Vec::new();
    let mut i: usize = 0;
    proof {
        assert(v@.skip(0) =~= v@);
    }
    while i < n
        invariant
            i <= n,
            n == v@.len(),
            simplify_spec(v@) == out@ + simplify_spec(v@.skip(i as int)),
        decreases n - i,
    {
        let ghost pre = out@;
        let ghost rest = v@.skip(i as int);
        if n - i > 1 && v[i] == '\r' && v[i + 1] == '\n' {
            out.push('\n');
            i = i + 2;
            proof {
                assert(rest.skip(2) =~= v@.skip(i as int));
                assert(out@ + simplify_spec(v@.skip(i as int)) =~= pre + simplify_spec(rest));
            }
        } else {
            let c = v[i];
            out.push(c);
            i = i + 1;
            proof {
                assert(rest.skip(1) =~= v@.skip(i as int));
                assert(simplify_spec(rest) == seq![rest[0]] + simplify_spec(rest.skip(1)));
                assert(out@ + simplify_spec(v@.skip(i as int)) =~= pre + simplify_spec(rest));
            }
        }
    }
    proof {
        assert(v@.skip(n as int) =~= Seq::<char>::empty());
        assert(out@ =~= simplify_spec(v@));
    }
    chars_to_string(&out)
}

/// Normalize content lines: collapse line-ending variants, then unfold.
pub fn normalize(input: &str) -> (r: String)
    ensures
        r@ == unfold_spec(simplify_spec(input@)),
{
    let simplified = simplify_line_endings(input);
    unfold(simplified.as_str())
}

} // verus!

verus! {

/// The three characters a fold inserts: CRLF and one space.
pub open spec fn crlf_sp() -> Seq<char> {
    seq!['\r', '\n', ' ']
}

/// How many leading characters of `s` fit within `budget` octets.
pub open spec fn take_budget(s: Seq<char>, budget: int) -> int
    decreases s.len(),
{
    if s.len() == 0 || utf8_len_spec(s[0]) > budget {
        0
    } else {
        1 + take_budget(s.skip(1), budget - utf8_len_spec(s[0]))
    }
}

pub proof fn lemma_seq_utf8_len_concat(a: Seq<char>, b: Seq<char>)
    ensures
        seq_utf8_len(a + b) == seq_utf8_len(a) + seq_utf8_len(b),
    decreases a.len(),
{
    if a.len() == 0 {
        assert(a + b =~= b);
    } else {
        assert((a + b).skip(1) =~= a.skip(1) + b);
        lemma_seq_utf8_len_concat(a.skip(1), b);
    }
}

pub proof fn lemma_seq_utf8_len_le(s: Seq<char>)
    ensures
        seq_utf8_len(s) <= 4 * s.len(),
        seq_utf8_len(s) >= s.len(),
    decreases s.len(),
{
    if s.len() > 0 {
        lemma_seq_utf8_len_le(s.skip(1));
    }
}

pub proof fn lemma_seq_utf8_len_singleton(c: char)
    ensures
        seq_utf8_len(seq![c]) == utf8_len_spec(c),
{
    assert(seq![c].skip(1) =~= Seq::<char>::empty());
    assert(seq_utf8_len(seq![c]) == utf8_len_spec(c) + seq_utf8_len(seq![c].skip(1)));
}

pub proof fn lemma_take_budget_bounds(s: Seq<char>, budget: int)
    requires
        budget >= 0,
    ensures
        0 <= take_budget(s, budget) <= s.len(),
        seq_utf8_len(s.take(take_budget(s, budget))) <= budget,
        take_budget(s, budget) < s.len() ==> seq_utf8_len(s) > budget,
        take_budget(s, budget) == s.len() ==> seq_utf8_len(s) <= budget,
        s.len() >= 1 && budget >= 4 ==> take_budget(s, budget) >= 1,
        s.len() >= 2 && budget >= 8 ==> take_budget(s, budget) >= 2,
    decreases s.len(),
{
    if s.len() == 0 || utf8_len_spec(s[0]) > budget {
        assert(s.take(0) =~= Seq::<char>::empty());
        if s.len() > 0 {
            // the first character alone is wider than the budget
            assert(s =~= seq![s[0]] + s.skip(1));
            lemma_seq_utf8_len_concat(seq![s[0]], s.skip(1));
            lemma_seq_utf8_len_nonneg(s.skip(1));
            lemma_seq_utf8_len_singleton(s[0]);
        }
    } else {
        let m1 = take_budget(s.skip(1), budget - utf8_len_spec(s[0]));
        lemma_take_budget_bounds(s.skip(1), budget - utf8_len_spec(s[0]));
        assert(s.take(1 + m1) =~= seq![s[0]] + s.skip(1).take(m1));
        lemma_seq_utf8_len_concat(seq![s[0]], s.skip(1).take(m1));
        lemma_seq_utf8_len_singleton(s[0]);
        if 1 + m1 == s.len() {
            assert(s.take(1 + m1) =~= s);
        }
        if 1 + m1 < s.len() {
            assert(s =~= seq![s[0]] + s.skip(1));
            lemma_seq_utf8_len_concat(seq![s[0]], s.skip(1));
        }
        if s.len() >= 2 && budget >= 8 {
            // the second character also fits: it is at most 4 octets wide
            assert(m1 >= 1);
        }
    }
}

/// Where a fold breaks an over-long physical line: at the last character
/// boundary within the line's octet budget, backed off by one position
/// when the following character is whitespace.
pub open spec fn fold_break(s: Seq<char>, budget: int) -> int {
    let m = take_budget(s, budget);
    if m < s.len() && unicode_whitespace(s[m]) {
        m - 1
    } else {
        m
    }
}

pub proof fn lemma_fold_break_bounds(s: Seq<char>, budget: int)
    requires
        budget >= 8,
        seq_utf8_len(s) > budget,
    ensures
        1 <= fold_break(s, budget) < s.len(),
        seq_utf8_len(s.take(fold_break(s, budget))) <= budget,
{
    lemma_seq_utf8_len_le(s);
    lemma_take_budget_bounds(s, budget);
    let m = take_budget(s, budget);
    if m == s.len() {
        assert(s.take(m) =~= s);
    }
    assert(m < s.len());
    assert(m >= 2);
    if fold_break(s, budget) == m - 1 {
        assert(s.take(m - 1) =~= s.take(m).take(m - 1));
        assert(s.take(m) =~= s.take(m).take(m - 1) + seq![s.take(m)[m - 1]]);
        lemma_seq_utf8_len_concat(s.take(m).take(m - 1), seq![s.take(m)[m - 1]]);
        lemma_seq_utf8_len_nonneg(seq![s.take(m)[m - 1]]);
    }
}

/// Folding with a given budget for the current physical line: text that
/// fits stays as it is; otherwise a break is inserted and the remainder
/// continues with a budget of 74, since the continuation's leading space
/// occupies one of its 75 octets.
pub open spec fn fold_spec_at(s: Seq<char>, budget: int) -> Seq<char>
    decreases s.len(),
    via fold_spec_at_dec
{
    if budget < 8 || seq_utf8_len(s) <= budget {
        s
    } else {
        s.take(fold_break(s, budget)) + crlf_sp() + fold_spec_at(s.skip(fold_break(s, budget)), 74)
    }
}

#[via_fn]
proof fn fold_spec_at_dec(s: Seq<char>, budget: int) {
    if budget >= 8 && seq_utf8_len(s) > budget {
        lemma_fold_break_bounds(s, budget);
    }
}

/// Folding a whole content line: the first physical line holds 75 octets,
/// each continuation holds its leading space plus 74 more.
pub open spec fn fold_spec(s: Seq<char>) -> Seq<char> {
    fold_spec_at(s, 75)
}

/// Fold a content line: inserts a CRLF-plus-one-space break whenever more
/// than 75 octets remain, never inside a multi-byte character, backing off
/// one position when the character after the break is whitespace.
pub fn fold_line(line: &str) -> (r: String)
    ensures
        r@ == fold_spec(line@),
{
    let v = str_chars(line);
    let folded = fold_chars(&v);
    chars_to_string(&folded)
}

/// `fold_line` on a character vector.
pub fn fold_chars(v: &Vec<char>) -> (r: Vec<char>)
    ensures
        r@ == fold_spec(v@),
{
    let n = v.len();
    let mut out: Vec<char> = Vec::new();
    let mut pos: usize = 0;
    let mut limit: usize = 75;
    proof {
        assert(v@.skip(0) =~= v@);
    }
    while pos < n
        invariant
            pos <= n,
            n == v@.len(),
            limit == 75 || limit == 74,
            fold_spec(v@) == out@ + fold_spec_at(v@.skip(pos as int), limit as int),
        decreases n - pos,
    {
        let ghost glimit = limit as int;
        let ghost rest = v@.skip(pos as int);
        // count how many characters fit in this physical line's budget
        let mut j: usize = pos;
        let mut budget: usize = limit;
        proof {
            assert(v@.skip(pos as int).skip(0) =~= v@.skip(pos as int));
            assert(v@.subrange(pos as int, pos as int) =~= Seq::<char>::empty());
        }
        loop
            invariant
                pos <= j <= n,
                n == v@.len(),
                budget <= glimit,
                glimit == 75 || glimit == 74,
                take_budget(rest, glimit) == (j - pos) + take_budget(
                    v@.skip(j as int),
                    budget as int,
                ),
                seq_utf8_len(v@.subrange(pos as int, j as int)) == glimit - budget,
                rest == v@.skip(pos as int),
            ensures
                pos <= j <= n,
                budget <= glimit,
                take_budget(rest, glimit) == j - pos,
                seq_utf8_len(v@.subrange(pos as int, j as int)) == glimit - budget,
                j == n || utf8_len_spec(v@[j as int]) > budget,
            decreases n - j,
        {
            if j >= n {
                break ;
            }
            let w = utf8_len(v[j]);
            if w > budget {
                break ;
            }
            proof {
                let sk = v@.skip(j as int);
                assert(sk[0] == v@[j as int]);
                assert(sk.skip(1) =~= v@.skip(j as int + 1));
                assert(take_budget(sk, budget as int) == 1 + take_budget(
                    v@.skip(j as int + 1),
                    budget - w,
                ));
                assert(v@.subrange(pos as int, j as int + 1) =~= v@.subrange(
                    pos as int,
                    j as int,
                ) + seq![v@[j as int]]);
                lemma_seq_utf8_len_concat(v@.subrange(pos as int, j as int), seq![v@[j as int]]);
                lemma_seq_utf8_len_singleton(v@[j as int]);
            }
            budget = budget - w;
            j = j + 1;
        }
        if j == n {
            // everything left fits on one physical line
            proof {
                assert(v@.subrange(pos as int, n as int) =~= rest);
                assert(seq_utf8_len(rest) <= glimit);
            }
            push_range(&mut out, &v, pos, n);
            proof {
                assert(v@.subrange(pos as int, n as int) =~= rest);
                assert(fold_spec_at(rest, glimit) == rest);
                assert(v@.skip(n as int) =~= Seq::<char>::empty());
            }
            pos = n;
        } else {
            proof {
                lemma_take_budget_bounds(rest, glimit);
                assert(rest.skip((j - pos) as int) =~= v@.skip(j as int));
                assert(rest[(j - pos) as int] == v@[j as int]);
                // the rest is over budget: the scan stopped early
                assert(seq_utf8_len(rest) > glimit) by {
                    assert(rest =~= v@.subrange(pos as int, j as int) + v@.skip(j as int));
                    lemma_seq_utf8_len_concat(
                        v@.subrange(pos as int, j as int),
                        v@.skip(j as int),
                    );
                    let sk = v@.skip(j as int);
                    assert(sk =~= seq![v@[j as int]] + v@.skip(j as int + 1));
                    lemma_seq_utf8_len_concat(seq![v@[j as int]], v@.skip(j as int + 1));
                    lemma_seq_utf8_len_nonneg(v@.skip(j as int + 1));
                    lemma_seq_utf8_len_singleton(v@[j as int]);
                }
                lemma_fold_break_bounds(rest, glimit);
            }
            let m = j - pos;
            let b = if char_is_whitespace(v[j]) {
                m - 1
            } else {
                m
            };
            proof {
                assert(b as int == fold_break(rest, glimit));
            }
            push_range(&mut out, &v, pos, pos + b);
            out.push('\r');
            out.push('\n');
            out.push(' ');
            proof {
                assert(v@.subrange(pos as int, pos as int + b as int) =~= rest.take(b as int));
                assert(rest.skip(b as int) =~= v@.skip((pos + b) as int));
                assert(fold_spec_at(rest, glimit) == rest.take(b as int) + crlf_sp() + fold_spec_at(
                    v@.skip((pos + b) as int),
                    74,
                ));
                assert(out@ + fold_spec_at(v@.skip((pos + b) as int), 74) =~= (fold_spec(v@)));
            }
            pos = pos + b;
            limit = 74;
        }
    }
    proof {
        assert(v@.skip(n as int) =~= Seq::<char>::empty());
        assert(out@ =~= fold_spec(v@));
    }
    out
}

} // verus!

verus! {

pub proof fn lemma_fold_free_subrange(s: Seq<char>, a: int, b: int)
    requires
        is_fold_free(s),
        0 <= a <= b <= s.len(),
    ensures
        is_fold_free(s.subrange(a, b)),
{
    let sub = s.subrange(a, b);
    assert forall|i: int| 0 <= i < sub.len() implies !fold_seq_at(sub, i) by {
        assert(!fold_seq_at(s, i + a));
    }
}

/// A fold-free text is left unchanged by unfolding.
pub proof fn lemma_unfold_fold_free_id(s: Seq<char>)
    requires
        is_fold_free(s),
    ensures
        unfold_spec(s) == s,
    decreases s.len(),
{
    if s.len() > 0 {
        assert(!fold_seq_at(s, 0));
        assert(s.skip(1) =~= s.subrange(1, s.len() as int));
        lemma_fold_free_subrange(s, 1, s.len() as int);
        lemma_unfold_fold_free_id(s.skip(1));
        assert(seq![s[0]] + s.skip(1) =~= s);
    }
}

/// Unfolding never grows a text, and strictly shrinks one that holds a
/// fold sequence.
pub proof fn lemma_unfold_len(s: Seq<char>)
    ensures
        unfold_spec(s).len() <= s.len(),
        !is_fold_free(s) ==> unfold_spec(s).len() < s.len(),
    decreases s.len(),
{
    if s.len() == 0 {
    } else if s.len() >= 3 && s[0] == '\r' && s[1] == '\n' && is_cont_ws(s[2]) {
        lemma_unfold_len(s.skip(3));
    } else if s.len() >= 2 && s[0] == '\n' && is_cont_ws(s[1]) {
        lemma_unfold_len(s.skip(2));
    } else {
        lemma_unfold_len(s.skip(1));
        if !is_fold_free(s) {
            let i = choose|i: int| 0 <= i < s.len() && fold_seq_at(s, i);
            assert(!fold_seq_at(s, 0));
            assert(fold_seq_at(s.skip(1), i - 1));
            assert(!is_fold_free(s.skip(1)));
        }
    }
}

/// Unfolding is the identity exactly on fold-free texts.
pub proof fn lemma_unfold_fixed_point(s: Seq<char>)
    ensures
        unfold_spec(s) == s <==> is_fold_free(s),
{
    if is_fold_free(s) {
        lemma_unfold_fold_free_id(s);
    } else {
        lemma_unfold_len(s);
    }
}

/// Unfolding a text of all inputs is idempotent precisely when the first
/// pass leaves no fold sequence behind; this holds in particular for any
/// folded fold-free line.
pub proof fn lemma_unfold_idempotent(s: Seq<char>)
    requires
        is_fold_free(unfold_spec(s)),
    ensures
        unfold_spec(unfold_spec(s)) == unfold_spec(s),
{
    lemma_unfold_fold_free_id(unfold_spec(s));
}

/// Unfolding removes an inserted break cleanly: with a fold-free chunk `c`
/// before the break, the chunk is copied and the break removed, whatever
/// follows.
pub proof fn lemma_unfold_concat(c: Seq<char>, t: Seq<char>)
    requires
        is_fold_free(c),
    ensures
        unfold_spec(c + crlf_sp() + t) == c + unfold_spec(t),
    decreases c.len(),
{
    let s = c + crlf_sp() + t;
    if c.len() == 0 {
        assert(s =~= crlf_sp() + t);
        assert(s[0] == '\r' && s[1] == '\n' && s[2] == ' ');
        assert(s.skip(3) =~= t);
        assert(c + unfold_spec(t) =~= unfold_spec(t));
    } else {
        // no fold sequence starts at the head of `s`
        assert(!fold_seq_at(c, 0));
        if s.len() >= 3 && s[0] == '\r' && s[1] == '\n' && is_cont_ws(s[2]) {
            if c.len() == 1 {
                assert(s[1] == '\r');
                assert(false);
            } else if c.len() == 2 {
                assert(s[2] == '\r');
                assert(false);
            } else {
                assert(fold_seq_at(c, 0));
                assert(false);
            }
        }
        if s.len() >= 2 && s[0] == '\n' && is_cont_ws(s[1]) {
            if c.len() == 1 {
                assert(s[1] == '\r');
                assert(false);
            } else {
                assert(fold_seq_at(c, 0));
                assert(false);
            }
        }
        assert(unfold_spec(s) == seq![s[0]] + unfold_spec(s.skip(1)));
        assert(c.skip(1) =~= c.subrange(1, c.len() as int));
        lemma_fold_free_subrange(c, 1, c.len() as int);
        assert(s.skip(1) =~= c.skip(1) + crlf_sp() + t);
        lemma_unfold_concat(c.skip(1), t);
        assert(seq![s[0]] + (c.skip(1) + unfold_spec(t)) =~= c + unfold_spec(t));
    }
}

/// Folding then unfolding restores any fold-free line exactly, whatever
/// the current physical line's budget.
pub proof fn lemma_fold_unfold_round_trip_at(s: Seq<char>, budget: int)
    requires
        is_fold_free(s),
    ensures
        unfold_spec(fold_spec_at(s, budget)) == s,
    decreases s.len(),
{
    if budget < 8 || seq_utf8_len(s) <= budget {
        lemma_unfold_fold_free_id(s);
    } else {
        lemma_fold_break_bounds(s, budget);
        let b = fold_break(s, budget);
        assert(s.take(b) =~= s.subrange(0, b));
        assert(s.skip(b) =~= s.subrange(b, s.len() as int));
        lemma_fold_free_subrange(s, 0, b);
        lemma_fold_free_subrange(s, b, s.len() as int);
        lemma_fold_unfold_round_trip_at(s.skip(b), 74);
        lemma_unfold_concat(s.take(b), fold_spec_at(s.skip(b), 74));
        assert(s.take(b) + s.skip(b) =~= s);
    }
}

/// Folding then unfolding restores any fold-free line exactly.
pub proof fn lemma_fold_unfold_round_trip(s: Seq<char>)
    requires
        is_fold_free(s),
    ensures
        unfold_spec(fold_spec(s)) == s,
{
    lemma_fold_unfold_round_trip_at(s, 75);
}

} // verus!

verus! {

/// A line that already fits its 75-octet budget is left untouched by
/// folding.
pub proof fn lemma_fold_short_identity(s: Seq<char>)
    requires
        seq_utf8_len(s) <= 75,
    ensures
        fold_spec(s) == s,
{
}

} // verus!

verus! {

/// Unfolding walks over a fold-free text unchanged even when more text
/// follows, provided that text starts with a carriage return (the start
/// of a line terminator), which can never begin or continue a fold
/// sequence.
pub proof fn lemma_unfold_concat_plain(c: Seq<char>, t: Seq<char>)
    requires
        is_fold_free(c),
        t.len() == 0 || t[0] == '\r',
    ensures
        unfold_spec(c + t) == c + unfold_spec(t),
    decreases c.len(),
{
    let s = c + t;
    if c.len() == 0 {
        assert(s =~= t);
        assert(c + unfold_spec(t) =~= unfold_spec(t));
    } else {
        assert(!fold_seq_at(c, 0));
        if s.len() >= 3 && s[0] == '\r' && s[1] == '\n' && is_cont_ws(s[2]) {
            if c.len() == 1 {
                assert(s[1] == t[0]);
                assert(false);
            } else if c.len() == 2 {
                assert(s[2] == t[0]);
                assert(false);
            } else {
                assert(fold_seq_at(c, 0));
                assert(false);
            }
        }
        if s.len() >= 2 && s[0] == '\n' && is_cont_ws(s[1]) {
            if c.len() == 1 {
                assert(s[1] == t[0]);
                assert(false);
            } else {
                assert(fold_seq_at(c, 0));
                assert(false);
            }
        }
        assert(unfold_spec(s) == seq![s[0]] + unfold_spec(s.skip(1)));
        assert(c.skip(1) =~= c.subrange(1, c.len() as int));
        lemma_fold_free_subrange(c, 1, c.len() as int);
        assert(s.skip(1) =~= c.skip(1) + t);
        lemma_unfold_concat_plain(c.skip(1), t);
        assert(seq![s[0]] + (c.skip(1) + unfold_spec(t)) =~= c + unfold_spec(t));
    }
}

/// Unfolding keeps a line terminator that is not followed by a
/// continuation whitespace.
pub proof fn lemma_unfold_crlf_head(t: Seq<char>)
    requires
        t.len() == 0 || !is_cont_ws(t[0]),
    ensures
        unfold_spec(crlf_sp().take(2) + t) == crlf_sp().take(2) + unfold_spec(t),
{
    let s = crlf_sp().take(2) + t;
    assert(s[0] == '\r' && s[1] == '\n');
    assert(!(s.len() >= 3 && s[0] == '\r' && s[1] == '\n' && is_cont_ws(s[2]))) by {
        if s.len() >= 3 {
            assert(s[2] == t[0]);
        }
    }
    assert(unfold_spec(s) == seq![s[0]] + unfold_spec(s.skip(1)));
    let s1 = s.skip(1);
    assert(s1[0] == '\n');
    assert(!(s1.len() >= 2 && s1[0] == '\n' && is_cont_ws(s1[1]))) by {
        if s1.len() >= 2 {
            assert(s1[1] == t[0]);
        }
    }
    assert(unfold_spec(s1) == seq![s1[0]] + unfold_spec(s1.skip(1)));
    assert(s1.skip(1) =~= t);
    assert(seq![s[0]] + (seq![s1[0]] + unfold_spec(t)) =~= crlf_sp().take(2) + unfold_spec(t));
}

/// Unfolding a folded fold-free line restores it exactly, even with more
/// text following the fold, provided that text starts with a carriage
/// return.
pub proof fn lemma_unfold_folded_at(l: Seq<char>, budget: int, t: Seq<char>)
    requires
        is_fold_free(l),
        t.len() == 0 || t[0] == '\r',
    ensures
        unfold_spec(fold_spec_at(l, budget) + t) == l + unfold_spec(t),
    decreases l.len(),
{
    if budget < 8 || seq_utf8_len(l) <= budget {
        lemma_unfold_concat_plain(l, t);
    } else {
        lemma_fold_break_bounds(l, budget);
        let b = fold_break(l, budget);
        assert(l.take(b) =~= l.subrange(0, b));
        assert(l.skip(b) =~= l.subrange(b, l.len() as int));
        lemma_fold_free_subrange(l, 0, b);
        lemma_fold_free_subrange(l, b, l.len() as int);
        let rest = fold_spec_at(l.skip(b), 74) + t;
        assert(fold_spec_at(l, budget) + t =~= l.take(b) + crlf_sp() + rest);
        lemma_unfold_concat(l.take(b), rest);
        lemma_unfold_folded_at(l.skip(b), 74, t);
        assert(l.take(b) + (l.skip(b) + unfold_spec(t)) =~= l + unfold_spec(t));
    }
}

} // verus!
