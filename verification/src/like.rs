//! The store's pattern language, the semantics of SQL `LIKE`: `%` matches
//! any run of characters, `_` matches exactly one, everything else matches
//! itself. Filter values are wrapped in `%…%`, so a user's literal `%` or
//! `_` acts as a wildcard — documented behavior of the engine.

use vstd::prelude::*;
use vstd::string::StrSliceExecFns;

verus! {

/// Whether `text` matches `pattern` in the store's pattern language.
pub open spec fn spec_like(text: Seq<char>, pattern: Seq<char>) -> bool
    decreases text.len(), pattern.len(),
{
    if pattern.len() == 0 {
        text.len() == 0
    } else if pattern[0] == '%' {
        ||| spec_like(text, pattern.drop_first())
        ||| (text.len() > 0 && spec_like(text.drop_first(), pattern))
    } else {
        text.len() > 0 && (pattern[0] == '_' || text[0] == pattern[0]) && spec_like(
            text.drop_first(),
            pattern.drop_first(),
        )
    }
}

/// The substring-containment predicate of a filter value `v`: the store
/// sees the pattern `%v%`.
pub open spec fn contains_pattern(text: Seq<char>, v: Seq<char>) -> bool {
    spec_like(text, seq!['%'] + v + seq!['%'])
}

/// The characters of a string, for index-based scanning.
pub fn chars_of(s: &str) -> (r: Vec<char>)
    ensures
        r@ == s@,
{
    let n = s.unicode_len();
    let mut r: Vec<char> = Vec::new();
    let mut i: usize = 0;
    while i < n
        invariant
            n == s@.len(),
            i <= n,
            r@ == s@.subrange(0, i as int),
        decreases n - i,
    {
        r.push(s.get_char(i));
        i = i + 1;
        proof {
            assert(s@.subrange(0, i as int) =~= s@.subrange(0, i - 1).push(s@[i - 1]));
        }
    }
    proof {
        assert(s@.subrange(0, n as int) =~= s@);
    }
    r
}

/// Backtracking matcher: whether the suffixes of `t` and `p` from `ti`
/// and `pi` match.
fn like_match_from(t: &Vec<char>, p: &Vec<char>, ti: usize, pi: usize) -> (r: bool)
    requires
        ti <= t@.len(),
        pi <= p@.len(),
    ensures
        r == spec_like(
            t@.subrange(ti as int, t@.len() as int),
            p@.subrange(pi as int, p@.len() as int),
        ),
    decreases t@.len() - ti, p@.len() - pi,
{
    let ghost ts = t@.subrange(ti as int, t@.len() as int);
    let ghost ps = p@.subrange(pi as int, p@.len() as int);
    if pi == p.len() {
        ti == t.len()
    } else if p[pi] == '%' {
        proof {
            assert(ps[0] == p@[pi as int]);
            assert(ps.drop_first() =~= p@.subrange(pi + 1, p@.len() as int));
        }
        if like_match_from(t, p, ti, pi + 1) {
            true
        } else if ti < t.len() {
            proof {
                assert(ts.drop_first() =~= t@.subrange(ti + 1, t@.len() as int));
            }
            like_match_from(t, p, ti + 1, pi)
        } else {
            false
        }
    } else if ti < t.len() && (p[pi] == '_' || t[ti] == p[pi]) {
        proof {
            assert(ts[0] == t@[ti as int] && ps[0] == p@[pi as int]);
            assert(ts.drop_first() =~= t@.subrange(ti + 1, t@.len() as int));
            assert(ps.drop_first() =~= p@.subrange(pi + 1, p@.len() as int));
        }
        like_match_from(t, p, ti + 1, pi + 1)
    } else {
        proof {
            assert(ps[0] == p@[pi as int]);
            if ts.len() > 0 {
                assert(ts[0] == t@[ti as int]);
            }
        }
        false
    }
}

/// Whether `text` matches `pattern` in the store's pattern language.
pub fn like_match(text: &str, pattern: &str) -> (r: bool)
    ensures
        r == spec_like(text@, pattern@),
{
    let t = chars_of(text);
    let p = chars_of(pattern);
    proof {
        assert(t@.subrange(0, t@.len() as int) =~= text@);
        assert(p@.subrange(0, p@.len() as int) =~= pattern@);
    }
    like_match_from(&t, &p, 0, 0)
}

/// Whether `text` satisfies the substring filter `v`, i.e. matches `%v%`.
pub fn matches_filter(text: &str, v: &str) -> (r: bool)
    ensures
        r == contains_pattern(text@, v@),
{
    let t = chars_of(text);
    let vc = chars_of(v);
    let mut p: Vec<char> = Vec::new();
    p.push('%');
    let mut i: usize = 0;
    while i < vc.len()
        invariant
            i <= vc@.len(),
            vc@ == v@,
            p@ == seq!['%'] + v@.subrange(0, i as int),
        decreases vc@.len() - i,
    {
        p.push(vc[i]);
        i = i + 1;
        proof {
            assert(seq!['%'] + v@.subrange(0, i as int) =~= (seq!['%'] + v@.subrange(
                0,
                i - 1,
            )).push(v@[i - 1]));
        }
    }
    p.push('%');
    proof {
        assert(v@.subrange(0, v@.len() as int) =~= v@);
        assert(p@ =~= seq!['%'] + v@ + seq!['%']);
        assert(t@.subrange(0, t@.len() as int) =~= text@);
        assert(p@.subrange(0, p@.len() as int) =~= p@);
    }
    like_match_from(&t, &p, 0, 0)
}

} // verus!
