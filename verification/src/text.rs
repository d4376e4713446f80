//! Plain-text substring search and replacement.
//!
//! The alternate-linker knob toggles configuration lines between a
//! comment-marker form and an active form by substring substitution, so
//! the engine needs an exact account of what "replace every occurrence"
//! means. `replaced` is that account; `replace_all` and `contains_sub`
//! are the executable counterparts.

use vstd::prelude::*;

verus! {

/// `pat` occurs in `s` starting at position `i`.
pub open spec fn match_at(s: Seq<char>, pat: Seq<char>, i: int) -> bool {
    &&& 0 <= i
    &&& i + pat.len() <= s.len()
    &&& s.subrange(i, i + pat.len()) == pat
}

/// `pat` occurs somewhere in `s`.
pub open spec fn text_contains(s: Seq<char>, pat: Seq<char>) -> bool {
    exists|i: int| match_at(s, pat, i)
}

/// The text with every occurrence of `pat` swapped for `sub`, scanning
/// left to right and never rescanning substituted text. An empty `pat`
/// changes nothing.
pub open spec fn replaced(s: Seq<char>, pat: Seq<char>, sub: Seq<char>) -> Seq<char>
    decreases s.len(),
{
    if pat.len() == 0 || s.len() < pat.len() {
        s
    } else if s.subrange(0, pat.len() as int) == pat {
        sub + replaced(s.skip(pat.len() as int), pat, sub)
    } else {
        seq![s[0]] + replaced(s.skip(1), pat, sub)
    }
}

fn matches_at(s: &str, pat: &str, i: usize) -> (r: bool)
    requires
        i + pat@.len() <= s@.len(),
        s@.len() <= usize::MAX,
    ensures
        r == match_at(s@, pat@, i as int),
{
    let p = pat.unicode_len();
    let mut j: usize = 0;
    while j < p
        invariant
            j <= p,
            p == pat@.len(),
            i + p <= s@.len() <= usize::MAX,
            forall|k: int| 0 <= k < j ==> s@[i + k] == pat@[k],
        decreases p - j,
    {
        if s.get_char(i + j) != pat.get_char(j) {
            assert(s@.subrange(i as int, i + p) != pat@) by {
                assert(s@.subrange(i as int, i + p)[j as int] == s@[i + j]);
            }
            return false;
        }
        j += 1;
    }
    assert(s@.subrange(i as int, i + p) =~= pat@);
    true
}

/// Whether `pat` occurs anywhere in `s`.
pub fn contains_sub(s: &str, pat: &str) -> (r: bool)
    ensures
        r == text_contains(s@, pat@),
{
    let n = s.unicode_len();
    let p = pat.unicode_len();
    if p == 0 {
        assert(match_at(s@, pat@, 0)) by {
            assert(s@.subrange(0, 0) =~= pat@);
        }
        return true;
    }
    if p > n {
        assert(forall|i: int| !match_at(s@, pat@, i));
        return false;
    }
    let mut i: usize = 0;
    while i <= n - p
        invariant
            1 <= p <= n,
            i <= n - p + 1,
            n == s@.len(),
            p == pat@.len(),
            forall|k: int| 0 <= k < i ==> !match_at(s@, pat@, k),
        decreases n - p - i + 1,
    {
        if matches_at(s, pat, i) {
            return true;
        }
        i += 1;
    }
    assert(forall|k: int| !match_at(s@, pat@, k));
    false
}

/// The text with every occurrence of `pat` swapped for `sub`.
pub fn replace_all(s: &str, pat: &str, sub: &str) -> (r: String)
    ensures
        r@ == replaced(s@, pat@, sub@),
{
    let n = s.unicode_len();
    let p = pat.unicode_len();
    if p == 0 {
        return String::from_str(s);
    }
    let mut out = String::new();
    let mut i: usize = 0;
    proof {
        assert(s@.skip(0) =~= s@);
        assert(out@ + replaced(s@, pat@, sub@) =~= replaced(s@, pat@, sub@));
    }
    while n - i >= p
        invariant
            i <= n,
            n == s@.len(),
            p == pat@.len(),
            1 <= p,
            replaced(s@, pat@, sub@) == out@ + replaced(s@.skip(i as int), pat@, sub@),
        decreases n - i,
    {
        proof {
            assert(s@.skip(i as int).subrange(0, p as int) =~= s@.subrange(i as int, i + p));
        }
        if matches_at(s, pat, i) {
            out.append(sub);
            proof {
                assert(s@.skip(i as int).skip(p as int) =~= s@.skip(i + p));
            }
            i += p;
        } else {
            let c = s.substring_char(i, i + 1);
            out.append(c);
            proof {
                assert(seq![s@.skip(i as int)[0]] =~= s@.subrange(i as int, i + 1));
                assert(s@.skip(i as int).skip(1) =~= s@.skip(i + 1));
            }
            i += 1;
        }
    }
    let tail = s.substring_char(i, n);
    out.append(tail);
    proof {
        assert(s@.skip(i as int) =~= s@.subrange(i as int, n as int));
        assert(out@ =~= replaced(s@, pat@, sub@));
    }
    out
}

/// Replacing a pattern that does not occur changes nothing.
pub proof fn lemma_replaced_no_match(s: Seq<char>, pat: Seq<char>, sub: Seq<char>)
    requires
        !text_contains(s, pat),
    ensures
        replaced(s, pat, sub) == s,
    decreases s.len(),
{
    if pat.len() == 0 || s.len() < pat.len() {
    } else {
        assert(!match_at(s, pat, 0));
        assert(s.subrange(0, pat.len() as int) != pat);
        assert forall|i: int| !match_at(s.skip(1), pat, i) by {
            if match_at(s.skip(1), pat, i) {
                assert(s.skip(1).subrange(i, i + pat.len()) =~= s.subrange(i + 1, i + 1 + pat.len()));
                assert(match_at(s, pat, i + 1));
            }
        }
        lemma_replaced_no_match(s.skip(1), pat, sub);
        assert(seq![s[0]] + s.skip(1) =~= s);
    }
}

/// After replacing an occurring pattern, the substitute occurs in the result.
pub proof fn lemma_replaced_has_sub(s: Seq<char>, pat: Seq<char>, sub: Seq<char>)
    requires
        text_contains(s, pat),
        pat.len() > 0,
    ensures
        text_contains(replaced(s, pat, sub), sub),
    decreases s.len(),
{
    let w = choose|i: int| match_at(s, pat, i);
    assert(s.len() >= pat.len());
    if s.subrange(0, pat.len() as int) == pat {
        let r = sub + replaced(s.skip(pat.len() as int), pat, sub);
        assert(r.subrange(0, sub.len() as int) =~= sub);
        assert(match_at(r, sub, 0));
    } else {
        assert(!match_at(s, pat, 0));
        assert(w >= 1);
        assert(s.skip(1).subrange(w - 1, w - 1 + pat.len()) =~= s.subrange(w, w + pat.len()));
        assert(match_at(s.skip(1), pat, w - 1));
        lemma_replaced_has_sub(s.skip(1), pat, sub);
        let inner = replaced(s.skip(1), pat, sub);
        let j = choose|j: int| match_at(inner, sub, j);
        let r = seq![s[0]] + inner;
        assert(r.subrange(j + 1, j + 1 + sub.len()) =~= inner.subrange(j, j + sub.len()));
        assert(match_at(r, sub, j + 1));
        assert(replaced(s, pat, sub) == r);
    }
}

} // verus!
