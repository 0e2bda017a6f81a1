//! Verified character-level string helpers: equality, ASCII case-insensitive
//! comparison, substring search and template substitution.

use vstd::prelude::*;
use vstd::string::StrSliceExecFns;
use vstd::string::StringExecFns;

verus! {

/// Relies on String::push: appends the given character to the end of the
/// string (std's documented behaviour; vstd gives it no specification).
pub assume_specification[ String::push ](s: &mut String, c: char)
    ensures
        final(s)@ == old(s)@.push(c),
;

/// Character-wise equality of two string slices.
pub fn str_eq(a: &str, b: &str) -> (r: bool)
    ensures
        r == (a@ == b@),
{
    let la = a.unicode_len();
    let lb = b.unicode_len();
    if la != lb {
        return false;
    }
    let mut i: usize = 0;
    while i < la
        invariant
            i <= la,
            la == a@.len(),
            lb == b@.len(),
            la == lb,
            forall|j: int| 0 <= j < i ==> a@[j] == b@[j],
        decreases la - i,
    {
        if a.get_char(i) != b.get_char(i) {
            return false;
        }
        i = i + 1;
    }
    proof {
        assert(a@ =~= b@);
    }
    true
}

/// The character's code, with ASCII upper-case letters folded to lower case.
pub open spec fn lower_code(c: char) -> int {
    if 65 <= c as u32 && c as u32 <= 90 {
        c as u32 + 32
    } else {
        c as u32 as int
    }
}

/// ASCII case-insensitive equality of two character sequences.
pub open spec fn eq_ci_seq(a: Seq<char>, b: Seq<char>) -> bool {
    a.len() == b.len() && forall|i: int| 0 <= i < a.len() ==> lower_code(a[i]) == lower_code(b[i])
}

fn lower_code_exec(c: char) -> (r: u32)
    ensures
        r == lower_code(c),
{
    let n = c as u32;
    if 65 <= n && n <= 90 {
        n + 32
    } else {
        n
    }
}

/// ASCII case-insensitive equality of two string slices.
pub fn str_eq_ci(a: &str, b: &str) -> (r: bool)
    ensures
        r == eq_ci_seq(a@, b@),
{
    let la = a.unicode_len();
    let lb = b.unicode_len();
    if la != lb {
        return false;
    }
    let mut i: usize = 0;
    while i < la
        invariant
            i <= la,
            la == a@.len(),
            lb == b@.len(),
            la == lb,
            forall|j: int| 0 <= j < i ==> lower_code(a@[j]) == lower_code(b@[j]),
        decreases la - i,
    {
        let ca = lower_code_exec(a.get_char(i));
        let cb = lower_code_exec(b.get_char(i));
        if ca != cb {
            return false;
        }
        i = i + 1;
    }
    true
}

/// The needle occurs as a contiguous run somewhere in the haystack.
pub open spec fn contains_seq(h: Seq<char>, n: Seq<char>) -> bool {
    exists|i: int|
        0 <= i && i + n.len() <= h.len() && #[trigger] h.subrange(i, i + n.len() as int) == n
}

/// The needle occurs in the haystack starting at position `at`.
fn matches_at(h: &str, lh: usize, n: &str, ln: usize, at: usize) -> (r: bool)
    requires
        lh == h@.len(),
        ln == n@.len(),
        at + ln <= lh,
    ensures
        r == (h@.subrange(at as int, at + ln) == n@),
{
    let mut j: usize = 0;
    while j < ln
        invariant
            j <= ln,
            lh == h@.len(),
            ln == n@.len(),
            at + ln <= lh,
            forall|k: int| 0 <= k < j ==> h@[at + k] == n@[k],
        decreases ln - j,
    {
        if h.get_char(at + j) != n.get_char(j) {
            proof {
                assert(h@.subrange(at as int, at + ln)[j as int] == h@[at + j]);
            }
            return false;
        }
        j = j + 1;
    }
    proof {
        assert(h@.subrange(at as int, at + ln) =~= n@);
    }
    true
}

/// Substring search.
pub fn str_contains(h: &str, n: &str) -> (r: bool)
    ensures
        r == contains_seq(h@, n@),
{
    let lh = h.unicode_len();
    let ln = n.unicode_len();
    if ln > lh {
        return false;
    }
    if ln == 0 {
        proof {
            assert(h@.subrange(0, 0 + n@.len() as int) =~= n@);
        }
        return true;
    }
    let mut i: usize = 0;
    while i <= lh - ln
        invariant
            lh == h@.len(),
            ln == n@.len(),
            1 <= ln <= lh,
            i <= lh - ln + 1,
            forall|k: int| 0 <= k < i ==> #[trigger] h@.subrange(k, k + ln) != n@,
        decreases lh - ln + 1 - i,
    {
        if matches_at(h, lh, n, ln, i) {
            return true;
        }
        i = i + 1;
    }
    false
}

/// Non-overlapping left-to-right replacement of every occurrence of `pat`
/// by `rep`; the replacement text is never rescanned.
pub open spec fn replace_seq(t: Seq<char>, pat: Seq<char>, rep: Seq<char>) -> Seq<char>
    decreases t.len(),
{
    if pat.len() == 0 || t.len() < pat.len() {
        t
    } else if t.take(pat.len() as int) == pat {
        rep + replace_seq(t.skip(pat.len() as int), pat, rep)
    } else {
        seq![t[0]] + replace_seq(t.skip(1), pat, rep)
    }
}

/// Replaces every occurrence of `pat` in `t` by `rep`, left to right,
/// without rescanning replaced text.
pub fn str_replace(t: &str, pat: &str, rep: &str) -> (r: String)
    ensures
        r@ == replace_seq(t@, pat@, rep@),
{
    let lt = t.unicode_len();
    let lp = pat.unicode_len();
    let mut out = String::new();
    if lp == 0 {
        proof {
            assert(out@ + t@ =~= t@);
        }
        let rest = t.substring_char(0, lt);
        proof {
            assert(t@.subrange(0, lt as int) =~= t@);
        }
        out.append(rest);
        return out;
    }
    let mut i: usize = 0;
    proof {
        assert(t@.skip(0) =~= t@);
        assert(out@ + replace_seq(t@, pat@, rep@) =~= replace_seq(t@, pat@, rep@));
    }
    while i < lt
        invariant
            i <= lt,
            lt == t@.len(),
            lp == pat@.len(),
            lp >= 1,
            out@ + replace_seq(t@.skip(i as int), pat@, rep@) == replace_seq(t@, pat@, rep@),
        decreases lt - i,
    {
        let ghost pre = out@;
        let ghost restv = t@.skip(i as int);
        if lp <= lt - i && matches_at(t, lt, pat, lp, i) {
            proof {
                assert(restv.take(lp as int) =~= t@.subrange(i as int, i + lp));
                assert(restv.skip(lp as int) =~= t@.skip(i + lp));
            }
            out.append(rep);
            i = i + lp;
            proof {
                assert(out@ + replace_seq(t@.skip(i as int), pat@, rep@) =~= pre + (rep@
                    + replace_seq(restv.skip(lp as int), pat@, rep@)));
            }
        } else {
            proof {
                if i + lp <= lt {
                    assert(restv.take(lp as int) =~= t@.subrange(i as int, i + lp));
                } else {
                    assert(restv.len() < lp);
                }
                assert(restv.skip(1) =~= t@.skip(i + 1));
            }
            out.push(t.get_char(i));
            i = i + 1;
            proof {
                if restv.len() < lp {
                    assert(replace_seq(restv, pat@, rep@) == restv);
                    assert(replace_seq(t@.skip(i as int), pat@, rep@) =~= restv.skip(1));
                    assert(out@ + restv.skip(1) =~= pre + restv);
                } else {
                    assert(out@ + replace_seq(t@.skip(i as int), pat@, rep@) =~= pre + (seq![
                        restv[0],
                    ] + replace_seq(restv.skip(1), pat@, rep@)));
                }
            }
        }
    }
    proof {
        assert(t@.skip(lt as int) =~= Seq::<char>::empty());
        assert(replace_seq(t@.skip(lt as int), pat@, rep@) == t@.skip(lt as int));
        assert(out@ + t@.skip(lt as int) =~= out@);
    }
    out
}

} // verus!
