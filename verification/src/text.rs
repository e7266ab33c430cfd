//! Character-level string operations the daemon relies on: equality tests
//! and leftmost, non-overlapping substring replacement.

use vstd::prelude::*;
use vstd::string::StrSliceExecFns;
use vstd::string::StringExecFns;

verus! {

/// The characters of `s` starting at `k` spell out `pat`.
pub open spec fn pat_at(s: Seq<char>, pat: Seq<char>, k: int) -> bool {
    0 <= k && k + pat.len() <= s.len() && s.subrange(k, k + pat.len() as int) == pat
}

/// `pat` occurs somewhere in `s`.
pub open spec fn contains_pat(s: Seq<char>, pat: Seq<char>) -> bool {
    exists|k: int| pat_at(s, pat, k)
}

/// Replacement of every occurrence of `pat` in `s` by `to`, scanning left to
/// right and never rescanning replaced text. An empty pattern replaces
/// nothing.
pub open spec fn spec_replace(s: Seq<char>, pat: Seq<char>, to: Seq<char>) -> Seq<char>
    decreases s.len(),
{
    if pat.len() == 0 || s.len() < pat.len() {
        s
    } else if s.subrange(0, pat.len() as int) == pat {
        to + spec_replace(s.skip(pat.len() as int), pat, to)
    } else {
        seq![s[0]] + spec_replace(s.skip(1), pat, to)
    }
}

/// Character-for-character equality of two string slices.
pub fn str_eq(a: &str, b: &str) -> (r: bool)
    ensures
        r == (a@ == b@),
{
    let a_len = a.unicode_len();
    let b_len = b.unicode_len();
    if a_len != b_len {
        return false;
    }
    let mut i: usize = 0;
    while i < a_len
        invariant
            a@.len() == a_len,
            b@.len() == a_len,
            i <= a_len,
            forall|j: int| 0 <= j < i ==> a@[j] == b@[j],
        decreases a_len - i,
    {
        if a.get_char(i) != b.get_char(i) {
            return false;
        }
        i += 1;
    }
    proof {
        assert(a@ =~= b@);
    }
    true
}

/// Whether `pat` occurs in `s` at character position `k`.
fn has_pat_at(s: &str, k: usize, pat: &str) -> (r: bool)
    requires
        k + pat@.len() <= s@.len(),
    ensures
        r == pat_at(s@, pat@, k as int),
{
    let s_len = s.unicode_len();
    let pat_len = pat.unicode_len();
    let mut j: usize = 0;
    while j < pat_len
        invariant
            s@.len() == s_len,
            pat@.len() == pat_len,
            k + pat_len <= s_len,
            j <= pat_len,
            forall|t: int| 0 <= t < j ==> s@[k + t] == pat@[t],
        decreases pat_len - j,
    {
        if s.get_char(k + j) != pat.get_char(j) {
            proof {
                assert(s@.subrange(k as int, k + pat@.len() as int)[j as int] == s@[k + j]);
            }
            return false;
        }
        j += 1;
    }
    proof {
        assert(s@.subrange(k as int, k + pat@.len() as int) =~= pat@);
    }
    true
}

/// Replaces every occurrence of `pat` in `s` by `to`, scanning left to right.
pub fn replace_all(s: &str, pat: &str, to: &str) -> (r: String)
    requires
        pat@.len() > 0,
    ensures
        r@ == spec_replace(s@, pat@, to@),
{
    let s_len = s.unicode_len();
    let pat_len = pat.unicode_len();
    let mut out = String::new();
    let mut i: usize = 0;
    proof {
        assert(s@.skip(0) =~= s@);
        assert(out@ + spec_replace(s@, pat@, to@) =~= spec_replace(s@, pat@, to@));
    }
    while i < s_len
        invariant
            s@.len() == s_len,
            pat@.len() == pat_len,
            pat_len > 0,
            i <= s_len,
            spec_replace(s@, pat@, to@) == out@ + spec_replace(s@.skip(i as int), pat@, to@),
        decreases s_len - i,
    {
        let ghost tail = s@.skip(i as int);
        let ghost out0 = out@;
        if pat_len <= s_len - i && has_pat_at(s, i, pat) {
            out.append(to);
            proof {
                let rest = s@.skip(i + pat@.len());
                assert(tail.subrange(0, pat@.len() as int) =~= s@.subrange(
                    i as int,
                    i + pat@.len() as int,
                ));
                assert(tail.skip(pat@.len() as int) =~= rest);
                assert(spec_replace(tail, pat@, to@) == to@ + spec_replace(rest, pat@, to@));
                assert(out0 + (to@ + spec_replace(rest, pat@, to@)) =~= (out0 + to@)
                    + spec_replace(rest, pat@, to@));
            }
            i += pat_len;
        } else {
            let piece = s.substring_char(i, i + 1);
            out.append(piece);
            proof {
                let rest = s@.skip(i + 1);
                assert(piece@ =~= seq![s@[i as int]]);
                assert(tail.skip(1) =~= rest);
                if pat_len <= s_len - i {
                    assert(tail.subrange(0, pat@.len() as int) =~= s@.subrange(
                        i as int,
                        i + pat@.len() as int,
                    ));
                } else {
                    assert(tail.len() < pat@.len());
                    assert(spec_replace(rest, pat@, to@) == rest);
                    assert(seq![s@[i as int]] + rest =~= tail);
                }
                assert(tail[0] == s@[i as int]);
                assert(spec_replace(tail, pat@, to@) == seq![s@[i as int]] + spec_replace(
                    rest,
                    pat@,
                    to@,
                ));
                assert(out0 + (seq![s@[i as int]] + spec_replace(rest, pat@, to@)) =~= (out0
                    + seq![s@[i as int]]) + spec_replace(rest, pat@, to@));
            }
            i += 1;
        }
    }
    proof {
        assert(s@.skip(i as int) =~= Seq::<char>::empty());
        assert(out@ + spec_replace(s@.skip(i as int), pat@, to@) =~= out@);
    }
    out
}

/// A string free of the pattern comes back from replacement unchanged.
pub proof fn lemma_replace_absent_identity(s: Seq<char>, pat: Seq<char>, to: Seq<char>)
    requires
        pat.len() > 0,
        !contains_pat(s, pat),
    ensures
        spec_replace(s, pat, to) == s,
    decreases s.len(),
{
    if s.len() < pat.len() {
    } else {
        assert(!pat_at(s, pat, 0));
        assert forall|k: int| !pat_at(s.skip(1), pat, k) by {
            if pat_at(s.skip(1), pat, k) {
                assert(s.skip(1).subrange(k, k + pat.len() as int) =~= s.subrange(
                    k + 1,
                    k + 1 + pat.len() as int,
                ));
                assert(pat_at(s, pat, k + 1));
            }
        }
        assert(!contains_pat(s.skip(1), pat));
        lemma_replace_absent_identity(s.skip(1), pat, to);
        assert(seq![s[0]] + s.skip(1) =~= s);
    }
}

} // verus!
