//! Small verified helpers over `&str` and sequences of strings.

use vstd::prelude::*;

verus! {

/// Character-wise equality of two string slices.
#[verifier::loop_isolation(false)]
pub fn str_eq(a: &str, b: &str) -> (r: bool)
    ensures
        r == (a@ == b@),
{
    let an = a.unicode_len();
    let bn = b.unicode_len();
    if an != bn {
        proof {
            assert(a@ != b@) by {
                if a@ == b@ {
                    assert(a@.len() == b@.len());
                }
            }
        }
        return false;
    }
    let mut i: usize = 0;
    while i < an
        invariant
            an == a@.len(),
            bn == b@.len(),
            an == bn,
            i <= an,
            forall|k: int| 0 <= k < i ==> a@[k] == b@[k],
        decreases an - i,
    {
        if a.get_char(i) != b.get_char(i) {
            return false;
        }
        i += 1;
    }
    proof {
        assert(a@ =~= b@);
    }
    true
}

/// Whether `s` begins with the characters of `prefix`.
#[verifier::loop_isolation(false)]
pub fn str_has_prefix(s: &str, prefix: &str) -> (r: bool)
    ensures
        r == (s@.len() >= prefix@.len() && s@.subrange(0, prefix@.len() as int) == prefix@),
{
    let sn = s.unicode_len();
    let pn = prefix.unicode_len();
    if sn < pn {
        return false;
    }
    let mut i: usize = 0;
    while i < pn
        invariant
            sn == s@.len(),
            pn == prefix@.len(),
            pn <= sn,
            i <= pn,
            forall|k: int| 0 <= k < i ==> s@[k] == prefix@[k],
        decreases pn - i,
    {
        if s.get_char(i) != prefix.get_char(i) {
            proof {
                assert(s@.subrange(0, pn as int)[i as int] == s@[i as int]);
            }
            return false;
        }
        i += 1;
    }
    proof {
        assert(s@.subrange(0, pn as int) =~= prefix@);
    }
    true
}

/// Whether `s` ends with the characters of `suffix`.
#[verifier::loop_isolation(false)]
pub fn str_has_suffix(s: &str, suffix: &str) -> (r: bool)
    ensures
        r == (s@.len() >= suffix@.len() && s@.subrange(
            s@.len() - suffix@.len(),
            s@.len() as int,
        ) == suffix@),
{
    let sn = s.unicode_len();
    let xn = suffix.unicode_len();
    if sn < xn {
        return false;
    }
    let base = sn - xn;
    let mut i: usize = 0;
    while i < xn
        invariant
            sn == s@.len(),
            xn == suffix@.len(),
            xn <= sn,
            base == sn - xn,
            i <= xn,
            forall|k: int| 0 <= k < i ==> s@[base + k] == suffix@[k],
        decreases xn - i,
    {
        if s.get_char(base + i) != suffix.get_char(i) {
            proof {
                assert(s@.subrange(base as int, sn as int)[i as int] == s@[base + i]);
            }
            return false;
        }
        i += 1;
    }
    proof {
        assert(s@.subrange(base as int, sn as int) =~= suffix@);
    }
    true
}

/// The strings of `ts` joined with `sep` between consecutive elements.
pub open spec fn join_with(ts: Seq<Seq<char>>, sep: Seq<char>) -> Seq<char>
    decreases ts.len(),
{
    if ts.len() == 0 {
        Seq::empty()
    } else if ts.len() == 1 {
        ts[0]
    } else {
        join_with(ts.drop_last(), sep) + sep + ts.last()
    }
}

/// Joins a vector of strings with a separator, as `[T]::join` does.
#[verifier::loop_isolation(false)]
pub fn join_strings(ts: &Vec<String>, sep: &str) -> (r: String)
    ensures
        r@ == join_with(ts@.map_values(|t: String| t@), sep@),
{
    let ghost tsv = ts@.map_values(|t: String| t@);
    let mut out = String::new();
    let mut i: usize = 0;
    while i < ts.len()
        invariant
            i <= ts.len(),
            tsv == ts@.map_values(|t: String| t@),
            tsv.len() == ts@.len(),
            out@ == join_with(tsv.take(i as int), sep@),
        decreases ts.len() - i,
    {
        if i > 0 {
            out.append(sep);
        }
        out.append(ts[i].as_str());
        proof {
            assert(tsv.take(i + 1).drop_last() =~= tsv.take(i as int));
            assert(tsv.take(i + 1).last() == tsv[i as int]);
            if i == 0 {
                assert(join_with(tsv.take(1), sep@) == tsv[0]);
            }
        }
        i += 1;
    }
    proof {
        assert(tsv.take(ts@.len() as int) =~= tsv);
    }
    out
}

} // verus!
