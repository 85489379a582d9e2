//! Conversions between strings and their characters.
use vstd::prelude::*;

verus! {

/// Relies on `str::chars` collected into a `Vec`: the characters of `s`, in order.
#[verifier::external_body]
pub(crate) fn chars_of(s: &str) -> (r: Vec<char>)
    ensures
        r@ == s@,
{
    s.chars().collect()
}

/// Relies on `String: FromIterator<&char>`: the string of these characters.
#[verifier::external_body]
pub(crate) fn string_of(v: &Vec<char>) -> (r: String)
    ensures
        r@ == v@,
{
    v.iter().collect()
}

/// Appends `s[lo..hi]` to `out`.
pub(crate) fn push_range(out: &mut Vec<char>, s: &Vec<char>, lo: usize, hi: usize)
    requires
        lo <= hi <= s@.len(),
    ensures
        final(out)@ == old(out)@ + s@.subrange(lo as int, hi as int),
{
    let mut k = lo;
    while k < hi
        invariant
            lo <= k <= hi,
            hi <= s@.len(),
            out@ == old(out)@ + s@.subrange(lo as int, k as int),
        decreases hi - k,
    {
        out.push(s[k]);
        proof {
            assert(s@.subrange(lo as int, k + 1) =~= s@.subrange(lo as int, k as int).push(s@[k as int]));
        }
        k += 1;
    }
}

/// Whether `a` equals `s[lo..hi]`.
pub(crate) fn equals_range(a: &Vec<char>, s: &Vec<char>, lo: usize, hi: usize) -> (r: bool)
    requires
        lo <= hi <= s@.len(),
    ensures
        r == (a@ == s@.subrange(lo as int, hi as int)),
{
    if a.len() != hi - lo {
        return false;
    }
    let mut k: usize = 0;
    while k < a.len()
        invariant
            a@.len() == hi - lo,
            lo <= hi <= s@.len(),
            k <= a@.len(),
            forall|j: int| 0 <= j < k ==> a@[j] == s@[lo + j],
        decreases a.len() - k,
    {
        if a[k] != s[lo + k] {
            return false;
        }
        k += 1;
    }
    assert(a@ =~= s@.subrange(lo as int, hi as int));
    true
}

} // verus!
