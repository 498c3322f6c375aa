//! Small verified helpers on strings, used throughout the shell.

use vstd::prelude::*;

verus! {

/// Character-wise equality of two string slices.
pub fn str_eq(a: &str, b: &str) -> (r: bool)
    ensures
        r <==> a@ == b@,
{
    let alen = a.unicode_len();
    let blen = b.unicode_len();
    if alen != blen {
        return false;
    }
    let mut i: usize = 0;
    while i < alen
        invariant
            0 <= i <= alen,
            alen == a@.len() == b@.len(),
            forall|j: int| 0 <= j < i ==> a@[j] == b@[j],
        decreases alen - i,
    {
        if a.get_char(i) != b.get_char(i) {
            return false;
        }
        i = i + 1;
    }
    proof {
        assert(a@ =~= b@);
    }
    true
}

/// Whether `prefix` is a prefix of `s`.
pub open spec fn spec_starts_with(s: Seq<char>, prefix: Seq<char>) -> bool {
    prefix.len() <= s.len() && s.subrange(0, prefix.len() as int) == prefix
}

/// Character-wise prefix test.
pub fn str_starts_with(s: &str, prefix: &str) -> (r: bool)
    ensures
        r <==> spec_starts_with(s@, prefix@),
{
    let slen = s.unicode_len();
    let plen = prefix.unicode_len();
    if plen > slen {
        return false;
    }
    let mut i: usize = 0;
    while i < plen
        invariant
            0 <= i <= plen,
            plen == prefix@.len() <= s@.len() == slen,
            forall|j: int| 0 <= j < i ==> s@[j] == prefix@[j],
        decreases plen - i,
    {
        if s.get_char(i) != prefix.get_char(i) {
            proof {
                assert(s@.subrange(0, plen as int)[i as int] == s@[i as int]);
            }
            return false;
        }
        i = i + 1;
    }
    proof {
        assert(s@.subrange(0, plen as int) =~= prefix@);
    }
    true
}

/// Splitting a text at `n` and re-appending both halves after `t0` gives
/// the same sequence as appending the whole text: the step every consuming
/// parser takes preserves the total text.
pub proof fn lemma_consume_append(t0: Seq<char>, rem: Seq<char>, n: int)
    requires
        0 <= n <= rem.len(),
    ensures
        (t0 + rem.subrange(0, n)) + rem.skip(n) == t0 + rem,
{
    assert((t0 + rem.subrange(0, n)) + rem.skip(n) =~= t0 + rem);
}

/// Cancel a shared prefix: appending the same text in front of two equal
/// results means the tails were equal.
pub proof fn lemma_concat_cancel(a: Seq<char>, x: Seq<char>, y: Seq<char>)
    requires
        a + x == a + y,
    ensures
        x == y,
{
    assert((a + x).len() == a.len() + x.len());
    assert((a + y).len() == a.len() + y.len());
    assert((a + x).len() == (a + y).len());
    assert(x.len() == y.len());
    assert forall|i: int| 0 <= i < x.len() implies x[i] == y[i] by {
        assert(0 <= i < y.len());
        assert((a + x)[a.len() + i] == x[i]);
        assert((a + y)[a.len() + i] == y[i]);
        assert((a + x)[a.len() + i] == (a + y)[a.len() + i]);
    }
    assert(x =~= y);
}

} // verus!
