//! Splitting text at a separator.

use vstd::prelude::*;

verus! {

/// The items of `s` before the first `sep`, or all of them.
pub open spec fn before<A>(s: Seq<A>, sep: A) -> Seq<A>
    decreases s.len(),
{
    if s.len() == 0 {
        s
    } else if s[0] == sep {
        Seq::empty()
    } else {
        seq![s[0]] + before(s.skip(1), sep)
    }
}

/// Where the first `sep` of `s` stands at `k` (or there is none and `k` is
/// the length), what comes before it is the first `k` items.
pub proof fn lemma_before_at<A>(s: Seq<A>, sep: A, k: int)
    requires
        0 <= k <= s.len(),
        forall|i: int| 0 <= i < k ==> s[i] != sep,
        k == s.len() || s[k] == sep,
    ensures
        before(s, sep) == s.take(k),
    decreases s.len(),
{
    if s.len() > 0 && s[0] != sep {
        lemma_before_at(s.skip(1), sep, k - 1);
        assert(seq![s[0]] + s.skip(1).take(k - 1) =~= s.take(k));
    } else if s.len() > 0 {
        assert(s.take(k) =~= Seq::<A>::empty());
    } else {
        assert(s.take(k) =~= s);
    }
}

} // verus!
