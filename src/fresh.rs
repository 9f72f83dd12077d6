use vstd::prelude::*;

verus! {

/// The values below `k`.
pub open spec fn values_below(k: u128) -> Set<u128> {
    Set::new(|x: u128| x < k)
}

/// There are exactly `k` values below `k`.
pub proof fn lemma_values_below_len(k: u128)
    ensures
        values_below(k).finite(),
        values_below(k).len() == k,
    decreases k,
{
    if k == 0 {
        assert(values_below(0) =~= Set::<u128>::empty());
    } else {
        let p = (k - 1) as u128;
        lemma_values_below_len(p);
        assert(values_below(k) =~= values_below(p).insert(p));
    }
}

/// A finite set of at most `n` values misses one of the values up to `n`.
pub proof fn lemma_small_value_free(s: Set<u128>, n: u128)
    requires
        s.finite(),
        s.len() <= n,
        n < u128::MAX,
    ensures
        exists|x: u128| x <= n && !s.contains(x),
{
    if forall|x: u128| x <= n ==> s.contains(x) {
        let m = (n + 1) as u128;
        lemma_values_below_len(m);
        assert(values_below(m).subset_of(s));
        vstd::set_lib::lemma_len_subset(values_below(m), s);
    }
}

} // verus!
