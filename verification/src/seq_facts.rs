use vstd::prelude::*;

verus! {

/// Every element of a filtered sequence is an element of the sequence it
/// was filtered from.
pub proof fn lemma_filter_subset<A>(s: Seq<A>, pred: spec_fn(A) -> bool)
    ensures
        forall|k: int| 0 <= k < s.filter(pred).len() ==> s.contains(#[trigger] s.filter(pred)[k]),
    decreases s.len(),
{
    reveal(Seq::filter);
    if s.len() > 0 {
        let d = s.drop_last();
        lemma_filter_subset(d, pred);
        let f = s.filter(pred);
        let df = d.filter(pred);
        assert forall|k: int| 0 <= k < f.len() implies s.contains(f[k]) by {
            if k < df.len() {
                assert(d.contains(df[k]));
                let w = choose|w: int| 0 <= w < d.len() && d[w] == df[k];
                assert(s[w] == f[k]);
            } else {
                assert(f[k] == s.last());
                assert(s[s.len() - 1] == s.last());
            }
        }
    }
}

/// An element of a sequence is an element of every reordering of it.
pub proof fn lemma_contains_of_permutation<A>(s1: Seq<A>, s2: Seq<A>, x: A)
    requires
        s1.to_multiset() == s2.to_multiset(),
        s1.contains(x),
    ensures
        s2.contains(x),
{
    broadcast use vstd::seq_lib::group_to_multiset_ensures;

    assert(s1.to_multiset().count(x) > 0);
}

} // verus!
