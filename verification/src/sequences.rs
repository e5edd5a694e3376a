//! Facts about sequences.

use vstd::prelude::*;
use vstd::seq_lib::*;

verus! {

/// Filtering goes element by element.
pub proof fn lemma_filter_push<A>(s: Seq<A>, a: A, keep: spec_fn(A) -> bool)
    ensures
        s.push(a).filter(keep) == if keep(a) {
            s.filter(keep).push(a)
        } else {
            s.filter(keep)
        },
{
    reveal(Seq::filter);
    assert(s.push(a).drop_last() =~= s);
}

/// Filtering one element keeps it or leaves nothing.
pub proof fn lemma_filter_one<A>(a: A, keep: spec_fn(A) -> bool)
    ensures
        seq![a].filter(keep) == if keep(a) {
            seq![a]
        } else {
            Seq::empty()
        },
{
    let none = Seq::<A>::empty();
    lemma_filter_push(none, a, keep);
    reveal(Seq::filter);
    assert(none.push(a) =~= seq![a]);
    assert(none.filter(keep) =~= none);
}

/// What a filter drops and what it keeps make up the whole.
pub proof fn lemma_filter_parts<A>(s: Seq<A>, keep: spec_fn(A) -> bool)
    ensures
        (s.filter(|a: A| !keep(a)) + s.filter(keep)).to_multiset() == s.to_multiset(),
    decreases s.len(),
{
    let drop = |a: A| !keep(a);
    if s.len() == 0 {
        reveal(Seq::filter);
        assert(s.filter(drop) + s.filter(keep) =~= s);
    } else {
        let shorter = s.drop_last();
        let last = s.last();
        lemma_filter_parts(shorter, keep);
        lemma_filter_push(shorter, last, keep);
        lemma_filter_push(shorter, last, drop);
        assert(shorter.push(last) =~= s);
        shorter.to_multiset_ensures();
        lemma_multiset_commutative(shorter.filter(drop), shorter.filter(keep));
        lemma_multiset_commutative(s.filter(drop), s.filter(keep));
        shorter.filter(drop).to_multiset_ensures();
        shorter.filter(keep).to_multiset_ensures();
        assert((s.filter(drop) + s.filter(keep)).to_multiset() =~= s.to_multiset());
    }
}

/// A filter adds nothing.
pub proof fn lemma_filtered_are_contained<A>(s: Seq<A>, keep: spec_fn(A) -> bool)
    ensures
        forall|a: A| #[trigger] s.filter(keep).contains(a) ==> s.contains(a) && keep(a),
    decreases s.len(),
{
    reveal(Seq::filter);
    if s.len() > 0 {
        let shorter = s.drop_last();
        lemma_filtered_are_contained(shorter, keep);
        assert forall|a: A| #[trigger] s.filter(keep).contains(a) implies s.contains(a) && keep(
            a,
        ) by {
            let at = choose|at: int| 0 <= at < s.filter(keep).len() && s.filter(keep)[at] == a;
            if at < shorter.filter(keep).len() {
                assert(shorter.filter(keep)[at] == a);
                assert(shorter.filter(keep).contains(a));
                let from = choose|from: int| 0 <= from < shorter.len() && shorter[from] == a;
                assert(s[from] == a);
            } else {
                assert(s[s.len() - 1] == a);
            }
        }
    }
}

} // verus!
