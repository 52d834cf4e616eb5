//! Lemmas about filtering sequences, used by the stable insertions.
use vstd::prelude::*;

verus! {

/// A filter keeps nothing of a sequence none of whose items pass it.
pub(crate) proof fn lemma_filter_none<A>(s: Seq<A>, p: spec_fn(A) -> bool)
    requires
        forall|k: int| 0 <= k < s.len() ==> !p(#[trigger] s[k]),
    ensures
        s.filter(p) == Seq::<A>::empty(),
{
    assert(s.all(|x: A| !p(x)));
    s.lemma_all_neg_filter_empty(p);
    assert(s.filter(p) =~= Seq::<A>::empty());
}

/// Filtering a sequence with one item inserted.
pub(crate) proof fn lemma_filter_insert<A>(s: Seq<A>, pos: int, x: A, p: spec_fn(A) -> bool)
    requires
        0 <= pos <= s.len(),
    ensures
        s.insert(pos, x).filter(p) == s.take(pos).filter(p) + seq![x].filter(p) + s.skip(pos).filter(p),
        s.push(x).filter(p) == s.take(pos).filter(p) + s.skip(pos).filter(p) + seq![x].filter(p),
{
    assert(s.insert(pos, x) =~= s.take(pos) + seq![x] + s.skip(pos));
    assert(s.push(x) =~= s.take(pos) + s.skip(pos) + seq![x]);
    Seq::filter_distributes_over_add(s.take(pos) + seq![x], s.skip(pos), p);
    Seq::filter_distributes_over_add(s.take(pos), seq![x], p);
    Seq::filter_distributes_over_add(s.take(pos) + s.skip(pos), seq![x], p);
    Seq::filter_distributes_over_add(s.take(pos), s.skip(pos), p);
}

/// Filtering a one-item sequence.
pub(crate) proof fn lemma_filter_single<A>(x: A, p: spec_fn(A) -> bool)
    ensures
        seq![x].filter(p) == (if p(x) {
            seq![x]
        } else {
            Seq::<A>::empty()
        }),
{
    Seq::<A>::empty().lemma_filter_push(x, p);
    assert(Seq::<A>::empty().push(x) =~= seq![x]);
    lemma_filter_none(Seq::<A>::empty(), p);
    assert(Seq::<A>::empty().push(x) =~= seq![x]);
}

} // verus!
