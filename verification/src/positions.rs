//! Lists of positions: which items of a sequence a rule picks, in order.
use vstd::prelude::*;

verus! {

/// What a list holds after one more position.
pub proof fn lemma_pushed(at: Seq<int>, last: int, k: int)
    ensures
        at.push(last).contains(k) <==> at.contains(k) || k == last,
{
    let longer = at.push(last);
    if at.contains(k) {
        let i = at.index_of(k);
        assert(longer[i] == k);
    }
    if k == last {
        assert(longer[at.len() as int] == k);
    }
    if longer.contains(k) && k != last {
        let i = longer.index_of(k);
        assert(at[i] == k);
    }
}

/// The places of the items that a filter keeps, in order.
pub proof fn lemma_filter_positions<A>(s: Seq<A>, pred: spec_fn(A) -> bool) -> (at: Seq<int>)
    ensures
        at.len() == s.filter(pred).len(),
        forall|i: int|
            0 <= i < at.len() ==> 0 <= #[trigger] at[i] < s.len() && s[at[i]] == s.filter(pred)[i],
        forall|i: int, j: int| 0 <= i < j < at.len() ==> #[trigger] at[i] < #[trigger] at[j],
        forall|k: int| 0 <= k < s.len() ==> (at.contains(k) <==> pred(#[trigger] s[k])),
    decreases s.len(),
{
    reveal(Seq::filter);
    if s.len() == 0 {
        Seq::empty()
    } else {
        let rest = s.drop_last();
        let n = s.len() - 1;
        let before = lemma_filter_positions(rest, pred);
        assert(forall|k: int| 0 <= k < n ==> rest[k] == #[trigger] s[k]);
        assert(!before.contains(n));
        if pred(s.last()) {
            let at = before.push(n);
            assert forall|k: int| 0 <= k < s.len() implies (at.contains(k) <==> pred(
                #[trigger] s[k],
            )) by {
                lemma_pushed(before, n, k);
            }
            at
        } else {
            before
        }
    }
}

} // verus!
