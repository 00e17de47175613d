//! What a filter of a sequence keeps.

use vstd::prelude::*;

verus! {

/// How a filter goes one item further: the item at `i` is added where `pred`
/// holds of it.
pub proof fn lemma_filter_step<T>(s: Seq<T>, pred: spec_fn(T) -> bool, i: int)
    requires
        0 <= i < s.len(),
    ensures
        s.take(i + 1).filter(pred) == if pred(s[i]) {
            s.take(i).filter(pred).push(s[i])
        } else {
            s.take(i).filter(pred)
        },
{
    reveal(Seq::filter);
    assert(s.take(i + 1).drop_last() =~= s.take(i));
}

/// A filter of one item keeps it where `pred` holds of it.
pub proof fn lemma_filter_one<T>(x: T, pred: spec_fn(T) -> bool)
    ensures
        seq![x].filter(pred) == if pred(x) {
            seq![x]
        } else {
            Seq::<T>::empty()
        },
{
    lemma_filter_step(seq![x], pred, 0);
    lemma_filter_none(Seq::<T>::empty(), pred);
    assert(seq![x].take(0) =~= Seq::<T>::empty());
    assert(seq![x].take(1) =~= seq![x]);
    assert(Seq::<T>::empty().push(x) =~= seq![x]);
}

/// A filter keeps nothing where `pred` holds of no item.
pub proof fn lemma_filter_none<T>(s: Seq<T>, pred: spec_fn(T) -> bool)
    requires
        forall|i: int| 0 <= i < s.len() ==> !pred(#[trigger] s[i]),
    ensures
        s.filter(pred) == Seq::<T>::empty(),
    decreases s.len(),
{
    reveal(Seq::filter);
    if s.len() > 0 {
        let front = s.drop_last();
        assert forall|i: int| 0 <= i < front.len() implies !pred(#[trigger] front[i]) by {
            assert(front[i] == s[i]);
        }
        lemma_filter_none(front, pred);
        assert(!pred(s[s.len() - 1]));
    } else {
        assert(s =~= Seq::<T>::empty());
    }
}

/// Two conditions that hold of the same items of `s` keep the same of it.
pub proof fn lemma_filter_same<T>(s: Seq<T>, p: spec_fn(T) -> bool, q: spec_fn(T) -> bool)
    requires
        forall|i: int| 0 <= i < s.len() ==> p(#[trigger] s[i]) == q(s[i]),
    ensures
        s.filter(p) == s.filter(q),
    decreases s.len(),
{
    reveal(Seq::filter);
    if s.len() > 0 {
        let front = s.drop_last();
        assert forall|i: int| 0 <= i < front.len() implies p(#[trigger] front[i]) == q(front[i]) by {
            assert(front[i] == s[i]);
        }
        lemma_filter_same(front, p, q);
        assert(p(s[s.len() - 1]) == q(s[s.len() - 1]));
    }
}

/// What a filter keeps: the items of `s` of which `pred` holds, and no others.
pub proof fn lemma_filter_keeps<T>(s: Seq<T>, pred: spec_fn(T) -> bool, x: T)
    ensures
        s.filter(pred).contains(x) <==> s.contains(x) && pred(x),
    decreases s.len(),
{
    reveal(Seq::filter);
    if s.len() > 0 {
        let front = s.drop_last();
        lemma_filter_keeps(front, pred, x);
        if s.contains(x) {
            let i = choose|i: int| 0 <= i < s.len() && s[i] == x;
            if i < s.len() - 1 {
                assert(front[i] == x);
            }
        }
        if front.contains(x) {
            let i = choose|i: int| 0 <= i < front.len() && front[i] == x;
            assert(s[i] == x);
        }
        assert(s[s.len() - 1] == s.last());
        let kept = front.filter(pred);
        if pred(s.last()) {
            assert(kept.push(s.last())[kept.len() as int] == s.last());
            if kept.push(s.last()).contains(x) {
                let i = choose|i: int| 0 <= i < kept.len() + 1 && kept.push(s.last())[i] == x;
                if i < kept.len() {
                    assert(kept[i] == x);
                }
            }
            if kept.contains(x) {
                let i = choose|i: int| 0 <= i < kept.len() && kept[i] == x;
                assert(kept.push(s.last())[i] == x);
            }
        }
    }
}

} // verus!
