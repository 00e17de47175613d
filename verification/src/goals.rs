//! Which goals a report shows, and in what order.

use vstd::prelude::*;
use vstd::set_lib::{lemma_int_range, lemma_subset_equality, set_int_range};
use crate::model::Goal;
use crate::filters::{lemma_filter_keeps, lemma_filter_step};
use crate::text::{lemma_lex_le_order, lex_le, same_text, str_le};

verus! {

/// A goal is shown at `now` where its window holds `now`, both ends included,
/// and a team owns it.
pub open spec fn goal_is_current(g: Goal, now: Seq<char>) -> bool {
    &&& lex_le(now, g.date_to@)
    &&& lex_le(g.date_from@, now)
    &&& g.assignee.kind@ == "team"@
}

/// The goals shown at `now`: those of `goals` that are current, in the order
/// given.
pub open spec fn goals_shown(goals: Seq<Goal>, now: Seq<char>) -> Seq<Goal> {
    goals.filter(|g: Goal| goal_is_current(g, now))
}

/// Whether `g` is shown at `now`.
pub fn is_current_goal(g: &Goal, now: &str) -> (r: bool)
    ensures
        r == goal_is_current(*g, now@),
{
    str_le(now, g.date_to.as_str()) && str_le(g.date_from.as_str(), now)
        && same_text(g.assignee.kind.as_str(), "team")
}

/// The goals shown at `now`, in the order in which they were given.
pub fn filter_goals(goals: Vec<Goal>, now: &str) -> (out: Vec<Goal>)
    ensures
        out@ == goals_shown(goals@, now@),
{
    let mut out: Vec<Goal> = Vec::new();
    let ghost pred = |g: Goal| goal_is_current(g, now@);
    for g in it: goals
        invariant
            it.seq() == goals@,
            forall|x: Goal| #[trigger] pred(x) == goal_is_current(x, now@),
            out@ == goals@.take(it.index() as int).filter(pred),
    {
        proof {
            lemma_filter_step(goals@, pred, it.index() as int);
        }
        if is_current_goal(&g, now) {
            out.push(g);
        }
    }
    assert(goals@.take(goals@.len() as int) =~= goals@);
    out
}

/// The order in which goals are shown: by `date_from`, then by `session_id`,
/// then by the owner's name, each in lexical order.
pub open spec fn key_le(a: Goal, b: Goal) -> bool {
    if a.date_from@ != b.date_from@ {
        lex_le(a.date_from@, b.date_from@)
    } else if a.session_id@ != b.session_id@ {
        lex_le(a.session_id@, b.session_id@)
    } else {
        lex_le(a.assignee.name@, b.assignee.name@)
    }
}

/// Two goals that the order does not tell apart.
pub open spec fn same_key(a: Goal, b: Goal) -> bool {
    &&& a.date_from@ == b.date_from@
    &&& a.session_id@ == b.session_id@
    &&& a.assignee.name@ == b.assignee.name@
}

/// The goal at `i` of `inp` is shown before the one at `j`: its key is
/// smaller, or the keys are the same and it was given first.
pub open spec fn shown_before(inp: Seq<Goal>, i: int, j: int) -> bool {
    key_le(inp[i], inp[j]) && (key_le(inp[j], inp[i]) ==> i < j)
}

/// `out` is `inp` in the order shown: `order[k]` is the place in `inp` of the
/// goal at `k` of `out`, and each goal of `out` is shown before those behind it.
pub open spec fn is_stable_sort(inp: Seq<Goal>, out: Seq<Goal>, order: Seq<int>) -> bool {
    &&& out.len() == inp.len()
    &&& order.len() == inp.len()
    &&& forall|k: int|
        0 <= k < out.len() ==> 0 <= #[trigger] order[k] < inp.len() && out[k] == inp[order[k]]
    &&& forall|k: int, l: int|
        0 <= k < l < out.len() ==> shown_before(inp, #[trigger] order[k], #[trigger] order[l])
}

/// `key_le` orders all goals: any two compare, and it is transitive; goals
/// that compare both ways have the same key.
pub proof fn lemma_key_le_order(a: Goal, b: Goal, c: Goal)
    ensures
        key_le(a, a),
        key_le(a, b) || key_le(b, a),
        key_le(a, b) && key_le(b, c) ==> key_le(a, c),
        key_le(a, b) && key_le(b, a) <==> same_key(a, b),
{
    lemma_lex_le_order(a.date_from@, b.date_from@, c.date_from@);
    lemma_lex_le_order(a.session_id@, b.session_id@, c.session_id@);
    lemma_lex_le_order(a.assignee.name@, b.assignee.name@, c.assignee.name@);
}

/// Whether `a` is shown no later than `b` by its key.
pub fn goal_key_le(a: &Goal, b: &Goal) -> (r: bool)
    ensures
        r == key_le(*a, *b),
{
    if !same_text(a.date_from.as_str(), b.date_from.as_str()) {
        str_le(a.date_from.as_str(), b.date_from.as_str())
    } else if !same_text(a.session_id.as_str(), b.session_id.as_str()) {
        str_le(a.session_id.as_str(), b.session_id.as_str())
    } else {
        str_le(a.assignee.name.as_str(), b.assignee.name.as_str())
    }
}

/// The goals in the order shown. Goals with the same key keep the order in
/// which they were given.
pub fn sort_goals(goals: Vec<Goal>) -> (out: Vec<Goal>)
    ensures
        exists|order: Seq<int>| is_stable_sort(goals@, out@, order),
{
    let mut out: Vec<Goal> = Vec::new();
    let ghost mut order: Seq<int> = Seq::empty();
    for g in it: goals
        invariant
            it.seq() == goals@,
            is_stable_sort(goals@.take(it.index() as int), out@, order),
    {
        let ghost i: int = it.index() as int;
        let ghost seen = goals@.take(i);
        let ghost next = goals@.take(i + 1);
        let mut p: usize = out.len();
        while p > 0 && !goal_key_le(&out[p - 1], &g)
            invariant
                p <= out.len(),
                forall|j: int| p <= j < out.len() ==> !key_le(#[trigger] out@[j], g),
            decreases p,
        {
            p = p - 1;
        }
        let ghost old_out = out@;
        let ghost old_order = order;
        out.insert(p, g);
        proof {
            order = old_order.insert(p as int, i);
            assert forall|k: int| 0 <= k < out@.len() implies 0 <= #[trigger] order[k] < next.len()
                && out@[k] == next[order[k]] by {
                if k < p {
                    assert(order[k] == old_order[k]);
                    assert(old_out[k] == seen[old_order[k]]);
                } else if k > p {
                    assert(order[k] == old_order[k - 1]);
                    assert(old_out[k - 1] == seen[old_order[k - 1]]);
                }
            }
            assert forall|k: int, l: int| 0 <= k < l < out@.len() implies shown_before(
                next,
                #[trigger] order[k],
                #[trigger] order[l],
            ) by {
                let a = if k < p { k } else { k - 1 };
                let b = if l < p { l } else { l - 1 };
                if k != p && l != p {
                    assert(shown_before(seen, old_order[a], old_order[b]));
                } else if k == p {
                    assert(0 <= old_order[b] < i);
                    assert(old_out[b] == seen[old_order[b]]);
                    lemma_key_le_order(g, old_out[b], g);
                } else {
                    assert(0 <= old_order[a] < i);
                    assert(old_out[a] == seen[old_order[a]]);
                    assert(old_out[p - 1] == seen[old_order[p - 1]]);
                    if a < p - 1 {
                        assert(shown_before(seen, old_order[a], old_order[p - 1]));
                    }
                    lemma_key_le_order(old_out[a], old_out[p - 1], g);
                }
            }
        }
    }
    assert(goals@.take(goals@.len() as int) =~= goals@);
    out
}

/// The goals shown at `now`, in the order shown.
pub fn select_goals(goals: Vec<Goal>, now: &str) -> (out: Vec<Goal>)
    ensures
        exists|order: Seq<int>| is_stable_sort(goals_shown(goals@, now@), out@, order),
{
    sort_goals(filter_goals(goals, now))
}

/// A goal is among those shown at `now` if and only if it is among those
/// given, its window holds `now`, and a team owns it.
pub proof fn lemma_filter_goals_exact(goals: Seq<Goal>, now: Seq<char>, g: Goal)
    ensures
        goals_shown(goals, now).contains(g) <==> goals.contains(g)
            && lex_le(g.date_from@, now) && lex_le(now, g.date_to@) && g.assignee.kind@ == "team"@,
{
    lemma_filter_keeps(goals, |g: Goal| goal_is_current(g, now), g);
}

/// In the order shown, goals stand by ascending key.
pub proof fn lemma_sort_ascending(inp: Seq<Goal>, out: Seq<Goal>, order: Seq<int>, k: int, l: int)
    requires
        is_stable_sort(inp, out, order),
        0 <= k <= l < out.len(),
    ensures
        key_le(out[k], out[l]),
{
    if k < l {
        assert(shown_before(inp, order[k], order[l]));
    } else {
        lemma_key_le_order(out[k], out[k], out[k]);
    }
}

/// In the order shown, goals with the same `date_from`, `session_id` and
/// owner's name stand as they were given: what was given first is shown first.
pub proof fn lemma_sort_stable(inp: Seq<Goal>, out: Seq<Goal>, order: Seq<int>, k: int, l: int)
    requires
        is_stable_sort(inp, out, order),
        0 <= k < l < out.len(),
        same_key(out[k], out[l]),
    ensures
        order[k] < order[l],
{
    assert(shown_before(inp, order[k], order[l]));
    lemma_key_le_order(out[l], out[k], out[k]);
}

/// The order shown takes no goal twice: two places of `out` hold goals from
/// two places of `inp`.
pub proof fn lemma_sort_takes_each_once(inp: Seq<Goal>, out: Seq<Goal>, order: Seq<int>, k: int, l: int)
    requires
        is_stable_sort(inp, out, order),
        0 <= k < out.len(),
        0 <= l < out.len(),
        k != l,
    ensures
        order[k] != order[l],
{
    lemma_key_le_order(out[k], out[k], out[k]);
    if k < l {
        assert(shown_before(inp, order[k], order[l]));
    } else {
        assert(shown_before(inp, order[l], order[k]));
    }
}

/// The order shown leaves no goal out: every place of `inp` is that of a goal
/// of `out`.
pub proof fn lemma_sort_takes_all(inp: Seq<Goal>, out: Seq<Goal>, order: Seq<int>, j: int)
    requires
        is_stable_sort(inp, out, order),
        0 <= j < inp.len(),
    ensures
        exists|k: int| 0 <= k < out.len() && #[trigger] order[k] == j,
{
    broadcast use vstd::seq_lib::seq_to_set_is_finite;

    let n = inp.len() as int;
    assert forall|a: int, b: int|
        0 <= a < order.len() && 0 <= b < order.len() && a != b implies order[a] != order[b] by {
        lemma_sort_takes_each_once(inp, out, order, a, b);
    }
    assert(order.no_duplicates());
    order.unique_seq_to_set();
    lemma_int_range(0, n);
    assert forall|x: int| order.to_set().contains(x) implies set_int_range(0, n).contains(x) by {
        assert(order.contains(x));
        let k = choose|k: int| 0 <= k < order.len() && order[k] == x;
        assert(0 <= order[k] < n);
    }
    assert(order.to_set().subset_of(set_int_range(0, n)));
    lemma_subset_equality(order.to_set(), set_int_range(0, n));
    assert(set_int_range(0, n).contains(j));
    assert(order.to_set().contains(j));
    assert(order.contains(j));
    let k = choose|k: int| 0 <= k < order.len() && order[k] == j;
    assert(0 <= k < out.len() && order[k] == j);
}

/// Two orders shown of the same goals agree on their first `n` places.
proof fn lemma_sort_agrees(
    inp: Seq<Goal>,
    out1: Seq<Goal>,
    order1: Seq<int>,
    out2: Seq<Goal>,
    order2: Seq<int>,
    n: int,
)
    requires
        is_stable_sort(inp, out1, order1),
        is_stable_sort(inp, out2, order2),
        0 <= n <= inp.len(),
    ensures
        forall|i: int| 0 <= i < n ==> order1[i] == order2[i],
    decreases n,
{
    if n > 0 {
        lemma_sort_agrees(inp, out1, order1, out2, order2, n - 1);
        let i = n - 1;
        let x = order1[i];
        let y = order2[i];
        if x != y {
            lemma_sort_takes_all(inp, out2, order2, x);
            let j = choose|j: int| 0 <= j < out2.len() && #[trigger] order2[j] == x;
            lemma_sort_takes_all(inp, out1, order1, y);
            let k = choose|k: int| 0 <= k < out1.len() && #[trigger] order1[k] == y;
            if j < i {
                lemma_sort_takes_each_once(inp, out1, order1, j, i);
            }
            if k < i {
                lemma_sort_takes_each_once(inp, out2, order2, k, i);
            }
            assert(shown_before(inp, order2[i], order2[j]));
            assert(shown_before(inp, order1[i], order1[k]));
        }
    }
}

/// The order shown is the only one: two that `is_stable_sort` holds of, for
/// the same goals, are the same.
pub proof fn lemma_sort_unique(
    inp: Seq<Goal>,
    out1: Seq<Goal>,
    order1: Seq<int>,
    out2: Seq<Goal>,
    order2: Seq<int>,
)
    requires
        is_stable_sort(inp, out1, order1),
        is_stable_sort(inp, out2, order2),
    ensures
        out1 == out2,
        order1 == order2,
{
    lemma_sort_agrees(inp, out1, order1, out2, order2, inp.len() as int);
    assert(order1 =~= order2);
    assert forall|k: int| 0 <= k < out1.len() implies out1[k] == out2[k] by {
        assert(out1[k] == inp[order1[k]]);
        assert(out2[k] == inp[order2[k]]);
    }
    assert(out1 =~= out2);
}

} // verus!
