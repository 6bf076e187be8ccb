//! The order of a schedule: ascending lower bounds, brackets with equal
//! lower bounds staying in the order in which they came.

use vstd::prelude::*;
use vstd::seq_lib::to_multiset_insert;
use crate::tax_bracket::BracketInfo;

verus! {

/// No bracket stands before one with a smaller lower bound.
pub open spec fn sorted_by_min(s: Seq<BracketInfo>) -> bool {
    forall|i: int, j: int| 0 <= i < j < s.len() ==> s[i].bracket_min <= s[j].bracket_min
}

/// The brackets of `s` whose lower bound is `key`, in their order in `s`.
pub open spec fn with_min(s: Seq<BracketInfo>, key: u64) -> Seq<BracketInfo> {
    s.filter(|b: BracketInfo| b.bracket_min == key)
}

/// Where a bracket with lower bound `key` goes into `s`: behind the last
/// bracket whose lower bound is not above `key`.
pub open spec fn insert_index(s: Seq<BracketInfo>, key: u64) -> int
    decreases s.len(),
{
    if s.len() == 0 || s.last().bracket_min <= key {
        s.len() as int
    } else {
        insert_index(s.drop_last(), key)
    }
}

/// The brackets of `s` by ascending lower bound, those with equal lower
/// bounds in their order in `s`.
pub open spec fn sort_by_min(s: Seq<BracketInfo>) -> Seq<BracketInfo>
    decreases s.len(),
{
    if s.len() == 0 {
        s
    } else {
        let front = sort_by_min(s.drop_last());
        front.insert(insert_index(front, s.last().bracket_min), s.last())
    }
}

/// The insertion index lies in the sequence; every bracket from it on has a
/// lower bound above the key, and the bracket before it has not.
pub proof fn lemma_insert_index_bounds(s: Seq<BracketInfo>, key: u64)
    ensures
        0 <= insert_index(s, key) <= s.len(),
        forall|k: int| insert_index(s, key) <= k < s.len() ==> s[k].bracket_min > key,
        insert_index(s, key) > 0 ==> s[insert_index(s, key) - 1].bracket_min <= key,
    decreases s.len(),
{
    if !(s.len() == 0 || s.last().bracket_min <= key) {
        let front = s.drop_last();
        lemma_insert_index_bounds(front, key);
        assert forall|k: int| insert_index(s, key) <= k < s.len() implies s[k].bracket_min
            > key by {
            if k < front.len() {
                assert(s[k] == front[k]);
            }
        }
        if insert_index(s, key) > 0 {
            assert(s[insert_index(s, key) - 1] == front[insert_index(front, key) - 1]);
        }
    }
}

/// Only one index has the brackets above the key behind it and a bracket not
/// above the key before it: the insertion index.
pub proof fn lemma_insert_index_unique(s: Seq<BracketInfo>, key: u64, at: int)
    requires
        0 <= at <= s.len(),
        forall|k: int| at <= k < s.len() ==> s[k].bracket_min > key,
        at > 0 ==> s[at - 1].bracket_min <= key,
    ensures
        insert_index(s, key) == at,
    decreases s.len(),
{
    if !(s.len() == 0 || s.last().bracket_min <= key) {
        let front = s.drop_last();
        if at == s.len() {
            assert(s[at - 1] == s.last());
        }
        assert forall|k: int| at <= k < front.len() implies front[k].bracket_min > key by {
            assert(front[k] == s[k]);
        }
        if at > 0 {
            assert(front[at - 1] == s[at - 1]);
        }
        lemma_insert_index_unique(front, key, at);
    } else if s.len() > 0 {
        if at < s.len() {
            assert(s[s.len() - 1].bracket_min > key);
        }
    }
}

/// A bracket put at its insertion index into a sorted sequence leaves the
/// sequence sorted.
pub proof fn lemma_insert_keeps_sorted(s: Seq<BracketInfo>, b: BracketInfo)
    requires
        sorted_by_min(s),
    ensures
        sorted_by_min(s.insert(insert_index(s, b.bracket_min), b)),
{
    let at = insert_index(s, b.bracket_min);
    lemma_insert_index_bounds(s, b.bracket_min);
    let t = s.insert(at, b);
    assert(t.len() == s.len() + 1);
    assert forall|i: int, j: int| 0 <= i < j < t.len() implies t[i].bracket_min
        <= t[j].bracket_min by {
        lemma_inserted_at(s, at, b, i);
        lemma_inserted_at(s, at, b, j);
        if i < at {
            assert(s[i].bracket_min <= s[at - 1].bracket_min);
        }
    }
}

/// What stands at index `i` once `b` has been put in at index `at`.
proof fn lemma_inserted_at(s: Seq<BracketInfo>, at: int, b: BracketInfo, i: int)
    requires
        0 <= at <= s.len(),
        0 <= i <= s.len(),
    ensures
        s.insert(at, b)[i] == if i < at {
            s[i]
        } else if i == at {
            b
        } else {
            s[i - 1]
        },
{
}

/// A bracket put at its insertion index comes last among the brackets with
/// its lower bound, and changes nothing among the others.
pub proof fn lemma_insert_with_min(s: Seq<BracketInfo>, b: BracketInfo, key: u64)
    ensures
        with_min(s.insert(insert_index(s, b.bracket_min), b), key) == if b.bracket_min == key {
            with_min(s, key).push(b)
        } else {
            with_min(s, key)
        },
{
    let at = insert_index(s, b.bracket_min);
    let pred = |x: BracketInfo| x.bracket_min == key;
    lemma_insert_index_bounds(s, b.bracket_min);
    let head = s.subrange(0, at);
    let tail = s.subrange(at, s.len() as int);
    assert(s =~= head + tail);
    Seq::filter_distributes_over_add(head, tail, pred);
    Seq::filter_distributes_over_add(head.push(b), tail, pred);
    head.lemma_filter_push(b, pred);
    if b.bracket_min == key {
        assert forall|i: int| 0 <= i < tail.len() implies !pred(tail[i]) by {
            assert(tail[i] == s[at + i]);
        }
        tail.lemma_all_neg_filter_empty(pred);
        assert(tail.filter(pred) =~= Seq::<BracketInfo>::empty());
        assert(head.filter(pred).push(b) + tail.filter(pred) =~= (head.filter(pred)
            + tail.filter(pred)).push(b));
    }
}

/// Sorting gives a sorted sequence.
pub proof fn lemma_sort_is_sorted(s: Seq<BracketInfo>)
    ensures
        sorted_by_min(sort_by_min(s)),
    decreases s.len(),
{
    if s.len() > 0 {
        lemma_sort_is_sorted(s.drop_last());
        lemma_insert_keeps_sorted(sort_by_min(s.drop_last()), s.last());
    }
}

/// Sorting keeps every bracket, as often as it occurs.
pub proof fn lemma_sort_is_permutation(s: Seq<BracketInfo>)
    ensures
        sort_by_min(s).to_multiset() == s.to_multiset(),
        sort_by_min(s).len() == s.len(),
    decreases s.len(),
{
    if s.len() > 0 {
        let front = sort_by_min(s.drop_last());
        lemma_sort_is_permutation(s.drop_last());
        lemma_insert_index_bounds(front, s.last().bracket_min);
        to_multiset_insert(front, insert_index(front, s.last().bracket_min), s.last());
        assert(s =~= s.drop_last().push(s.last()));
        vstd::seq_lib::to_multiset_build(s.drop_last(), s.last());
        front.insert_ensures(insert_index(front, s.last().bracket_min), s.last());
    }
}

/// Sorting is stable: the brackets that share a lower bound keep their order.
pub proof fn lemma_sort_is_stable(s: Seq<BracketInfo>, key: u64)
    ensures
        with_min(sort_by_min(s), key) == with_min(s, key),
    decreases s.len(),
{
    let pred = |x: BracketInfo| x.bracket_min == key;
    if s.len() > 0 {
        lemma_sort_is_stable(s.drop_last(), key);
        lemma_insert_with_min(sort_by_min(s.drop_last()), s.last(), key);
        s.drop_last().lemma_filter_push(s.last(), pred);
        assert(s =~= s.drop_last().push(s.last()));
    }
}

/// A sequence that is sorted already is left as it is.
pub proof fn lemma_sort_of_sorted(s: Seq<BracketInfo>)
    requires
        sorted_by_min(s),
    ensures
        sort_by_min(s) == s,
    decreases s.len(),
{
    if s.len() > 0 {
        let front = s.drop_last();
        lemma_sort_of_sorted(front);
        lemma_insert_index_unique(front, s.last().bracket_min, front.len() as int);
        assert(front.insert(front.len() as int, s.last()) =~= s);
    }
}

/// The brackets with the lower bound of the last bracket end with it, and
/// without it the others are left.
proof fn lemma_with_min_of_last(s: Seq<BracketInfo>, key: u64)
    requires
        s.len() > 0,
    ensures
        with_min(s, key) == if s.last().bracket_min == key {
            with_min(s.drop_last(), key).push(s.last())
        } else {
            with_min(s.drop_last(), key)
        },
{
    let pred = |x: BracketInfo| x.bracket_min == key;
    s.drop_last().lemma_filter_push(s.last(), pred);
    assert(s =~= s.drop_last().push(s.last()));
}

/// A bracket among those with the lower bound `key` stands in `s` with that
/// lower bound.
proof fn lemma_with_min_member(s: Seq<BracketInfo>, key: u64, i: int)
    requires
        0 <= i < with_min(s, key).len(),
    ensures
        with_min(s, key)[i].bracket_min == key,
        s.contains(with_min(s, key)[i]),
{
    let pred = |x: BracketInfo| x.bracket_min == key;
    s.lemma_filter_pred(pred, i);
    assert(s.filter(pred).contains(s.filter(pred)[i]));
    s.lemma_filter_contains_rev(pred, s.filter(pred)[i]);
}

/// Only one sequence is sorted and has, for every lower bound, the brackets
/// of `s` with that lower bound in their order in `s`: the sorted `s`.
pub proof fn lemma_sorted_and_stable_is_unique(s: Seq<BracketInfo>, t: Seq<BracketInfo>)
    requires
        sorted_by_min(t),
        forall|key: u64| #[trigger] with_min(t, key) == with_min(s, key),
    ensures
        t == sort_by_min(s),
{
    let u = sort_by_min(s);
    lemma_sort_is_sorted(s);
    assert forall|key: u64| #[trigger] with_min(t, key) == with_min(u, key) by {
        lemma_sort_is_stable(s, key);
    }
    lemma_same_groups_same_order(t, u);
}

/// Two sorted sequences that agree on the brackets of every lower bound are
/// the same sequence.
proof fn lemma_same_groups_same_order(t: Seq<BracketInfo>, u: Seq<BracketInfo>)
    requires
        sorted_by_min(t),
        sorted_by_min(u),
        forall|key: u64| #[trigger] with_min(t, key) == with_min(u, key),
    ensures
        t == u,
    decreases t.len() + u.len(),
{
    if t.len() == 0 && u.len() == 0 {
        assert(t =~= u);
    } else if t.len() == 0 || u.len() == 0 {
        let (full, none) = if t.len() == 0 {
            (u, t)
        } else {
            (t, u)
        };
        let key = full.last().bracket_min;
        lemma_with_min_of_last(full, key);
        assert(with_min(full, key).len() > 0);
        assert(with_min(full, key) == with_min(none, key));
        none.lemma_filter_len(|x: BracketInfo| x.bracket_min == key);
    } else {
        let kt = t.last().bracket_min;
        let ku = u.last().bracket_min;
        lemma_with_min_of_last(t, kt);
        lemma_with_min_of_last(u, ku);
        lemma_with_min_of_last(t, ku);
        lemma_with_min_of_last(u, kt);
        assert(with_min(t, kt) == with_min(u, kt));
        assert(with_min(t, ku) == with_min(u, ku));
        if kt != ku {
            // The greater of the two lower bounds stands in one sequence
            // only, though both hold the same brackets of that lower bound.
            if kt < ku {
                let group = with_min(t, ku);
                assert(group.len() > 0);
                lemma_with_min_member(t, ku, 0);
                let at = choose|at: int| 0 <= at < t.len() && t[at] == group[0];
                assert(t[at].bracket_min <= t[t.len() - 1].bracket_min);
            } else {
                let group = with_min(u, kt);
                assert(group.len() > 0);
                lemma_with_min_member(u, kt, 0);
                let at = choose|at: int| 0 <= at < u.len() && u[at] == group[0];
                assert(u[at].bracket_min <= u[u.len() - 1].bracket_min);
            }
            assert(false);
        }
        let group = with_min(t, kt);
        assert(group.last() == t.last());
        assert(group.last() == u.last());
        assert(group.drop_last() =~= with_min(t.drop_last(), kt));
        assert(group.drop_last() =~= with_min(u.drop_last(), kt));
        assert forall|key: u64| #[trigger]
            with_min(t.drop_last(), key) == with_min(u.drop_last(), key) by {
            lemma_with_min_of_last(t, key);
            lemma_with_min_of_last(u, key);
            assert(with_min(t, key) == with_min(u, key));
        }
        assert(sorted_by_min(t.drop_last())) by {
            let front = t.drop_last();
            assert forall|i: int, j: int| 0 <= i < j < front.len() implies front[i].bracket_min
                <= front[j].bracket_min by {
                assert(front[i] == t[i] && front[j] == t[j]);
            }
        }
        assert(sorted_by_min(u.drop_last())) by {
            let front = u.drop_last();
            assert forall|i: int, j: int| 0 <= i < j < front.len() implies front[i].bracket_min
                <= front[j].bracket_min by {
                assert(front[i] == u[i] && front[j] == u[j]);
            }
        }
        lemma_same_groups_same_order(t.drop_last(), u.drop_last());
        assert(t =~= t.drop_last().push(t.last()));
        assert(u =~= u.drop_last().push(u.last()));
    }
}

} // verus!
