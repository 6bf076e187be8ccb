//! What holds of every schedule and every income.

use vstd::prelude::*;
use crate::rounding::{round_to_hundredths_spec, RATE_SCALE};
use crate::schedule::{
    all_valid,
    first_holding,
    holds,
    lemma_first_holding,
    loaded,
    tabulated,
    tabulated_at,
    tax_amount,
    valid_at,
};
use crate::sorting::{sort_by_min, sorted_by_min};
use crate::tax_bracket::BracketInfo;

verus! {

/// What a bracket at index `i` must satisfy for its schedule to be accepted:
/// a lower bound below the upper bound, a rate from zero to one, no bound
/// inside the bracket before it and no bound of that bracket inside this
/// one, and a stored running total equal to that of
/// the bracket before it plus that bracket's rate on the distance between the
/// two lower bounds, rounded to cents; the first bracket stores zero.
pub open spec fn acceptable_at(s: Seq<BracketInfo>, i: int) -> bool {
    &&& s[i].bracket_min < s[i].bracket_max
    &&& 0 <= s[i].tax_rate <= RATE_SCALE
    &&& i > 0 ==> !(s[i - 1].bracket_min <= s[i].bracket_min <= s[i - 1].bracket_max)
    &&& i > 0 ==> !(s[i - 1].bracket_min <= s[i].bracket_max <= s[i - 1].bracket_max)
    &&& i > 0 ==> !(s[i].bracket_min <= s[i - 1].bracket_min <= s[i].bracket_max)
    &&& i > 0 ==> !(s[i].bracket_min <= s[i - 1].bracket_max <= s[i].bracket_max)
    &&& i == 0 ==> s[i].cumulative_previous_tax == 0
    &&& i > 0 ==> s[i].cumulative_previous_tax == s[i - 1].cumulative_previous_tax
        + round_to_hundredths_spec(
        (s[i].bracket_min - s[i - 1].bracket_min) * 100 * s[i - 1].tax_rate,
    )
}

/// A schedule passes the check of its running totals and the check of its
/// brackets exactly when every bracket is acceptable where it stands.
pub proof fn lemma_accepted_iff_every_bracket_acceptable(s: Seq<BracketInfo>)
    ensures
        (tabulated(s) && all_valid(s)) <==> (forall|i: int|
            0 <= i < s.len() ==> acceptable_at(s, i)),
{
    if tabulated(s) && all_valid(s) {
        assert forall|i: int| 0 <= i < s.len() implies acceptable_at(s, i) by {
            assert(tabulated_at(s, i));
            assert(valid_at(s, i));
        }
    }
    if forall|i: int| 0 <= i < s.len() ==> acceptable_at(s, i) {
        assert forall|i: int| 0 <= i < s.len() implies tabulated_at(s, i) && valid_at(s, i) by {
            assert(acceptable_at(s, i));
        }
    }
}

/// Loading makes a schedule of the given brackets exactly when every
/// bracket is acceptable where it stands once they are sorted.
pub proof fn lemma_loaded_iff_every_bracket_acceptable(given: Seq<BracketInfo>)
    ensures
        loaded(given) is Some <==> (forall|i: int|
            0 <= i < given.len() ==> acceptable_at(sort_by_min(given), i)),
{
    lemma_accepted_iff_every_bracket_acceptable(sort_by_min(given));
    crate::sorting::lemma_sort_is_permutation(given);
}

/// Whether two brackets overlap does not depend on which of them is asked.
pub proof fn lemma_overlap_is_symmetric(a: BracketInfo, b: BracketInfo)
    ensures
        a.overlaps(&b) == b.overlaps(&a),
{
}

/// Two brackets whose lower bounds are not above their upper bounds overlap
/// exactly when they share an income.
pub proof fn lemma_overlap_is_intersection(a: BracketInfo, b: BracketInfo)
    requires
        a.bracket_min <= a.bracket_max,
        b.bracket_min <= b.bracket_max,
    ensures
        a.overlaps(&b) == a.intersects(&b),
        a.overlaps(&b) == (exists|taxable_income: int|
            holds(a, taxable_income) && holds(b, taxable_income)),
{
    if a.intersects(&b) {
        let shared = if a.bracket_min >= b.bracket_min {
            a.bracket_min * 100
        } else {
            b.bracket_min * 100
        };
        assert(holds(a, shared) && holds(b, shared));
    }
}

/// An income has a tax exactly when it is zero or some bracket takes it.
pub proof fn lemma_taxed_iff_held(s: Seq<BracketInfo>, taxable_income: int)
    ensures
        tax_amount(s, taxable_income) is Some <==> (taxable_income == 0 || exists|i: int|
            0 <= i < s.len() && holds(#[trigger] s[i], taxable_income)),
{
    lemma_first_holding(s, taxable_income, 0);
    let first = first_holding(s, taxable_income);
    if first < s.len() {
        assert(holds(s[first], taxable_income));
    }
}

/// An income other than zero that lies below the lower bound of every
/// bracket, or above the upper bound of every bracket, has no tax: it is
/// never moved into a bracket.
pub proof fn lemma_income_outside_every_bracket(s: Seq<BracketInfo>, taxable_income: int)
    requires
        taxable_income != 0,
        (forall|i: int| 0 <= i < s.len() ==> taxable_income < (#[trigger] s[i]).bracket_min * 100)
            || (forall|i: int|
            0 <= i < s.len() ==> taxable_income > (#[trigger] s[i]).bracket_max * 100),
    ensures
        tax_amount(s, taxable_income) is None,
{
    lemma_taxed_iff_held(s, taxable_income);
}

/// Loading the same brackets twice gives the same schedule, bracket for
/// bracket, and the two schedules put the same tax on every income.
pub proof fn lemma_loading_twice(
    given: Seq<BracketInfo>,
    first: Seq<BracketInfo>,
    second: Seq<BracketInfo>,
    taxable_income: int,
)
    requires
        loaded(given) == Some(first),
        loaded(given) == Some(second),
    ensures
        first.len() == second.len(),
        forall|i: int| 0 <= i < first.len() ==> first[i] == second[i],
        tax_amount(first, taxable_income) == tax_amount(second, taxable_income),
{
}

/// In a sorted schedule whose brackets are valid where they stand, every
/// bracket ends below the lower bound of every later one: the check of
/// neighbours keeps all brackets apart.
pub proof fn lemma_valid_brackets_lie_apart(s: Seq<BracketInfo>, i: int, j: int)
    requires
        sorted_by_min(s),
        all_valid(s),
        0 <= i < j < s.len(),
    ensures
        s[i].bracket_max < s[j].bracket_min,
    decreases j - i,
{
    assert(valid_at(s, j));
    assert(valid_at(s, j - 1));
    if i < j - 1 {
        lemma_valid_brackets_lie_apart(s, i, j - 1);
    }
}

/// In a sorted schedule whose brackets are valid where they stand, at most
/// one bracket takes an income.
pub proof fn lemma_one_bracket_holds(s: Seq<BracketInfo>, taxable_income: int, i: int, j: int)
    requires
        sorted_by_min(s),
        all_valid(s),
        0 <= i < s.len(),
        0 <= j < s.len(),
        holds(s[i], taxable_income),
        holds(s[j], taxable_income),
    ensures
        i == j,
{
    if i < j {
        lemma_valid_brackets_lie_apart(s, i, j);
    } else if j < i {
        lemma_valid_brackets_lie_apart(s, j, i);
    }
}

/// In a sorted schedule whose running totals add up and whose brackets are
/// valid where they stand, no bracket stores a smaller running total than a
/// bracket before it.
pub proof fn lemma_running_totals_ascend(s: Seq<BracketInfo>, i: int, j: int)
    requires
        sorted_by_min(s),
        tabulated(s),
        all_valid(s),
        0 <= i <= j < s.len(),
    ensures
        s[i].cumulative_previous_tax <= s[j].cumulative_previous_tax,
    decreases j - i,
{
    if i < j {
        lemma_running_totals_ascend(s, i, j - 1);
        assert(tabulated_at(s, j));
        assert(valid_at(s, j - 1));
        let width = s[j].bracket_min - s[j - 1].bracket_min;
        let rate = s[j - 1].tax_rate as int;
        assert(width * 100 * rate >= 0) by (nonlinear_arith)
            requires
                width >= 0,
                rate >= 0,
        ;
    }
}

} // verus!
