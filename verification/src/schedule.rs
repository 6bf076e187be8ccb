//! The progressive schedule: brackets in order, the checks that a schedule
//! must pass before it is used, and the tax that it puts on an income.

use vstd::prelude::*;
use vstd::string::StringExecFns;
use crate::errors::{BracketErrors, EstimaterErrors, EstimaterResult};
use crate::rounding::RATE_SCALE;
use crate::sorting::{
    lemma_insert_index_unique,
    lemma_sort_is_permutation,
    lemma_sort_is_sorted,
    lemma_sort_is_stable,
    sort_by_min,
    sorted_by_min,
    with_min,
};
use crate::tax_bracket::{range_message, tax_rate_message, BracketInfo, TAX_BOUND_CENTS};
use crate::text::{signed_decimal_string, signed_decimal_text};

verus! {

/// The brackets of a progressive schedule.
#[derive(Debug)]
pub struct TaxBrackets {
    brackets: Vec<BracketInfo>,
}

impl View for TaxBrackets {
    type V = Seq<BracketInfo>;

    closed spec fn view(&self) -> Seq<BracketInfo> {
        self.brackets@
    }
}

impl TaxBrackets {
    /// Takes brackets as they come from a data source: in any order, and
    /// with nothing checked yet.
    pub fn new(brackets: Vec<BracketInfo>) -> (schedule: TaxBrackets)
        ensures
            schedule@ == brackets@,
    {
        TaxBrackets { brackets }
    }

    /// The brackets in their present order.
    pub fn brackets(&self) -> (brackets: &Vec<BracketInfo>)
        ensures
            brackets@ == self@,
    {
        &self.brackets
    }

    /// Puts the brackets in ascending order of their lower bounds. Brackets
    /// with the same lower bound keep their order, and none is lost or added.
    pub fn sort_brackets(&mut self)
        ensures
            final(self)@ == sort_by_min(old(self)@),
            sorted_by_min(final(self)@),
            final(self)@.to_multiset() == old(self)@.to_multiset(),
            forall|key: u64| #[trigger] with_min(final(self)@, key) == with_min(old(self)@, key),
    {
        let ghost given = self.brackets@;
        let mut sorted: Vec<BracketInfo> = Vec::new();
        let count: usize = self.brackets.len();
        let mut next: usize = 0;
        while next < count
            invariant
                next <= count,
                count == self.brackets.len(),
                self.brackets@ == given,
                sorted@ == sort_by_min(given.take(next as int)),
            decreases count - next,
        {
            let bracket = self.brackets[next];
            proof {
                lemma_sort_is_permutation(given.take(next as int));
            }
            let mut at: usize = sorted.len();
            while at > 0 && sorted[at - 1].bracket_min > bracket.bracket_min
                invariant
                    at <= sorted.len(),
                    forall|k: int|
                        at <= k < sorted.len() ==> sorted[k].bracket_min > bracket.bracket_min,
                decreases at,
            {
                at -= 1;
            }
            proof {
                lemma_insert_index_unique(sorted@, bracket.bracket_min, at as int);
                assert(given.take(next + 1).drop_last() =~= given.take(next as int));
                assert(given.take(next + 1).last() == bracket);
            }
            sorted.insert(at, bracket);
            next += 1;
        }
        proof {
            assert(given.take(count as int) =~= given);
            lemma_sort_is_sorted(given);
            lemma_sort_is_permutation(given);
            assert forall|key: u64| #[trigger]
                with_min(sort_by_min(given), key) == with_min(given, key) by {
                lemma_sort_is_stable(given, key);
            }
        }
        self.brackets = sorted;
    }
}

/// The bracket before the one at index `i`, if there is one.
pub open spec fn previous_of(s: Seq<BracketInfo>, i: int) -> Option<BracketInfo> {
    if i > 0 {
        Some(s[i - 1])
    } else {
        None
    }
}

/// The bracket at index `i` stores the running total that follows from the
/// bracket before it.
pub open spec fn tabulated_at(s: Seq<BracketInfo>, i: int) -> bool {
    s[i].cumulative_previous_tax == s[i].expected_cumulative(previous_of(s, i))
}

/// Every bracket stores the running total that follows from the bracket
/// before it.
pub open spec fn tabulated(s: Seq<BracketInfo>) -> bool {
    forall|i: int| 0 <= i < s.len() ==> tabulated_at(s, i)
}

/// The bracket at index `i` has bounds and a rate that a bracket may have,
/// and shares no income with the bracket before it.
pub open spec fn valid_at(s: Seq<BracketInfo>, i: int) -> bool {
    s[i].is_valid() && (i > 0 ==> !s[i].overlaps(&s[i - 1]))
}

/// Every bracket is valid where it stands.
pub open spec fn all_valid(s: Seq<BracketInfo>) -> bool {
    forall|i: int| 0 <= i < s.len() ==> valid_at(s, i)
}

/// The text of a stored running total that differs from the one computed.
pub open spec fn tabulation_message(computed: int, stored: i64) -> Seq<char> {
    "The tabulated max "@ + signed_decimal_text(computed) + " does not match the expected "@
        + signed_decimal_text(stored as int)
}

/// The text of two neighbouring brackets that share an income.
pub open spec fn overlap_message(bracket: BracketInfo, previous: BracketInfo) -> Seq<char> {
    "Overlap of bracket "@ + bracket.description() + " and "@ + previous.description()
}

/// `error` is what tabulation reports of `s`: the first bracket whose stored
/// running total differs from the computed one, with both totals.
pub open spec fn tabulation_failure(s: Seq<BracketInfo>, error: EstimaterErrors) -> bool {
    exists|i: int|
        0 <= i < s.len() && !tabulated_at(s, i) && (forall|j: int|
            0 <= j < i ==> tabulated_at(s, j)) && (error matches EstimaterErrors::ServerError(m)
            && m@ == tabulation_message(
            s[i].expected_cumulative(previous_of(s, i)),
            s[i].cumulative_previous_tax,
        ))
}

/// `error` is what validation reports of a bracket after `previous`: a rate
/// outside zero to one, else a lower bound that is not below the upper bound, else an
/// income shared with `previous`.
pub open spec fn bracket_failure(
    bracket: BracketInfo,
    previous: Option<BracketInfo>,
    error: EstimaterErrors,
) -> bool {
    if bracket.tax_rate < 0 || bracket.tax_rate > RATE_SCALE {
        error matches EstimaterErrors::BracketError(BracketErrors::TaxRateError(m)) && m@
            == tax_rate_message()
    } else if bracket.bracket_min >= bracket.bracket_max {
        error matches EstimaterErrors::BracketError(BracketErrors::RangeError(m)) && m@
            == range_message(bracket.bracket_min, bracket.bracket_max)
    } else {
        previous matches Some(prev) && bracket.overlaps(&prev) && (
        error matches EstimaterErrors::BracketError(BracketErrors::OverlapError(m)) && m@
            == overlap_message(bracket, prev))
    }
}

/// `error` is what validation reports of `s`: the failure of the first
/// bracket that is not valid where it stands.
pub open spec fn validation_failure(s: Seq<BracketInfo>, error: EstimaterErrors) -> bool {
    exists|i: int|
        0 <= i < s.len() && !valid_at(s, i) && (forall|j: int| 0 <= j < i ==> valid_at(s, j))
            && bracket_failure(s[i], previous_of(s, i), error)
}

impl TaxBrackets {
    /// Checks the stored running total of every bracket against the one
    /// computed from the bracket before it, and reports the first that
    /// differs. The brackets are not changed.
    pub fn tabulate_cumulative_taxes(&mut self) -> (checked: EstimaterResult<()>)
        requires
            sorted_by_min(old(self)@),
        ensures
            final(self)@ == old(self)@,
            checked is Ok <==> tabulated(old(self)@),
            checked matches Err(error) ==> tabulation_failure(old(self)@, error),
    {
        let mut prev_bracket: Option<BracketInfo> = None;
        let count: usize = self.brackets.len();
        let mut i: usize = 0;
        while i < count
            invariant
                i <= count,
                count == self.brackets.len(),
                self.brackets@ == old(self).brackets@,
                sorted_by_min(self.brackets@),
                prev_bracket == previous_of(self.brackets@, i as int),
                forall|j: int| 0 <= j < i ==> tabulated_at(self.brackets@, j),
            decreases count - i,
        {
            let bracket = self.brackets[i];
            let computed: i128 = match bracket.calculate_prev_bracket_max(&prev_bracket) {
                Ok(total) => total,
                Err(error) => {
                    return Err(error);
                },
            };
            if computed != bracket.cumulative_previous_tax as i128 {
                let mut err_msg = String::from_str("The tabulated max ");
                err_msg.append(signed_decimal_string(computed).as_str());
                err_msg.append(" does not match the expected ");
                err_msg.append(
                    signed_decimal_string(bracket.cumulative_previous_tax as i128).as_str(),
                );
                assert(!tabulated_at(self.brackets@, i as int));
                return Err(EstimaterErrors::ServerError(err_msg));
            }
            prev_bracket = Some(bracket);
            i += 1;
        }
        Ok(())
    }

    /// Checks every bracket, and each bracket after the first against the
    /// one before it, and reports the first failure.
    pub fn validate_all_brackets(&self) -> (checked: EstimaterResult<()>)
        ensures
            checked is Ok <==> all_valid(self@),
            checked matches Err(error) ==> validation_failure(self@, error),
    {
        let count: usize = self.brackets.len();
        let mut bracket_idx: usize = 0;
        while bracket_idx < count
            invariant
                bracket_idx <= count,
                count == self.brackets.len(),
                forall|j: int| 0 <= j < bracket_idx ==> valid_at(self.brackets@, j),
            decreases count - bracket_idx,
        {
            let bracket = self.brackets[bracket_idx];
            let val_res = BracketInfo::validate_new_bracket(
                bracket.bracket_min,
                bracket.bracket_max,
                bracket.tax_rate,
            );
            if let Err(err) = val_res {
                assert(!valid_at(self.brackets@, bracket_idx as int));
                return Err(EstimaterErrors::BracketError(err));
            }
            if bracket_idx > 0 {
                let previous = self.brackets[bracket_idx - 1];
                if bracket.check_for_bracket_overlap(&previous) {
                    let mut err_msg = String::from_str("Overlap of bracket ");
                    err_msg.append(bracket.describe().as_str());
                    err_msg.append(" and ");
                    err_msg.append(previous.describe().as_str());
                    assert(!valid_at(self.brackets@, bracket_idx as int));
                    return Err(
                        EstimaterErrors::BracketError(BracketErrors::OverlapError(err_msg)),
                    );
                }
            }
            bracket_idx += 1;
        }
        Ok(())
    }
}

/// The bracket takes an income of `taxable_income` cents: the income lies
/// between its bounds, both counted in.
pub open spec fn holds(bracket: BracketInfo, taxable_income: int) -> bool {
    bracket.bracket_min * 100 <= taxable_income <= bracket.bracket_max * 100
}

/// The index of the first bracket from index `from` on that takes the
/// income, or the length of `s` where none does.
pub open spec fn first_holding_from(s: Seq<BracketInfo>, taxable_income: int, from: int) -> int
    decreases s.len() - from,
{
    if from >= s.len() {
        s.len() as int
    } else if holds(s[from], taxable_income) {
        from
    } else {
        first_holding_from(s, taxable_income, from + 1)
    }
}

/// The index of the first bracket that takes the income, or the length of
/// `s` where none does.
pub open spec fn first_holding(s: Seq<BracketInfo>, taxable_income: int) -> int {
    first_holding_from(s, taxable_income, 0)
}

/// The text of an income that no bracket takes.
pub open spec fn income_message(taxable_income: int) -> Seq<char> {
    "The income "@ + signed_decimal_text(taxable_income) + " does not fit in ANY tax bracket"@
}

/// The tax in cents that the schedule `s` puts on `taxable_income` cents:
/// nothing on no income; else what the first bracket that takes the income
/// computes after the bracket before it; none where no bracket takes it.
pub open spec fn tax_amount(s: Seq<BracketInfo>, taxable_income: int) -> Option<int> {
    if taxable_income == 0 {
        Some(0)
    } else {
        let i = first_holding(s, taxable_income);
        if i < s.len() {
            Some(s[i].bracket_taxes(taxable_income, previous_of(s, i)))
        } else {
            None
        }
    }
}

/// The schedule that loading makes of `given`, where it makes one: the
/// sorted brackets, if their running totals add up and each is valid where
/// it stands.
pub open spec fn loaded(given: Seq<BracketInfo>) -> Option<Seq<BracketInfo>> {
    let s = sort_by_min(given);
    if tabulated(s) && all_valid(s) {
        Some(s)
    } else {
        None
    }
}

/// The first bracket that takes the income is found at `first_holding`:
/// it takes the income and no bracket before it does; where the index is the
/// length, no bracket takes it.
pub proof fn lemma_first_holding(s: Seq<BracketInfo>, taxable_income: int, from: int)
    requires
        0 <= from <= s.len(),
    ensures
        from <= first_holding_from(s, taxable_income, from) <= s.len(),
        first_holding_from(s, taxable_income, from) < s.len() ==> holds(
            s[first_holding_from(s, taxable_income, from)],
            taxable_income,
        ),
        forall|j: int|
            from <= j < first_holding_from(s, taxable_income, from) ==> !holds(
                #[trigger] s[j],
                taxable_income,
            ),
    decreases s.len() - from,
{
    if from < s.len() && !holds(s[from], taxable_income) {
        lemma_first_holding(s, taxable_income, from + 1);
    }
}

/// A tax that the schedule puts on an income stays within a hundred
/// million million million million cents of zero.
pub proof fn lemma_tax_amount_bound(s: Seq<BracketInfo>, taxable_income: int)
    ensures
        tax_amount(s, taxable_income) matches Some(cents) ==> -TAX_BOUND_CENTS <= cents
            <= TAX_BOUND_CENTS,
{
    if taxable_income != 0 {
        lemma_first_holding(s, taxable_income, 0);
        let i = first_holding(s, taxable_income);
        if i < s.len() {
            s[i].lemma_bracket_taxes_bound(taxable_income, previous_of(s, i));
        }
    }
}

impl TaxBrackets {
    /// This schedule may be used: its brackets stand in ascending order of
    /// their lower bounds, their running totals add up, and each is valid
    /// where it stands.
    pub open spec fn accepted(&self) -> bool {
        sorted_by_min(self@) && tabulated(self@) && all_valid(self@)
    }

    /// Finds the first bracket that takes an income of `taxable_income`
    /// cents. No income at all belongs to the first bracket, whatever its
    /// bounds.
    pub fn determine_correct_bracket(&self, taxable_income: i128) -> (found: Result<
        usize,
        BracketErrors,
    >)
        ensures
            taxable_income == 0 ==> found == Ok::<usize, BracketErrors>(0),
            taxable_income != 0 && first_holding(self@, taxable_income as int) < self@.len()
                ==> (found matches Ok(index) && index == first_holding(
                self@,
                taxable_income as int,
            )),
            taxable_income != 0 && first_holding(self@, taxable_income as int) == self@.len()
                ==> (found matches Err(BracketErrors::LargeIncomeError(m)) && m@
                == income_message(taxable_income as int)),
    {
        if taxable_income == 0 {
            return Ok(0);
        }
        let count: usize = self.brackets.len();
        let mut i: usize = 0;
        while i < count
            invariant
                i <= count,
                count == self.brackets.len(),
                taxable_income != 0,
                first_holding(self.brackets@, taxable_income as int) == first_holding_from(
                    self.brackets@,
                    taxable_income as int,
                    i as int,
                ),
            decreases count - i,
        {
            let cur_bracket = self.brackets[i];
            if taxable_income >= (cur_bracket.bracket_min as i128) * 100 && taxable_income <= (
            cur_bracket.bracket_max as i128) * 100 {
                return Ok(i);
            }
            i += 1;
        }
        let mut err_msg = String::from_str("The income ");
        err_msg.append(signed_decimal_string(taxable_income).as_str());
        err_msg.append(" does not fit in ANY tax bracket");
        Err(BracketErrors::LargeIncomeError(err_msg))
    }

    /// Computes the tax in cents on a taxable income given in cents. An
    /// income that no bracket takes is reported, never moved into one.
    pub fn calculate_tax_amount(&self, taxable_income: i128) -> (tax: EstimaterResult<i128>)
        ensures
            tax is Ok <==> tax_amount(self@, taxable_income as int) is Some,
            tax matches Ok(cents) ==> tax_amount(self@, taxable_income as int) == Some(
                cents as int,
            ),
            tax matches Err(error) ==> (error matches EstimaterErrors::BracketError(
                BracketErrors::LargeIncomeError(m),
            ) && m@ == income_message(taxable_income as int)),
    {
        if taxable_income == 0 {
            return Ok(0);
        }
        proof {
            lemma_first_holding(self.brackets@, taxable_income as int, 0);
        }
        let tax_bracket_index: usize = match self.determine_correct_bracket(taxable_income) {
            Ok(index) => index,
            Err(error) => {
                return Err(EstimaterErrors::BracketError(error));
            },
        };
        let bracket_info = self.brackets[tax_bracket_index];
        let prev_bracket: Option<BracketInfo> = if tax_bracket_index > 0 {
            Some(self.brackets[tax_bracket_index - 1])
        } else {
            None
        };
        bracket_info.calculate_bracket_taxes(taxable_income, prev_bracket)
    }

    /// Makes a schedule of brackets as they come from a data source: sorts
    /// them, checks the running totals, then checks each bracket. The first
    /// failure is reported, that of the running totals before that of a
    /// bracket.
    pub fn from_brackets(brackets: Vec<BracketInfo>) -> (made: EstimaterResult<TaxBrackets>)
        ensures
            made is Ok <==> loaded(brackets@) is Some,
            made matches Ok(schedule) ==> loaded(brackets@) == Some(schedule@),
            made matches Ok(schedule) ==> schedule.accepted(),
            made matches Err(error) ==> if !tabulated(sort_by_min(brackets@)) {
                tabulation_failure(sort_by_min(brackets@), error)
            } else {
                validation_failure(sort_by_min(brackets@), error)
            },
    {
        let mut schedule = TaxBrackets::new(brackets);
        schedule.sort_brackets();
        match schedule.tabulate_cumulative_taxes() {
            Err(error) => {
                return Err(error);
            },
            Ok(_) => {},
        }
        match schedule.validate_all_brackets() {
            Err(error) => {
                return Err(error);
            },
            Ok(_) => {},
        }
        Ok(schedule)
    }
}

/// The texts of the brackets of `s`, one after the other.
pub open spec fn brackets_text(s: Seq<BracketInfo>) -> Seq<char>
    decreases s.len(),
{
    if s.len() == 0 {
        Seq::empty()
    } else {
        brackets_text(s.drop_last()) + s.last().description()
    }
}

impl TaxBrackets {
    /// The text that shows this schedule: its brackets in their order, then
    /// the end of the line.
    pub open spec fn description(&self) -> Seq<char> {
        brackets_text(self@) + "\n"@
    }

    /// Writes this schedule out.
    pub fn describe(&self) -> (s: String)
        ensures
            s@ == self.description(),
    {
        let mut s = String::new();
        let count: usize = self.brackets.len();
        let mut i: usize = 0;
        while i < count
            invariant
                i <= count,
                count == self.brackets.len(),
                s@ == brackets_text(self.brackets@.take(i as int)),
            decreases count - i,
        {
            proof {
                assert(self.brackets@.take(i + 1).drop_last() =~= self.brackets@.take(i as int));
                assert(self.brackets@.take(i + 1).last() == self.brackets@[i as int]);
            }
            s.append(self.brackets[i].describe().as_str());
            i += 1;
        }
        proof {
            assert(self.brackets@.take(count as int) =~= self.brackets@);
        }
        s.append("\n");
        s
    }
}

} // verus!
