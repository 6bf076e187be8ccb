//! One bracket of a progressive schedule: its checks and its arithmetic.
//!
//! Bounds of a bracket are whole units of currency, amounts of tax are cents,
//! and a rate counts millionths: a rate of 120_000 taxes twelve percent. A
//! rate and a running total may be written below zero, so that data of any
//! kind can be held and then checked.

use vstd::prelude::*;
use vstd::string::StringExecFns;
use crate::errors::{BracketErrors, EstimaterErrors, EstimaterResult};
use crate::rounding::{round_to_hundredths, round_to_hundredths_spec, RATE_SCALE};
use crate::text::{decimal_string, decimal_text, signed_decimal_string, signed_decimal_text};

verus! {

/// The largest taxable income, in cents, that a bracket can hold: the
/// largest bound of a bracket, in cents.
pub const MAX_INCOME_CENTS: i128 = 1_844_674_407_370_955_161_500;

/// A bound in cents on every tax that a bracket computes on an income of at
/// most `MAX_INCOME_CENTS` either side of zero.
pub const TAX_BOUND_CENTS: i128 = 100_000_000_000_000_000_000_000_000;

/// One bracket of a progressive schedule.
#[derive(Debug, Clone, Copy, PartialEq, Eq, Structural)]
pub struct BracketInfo {
    /// The lowest income taxed in this bracket, in whole units of currency.
    pub bracket_min: u64,
    /// The highest income taxed in this bracket, in whole units of currency.
    pub bracket_max: u64,
    /// The rate on income inside this bracket, in millionths.
    pub tax_rate: i32,
    /// The tax owed on all income below `bracket_min`, in cents.
    pub cumulative_previous_tax: i64,
}

/// The text of a rate below zero or above one.
pub open spec fn tax_rate_message() -> Seq<char> {
    "Tax rate not within [0, 1]"@
}

/// The text of a lower bound that is not below the upper bound.
pub open spec fn range_message(bracket_min: u64, bracket_max: u64) -> Seq<char> {
    "Bracket minimum "@ + decimal_text(bracket_min as nat) + " is >= bracket maximum ("@
        + decimal_text(bracket_max as nat) + ")"@
}

/// A rate times an amount of at most twice `MAX_INCOME_CENTS` either side of
/// zero stays within the largest rate times that amount.
pub proof fn lemma_rate_product_bound(rate: int, amount: int)
    requires
        i32::MIN <= rate <= i32::MAX,
        -2 * MAX_INCOME_CENTS <= amount <= 2 * MAX_INCOME_CENTS,
    ensures
        -(2147483648 * (2 * MAX_INCOME_CENTS)) <= rate * amount <= 2147483648 * (2
            * MAX_INCOME_CENTS),
        rate * amount == amount * rate,
{
    assert(-(2147483648 * (2 * MAX_INCOME_CENTS)) <= rate * amount <= 2147483648 * (2
        * MAX_INCOME_CENTS)) by (nonlinear_arith)
        requires
            -2147483648 <= rate <= 2147483647,
            -2 * MAX_INCOME_CENTS <= amount <= 2 * MAX_INCOME_CENTS,
    ;
    assert(rate * amount == amount * rate) by (nonlinear_arith);
}

impl BracketInfo {
    /// Bounds and rate that a bracket may have: a rate from zero to one, and
    /// a lower bound below the upper bound.
    pub open spec fn valid_parts(bracket_min: u64, bracket_max: u64, tax_rate: i32) -> bool {
        0 <= tax_rate <= RATE_SCALE && bracket_min < bracket_max
    }

    /// This bracket has bounds and a rate that a bracket may have.
    pub open spec fn is_valid(&self) -> bool {
        Self::valid_parts(self.bracket_min, self.bracket_max, self.tax_rate)
    }

    /// A bound of one of the two brackets lies inside the other bracket, both
    /// ends of a bracket counted in.
    pub open spec fn overlaps(&self, other: &BracketInfo) -> bool {
        ||| other.bracket_min <= self.bracket_min <= other.bracket_max
        ||| other.bracket_min <= self.bracket_max <= other.bracket_max
        ||| self.bracket_min <= other.bracket_min <= self.bracket_max
        ||| self.bracket_min <= other.bracket_max <= self.bracket_max
    }

    /// The two brackets share an income: neither ends below the lower bound
    /// of the other.
    pub open spec fn intersects(&self, other: &BracketInfo) -> bool {
        self.bracket_min <= other.bracket_max && other.bracket_min <= self.bracket_max
    }

    /// The tax in cents on `taxable_income` cents that ends in this bracket.
    /// After a previous bracket, the rate applies to the income above that
    /// bracket's upper bound and the stored running total is added; in the
    /// first bracket the rate applies to the whole income. The sum is rounded
    /// once.
    pub open spec fn bracket_taxes(
        &self,
        taxable_income: int,
        previous_bracket: Option<BracketInfo>,
    ) -> int {
        match previous_bracket {
            None => round_to_hundredths_spec(self.tax_rate * taxable_income),
            Some(prev) => round_to_hundredths_spec(
                self.tax_rate * (taxable_income - prev.bracket_max * 100)
                    + self.cumulative_previous_tax * RATE_SCALE,
            ),
        }
    }

    /// The running total in cents that this bracket must store: nothing for
    /// the first bracket, else the previous bracket's total plus that
    /// bracket's rate on the distance between the two lower bounds, rounded.
    pub open spec fn expected_cumulative(&self, previous_bracket: Option<BracketInfo>) -> int {
        match previous_bracket {
            None => 0,
            Some(prev) => prev.cumulative_previous_tax + round_to_hundredths_spec(
                (self.bracket_min - prev.bracket_min) * 100 * prev.tax_rate,
            ),
        }
    }

    /// The text that shows this bracket in a message.
    pub open spec fn description(&self) -> Seq<char> {
        "bracket_min = "@ + decimal_text(self.bracket_min as nat) + ". bracket_max = "@
            + decimal_text(self.bracket_max as nat) + ". tax_rate = "@ + signed_decimal_text(
            self.tax_rate as int,
        ) + ". cumulative_previous_tax = "@ + signed_decimal_text(
            self.cumulative_previous_tax as int,
        ) + ". \n"@
    }

    /// The tax on an income within `MAX_INCOME_CENTS` of zero lies within
    /// `TAX_BOUND_CENTS` of zero.
    pub proof fn lemma_bracket_taxes_bound(
        &self,
        taxable_income: int,
        previous_bracket: Option<BracketInfo>,
    )
        requires
            -MAX_INCOME_CENTS <= taxable_income <= MAX_INCOME_CENTS,
        ensures
            -TAX_BOUND_CENTS <= self.bracket_taxes(taxable_income, previous_bracket)
                <= TAX_BOUND_CENTS,
    {
        match previous_bracket {
            None => {
                lemma_rate_product_bound(self.tax_rate as int, taxable_income);
            },
            Some(prev) => {
                lemma_rate_product_bound(
                    self.tax_rate as int,
                    taxable_income - prev.bracket_max * 100,
                );
            },
        }
    }

    /// Makes a bracket, or says why these bounds and this rate make none.
    pub fn new(
        bracket_min: u64,
        bracket_max: u64,
        tax_rate: i32,
        cumulative_previous_tax: i64,
    ) -> (made: EstimaterResult<BracketInfo>)
        ensures
            Self::valid_parts(bracket_min, bracket_max, tax_rate) ==> made == Ok::<
                BracketInfo,
                EstimaterErrors,
            >(
                (BracketInfo { bracket_min, bracket_max, tax_rate, cumulative_previous_tax }),
            ),
            tax_rate < 0 || tax_rate > RATE_SCALE ==> (made matches Err(
                EstimaterErrors::BracketError(BracketErrors::TaxRateError(m)),
            ) && m@ == tax_rate_message()),
            0 <= tax_rate <= RATE_SCALE && bracket_min >= bracket_max ==> (made matches Err(
                EstimaterErrors::BracketError(BracketErrors::RangeError(m)),
            ) && m@ == range_message(bracket_min, bracket_max)),
    {
        match Self::validate_new_bracket(bracket_min, bracket_max, tax_rate) {
            Err(err) => Err(EstimaterErrors::BracketError(err)),
            Ok(_) => Ok(
                BracketInfo { bracket_min, bracket_max, tax_rate, cumulative_previous_tax },
            ),
        }
    }

    /// Accepts bounds and a rate that a bracket may have. A rate outside zero
    /// to one is reported first, then a lower bound that is not below the upper bound.
    pub fn validate_new_bracket(bracket_min: u64, bracket_max: u64, tax_rate: i32) -> (checked:
        Result<(), BracketErrors>)
        ensures
            checked is Ok <==> Self::valid_parts(bracket_min, bracket_max, tax_rate),
            tax_rate < 0 || tax_rate > RATE_SCALE ==> (checked matches Err(
                BracketErrors::TaxRateError(m),
            ) && m@
                == tax_rate_message()),
            0 <= tax_rate <= RATE_SCALE && bracket_min >= bracket_max ==> (checked matches Err(
                BracketErrors::RangeError(m),
            ) && m@ == range_message(bracket_min, bracket_max)),
    {
        if tax_rate < 0 || tax_rate > RATE_SCALE {
            Err(BracketErrors::TaxRateError(String::from_str("Tax rate not within [0, 1]")))
        } else if bracket_min >= bracket_max {
            let mut err_msg = String::from_str("Bracket minimum ");
            err_msg.append(decimal_string(bracket_min as u128).as_str());
            err_msg.append(" is >= bracket maximum (");
            err_msg.append(decimal_string(bracket_max as u128).as_str());
            err_msg.append(")");
            Err(BracketErrors::RangeError(err_msg))
        } else {
            Ok(())
        }
    }

    /// Says whether a bound of either bracket lies inside the other. The
    /// answer does not depend on which of the two is asked, and for two
    /// brackets whose lower bounds are not above their upper bounds it says
    /// whether they share an income.
    pub fn check_for_bracket_overlap(&self, other: &BracketInfo) -> (overlap: bool)
        ensures
            overlap == self.overlaps(other),
            overlap == other.overlaps(self),
            self.bracket_min <= self.bracket_max && other.bracket_min <= other.bracket_max
                ==> overlap == self.intersects(other),
    {
        let is_min_within_other: bool = self.bracket_min >= other.bracket_min && self.bracket_min
            <= other.bracket_max;
        let is_max_within_other: bool = self.bracket_max >= other.bracket_min && self.bracket_max
            <= other.bracket_max;
        let is_other_min_within: bool = other.bracket_min >= self.bracket_min && other.bracket_min
            <= self.bracket_max;
        let is_other_max_within: bool = other.bracket_max >= self.bracket_min && other.bracket_max
            <= self.bracket_max;
        is_min_within_other || is_max_within_other || is_other_min_within || is_other_max_within
    }

    /// Computes the tax in cents on `taxable_income` cents that ends in this
    /// bracket. It never fails.
    pub fn calculate_bracket_taxes(
        &self,
        taxable_income: i128,
        previous_bracket: Option<BracketInfo>,
    ) -> (tax: EstimaterResult<i128>)
        requires
            -MAX_INCOME_CENTS <= taxable_income <= MAX_INCOME_CENTS,
        ensures
            tax matches Ok(cents) && cents == self.bracket_taxes(
                taxable_income as int,
                previous_bracket,
            ),
    {
        let rate: i128 = self.tax_rate as i128;
        let total_tax: i128 = match previous_bracket {
            None => {
                proof {
                    lemma_rate_product_bound(rate as int, taxable_income as int);
                }
                rate * taxable_income
            },
            Some(prev_bracket) => {
                let above: i128 = taxable_income - (prev_bracket.bracket_max as i128) * 100;
                proof {
                    lemma_rate_product_bound(rate as int, above as int);
                }
                rate * above + (self.cumulative_previous_tax as i128) * 1_000_000
            },
        };
        Ok(round_to_hundredths(total_tax))
    }

    /// Computes the running total in cents that this bracket must store after
    /// `previous_bracket`: nothing where there is none.
    pub fn calculate_prev_bracket_max(&self, previous_bracket: &Option<BracketInfo>) -> (total:
        EstimaterResult<i128>)
        requires
            previous_bracket matches Some(prev) ==> prev.bracket_min <= self.bracket_min,
        ensures
            total matches Ok(cents) && cents == self.expected_cumulative(*previous_bracket),
    {
        match previous_bracket {
            Some(prev) => {
                let prev_bracket_width: u64 = self.bracket_min - prev.bracket_min;
                let width_cents: i128 = (prev_bracket_width as i128) * 100;
                let rate: i128 = prev.tax_rate as i128;
                proof {
                    lemma_rate_product_bound(rate as int, width_cents as int);
                }
                let prev_bracket_max: i128 = round_to_hundredths(width_cents * rate);
                Ok((prev.cumulative_previous_tax as i128) + prev_bracket_max)
            },
            None => Ok(0),
        }
    }

    /// Writes this bracket out for a message.
    pub fn describe(&self) -> (s: String)
        ensures
            s@ == self.description(),
    {
        let mut s = String::from_str("bracket_min = ");
        s.append(decimal_string(self.bracket_min as u128).as_str());
        s.append(". bracket_max = ");
        s.append(decimal_string(self.bracket_max as u128).as_str());
        s.append(". tax_rate = ");
        s.append(signed_decimal_string(self.tax_rate as i128).as_str());
        s.append(". cumulative_previous_tax = ");
        s.append(signed_decimal_string(self.cumulative_previous_tax as i128).as_str());
        s.append(". \n");
        s
    }
}

} // verus!
