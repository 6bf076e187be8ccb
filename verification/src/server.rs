//! The estimate: federal tax from a bracket schedule, state tax at a flat
//! rate, and what is left of the income.

use vstd::prelude::*;
use vstd::string::StringExecFns;
use crate::common::{TaxInfo, TaxResults};
use crate::errors::{EstimaterErrors, EstimaterResult};
use crate::rounding::{round_to_hundredths, round_to_hundredths_spec};
use crate::schedule::{lemma_tax_amount_bound, tax_amount, TaxBrackets};

verus! {

/// What one estimate computes once and uses twice.
pub struct IntermediateTaxData {
    /// The income that is taxed, in cents.
    pub taxable_income: i128,
}

/// The income that is taxed, in cents: the gross income less the
/// deductions.
pub open spec fn taxable_income_of(input_info: TaxInfo) -> int {
    input_info.gross_yearly_income * 100 - input_info.pre_tax_deducations
}

/// The state tax in cents: the flat rate on the taxable income, rounded.
pub open spec fn state_tax_of(input_info: TaxInfo) -> int {
    round_to_hundredths_spec(taxable_income_of(input_info) * input_info.state_tax_rate_percent)
}

/// The text of an estimate whose federal tax could not be computed.
pub open spec fn federal_failure_message() -> Seq<char> {
    "Error calculating federal taxes: "@
        + "Errors due to the an incorrect income being used for a bracket"@
}

/// `results` is the estimate for `input_info` with a federal tax of
/// `federal_tax` cents: that tax, the state tax, and the gross income less
/// both.
pub open spec fn is_estimate(results: TaxResults, input_info: TaxInfo, federal_tax: int) -> bool {
    &&& results.federal_tax == federal_tax
    &&& results.state_tax == state_tax_of(input_info)
    &&& results.net_income == input_info.gross_yearly_income * 100 - federal_tax - state_tax_of(
        input_info,
    )
}

impl IntermediateTaxData {
    /// Computes the taxable income of an input.
    pub fn new(input_info: &TaxInfo) -> (data: IntermediateTaxData)
        ensures
            data.taxable_income == taxable_income_of(*input_info),
    {
        let taxable_income: i128 = (input_info.gross_yearly_income as i128) * 100
            - input_info.pre_tax_deducations as i128;
        IntermediateTaxData { taxable_income }
    }
}

/// Estimates the taxes on an income under a schedule. The federal tax is
/// what the schedule puts on the taxable income, the state tax the flat rate
/// on the taxable income, and the net income the gross income less both. An
/// income that the schedule does not take is reported, and no amount is
/// given.
pub fn calculate_taxes(input_info: &TaxInfo, tax_bracket: &TaxBrackets) -> (made: EstimaterResult<
    TaxResults,
>)
    ensures
        made is Ok <==> tax_amount(tax_bracket@, taxable_income_of(*input_info)) is Some,
        made matches Ok(results) ==> is_estimate(
            results,
            *input_info,
            tax_amount(tax_bracket@, taxable_income_of(*input_info)).unwrap(),
        ),
        made matches Err(error) ==> (error matches EstimaterErrors::ServerError(m) && m@
            == federal_failure_message()),
{
    let intermediate = IntermediateTaxData::new(input_info);
    let federal_tax: i128 = match tax_bracket.calculate_tax_amount(intermediate.taxable_income) {
        Err(err) => {
            let mut err_msg = String::from_str("Error calculating federal taxes: ");
            err_msg.append(err.describe().as_str());
            return Err(EstimaterErrors::ServerError(err_msg));
        },
        Ok(tax) => tax,
    };
    proof {
        lemma_tax_amount_bound(tax_bracket@, intermediate.taxable_income as int);
    }
    let rate: i128 = input_info.state_tax_rate_percent as i128;
    let taxable_income: i128 = intermediate.taxable_income;
    assert(-2147483648 * 1_853_897_779_407_809_937_308 <= taxable_income * rate <= 2147483648
        * 1_853_897_779_407_809_937_308) by (nonlinear_arith)
        requires
            -2147483648 <= rate <= 2147483647,
            -1_853_897_779_407_809_937_308 <= taxable_income <= 1_853_897_779_407_809_937_308,
    ;
    let state_tax: i128 = round_to_hundredths(taxable_income * rate);
    let net_income: i128 = (input_info.gross_yearly_income as i128) * 100 - federal_tax
        - state_tax;
    Ok(TaxResults::new(federal_tax, state_tax, net_income))
}

} // verus!
