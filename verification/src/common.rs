//! What an estimate is made from, and what it gives.

use vstd::prelude::*;
use vstd::string::StringExecFns;
use crate::text::{decimal_string, decimal_text, signed_decimal_string, signed_decimal_text};

verus! {

/// The income and the rates of one estimate.
#[derive(Clone, Copy, Debug, PartialEq, Eq, Structural)]
pub struct TaxInfo {
    /// The gross income of a year, in whole units of currency.
    pub gross_yearly_income: u64,
    /// Federal tax as a percentage, counted in ten-thousandths of a percent.
    pub federal_tax_rate_percent: i32,
    /// State tax as a percentage, counted in ten-thousandths of a percent:
    /// five percent is 50_000.
    pub state_tax_rate_percent: i32,
    /// What is taken off the gross income before tax, in cents.
    pub pre_tax_deducations: i64,
}

/// The taxes of one estimate and what is left of the income, in cents.
#[derive(Clone, Copy, Debug, PartialEq, Eq, Structural)]
pub struct TaxResults {
    /// Amount taken for federal taxes.
    pub federal_tax: i128,
    /// Amount taken for state taxes.
    pub state_tax: i128,
    /// Amount left of the gross income after both taxes.
    pub net_income: i128,
}

impl TaxInfo {
    /// The text that shows this input in a message.
    pub open spec fn description(&self) -> Seq<char> {
        "Tax info: gross income: "@ + decimal_text(self.gross_yearly_income as nat)
            + " (deducations = "@ + signed_decimal_text(self.pre_tax_deducations as int)
            + "), state tax: "@ + signed_decimal_text(self.state_tax_rate_percent as int)
            + ", federal tax: "@ + signed_decimal_text(self.federal_tax_rate_percent as int)
    }

    /// Writes this input out for a message.
    pub fn describe(&self) -> (s: String)
        ensures
            s@ == self.description(),
    {
        let mut s = String::from_str("Tax info: gross income: ");
        s.append(decimal_string(self.gross_yearly_income as u128).as_str());
        s.append(" (deducations = ");
        s.append(signed_decimal_string(self.pre_tax_deducations as i128).as_str());
        s.append("), state tax: ");
        s.append(signed_decimal_string(self.state_tax_rate_percent as i128).as_str());
        s.append(", federal tax: ");
        s.append(signed_decimal_string(self.federal_tax_rate_percent as i128).as_str());
        s
    }
}

impl TaxResults {
    /// Puts the three amounts of an estimate together.
    pub fn new(federal_tax: i128, state_tax: i128, net_income: i128) -> (results: TaxResults)
        ensures
            results == (TaxResults { federal_tax, state_tax, net_income }),
    {
        TaxResults { federal_tax, state_tax, net_income }
    }

    /// The text that shows these amounts in a message.
    pub open spec fn description(&self) -> Seq<char> {
        "Net Income: "@ + signed_decimal_text(self.net_income as int) + "\nState Taxes: "@
            + signed_decimal_text(self.state_tax as int) + "\nFederal Taxes: "@
            + signed_decimal_text(self.federal_tax as int)
    }

    /// Writes these amounts out for a message.
    pub fn describe(&self) -> (s: String)
        ensures
            s@ == self.description(),
    {
        let mut s = String::from_str("Net Income: ");
        s.append(signed_decimal_string(self.net_income).as_str());
        s.append("\nState Taxes: ");
        s.append(signed_decimal_string(self.state_tax).as_str());
        s.append("\nFederal Taxes: ");
        s.append(signed_decimal_string(self.federal_tax).as_str());
        s
    }
}

} // verus!
