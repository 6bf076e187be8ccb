//! The failures that schedule handling and tax estimation can report.

use vstd::prelude::*;
use vstd::string::StringExecFns;

verus! {

/// `serde_json::Error`: what the deserializer reports when schedule or configuration data is
/// malformed. The library carries such a value and reads nothing inside it.
#[verifier::external_type_specification]
#[verifier::external_body]
pub struct ExJsonError(serde_json::Error);

/// A failure of one bracket, or of an income against the brackets. The text
/// names the values that caused it.
#[derive(Debug)]
pub enum BracketErrors {
    /// The income lies below what a bracket takes.
    SmallIncomeError(String),
    /// No bracket holds the income.
    LargeIncomeError(String),
    /// A rate below zero or above one.
    TaxRateError(String),
    /// A lower bound that is not below the upper bound.
    RangeError(String),
    /// Two neighbouring brackets that share an income.
    OverlapError(String),
}

/// Every failure that the library reports.
#[derive(Debug)]
pub enum EstimaterErrors {
    /// Configuration data of the wrong shape.
    ParsingError(String),
    /// Input of the caller that cannot be used.
    UserError(String),
    /// A schedule whose running totals do not add up, or a bracket failure
    /// met during an estimate.
    ServerError(String),
    /// A failure of a bracket.
    BracketError(BracketErrors),
    /// A data source that is absent.
    FileError(String),
    /// Schedule data of the wrong shape.
    SerdeDeserializeError(serde_json::Error),
}

pub type EstimaterResult<T> = Result<T, EstimaterErrors>;

impl BracketErrors {
    /// The text that comes with the failure.
    pub open spec fn message(&self) -> Seq<char> {
        match self {
            BracketErrors::SmallIncomeError(m) => m@,
            BracketErrors::LargeIncomeError(m) => m@,
            BracketErrors::TaxRateError(m) => m@,
            BracketErrors::RangeError(m) => m@,
            BracketErrors::OverlapError(m) => m@,
        }
    }

    /// One sentence for each kind of failure.
    pub open spec fn description(&self) -> Seq<char> {
        match self {
            BracketErrors::SmallIncomeError(_) =>
                "Errors due to the income not meeting minimum requirement of a bracket."@,
            BracketErrors::LargeIncomeError(_) =>
                "Errors due to the income exceeding the maximum allowed by a bracket."@,
            BracketErrors::TaxRateError(_) => "Errors due to tax rate not being within [0, 1]."@,
            BracketErrors::RangeError(_) => "Errors due to bracket min and max"@,
            BracketErrors::OverlapError(_) => "Errors due to two brackets overlapping."@,
        }
    }

    /// The sentence that names the kind of this failure.
    pub fn describe(&self) -> (s: String)
        ensures
            s@ == self.description(),
    {
        match self {
            BracketErrors::SmallIncomeError(_) => String::from_str(
                "Errors due to the income not meeting minimum requirement of a bracket.",
            ),
            BracketErrors::LargeIncomeError(_) => String::from_str(
                "Errors due to the income exceeding the maximum allowed by a bracket.",
            ),
            BracketErrors::TaxRateError(_) => String::from_str(
                "Errors due to tax rate not being within [0, 1].",
            ),
            BracketErrors::RangeError(_) => String::from_str("Errors due to bracket min and max"),
            BracketErrors::OverlapError(_) => String::from_str(
                "Errors due to two brackets overlapping.",
            ),
        }
    }
}

impl EstimaterErrors {
    /// One sentence for each kind of failure.
    pub open spec fn description(&self) -> Seq<char> {
        match self {
            EstimaterErrors::ParsingError(_) => "Errors Parsing Config File"@,
            EstimaterErrors::UserError(_) => "Errors due to user input"@,
            EstimaterErrors::ServerError(_) => "Errors due to the server internally failing"@,
            EstimaterErrors::BracketError(_) =>
                "Errors due to the an incorrect income being used for a bracket"@,
            EstimaterErrors::FileError(_) => "Errors due to the a file not existing."@,
            EstimaterErrors::SerdeDeserializeError(_) =>
                "Errors due to serde deserializing a file."@,
        }
    }

    /// The sentence that names the kind of this failure.
    pub fn describe(&self) -> (s: String)
        ensures
            s@ == self.description(),
    {
        match self {
            EstimaterErrors::ParsingError(_) => String::from_str("Errors Parsing Config File"),
            EstimaterErrors::UserError(_) => String::from_str("Errors due to user input"),
            EstimaterErrors::ServerError(_) => String::from_str(
                "Errors due to the server internally failing",
            ),
            EstimaterErrors::BracketError(_) => String::from_str(
                "Errors due to the an incorrect income being used for a bracket",
            ),
            EstimaterErrors::FileError(_) => String::from_str(
                "Errors due to the a file not existing.",
            ),
            EstimaterErrors::SerdeDeserializeError(_) => String::from_str(
                "Errors due to serde deserializing a file.",
            ),
        }
    }
}

impl From<serde_json::Error> for EstimaterErrors {
    fn from(source: serde_json::Error) -> (e: EstimaterErrors) {
        EstimaterErrors::SerdeDeserializeError(source)
    }
}

impl vstd::std_specs::convert::FromSpecImpl<serde_json::Error> for EstimaterErrors {
    open spec fn obeys_from_spec() -> bool {
        true
    }

    open spec fn from_spec(source: serde_json::Error) -> EstimaterErrors {
        EstimaterErrors::SerdeDeserializeError(source)
    }
}

} // verus!
