use tax_estimator::common::TaxInfo;
use tax_estimator::errors::EstimaterErrors;
use tax_estimator::schedule::TaxBrackets;
use tax_estimator::server::{calculate_taxes, IntermediateTaxData};
use tax_estimator::tax_bracket::BracketInfo;

/// An amount of currency as cents.
fn cents(amount: f64) -> i128 {
    (amount * 100.0).round() as i128
}

/// A percentage as ten-thousandths of a percent.
fn percent(value: f64) -> i32 {
    (value * 10_000.0).round() as i32
}

fn bracket(bracket_min: u64, bracket_max: u64, tax_rate: f64, cumulative: f64) -> BracketInfo {
    BracketInfo {
        bracket_min,
        bracket_max,
        tax_rate: (tax_rate * 1_000_000.0).round() as i32,
        cumulative_previous_tax: cents(cumulative) as i64,
    }
}

/// The federal schedule, given out of order as a data source may give it.
fn federal_brackets() -> Vec<BracketInfo> {
    vec![
        bracket(41776, 89075, 0.22, 4807.50),
        bracket(1, 10275, 0.1, 0.0),
        bracket(539901, 100000000, 0.37, 162718.0),
        bracket(10276, 41775, 0.12, 1027.5),
        bracket(170051, 215950, 0.32, 34647.5),
        bracket(89076, 170050, 0.24, 15213.5),
        bracket(215951, 539900, 0.35, 49335.5),
    ]
}

#[test]
fn test_deserializing() {
    let data = TaxBrackets::from_brackets(federal_brackets());
    assert!(data.is_ok(), "data should be ok, but is {:?}", data.err())
}

#[test]
fn test_calculate_taxes() {
    let schedule = TaxBrackets::from_brackets(federal_brackets()).expect("schedule should load");
    let test_input_info = TaxInfo {
        gross_yearly_income: 50000,
        federal_tax_rate_percent: percent(0.0),
        state_tax_rate_percent: percent(5.0),
        pre_tax_deducations: 0,
    };

    let calculate_res =
        calculate_taxes(&test_input_info, &schedule).expect("Tax calculation should've worked");
    assert!(
        calculate_res.state_tax == cents(2500.0),
        "Expected: 2500.0. Got: {}",
        calculate_res.state_tax
    );
    assert!(
        calculate_res.federal_tax == cents(6617.0),
        "Income {}. Federal Tax Expected: 6617.0. Got: {}",
        50000,
        calculate_res.federal_tax
    );

    let test_input_info2 = TaxInfo {
        gross_yearly_income: 100000,
        federal_tax_rate_percent: percent(0.0),
        state_tax_rate_percent: percent(5.0),
        pre_tax_deducations: 0,
    };
    let calculate_res =
        calculate_taxes(&test_input_info2, &schedule).expect("Tax calculation should've worked");
    assert!(
        calculate_res.federal_tax == cents(17835.5),
        "Income: {}. Federal Tax Expected: 17835.5. Got: {}",
        100000,
        calculate_res.federal_tax
    );
}

#[test]
fn estimate_end_to_end() {
    let schedule = TaxBrackets::from_brackets(vec![
        bracket(1, 10275, 0.10, 0.00),
        bracket(10276, 41775, 0.12, 1027.50),
        bracket(41776, 89075, 0.22, 4807.50),
    ])
    .expect("schedule should load");
    let info = TaxInfo {
        gross_yearly_income: 50000,
        federal_tax_rate_percent: 0,
        state_tax_rate_percent: 50_000,
        pre_tax_deducations: 0,
    };
    let results = calculate_taxes(&info, &schedule).expect("estimate should work");
    assert_eq!(results.state_tax, 250_000);
    assert_eq!(results.federal_tax, 661_700);
    assert_eq!(results.net_income, 4_088_300);
    assert_eq!(results.net_income, cents(50000.0 - 6617.0 - 2500.0));
}

#[test]
fn estimate_takes_deductions_off_before_tax() {
    let schedule = TaxBrackets::from_brackets(federal_brackets()).expect("schedule should load");
    let info = TaxInfo {
        gross_yearly_income: 50000,
        federal_tax_rate_percent: 0,
        state_tax_rate_percent: 50_000,
        pre_tax_deducations: 2_000_000,
    };
    assert_eq!(IntermediateTaxData::new(&info).taxable_income, 3_000_000);
    let results = calculate_taxes(&info, &schedule).expect("estimate should work");
    assert_eq!(results.federal_tax, 339_450);
    assert_eq!(results.state_tax, 150_000);
    assert_eq!(results.net_income, 5_000_000 - 339_450 - 150_000);
}

#[test]
fn estimate_rounds_state_tax_to_cents() {
    let schedule = TaxBrackets::from_brackets(federal_brackets()).expect("schedule should load");
    let info = TaxInfo {
        gross_yearly_income: 1001,
        federal_tax_rate_percent: 0,
        state_tax_rate_percent: 30_750,
        pre_tax_deducations: 90,
    };
    // 100_010 cents at 3.075 percent are 3075.3075 cents.
    let results = calculate_taxes(&info, &schedule).expect("estimate should work");
    assert_eq!(results.state_tax, 3_075);
    assert_eq!(results.federal_tax, 10_001);
    assert_eq!(results.net_income, 100_100 - 10_001 - 3_075);
}

#[test]
fn estimate_reports_income_outside_schedule() {
    let schedule = TaxBrackets::from_brackets(vec![
        bracket(1, 10275, 0.10, 0.00),
        bracket(10276, 41775, 0.12, 1027.50),
    ])
    .expect("schedule should load");
    let info = TaxInfo {
        gross_yearly_income: 50000,
        federal_tax_rate_percent: 0,
        state_tax_rate_percent: 50_000,
        pre_tax_deducations: 0,
    };
    match calculate_taxes(&info, &schedule) {
        Err(EstimaterErrors::ServerError(message)) => assert_eq!(
            message,
            "Error calculating federal taxes: Errors due to the an incorrect income being used for a bracket"
        ),
        other => panic!("expected a server error, got {:?}", other),
    }
}

#[test]
fn estimate_reports_negative_taxable_income() {
    let schedule = TaxBrackets::from_brackets(federal_brackets()).expect("schedule should load");
    let info = TaxInfo {
        gross_yearly_income: 100,
        federal_tax_rate_percent: 0,
        state_tax_rate_percent: 50_000,
        pre_tax_deducations: 20_000,
    };
    assert!(matches!(
        calculate_taxes(&info, &schedule),
        Err(EstimaterErrors::ServerError(_))
    ));
}

#[test]
fn estimate_with_a_state_rate_below_zero() {
    let schedule = TaxBrackets::from_brackets(federal_brackets()).expect("schedule should load");
    let info = TaxInfo {
        gross_yearly_income: 50000,
        federal_tax_rate_percent: 0,
        state_tax_rate_percent: -50_000,
        pre_tax_deducations: 0,
    };
    let results = calculate_taxes(&info, &schedule).expect("estimate should work");
    assert_eq!(results.federal_tax, 661_700);
    assert_eq!(results.state_tax, -250_000);
    assert_eq!(results.net_income, 5_000_000 - 661_700 + 250_000);
}

#[test]
fn estimate_of_no_taxable_income() {
    let schedule = TaxBrackets::from_brackets(federal_brackets()).expect("schedule should load");
    let info = TaxInfo {
        gross_yearly_income: 100,
        federal_tax_rate_percent: 0,
        state_tax_rate_percent: 50_000,
        pre_tax_deducations: 10_000,
    };
    let results = calculate_taxes(&info, &schedule).expect("estimate should work");
    assert_eq!(results.federal_tax, 0);
    assert_eq!(results.state_tax, 0);
    assert_eq!(results.net_income, 10_000);
}
