use tax_estimator::schedule::TaxBrackets;
use tax_estimator::tax_bracket::BracketInfo;

/// An amount of currency as cents.
fn cents(amount: f64) -> i128 {
    (amount * 100.0).round() as i128
}

/// A rate between zero and one as millionths.
fn rate(fraction: f64) -> i32 {
    (fraction * 1_000_000.0).round() as i32
}

fn bracket(bracket_min: u64, bracket_max: u64, tax_rate: f64, cumulative: f64) -> BracketInfo {
    BracketInfo {
        bracket_min,
        bracket_max,
        tax_rate: rate(tax_rate),
        cumulative_previous_tax: cents(cumulative) as i64,
    }
}

/// Helper function to assert the result is Ok() and matches the given param
fn help_assert_result<T, ErrorType>(
    result_to_check: Result<T, ErrorType>,
    expected_res: T,
    additional_fail_msg: &str,
) where
    T: PartialEq<T>,
    T: std::fmt::Debug,
    ErrorType: std::fmt::Debug,
{
    match result_to_check {
        Err(err) => panic!(
            "Expected {:?}, got err: {:?} for {}",
            expected_res, err, additional_fail_msg
        ),
        Ok(res) => {
            assert!(
                res == expected_res,
                "Expected {:?}, got {:?} for {}",
                expected_res,
                res,
                additional_fail_msg
            );
        }
    }
}

// helper to generate some brackets
fn help_make_test_brackets() -> TaxBrackets {
    TaxBrackets::new(vec![
        bracket(1, 10275, 0.1, 0.0),
        bracket(10276, 41775, 0.12, 1027.5),
        bracket(41776, 89075, 0.22, 4807.50),
    ])
}

#[test]
fn test_calculate_prev_bracket_max() {
    let bracket1 = bracket(1, 10275, 0.1, 0.0);
    let bracket2 = bracket(10276, 41775, 0.12, 1027.5);
    let bracket3 = bracket(41776, 89075, 0.22, 4807.50);

    let bracket1_res = bracket1.calculate_prev_bracket_max(&None);
    let bracket1_cum_max = bracket1_res.as_ref().expect(
        format!(
            "calculate_prev_bracket_max failed for bracket1: {:?}",
            bracket1_res
        )
        .as_str(),
    );

    assert!(
        bracket1_cum_max == &cents(0.0),
        "Bracket tabulated maximum incorrect. Expected: {:?}. Got: {:?}",
        0.0,
        bracket1_cum_max
    );

    let found_bracket2_res = bracket2.calculate_prev_bracket_max(&Some(bracket1));
    let found_bracket2_cum_max = found_bracket2_res.as_ref().expect(
        format!(
            "calculate_prev_bracket_max failed for bracket2: {:?}",
            found_bracket2_res
        )
        .as_str(),
    );
    assert!(
        found_bracket2_cum_max == &(bracket2.cumulative_previous_tax as i128),
        "Bracket tabulated maximum incorrect. Expected: {:?}. Got: {:?}",
        1027.5,
        found_bracket2_cum_max
    );
    assert_eq!(*found_bracket2_cum_max, 102750);

    let found_bracket3_res = bracket3.calculate_prev_bracket_max(&Some(bracket2));
    let found_bracket3_cum_max = found_bracket3_res.as_ref().expect(
        format!(
            "calculate_prev_bracket_max failed for bracket2: {:?}",
            found_bracket2_res
        )
        .as_str(),
    );
    assert!(
        found_bracket3_cum_max == &(bracket3.cumulative_previous_tax as i128),
        "Bracket tabulated maximum incorrect. Expected: {:?}. Got: {:?}",
        4807.50,
        found_bracket3_cum_max
    );
    assert_eq!(*found_bracket3_cum_max, 480750);
}

#[test]
fn test_check_for_bracket_overlap() {
    let non_overlap_bracket = help_make_test_brackets();
    let overlap_bracket = TaxBrackets::new(vec![
        bracket(0, 1, 0.0, 0.0),
        bracket(1, 10275, 0.1, 0.0),
        bracket(500, 30000, 0.12, 1027.5),
    ]);

    assert!(
        non_overlap_bracket.validate_all_brackets().is_ok(),
        "Validating all brackets (without overlap), failed. Err: {:?}",
        non_overlap_bracket.validate_all_brackets().err()
    );
    assert!(
        overlap_bracket.validate_all_brackets().is_err(),
        "Valdiating brackets with overlap did not error as expected"
    );
}

#[test]
fn test_determine_correct_bracket() {
    let brackets = help_make_test_brackets();
    help_assert_result(
        brackets.determine_correct_bracket(cents(0.0)),
        0,
        "input of 0.0",
    );
    help_assert_result(
        brackets.determine_correct_bracket(cents(1000.0)),
        0,
        "input of 1000.0",
    );
    help_assert_result(
        brackets.determine_correct_bracket(cents(10000.0)),
        0,
        "input of 10000.0",
    );
    help_assert_result(
        brackets.determine_correct_bracket(cents(10275.0)),
        0,
        "input of 10275.0",
    );
    help_assert_result(
        brackets.determine_correct_bracket(cents(10276.0)),
        1,
        "input of 10276.0",
    );
    help_assert_result(
        brackets.determine_correct_bracket(cents(15000.0)),
        1,
        "input of 15000.0",
    );
}

#[test]
fn test_calculate_individual_taxes() {
    let brackets = help_make_test_brackets();
    help_assert_result(
        brackets.calculate_tax_amount(cents(0.0)),
        cents(0.0),
        "input of 0.0",
    );
    help_assert_result(
        brackets.calculate_tax_amount(cents(10275.0)),
        cents(1027.5),
        "input of 10275.0",
    );
    help_assert_result(
        brackets.calculate_tax_amount(cents(30000.0)),
        cents(3394.50),
        "input of 30000.0",
    );
    help_assert_result(
        brackets.calculate_tax_amount(cents(50000.0)),
        cents(6617.0),
        "input of 50000.0",
    );
}

#[test]
fn individual_taxes_in_cents() {
    let brackets = help_make_test_brackets();
    assert_eq!(brackets.calculate_tax_amount(0).unwrap(), 0);
    assert_eq!(brackets.calculate_tax_amount(1_027_500).unwrap(), 102_750);
    assert_eq!(brackets.calculate_tax_amount(3_000_000).unwrap(), 339_450);
    assert_eq!(brackets.calculate_tax_amount(5_000_000).unwrap(), 661_700);
}
