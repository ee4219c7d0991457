use claw_expense::money::{format_minor, Money};

#[test]
fn parses_decimal_strings_exactly() {
    for (input, expected) in [
        ("0", 0),
        ("0.00", 0),
        ("0.01", 1),
        ("0.1", 10),
        ("12", 1200),
        ("12.3", 1230),
        ("12.30", 1230),
        ("00012.30", 1230),
        ("90071992547409.93", 9_007_199_254_740_993),
        ("92233720368547758.07", i64::MAX),
    ] {
        assert_eq!(input.parse::<Money>().unwrap().minor(), expected, "{input}");
    }
}

#[test]
fn decimal_addition_is_exact_in_minor_units() {
    let first: Money = "0.10".parse().unwrap();
    let second: Money = "0.20".parse().unwrap();
    let result = Money::from_minor(first.minor().checked_add(second.minor()).unwrap());
    assert_eq!(result.minor(), 30);
    assert_eq!(result.to_string(), "0.30");
}

#[test]
fn rejects_invalid_syntax_instead_of_rounding_or_coercing() {
    for input in [
        "",
        " ",
        " 1",
        "1 ",
        "1\n",
        "-1",
        "-0.00",
        "+1",
        ".1",
        "1.",
        "1.234",
        "1.000",
        "1.2.3",
        "1e2",
        "1E2",
        "NaN",
        "inf",
        "1,000",
        "1_000",
        "１２.３４",
        "١٢.٣٤",
        "1\0",
    ] {
        assert!(input.parse::<Money>().is_err(), "accepted {input:?}");
    }
}

#[test]
fn rejects_out_of_range_amounts() {
    for input in [
        "92233720368547758.08",
        "92233720368547759",
        "9223372036854775807",
        "9223372036854775808",
        "999999999999999999999999999999999999999999999999999999",
    ] {
        assert!(input.parse::<Money>().is_err(), "accepted {input}");
    }
}

#[test]
fn formats_signed_amounts_and_extreme_values() {
    for (value, expected) in [
        (0, "0.00"),
        (1, "0.01"),
        (-1, "-0.01"),
        (-10, "-0.10"),
        (-100, "-1.00"),
        (-200, "-2.00"),
        (i64::MAX, "92233720368547758.07"),
        (i64::MIN, "-92233720368547758.08"),
    ] {
        assert_eq!(Money::from_minor(value).to_string(), expected);
    }
    assert_eq!(
        format_minor(i128::MAX),
        "1701411834604692317316873037158841057.27"
    );
    assert_eq!(
        format_minor(i128::MIN),
        "-1701411834604692317316873037158841057.28"
    );
}

#[test]
fn nonnegative_values_round_trip_through_decimal_strings() {
    for minor in (0..=10_000).chain([9_007_199_254_740_993, i64::MAX - 1, i64::MAX]) {
        let amount = Money::from_minor(minor);
        assert_eq!(amount.to_string().parse::<Money>().unwrap(), amount);
    }
}

#[test]
fn every_rejected_amount_is_reported_as_invalid_input() {
    let error = Money::parse("1.234").unwrap_err();
    assert_eq!(error.code, "INVALID_INPUT");
    assert_eq!(
        error.message,
        "amount must be an unsigned decimal string with at most two decimal places"
    );
    let error = Money::parse("92233720368547758.08").unwrap_err();
    assert_eq!(error.code, "INVALID_INPUT");
    assert_eq!(
        error.message,
        "amount exceeds the maximum of 92233720368547758.07"
    );
}
