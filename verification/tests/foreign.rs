use claw_expense::foreign::{
    currency_digits, format_foreign_minor, parse_foreign_minor, show_amount, store_amount,
};

#[test]
fn foreign_money_is_exact_and_currency_specific() {
    for (currency, input, expected) in [
        ("USD", "0.10", 10),
        ("USD", "90071992547409.93", 9_007_199_254_740_993),
        ("USD", "92233720368547758.07", i64::MAX),
        ("TWD", "1234.56", 123456),
        ("TWD", "0.01", 1),
        ("TWD", "92233720368547758.07", i64::MAX),
        ("JPY", "9223372036854775807", i64::MAX),
        ("KRW", "1000", 1000),
        ("JPY", "00100", 100),
    ] {
        assert_eq!(parse_foreign_minor(currency, input).unwrap(), expected);
    }
    for (currency, input) in [
        ("JPY", "1.0"),
        ("KRW", "0.01"),
        ("JPY", "1e3"),
        ("JPY", "-1"),
        ("JPY", "+1"),
        ("JPY", " 1"),
        ("JPY", "1,000"),
        ("JPY", "1_000"),
        ("JPY", "１"),
        ("JPY", "0"),
        ("USD", "0.00"),
        ("USD", "1.001"),
        ("USD", "1e2"),
        ("JPY", "9223372036854775808"),
        ("USD", "92233720368547758.08"),
        ("TWD", "1.001"),
        ("TWD", "0"),
        ("TWD", "1e2"),
        ("TWD", "92233720368547758.08"),
        ("CNY", "1"),
        ("BTC", "1"),
        ("usd", "1"),
    ] {
        assert!(
            parse_foreign_minor(currency, input).is_err(),
            "accepted {currency} {input}"
        );
    }
    assert_eq!(
        format_foreign_minor("JPY", i128::MAX).unwrap(),
        i128::MAX.to_string()
    );
    for (currency, precision) in [
        ("USD", 2),
        ("JPY", 0),
        ("EUR", 2),
        ("GBP", 2),
        ("HKD", 2),
        ("SGD", 2),
        ("AUD", 2),
        ("CAD", 2),
        ("CHF", 2),
        ("NZD", 2),
        ("KRW", 0),
        ("TWD", 2),
    ] {
        assert_eq!(currency_digits(currency).unwrap(), precision);
        assert_eq!(
            parse_foreign_minor(currency, "1").unwrap(),
            if precision == 0 { 1 } else { 100 }
        );
    }
}

#[test]
fn amounts_are_stored_in_hundredths_and_shown_as_they_were_given() {
    for (currency, given, stored, shown) in [
        ("JPY", "1000", 100_000, "1000"),
        ("KRW", "00100", 10_000, "100"),
        ("JPY", "92233720368547758", 9_223_372_036_854_775_800, "92233720368547758"),
        ("USD", "12.34", 1_234, "12.34"),
        ("TWD", "0.1", 10, "0.10"),
        ("USD", "92233720368547758.07", i64::MAX, "92233720368547758.07"),
    ] {
        assert_eq!(store_amount(currency, given).unwrap(), stored, "{currency} {given}");
        assert_eq!(show_amount(currency, i128::from(stored)).unwrap(), shown);
        assert_eq!(store_amount(currency, shown).unwrap(), stored);
    }
    let error = store_amount("JPY", "92233720368547759").unwrap_err();
    assert_eq!(error.message, "原币金额超出可表示范围");
    assert_eq!(
        store_amount("KRW", "1000.00").unwrap_err().message,
        "JPY/KRW 金额必须为无小数的正整数字符串"
    );
    assert_eq!(store_amount("USD", "0").unwrap_err().message, "原币金额必须大于零");
    assert!(store_amount("CNY", "1").unwrap_err().message.starts_with("外币必须为 USD"));
    assert_eq!(show_amount("JPY", 150).unwrap_err().code, "DATABASE_ERROR");
    assert_eq!(show_amount("JPY", -200).unwrap(), "-2");
    assert_eq!(show_amount("JPY", i128::MIN + 28).unwrap(), "-1701411834604692317316873037158841057");
}
