//! Amounts of foreign currencies: parsed, formatted and stored without floating point.
use vstd::prelude::*;

use crate::error;
use crate::error::{AppError, ErrorView, Result};
use crate::money;
use crate::money::Money;
use crate::text;
use crate::text::Text;

verus! {

/// The decimal places of a supported currency; nothing for any other text.
pub open spec fn currency_places(currency: Text) -> Option<u32> {
    if currency == "USD"@ || currency == "EUR"@ || currency == "GBP"@ || currency == "HKD"@
        || currency == "SGD"@ || currency == "AUD"@ || currency == "CAD"@ || currency == "CHF"@
        || currency == "NZD"@ || currency == "TWD"@ {
        Some(2)
    } else if currency == "JPY"@ || currency == "KRW"@ {
        Some(0)
    } else {
        None
    }
}

/// The error for a currency that is not supported.
pub open spec fn currency_error() -> ErrorView {
    error::invalid_input(
        "外币必须为 USD、JPY、EUR、GBP、HKD、SGD、AUD、CAD、CHF、NZD、KRW 或 TWD（大写）"@,
    )
}

/// Supported ISO 4217 minor-unit precision. Deliberately rejects CNY and unknown codes.
pub fn currency_digits(currency: &str) -> (result: Result<u32>)
    ensures
        error::outcome(result) == match currency_places(currency@) {
            Some(places) => Ok::<u32, ErrorView>(places),
            None => Err(currency_error()),
        },
{
    if text::same(currency, "USD") || text::same(currency, "EUR") || text::same(currency, "GBP")
        || text::same(currency, "HKD") || text::same(currency, "SGD") || text::same(currency, "AUD")
        || text::same(currency, "CAD") || text::same(currency, "CHF") || text::same(currency, "NZD")
        || text::same(currency, "TWD") {
        Ok(2)
    } else if text::same(currency, "JPY") || text::same(currency, "KRW") {
        Ok(0)
    } else {
        Err(
            AppError::invalid(
                "外币必须为 USD、JPY、EUR、GBP、HKD、SGD、AUD、CAD、CHF、NZD、KRW 或 TWD（大写）",
            ),
        )
    }
}

/// The error for an amount beyond the range of the stored integers.
pub open spec fn range_error() -> ErrorView {
    error::invalid_input("原币金额超出可表示范围"@)
}

/// The units of its smallest denomination that an amount text of a currency stands for, before
/// zero is rejected.
pub open spec fn foreign_units(places: u32, amount: Text) -> core::result::Result<int, ErrorView> {
    if places == 2 {
        match money::parsed_amount(amount) {
            Ok(value) => Ok(value.0 as int),
            Err(error) => Err(error),
        }
    } else if amount.len() == 0 || !text::all_digits(amount) {
        Err(error::invalid_input("JPY/KRW 金额必须为无小数的正整数字符串"@))
    } else if text::decimal_value(amount) > i64::MAX {
        Err(range_error())
    } else {
        Ok(text::decimal_value(amount) as int)
    }
}

/// What parsing an amount of a foreign currency answers.
pub open spec fn parsed_foreign(currency: Text, amount: Text) -> core::result::Result<
    i64,
    ErrorView,
> {
    match currency_places(currency) {
        None => Err(currency_error()),
        Some(places) => match foreign_units(places, amount) {
            Err(error) => Err(error),
            Ok(units) => if units <= 0 {
                Err(error::invalid_input("原币金额必须大于零"@))
            } else {
                Ok(units as i64)
            },
        },
    }
}

fn integer_units(amount: &str) -> (result: Result<i64>)
    ensures
        match error::outcome(result) {
            Ok(units) => foreign_units(0, amount@) == Ok::<int, ErrorView>(units as int),
            Err(error) => foreign_units(0, amount@) == Err::<int, ErrorView>(error),
        },
{
    let characters = text::chars_of(amount);
    assert(characters@.subrange(0, characters@.len() as int) =~= characters@);
    if characters.len() == 0 || !text::are_digits(&characters, 0, characters.len()) {
        return Err(AppError::invalid("JPY/KRW 金额必须为无小数的正整数字符串"));
    }
    match text::parse_digits(&characters, 0, characters.len()) {
        Some(units) => Ok(units),
        None => Err(AppError::invalid("原币金额超出可表示范围")),
    }
}

/// Reads a positive amount of a foreign currency in units of its smallest denomination.
pub fn parse_foreign_minor(currency: &str, amount: &str) -> (result: Result<i64>)
    ensures
        error::outcome(result) == parsed_foreign(currency@, amount@),
{
    let places = match currency_digits(currency) {
        Ok(places) => places,
        Err(error) => {
            return Err(error);
        },
    };
    let minor = if places == 2 {
        match Money::parse(amount) {
            Ok(value) => value.minor(),
            Err(error) => {
                return Err(error);
            },
        }
    } else {
        match integer_units(amount) {
            Ok(units) => units,
            Err(error) => {
                return Err(error);
            },
        }
    };
    if minor <= 0 {
        return Err(AppError::invalid("原币金额必须大于零"));
    }
    Ok(minor)
}

/// What formatting units of the smallest denomination of a currency answers.
pub open spec fn foreign_text(currency: Text, amount: int) -> core::result::Result<
    Text,
    ErrorView,
> {
    match currency_places(currency) {
        None => Err(currency_error()),
        Some(places) => if places == 0 {
            Ok(text::signed_decimal(amount))
        } else {
            Ok(money::minor_text(amount))
        },
    }
}

/// Writes units of the smallest denomination of a currency with its decimal places.
pub fn format_foreign_minor(currency: &str, amount: i128) -> (result: Result<String>)
    ensures
        error::outcome(result) == foreign_text(currency@, amount as int),
{
    match currency_digits(currency) {
        Ok(places) => if places == 0 {
            Ok(text::signed_text(amount))
        } else {
            Ok(money::format_minor(amount))
        },
        Err(error) => Err(error),
    }
}

/// What an amount text of a currency is stored as: hundredths, for every currency alike.
pub open spec fn stored_amount(currency: Text, amount: Text) -> core::result::Result<
    i64,
    ErrorView,
> {
    match parsed_foreign(currency, amount) {
        Err(error) => Err(error),
        Ok(units) => if currency_places(currency) == Some(2u32) {
            Ok(units)
        } else if units * 100 > i64::MAX {
            Err(range_error())
        } else {
            Ok((units * 100) as i64)
        },
    }
}

/// Reads an amount of a foreign currency as hundredths of the currency.
pub fn store_amount(currency: &str, amount: &str) -> (result: Result<i64>)
    ensures
        error::outcome(result) == stored_amount(currency@, amount@),
{
    let units = match parse_foreign_minor(currency, amount) {
        Ok(units) => units,
        Err(error) => {
            return Err(error);
        },
    };
    match currency_digits(currency) {
        Ok(places) => if places == 2 {
            Ok(units)
        } else {
            match units.checked_mul(100) {
                Some(hundredths) => Ok(hundredths),
                None => Err(AppError::invalid("原币金额超出可表示范围")),
            }
        },
        Err(error) => Err(error),
    }
}

/// The error for hundredths of a currency that has none.
pub open spec fn fraction_error() -> ErrorView {
    error::damaged("JPY/KRW 存储金额必须为 100 的整数倍"@)
}

/// What hundredths of a currency are shown as.
pub open spec fn shown_amount(currency: Text, hundredths: int) -> core::result::Result<
    Text,
    ErrorView,
> {
    if currency_places(currency) == Some(0u32) {
        if hundredths % 100 != 0 {
            Err(fraction_error())
        } else {
            foreign_text(currency, hundredths / 100)
        }
    } else {
        foreign_text(currency, hundredths)
    }
}

/// Writes hundredths of a currency as an amount of that currency.
pub fn show_amount(currency: &str, hundredths: i128) -> (result: Result<String>)
    ensures
        error::outcome(result) == shown_amount(currency@, hundredths as int),
{
    match currency_digits(currency) {
        Ok(places) => if places == 0 {
            // The quotient and the remainder are taken of the magnitude, so that they are exact
            // below zero too.
            let magnitude = text::magnitude_of(hundredths);
            if magnitude % 100 != 0 {
                Err(AppError::damaged("JPY/KRW 存储金额必须为 100 的整数倍"))
            } else {
                let units = (magnitude / 100) as i128;
                format_foreign_minor(
                    currency,
                    if hundredths < 0 {
                        -units
                    } else {
                        units
                    },
                )
            }
        } else {
            format_foreign_minor(currency, hundredths)
        },
        Err(error) => Err(error),
    }
}

/// An accepted amount is positive, is stored in whole units where the currency has no smaller
/// ones, and what is shown of it is accepted again as the same amount.
pub proof fn law_foreign_amounts_round_trip(currency: Text, amount: Text)
    requires
        stored_amount(currency, amount) is Ok,
    ensures
        ({
            let hundredths = stored_amount(currency, amount)->Ok_0;
            let shown = shown_amount(currency, hundredths as int);
            &&& hundredths > 0
            &&& currency_places(currency) == Some(0u32) ==> hundredths % 100 == 0
            &&& shown is Ok
            &&& stored_amount(currency, shown->Ok_0) == Ok::<i64, ErrorView>(hundredths)
        }),
{
    let hundredths = stored_amount(currency, amount)->Ok_0;
    if currency_places(currency) == Some(2u32) {
        money::law_amounts_round_trip(Money(hundredths));
    } else {
        text::lemma_decimal((hundredths / 100) as nat);
    }
}

/// A currency without smaller units accepts no decimal point, not even before zeros.
pub proof fn law_whole_currencies_take_no_point(currency: Text, amount: Text)
    requires
        currency_places(currency) == Some(0u32),
        amount.contains('.'),
    ensures
        stored_amount(currency, amount) is Err,
{
    let i = choose|i: int| 0 <= i < amount.len() && amount[i] == '.';
    assert(!text::is_digit(amount[i]));
}

} // verus!
