//! Exact CNY amounts in integer minor units (fen).
use vstd::prelude::*;

use crate::error;
use crate::error::{AppError, ErrorView, Result};
use crate::text;
use crate::text::Text;

verus! {

/// An exact CNY amount, represented in integer minor units (fen).
///
/// Parsing accepts unsigned decimal input only. Signed amounts can be created
/// from minor units for derived values, such as a negative net expense.
#[derive(Debug, Clone, Copy, PartialEq, Eq, Structural, PartialOrd, Ord)]
pub struct Money(pub i64);

impl DeepView for Money {
    type V = Money;

    open spec fn deep_view(&self) -> Money {
        *self
    }
}

/// The hundredths that an unsigned decimal amount with at most two decimal places stands for;
/// nothing where the text is no such amount.
pub open spec fn amount_hundredths(text: Text) -> Option<nat> {
    let length = text.len() as int;
    if length > 0 && text::all_digits(text) {
        Some(text::decimal_value(text) * 100)
    } else if length >= 3 && text[length - 2] == '.' && text::all_digits(text.take(length - 2))
        && text::is_digit(text[length - 1]) {
        Some(
            (text::decimal_value(text.take(length - 2)) * 100 + text::digit_value(text[length - 1])
                * 10) as nat,
        )
    } else if length >= 4 && text[length - 3] == '.' && text::all_digits(text.take(length - 3))
        && text::is_digit(text[length - 2]) && text::is_digit(text[length - 1]) {
        Some(
            (text::decimal_value(text.take(length - 3)) * 100 + text::digit_value(text[length - 2])
                * 10 + text::digit_value(text[length - 1])) as nat,
        )
    } else {
        None
    }
}

/// What parsing an amount answers.
pub open spec fn parsed_amount(text: Text) -> core::result::Result<Money, ErrorView> {
    match amount_hundredths(text) {
        None => Err(
            error::invalid_input(
                "amount must be an unsigned decimal string with at most two decimal places"@,
            ),
        ),
        Some(value) => if value > i64::MAX {
            Err(error::invalid_input("amount exceeds the maximum of 92233720368547758.07"@))
        } else {
            Ok(Money(value as i64))
        },
    }
}

fn syntax_error() -> (error: AppError)
    ensures
        error.deep_view() == error::invalid_input(
            "amount must be an unsigned decimal string with at most two decimal places"@,
        ),
{
    AppError::invalid("amount must be an unsigned decimal string with at most two decimal places")
}

fn range_error() -> (error: AppError)
    ensures
        error.deep_view() == error::invalid_input(
            "amount exceeds the maximum of 92233720368547758.07"@,
        ),
{
    AppError::invalid("amount exceeds the maximum of 92233720368547758.07")
}

impl Money {
    pub fn from_minor(value: i64) -> (amount: Self)
        ensures
            amount == Money(value),
    {
        Money(value)
    }

    pub fn minor(self) -> (value: i64)
        ensures
            value == self.0,
    {
        self.0
    }

    /// Reads an unsigned decimal amount; nothing is rounded or cut off.
    pub fn parse(input: &str) -> (result: Result<Money>)
        ensures
            error::outcome(result) == parsed_amount(input@),
    {
        let characters = text::chars_of(input);
        let length = characters.len();
        // Where the whole part ends, and how many decimal places follow the point.
        let places: usize = if length >= 3 && characters[length - 2] == '.' {
            1
        } else if length >= 4 && characters[length - 3] == '.' {
            2
        } else {
            0
        };
        let whole_end: usize = if places == 0 {
            length
        } else {
            length - places - 1
        };
        assert(input@.subrange(0, whole_end as int) =~= input@.take(whole_end as int));
        assert(input@.take(length as int) =~= input@);
        assert(length >= 1 ==> input@.subrange(length - 1, length as int)[0] == input@[length - 1]);
        assert(length >= 2 ==> {
            &&& input@.subrange(length - 2, length as int)[0] == input@[length - 2]
            &&& input@.subrange(length - 2, length as int)[1] == input@[length - 1]
        });
        if whole_end == 0 || !text::are_digits(&characters, 0, whole_end) || !text::are_digits(
            &characters,
            length - places,
            length,
        ) {
            proof {
                if places == 1 {
                    assert(!text::is_digit(input@[length - 2]));
                } else if places == 2 {
                    assert(!text::is_digit(input@[length - 3]));
                }
            }
            return Err(syntax_error());
        }
        proof {
            if places == 1 {
                assert(!text::is_digit(input@[length - 2]));
                assert(text::is_digit(input@.subrange(length - 1, length as int)[0]));
            } else if places == 2 {
                assert(!text::is_digit(input@[length - 3]));
                assert(text::is_digit(input@.subrange(length - 2, length as int)[0]));
                assert(text::is_digit(input@.subrange(length - 2, length as int)[1]));
            }
        }
        let fraction: i64 = if places == 1 {
            text::digit_number(characters[length - 1]) * 10
        } else if places == 2 {
            text::digit_number(characters[length - 2]) * 10 + text::digit_number(
                characters[length - 1],
            )
        } else {
            0
        };
        let whole = match text::parse_digits(&characters, 0, whole_end) {
            Some(whole) => whole,
            None => {
                return Err(range_error());
            },
        };
        match whole.checked_mul(100) {
            Some(hundredfold) => match hundredfold.checked_add(fraction) {
                Some(minor) => Ok(Money(minor)),
                None => Err(range_error()),
            },
            None => Err(range_error()),
        }
    }

    /// The amount with two decimal places.
    pub fn to_string(&self) -> (text: String)
        ensures
            text@ == minor_text(self.0 as int),
    {
        format_minor(self.0 as i128)
    }
}

impl core::str::FromStr for Money {
    type Err = AppError;

    fn from_str(input: &str) -> (result: Result<Self>)
        ensures
            error::outcome(result) == parsed_amount(input@),
    {
        Money::parse(input)
    }
}

/// Minor units as a decimal text with exactly two decimal places and a minus sign where they are
/// negative.
pub open spec fn minor_text(value: int) -> Text {
    let sign = if value < 0 {
        seq!['-']
    } else {
        Seq::empty()
    };
    sign + text::decimal(text::magnitude(value) / 100) + seq!['.'] + text::two_digits(
        (text::magnitude(value) % 100) as int,
    )
}

/// Format integer minor units without converting to floating point.
///
/// The whole signed range is covered, `i128::MIN` included, whose positive magnitude cannot be
/// represented by an `i128`.
pub fn format_minor(value: i128) -> (text: String)
    ensures
        text@ == minor_text(value as int),
{
    let magnitude = text::magnitude_of(value);
    let mut text: String = String::new();
    if value < 0 {
        text.push('-');
    }
    text.append(text::decimal_text(magnitude / 100).as_str());
    text.push('.');
    text.append(text::two_digit_text((magnitude % 100) as u8).as_str());
    assert(text@ =~= minor_text(value as int));
    text
}

/// Every amount that is not negative is read back from its text as it was.
pub proof fn law_amounts_round_trip(amount: Money)
    requires
        amount.0 >= 0,
    ensures
        parsed_amount(minor_text(amount.0 as int)) == Ok::<Money, ErrorView>(amount),
{
    let value = amount.0 as nat;
    let text = minor_text(value as int);
    let whole = text::decimal(value / 100);
    text::lemma_decimal(value / 100);
    let length = text.len() as int;
    assert(length == whole.len() + 3);
    assert(text[length - 3] == '.');
    assert(text.take(length - 3) =~= whole);
    assert(text[length - 2] == text::digit((value % 100) as int / 10));
    assert(text[length - 1] == text::digit((value % 100) as int % 10));
    assert(text::is_digit(text[length - 2]) && text::is_digit(text[length - 1]));
    assert(!text::is_digit(text[length - 3]));
    assert(!text::all_digits(text));
    assert(text[length - 2] != '.');
    assert(amount_hundredths(text) == Some(value));
}

/// No amount with a sign in front is ever read, so negative amounts never enter from a text.
pub proof fn law_signs_are_rejected(text: Text)
    requires
        text.len() > 0,
        text[0] == '-' || text[0] == '+',
    ensures
        parsed_amount(text) is Err,
{
    let length = text.len() as int;
    assert(!text::is_digit(text[0]));
    if length >= 3 {
        assert(text.take(length - 2)[0] == text[0]);
    }
    if length >= 4 {
        assert(text.take(length - 3)[0] == text[0]);
    }
}

/// Two amounts have the same text only where they are the same, so equal texts stand for equal
/// amounts.
pub proof fn law_texts_tell_amounts_apart(left: Money, right: Money)
    requires
        left.0 >= 0,
        right.0 >= 0,
        minor_text(left.0 as int) == minor_text(right.0 as int),
    ensures
        left == right,
{
    law_amounts_round_trip(left);
    law_amounts_round_trip(right);
}

} // verus!
