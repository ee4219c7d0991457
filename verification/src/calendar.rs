//! Calendar dates of the form `YYYY-MM-DD`.
use chrono::{Datelike, Days, NaiveDate};
use vstd::prelude::*;

use crate::error;
use crate::error::{AppError, ErrorView, Result};
use crate::text;
use crate::text::Text;

verus! {

/// A day of the Gregorian calendar: year, month, day.
pub type Day = (int, int, int);

pub open spec fn is_leap_year(year: int) -> bool {
    year % 4 == 0 && (year % 100 != 0 || year % 400 == 0)
}

pub open spec fn days_in_month(year: int, month: int) -> int {
    if month == 2 {
        if is_leap_year(year) {
            29
        } else {
            28
        }
    } else if month == 4 || month == 6 || month == 9 || month == 11 {
        30
    } else {
        31
    }
}

/// Whether the calendar has this day.
pub open spec fn is_day(day: Day) -> bool {
    1 <= day.1 <= 12 && 1 <= day.2 <= days_in_month(day.0, day.1)
}

/// The day after a day.
pub open spec fn next_day(day: Day) -> Day {
    if day.2 < days_in_month(day.0, day.1) {
        (day.0, day.1, day.2 + 1)
    } else if day.1 < 12 {
        (day.0, day.1 + 1, 1)
    } else {
        (day.0 + 1, 1, 1)
    }
}

/// The day that comes a number of days later.
pub open spec fn days_later(day: Day, days: nat) -> Day
    decreases days,
{
    if days == 0 {
        day
    } else {
        next_day(days_later(day, (days - 1) as nat))
    }
}

/// Four digits, a hyphen, two digits, a hyphen and two digits.
pub open spec fn has_date_shape(text: Text) -> bool {
    &&& text.len() == 10
    &&& forall|i: int|
        0 <= i < 10 ==> if i == 4 || i == 7 {
            #[trigger] text[i] == '-'
        } else {
            text::is_digit(text[i])
        }
}

/// The day that a text of this shape names.
pub open spec fn named_day(text: Text) -> Day {
    (
        text::decimal_value(text.subrange(0, 4)) as int,
        text::decimal_value(text.subrange(5, 7)) as int,
        text::decimal_value(text.subrange(8, 10)) as int,
    )
}

/// The text of a day in the years 0 to 9999.
pub open spec fn day_text(day: Day) -> Text {
    text::two_digits(day.0 / 100) + text::two_digits(day.0 % 100) + seq!['-'] + text::two_digits(
        day.1,
    ) + seq!['-'] + text::two_digits(day.2)
}

/// Whether the text names a calendar day in the years 1 to 9999.
pub open spec fn is_date(text: Text) -> bool {
    has_date_shape(text) && is_day(named_day(text)) && named_day(text).0 != 0
}

/// The day that a year, a month and a day of the month stand for.
pub open spec fn day_of(parts: (i32, u32, u32)) -> Day {
    (parts.0 as int, parts.1 as int, parts.2 as int)
}

/// `chrono::NaiveDate::parse_from_str` with `%Y-%m-%d` reads a text of this shape as the day that
/// it names, and fails exactly where the calendar has no such day.
#[verifier::external_body]
fn parse_day(value: &str) -> (result: Option<(i32, u32, u32)>)
    requires
        has_date_shape(value@),
    ensures
        result is Some == is_day(named_day(value@)),
        result is Some ==> day_of(result->0) == named_day(value@),
{
    match NaiveDate::parse_from_str(value, "%Y-%m-%d") {
        Ok(date) => Some((date.year(), date.month(), date.day())),
        Err(_) => None,
    }
}

/// `chrono::NaiveDate::checked_add_days` gives the day that comes so many days later; within
/// these bounds the result lies in the range of `NaiveDate`.
#[verifier::external_body]
fn add_days(year: i32, month: u32, day: u32, days: u64) -> (result: Option<(i32, u32, u32)>)
    requires
        0 <= year <= 9999,
        is_day(day_of((year, month, day))),
        days <= 1000,
    ensures
        result is Some,
        day_of(result->0) == days_later(day_of((year, month, day)), days as nat),
{
    match NaiveDate::from_ymd_opt(year, month, day)?.checked_add_days(Days::new(days)) {
        Some(date) => Some((date.year(), date.month(), date.day())),
        None => None,
    }
}

/// `chrono::NaiveDate::format` with `%Y-%m-%d` writes a day of the years 0 to 9999 with four
/// digits for the year and two each for the month and the day.
#[verifier::external_body]
fn format_day(year: i32, month: u32, day: u32) -> (result: Option<String>)
    requires
        0 <= year <= 9999,
        is_day(day_of((year, month, day))),
    ensures
        result is Some,
        result->0@ == day_text(day_of((year, month, day))),
{
    Some(NaiveDate::from_ymd_opt(year, month, day)?.format("%Y-%m-%d").to_string())
}

/// The error that a text gets which is no date.
pub open spec fn date_error() -> ErrorView {
    error::invalid_input("日期必须为有效的 YYYY-MM-DD（年份 0001..9999）"@)
}

fn invalid_date() -> (error: AppError)
    ensures
        error.deep_view() == date_error(),
{
    AppError::invalid("日期必须为有效的 YYYY-MM-DD（年份 0001..9999）")
}

/// Whether the characters have the shape of a date.
fn has_shape(characters: &Vec<char>) -> (answer: bool)
    ensures
        answer == has_date_shape(characters@),
{
    if characters.len() != 10 {
        return false;
    }
    let mut i: usize = 0;
    while i < 10
        invariant
            characters.len() == 10,
            i <= 10,
            forall|k: int|
                0 <= k < i ==> if k == 4 || k == 7 {
                    #[trigger] characters@[k] == '-'
                } else {
                    text::is_digit(characters@[k])
                },
        decreases 10 - i,
    {
        let character = characters[i];
        let fits = if i == 4 || i == 7 {
            character == '-'
        } else {
            '0' <= character && character <= '9'
        };
        if !fits {
            return false;
        }
        i += 1;
    }
    true
}

/// Whether the text names a calendar day in the years 1 to 9999.
pub fn names_date(value: &str) -> (answer: bool)
    ensures
        answer == is_date(value@),
{
    if !has_shape(&text::chars_of(value)) {
        return false;
    }
    match parse_day(value) {
        Some(day) => day.0 != 0,
        None => false,
    }
}

/// Accepts a date in the form `YYYY-MM-DD`, in the years 1 to 9999, that the calendar has.
pub fn validate_date(value: &str) -> (result: Result<()>)
    ensures
        error::outcome(result) == if is_date(value@) {
            Ok::<(), ErrorView>(())
        } else {
            Err(date_error())
        },
{
    if names_date(value) {
        Ok(())
    } else {
        Err(invalid_date())
    }
}

/// The date a few days after another; nothing where it lies beyond the year 9999.
pub open spec fn date_later(date: Text, days: nat) -> Option<Text> {
    let later = days_later(named_day(date), days);
    if later.0 > 9999 {
        None
    } else {
        Some(day_text(later))
    }
}

proof fn lemma_value_of_two(text: Text)
    requires
        text.len() == 2,
        text::all_digits(text),
    ensures
        text::decimal_value(text) == text::digit_value(text[0]) * 10 + text::digit_value(text[1]),
{
    reveal_with_fuel(text::decimal_value, 3);
    assert(text::is_digit(text[0]) && text::is_digit(text[1]));
    assert(text.drop_last().drop_last() =~= Seq::<char>::empty());
    assert(text.drop_last().last() == text[0]);
}

proof fn lemma_value_of_four(text: Text)
    requires
        text.len() == 4,
        text::all_digits(text),
    ensures
        0 <= text::decimal_value(text) <= 9999,
        text::decimal_value(text) == text::digit_value(text[0]) * 1000 + text::digit_value(text[1])
            * 100 + text::digit_value(text[2]) * 10 + text::digit_value(text[3]),
{
    assert(text::is_digit(text[0]) && text::is_digit(text[1]) && text::is_digit(text[2])
        && text::is_digit(text[3]));
    reveal_with_fuel(text::decimal_value, 3);
    let front = text.drop_last().drop_last();
    assert(text::all_digits(front)) by {
        assert forall|i: int| 0 <= i < front.len() implies text::is_digit(#[trigger] front[i]) by {
            assert(front[i] == text[i]);
        }
    }
    lemma_value_of_two(front);
    assert(front[0] == text[0] && front[1] == text[1]);
    assert(text.drop_last().last() == text[2]);
}

proof fn lemma_two_digits(text: Text)
    requires
        text.len() == 2,
        text::all_digits(text),
    ensures
        0 <= text::decimal_value(text) <= 99,
        text::two_digits(text::decimal_value(text) as int) == text,
{
    lemma_value_of_two(text);
    assert(text::is_digit(text[0]) && text::is_digit(text[1]));
    assert(text::digit(text::digit_value(text[0])) == text[0]);
    assert(text::digit(text::digit_value(text[1])) == text[1]);
    assert(text::two_digits(text::decimal_value(text) as int) =~= text);
}

/// The parts of a text that names a day.
pub proof fn lemma_named_day(text: Text)
    requires
        has_date_shape(text),
    ensures
        0 <= named_day(text).0 <= 9999,
        0 <= named_day(text).1 <= 99,
        0 <= named_day(text).2 <= 99,
        day_text(named_day(text)) == text,
{
    let year = text.subrange(0, 4);
    let century = text.subrange(0, 2);
    let rest = text.subrange(2, 4);
    let month = text.subrange(5, 7);
    let day = text.subrange(8, 10);
    assert(text::all_digits(year) && text::all_digits(century) && text::all_digits(rest)
        && text::all_digits(month) && text::all_digits(day));
    lemma_value_of_four(year);
    lemma_value_of_two(century);
    lemma_value_of_two(rest);
    lemma_two_digits(century);
    lemma_two_digits(rest);
    lemma_two_digits(month);
    lemma_two_digits(day);
    assert(text[4] == '-' && text[7] == '-');
    assert(named_day(text).0 == text::decimal_value(century) * 100 + text::decimal_value(rest));
    assert(text =~= century + rest + seq!['-'] + month + seq!['-'] + day);
}

/// The text of a day is read back as that day.
pub proof fn lemma_day_text(day: Day)
    requires
        0 <= day.0 <= 9999,
        is_day(day),
    ensures
        has_date_shape(day_text(day)),
        named_day(day_text(day)) == day,
{
    let text = day_text(day);
    let year = text.subrange(0, 4);
    let month = text.subrange(5, 7);
    let date = text.subrange(8, 10);
    assert(text[4] == '-' && text[7] == '-');
    assert forall|i: int| 0 <= i < 10 && i != 4 && i != 7 implies text::is_digit(
        #[trigger] text[i],
    ) by {}
    assert(text::all_digits(year) && text::all_digits(month) && text::all_digits(date));
    lemma_value_of_four(year);
    lemma_value_of_two(month);
    lemma_value_of_two(date);
}

/// Counting days onward keeps to the calendar and never goes back.
pub proof fn lemma_days_later(day: Day, days: nat)
    requires
        is_day(day),
    ensures
        is_day(days_later(day, days)),
        day.0 <= days_later(day, days).0 <= day.0 + days,
    decreases days,
{
    if days > 0 {
        lemma_days_later(day, (days - 1) as nat);
    }
}

/// The date that comes so many days after a valid one.
pub fn later_date(date: &str, days: u64) -> (result: Result<String>)
    requires
        is_date(date@),
        days <= 1000,
    ensures
        error::outcome(result) == match date_later(date@, days as nat) {
            Some(later) => Ok::<Text, ErrorView>(later),
            None => Err(date_error()),
        },
{
    proof {
        lemma_named_day(date@);
        lemma_days_later(named_day(date@), days as nat);
    }
    match parse_day(date) {
        Some(day) => match add_days(day.0, day.1, day.2, days) {
            Some(later) => if later.0 > 9999 {
                Err(invalid_date())
            } else {
                match format_day(later.0, later.1, later.2) {
                    Some(text) => Ok(text),
                    None => Err(invalid_date()),
                }
            },
            None => Err(invalid_date()),
        },
        None => Err(invalid_date()),
    }
}

/// Whether one day comes before another.
pub open spec fn day_before(left: Day, right: Day) -> bool {
    ||| left.0 < right.0
    ||| left.0 == right.0 && left.1 < right.1
    ||| left.0 == right.0 && left.1 == right.1 && left.2 < right.2
}

/// Counting days onward leads to later days.
proof fn lemma_days_go_on(day: Day, days: nat)
    requires
        is_day(day),
    ensures
        days_later(day, days) == day || day_before(day, days_later(day, days)),
    decreases days,
{
    if days > 0 {
        lemma_days_go_on(day, (days - 1) as nat);
        lemma_days_later(day, (days - 1) as nat);
    }
}

/// The texts of days are in the order of the days.
pub proof fn law_dates_sort_like_days(left: Day, right: Day)
    requires
        0 <= left.0 <= 9999,
        0 <= right.0 <= 9999,
        is_day(left),
        is_day(right),
        day_before(left, right),
    ensures
        text::before(day_text(left), day_text(right)),
{
    let low = day_text(left);
    let high = day_text(right);
    assert(low.len() == 10 && high.len() == 10);
    assert(low[4] == '-' && low[7] == '-' && high[4] == '-' && high[7] == '-');
    if left.0 != right.0 {
        lemma_digits_differ(left.0 / 100, right.0 / 100);
        lemma_digits_differ(left.0 % 100, right.0 % 100);
        if left.0 / 100 != right.0 / 100 {
            if low[0] != high[0] {
                text::lemma_before_at(low, high, 0);
            } else {
                text::lemma_before_at(low, high, 1);
            }
        } else if low[2] != high[2] {
            text::lemma_before_at(low, high, 2);
        } else {
            text::lemma_before_at(low, high, 3);
        }
    } else if left.1 != right.1 {
        lemma_digits_differ(left.1, right.1);
        if low[5] != high[5] {
            text::lemma_before_at(low, high, 5);
        } else {
            text::lemma_before_at(low, high, 6);
        }
    } else {
        lemma_digits_differ(left.2, right.2);
        if low[8] != high[8] {
            text::lemma_before_at(low, high, 8);
        } else {
            text::lemma_before_at(low, high, 9);
        }
    }
}

proof fn lemma_digits_differ(left: int, right: int)
    requires
        0 <= left <= 99,
        0 <= right <= 99,
    ensures
        left / 10 == right / 10 <==> text::two_digits(left)[0] == text::two_digits(right)[0],
        left < right ==> text::two_digits(left)[0] as int <= text::two_digits(right)[0] as int,
        left < right && text::two_digits(left)[0] == text::two_digits(right)[0] ==> (
        text::two_digits(left)[1] as int) < (text::two_digits(right)[1] as int),
{
}

/// A date so many days after another is a date, and never an earlier one.
pub proof fn law_later_dates_are_not_before(date: Text, days: nat)
    requires
        is_date(date),
    ensures
        date_later(date, days) matches Some(later) ==> is_date(later) && !text::before(later, date),
{
    let day = named_day(date);
    let after = days_later(day, days);
    lemma_named_day(date);
    lemma_days_later(day, days);
    lemma_days_go_on(day, days);
    if after.0 <= 9999 {
        lemma_day_text(after);
        if after == day {
            text::lemma_before_irreflexive(date);
        } else {
            law_dates_sort_like_days(day, after);
            text::lemma_before_asymmetric(date, day_text(after));
        }
    }
}

} // verus!
