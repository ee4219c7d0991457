//! Optional times of occurrence, kept with the local date and the precision that they were given
//! with. No time zone is guessed, no midnight is made up and nothing is converted to UTC.
use vstd::prelude::*;

use crate::calendar;
use crate::error;
use crate::error::{AppError, ErrorView, Result};
use crate::text;
use crate::text::Text;

verus! {

/// The error that a text gets which is no time of occurrence.
pub open spec fn occurrence_error() -> ErrorView {
    error::invalid_input(
        "occurred-at 必须为带明确时区的 ISO 8601 时间，如 2026-09-30T23:30+08:00 或 2026-09-30T23:30:12.123Z；不接受未知时区 -00:00"@,
    )
}

/// The error for a date that is not the local date of the time beside it.
pub open spec fn mismatch_error() -> ErrorView {
    error::invalid_input("date 必须与 occurred-at 自带时区中的本地日期一致"@)
}

fn invalid() -> (error: AppError)
    ensures
        error.deep_view() == occurrence_error(),
{
    AppError::invalid(
        "occurred-at 必须为带明确时区的 ISO 8601 时间，如 2026-09-30T23:30+08:00 或 2026-09-30T23:30:12.123Z；不接受未知时区 -00:00",
    )
}

pub open spec fn is_ascii(text: Text) -> bool {
    forall|i: int| 0 <= i < text.len() ==> (#[trigger] text[i] as int) < 128
}

/// Whether two digits stand at a place of the text, for a number up to a limit.
pub open spec fn holds_number(text: Text, at: int, limit: int) -> bool {
    &&& text::is_digit(text[at])
    &&& text::is_digit(text[at + 1])
    &&& text::digit_value(text[at]) * 10 + text::digit_value(text[at + 1]) <= limit
}

/// The part of a time after the local date and time: `Z` or a signed offset.
pub open spec fn offset_part(text: Text) -> Text {
    if text.last() == 'Z' {
        seq!['Z']
    } else {
        text.skip(text.len() - 6)
    }
}

/// The local date and time, which stands before the offset.
pub open spec fn local_part(text: Text) -> Text {
    text.take(text.len() - offset_part(text).len())
}

/// `Z`, or `+HH:MM` or `-HH:MM` except the unknown offset `-00:00`.
pub open spec fn is_offset(offset: Text) -> bool {
    ||| offset == seq!['Z']
    ||| {
        &&& offset.len() == 6
        &&& offset[0] == '+' || offset[0] == '-'
        &&& offset[3] == ':'
        &&& holds_number(offset, 1, 23)
        &&& holds_number(offset, 4, 59)
        &&& offset != seq!['-', '0', '0', ':', '0', '0']
    }
}

/// `THH:MM` behind the ten characters of the date.
pub open spec fn has_clock(local: Text) -> bool {
    &&& local.len() >= 16
    &&& local[10] == 'T'
    &&& local[13] == ':'
    &&& holds_number(local, 11, 23)
    &&& holds_number(local, 14, 59)
}

/// Nothing, `:SS`, or `:SS.` and one to nine digits behind the minutes.
pub open spec fn has_fine_time(local: Text) -> bool {
    ||| local.len() == 16
    ||| {
        &&& local.len() >= 19
        &&& local[16] == ':'
        &&& holds_number(local, 17, 59)
        &&& local.len() == 19 || {
            &&& local[19] == '.'
            &&& 1 <= local.len() - 20 <= 9
            &&& text::all_digits(local.skip(20))
        }
    }
}

/// What a time of occurrence is stored as: a zero offset is written `Z` and all else stays.
pub open spec fn normalized(text: Text) -> core::result::Result<Text, ErrorView> {
    if !is_ascii(text) || !(17 <= text.len() <= 35) || !is_offset(offset_part(text)) || !has_clock(
        local_part(text),
    ) {
        Err(occurrence_error())
    } else if !calendar::is_date(text.take(10)) {
        Err(calendar::date_error())
    } else if !has_fine_time(local_part(text)) {
        Err(occurrence_error())
    } else if offset_part(text) == seq!['+', '0', '0', ':', '0', '0'] {
        Ok(local_part(text).push('Z'))
    } else {
        Ok(text)
    }
}

/// Whether a text is a time of occurrence in the form that is stored.
pub open spec fn is_normal(text: Text) -> bool {
    normalized(text) == Ok::<Text, ErrorView>(text)
}

/// The number that two digits at a place of the characters stand for.
fn number(characters: &Vec<char>, at: usize) -> (result: Option<i64>)
    requires
        at + 1 < characters.len(),
    ensures
        result is Some == (text::is_digit(characters@[at as int]) && text::is_digit(
            characters@[at + 1],
        )),
        result matches Some(value) ==> value == text::digit_value(characters@[at as int]) * 10
            + text::digit_value(characters@[at + 1]),
{
    let tens = characters[at];
    let ones = characters[at + 1];
    if '0' <= tens && tens <= '9' && '0' <= ones && ones <= '9' {
        Some(text::digit_number(tens) * 10 + text::digit_number(ones))
    } else {
        None
    }
}

fn has_number(characters: &Vec<char>, at: usize, limit: i64) -> (answer: bool)
    requires
        at + 1 < characters.len(),
    ensures
        answer == holds_number(characters@, at as int, limit as int),
{
    match number(characters, at) {
        Some(value) => value <= limit,
        None => false,
    }
}

fn are_ascii(characters: &Vec<char>) -> (answer: bool)
    ensures
        answer == is_ascii(characters@),
{
    let mut i: usize = 0;
    while i < characters.len()
        invariant
            i <= characters.len(),
            forall|k: int| 0 <= k < i ==> (#[trigger] characters@[k] as int) < 128,
        decreases characters.len() - i,
    {
        let character = characters[i];
        if character > '\u{7f}' {
            return false;
        }
        i += 1;
    }
    true
}

fn offset_fits(characters: &Vec<char>) -> (answer: bool)
    requires
        characters.len() >= 17,
    ensures
        answer == is_offset(offset_part(characters@)),
{
    let end = characters.len();
    if characters[end - 1] == 'Z' {
        return true;
    }
    let ghost offset = offset_part(characters@);
    assert(offset.len() == 6);
    assert forall|i: int| 0 <= i < 6 implies #[trigger] offset[i] == characters@[end - 6 + i] by {}
    assert(offset[5] != 'Z');
    assert(offset != seq!['Z']);
    let sign = characters[end - 6];
    let hours = has_number(characters, end - 5, 23);
    let minutes = has_number(characters, end - 2, 59);
    let unknown = sign == '-' && characters[end - 5] == '0' && characters[end - 4] == '0'
        && characters[end - 2] == '0' && characters[end - 1] == '0';
    assert(unknown && offset[3] == ':' ==> offset =~= seq!['-', '0', '0', ':', '0', '0']);
    let ghost zero = seq!['-', '0', '0', ':', '0', '0'];
    assert(offset == zero ==> offset[0] == zero[0] && offset[1] == zero[1] && offset[2] == zero[2]
        && offset[4] == zero[4] && offset[5] == zero[5]);
    (sign == '+' || sign == '-') && characters[end - 3] == ':' && hours && minutes && !unknown
}

/// Writes a zero offset as `Z`, without changing the precision, the local date or any other
/// offset.
pub fn normalize_occurred_at(value: &str) -> (result: Result<String>)
    ensures
        error::outcome(result) == normalized(value@),
{
    let characters = text::chars_of(value);
    if characters.len() < 17 || characters.len() > 35 || !are_ascii(&characters) {
        return Err(invalid());
    }
    if !offset_fits(&characters) {
        return Err(invalid());
    }
    let end = characters.len();
    let split = if characters[end - 1] == 'Z' {
        end - 1
    } else {
        end - 6
    };
    let ghost local = local_part(value@);
    assert(local == value@.take(split as int));
    if split < 16 {
        return Err(invalid());
    }
    if characters[10] != 'T' || characters[13] != ':' || !has_number(&characters, 11, 23)
        || !has_number(&characters, 14, 59) {
        return Err(invalid());
    }
    assert(has_clock(local));
    let date = text::text_of(&characters, 0, 10);
    assert(date@ == value@.take(10));
    match calendar::validate_date(date.as_str()) {
        Ok(_) => {},
        Err(error) => {
            return Err(error);
        },
    }
    if split != 16 {
        if split < 19 || characters[16] != ':' || !has_number(&characters, 17, 59) {
            return Err(invalid());
        }
        if split != 19 {
            if characters[19] != '.' || split < 21 || split > 29 {
                return Err(invalid());
            }
            assert(local.skip(20) =~= characters@.subrange(20, split as int));
            if !text::are_digits(&characters, 20, split) {
                return Err(invalid());
            }
        }
    }
    assert(has_fine_time(local));
    let ghost offset = offset_part(value@);
    let ghost zero = seq!['+', '0', '0', ':', '0', '0'];
    assert(offset == zero ==> offset.len() == 6 && offset[0] == '+' && offset[1] == '0'
        && offset[2] == '0' && offset[4] == '0' && offset[5] == '0');
    if split + 6 == end && characters[end - 6] == '+' && characters[end - 5] == '0'
        && characters[end - 4] == '0' && characters[end - 2] == '0' && characters[end - 1] == '0' {
        assert(offset =~= zero);
        let mut text = text::text_of(&characters, 0, split);
        assert(text@ =~= local);
        text.push('Z');
        Ok(text)
    } else {
        Ok(value.to_owned())
    }
}

/// The date at the offset that the time gives, never the date after a conversion to UTC.
pub fn date_from_occurred_at(value: &str) -> (result: Result<String>)
    ensures
        error::outcome(result) == match normalized(value@) {
            Ok(_) => Ok::<Text, ErrorView>(value@.take(10)),
            Err(error) => Err(error),
        },
{
    match normalize_occurred_at(value) {
        Ok(_) => {
            let characters = text::chars_of(value);
            let date = text::text_of(&characters, 0, 10);
            assert(date@ == value@.take(10));
            Ok(date)
        },
        Err(error) => Err(error),
    }
}

/// What a date and an optional time beside it are stored as: the time in its stored form.
pub open spec fn occurrence(date: Text, occurred_at: Option<Text>) -> core::result::Result<
    Option<Text>,
    ErrorView,
> {
    if !calendar::is_date(date) {
        Err(calendar::date_error())
    } else {
        match occurred_at {
            None => Ok(None),
            Some(time) => match normalized(time) {
                Err(error) => Err(error),
                Ok(stored) => if stored.take(10) == date {
                    Ok(Some(stored))
                } else {
                    Err(mismatch_error())
                },
            },
        }
    }
}

/// Accepts a date and a time whose local date it is, and gives the time in its stored form.
pub fn validate_occurrence(date: &str, occurred_at: Option<&str>) -> (result: Result<
    Option<String>,
>)
    ensures
        error::outcome(result) == occurrence(date@, occurred_at.deep_view()),
{
    match calendar::validate_date(date) {
        Ok(_) => {},
        Err(error) => {
            return Err(error);
        },
    }
    match occurred_at {
        None => Ok(None),
        Some(time) => match normalize_occurred_at(time) {
            Err(error) => Err(error),
            Ok(stored) => {
                proof {
                    law_normalizing_keeps_the_local_time(time@);
                }
                let characters = text::chars_of(stored.as_str());
                let local_date = text::text_of(&characters, 0, 10);
                assert(local_date@ == stored@.take(10));
                if text::same(local_date.as_str(), date) {
                    Ok(Some(stored))
                } else {
                    Err(AppError::invalid("date 必须与 occurred-at 自带时区中的本地日期一致"))
                }
            },
        },
    }
}

/// A normalized time has the local date and time of the one it was made from, and the same offset
/// except that zero is written `Z`.
pub proof fn law_normalizing_keeps_the_local_time(text: Text)
    requires
        normalized(text) is Ok,
    ensures
        local_part(normalized(text)->Ok_0) == local_part(text),
        normalized(text)->Ok_0.take(10) == text.take(10),
        normalized(text)->Ok_0.len() >= 17,
        offset_part(normalized(text)->Ok_0) == if offset_part(text) == seq![
            '+',
            '0',
            '0',
            ':',
            '0',
            '0',
        ] {
            seq!['Z']
        } else {
            offset_part(text)
        },
{
    let stored = normalized(text)->Ok_0;
    assert(local_part(text).len() >= 16);
    if stored != text {
        assert(stored.last() == 'Z');
        assert(local_part(stored) =~= local_part(text));
        assert(stored.take(10) =~= text.take(10));
    }
}

/// Normalizing a time twice is normalizing it once.
pub proof fn law_normalizing_is_idempotent(text: Text)
    requires
        normalized(text) is Ok,
    ensures
        is_normal(normalized(text)->Ok_0),
{
    law_normalizing_keeps_the_local_time(text);
    let stored = normalized(text)->Ok_0;
    if stored != text {
        assert forall|i: int| 0 <= i < stored.len() implies (#[trigger] stored[i] as int) < 128 by {
            if i < stored.len() - 1 {
                assert(stored[i] == text[i]);
            }
        }
        assert(offset_part(stored).len() == 1);
    }
}

/// The date that a stored time belongs to is a date of the calendar.
pub proof fn law_local_dates_are_dates(date: Text, occurred_at: Option<Text>)
    requires
        occurrence(date, occurred_at) is Ok,
    ensures
        calendar::is_date(date),
        occurrence(date, occurred_at)->Ok_0 is Some == occurred_at is Some,
        occurrence(date, occurred_at)->Ok_0 matches Some(stored) ==> is_normal(stored)
            && stored.take(10) == date,
{
    if let Some(time) = occurred_at {
        law_normalizing_is_idempotent(time);
    }
}

} // verus!
