//! What the texts of dates, times and amounts stand for.
use vstd::prelude::*;

use crate::calendar;
use crate::calendar::Day;
use crate::foreign;
use crate::money;
use crate::occurrence;
use crate::text;
use crate::text::Text;

verus! {

/// The leap days of the years before a year.
pub open spec fn leap_days(year: int) -> int {
    (year + 3) / 4 - (year + 99) / 100 + (year + 399) / 400
}

/// The days of the months before a month, in a year without a leap day.
pub open spec fn days_before_month(month: int) -> int {
    seq![0int, 31, 59, 90, 120, 151, 181, 212, 243, 273, 304, 334, 365][month - 1]
}

/// The number of a day, counted through the years from the beginning of the calendar.
pub open spec fn day_number(day: Day) -> int {
    day.0 * 365 + leap_days(day.0) + days_before_month(day.1) + day.2 + if day.1 > 2 {
        leap_days(day.0 + 1) - leap_days(day.0)
    } else {
        0
    }
}

proof fn lemma_step(year: int, cycle: int)
    requires
        cycle == 4 || cycle == 100 || cycle == 400,
    ensures
        (year + cycle) / cycle - (year + cycle - 1) / cycle == if year % cycle == 0 {
            1int
        } else {
            0
        },
{
}

/// A year has a leap day exactly where the calendar says so.
proof fn lemma_leap_day(year: int)
    ensures
        leap_days(year + 1) - leap_days(year) == if calendar::is_leap_year(year) {
            1int
        } else {
            0
        },
{
    lemma_step(year, 4);
    lemma_step(year, 100);
    lemma_step(year, 400);
    assert(year % 400 == 0 ==> year % 100 == 0);
    assert(year % 100 == 0 ==> year % 4 == 0);
}

proof fn lemma_month_lengths(month: int)
    requires
        1 <= month <= 12,
    ensures
        days_before_month(1) == 0,
        month == 12 ==> days_before_month(12) + 31 == 365,
        month < 12 ==> days_before_month(month + 1) - days_before_month(month)
            == if month == 2 {
            28int
        } else if month == 4 || month == 6 || month == 9 || month == 11 {
            30
        } else {
            31
        },
{
}

/// The calendar has the days of a month up to the first of the next, and no others.
pub proof fn law_months_have_their_days(year: int, month: int, day: int)
    requires
        year >= 0,
        1 <= month <= 12,
    ensures
        calendar::is_day((year, month, day)) <==> 1 <= day && day_number((year, month, day))
            < day_number(
            if month < 12 {
                (year, month + 1, 1)
            } else {
                (year + 1, 1, 1)
            },
        ),
{
    lemma_leap_day(year);
    lemma_month_lengths(month);
    let next = if month < 12 {
        (year, month + 1, 1int)
    } else {
        (year + 1, 1int, 1int)
    };
    assert(day_number(next) - day_number((year, month, day)) == calendar::days_in_month(
        year,
        month,
    ) + 1 - day);
}

/// The day after a day has the next number.
pub proof fn law_days_follow_one_another(day: Day)
    requires
        day.0 >= 0,
        calendar::is_day(day),
    ensures
        calendar::is_day(calendar::next_day(day)),
        day_number(calendar::next_day(day)) == day_number(day) + 1,
{
    law_months_have_their_days(day.0, day.1, day.2);
    law_months_have_their_days(day.0, day.1, day.2 + 1);
}

proof fn lemma_days_are_counted(day: Day, days: nat)
    requires
        day.0 >= 0,
        calendar::is_day(day),
    ensures
        day_number(calendar::days_later(day, days)) == day_number(day) + days,
    decreases days,
{
    if days > 0 {
        let previous = (days - 1) as nat;
        lemma_days_are_counted(day, previous);
        calendar::lemma_days_later(day, previous);
        law_days_follow_one_another(calendar::days_later(day, previous));
    }
}

proof fn lemma_within_year(day: Day)
    requires
        day.0 >= 0,
        calendar::is_day(day),
    ensures
        day.0 * 365 + leap_days(day.0) < day_number(day) <= (day.0 + 1) * 365 + leap_days(day.0 + 1),
{
    lemma_leap_day(day.0);
    lemma_month_lengths(day.1);
    law_months_have_their_days(day.0, day.1, day.2);
    lemma_months_go_on(day.1, 12);
}

proof fn lemma_months_go_on(month: int, later: int)
    requires
        1 <= month <= later <= 12,
    ensures
        0 <= days_before_month(month) <= days_before_month(later) <= 334,
        month < 12 ==> days_before_month(month + 1) <= 334,
        month < later ==> days_before_month(month + 1) <= days_before_month(later),
{
}

/// One day is before another exactly where its number is smaller.
pub proof fn law_days_are_in_the_order_of_their_numbers(left: Day, right: Day)
    requires
        left.0 >= 0,
        right.0 >= 0,
        calendar::is_day(left),
        calendar::is_day(right),
    ensures
        calendar::day_before(left, right) <==> day_number(left) < day_number(right),
{
    if calendar::day_before(left, right) {
        lemma_earlier_is_smaller(left, right);
    } else if calendar::day_before(right, left) {
        lemma_earlier_is_smaller(right, left);
    } else {
        assert(left == right);
    }
}

proof fn lemma_earlier_is_smaller(left: Day, right: Day)
    requires
        left.0 >= 0,
        right.0 >= 0,
        calendar::is_day(left),
        calendar::is_day(right),
        calendar::day_before(left, right),
    ensures
        day_number(left) < day_number(right),
{
    if left.0 < right.0 {
        lemma_within_year(left);
        lemma_within_year(right);
        lemma_more_leap_days(left.0 + 1, right.0);
    } else if left.1 < right.1 {
        lemma_same_year(left, right);
    }
}

proof fn lemma_more_leap_days(year: int, later: int)
    requires
        0 <= year <= later,
    ensures
        leap_days(year) <= leap_days(later),
    decreases later - year,
{
    if year < later {
        lemma_more_leap_days(year, later - 1);
        lemma_leap_day(later - 1);
    }
}

proof fn lemma_same_year(left: Day, right: Day)
    requires
        left.0 >= 0,
        calendar::is_day(left),
        calendar::is_day(right),
    ensures
        left.0 == right.0 && left.1 < right.1 ==> day_number(left) < day_number(right),
{
    law_months_have_their_days(left.0, left.1, left.2);
    lemma_leap_day(left.0);
    if left.1 < right.1 {
        lemma_months_go_on(left.1, right.1);
    }
}

/// A date is four digits, a hyphen, two digits, a hyphen and two digits, that name a year from 1 on,
/// a month and a day that the calendar has.
pub proof fn law_dates_name_days(text: Text)
    ensures
        calendar::is_date(text) <==> exists|year: int, month: int, day: int|
            {
                &&& 1 <= year <= 9999
                &&& 1 <= month <= 12
                &&& 1 <= day <= 31
                &&& calendar::is_day((year, month, day))
                &&& text == #[trigger] date_text(year, month, day)
            },
        calendar::is_date(text) ==> text == date_text(
            calendar::named_day(text).0,
            calendar::named_day(text).1,
            calendar::named_day(text).2,
        ),
{
    if calendar::is_date(text) {
        calendar::lemma_named_day(text);
        let (year, month, day) = calendar::named_day(text);
        lemma_date_text(year, month, day);
        assert(calendar::is_day((year, month, day)));
    }
    if exists|year: int, month: int, day: int|
        {
            &&& 1 <= year <= 9999
            &&& 1 <= month <= 12
            &&& 1 <= day <= 31
            &&& calendar::is_day((year, month, day))
            &&& text == #[trigger] date_text(year, month, day)
        } {
        let (year, month, day) = choose|year: int, month: int, day: int|
            {
                &&& 1 <= year <= 9999
                &&& 1 <= month <= 12
                &&& 1 <= day <= 31
                &&& calendar::is_day((year, month, day))
                &&& text == #[trigger] date_text(year, month, day)
            };
        lemma_date_text(year, month, day);
        calendar::lemma_day_text((year, month, day));
    }
}

/// The character of a digit.
pub open spec fn numeral(value: int) -> char {
    seq!['0', '1', '2', '3', '4', '5', '6', '7', '8', '9'][value]
}

/// The text of a date: the year with four digits, the month and the day with two.
pub open spec fn date_text(year: int, month: int, day: int) -> Text {
    seq![
        numeral(year / 1000),
        numeral(year / 100 % 10),
        numeral(year / 10 % 10),
        numeral(year % 10),
        '-',
        numeral(month / 10),
        numeral(month % 10),
        '-',
        numeral(day / 10),
        numeral(day % 10),
    ]
}

proof fn lemma_numeral(value: int)
    requires
        0 <= value <= 9,
    ensures
        numeral(value) == text::digit(value),
        text::is_digit(numeral(value)),
        text::digit_value(numeral(value)) == value,
{
}

proof fn lemma_two_digits(value: int)
    requires
        0 <= value <= 99,
    ensures
        text::two_digits(value) == pair(value),
{
    lemma_numeral(value / 10);
    lemma_numeral(value % 10);
    assert(text::two_digits(value) =~= pair(value));
}

proof fn lemma_year_digits(year: int)
    requires
        0 <= year <= 9999,
    ensures
        year / 100 / 10 == year / 1000,
        (year % 100) / 10 == year / 10 % 10,
        (year % 100) % 10 == year % 10,
{
}

proof fn lemma_date_text(year: int, month: int, day: int)
    requires
        0 <= year <= 9999,
        0 <= month <= 99,
        0 <= day <= 99,
    ensures
        date_text(year, month, day) == calendar::day_text((year, month, day)),
{
    lemma_year_digits(year);
    lemma_two_digits(year / 100);
    lemma_two_digits(year % 100);
    lemma_two_digits(month);
    lemma_two_digits(day);
    assert(date_text(year, month, day) =~= pair(year / 100) + pair(year % 100) + seq!['-'] + pair(
        month,
    ) + seq!['-'] + pair(day));
}

/// The date so many days after another is the one with the number so much greater; there is none
/// beyond the year 9999.
pub proof fn law_later_dates_are_counted(date: Text, days: nat)
    requires
        calendar::is_date(date),
    ensures
        calendar::date_later(date, days) is Some <==> day_number(calendar::named_day(date)) + days
            <= day_number((9999, 12, 31)),
        calendar::date_later(date, days) is Some ==> {
            let later = calendar::date_later(date, days)->0;
            &&& calendar::is_date(later)
            &&& day_number(calendar::named_day(later)) == day_number(calendar::named_day(date))
                + days
        },
{
    let day = calendar::named_day(date);
    calendar::lemma_named_day(date);
    calendar::lemma_days_later(day, days);
    lemma_days_are_counted(day, days);
    let later = calendar::days_later(day, days);
    lemma_within_year(later);
    if later.0 <= 9999 {
        calendar::lemma_day_text(later);
        law_days_are_in_the_order_of_their_numbers((9999, 12, 31), later);
    } else {
        lemma_within_year((9999, 12, 31));
        lemma_more_leap_days(10000, later.0);
    }
}

/// Whether a text is a number of units and hundredths: digits, and behind a point one digit or two
/// where there is one.
pub open spec fn reads_as(text: Text, whole: Text, fraction: Text) -> bool {
    &&& whole.len() > 0
    &&& text::all_digits(whole)
    &&& fraction.len() <= 2
    &&& text::all_digits(fraction)
    &&& text == if fraction.len() == 0 {
        whole
    } else {
        whole + seq!['.'] + fraction
    }
}

/// The hundredths that units and decimals stand for.
pub open spec fn hundredths(whole: Text, fraction: Text) -> nat {
    text::decimal_value(whole) * 100 + if fraction.len() == 1 {
        text::decimal_value(fraction) * 10
    } else {
        text::decimal_value(fraction)
    }
}

/// An amount is digits and at most two decimals behind a point, and stands for that many units and
/// hundredths; it is read where it is not beyond what can be kept.
pub proof fn law_amounts_are_read(text: Text, whole: Text, fraction: Text)
    requires
        reads_as(text, whole, fraction),
    ensures
        money::parsed_amount(text) is Ok <==> hundredths(whole, fraction) <= i64::MAX,
        money::parsed_amount(text) is Ok ==> money::parsed_amount(text)->Ok_0.0 == hundredths(
            whole,
            fraction,
        ),
{
    let length = text.len() as int;
    reveal_with_fuel(text::decimal_value, 3);
    if fraction.len() == 1 {
        assert(text[length - 2] == '.');
        assert(!text::is_digit(text[length - 2]));
        assert(text[length - 1] == fraction[0]);
        assert(text::is_digit(fraction[0]));
        assert(text.take(length - 2) =~= whole);
        assert(fraction.drop_last() =~= Seq::<char>::empty());
    } else if fraction.len() == 2 {
        assert(text[length - 3] == '.');
        assert(!text::is_digit(text[length - 3]));
        assert(text[length - 2] == fraction[0]);
        assert(text[length - 1] == fraction[1]);
        assert(text::is_digit(fraction[0]) && text::is_digit(fraction[1]));
        assert(text.take(length - 3) =~= whole);
        assert(fraction.drop_last().drop_last() =~= Seq::<char>::empty());
        assert(fraction.drop_last().last() == fraction[0]);
    }
}

/// Whatever is read as an amount has that shape.
pub proof fn law_only_amounts_are_read(text: Text) -> (parts: (Text, Text))
    requires
        money::parsed_amount(text) is Ok,
    ensures
        reads_as(text, parts.0, parts.1),
{
    let length = text.len() as int;
    if text::all_digits(text) {
        (text, Seq::empty())
    } else if text[length - 2] == '.' {
        let parts = (text.take(length - 2), text.skip(length - 1));
        assert(text =~= parts.0 + seq!['.'] + parts.1);
        assert(parts.1[0] == text[length - 1]);
        parts
    } else {
        let parts = (text.take(length - 3), text.skip(length - 2));
        assert(text =~= parts.0 + seq!['.'] + parts.1);
        assert(parts.1[0] == text[length - 2] && parts.1[1] == text[length - 1]);
        parts
    }
}

/// The text of an amount has its units without a zero in front, a point and two digits of
/// hundredths, and that of a negative amount is the same behind a minus sign.
pub proof fn law_amounts_are_shown(value: int)
    requires
        value >= 0,
    ensures
        ({
            let shown = money::minor_text(value);
            let end = shown.len() as int;
            &&& end >= 4
            &&& reads_as(shown, shown.take(end - 3), shown.skip(end - 2))
            &&& hundredths(shown.take(end - 3), shown.skip(end - 2)) == value
            &&& shown[0] == '0' ==> end == 4
            &&& value > 0 ==> money::minor_text(-value) == seq!['-'] + shown
        }),
{
    let shown = money::minor_text(value);
    let end = shown.len() as int;
    let units = (value / 100) as nat;
    let rest = value % 100;
    let whole = text::decimal(units);
    let fraction = text::two_digits(rest);
    text::lemma_decimal(units);
    lemma_no_zero_in_front(units);
    assert(shown =~= whole + seq!['.'] + fraction);
    assert(shown.take(end - 3) =~= whole);
    assert(shown.skip(end - 2) =~= fraction);
    assert(shown[0] == whole[0]);
    lemma_numeral(rest / 10);
    lemma_numeral(rest % 10);
    reveal_with_fuel(text::decimal_value, 3);
    assert(fraction.drop_last().drop_last() =~= Seq::<char>::empty());
    assert(fraction.drop_last().last() == fraction[0]);
    assert(money::minor_text(-value) =~= if value > 0 {
        seq!['-'] + shown
    } else {
        shown
    });
}

pub(crate) proof fn lemma_no_zero_in_front(value: nat)
    ensures
        text::decimal(value).len() > 0,
        text::decimal(value)[0] == '0' ==> text::decimal(value).len() == 1,
        value > 0 ==> text::decimal(value)[0] != '0',
    decreases value,
{
    if value >= 10 {
        lemma_no_zero_in_front(value / 10);
        assert(text::decimal(value)[0] == text::decimal(value / 10)[0]);
    } else {
        lemma_numeral(value as int);
    }
}

/// An amount of a foreign currency is kept in hundredths: digits alone in a currency without a
/// smaller unit, and an amount as any other in the rest. Zero is refused, and so is every other
/// currency.
pub proof fn law_foreign_amounts_are_kept(currency: Text, amount: Text, whole: Text, fraction: Text)
    requires
        reads_as(amount, whole, fraction),
    ensures
        ({
            let value = hundredths(whole, fraction);
            let kept = foreign::stored_amount(currency, amount);
            &&& kept is Ok <==> {
                &&& foreign::currency_places(currency) is Some
                &&& foreign::currency_places(currency) == Some(0u32) ==> fraction.len() == 0
                &&& 0 < value <= i64::MAX
            }
            &&& kept is Ok ==> kept->Ok_0 == value
        }),
{
    law_amounts_are_read(amount, whole, fraction);
    if fraction.len() > 0 {
        assert(amount[whole.len() as int] == '.');
        assert(!text::is_digit(amount[whole.len() as int]));
    }
}

/// Whatever is kept as an amount of a foreign currency has that shape.
pub proof fn law_only_foreign_amounts_are_kept(currency: Text, amount: Text) -> (parts: (
    Text,
    Text,
))
    requires
        foreign::stored_amount(currency, amount) is Ok,
    ensures
        reads_as(amount, parts.0, parts.1),
{
    if foreign::currency_places(currency) == Some(2u32) {
        law_only_amounts_are_read(amount)
    } else {
        (amount, Seq::empty())
    }
}

/// Two digits.
pub open spec fn pair(value: int) -> Text {
    seq![numeral(value / 10), numeral(value % 10)]
}

/// Whether a text is what may stand behind the minutes: nothing, the seconds, or the seconds with
/// one to nine decimals.
pub open spec fn is_fine(fine: Text) -> bool {
    ||| fine.len() == 0
    ||| exists|second: int, decimals: Text|
        0 <= second <= 59 && decimals.len() <= 9 && text::all_digits(decimals)
            && #[trigger] fine_text(second, decimals) == fine
}

/// The seconds of a time, with their decimals.
pub open spec fn fine_text(second: int, decimals: Text) -> Text {
    seq![':'] + pair(second) + if decimals.len() == 0 {
        Seq::empty()
    } else {
        seq!['.'] + decimals
    }
}

/// Whether a text is an offset: `Z`, or a sign with hours and minutes. The unknown offset, zero with
/// a minus sign, is none.
pub open spec fn is_offset(offset: Text) -> bool {
    ||| offset == seq!['Z']
    ||| exists|hour: int, minute: int|
        0 <= hour <= 23 && 0 <= minute <= 59 && offset == seq!['+'] + #[trigger] clock(hour, minute)
    ||| exists|hour: int, minute: int|
        0 <= hour <= 23 && 0 <= minute <= 59 && (hour > 0 || minute > 0) && offset == seq!['-']
            + #[trigger] clock(hour, minute)
}

/// Hours and minutes.
pub open spec fn clock(hour: int, minute: int) -> Text {
    pair(hour) + seq![':'] + pair(minute)
}

/// The text of a time: a date, the hour and the minute, what is finer, and the offset.
pub open spec fn time_text(date: Text, hour: int, minute: int, fine: Text, offset: Text) -> Text {
    date + seq!['T'] + clock(hour, minute) + fine + offset
}

proof fn lemma_pair(text: Text, at: int, value: int)
    requires
        0 <= at,
        at + 2 <= text.len(),
        0 <= value <= 99,
        text.subrange(at, at + 2) == pair(value),
    ensures
        text[at] == numeral(value / 10),
        text[at + 1] == numeral(value % 10),
        forall|limit: int| #[trigger]
            occurrence::holds_number(text, at, limit) <==> value <= limit,
        (text[at] as int) < 128,
        (text[at + 1] as int) < 128,
{
    assert(text[at] == text.subrange(at, at + 2)[0]);
    assert(text[at + 1] == text.subrange(at, at + 2)[1]);
    lemma_numeral(value / 10);
    lemma_numeral(value % 10);
}

/// A time with a date of the calendar, an hour, a minute, seconds where they are given, and an
/// offset is accepted.
pub proof fn law_times_are_accepted(date: Text, hour: int, minute: int, fine: Text, offset: Text)
    requires
        calendar::is_date(date),
        0 <= hour <= 23,
        0 <= minute <= 59,
        is_fine(fine),
        is_offset(offset),
    ensures
        occurrence::normalized(time_text(date, hour, minute, fine, offset)) is Ok,
{
    let text = time_text(date, hour, minute, fine, offset);
    lemma_offset(offset);
    let local = date + seq!['T'] + clock(hour, minute) + fine;
    assert(text =~= local + offset);
    assert(text.last() == offset.last());
    lemma_fine(fine);
    if offset == seq!['Z'] {
        assert(offset.last() == 'Z');
    } else {
        assert(text.skip(text.len() - 6) =~= offset);
    }
    assert(occurrence::offset_part(text) == offset);
    assert(occurrence::local_part(text) =~= local);
    assert(local.subrange(11, 13) =~= pair(hour));
    assert(local.subrange(14, 16) =~= pair(minute));
    lemma_pair(local, 11, hour);
    lemma_pair(local, 14, minute);
    assert(local[10] == 'T' && local[13] == ':');
    assert(text.take(10) =~= date);
    assert forall|i: int| 0 <= i < text.len() implies (#[trigger] text[i] as int) < 128 by {
        if i < 10 {
            assert(text[i] == date[i]);
            if i == 4 || i == 7 {
                assert(date[i] == '-');
            } else {
                assert(text::is_digit(date[i]));
            }
        } else if i < 16 {
            assert(text[i] == local[i]);
        } else if i < 16 + fine.len() {
            assert(text[i] == fine[i - 16]);
        } else {
            assert(text[i] == offset[i - 16 - fine.len()]);
        }
    }
    if fine.len() > 0 {
        let (second, decimals) = choose|second: int, decimals: Text|
            0 <= second <= 59 && decimals.len() <= 9 && text::all_digits(decimals)
                && #[trigger] fine_text(second, decimals) == fine;
        assert(local.subrange(17, 19) =~= pair(second));
        lemma_pair(local, 17, second);
        assert(local[16] == ':');
        if decimals.len() > 0 {
            assert(local[19] == '.');
            assert(local.skip(20) =~= decimals);
        }
    }
}

proof fn lemma_offset(offset: Text)
    requires
        is_offset(offset),
    ensures
        occurrence::is_offset(offset),
        offset.len() == 1 || offset.len() == 6,
        offset.len() == 1 ==> offset == seq!['Z'],
        offset.len() == 6 ==> offset.last() != 'Z',
        forall|i: int| 0 <= i < offset.len() ==> (#[trigger] offset[i] as int) < 128,
{
    if offset != seq!['Z'] {
        let (hour, minute) = if exists|hour: int, minute: int|
            0 <= hour <= 23 && 0 <= minute <= 59 && offset == seq!['+'] + #[trigger] clock(
                hour,
                minute,
            ) {
            choose|hour: int, minute: int|
                0 <= hour <= 23 && 0 <= minute <= 59 && offset == seq!['+'] + #[trigger] clock(
                    hour,
                    minute,
                )
        } else {
            choose|hour: int, minute: int|
                0 <= hour <= 23 && 0 <= minute <= 59 && (hour > 0 || minute > 0) && offset
                    == seq!['-'] + #[trigger] clock(hour, minute)
        };
        assert(offset.subrange(1, 3) =~= pair(hour));
        assert(offset.subrange(4, 6) =~= pair(minute));
        lemma_pair(offset, 1, hour);
        lemma_pair(offset, 4, minute);
        lemma_numeral(hour / 10);
        lemma_numeral(hour % 10);
        lemma_numeral(minute / 10);
        lemma_numeral(minute % 10);
        let zero = seq!['-', '0', '0', ':', '0', '0'];
        assert(zero[0] == '-' && zero[1] == '0' && zero[2] == '0' && zero[4] == '0' && zero[5]
            == '0');
    }
}

proof fn lemma_fine(fine: Text)
    requires
        is_fine(fine),
    ensures
        fine.len() <= 13,
        forall|i: int| 0 <= i < fine.len() ==> (#[trigger] fine[i] as int) < 128,
{
    if fine.len() > 0 {
        let (second, decimals) = choose|second: int, decimals: Text|
            0 <= second <= 59 && decimals.len() <= 9 && text::all_digits(decimals)
                && #[trigger] fine_text(second, decimals) == fine;
        assert(fine.subrange(1, 3) =~= pair(second));
        lemma_pair(fine, 1, second);
        assert forall|i: int| 0 <= i < fine.len() implies (#[trigger] fine[i] as int) < 128 by {
            if i >= 4 {
                assert(fine[i] == decimals[i - 4]);
                assert(text::is_digit(decimals[i - 4]));
            }
        }
    }
}

proof fn lemma_digit_is_numeral(character: char)
    requires
        text::is_digit(character),
    ensures
        0 <= text::digit_value(character) <= 9,
        numeral(text::digit_value(character)) == character,
{
    let value = text::digit_value(character);
    lemma_numeral(value);
}

/// The number that two digits at a place stand for, written again as two digits.
proof fn lemma_pair_at(text: Text, at: int, limit: int) -> (value: int)
    requires
        0 <= at,
        at + 2 <= text.len(),
        occurrence::holds_number(text, at, limit),
    ensures
        0 <= value <= limit,
        value <= 99,
        text.subrange(at, at + 2) == pair(value),
        value == 0 <==> text[at] == '0' && text[at + 1] == '0',
{
    let value = text::digit_value(text[at]) * 10 + text::digit_value(text[at + 1]);
    lemma_digit_is_numeral(text[at]);
    lemma_digit_is_numeral(text[at + 1]);
    assert(value / 10 == text::digit_value(text[at]));
    assert(value % 10 == text::digit_value(text[at + 1]));
    assert(text.subrange(at, at + 2) =~= pair(value));
    value
}

/// Whatever is accepted as a time is a date of the calendar, an hour, a minute, seconds where they
/// are given, and an offset.
pub proof fn law_only_times_are_accepted(text: Text) -> (parts: (Text, int, int, Text, Text))
    requires
        occurrence::normalized(text) is Ok,
    ensures
        calendar::is_date(parts.0),
        0 <= parts.1 <= 23,
        0 <= parts.2 <= 59,
        is_fine(parts.3),
        is_offset(parts.4),
        text == time_text(parts.0, parts.1, parts.2, parts.3, parts.4),
{
    let local = occurrence::local_part(text);
    let offset = occurrence::offset_part(text);
    assert(text =~= local + offset);
    let date = text.take(10);
    let hour = lemma_pair_at(local, 11, 23);
    let minute = lemma_pair_at(local, 14, 59);
    let fine = local.skip(16);
    assert(local.take(10) =~= date);
    assert(clock(hour, minute) =~= local.subrange(11, 16)) by {
        assert(local.subrange(11, 16) =~= local.subrange(11, 13) + seq![local[13]]
            + local.subrange(14, 16));
    }
    assert(local =~= date + seq!['T'] + clock(hour, minute) + fine) by {
        assert(local =~= local.take(10) + seq![local[10]] + local.subrange(11, 16) + local.skip(
            16,
        ));
    }
    assert(is_fine(fine)) by {
        if fine.len() > 0 {
            let second = lemma_pair_at(local, 17, 59);
            let decimals = if local.len() == 19 {
                Seq::empty()
            } else {
                local.skip(20)
            };
            assert(fine.subrange(1, 3) =~= local.subrange(17, 19));
            assert(fine =~= fine_text(second, decimals)) by {
                assert(fine[0] == local[16]);
                assert(fine.subrange(1, 3)[0] == fine[1] && fine.subrange(1, 3)[1] == fine[2]);
                if local.len() > 19 {
                    assert(fine[3] == local[19]);
                    assert forall|i: int| 4 <= i < fine.len() implies fine[i] == decimals[i - 4] by {}
                }
            }
            assert(fine_text(second, decimals) == fine);
        }
    }
    assert(is_offset(offset)) by {
        if offset != seq!['Z'] {
            let hours = lemma_pair_at(offset, 1, 23);
            let minutes = lemma_pair_at(offset, 4, 59);
            assert(offset =~= seq![offset[0]] + clock(hours, minutes)) by {
                assert(offset =~= seq![offset[0]] + offset.subrange(1, 3) + seq![offset[3]]
                    + offset.subrange(4, 6));
            }
            if offset[0] == '-' && hours == 0 && minutes == 0 {
                assert(offset =~= seq!['-', '0', '0', ':', '0', '0']);
            }
        }
    }
    (date, hour, minute, fine, offset)
}

/// Digits stand for a number as they are read: each one more counts ten times what was there, and
/// itself.
pub proof fn law_digits_are_decimal(text: Text, value: int)
    requires
        0 <= value <= 9,
    ensures
        text::decimal_value(Seq::empty()) == 0,
        text::decimal_value(text.push(numeral(value))) == text::decimal_value(text) * 10 + value,
        text::is_digit(numeral(value)),
{
    lemma_numeral(value);
    assert(text.push(numeral(value)).drop_last() =~= text);
}

/// The digits are `0` to `9` and nothing else.
pub proof fn law_digits(character: char)
    ensures
        text::is_digit(character) <==> exists|value: int|
            0 <= value <= 9 && #[trigger] numeral(value) == character,
{
    if text::is_digit(character) {
        lemma_digit_is_numeral(character);
    }
    assert forall|value: int| 0 <= value <= 9 && #[trigger] numeral(
        value,
    ) == character implies text::is_digit(character) by {
        lemma_numeral(value);
    }
}

/// White space is what Unicode calls so.
pub proof fn law_white_space(character: char)
    ensures
        text::is_white_space(character) <==> {
            ||| character == ' ' || character == '\t' || character == '\n' || character == '\r'
            ||| character == '\u{b}' || character == '\u{c}' || character == '\u{85}'
            ||| character == '\u{a0}' || character == '\u{1680}'
            ||| '\u{2000}' <= character <= '\u{200a}'
            ||| character == '\u{2028}' || character == '\u{2029}' || character == '\u{202f}'
            ||| character == '\u{205f}' || character == '\u{3000}'
        },
{
}

/// One text sorts before another exactly where they are the same up to a place at which the first
/// ends, or has the smaller character.
pub proof fn law_texts_are_sorted_by_character(left: Text, right: Text)
    ensures
        text::before(left, right) <==> exists|place: int|
            {
                &&& 0 <= place <= left.len()
                &&& place < right.len()
                &&& #[trigger] left.take(place) == right.take(place)
                &&& place == left.len() || left[place] < right[place]
            },
    decreases left.len(),
{
    if left.len() > 0 && right.len() > 0 && left[0] == right[0] {
        let front = left.drop_first();
        let other = right.drop_first();
        law_texts_are_sorted_by_character(front, other);
        if text::before(front, other) {
            let place = choose|place: int|
                {
                    &&& 0 <= place <= front.len()
                    &&& place < other.len()
                    &&& #[trigger] front.take(place) == other.take(place)
                    &&& place == front.len() || front[place] < other[place]
                };
            assert forall|i: int| 0 <= i < place + 1 implies left[i] == right[i] by {
                if i > 0 {
                    assert(front.take(place)[i - 1] == other.take(place)[i - 1]);
                }
            }
            assert(left.take(place + 1) =~= right.take(place + 1));
        }
        if exists|place: int|
            {
                &&& 0 <= place <= left.len()
                &&& place < right.len()
                &&& #[trigger] left.take(place) == right.take(place)
                &&& place == left.len() || left[place] < right[place]
            } {
            let place = choose|place: int|
                {
                    &&& 0 <= place <= left.len()
                    &&& place < right.len()
                    &&& #[trigger] left.take(place) == right.take(place)
                    &&& place == left.len() || left[place] < right[place]
                };
            assert(place > 0);
            assert forall|i: int| 0 <= i < place - 1 implies front[i] == other[i] by {
                assert(left.take(place)[i + 1] == right.take(place)[i + 1]);
            }
            assert(front.take(place - 1) =~= other.take(place - 1));
        }
    } else {
        assert(left.take(0) =~= right.take(0));
        if exists|place: int|
            {
                &&& 0 <= place <= left.len()
                &&& place < right.len()
                &&& #[trigger] left.take(place) == right.take(place)
                &&& place == left.len() || left[place] < right[place]
            } {
            let place = choose|place: int|
                {
                    &&& 0 <= place <= left.len()
                    &&& place < right.len()
                    &&& #[trigger] left.take(place) == right.take(place)
                    &&& place == left.len() || left[place] < right[place]
                };
            if place > 0 {
                assert(left.take(place)[0] == right.take(place)[0]);
            }
        }
    }
}

} // verus!
