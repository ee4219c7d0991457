//! What a change of the ledger takes from the machine: a text of its own and the time.
use chrono::{SecondsFormat, Utc};
use uuid::Uuid;
use vstd::prelude::*;

use crate::ledger::Stamp;
use crate::text;
use crate::text::Text;

verus! {

/// Thirty-two hexadecimal digits, in lower case.
pub open spec fn is_unique_text(text: Text) -> bool {
    &&& text.len() == 32
    &&& forall|i: int|
        0 <= i < 32 ==> '0' <= #[trigger] text[i] <= '9' || 'a' <= text[i] <= 'f'
}

/// A time of the machine in UTC: the year, `-MM-DDTHH:MM:SS.`, six digits of the second and `Z`.
/// The year has four digits, and a sign and more of them beyond the year 9999.
pub open spec fn is_instant(text: Text) -> bool {
    let end = text.len() as int;
    &&& end >= 27
    &&& text[end - 23] == '-'
    &&& text[end - 20] == '-'
    &&& text[end - 17] == 'T'
    &&& text[end - 14] == ':'
    &&& text[end - 11] == ':'
    &&& text[end - 8] == '.'
    &&& text[end - 1] == 'Z'
    &&& text::all_digits(text.subrange(end - 22, end - 20))
    &&& text::all_digits(text.subrange(end - 19, end - 17))
    &&& text::all_digits(text.subrange(end - 16, end - 14))
    &&& text::all_digits(text.subrange(end - 13, end - 11))
    &&& text::all_digits(text.subrange(end - 10, end - 8))
    &&& text::all_digits(text.subrange(end - 7, end - 1))
    &&& end == 27 ==> text::all_digits(text.take(4))
}

/// What holds of the stamp of every change.
pub open spec fn is_stamp(stamp: Stamp<Text>) -> bool {
    is_unique_text(stamp.unique) && is_instant(stamp.now)
}

/// `uuid::Uuid::new_v4` draws a random UUID, and its simple form consists of thirty-two lower-case
/// hexadecimal digits without hyphens. Which digits they are is chance.
#[verifier::external_body]
fn unique_text() -> (digits: String)
    ensures
        is_unique_text(digits@),
{
    Uuid::new_v4().simple().to_string()
}

/// `chrono::Utc::now` is the time of the machine, and `chrono::DateTime::to_rfc3339_opts` writes
/// it with two digits for each part behind the year, six for the fraction of the second and a `Z`
/// for the offset. Which time it is depends on the machine.
#[verifier::external_body]
fn now() -> (instant: String)
    ensures
        is_instant(instant@),
{
    Utc::now().to_rfc3339_opts(SecondsFormat::Micros, true)
}

/// A stamp for one change.
pub fn stamp() -> (stamp: Stamp)
    ensures
        is_stamp(stamp.deep_view()),
{
    Stamp { unique: unique_text(), now: now() }
}

} // verus!
