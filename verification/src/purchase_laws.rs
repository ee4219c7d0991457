//! What the commands on foreign purchases are for: what a record holds, what confirming, putting
//! off and cancelling change and leave alone, and that no purchase is missing from a list.
use vstd::prelude::*;

use crate::calendar;
use crate::command;
use crate::command::{Command, FilterArgs, PendingCommand, PendingListArgs};
use crate::entry_laws;
use crate::error::{ErrorView, Result};
use crate::foreign;
use crate::ledger;
use crate::ledger::{Ledger, Operation, Stamp};
use crate::list_laws;
use crate::models::{
    AuditEntry, ConfirmPendingExpense, Filters, Kind, NewPendingExpense, PendingAuditEntry,
    PendingAuditRecord, PendingCurrencySummary, PendingExpenseRecord, PendingExpenseRow,
    PendingFilters, PendingListResult, PendingStatus, TransactionRow,
};
use crate::money;
use crate::money::Money;
use crate::order;
use crate::order::Order;
use crate::pending;
use crate::pending_query;
use crate::pending_query::ByDate;
use crate::query;
use crate::report::Output;
use crate::summary;
use crate::text;
use crate::text::Text;
use crate::value_laws;

verus! {

/// The currencies that have no smaller unit.
pub open spec fn is_whole(currency: Text) -> bool {
    currency == "JPY"@ || currency == "KRW"@
}

/// The currencies that a foreign purchase can be in.
pub open spec fn is_foreign(currency: Text) -> bool {
    ||| is_whole(currency)
    ||| currency == "USD"@
    ||| currency == "EUR"@
    ||| currency == "GBP"@
    ||| currency == "HKD"@
    ||| currency == "SGD"@
    ||| currency == "AUD"@
    ||| currency == "CAD"@
    ||| currency == "CHF"@
    ||| currency == "NZD"@
    ||| currency == "TWD"@
}

/// What hundredths of a currency are shown as: with two decimals, or none where the currency has no
/// smaller unit.
pub open spec fn amount_text(currency: Text, hundredths: int) -> Text {
    if is_whole(currency) {
        text::signed_decimal(hundredths / 100)
    } else {
        money::minor_text(hundredths)
    }
}

/// Whether a row of the table holds what a reported purchase says.
pub open spec fn holds(row: PendingExpenseRow<Text>, record: PendingExpenseRecord<Text>) -> bool {
    &&& row.id == record.id
    &&& row.currency == record.currency
    &&& record.amount == amount_text(row.currency, row.amount_minor as int)
    &&& row.date == record.date
    &&& row.occurred_at == record.occurred_at
    &&& row.category == record.category
    &&& row.merchant == record.merchant
    &&& row.note == record.note
    &&& row.channel == record.channel
    &&& row.status == record.status
    &&& row.remind_on == record.remind_on
    &&& row.transaction_id == record.transaction_id
    &&& row.confirmed_at == record.confirmed_at
    &&& row.posted_date == record.posted_date
    &&& row.created_at == record.created_at
    &&& row.updated_at == record.updated_at
}

/// A supported currency has two decimals or none, and CNY is not one of them.
pub proof fn law_currencies(currency: Text)
    ensures
        foreign::currency_places(currency) is Some <==> is_foreign(currency),
        foreign::currency_places(currency) == Some(0u32) <==> is_whole(currency),
        foreign::currency_places(currency) == Some(2u32) <==> is_foreign(currency) && !is_whole(
            currency,
        ),
        !is_foreign("CNY"@),
{
    reveal_strlit("CNY");
    reveal_strlit("JPY");
    reveal_strlit("KRW");
    reveal_strlit("USD");
    reveal_strlit("EUR");
    reveal_strlit("GBP");
    reveal_strlit("HKD");
    reveal_strlit("SGD");
    reveal_strlit("AUD");
    reveal_strlit("CAD");
    reveal_strlit("CHF");
    reveal_strlit("NZD");
    reveal_strlit("TWD");
    assert("CNY"@[1] == 'N' && "CNY"@[0] == 'C');
    assert("JPY"@[0] == 'J' && "KRW"@[0] == 'K' && "USD"@[0] == 'U' && "EUR"@[0] == 'E');
    assert("GBP"@[0] == 'G' && "HKD"@[0] == 'H' && "SGD"@[0] == 'S' && "AUD"@[0] == 'A');
    assert("CAD"@[1] == 'A' && "CHF"@[1] == 'H' && "NZD"@[0] == 'N' && "TWD"@[0] == 'T');
}

/// Every purchase of a sound ledger can be reported, and the report says what the row holds.
pub proof fn law_purchases_are_reported(ledger: Ledger, i: int)
    requires
        ledger::sound(ledger),
        0 <= i < ledger.pending_expenses.len(),
    ensures
        ledger::pending_record(ledger.pending_expenses[i]) is Ok,
        holds(
            ledger.pending_expenses[i],
            ledger::pending_record(ledger.pending_expenses[i])->Ok_0,
        ),
{
    assert(ledger::pending_is_sound(ledger, ledger.pending_expenses[i]));
    law_currencies(ledger.pending_expenses[i].currency);
}

/// Whether a purchase is of a status that a list asks for: of those that await confirmation where
/// none is given.
pub open spec fn is_of_status(asked: Option<Text>, status: PendingStatus) -> bool {
    match asked {
        None => status == PendingStatus::Pending,
        Some(name) => {
            ||| name == "all"@
            ||| name == "pending"@ && status == PendingStatus::Pending
            ||| name == "confirmed"@ && status == PendingStatus::Confirmed
            ||| name == "cancelled"@ && status == PendingStatus::Cancelled
        },
    }
}

/// Whether a status is one that a list can ask for.
pub open spec fn is_status(asked: Option<Text>) -> bool {
    match asked {
        None => true,
        Some(name) => name == "all"@ || name == "pending"@ || name == "confirmed"@ || name
            == "cancelled"@,
    }
}

/// Whether a purchase holds a search text: in its id, its note, its channel or its merchant.
pub open spec fn is_found_by(row: PendingExpenseRow<Text>, search: Text) -> bool {
    ||| list_laws::has_part(row.id, search)
    ||| row.note is Some && list_laws::has_part(row.note->0, search)
    ||| row.channel is Some && list_laws::has_part(row.channel->0, search)
    ||| row.merchant is Some && list_laws::has_part(row.merchant->0, search)
}

/// Whether a purchase lies in the period, is of the category and holds the search text that are
/// given.
pub open spec fn fits_filters(filters: Filters<Text>, row: PendingExpenseRow<Text>) -> bool {
    &&& list_laws::lies_in(filters.month, filters.from, filters.to, row.date)
    &&& filters.kind is Some ==> filters.kind->0 == Kind::Expense
    &&& filters.category is Some ==> row.category == filters.category->0
    &&& filters.keyword is Some ==> is_found_by(row, filters.keyword->0)
}

/// Whether a purchase is due on a day: it awaits confirmation, and the day to be reminded of it
/// has come.
pub open spec fn is_due(row: PendingExpenseRow<Text>, day: Text) -> bool {
    row.status == PendingStatus::Pending && !list_laws::is_earlier(day, row.remind_on)
}

/// Whether a purchase is one that a list is about.
pub open spec fn fits(filters: PendingFilters<Text>, row: PendingExpenseRow<Text>) -> bool {
    &&& fits_filters(filters.filters, row)
    &&& is_of_status(filters.status, row.status)
    &&& filters.currency is Some ==> row.currency == filters.currency->0
    &&& filters.due_only ==> is_due(row, filters.as_of)
}

/// The purchases that a list is about.
pub open spec fn fitting(filters: PendingFilters<Text>) -> spec_fn(PendingExpenseRow<Text>) -> bool {
    |row: PendingExpenseRow<Text>| fits(filters, row)
}

proof fn lemma_status(asked: Option<Text>, status: PendingStatus)
    ensures
        pending_query::wanted_status(asked) is Ok <==> is_status(asked),
        pending_query::wanted_status(asked) is Ok ==> (is_of_status(asked, status) <==> (
        pending_query::wanted_status(asked)->Ok_0 is Some ==> pending_query::wanted_status(
            asked,
        )->Ok_0->0 == status)),
{
    reveal_strlit("all");
    reveal_strlit("pending");
    reveal_strlit("confirmed");
    reveal_strlit("cancelled");
    assert("all"@.len() == 3 && "pending"@.len() == 7);
    assert("confirmed"@[1] == 'o' && "cancelled"@[1] == 'a');
}

proof fn lemma_fits_filters(
    ledger: Ledger,
    filters: Filters<Text>,
    status: Option<PendingStatus>,
    i: int,
)
    requires
        ledger::sound(ledger),
        query::checked_filters(filters) is Ok,
        0 <= i < ledger.pending_expenses.len(),
    ensures
        pending_query::is_selected(filters, status, ledger.pending_expenses[i]) <==> (fits_filters(
            filters,
            ledger.pending_expenses[i],
        ) && (status is Some ==> ledger.pending_expenses[i].status == status->0)),
{
    let row = ledger.pending_expenses[i];
    assert(ledger::pending_is_sound(ledger, row));
    list_laws::lemma_period(filters, row.date);
    if let Some(search) = filters.keyword {
        list_laws::lemma_mentions(row.note, search);
        list_laws::lemma_mentions(row.channel, search);
        list_laws::lemma_mentions(row.merchant, search);
        list_laws::law_search_is_literal(row.id, search);
        if search.len() == 0 {
            assert(row.id.subrange(0, 0 + search.len() as int) =~= search);
        }
    }
}

proof fn lemma_fits(ledger: Ledger, filters: PendingFilters<Text>, i: int)
    requires
        ledger::sound(ledger),
        pending_query::checked_list(filters) is Ok,
        0 <= i < ledger.pending_expenses.len(),
    ensures
        pending_query::is_listed(
            filters,
            pending_query::checked_list(filters)->Ok_0.0,
            ledger.pending_expenses[i],
        ) <==> fits(filters, ledger.pending_expenses[i]),
{
    let row = ledger.pending_expenses[i];
    assert(ledger::pending_is_sound(ledger, row));
    let status = pending_query::checked_list(filters)->Ok_0.0;
    lemma_fits_filters(ledger, filters.filters, status, i);
    lemma_status(filters.status, row.status);
    list_laws::law_dates_are_compared_as_days(filters.as_of, row.remind_on);
}

proof fn lemma_same_choice(
    rows: Seq<PendingExpenseRow<Text>>,
    left: spec_fn(PendingExpenseRow<Text>) -> bool,
    right: spec_fn(PendingExpenseRow<Text>) -> bool,
)
    requires
        forall|i: int| 0 <= i < rows.len() ==> left(#[trigger] rows[i]) == right(rows[i]),
    ensures
        rows.filter(left) == rows.filter(right),
    decreases rows.len(),
{
    reveal(Seq::filter);
    if rows.len() > 0 {
        let front = rows.drop_last();
        assert forall|i: int| 0 <= i < front.len() implies left(#[trigger] front[i]) == right(
            front[i],
        ) by {
            assert(front[i] == rows[i]);
        }
        lemma_same_choice(front, left, right);
        assert(rows.last() == rows[rows.len() - 1]);
    } else {
        assert(rows.filter(left) =~= rows);
        assert(rows.filter(right) =~= rows);
    }
}

proof fn lemma_same_fitting(ledger: Ledger, filters: PendingFilters<Text>)
    requires
        ledger::sound(ledger),
        pending_query::checked_list(filters) is Ok,
    ensures
        ledger.pending_expenses.filter(
            pending_query::lists(filters, pending_query::checked_list(filters)->Ok_0.0),
        ) == ledger.pending_expenses.filter(fitting(filters)),
{
    let left = pending_query::lists(filters, pending_query::checked_list(filters)->Ok_0.0);
    let right = fitting(filters);
    assert forall|i: int| 0 <= i < ledger.pending_expenses.len() implies left(
        #[trigger] ledger.pending_expenses[i],
    ) == right(ledger.pending_expenses[i]) by {
        lemma_fits(ledger, filters, i);
    }
    lemma_same_choice(ledger.pending_expenses, left, right);
}

/// A list of purchases is answered exactly where the period, the day, the currency, the status and
/// the page that it asks for are valid.
pub proof fn law_purchase_lists_are_answered(ledger: Ledger, filters: PendingFilters<Text>)
    requires
        ledger::sound(ledger),
        ledger.pending_expenses.len() <= i64::MAX,
    ensures
        pending_query::pending_listed(ledger, filters) is Ok <==> {
            &&& list_laws::period_is_valid(
                filters.filters.month,
                filters.filters.from,
                filters.filters.to,
            )
            &&& calendar::is_date(filters.as_of)
            &&& filters.currency is Some ==> is_foreign(filters.currency->0)
            &&& is_status(filters.status)
            &&& 0 <= filters.filters.limit <= 1000
            &&& filters.filters.offset >= 0
        },
        pending_query::pending_listed(ledger, filters) is Err ==> pending_query::pending_listed(
            ledger,
            filters,
        )->Err_0.code == "INVALID_INPUT"@,
{
    broadcast use vstd::seq_lib::group_to_multiset_ensures;

    list_laws::lemma_valid_period(filters.filters);
    if let Some(currency) = filters.currency {
        law_currencies(currency);
    }
    lemma_status(filters.status, PendingStatus::Pending);
    if pending_query::checked_list(filters) is Ok {
        let (status, limit) = pending_query::checked_list(filters)->Ok_0;
        let rows = ledger.pending_expenses;
        let pick = pending_query::lists(filters, status);
        let chosen = rows.filter(pick);
        rows.lemma_filter_len(pick);
        let found = order::sorted::<PendingExpenseRow, ByDate>(chosen);
        order::law_sorting_orders_all_records::<PendingExpenseRow, ByDate>(chosen);
        let shown = order::page(found, filters.filters.offset as int, limit as int);
        assert forall|k: int| 0 <= k < shown.len() implies ledger::pending_record(
            #[trigger] shown[k],
        ) is Ok by {
            let i = lemma_shown(rows, pick, shown, k, filters.filters.offset as int, limit as int);
            law_purchases_are_reported(ledger, i);
        }
        lemma_all_reported(shown);
    }
}

proof fn lemma_all_reported(rows: Seq<PendingExpenseRow<Text>>)
    requires
        forall|k: int| 0 <= k < rows.len() ==> ledger::pending_record(#[trigger] rows[k]) is Ok,
    ensures
        pending_query::pending_records(rows) is Ok,
    decreases rows.len(),
{
    if rows.len() > 0 {
        let front = rows.drop_last();
        assert forall|k: int| 0 <= k < front.len() implies ledger::pending_record(
            #[trigger] front[k],
        ) is Ok by {
            assert(front[k] == rows[k]);
        }
        lemma_all_reported(front);
        assert(rows.last() == rows[rows.len() - 1]);
    }
}

/// What a page shows is a row of the table that was chosen.
proof fn lemma_shown(
    rows: Seq<PendingExpenseRow<Text>>,
    pick: spec_fn(PendingExpenseRow<Text>) -> bool,
    shown: Seq<PendingExpenseRow<Text>>,
    k: int,
    offset: int,
    limit: int,
) -> (place: int)
    requires
        offset >= 0,
        limit >= 0,
        shown == order::page(
            order::sorted::<PendingExpenseRow, ByDate>(rows.filter(pick)),
            offset,
            limit,
        ),
        0 <= k < shown.len(),
    ensures
        0 <= place < rows.len(),
        rows[place] == shown[k],
        pick(rows[place]),
{
    broadcast use vstd::seq_lib::group_to_multiset_ensures;

    let chosen = rows.filter(pick);
    let found = order::sorted::<PendingExpenseRow, ByDate>(chosen);
    order::law_sorting_orders_all_records::<PendingExpenseRow, ByDate>(chosen);
    assert(found.contains(shown[k]));
    assert(found.to_multiset().count(shown[k]) > 0);
    assert(chosen.contains(shown[k]));
    let m = choose|m: int| 0 <= m < chosen.len() && chosen[m] == shown[k];
    rows.lemma_filter_pred(pick, m);
    rows.lemma_filter_contains_rev(pick, shown[k]);
    choose|place: int| 0 <= place < rows.len() && rows[place] == shown[k]
}

/// Whether a reported purchase is one of the ledger that a list is about.
pub open spec fn is_fitting_record(
    ledger: Ledger,
    filters: PendingFilters<Text>,
    record: PendingExpenseRecord<Text>,
) -> bool {
    exists|i: int|
        0 <= i < ledger.pending_expenses.len() && holds(
            #[trigger] ledger.pending_expenses[i],
            record,
        ) && fits(filters, ledger.pending_expenses[i])
}

/// A list of purchases holds only those that it is about, from the oldest day to the newest and
/// within a day by id; its total is the number of all of them; and a page is full unless the list
/// ends in it.
pub proof fn law_purchase_lists_hold_what_fits(ledger: Ledger, filters: PendingFilters<Text>)
    requires
        ledger::sound(ledger),
        pending_query::pending_listed(ledger, filters) is Ok,
    ensures
        ({
            let page = pending_query::pending_listed(ledger, filters)->Ok_0;
            let total = ledger.pending_expenses.filter(fitting(filters)).len();
            let limit = if filters.filters.limit == 0 {
                50
            } else {
                filters.filters.limit as int
            };
            &&& page.total == total
            &&& page.limit == limit
            &&& page.offset == filters.filters.offset
            &&& page.as_of == filters.as_of
            &&& page.items.len() == if total <= page.offset {
                0
            } else if total - page.offset <= limit {
                total - page.offset
            } else {
                limit
            }
            &&& forall|k: int|
                0 <= k < page.items.len() ==> is_fitting_record(
                    ledger,
                    filters,
                    #[trigger] page.items[k],
                )
            &&& forall|j: int, k: int|
                0 <= j < k < page.items.len() ==> {
                    let left = #[trigger] page.items[j];
                    let right = #[trigger] page.items[k];
                    list_laws::is_earlier(left.date, right.date) || left.date == right.date
                        && !text::before(right.id, left.id)
                }
        }),
{
    broadcast use vstd::seq_lib::group_to_multiset_ensures;

    lemma_same_fitting(ledger, filters);
    let page = pending_query::pending_listed(ledger, filters)->Ok_0;
    let (status, limit) = pending_query::checked_list(filters)->Ok_0;
    let offset = filters.filters.offset as int;
    let rows = ledger.pending_expenses;
    let pick = pending_query::lists(filters, status);
    let chosen = rows.filter(pick);
    let found = order::sorted::<PendingExpenseRow, ByDate>(chosen);
    order::law_sorting_orders_all_records::<PendingExpenseRow, ByDate>(chosen);
    let shown = order::page(found, offset, limit as int);
    pending_query::lemma_pending_records(shown);
    assert forall|k: int| 0 <= k < page.items.len() implies is_fitting_record(
        ledger,
        filters,
        #[trigger] page.items[k],
    ) by {
        let i = lemma_shown(rows, pick, shown, k, offset, limit as int);
        law_purchases_are_reported(ledger, i);
        lemma_fits(ledger, filters, i);
        assert(holds(ledger.pending_expenses[i], page.items[k]));
    }
    assert forall|j: int, k: int| 0 <= j < k < page.items.len() implies {
        let left = #[trigger] page.items[j];
        let right = #[trigger] page.items[k];
        list_laws::is_earlier(left.date, right.date) || left.date == right.date && !text::before(
            right.id,
            left.id,
        )
    } by {
        let left = page.items[j];
        let right = page.items[k];
        let first = lemma_shown(rows, pick, shown, j, offset, limit as int);
        let second = lemma_shown(rows, pick, shown, k, offset, limit as int);
        assert(ledger::pending_is_sound(ledger, rows[first]));
        assert(ledger::pending_is_sound(ledger, rows[second]));
        law_purchases_are_reported(ledger, first);
        law_purchases_are_reported(ledger, second);
        assert(shown[j] == found[offset + j] && shown[k] == found[offset + k]);
        assert(!order::key_before(
            <ByDate as Order<PendingExpenseRow>>::key(found[offset + k]),
            <ByDate as Order<PendingExpenseRow>>::key(found[offset + j]),
        ));
        text::lemma_before_total(left.date, right.date);
        list_laws::law_dates_are_compared_as_days(left.date, right.date);
    }
}

/// Every purchase that a list is about has a place in it, and every page that reaches to that place
/// shows it there.
pub proof fn law_everything_fitting_is_listed(
    ledger: Ledger,
    filters: PendingFilters<Text>,
    i: int,
) -> (place: int)
    requires
        ledger::sound(ledger),
        ledger.pending_expenses.len() <= i64::MAX,
        list_laws::period_is_valid(filters.filters.month, filters.filters.from, filters.filters.to),
        calendar::is_date(filters.as_of),
        filters.currency is Some ==> is_foreign(filters.currency->0),
        is_status(filters.status),
        0 <= i < ledger.pending_expenses.len(),
        fits(filters, ledger.pending_expenses[i]),
    ensures
        0 <= place < ledger.pending_expenses.filter(fitting(filters)).len(),
        forall|offset: i64, limit: i64|
            0 <= offset <= place < offset + limit && limit <= 1000 ==> {
                let page = #[trigger] pending_query::pending_listed(
                    ledger,
                    on_page(filters, offset, limit),
                );
                &&& page is Ok
                &&& page->Ok_0.items.len() > place - offset
                &&& holds(ledger.pending_expenses[i], page->Ok_0.items[place - offset])
            },
{
    broadcast use vstd::seq_lib::group_to_multiset_ensures;

    let first = on_page(filters, 0, 1);
    law_purchase_lists_are_answered(ledger, first);
    let status = pending_query::checked_list(first)->Ok_0.0;
    lemma_same_fitting(ledger, first);
    lemma_fits(ledger, first, i);
    let rows = ledger.pending_expenses;
    let row = rows[i];
    let pick = pending_query::lists(first, status);
    let chosen = rows.filter(pick);
    lemma_same_choice(rows, fitting(first), fitting(filters));
    rows.lemma_filter_contains(pick, i);
    let found = order::sorted::<PendingExpenseRow, ByDate>(chosen);
    order::law_sorting_orders_all_records::<PendingExpenseRow, ByDate>(chosen);
    assert(chosen.to_multiset().count(row) > 0);
    assert(found.contains(row));
    let place = choose|place: int| 0 <= place < found.len() && found[place] == row;
    assert forall|offset: i64, limit: i64|
        0 <= offset <= place < offset + limit && limit <= 1000 implies {
        let page = #[trigger] pending_query::pending_listed(
            ledger,
            on_page(filters, offset, limit),
        );
        &&& page is Ok
        &&& page->Ok_0.items.len() > place - offset
        &&& holds(ledger.pending_expenses[i], page->Ok_0.items[place - offset])
    } by {
        let these = on_page(filters, offset, limit);
        law_purchase_lists_are_answered(ledger, these);
        let other = pending_query::lists(these, status);
        assert(pending_query::checked_list(these)->Ok_0.0 == status);
        lemma_same_choice(rows, other, pick);
        let shown = order::page(found, offset as int, limit as int);
        pending_query::lemma_pending_records(shown);
        assert(shown[place - offset] == found[place]);
        law_purchases_are_reported(ledger, i);
        let items = pending_query::pending_listed(ledger, these)->Ok_0.items;
        assert(ledger::pending_record(shown[place - offset]) == Ok::<_, ErrorView>(
            items[place - offset],
        ));
    }
    place
}

/// The same list at another page.
pub open spec fn on_page(
    filters: PendingFilters<Text>,
    offset: i64,
    limit: i64,
) -> PendingFilters<Text> {
    PendingFilters { filters: Filters { offset, limit, ..filters.filters }, ..filters }
}

/// The same list on another day.
pub open spec fn on_day(filters: PendingFilters<Text>, day: Text) -> PendingFilters<Text> {
    PendingFilters { as_of: day, ..filters }
}

/// What is due on one day is due on every later day, as long as it is not confirmed, cancelled or
/// put off: it has a place in the list of that day.
pub proof fn law_due_stays_due(
    ledger: Ledger,
    filters: PendingFilters<Text>,
    k: int,
    later: Ledger,
    i: int,
    day: Text,
) -> (place: int)
    requires
        ledger::sound(ledger),
        filters.due_only,
        pending_query::pending_listed(ledger, filters) is Ok,
        0 <= k < pending_query::pending_listed(ledger, filters)->Ok_0.items.len(),
        ledger::sound(later),
        later.pending_expenses.len() <= i64::MAX,
        0 <= i < later.pending_expenses.len(),
        holds(
            later.pending_expenses[i],
            pending_query::pending_listed(ledger, filters)->Ok_0.items[k],
        ),
        calendar::is_date(day),
        !list_laws::is_earlier(day, filters.as_of),
        ledger.pending_expenses.len() <= i64::MAX,
    ensures
        place >= 0,
        forall|offset: i64, limit: i64|
            0 <= offset <= place < offset + limit && limit <= 1000 ==> {
                let page = #[trigger] pending_query::pending_listed(
                    later,
                    on_page(on_day(filters, day), offset, limit),
                );
                &&& page is Ok
                &&& page->Ok_0.items.len() > place - offset
                &&& page->Ok_0.items[place - offset] == pending_query::pending_listed(
                    ledger,
                    filters,
                )->Ok_0.items[k]
            },
{
    law_purchase_lists_hold_what_fits(ledger, filters);
    law_purchase_lists_are_answered(ledger, filters);
    let item = pending_query::pending_listed(ledger, filters)->Ok_0.items[k];
    assert(is_fitting_record(ledger, filters, item));
    let m = choose|m: int|
        0 <= m < ledger.pending_expenses.len() && holds(
            #[trigger] ledger.pending_expenses[m],
            item,
        ) && fits(filters, ledger.pending_expenses[m]);
    assert(fits(on_day(filters, day), later.pending_expenses[i]));
    let place = law_everything_fitting_is_listed(later, on_day(filters, day), i);
    assert forall|offset: i64, limit: i64|
        0 <= offset <= place < offset + limit && limit <= 1000 implies {
        let page = #[trigger] pending_query::pending_listed(
            later,
            on_page(on_day(filters, day), offset, limit),
        );
        &&& page is Ok
        &&& page->Ok_0.items.len() > place - offset
        &&& page->Ok_0.items[place - offset] == item
    } by {
        let page = pending_query::pending_listed(
            later,
            on_page(on_day(filters, day), offset, limit),
        );
        assert(holds(later.pending_expenses[i], page->Ok_0.items[place - offset]));
    }
    place
}

/// The filters that the arguments of a command for a list stand for.
pub open spec fn given_filters(
    query: PendingListArgs,
    status: Option<Text>,
    due_only: bool,
    today: Text,
) -> PendingFilters<Text> {
    PendingFilters {
        filters: list_laws::given_filters(query.filter, None, false, query.limit, query.offset),
        status,
        currency: query.currency.deep_view(),
        due_only,
        as_of: if query.as_of is Some {
            query.as_of->0@
        } else {
            today
        },
    }
}

/// Whether a list holds only what the arguments of a command ask for.
pub open spec fn keeps_to(items: Seq<PendingExpenseRecord<Text>>, query: PendingListArgs) -> bool {
    forall|k: int|
        0 <= k < items.len() ==> {
            let item = #[trigger] items[k];
            let filter = query.filter;
            &&& filter.category is Some ==> item.category == filter.category->0@
            &&& filter.month is Some ==> item.date.take(7) == filter.month->0@
            &&& filter.from is Some ==> !list_laws::is_earlier(item.date, filter.from->0@)
            &&& filter.to is Some ==> !list_laws::is_earlier(filter.to->0@, item.date)
            &&& filter.search is Some ==> list_laws::has_part(item.id, filter.search->0@) || (
            item.note is Some && list_laws::has_part(item.note->0, filter.search->0@)) || (
            item.channel is Some && list_laws::has_part(item.channel->0, filter.search->0@)) || (
            item.merchant is Some && list_laws::has_part(item.merchant->0, filter.search->0@))
            &&& query.currency is Some ==> item.currency == query.currency->0@
        }
}

proof fn lemma_keeps_to(
    ledger: Ledger,
    query: PendingListArgs,
    filters: PendingFilters<Text>,
    items: Seq<PendingExpenseRecord<Text>>,
)
    requires
        filters == given_filters(query, filters.status, filters.due_only, filters.as_of),
        forall|k: int|
            0 <= k < items.len() ==> is_fitting_record(ledger, filters, #[trigger] items[k]),
    ensures
        keeps_to(items, query),
{
    assert forall|k: int| 0 <= k < items.len() implies {
        let item = #[trigger] items[k];
        let filter = query.filter;
        &&& filter.category is Some ==> item.category == filter.category->0@
        &&& filter.month is Some ==> item.date.take(7) == filter.month->0@
        &&& filter.from is Some ==> !list_laws::is_earlier(item.date, filter.from->0@)
        &&& filter.to is Some ==> !list_laws::is_earlier(filter.to->0@, item.date)
        &&& filter.search is Some ==> list_laws::has_part(item.id, filter.search->0@) || (
        item.note is Some && list_laws::has_part(item.note->0, filter.search->0@)) || (item.channel
            is Some && list_laws::has_part(item.channel->0, filter.search->0@)) || (item.merchant
            is Some && list_laws::has_part(item.merchant->0, filter.search->0@))
        &&& query.currency is Some ==> item.currency == query.currency->0@
    } by {
        assert(is_fitting_record(ledger, filters, items[k]));
    }
}

/// The command for a list of purchases answers with those of the ledger that are of the status
/// given and lie in the month and between the days, belong to the category, are in the currency and
/// hold the search text given; its total is the number of all of them.
pub proof fn law_purchase_list_commands_hold_what_they_ask_for(
    before: Ledger,
    query: PendingListArgs,
    status: Option<String>,
    today: Text,
    stamp: Stamp<Text>,
    after: Ledger,
    result: Result<Output>,
)
    requires
        ledger::sound(before),
        before.pending_expenses.len() <= i64::MAX,
        command::executed(
            before,
            Command::Pending { command: PendingCommand::List { query, status } },
            today,
            stamp,
            after,
            result,
        ),
    ensures
        after == before,
        result is Ok <==> {
            &&& list_laws::period_is_valid(
                query.filter.month.deep_view(),
                query.filter.from.deep_view(),
                query.filter.to.deep_view(),
            )
            &&& calendar::is_date(
                if query.as_of is Some {
                    query.as_of->0@
                } else {
                    today
                },
            )
            &&& query.currency is Some ==> is_foreign(query.currency->0@)
            &&& is_status(status.deep_view())
            &&& 0 <= query.limit <= 1000
            &&& query.offset >= 0
        },
        result is Err ==> result->Err_0.deep_view().code == "INVALID_INPUT"@,
        result is Ok ==> {
            let page = result->Ok_0->PendingList_page.deep_view();
            let filters = given_filters(query, status.deep_view(), false, today);
            &&& result->Ok_0 is PendingList
            &&& page == pending_query::pending_listed(before, filters)->Ok_0
            &&& page.total == before.pending_expenses.filter(fitting(filters)).len()
            &&& keeps_to(page.items, query)
            &&& forall|k: int|
                0 <= k < page.items.len() ==> is_of_status(
                    status.deep_view(),
                    (#[trigger] page.items[k]).status,
                )
        },
{
    let filters = given_filters(query, status.deep_view(), false, today);
    law_purchase_lists_are_answered(before, filters);
    if result is Ok {
        let page = result->Ok_0->PendingList_page.deep_view();
        assert(pending_query::pending_listed(before, filters) == Ok::<
            PendingListResult<Text, Seq<PendingExpenseRecord<Text>>>,
            ErrorView,
        >(page));
        law_purchase_lists_hold_what_fits(before, filters);
        lemma_keeps_to(before, query, filters, page.items);
        assert forall|k: int| 0 <= k < page.items.len() implies is_of_status(
            status.deep_view(),
            (#[trigger] page.items[k]).status,
        ) by {
            assert(is_fitting_record(before, filters, page.items[k]));
        }
    }
}

/// The command for what is due answers with the purchases that await confirmation and of which one
/// is to be reminded on the day given, or before it; and its total is the number of all of them that
/// fit what is given.
pub proof fn law_due_commands_miss_nothing(
    before: Ledger,
    query: PendingListArgs,
    today: Text,
    stamp: Stamp<Text>,
    after: Ledger,
    result: Result<Output>,
)
    requires
        ledger::sound(before),
        before.pending_expenses.len() <= i64::MAX,
        command::executed(
            before,
            Command::Pending { command: PendingCommand::Due { query } },
            today,
            stamp,
            after,
            result,
        ),
    ensures
        after == before,
        result is Ok <==> {
            &&& list_laws::period_is_valid(
                query.filter.month.deep_view(),
                query.filter.from.deep_view(),
                query.filter.to.deep_view(),
            )
            &&& calendar::is_date(
                if query.as_of is Some {
                    query.as_of->0@
                } else {
                    today
                },
            )
            &&& query.currency is Some ==> is_foreign(query.currency->0@)
            &&& 0 <= query.limit <= 1000
            &&& query.offset >= 0
        },
        result is Err ==> result->Err_0.deep_view().code == "INVALID_INPUT"@,
        result is Ok ==> {
            let page = result->Ok_0->PendingList_page.deep_view();
            let day = if query.as_of is Some {
                query.as_of->0@
            } else {
                today
            };
            let filters = given_filters(query, None, true, today);
            &&& result->Ok_0 is PendingList
            &&& page == pending_query::pending_listed(before, filters)->Ok_0
            &&& page.as_of == day
            &&& page.total == before.pending_expenses.filter(
                |row: PendingExpenseRow<Text>|
                    is_due(row, day) && fits_filters(filters.filters, row) && (query.currency
                        is Some ==> row.currency == query.currency->0@),
            ).len()
            &&& keeps_to(page.items, query)
            &&& forall|k: int|
                0 <= k < page.items.len() ==> {
                    let item = #[trigger] page.items[k];
                    item.status == PendingStatus::Pending && !list_laws::is_earlier(
                        day,
                        item.remind_on,
                    )
                }
        },
{
    let filters = given_filters(query, None, true, today);
    law_purchase_lists_are_answered(before, filters);
    if result is Ok {
        let page = result->Ok_0->PendingList_page.deep_view();
        assert(pending_query::pending_listed(before, filters) == Ok::<
            PendingListResult<Text, Seq<PendingExpenseRecord<Text>>>,
            ErrorView,
        >(page));
        law_purchase_lists_hold_what_fits(before, filters);
        lemma_keeps_to(before, query, filters, page.items);
        let day = filters.as_of;
        let due = |row: PendingExpenseRow<Text>|
            is_due(row, day) && fits_filters(filters.filters, row) && (query.currency is Some
                ==> row.currency == query.currency->0@);
        lemma_same_choice(before.pending_expenses, due, fitting(filters));
        assert forall|k: int| 0 <= k < page.items.len() implies {
            let item = #[trigger] page.items[k];
            item.status == PendingStatus::Pending && !list_laws::is_earlier(day, item.remind_on)
        } by {
            assert(is_fitting_record(before, filters, page.items[k]));
        }
    }
}

/// Every purchase that is due and fits what is given has a place in the list of what is due, and
/// every page that reaches to that place shows it there.
pub proof fn law_due_commands_show_everything(
    before: Ledger,
    query: PendingListArgs,
    i: int,
    today: Text,
) -> (place: int)
    requires
        ledger::sound(before),
        before.pending_expenses.len() <= i64::MAX,
        list_laws::period_is_valid(
            query.filter.month.deep_view(),
            query.filter.from.deep_view(),
            query.filter.to.deep_view(),
        ),
        calendar::is_date(
            if query.as_of is Some {
                query.as_of->0@
            } else {
                today
            },
        ),
        query.currency is Some ==> is_foreign(query.currency->0@),
        0 <= i < before.pending_expenses.len(),
        ({
            let row = before.pending_expenses[i];
            let filter = query.filter;
            &&& is_due(
                row,
                if query.as_of is Some {
                    query.as_of->0@
                } else {
                    today
                },
            )
            &&& list_laws::lies_in(
                filter.month.deep_view(),
                filter.from.deep_view(),
                filter.to.deep_view(),
                row.date,
            )
            &&& filter.category is Some ==> row.category == filter.category->0@
            &&& filter.search is Some ==> is_found_by(row, filter.search->0@)
            &&& query.currency is Some ==> row.currency == query.currency->0@
        }),
    ensures
        place >= 0,
        forall|other: PendingListArgs, stamp: Stamp<Text>, after: Ledger, result: Result<Output>|
            other.filter == query.filter && other.currency == query.currency && other.as_of
                == query.as_of && 0 <= other.offset <= place < other.offset + other.limit
                && other.limit <= 1000 && #[trigger] command::executed(
                before,
                Command::Pending { command: PendingCommand::Due { query: other } },
                today,
                stamp,
                after,
                result,
            ) ==> {
                &&& result is Ok
                &&& result->Ok_0 is PendingList
                &&& result->Ok_0->PendingList_page.deep_view().items.len() > place - other.offset
                &&& holds(
                    before.pending_expenses[i],
                    result->Ok_0->PendingList_page.deep_view().items[place - other.offset],
                )
            },
{
    let filters = given_filters(query, None, true, today);
    let place = law_everything_fitting_is_listed(before, filters, i);
    assert forall|other: PendingListArgs, stamp: Stamp<Text>, after: Ledger, result: Result<Output>|
        other.filter == query.filter && other.currency == query.currency && other.as_of
            == query.as_of && 0 <= other.offset <= place < other.offset + other.limit
            && other.limit <= 1000 && #[trigger] command::executed(
            before,
            Command::Pending { command: PendingCommand::Due { query: other } },
            today,
            stamp,
            after,
            result,
        ) implies {
        &&& result is Ok
        &&& result->Ok_0 is PendingList
        &&& result->Ok_0->PendingList_page.deep_view().items.len() > place - other.offset
        &&& holds(
            before.pending_expenses[i],
            result->Ok_0->PendingList_page.deep_view().items[place - other.offset],
        )
    } by {
        let these = given_filters(other, None, true, today);
        assert(these == on_page(filters, other.offset, other.limit));
        assert(pending_query::pending_listed(before, these) is Ok);
    }
    place
}

/// Whether no purchase has an id.
pub open spec fn is_free(ledger: Ledger, id: Text) -> bool {
    forall|i: int|
        0 <= i < ledger.pending_expenses.len() ==> (#[trigger] ledger.pending_expenses[i]).id != id
}

/// The purchase of an id is the one that is found, and there is none where none is found.
pub(crate) proof fn lemma_found(ledger: Ledger, id: Text)
    requires
        ledger::sound(ledger),
    ensures
        pending::pending_row(ledger, id) is None <==> is_free(ledger, id),
        pending::fetched_pending(ledger, id) is Ok <==> !is_free(ledger, id),
        forall|i: int|
            0 <= i < ledger.pending_expenses.len() && (#[trigger] ledger.pending_expenses[i]).id
                == id ==> {
                &&& text::position(ledger::pending_ids(ledger.pending_expenses), id) == Some(i)
                &&& pending::pending_row(ledger, id) == Some(ledger.pending_expenses[i])
                &&& pending::fetched_pending(ledger, id) is Ok
                &&& holds(
                    ledger.pending_expenses[i],
                    pending::fetched_pending(ledger, id)->Ok_0,
                )
            },
{
    let ids = ledger::pending_ids(ledger.pending_expenses);
    text::lemma_position(ids, id);
    assert forall|i: int|
        0 <= i < ledger.pending_expenses.len() && (#[trigger] ledger.pending_expenses[i]).id
            == id implies {
        &&& text::position(ids, id) == Some(i)
        &&& pending::pending_row(ledger, id) == Some(ledger.pending_expenses[i])
        &&& pending::fetched_pending(ledger, id) is Ok
        &&& holds(ledger.pending_expenses[i], pending::fetched_pending(ledger, id)->Ok_0)
    } by {
        assert(ids[i] == id);
        law_purchases_are_reported(ledger, i);
    }
    if let Some(i) = text::position(ids, id) {
        assert(ledger.pending_expenses[i].id == id);
    } else {
        assert forall|i: int| 0 <= i < ledger.pending_expenses.len() implies (
        #[trigger] ledger.pending_expenses[i]).id != id by {
            assert(ids[i] == ledger.pending_expenses[i].id);
        }
    }
}

/// Whether a ledger has one purchase more than before, and is the same otherwise but for one entry
/// in the log and the request.
pub open spec fn one_more(
    before: Ledger,
    after: Ledger,
    record: PendingExpenseRecord<Text>,
    request_id: Option<Text>,
    now: Text,
) -> bool {
    &&& after.pending_expenses.len() == before.pending_expenses.len() + 1
    &&& forall|i: int|
        0 <= i < before.pending_expenses.len() ==> after.pending_expenses[i]
            == #[trigger] before.pending_expenses[i]
    &&& holds(after.pending_expenses.last(), record)
    &&& after.pending_expenses.last().confirmed_amount is None
    &&& after.categories == before.categories
    &&& after.transactions == before.transactions
    &&& after.audit_log == before.audit_log
    &&& after.pending_audit_log == before.pending_audit_log.push(
        PendingAuditEntry {
            pending_id: record.id,
            action: "create"@,
            before: None,
            after: record,
            created_at: now,
        },
    )
    &&& entry_laws::request_added(before.requests, after.requests, request_id)
}

/// Whether hundredths are what an amount text stands for.
pub open spec fn stands_for(amount: Text, hundredths: int) -> bool {
    exists|whole: Text, fraction: Text| #[trigger]
        value_laws::reads_as(amount, whole, fraction) && value_laws::hundredths(whole, fraction)
            == hundredths
}

/// Whether one date is so many days after another.
pub open spec fn is_later_by(later: Text, date: Text, days: int) -> bool {
    calendar::is_date(later) && value_laws::day_number(calendar::named_day(later))
        == value_laws::day_number(calendar::named_day(date)) + days
}

/// Whether what is answered for a new purchase is what was given. It awaits confirmation, and one
/// is to be reminded of it three days later.
pub open spec fn is_as_given(
    record: PendingExpenseRecord<Text>,
    input: NewPendingExpense<Text>,
    now: Text,
) -> bool {
    &&& record.currency == input.currency
    &&& is_foreign(input.currency)
    &&& record.date == input.date
    &&& record.occurred_at == entry_laws::kept_optional_time(input.occurred_at)
    &&& record.category == if input.category is Some {
        input.category->0
    } else {
        "其他支出"@
    }
    &&& record.merchant == entry_laws::unless_empty(input.merchant)
    &&& record.note == entry_laws::unless_empty(input.note)
    &&& record.channel == entry_laws::unless_empty(input.channel)
    &&& record.status == PendingStatus::Pending
    &&& is_later_by(record.remind_on, input.date, 3)
    &&& record.transaction_id is None
    &&& record.confirmed_at is None
    &&& record.posted_date is None
    &&& record.created_at == now
    &&& record.updated_at == now
}

/// What is answered for a new purchase, and what the ledger then holds, is what was given.
pub proof fn law_purchases_hold_what_was_given(
    before: Ledger,
    input: NewPendingExpense<Text>,
    request_id: Option<Text>,
    stamp: Stamp<Text>,
)
    requires
        ledger::sound(before),
        pending::pending_added(before, input, request_id, stamp).1 is Ok,
        !pending::pending_added(before, input, request_id, stamp).1->Ok_0.replayed,
    ensures
        ({
            let (after, outcome) = pending::pending_added(before, input, request_id, stamp);
            let record = outcome->Ok_0.pending;
            &&& record.id == "pending_"@ + stamp.unique
            &&& is_as_given(record, input, stamp.now)
            &&& stands_for(input.amount, after.pending_expenses.last().amount_minor as int)
            &&& entry_laws::has_category(before, record.category, Kind::Expense)
            &&& outcome->Ok_0.transaction is None
            &&& is_free(before, record.id)
            &&& one_more(before, after, record, request_id, stamp.now)
        }),
{
    let (after, outcome) = pending::pending_added(before, input, request_id, stamp);
    let record = outcome->Ok_0.pending;
    let hundredths = pending::checked_new(input, request_id)->Ok_0.1;
    entry_laws::lemma_agree(input.date, input.occurred_at);
    entry_laws::lemma_categories(before, record.category, Kind::Expense);
    lemma_found(before, record.id);
    law_currencies(input.currency);
    let parts = value_laws::law_only_foreign_amounts_are_kept(input.currency, input.amount);
    value_laws::law_foreign_amounts_are_kept(input.currency, input.amount, parts.0, parts.1);
    value_laws::law_later_dates_are_counted(input.date, 3);
    foreign::law_foreign_amounts_round_trip(input.currency, input.amount);
    assert(value_laws::reads_as(input.amount, parts.0, parts.1));
}

/// A purchase is accepted exactly where its currency is supported, its amount is one of that
/// currency, is positive and can be kept, its date is one of the calendar, has a day three days
/// later and agrees with its time, and its category exists and is one of expenses.
pub proof fn law_purchases_are_accepted(
    before: Ledger,
    input: NewPendingExpense<Text>,
    request_id: Option<Text>,
    stamp: Stamp<Text>,
)
    requires
        ledger::sound(before),
        entry_laws::is_new_request(before, request_id),
        is_free(before, "pending_"@ + stamp.unique),
    ensures
        pending::pending_added(before, input, request_id, stamp).1 is Ok <==> {
            &&& is_foreign(input.currency)
            &&& exists|whole: Text, fraction: Text| #[trigger]
                value_laws::reads_as(input.amount, whole, fraction) && (is_whole(input.currency)
                    ==> fraction.len() == 0) && 0 < value_laws::hundredths(whole, fraction)
                    <= i64::MAX
            &&& entry_laws::agree(input.date, input.occurred_at)
            &&& value_laws::day_number(calendar::named_day(input.date)) + 3
                <= value_laws::day_number((9999, 12, 31))
            &&& entry_laws::has_category(
                before,
                if input.category is Some {
                    input.category->0
                } else {
                    "其他支出"@
                },
                Kind::Expense,
            )
        },
        pending::pending_added(before, input, request_id, stamp).1 is Ok
            ==> !pending::pending_added(before, input, request_id, stamp).1->Ok_0.replayed,
        pending::pending_added(before, input, request_id, stamp).1 is Err
            ==> pending::pending_added(before, input, request_id, stamp).0 == before
            && pending::pending_added(before, input, request_id, stamp).1->Err_0.code
            == "INVALID_INPUT"@,
{
    entry_laws::lemma_agree(input.date, input.occurred_at);
    entry_laws::lemma_new_request(before, request_id);
    lemma_found(before, "pending_"@ + stamp.unique);
    let name = if input.category is Some {
        input.category->0
    } else {
        "其他支出"@
    };
    entry_laws::lemma_categories(before, name, Kind::Expense);
    law_currencies(input.currency);
    if calendar::is_date(input.date) {
        value_laws::law_later_dates_are_counted(input.date, 3);
    }
    if foreign::stored_amount(input.currency, input.amount) is Ok {
        let parts = value_laws::law_only_foreign_amounts_are_kept(input.currency, input.amount);
        value_laws::law_foreign_amounts_are_kept(input.currency, input.amount, parts.0, parts.1);
        foreign::law_foreign_amounts_round_trip(input.currency, input.amount);
        assert(value_laws::reads_as(input.amount, parts.0, parts.1));
    } else {
        assert forall|whole: Text, fraction: Text| #[trigger]
            value_laws::reads_as(input.amount, whole, fraction) && (is_whole(input.currency)
                ==> fraction.len() == 0) && 0 < value_laws::hundredths(whole, fraction)
                <= i64::MAX implies !is_foreign(input.currency) by {
            value_laws::law_foreign_amounts_are_kept(
                input.currency,
                input.amount,
                whole,
                fraction,
            );
        }
    }
}

/// An accepted command that records a purchase, and is no replay, records exactly what the command
/// gave.
pub proof fn law_purchase_commands_record_what_they_give(
    before: Ledger,
    currency: String,
    amount: String,
    date: Option<String>,
    occurred_at: Option<String>,
    category: Option<String>,
    merchant: Option<String>,
    note: Option<String>,
    channel: Option<String>,
    request_id: Option<String>,
    today: Text,
    stamp: Stamp<Text>,
    after: Ledger,
    result: Result<Output>,
)
    requires
        ledger::sound(before),
        command::executed(
            before,
            Command::Pending {
                command: PendingCommand::Add {
                    currency,
                    amount,
                    date,
                    occurred_at,
                    category,
                    merchant,
                    note,
                    channel,
                    request_id,
                },
            },
            today,
            stamp,
            after,
            result,
        ),
        result is Ok,
    ensures
        result->Ok_0 is PendingWrite,
        request_id is None ==> !result->Ok_0->PendingWrite_result.replayed,
        ({
            let answer = result->Ok_0->PendingWrite_result;
            let record = answer.pending.deep_view();
            !answer.replayed ==> {
                &&& record.currency == currency@
                &&& stands_for(amount@, after.pending_expenses.last().amount_minor as int)
                &&& record.date == entry_laws::day_of_entry(date, occurred_at, today)
                &&& record.occurred_at == entry_laws::kept_optional_time(occurred_at.deep_view())
                &&& category is Some ==> record.category == category->0@
                &&& category is None ==> record.category == "其他支出"@
                &&& record.merchant == entry_laws::unless_empty(merchant.deep_view())
                &&& record.note == entry_laws::unless_empty(note.deep_view())
                &&& record.channel == entry_laws::unless_empty(channel.deep_view())
                &&& record.status == PendingStatus::Pending
                &&& is_later_by(record.remind_on, record.date, 3)
                &&& answer.transaction is None
                &&& one_more(before, after, record, request_id.deep_view(), stamp.now)
            }
        }),
{
    if date is None && occurred_at is Some {
        entry_laws::law_times_are_kept(occurred_at->0@);
    }
    let input = NewPendingExpense {
        currency: currency@,
        amount: amount@,
        date: entry_laws::day_of_entry(date, occurred_at, today),
        occurred_at: occurred_at.deep_view(),
        category: category.deep_view(),
        merchant: merchant.deep_view(),
        note: note.deep_view(),
        channel: channel.deep_view(),
    };
    assert(after == pending::pending_added(before, input, request_id.deep_view(), stamp).0);
    if !result->Ok_0->PendingWrite_result.replayed {
        law_purchases_hold_what_was_given(before, input, request_id.deep_view(), stamp);
    }
}

/// An accepted record of a purchase that is no replay holds exactly what was given.
pub proof fn law_purchase_records_hold_what_they_give(
    before: Ledger,
    input: NewPendingExpense,
    request_id: Option<String>,
    today: Text,
    stamp: Stamp<Text>,
    after: Ledger,
    result: Result<Output>,
)
    requires
        ledger::sound(before),
        command::executed(
            before,
            Command::Pending { command: PendingCommand::Record { input, request_id } },
            today,
            stamp,
            after,
            result,
        ),
        result is Ok,
    ensures
        result->Ok_0 is PendingWrite,
        request_id is None ==> !result->Ok_0->PendingWrite_result.replayed,
        ({
            let answer = result->Ok_0->PendingWrite_result;
            let record = answer.pending.deep_view();
            !answer.replayed ==> {
                &&& record.currency == input.currency@
                &&& stands_for(input.amount@, after.pending_expenses.last().amount_minor as int)
                &&& record.date == input.date@
                &&& record.occurred_at == entry_laws::kept_optional_time(
                    input.occurred_at.deep_view(),
                )
                &&& input.category is Some ==> record.category == input.category->0@
                &&& input.category is None ==> record.category == "其他支出"@
                &&& record.merchant == entry_laws::unless_empty(input.merchant.deep_view())
                &&& record.note == entry_laws::unless_empty(input.note.deep_view())
                &&& record.channel == entry_laws::unless_empty(input.channel.deep_view())
                &&& is_later_by(record.remind_on, record.date, 3)
                &&& one_more(before, after, record, request_id.deep_view(), stamp.now)
            }
        }),
{
    if !result->Ok_0->PendingWrite_result.replayed {
        law_purchases_hold_what_was_given(
            before,
            input.deep_view(),
            request_id.deep_view(),
            stamp,
        );
    }
}

/// Whether all rows but one are as they were, and that one is the same purchase: only its status,
/// what settles it, the day to be reminded of it and the time of the change may differ.
pub open spec fn one_changed(before: Ledger, after: Ledger, i: int) -> bool {
    let was = before.pending_expenses[i];
    let row = after.pending_expenses[i];
    &&& after.pending_expenses.len() == before.pending_expenses.len()
    &&& forall|j: int|
        0 <= j < before.pending_expenses.len() && j != i ==> after.pending_expenses[j]
            == #[trigger] before.pending_expenses[j]
    &&& row.id == was.id
    &&& row.currency == was.currency
    &&& row.amount_minor == was.amount_minor
    &&& row.date == was.date
    &&& row.occurred_at == was.occurred_at
    &&& row.category == was.category
    &&& row.merchant == was.merchant
    &&& row.note == was.note
    &&& row.channel == was.channel
    &&& row.created_at == was.created_at
}

/// Whether the log of purchases has one entry more, about the change of one of them.
pub open spec fn change_logged(
    before: Ledger,
    after: Ledger,
    i: int,
    action: Text,
    record: PendingExpenseRecord<Text>,
    now: Text,
) -> bool {
    let entry = after.pending_audit_log.last();
    &&& after.pending_audit_log.len() == before.pending_audit_log.len() + 1
    &&& forall|j: int|
        0 <= j < before.pending_audit_log.len() ==> after.pending_audit_log[j]
            == #[trigger] before.pending_audit_log[j]
    &&& entry.pending_id == record.id
    &&& entry.action == action
    &&& entry.before is Some
    &&& holds(before.pending_expenses[i], entry.before->0)
    &&& entry.after == record
    &&& entry.created_at == now
}

/// A confirmation that is carried out turns the purchase that awaits it into a confirmed one, with
/// the amount and the day given, and records one expense of that amount, on the day of the purchase
/// and with its category, note and channel; all else is as it was.
pub proof fn law_confirmations_settle(
    before: Ledger,
    i: int,
    input: ConfirmPendingExpense<Text>,
    request_id: Option<Text>,
    stamp: Stamp<Text>,
)
    requires
        ledger::sound(before),
        0 <= i < before.pending_expenses.len(),
        ({
            let id = before.pending_expenses[i].id;
            let change = pending::pending_confirmed(before, id, input, request_id, stamp);
            change.1 is Ok && !change.1->Ok_0.replayed
        }),
    ensures
        ({
            let was = before.pending_expenses[i];
            let (after, outcome) = pending::pending_confirmed(
                before,
                was.id,
                input,
                request_id,
                stamp,
            );
            let answer = outcome->Ok_0;
            &&& was.status == PendingStatus::Pending
            &&& one_changed(before, after, i)
            &&& is_confirmed(after.pending_expenses[i], input, stamp)
            &&& after.pending_expenses[i].remind_on == was.remind_on
            &&& holds(after.pending_expenses[i], answer.pending)
            &&& after.transactions.len() == before.transactions.len() + 1
            &&& forall|j: int|
                0 <= j < before.transactions.len() ==> after.transactions[j]
                    == #[trigger] before.transactions[j]
            &&& settles(after.transactions.last(), was, input.amount, stamp)
            &&& answer.transaction is Some
            &&& entry_laws::holds(after.transactions.last(), answer.transaction->0)
            &&& after.categories == before.categories
            &&& after.audit_log == before.audit_log.push(
                AuditEntry {
                    transaction_id: "txn_"@ + stamp.unique,
                    action: "create"@,
                    before: None,
                    after: answer.transaction->0,
                    created_at: stamp.now,
                },
            )
            &&& change_logged(before, after, i, "confirm"@, answer.pending, stamp.now)
            &&& entry_laws::request_added(before.requests, after.requests, request_id)
        }),
{
    let was = before.pending_expenses[i];
    lemma_found(before, was.id);
    assert(ledger::pending_is_sound(before, was));
    law_currencies(was.currency);
}

/// Whether a purchase is confirmed with the amount and the day given.
pub open spec fn is_confirmed(
    row: PendingExpenseRow<Text>,
    input: ConfirmPendingExpense<Text>,
    stamp: Stamp<Text>,
) -> bool {
    &&& row.status == PendingStatus::Confirmed
    &&& row.transaction_id == Some("txn_"@ + stamp.unique)
    &&& row.confirmed_amount == Some(input.amount)
    &&& row.confirmed_at == Some(stamp.now)
    &&& row.posted_date == input.posted_date
    &&& row.updated_at == stamp.now
}

/// Whether an expense is the one that settles a purchase with an amount.
pub open spec fn settles(
    row: TransactionRow<Text>,
    purchase: PendingExpenseRow<Text>,
    amount: Money,
    stamp: Stamp<Text>,
) -> bool {
    &&& row.id == "txn_"@ + stamp.unique
    &&& row.kind == Kind::Expense
    &&& row.amount == amount
    &&& row.category == Some(purchase.category)
    &&& row.date == purchase.date
    &&& row.occurred_at == purchase.occurred_at
    &&& row.note == purchase.note
    &&& row.channel == purchase.channel
    &&& row.original_id is None
    &&& !row.voided
    &&& row.created_at == stamp.now
    &&& row.updated_at == stamp.now
}

/// A confirmation of a purchase is accepted exactly where its amount is positive, its day is none or
/// one of the calendar and not before that of the purchase, and the purchase awaits it. One that is
/// confirmed already accepts the same confirmation once more, as a replay, and no other.
pub proof fn law_confirmations_are_accepted(
    before: Ledger,
    i: int,
    input: ConfirmPendingExpense<Text>,
    request_id: Option<Text>,
    stamp: Stamp<Text>,
)
    requires
        ledger::sound(before),
        0 <= i < before.pending_expenses.len(),
        entry_laws::is_new_request(before, request_id),
        entry_laws::is_free(before, "txn_"@ + stamp.unique),
    ensures
        ({
            let was = before.pending_expenses[i];
            let (after, outcome) = pending::pending_confirmed(
                before,
                was.id,
                input,
                request_id,
                stamp,
            );
            &&& outcome is Ok <==> {
                &&& input.amount.0 > 0
                &&& input.posted_date is Some ==> calendar::is_date(input.posted_date->0)
                    && !list_laws::is_earlier(input.posted_date->0, was.date)
                &&& was.status != PendingStatus::Cancelled
                &&& was.status == PendingStatus::Confirmed ==> was.confirmed_amount == Some(
                    input.amount,
                ) && was.posted_date == input.posted_date
            }
            &&& outcome is Ok ==> (outcome->Ok_0.replayed <==> was.status
                == PendingStatus::Confirmed)
            &&& outcome is Err ==> after == before
            &&& outcome is Ok && outcome->Ok_0.replayed ==> {
                &&& after.transactions == before.transactions
                &&& after.pending_expenses == before.pending_expenses
                &&& after.categories == before.categories
                &&& after.audit_log == before.audit_log
                &&& after.pending_audit_log == before.pending_audit_log
                &&& entry_laws::request_added(before.requests, after.requests, request_id)
                &&& holds(was, outcome->Ok_0.pending)
                &&& outcome->Ok_0.transaction is Some
                &&& was.transaction_id == Some(outcome->Ok_0.transaction->0.id)
            }
        }),
{
    let was = before.pending_expenses[i];
    lemma_found(before, was.id);
    assert(ledger::pending_is_sound(before, was));
    law_currencies(was.currency);
    entry_laws::lemma_new_request(before, request_id);
    entry_laws::lemma_found(before, "txn_"@ + stamp.unique);
    if input.posted_date is Some && calendar::is_date(input.posted_date->0) {
        list_laws::law_dates_are_compared_as_days(input.posted_date->0, was.date);
    }
    if let Some(id) = was.transaction_id {
        entry_laws::lemma_found(before, id);
        entry_laws::lemma_fetched(before, id);
        text::lemma_position(ledger::ids(before.transactions), id);
    }
}

/// Putting a purchase off, where it is carried out, moves the day to be reminded of it to the one
/// given and changes nothing else.
pub proof fn law_putting_off_moves_the_day(
    before: Ledger,
    i: int,
    until: Text,
    request_id: Option<Text>,
    now: Text,
)
    requires
        ledger::sound(before),
        0 <= i < before.pending_expenses.len(),
        ({
            let change = pending::pending_snoozed(
                before,
                before.pending_expenses[i].id,
                until,
                request_id,
                now,
            );
            change.1 is Ok && !change.1->Ok_0.replayed
        }),
    ensures
        ({
            let was = before.pending_expenses[i];
            let (after, outcome) = pending::pending_snoozed(
                before,
                was.id,
                until,
                request_id,
                now,
            );
            let row = after.pending_expenses[i];
            &&& was.status == PendingStatus::Pending
            &&& one_changed(before, after, i)
            &&& row.remind_on == until
            &&& row.status == PendingStatus::Pending
            &&& row.transaction_id is None
            &&& row.confirmed_amount is None
            &&& row.confirmed_at is None
            &&& row.posted_date is None
            &&& row.updated_at == now
            &&& holds(row, outcome->Ok_0.pending)
            &&& outcome->Ok_0.transaction is None
            &&& after.transactions == before.transactions
            &&& after.categories == before.categories
            &&& after.audit_log == before.audit_log
            &&& change_logged(before, after, i, "snooze"@, outcome->Ok_0.pending, now)
            &&& entry_laws::request_added(before.requests, after.requests, request_id)
        }),
{
    let was = before.pending_expenses[i];
    lemma_found(before, was.id);
    assert(ledger::pending_is_sound(before, was));
    law_currencies(was.currency);
}

/// A purchase is put off exactly where it awaits confirmation and the day given is one of the
/// calendar and neither before the day of the purchase nor before the day that it was put off to.
pub proof fn law_puttings_off_are_accepted(
    before: Ledger,
    i: int,
    until: Text,
    request_id: Option<Text>,
    now: Text,
)
    requires
        ledger::sound(before),
        0 <= i < before.pending_expenses.len(),
        entry_laws::is_new_request(before, request_id),
    ensures
        ({
            let was = before.pending_expenses[i];
            let (after, outcome) = pending::pending_snoozed(
                before,
                was.id,
                until,
                request_id,
                now,
            );
            &&& outcome is Ok <==> {
                &&& calendar::is_date(until)
                &&& was.status == PendingStatus::Pending
                &&& !list_laws::is_earlier(until, was.date)
                &&& !list_laws::is_earlier(until, was.remind_on)
            }
            &&& outcome is Ok ==> !outcome->Ok_0.replayed
            &&& outcome is Err ==> after == before
        }),
{
    let was = before.pending_expenses[i];
    lemma_found(before, was.id);
    assert(ledger::pending_is_sound(before, was));
    law_currencies(was.currency);
    entry_laws::lemma_new_request(before, request_id);
    if calendar::is_date(until) {
        list_laws::law_dates_are_compared_as_days(until, was.date);
        list_laws::law_dates_are_compared_as_days(until, was.remind_on);
    }
}

/// Cancelling a purchase, where it is carried out, marks it so and changes nothing else: it records
/// no expense.
pub proof fn law_cancelling_marks_the_purchase(
    before: Ledger,
    i: int,
    request_id: Option<Text>,
    now: Text,
)
    requires
        ledger::sound(before),
        0 <= i < before.pending_expenses.len(),
        ({
            let change = pending::pending_changed(
                before,
                before.pending_expenses[i].id,
                None,
                request_id,
                now,
            );
            change.1 is Ok && !change.1->Ok_0.replayed
        }),
    ensures
        ({
            let was = before.pending_expenses[i];
            let (after, outcome) = pending::pending_changed(before, was.id, None, request_id, now);
            let row = after.pending_expenses[i];
            &&& was.status == PendingStatus::Pending
            &&& one_changed(before, after, i)
            &&& row.status == PendingStatus::Cancelled
            &&& row.remind_on == was.remind_on
            &&& row.transaction_id is None
            &&& row.confirmed_amount is None
            &&& row.confirmed_at is None
            &&& row.posted_date is None
            &&& row.updated_at == now
            &&& holds(row, outcome->Ok_0.pending)
            &&& outcome->Ok_0.transaction is None
            &&& after.transactions == before.transactions
            &&& after.categories == before.categories
            &&& after.audit_log == before.audit_log
            &&& change_logged(before, after, i, "cancel"@, outcome->Ok_0.pending, now)
            &&& entry_laws::request_added(before.requests, after.requests, request_id)
        }),
{
    let was = before.pending_expenses[i];
    lemma_found(before, was.id);
    assert(ledger::pending_is_sound(before, was));
    law_currencies(was.currency);
}

/// A purchase that awaits confirmation can be cancelled; one that is cancelled already answers so
/// once more and stays as it is; one that is confirmed cannot be.
pub proof fn law_cancellings_are_accepted(
    before: Ledger,
    i: int,
    request_id: Option<Text>,
    now: Text,
)
    requires
        ledger::sound(before),
        0 <= i < before.pending_expenses.len(),
        entry_laws::is_new_request(before, request_id),
    ensures
        ({
            let was = before.pending_expenses[i];
            let (after, outcome) = pending::pending_changed(before, was.id, None, request_id, now);
            &&& outcome is Ok <==> was.status != PendingStatus::Confirmed
            &&& outcome is Ok ==> (outcome->Ok_0.replayed <==> was.status
                == PendingStatus::Cancelled)
            &&& outcome is Err ==> after == before
            &&& outcome is Ok && outcome->Ok_0.replayed ==> {
                &&& after.transactions == before.transactions
                &&& after.pending_expenses == before.pending_expenses
                &&& after.categories == before.categories
                &&& after.audit_log == before.audit_log
                &&& after.pending_audit_log == before.pending_audit_log
                &&& entry_laws::request_added(before.requests, after.requests, request_id)
                &&& holds(was, outcome->Ok_0.pending)
                &&& outcome->Ok_0.transaction is None
            }
        }),
{
    let was = before.pending_expenses[i];
    lemma_found(before, was.id);
    assert(ledger::pending_is_sound(before, was));
    law_currencies(was.currency);
    entry_laws::lemma_new_request(before, request_id);
}

/// What does not exist can be neither confirmed nor cancelled nor put off.
pub proof fn law_only_what_exists_is_changed(
    before: Ledger,
    id: Text,
    input: ConfirmPendingExpense<Text>,
    until: Text,
    request_id: Option<Text>,
    stamp: Stamp<Text>,
)
    requires
        ledger::sound(before),
        is_free(before, id),
        entry_laws::is_new_request(before, request_id),
    ensures
        pending::pending_confirmed(before, id, input, request_id, stamp).1 is Err,
        pending::pending_confirmed(before, id, input, request_id, stamp).0 == before,
        pending::pending_changed(before, id, None, request_id, stamp.now).1 is Err,
        pending::pending_changed(before, id, None, request_id, stamp.now).0 == before,
        pending::pending_snoozed(before, id, until, request_id, stamp.now).1 is Err,
        pending::pending_snoozed(before, id, until, request_id, stamp.now).0 == before,
{
    lemma_found(before, id);
    entry_laws::lemma_new_request(before, request_id);
}

/// The command to confirm a purchase confirms the one that it names, with the amount and the day
/// that it gives.
pub proof fn law_confirm_commands_do_what_they_say(
    before: Ledger,
    id: String,
    amount: Money,
    posted_date: Option<String>,
    request_id: Option<String>,
    today: Text,
    stamp: Stamp<Text>,
    after: Ledger,
    result: Result<Output>,
)
    requires
        ledger::sound(before),
        command::executed(
            before,
            Command::Pending {
                command: PendingCommand::Confirm { id, amount, posted_date, request_id },
            },
            today,
            stamp,
            after,
            result,
        ),
    ensures
        result is Err ==> after == before,
        result is Ok ==> result->Ok_0 is PendingWrite,
        result is Ok && !result->Ok_0->PendingWrite_result.replayed ==> exists|i: int|
            {
                let was = #[trigger] before.pending_expenses[i];
                let answer = result->Ok_0->PendingWrite_result;
                &&& 0 <= i < before.pending_expenses.len()
                &&& was.id == id@
                &&& was.status == PendingStatus::Pending
                &&& one_changed(before, after, i)
                &&& after.pending_expenses[i].status == PendingStatus::Confirmed
                &&& after.pending_expenses[i].confirmed_amount == Some(amount)
                &&& posted_date is None ==> after.pending_expenses[i].posted_date is None
                &&& posted_date is Some ==> after.pending_expenses[i].posted_date == Some(
                    posted_date->0@,
                )
                &&& holds(after.pending_expenses[i], answer.pending.deep_view())
                &&& after.transactions.len() == before.transactions.len() + 1
                &&& settles(after.transactions.last(), was, amount, stamp)
                &&& after.pending_expenses[i].transaction_id == Some(after.transactions.last().id)
                &&& answer.transaction is Some
                &&& entry_laws::holds(
                    after.transactions.last(),
                    answer.transaction->0.deep_view(),
                )
                &&& entry_laws::request_added(
                    before.requests,
                    after.requests,
                    request_id.deep_view(),
                )
            },
        is_free(before, id@) && request_id is None ==> result is Err,
        forall|i: int|
            0 <= i < before.pending_expenses.len() && (#[trigger] before.pending_expenses[i]).id
                == id@ && entry_laws::is_new_request(before, request_id.deep_view())
                && entry_laws::is_free(before, "txn_"@ + stamp.unique)
                && before.pending_expenses[i].status == PendingStatus::Pending ==> (result is Ok
                <==> {
                &&& amount.0 > 0
                &&& posted_date is Some ==> calendar::is_date(posted_date->0@)
                    && !list_laws::is_earlier(posted_date->0@, before.pending_expenses[i].date)
            }),
{
    let input = ConfirmPendingExpense { amount, posted_date: posted_date.deep_view() };
    let request = request_id.deep_view();
    lemma_found(before, id@);
    if result is Ok && !result->Ok_0->PendingWrite_result.replayed {
        let i = text::position(ledger::pending_ids(before.pending_expenses), id@)->0;
        text::lemma_position(ledger::pending_ids(before.pending_expenses), id@);
        assert(before.pending_expenses[i].id == id@);
        law_confirmations_settle(before, i, input, request, stamp);
    }
    if is_free(before, id@) && request_id is None {
        law_only_what_exists_is_changed(before, id@, input, Seq::empty(), request, stamp);
    }
    assert forall|i: int|
        0 <= i < before.pending_expenses.len() && (#[trigger] before.pending_expenses[i]).id == id@
            && entry_laws::is_new_request(before, request) && entry_laws::is_free(
            before,
            "txn_"@ + stamp.unique,
        ) && before.pending_expenses[i].status == PendingStatus::Pending implies (result is Ok
        <==> {
        &&& amount.0 > 0
        &&& posted_date is Some ==> calendar::is_date(posted_date->0@) && !list_laws::is_earlier(
            posted_date->0@,
            before.pending_expenses[i].date,
        )
    }) by {
        law_confirmations_are_accepted(before, i, input, request, stamp);
    }
}

/// The command to cancel a purchase cancels the one that it names, unless that is confirmed.
pub proof fn law_cancel_commands_do_what_they_say(
    before: Ledger,
    id: String,
    request_id: Option<String>,
    today: Text,
    stamp: Stamp<Text>,
    after: Ledger,
    result: Result<Output>,
)
    requires
        ledger::sound(before),
        command::executed(
            before,
            Command::Pending { command: PendingCommand::Cancel { id, request_id } },
            today,
            stamp,
            after,
            result,
        ),
    ensures
        result is Err ==> after == before,
        result is Ok ==> result->Ok_0 is PendingWrite,
        after.transactions == before.transactions,
        result is Ok && !result->Ok_0->PendingWrite_result.replayed ==> exists|i: int|
            {
                let was = #[trigger] before.pending_expenses[i];
                &&& 0 <= i < before.pending_expenses.len()
                &&& was.id == id@
                &&& was.status == PendingStatus::Pending
                &&& one_changed(before, after, i)
                &&& after.pending_expenses[i].status == PendingStatus::Cancelled
                &&& after.pending_expenses[i].remind_on == was.remind_on
                &&& after.pending_expenses[i].updated_at == stamp.now
                &&& holds(
                    after.pending_expenses[i],
                    result->Ok_0->PendingWrite_result.pending.deep_view(),
                )
                &&& entry_laws::request_added(
                    before.requests,
                    after.requests,
                    request_id.deep_view(),
                )
            },
        is_free(before, id@) && request_id is None ==> result is Err,
        forall|i: int|
            0 <= i < before.pending_expenses.len() && (#[trigger] before.pending_expenses[i]).id
                == id@ && entry_laws::is_new_request(before, request_id.deep_view()) ==> (result
                is Ok <==> before.pending_expenses[i].status != PendingStatus::Confirmed) && (result
                is Ok ==> (result->Ok_0->PendingWrite_result.replayed
                <==> before.pending_expenses[i].status == PendingStatus::Cancelled)),
{
    let request = request_id.deep_view();
    lemma_found(before, id@);
    if result is Ok && !result->Ok_0->PendingWrite_result.replayed {
        let i = text::position(ledger::pending_ids(before.pending_expenses), id@)->0;
        text::lemma_position(ledger::pending_ids(before.pending_expenses), id@);
        assert(before.pending_expenses[i].id == id@);
        law_cancelling_marks_the_purchase(before, i, request, stamp.now);
    }
    assert forall|i: int|
        0 <= i < before.pending_expenses.len() && (#[trigger] before.pending_expenses[i]).id == id@
            && entry_laws::is_new_request(before, request) implies (result is Ok
        <==> before.pending_expenses[i].status != PendingStatus::Confirmed) && (result is Ok ==> (
    result->Ok_0->PendingWrite_result.replayed <==> before.pending_expenses[i].status
        == PendingStatus::Cancelled)) by {
        law_cancellings_are_accepted(before, i, request, stamp.now);
    }
}

/// The command to put a purchase off moves the day to be reminded of the one that it names to the
/// day that it gives.
pub proof fn law_snooze_commands_do_what_they_say(
    before: Ledger,
    id: String,
    until: String,
    request_id: Option<String>,
    today: Text,
    stamp: Stamp<Text>,
    after: Ledger,
    result: Result<Output>,
)
    requires
        ledger::sound(before),
        command::executed(
            before,
            Command::Pending { command: PendingCommand::Snooze { id, until, request_id } },
            today,
            stamp,
            after,
            result,
        ),
    ensures
        result is Err ==> after == before,
        result is Ok ==> result->Ok_0 is PendingWrite,
        after.transactions == before.transactions,
        result is Ok && !result->Ok_0->PendingWrite_result.replayed ==> exists|i: int|
            {
                let was = #[trigger] before.pending_expenses[i];
                &&& 0 <= i < before.pending_expenses.len()
                &&& was.id == id@
                &&& was.status == PendingStatus::Pending
                &&& one_changed(before, after, i)
                &&& after.pending_expenses[i].status == PendingStatus::Pending
                &&& after.pending_expenses[i].remind_on == until@
                &&& after.pending_expenses[i].updated_at == stamp.now
                &&& holds(
                    after.pending_expenses[i],
                    result->Ok_0->PendingWrite_result.pending.deep_view(),
                )
                &&& entry_laws::request_added(
                    before.requests,
                    after.requests,
                    request_id.deep_view(),
                )
            },
        is_free(before, id@) && request_id is None ==> result is Err,
        forall|i: int|
            0 <= i < before.pending_expenses.len() && (#[trigger] before.pending_expenses[i]).id
                == id@ && entry_laws::is_new_request(before, request_id.deep_view()) ==> (result
                is Ok <==> {
                &&& calendar::is_date(until@)
                &&& before.pending_expenses[i].status == PendingStatus::Pending
                &&& !list_laws::is_earlier(until@, before.pending_expenses[i].date)
                &&& !list_laws::is_earlier(until@, before.pending_expenses[i].remind_on)
            }),
{
    let request = request_id.deep_view();
    lemma_found(before, id@);
    if result is Ok && !result->Ok_0->PendingWrite_result.replayed {
        let i = text::position(ledger::pending_ids(before.pending_expenses), id@)->0;
        text::lemma_position(ledger::pending_ids(before.pending_expenses), id@);
        assert(before.pending_expenses[i].id == id@);
        law_putting_off_moves_the_day(before, i, until@, request, stamp.now);
    }
    assert forall|i: int|
        0 <= i < before.pending_expenses.len() && (#[trigger] before.pending_expenses[i]).id == id@
            && entry_laws::is_new_request(before, request) implies (result is Ok <==> {
        &&& calendar::is_date(until@)
        &&& before.pending_expenses[i].status == PendingStatus::Pending
        &&& !list_laws::is_earlier(until@, before.pending_expenses[i].date)
        &&& !list_laws::is_earlier(until@, before.pending_expenses[i].remind_on)
    }) by {
        law_puttings_off_are_accepted(before, i, until@, request, stamp.now);
    }
}

/// The command to show a purchase answers with the one that it names and the expense that settles
/// it, if there is one, and changes nothing.
pub proof fn law_show_commands_are_exact(
    before: Ledger,
    id: String,
    today: Text,
    stamp: Stamp<Text>,
    after: Ledger,
    result: Result<Output>,
)
    requires
        ledger::sound(before),
        command::executed(
            before,
            Command::Pending { command: PendingCommand::Show { id } },
            today,
            stamp,
            after,
            result,
        ),
    ensures
        after == before,
        result is Ok <==> !is_free(before, id@),
        result is Ok ==> result->Ok_0 is PendingDetail,
        result is Ok ==> exists|i: int|
            {
                let row = #[trigger] before.pending_expenses[i];
                let detail = result->Ok_0->PendingDetail_detail.deep_view();
                &&& 0 <= i < before.pending_expenses.len()
                &&& row.id == id@
                &&& holds(row, detail.pending)
                &&& detail.transaction is Some <==> row.status == PendingStatus::Confirmed
                &&& detail.transaction is Some ==> exists|j: int|
                    0 <= j < before.transactions.len() && (#[trigger] before.transactions[j]).id
                        == row.transaction_id->0 && entry_laws::holds(
                        before.transactions[j],
                        detail.transaction->0,
                    )
            },
{
    lemma_found(before, id@);
    let ids = ledger::pending_ids(before.pending_expenses);
    text::lemma_position(ids, id@);
    if let Some(i) = text::position(ids, id@) {
        let row = before.pending_expenses[i];
        assert(row.id == id@);
        assert(ledger::pending_is_sound(before, row));
        if let Some(other) = row.transaction_id {
            entry_laws::lemma_found(before, other);
            entry_laws::lemma_fetched(before, other);
            text::lemma_position(ledger::ids(before.transactions), other);
            let j = text::position(ledger::ids(before.transactions), other)->0;
            assert(before.transactions[j].id == other);
            let record = ledger::fetched(before, other)->Ok_0;
            list_laws::lemma_record(before, before.transactions[j], record);
        }
    }
}

/// Whether the entry of a log with a number, counted from one, is about a purchase.
pub open spec fn is_about(log: Seq<PendingAuditEntry<Text>>, number: int, id: Text) -> bool {
    1 <= number <= log.len() && log[number - 1].pending_id == id
}

/// Whether a record of a history tells what the entry of the log with its number says.
pub open spec fn tells(record: PendingAuditRecord<Text>, log: Seq<PendingAuditEntry<Text>>) -> bool {
    &&& 1 <= record.id <= log.len()
    &&& record.pending_id == log[record.id - 1].pending_id
    &&& record.action == log[record.id - 1].action
    &&& record.before == log[record.id - 1].before
    &&& record.after == log[record.id - 1].after
    &&& record.created_at == log[record.id - 1].created_at
}

/// Whether a history holds every entry of a log that is about a purchase, each with its number, in
/// the order of the log, and nothing else.
pub open spec fn is_whole_history(
    history: Seq<PendingAuditRecord<Text>>,
    log: Seq<PendingAuditEntry<Text>>,
    id: Text,
) -> bool {
    &&& forall|k: int|
        0 <= k < history.len() ==> tells(#[trigger] history[k], log) && history[k].pending_id == id
    &&& forall|j: int, k: int|
        0 <= j < k < history.len() ==> (#[trigger] history[j]).id < (#[trigger] history[k]).id
    &&& forall|number: int|
        #[trigger] is_about(log, number, id) ==> exists|k: int|
            0 <= k < history.len() && (#[trigger] history[k]).id == number
}

/// The history of a purchase holds every entry of the log that is about it, each with its number,
/// in the order of the log, and nothing else.
pub proof fn law_histories_are_complete(log: Seq<PendingAuditEntry<Text>>, id: Text)
    requires
        log.len() <= u64::MAX,
    ensures
        is_whole_history(pending_query::history_of(log, id), log, id),
    decreases log.len(),
{
    if log.len() > 0 {
        let front = log.drop_last();
        law_histories_are_complete(front, id);
        let earlier = pending_query::history_of(front, id);
        let history = pending_query::history_of(log, id);
        assert forall|k: int| 0 <= k < history.len() implies tells(#[trigger] history[k], log)
            && history[k].pending_id == id by {
            if k < earlier.len() {
                assert(history[k] == earlier[k]);
                assert(tells(earlier[k], front));
                assert(front[earlier[k].id - 1] == log[earlier[k].id - 1]);
            }
        }
        assert forall|j: int, k: int| 0 <= j < k < history.len() implies (
        #[trigger] history[j]).id < (#[trigger] history[k]).id by {
            assert(history[j] == earlier[j]);
            assert(tells(earlier[j], front));
            if k < earlier.len() {
                assert(history[k] == earlier[k]);
            }
        }
        assert forall|number: int| #[trigger] is_about(log, number, id) implies exists|k: int|
            0 <= k < history.len() && (#[trigger] history[k]).id == number by {
            if number <= front.len() {
                assert(front[number - 1] == log[number - 1]);
                assert(is_about(front, number, id));
                let k = choose|k: int|
                    0 <= k < earlier.len() && (#[trigger] earlier[k]).id == number;
                assert(history[k] == earlier[k]);
            } else {
                assert(history[history.len() - 1].id == number);
            }
        }
    }
}

/// The command for the history of a purchase answers with the whole of it where the purchase
/// exists, and changes nothing.
pub proof fn law_history_commands_are_complete(
    before: Ledger,
    id: String,
    today: Text,
    stamp: Stamp<Text>,
    after: Ledger,
    result: Result<Output>,
)
    requires
        ledger::sound(before),
        before.pending_audit_log.len() <= u64::MAX,
        command::executed(
            before,
            Command::Pending { command: PendingCommand::History { id } },
            today,
            stamp,
            after,
            result,
        ),
    ensures
        after == before,
        result is Ok <==> !is_free(before, id@),
        result is Ok ==> result->Ok_0 is PendingHistory && is_whole_history(
            result->Ok_0->PendingHistory_records.deep_view(),
            before.pending_audit_log,
            id@,
        ),
{
    lemma_found(before, id@);
    law_histories_are_complete(before.pending_audit_log, id@);
}

/// The sum of the hundredths of purchases.
pub open spec fn amounts(rows: Seq<PendingExpenseRow<Text>>) -> int
    decreases rows.len(),
{
    if rows.len() == 0 {
        0
    } else {
        amounts(rows.drop_last()) + rows.last().amount_minor
    }
}

/// The purchases that a summary reports apart: those that await confirmation.
pub open spec fn awaiting(filters: Filters<Text>) -> spec_fn(PendingExpenseRow<Text>) -> bool {
    |row: PendingExpenseRow<Text>|
        row.status == PendingStatus::Pending && fits_filters(filters, row)
}

/// The purchases that a summary reports apart, in one currency.
pub open spec fn awaiting_in(filters: Filters<Text>, currency: Text) -> spec_fn(
    PendingExpenseRow<Text>,
) -> bool {
    |row: PendingExpenseRow<Text>|
        row.status == PendingStatus::Pending && fits_filters(filters, row) && row.currency
            == currency
}

proof fn lemma_same_awaiting(ledger: Ledger, filters: Filters<Text>)
    requires
        ledger::sound(ledger),
        query::checked_filters(filters) is Ok,
    ensures
        ledger.pending_expenses.filter(pending_query::awaits(filters))
            == ledger.pending_expenses.filter(awaiting(filters)),
{
    let left = pending_query::awaits(filters);
    let right = awaiting(filters);
    assert forall|i: int| 0 <= i < ledger.pending_expenses.len() implies left(
        #[trigger] ledger.pending_expenses[i],
    ) == right(ledger.pending_expenses[i]) by {
        lemma_fits_filters(ledger, filters, Some(PendingStatus::Pending), i);
    }
    lemma_same_choice(ledger.pending_expenses, left, right);
}

proof fn lemma_currency_sums(
    rows: Seq<PendingExpenseRow<Text>>,
    filters: Filters<Text>,
    currency: Text,
)
    ensures
        pending_query::currency_total(rows.filter(awaiting(filters)), currency) == amounts(
            rows.filter(awaiting_in(filters, currency)),
        ),
        pending_query::currency_count(rows.filter(awaiting(filters)), currency) == rows.filter(
            awaiting_in(filters, currency),
        ).len(),
    decreases rows.len(),
{
    reveal(Seq::filter);
    if rows.len() > 0 {
        let front = rows.drop_last();
        let last = rows.last();
        lemma_currency_sums(front, filters, currency);
        let all = front.filter(awaiting(filters));
        let some = front.filter(awaiting_in(filters, currency));
        if awaiting(filters)(last) {
            assert(all.push(last).drop_last() =~= all);
            assert(some.push(last).drop_last() =~= some);
        }
    }
}

proof fn lemma_currency_summaries(rows: Seq<PendingExpenseRow<Text>>, currencies: Seq<Text>)
    requires
        pending_query::currency_summaries(rows, currencies) is Ok,
    ensures
        ({
            let summaries = pending_query::currency_summaries(rows, currencies)->Ok_0;
            &&& summaries.len() == currencies.len()
            &&& forall|k: int|
                0 <= k < summaries.len() ==> pending_query::currency_summary(rows, currencies[k])
                    == Ok::<PendingCurrencySummary<Text>, ErrorView>(#[trigger] summaries[k])
        }),
    decreases currencies.len(),
{
    if currencies.len() > 0 {
        let front = currencies.drop_last();
        lemma_currency_summaries(rows, front);
        let summaries = pending_query::currency_summaries(rows, currencies)->Ok_0;
        let earlier = pending_query::currency_summaries(rows, front)->Ok_0;
        assert forall|k: int| 0 <= k < summaries.len() implies pending_query::currency_summary(
            rows,
            currencies[k],
        ) == Ok::<PendingCurrencySummary<Text>, ErrorView>(#[trigger] summaries[k]) by {
            if k < earlier.len() {
                assert(summaries[k] == earlier[k]);
                assert(front[k] == currencies[k]);
            }
        }
    }
}

/// A summary counts the purchases that await confirmation and fit what it is about, and lists each
/// of their currencies, once and by name, and no other; the sum and the number of a currency are
/// those of the purchases in it. None of them adds to the sums in CNY.
pub proof fn law_summaries_report_what_is_awaited(ledger: Ledger, filters: Filters<Text>)
    requires
        ledger::sound(ledger),
        summary::summarized(ledger, filters) is Ok,
    ensures
        ({
            let answer = summary::summarized(ledger, filters)->Ok_0;
            let listed = answer.pending_by_currency;
            let rows = ledger.pending_expenses;
            &&& answer.pending_count == rows.filter(awaiting(filters)).len()
            &&& forall|j: int, k: int|
                0 <= j < k < listed.len() ==> text::before(
                    (#[trigger] listed[j]).currency,
                    (#[trigger] listed[k]).currency,
                )
            &&& forall|k: int|
                0 <= k < listed.len() ==> {
                    let item = #[trigger] listed[k];
                    let found = rows.filter(awaiting_in(filters, item.currency));
                    &&& found.len() > 0
                    &&& item.count == found.len()
                    &&& item.amount == amount_text(item.currency, amounts(found))
                }
            &&& forall|i: int|
                0 <= i < rows.len() && (#[trigger] rows[i]).status == PendingStatus::Pending
                    && fits_filters(filters, rows[i]) ==> exists|k: int|
                    0 <= k < listed.len() && (#[trigger] listed[k]).currency == rows[i].currency
        }),
{
    lemma_same_awaiting(ledger, filters);
    let listed = summary::summarized(ledger, filters)->Ok_0.pending_by_currency;
    let rows = ledger.pending_expenses;
    let pick = awaiting(filters);
    let awaited = rows.filter(pick);
    let currencies = pending_query::currencies(awaited);
    order::law_distinct_texts(currencies);
    let names = order::distinct(currencies);
    lemma_currency_summaries(awaited, names);
    assert forall|k: int| 0 <= k < listed.len() implies (#[trigger] listed[k]).currency
        == names[k] by {
        assert(pending_query::currency_summary(awaited, names[k]) == Ok::<
            PendingCurrencySummary<Text>,
            ErrorView,
        >(listed[k]));
    }
    assert forall|j: int, k: int| 0 <= j < k < listed.len() implies text::before(
        (#[trigger] listed[j]).currency,
        (#[trigger] listed[k]).currency,
    ) by {
        assert(text::before(names[j], names[k]));
    }
    assert forall|k: int| 0 <= k < listed.len() implies {
        let item = #[trigger] listed[k];
        let found = rows.filter(awaiting_in(filters, item.currency));
        &&& found.len() > 0
        &&& item.count == found.len()
        &&& item.amount == amount_text(item.currency, amounts(found))
    } by {
        let item = listed[k];
        let currency = names[k];
        assert(pending_query::currency_summary(awaited, currency) == Ok::<
            PendingCurrencySummary<Text>,
            ErrorView,
        >(item));
        lemma_currency_sums(rows, filters, currency);
        pending_query::lemma_currency_total(awaited, currency);
        law_currencies(currency);
        assert(names.contains(names[k]));
        assert(currencies.contains(currency));
        let m = choose|m: int| 0 <= m < currencies.len() && currencies[m] == currency;
        rows.lemma_filter_pred(pick, m);
        assert(awaited.contains(awaited[m]));
        rows.lemma_filter_contains_rev(pick, awaited[m]);
        let i = choose|i: int| 0 <= i < rows.len() && rows[i] == awaited[m];
        rows.lemma_filter_contains(awaiting_in(filters, currency), i);
    }
    assert forall|i: int|
        0 <= i < rows.len() && (#[trigger] rows[i]).status == PendingStatus::Pending
            && fits_filters(filters, rows[i]) implies exists|k: int|
        0 <= k < listed.len() && (#[trigger] listed[k]).currency == rows[i].currency by {
        rows.lemma_filter_contains(pick, i);
        let m = choose|m: int| 0 <= m < awaited.len() && awaited[m] == rows[i];
        assert(currencies[m] == rows[i].currency);
        assert(currencies.contains(rows[i].currency));
        assert(names.contains(rows[i].currency));
        let k = choose|k: int| 0 <= k < names.len() && names[k] == rows[i].currency;
        assert(listed[k].currency == names[k]);
    }
}

/// A command for a summary reports the purchases that await confirmation and fit what the command
/// gives.
pub proof fn law_summary_commands_report_what_is_awaited(
    before: Ledger,
    filter: FilterArgs,
    today: Text,
    stamp: Stamp<Text>,
    after: Ledger,
    result: Result<Output>,
)
    requires
        ledger::sound(before),
        command::executed(before, Command::Summary { filter }, today, stamp, after, result),
        result is Ok,
    ensures
        result->Ok_0 is Summary,
        ({
            let answer = result->Ok_0->Summary_summary.deep_view();
            let filters = list_laws::given_filters(filter, None, false, 50, 0);
            let rows = before.pending_expenses;
            &&& answer.pending_count == rows.filter(awaiting(filters)).len()
            &&& forall|k: int|
                0 <= k < answer.pending_by_currency.len() ==> {
                    let item = #[trigger] answer.pending_by_currency[k];
                    let found = rows.filter(awaiting_in(filters, item.currency));
                    &&& item.count == found.len()
                    &&& item.amount == amount_text(item.currency, amounts(found))
                }
            &&& forall|i: int|
                0 <= i < rows.len() && (#[trigger] rows[i]).status == PendingStatus::Pending
                    && fits_filters(filters, rows[i]) ==> exists|k: int|
                    0 <= k < answer.pending_by_currency.len() && (
                    #[trigger] answer.pending_by_currency[k]).currency == rows[i].currency
        }),
{
    let filters = list_laws::given_filters(filter, None, false, 50, 0);
    law_summaries_report_what_is_awaited(before, filters);
}

/// A request id that has served to record one purchase is refused for another: for one that differs
/// in its currency, amount, date, time, category, merchant, note or channel.
pub proof fn law_different_purchases_conflict(
    before: Ledger,
    first: NewPendingExpense<Text>,
    second: NewPendingExpense<Text>,
    request_id: Text,
    stamp: Stamp<Text>,
    later: Stamp<Text>,
)
    requires
        pending::pending_added(before, first, Some(request_id), stamp).1 is Ok,
        entry_laws::is_new_request(before, Some(request_id)),
        first.currency != second.currency || first.date != second.date
            || entry_laws::kept_optional_time(first.occurred_at) != entry_laws::kept_optional_time(
            second.occurred_at,
        ) || first.category != second.category || first.merchant != second.merchant || first.note
            != second.note || first.channel != second.channel || foreign::stored_amount(
            first.currency,
            first.amount,
        ) != foreign::stored_amount(second.currency, second.amount),
    ensures
        ({
            let after = pending::pending_added(before, first, Some(request_id), stamp).0;
            let repeated = pending::pending_added(after, second, Some(request_id), later);
            repeated.0 == after && repeated.1 is Err
        }),
{
    let after = pending::pending_added(before, first, Some(request_id), stamp).0;
    let kept = pending::checked_new(first, Some(request_id))->Ok_0.0;
    let operation = Operation::PendingAdd { input: kept };
    assert(after.requests.len() == before.requests.len() + 1 && after.requests.drop_last()
        == before.requests && after.requests.last().request_id == request_id
        && after.requests.last().operation == operation) by {
        entry_laws::lemma_new_request(before, Some(request_id));
        assert(after.requests.drop_last() =~= before.requests);
    }
    lemma_request_is_last(before, after, request_id);
    if pending::checked_new(second, Some(request_id)) is Ok {
        let other = pending::checked_new(second, Some(request_id))->Ok_0.0;
        entry_laws::lemma_agree(first.date, first.occurred_at);
        entry_laws::lemma_agree(second.date, second.occurred_at);
        foreign::law_foreign_amounts_round_trip(first.currency, first.amount);
        foreign::law_foreign_amounts_round_trip(second.currency, second.amount);
        assert(kept != other);
        assert(ledger::earlier_reply(
            after,
            Some(request_id),
            Operation::PendingAdd { input: other },
        ) is Err);
    }
}

proof fn lemma_request_is_last(before: Ledger, after: Ledger, request_id: Text)
    requires
        entry_laws::is_new_request(before, Some(request_id)),
        after.requests.len() == before.requests.len() + 1,
        after.requests.drop_last() == before.requests,
        after.requests.last().request_id == request_id,
    ensures
        text::position(ledger::request_ids(after.requests), request_id) == Some(
            before.requests.len() as int,
        ),
{
    let ids = ledger::request_ids(before.requests);
    text::lemma_position(ids, request_id);
    if text::position(ids, request_id) is Some {
        assert(before.requests[text::position(ids, request_id)->0].request_id == request_id);
    }
    text::lemma_position_push(ids, request_id, request_id);
    assert forall|i: int| 0 <= i < before.requests.len() implies after.requests[i]
        == before.requests[i] by {
        assert(after.requests.drop_last()[i] == after.requests[i]);
    }
    assert(ledger::request_ids(after.requests) =~= ids.push(request_id));
}

/// A request id that has served for one confirmation is refused for another: of another purchase,
/// with another amount or another day.
pub proof fn law_different_confirmations_conflict(
    before: Ledger,
    id: Text,
    first: ConfirmPendingExpense<Text>,
    other_id: Text,
    second: ConfirmPendingExpense<Text>,
    request_id: Text,
    stamp: Stamp<Text>,
    later: Stamp<Text>,
)
    requires
        pending::pending_confirmed(before, id, first, Some(request_id), stamp).1 is Ok,
        entry_laws::is_new_request(before, Some(request_id)),
        ledger::sound(before),
        id != other_id || first.amount != second.amount || first.posted_date != second.posted_date,
    ensures
        ({
            let after = pending::pending_confirmed(before, id, first, Some(request_id), stamp).0;
            let repeated = pending::pending_confirmed(
                after,
                other_id,
                second,
                Some(request_id),
                later,
            );
            repeated.0 == after && repeated.1 is Err
        }),
{
    let after = pending::pending_confirmed(before, id, first, Some(request_id), stamp).0;
    entry_laws::lemma_new_request(before, Some(request_id));
    text::lemma_position(ledger::pending_ids(before.pending_expenses), id);
    assert(after.requests.drop_last() =~= before.requests);
    lemma_request_is_last(before, after, request_id);
}

/// A request id that has served to cancel a purchase, or to put it off, is refused for another
/// purchase, for another day, and for the other of the two.
pub proof fn law_different_changes_conflict(
    before: Ledger,
    id: Text,
    first: Option<Text>,
    other_id: Text,
    second: Option<Text>,
    request_id: Text,
    now: Text,
    later: Text,
)
    requires
        pending::pending_changed(before, id, first, Some(request_id), now).1 is Ok,
        entry_laws::is_new_request(before, Some(request_id)),
        id != other_id || first != second,
    ensures
        ({
            let after = pending::pending_changed(before, id, first, Some(request_id), now).0;
            let repeated = pending::pending_changed(
                after,
                other_id,
                second,
                Some(request_id),
                later,
            );
            repeated.0 == after && repeated.1 is Err
        }),
{
    let after = pending::pending_changed(before, id, first, Some(request_id), now).0;
    entry_laws::lemma_new_request(before, Some(request_id));
    assert(after.requests.drop_last() =~= before.requests);
    lemma_request_is_last(before, after, request_id);
}

} // verus!
