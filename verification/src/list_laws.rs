//! What lists, summaries and details are for: which transactions they are about, that none of them
//! is missing, and what their sums are.
use vstd::prelude::*;

use crate::accounting;
use crate::calendar;
use crate::command;
use crate::command::{Command, FilterArgs};
use crate::entry_laws;
use crate::error::{ErrorView, Result};
use crate::ledger;
use crate::ledger::{Ledger, Stamp};
use crate::models;
use crate::models::{
    Filters, Kind, ListResult, NewTransaction, TransactionRecord, TransactionRow,
};
use crate::money;
use crate::order;
use crate::order::Order;
use crate::purchase_laws;
use crate::query;
use crate::query::ByTime;
use crate::report::Output;
use crate::soundness;
use crate::store;
use crate::summary;
use crate::text;
use crate::text::Text;

verus! {

/// Whether a text holds another somewhere, character by character.
pub open spec fn has_part(whole: Text, part: Text) -> bool {
    exists|at: int|
        0 <= at && at + part.len() <= whole.len() && #[trigger] whole.subrange(
            at,
            at + part.len(),
        ) == part
}

/// Whether one date is before another in the calendar.
pub open spec fn is_earlier(left: Text, right: Text) -> bool {
    calendar::day_before(calendar::named_day(left), calendar::named_day(right))
}

/// Whether a date lies in a month and between two days, as far as they are given.
pub open spec fn lies_in(
    month: Option<Text>,
    from: Option<Text>,
    to: Option<Text>,
    date: Text,
) -> bool {
    &&& month is Some ==> date.take(7) == month->0
    &&& from is Some ==> !is_earlier(date, from->0)
    &&& to is Some ==> !is_earlier(to->0, date)
}

/// Whether a transaction is of a category: its own, or for a refund that of its original.
pub open spec fn is_of_category(
    ledger: Ledger,
    row: TransactionRow<Text>,
    category: Text,
) -> bool {
    ||| row.kind != Kind::Refund && row.category == Some(category)
    ||| row.kind == Kind::Refund && exists|i: int|
        0 <= i < ledger.transactions.len() && row.original_id == Some(
            (#[trigger] ledger.transactions[i]).id,
        ) && ledger.transactions[i].category == Some(category)
}

/// Whether a transaction holds a search text: in its id, its note, its channel, or in the merchant
/// of the foreign purchase that it settles.
pub open spec fn is_found_by(ledger: Ledger, row: TransactionRow<Text>, search: Text) -> bool {
    ||| has_part(row.id, search)
    ||| row.note is Some && has_part(row.note->0, search)
    ||| row.channel is Some && has_part(row.channel->0, search)
    ||| exists|i: int|
        0 <= i < ledger.pending_expenses.len() && (
        #[trigger] ledger.pending_expenses[i]).transaction_id == Some(row.id)
            && ledger.pending_expenses[i].merchant is Some && has_part(
            ledger.pending_expenses[i].merchant->0,
            search,
        )
}

/// Whether a transaction is one that a list or a summary is about.
pub open spec fn is_wanted(
    ledger: Ledger,
    filters: Filters<Text>,
    include_voided: bool,
    row: TransactionRow<Text>,
) -> bool {
    &&& row.voided ==> include_voided
    &&& lies_in(filters.month, filters.from, filters.to, row.date)
    &&& filters.kind is Some ==> row.kind == filters.kind->0
    &&& filters.category is Some ==> is_of_category(ledger, row, filters.category->0)
    &&& filters.keyword is Some ==> is_found_by(ledger, row, filters.keyword->0)
}

/// The transactions that a list or a summary is about.
pub open spec fn wanted(
    ledger: Ledger,
    filters: Filters<Text>,
    include_voided: bool,
) -> spec_fn(TransactionRow<Text>) -> bool {
    |row: TransactionRow<Text>| is_wanted(ledger, filters, include_voided, row)
}

/// Dates are sorted as texts exactly as they are in the calendar.
pub proof fn law_dates_are_compared_as_days(left: Text, right: Text)
    requires
        calendar::is_date(left),
        calendar::is_date(right),
    ensures
        text::before(left, right) <==> is_earlier(left, right),
{
    let low = calendar::named_day(left);
    let high = calendar::named_day(right);
    calendar::lemma_named_day(left);
    calendar::lemma_named_day(right);
    text::lemma_before_irreflexive(left);
    if calendar::day_before(low, high) {
        calendar::law_dates_sort_like_days(low, high);
    } else if calendar::day_before(high, low) {
        calendar::law_dates_sort_like_days(high, low);
        text::lemma_before_asymmetric(right, left);
    } else {
        assert(low == high);
    }
}

/// A text occurs in another exactly where it stands there character by character.
pub proof fn law_search_is_literal(whole: Text, part: Text)
    ensures
        text::occurs(whole, part) <==> has_part(whole, part),
        part.len() == 0 ==> has_part(whole, part),
{
    if text::occurs(whole, part) {
        let i = choose|i: int|
            0 <= i <= whole.len() - part.len() && #[trigger] whole.subrange(i, i + part.len())
                == part;
        assert(0 <= i && i + part.len() <= whole.len());
    }
    if has_part(whole, part) {
        let at = choose|at: int|
            0 <= at && at + part.len() <= whole.len() && #[trigger] whole.subrange(
                at,
                at + part.len(),
            ) == part;
        assert(0 <= at <= whole.len() - part.len());
    }
    if part.len() == 0 {
        assert(whole.subrange(0, 0 + part.len() as int) =~= part);
    }
}

pub(crate) proof fn lemma_period(filters: Filters<Text>, date: Text)
    requires
        query::checked_filters(filters) is Ok,
        calendar::is_date(date),
    ensures
        query::in_period(filters, date) <==> lies_in(
            filters.month,
            filters.from,
            filters.to,
            date,
        ),
{
    if let Some(from) = filters.from {
        law_dates_are_compared_as_days(date, from);
    }
    if let Some(to) = filters.to {
        law_dates_are_compared_as_days(to, date);
    }
    if let Some(month) = filters.month {
        lemma_month(month);
        assert(date.len() == 10);
    }
}

/// A month that is accepted has seven characters.
proof fn lemma_month(month: Text)
    requires
        query::checked_month(Some(month)) is Ok,
    ensures
        month.len() == 7,
{
    reveal_strlit("-01");
    assert((month + "-01"@).len() == 10);
}

pub(crate) proof fn lemma_mentions(text: Option<Text>, keyword: Text)
    ensures
        query::mentions(text, keyword) <==> (text is Some && has_part(text->0, keyword))
            || keyword.len() == 0,
{
    law_search_is_literal(
        match text {
            Some(text) => text,
            None => Seq::empty(),
        },
        keyword,
    );
    if text is None && has_part(Seq::empty(), keyword) {
        let at = choose|at: int|
            0 <= at && at + keyword.len() <= Seq::<char>::empty().len()
                && #[trigger] Seq::<char>::empty().subrange(at, at + keyword.len()) == keyword;
    }
}

/// What the code asks of a transaction is what the query is about.
proof fn lemma_wanted(ledger: Ledger, filters: Filters<Text>, include_voided: bool, place: int)
    requires
        ledger::sound(ledger),
        query::checked_filters(filters) is Ok,
        0 <= place < ledger.transactions.len(),
    ensures
        query::is_asked_for(ledger, filters, include_voided, ledger.transactions[place])
            <==> is_wanted(ledger, filters, include_voided, ledger.transactions[place]),
{
    let row = ledger.transactions[place];
    assert(ledger::transaction_is_sound(ledger, row));
    lemma_period(filters, row.date);
    if let Some(category) = filters.category {
        lemma_category(ledger, place, category);
    }
    if let Some(keyword) = filters.keyword {
        law_search_is_literal(row.id, keyword);
        lemma_mentions(row.note, keyword);
        lemma_mentions(row.channel, keyword);
        lemma_mentions(query::merchant_of(ledger.pending_expenses, row.id), keyword);
        let links = ledger::links(ledger.pending_expenses);
        text::lemma_position(links, Some(row.id));
        if let Some(i) = text::position(links, Some(row.id)) {
            assert(ledger.pending_expenses[i].transaction_id == Some(row.id));
            assert forall|j: int|
                0 <= j < ledger.pending_expenses.len() && (
                #[trigger] ledger.pending_expenses[j]).transaction_id == Some(
                    row.id,
                ) implies j == i by {
                assert(links[j] == Some(row.id));
            }
        } else {
            assert forall|j: int| 0 <= j < ledger.pending_expenses.len() implies (
            #[trigger] ledger.pending_expenses[j]).transaction_id != Some(row.id) by {
                assert(links[j] == ledger.pending_expenses[j].transaction_id);
            }
        }
    }
}

/// The category that a transaction of a sound ledger belongs to.
proof fn lemma_category(ledger: Ledger, place: int, category: Text)
    requires
        ledger::sound(ledger),
        0 <= place < ledger.transactions.len(),
    ensures
        ledger::category_of(ledger, ledger.transactions[place]) == Some(category)
            <==> is_of_category(ledger, ledger.transactions[place], category),
{
    let row = ledger.transactions[place];
    assert(ledger::transaction_is_sound(ledger, row));
    if row.kind == Kind::Refund {
        let original = row.original_id->0;
        let ids = ledger::ids(ledger.transactions);
        text::lemma_position(ids, original);
        let i = text::position(ids, original)->0;
        assert(ledger.transactions[i].id == original);
        assert forall|j: int|
            0 <= j < ledger.transactions.len() && row.original_id == Some(
                (#[trigger] ledger.transactions[j]).id,
            ) implies j == i by {
            assert(ids[j] == original);
        }
    }
}

proof fn lemma_same_wanted(ledger: Ledger, filters: Filters<Text>, include_voided: bool)
    requires
        ledger::sound(ledger),
        query::checked_filters(filters) is Ok,
    ensures
        ledger.transactions.filter(query::asks_for(ledger, filters, include_voided))
            == ledger.transactions.filter(wanted(ledger, filters, include_voided)),
{
    let asked = query::asks_for(ledger, filters, include_voided);
    let right = wanted(ledger, filters, include_voided);
    assert forall|i: int| 0 <= i < ledger.transactions.len() implies asked(
        #[trigger] ledger.transactions[i],
    ) == right(ledger.transactions[i]) by {
        lemma_wanted(ledger, filters, include_voided, i);
    }
    accounting::lemma_same_row_choice(ledger.transactions, asked, right);
}

/// Whether a reported transaction is one of the ledger that is wanted.
pub open spec fn is_wanted_record(
    ledger: Ledger,
    filters: Filters<Text>,
    include_voided: bool,
    record: TransactionRecord<Text>,
) -> bool {
    exists|i: int|
        0 <= i < ledger.transactions.len() && entry_laws::holds(
            #[trigger] ledger.transactions[i],
            record,
        ) && is_of_category(ledger, ledger.transactions[i], record.category) && is_wanted(
            ledger,
            filters,
            include_voided,
            ledger.transactions[i],
        )
}

/// Whether one transaction is listed no later than another: it is of a later day, or of the same
/// day and was recorded later, or has the greater id where that is the same too.
pub open spec fn is_newer(left: TransactionRecord<Text>, right: TransactionRecord<Text>) -> bool {
    ||| is_earlier(right.date, left.date)
    ||| left.date == right.date && text::before(right.created_at, left.created_at)
    ||| left.date == right.date && left.created_at == right.created_at && !text::before(
        left.id,
        right.id,
    )
}

/// A list is refused exactly where its month or its days are not of the calendar or not in order,
/// or where the page is not one.
pub proof fn law_lists_are_answered(ledger: Ledger, filters: Filters<Text>)
    requires
        ledger::sound(ledger),
        ledger.transactions.len() <= i64::MAX,
    ensures
        query::listed(ledger, filters) is Ok <==> {
            &&& period_is_valid(filters.month, filters.from, filters.to)
            &&& 0 <= filters.limit <= 1000
            &&& filters.offset >= 0
        },
        query::listed(ledger, filters) is Err ==> query::listed(ledger, filters)->Err_0.code
            == "INVALID_INPUT"@,
{
    lemma_valid_period(filters);
    let asked = query::asks_for(ledger, filters, filters.include_voided);
    let rows = ledger.transactions;
    let chosen = rows.filter(asked);
    rows.lemma_filter_len(asked);
    let found = order::sorted::<TransactionRow, ByTime>(chosen).reverse();
    order::law_sorting_orders_all_records::<TransactionRow, ByTime>(chosen);
    if query::checked_filters(filters) is Ok && query::checked_page(
        filters.limit,
        filters.offset,
    ) is Ok {
        let limit = query::page_size(filters.limit);
        let shown = order::page(found, filters.offset as int, limit as int);
        assert forall|k: int| 0 <= k < shown.len() implies ledger::record_of(
            ledger,
            #[trigger] shown[k],
        ) is Some by {
            lemma_shown_is_a_row(ledger, asked, filters.offset as int, limit as int, k);
        }
        accounting::lemma_records_exist(ledger, shown);
    }
}

/// Whether a month and two days, as far as they are given, are of the calendar and in order.
pub open spec fn period_is_valid(
    month: Option<Text>,
    from: Option<Text>,
    to: Option<Text>,
) -> bool {
    &&& month is Some ==> month->0.len() == 7 && calendar::is_date(
        month->0 + seq!['-', '0', '1'],
    )
    &&& from is Some ==> calendar::is_date(from->0)
    &&& to is Some ==> calendar::is_date(to->0)
    &&& from is Some && to is Some ==> !is_earlier(to->0, from->0)
}

pub(crate) proof fn lemma_valid_period(filters: Filters<Text>)
    ensures
        query::checked_filters(filters) is Ok <==> period_is_valid(
            filters.month,
            filters.from,
            filters.to,
        ),
{
    if filters.from is Some && filters.to is Some && calendar::is_date(filters.from->0)
        && calendar::is_date(filters.to->0) {
        law_dates_are_compared_as_days(filters.to->0, filters.from->0);
    }
    if let Some(month) = filters.month {
        reveal_strlit("-01");
        assert("-01"@ =~= seq!['-', '0', '1']);
        if calendar::is_date(month + "-01"@) {
            lemma_seven_bytes(month);
        }
    }
}

/// A month of seven characters that begins a date has seven bytes.
proof fn lemma_seven_bytes(month: Text)
    requires
        calendar::is_date(month + "-01"@),
    ensures
        month.len() == 7,
        vstd::utf8::encode_utf8(month).len() == 7,
{
    reveal_strlit("-01");
    let date = month + "-01"@;
    assert(date.len() == 10);
    assert(vstd::utf8::is_ascii_chars(month)) by {
        assert forall|i: int| 0 <= i < month.len() implies '\0' <= #[trigger] month[i] <= '\u{7f}' by {
            assert(month[i] == date[i]);
        }
    }
    vstd::utf8::is_ascii_chars_encode_utf8(month);
}

/// What stands on a page is a row of the table that was asked for.
proof fn lemma_shown_is_a_row(
    ledger: Ledger,
    asked: spec_fn(TransactionRow<Text>) -> bool,
    offset: int,
    limit: int,
    k: int,
)
    requires
        ledger::sound(ledger),
        offset >= 0,
        limit >= 0,
        0 <= k < order::page(
            order::sorted::<TransactionRow, ByTime>(ledger.transactions.filter(asked)).reverse(),
            offset,
            limit,
        ).len(),
    ensures
        ({
            let shown = order::page(
                order::sorted::<TransactionRow, ByTime>(
                    ledger.transactions.filter(asked),
                ).reverse(),
                offset,
                limit,
            );
            &&& ledger.transactions.contains(shown[k])
            &&& asked(shown[k])
            &&& ledger::record_of(ledger, shown[k]) is Some
        }),
{
    broadcast use vstd::seq_lib::group_to_multiset_ensures;

    let rows = ledger.transactions;
    let chosen = rows.filter(asked);
    let ordered = order::sorted::<TransactionRow, ByTime>(chosen);
    order::law_sorting_orders_all_records::<TransactionRow, ByTime>(chosen);
    let found = ordered.reverse();
    let shown = order::page(found, offset, limit);
    let from = if offset < found.len() {
        offset
    } else {
        found.len() as int
    };
    assert(shown[k] == found[from + k]);
    assert(shown[k] == ordered[ordered.len() - 1 - from - k]);
    assert(ordered.contains(shown[k]));
    assert(ordered.to_multiset().count(shown[k]) > 0);
    assert(chosen.contains(shown[k]));
    let m = choose|m: int| 0 <= m < chosen.len() && chosen[m] == shown[k];
    rows.lemma_filter_pred(asked, m);
    rows.lemma_filter_contains_rev(asked, shown[k]);
    let i = choose|i: int| 0 <= i < rows.len() && rows[i] == shown[k];
    accounting::law_every_transaction_has_a_category(ledger);
    assert(ledger::category_of(ledger, ledger.transactions[i]) is Some);
}

/// Every transaction on a page is one of the ledger that the list is about, the total is the number
/// of all of those, and the page goes from the newest to the oldest.
pub proof fn law_lists_hold_what_is_wanted(ledger: Ledger, filters: Filters<Text>)
    requires
        ledger::sound(ledger),
        query::listed(ledger, filters) is Ok,
    ensures
        ({
            let page = query::listed(ledger, filters)->Ok_0;
            let limit = if filters.limit == 0 {
                50
            } else {
                filters.limit as int
            };
            &&& page.limit == limit
            &&& page.offset == filters.offset
            &&& page.total == ledger.transactions.filter(
                wanted(ledger, filters, filters.include_voided),
            ).len()
            &&& page.items.len() == if page.total <= filters.offset {
                0
            } else if page.total - filters.offset <= limit {
                page.total - filters.offset
            } else {
                limit
            }
            &&& forall|k: int|
                0 <= k < page.items.len() ==> is_wanted_record(
                    ledger,
                    filters,
                    filters.include_voided,
                    #[trigger] page.items[k],
                )
            &&& forall|j: int, k: int|
                0 <= j < k < page.items.len() ==> is_newer(
                    #[trigger] page.items[j],
                    #[trigger] page.items[k],
                )
        }),
{
    let page = query::listed(ledger, filters)->Ok_0;
    let asked = query::asks_for(ledger, filters, filters.include_voided);
    lemma_same_wanted(ledger, filters, filters.include_voided);
    let chosen = ledger.transactions.filter(asked);
    let ordered = order::sorted::<TransactionRow, ByTime>(chosen);
    order::law_sorting_orders_all_records::<TransactionRow, ByTime>(chosen);
    let shown = order::page(ordered.reverse(), filters.offset as int, page.limit as int);
    soundness::lemma_records(ledger, shown);
    assert forall|k: int| 0 <= k < page.items.len() implies is_wanted_record(
        ledger,
        filters,
        filters.include_voided,
        #[trigger] page.items[k],
    ) by {
        lemma_shown_is_a_row(ledger, asked, filters.offset as int, page.limit as int, k);
        lemma_record(ledger, shown[k], page.items[k]);
        let i = choose|i: int| 0 <= i < ledger.transactions.len() && ledger.transactions[i] == shown[k];
        lemma_wanted(ledger, filters, filters.include_voided, i);
        assert(entry_laws::holds(ledger.transactions[i], page.items[k]));
    }
    accounting::law_lists_are_in_order(ledger, filters);
    assert forall|j: int, k: int| 0 <= j < k < page.items.len() implies is_newer(
        #[trigger] page.items[j],
        #[trigger] page.items[k],
    ) by {
        let left = page.items[j];
        let right = page.items[k];
        lemma_shown_is_a_row(ledger, asked, filters.offset as int, page.limit as int, j);
        lemma_shown_is_a_row(ledger, asked, filters.offset as int, page.limit as int, k);
        lemma_record(ledger, shown[j], left);
        lemma_record(ledger, shown[k], right);
        law_dates_are_compared_as_days(left.date, right.date);
        law_dates_are_compared_as_days(right.date, left.date);
        assert(!order::key_before(accounting::time_key(left), accounting::time_key(right)));
        text::lemma_before_total(left.date, right.date);
        text::lemma_before_total(left.created_at, right.created_at);
    }
}

/// A reported row says what the row holds, and has a valid date.
pub(crate) proof fn lemma_record(ledger: Ledger, row: TransactionRow<Text>, record: TransactionRecord<Text>)
    requires
        ledger::sound(ledger),
        ledger.transactions.contains(row),
        ledger::record_of(ledger, row) == Some(record),
    ensures
        entry_laws::holds(row, record),
        is_of_category(ledger, row, record.category),
        calendar::is_date(record.date),
{
    let i = choose|i: int| 0 <= i < ledger.transactions.len() && ledger.transactions[i] == row;
    assert(ledger::transaction_is_sound(ledger, ledger.transactions[i]));
    lemma_category(ledger, i, record.category);
}

/// Every transaction that a list is about has a place in it, and every page that reaches to that
/// place shows it there.
pub proof fn law_everything_wanted_is_listed(ledger: Ledger, filters: Filters<Text>, i: int) -> (
    place: int)
    requires
        ledger::sound(ledger),
        ledger.transactions.len() <= i64::MAX,
        period_is_valid(filters.month, filters.from, filters.to),
        0 <= i < ledger.transactions.len(),
        is_wanted(ledger, filters, filters.include_voided, ledger.transactions[i]),
    ensures
        0 <= place < ledger.transactions.filter(
            wanted(ledger, filters, filters.include_voided),
        ).len(),
        forall|offset: i64, limit: i64|
            0 <= offset <= place < offset + limit && limit <= 1000 ==> {
                let page = #[trigger] query::listed(ledger, Filters { offset, limit, ..filters });
                &&& page is Ok
                &&& page->Ok_0.items.len() > place - offset
                &&& entry_laws::holds(ledger.transactions[i], page->Ok_0.items[place - offset])
            },
{
    broadcast use vstd::seq_lib::group_to_multiset_ensures;

    let rows = ledger.transactions;
    let row = rows[i];
    lemma_valid_period(filters);
    lemma_same_wanted(ledger, filters, filters.include_voided);
    lemma_wanted(ledger, filters, filters.include_voided, i);
    let asked = query::asks_for(ledger, filters, filters.include_voided);
    let chosen = rows.filter(asked);
    rows.lemma_filter_contains(asked, i);
    rows.lemma_filter_len(asked);
    let ordered = order::sorted::<TransactionRow, ByTime>(chosen);
    order::law_sorting_orders_all_records::<TransactionRow, ByTime>(chosen);
    assert(chosen.to_multiset().count(row) > 0);
    assert(ordered.contains(row));
    let m = choose|m: int| 0 <= m < ordered.len() && ordered[m] == row;
    let found = ordered.reverse();
    let place = ordered.len() - 1 - m;
    assert(found[place] == row);
    assert forall|offset: i64, limit: i64|
        0 <= offset <= place < offset + limit && limit <= 1000 implies {
        let page = #[trigger] query::listed(ledger, Filters { offset, limit, ..filters });
        &&& page is Ok
        &&& page->Ok_0.items.len() > place - offset
        &&& entry_laws::holds(ledger.transactions[i], page->Ok_0.items[place - offset])
    } by {
        let these = Filters { offset, limit, ..filters };
        law_lists_are_answered(ledger, these);
        let other = query::asks_for(ledger, these, filters.include_voided);
        accounting::lemma_same_row_choice(rows, other, asked);
        let shown = order::page(found, offset as int, limit as int);
        soundness::lemma_records(ledger, shown);
        assert(shown[place - offset] == found[place]);
        let items = query::listed(ledger, these)->Ok_0.items;
        assert(ledger::record_of(ledger, shown[place - offset]) == Some(items[place - offset]));
        lemma_record(ledger, row, items[place - offset]);
    }
    place
}

/// The filters that the arguments of a command stand for.
pub open spec fn given_filters(
    args: FilterArgs,
    kind: Option<Kind>,
    include_voided: bool,
    limit: i64,
    offset: i64,
) -> Filters<Text> {
    Filters {
        month: args.month.deep_view(),
        from: args.from.deep_view(),
        to: args.to.deep_view(),
        kind,
        category: args.category.deep_view(),
        keyword: args.search.deep_view(),
        include_voided,
        limit,
        offset,
    }
}

/// A command for a list answers with transactions of the ledger that all lie in the month and
/// between the days given, belong to the category given, are of the kind given and hold the search
/// text given; its total is the number of all such transactions; and every one of them has a place
/// on one of the pages.
pub proof fn law_list_commands_hold_what_they_ask_for(
    before: Ledger,
    filter: FilterArgs,
    kind: Option<String>,
    include_voided: bool,
    limit: i64,
    offset: i64,
    today: Text,
    stamp: Stamp<Text>,
    after: Ledger,
    result: Result<Output>,
)
    requires
        ledger::sound(before),
        command::executed(
            before,
            Command::List { filter, kind, include_voided, limit, offset },
            today,
            stamp,
            after,
            result,
        ),
        result is Ok,
    ensures
        after == before,
        result->Ok_0 is List,
        ({
            let page = result->Ok_0->List_page.deep_view();
            let asked_kind = if kind is None {
                None
            } else if kind->0@ == "expense"@ {
                Some(Kind::Expense)
            } else if kind->0@ == "income"@ {
                Some(Kind::Income)
            } else {
                Some(Kind::Refund)
            };
            let filters = given_filters(filter, asked_kind, include_voided, limit, offset);
            &&& page == query::listed(before, filters)->Ok_0
            &&& page.total == before.transactions.filter(
                wanted(before, filters, include_voided),
            ).len()
            &&& forall|k: int|
                0 <= k < page.items.len() ==> {
                    let item = #[trigger] page.items[k];
                    &&& filter.category is Some ==> item.category == filter.category->0@
                    &&& filter.month is Some ==> item.date.take(7) == filter.month->0@
                    &&& filter.from is Some ==> !is_earlier(item.date, filter.from->0@)
                    &&& filter.to is Some ==> !is_earlier(filter.to->0@, item.date)
                    &&& asked_kind is Some ==> item.kind == asked_kind->0
                    &&& !include_voided ==> !item.voided
                    &&& is_wanted_record(before, filters, include_voided, item)
                }
            &&& forall|j: int, k: int|
                0 <= j < k < page.items.len() ==> is_newer(
                    #[trigger] page.items[j],
                    #[trigger] page.items[k],
                )
        }),
{
    models::law_kind_names_round_trip(Kind::Expense);
    let asked_kind = if kind is None {
        None
    } else if kind->0@ == "expense"@ {
        Some(Kind::Expense)
    } else if kind->0@ == "income"@ {
        Some(Kind::Income)
    } else {
        Some(Kind::Refund)
    };
    let filters = given_filters(filter, asked_kind, include_voided, limit, offset);
    let page = result->Ok_0->List_page.deep_view();
    assert(query::listed(before, filters) == Ok::<
        ListResult<Seq<TransactionRecord<Text>>>,
        ErrorView,
    >(page));
    law_lists_hold_what_is_wanted(before, filters);
    assert forall|k: int| 0 <= k < page.items.len() implies {
        let item = #[trigger] page.items[k];
        &&& filter.category is Some ==> item.category == filter.category->0@
        &&& filter.month is Some ==> item.date.take(7) == filter.month->0@
        &&& filter.from is Some ==> !is_earlier(item.date, filter.from->0@)
        &&& filter.to is Some ==> !is_earlier(filter.to->0@, item.date)
        &&& asked_kind is Some ==> item.kind == asked_kind->0
        &&& !include_voided ==> !item.voided
        &&& is_wanted_record(before, filters, include_voided, item)
    } by {
        let item = page.items[k];
        assert(is_wanted_record(before, filters, include_voided, item));
        let i = choose|i: int|
            0 <= i < before.transactions.len() && entry_laws::holds(
                #[trigger] before.transactions[i],
                item,
            ) && is_of_category(before, before.transactions[i], item.category) && is_wanted(
                before,
                filters,
                include_voided,
                before.transactions[i],
            );
        if let Some(category) = filters.category {
            lemma_category(before, i, category);
            lemma_category(before, i, item.category);
        }
    }
}

/// A command for a list of valid arguments is answered, and only of such.
pub proof fn law_list_commands_are_answered(
    before: Ledger,
    filter: FilterArgs,
    kind: Option<String>,
    include_voided: bool,
    limit: i64,
    offset: i64,
    today: Text,
    stamp: Stamp<Text>,
    after: Ledger,
    result: Result<Output>,
)
    requires
        ledger::sound(before),
        before.transactions.len() <= i64::MAX,
        command::executed(
            before,
            Command::List { filter, kind, include_voided, limit, offset },
            today,
            stamp,
            after,
            result,
        ),
    ensures
        result is Ok <==> {
            &&& period_is_valid(
                filter.month.deep_view(),
                filter.from.deep_view(),
                filter.to.deep_view(),
            )
            &&& 0 <= limit <= 1000
            &&& offset >= 0
            &&& kind is Some ==> kind->0@ == "expense"@ || kind->0@ == "income"@ || kind->0@
                == "refund"@
        },
        result is Err ==> after == before && result->Err_0.deep_view().code == "INVALID_INPUT"@,
{
    if kind is None || models::named_kind(kind->0@) is Ok {
        let asked_kind = if kind is None {
            None
        } else {
            Some(models::named_kind(kind->0@)->Ok_0)
        };
        law_lists_are_answered(
            before,
            given_filters(filter, asked_kind, include_voided, limit, offset),
        );
    }
}

/// The sum of the amounts of the transactions of one kind.
pub open spec fn amounts(rows: Seq<TransactionRow<Text>>, kind: Kind) -> int
    decreases rows.len(),
{
    if rows.len() == 0 {
        0
    } else if rows.last().kind == kind {
        amounts(rows.drop_last(), kind) + rows.last().amount.0
    } else {
        amounts(rows.drop_last(), kind)
    }
}

/// The transactions that a summary is about, in one category.
pub open spec fn wanted_in(
    ledger: Ledger,
    filters: Filters<Text>,
    category: Text,
) -> spec_fn(TransactionRow<Text>) -> bool {
    |row: TransactionRow<Text>|
        is_wanted(ledger, filters, false, row) && is_of_category(ledger, row, category)
}

proof fn lemma_amounts(
    ledger: Ledger,
    rows: Seq<TransactionRow<Text>>,
    kind: Kind,
    category: Text,
    of_category: spec_fn(TransactionRow<Text>) -> bool,
)
    requires
        ledger::records_of(ledger, rows) is Some,
        forall|i: int|
            0 <= i < rows.len() ==> of_category(#[trigger] rows[i]) == (ledger::category_of(
                ledger,
                rows[i],
            ) == Some(category)),
    ensures
        summary::total(ledger::records_of(ledger, rows)->0, kind, None) == amounts(rows, kind),
        summary::total(ledger::records_of(ledger, rows)->0, kind, Some(category)) == amounts(
            rows.filter(of_category),
            kind,
        ),
    decreases rows.len(),
{
    reveal(Seq::filter);
    if rows.len() > 0 {
        let front = rows.drop_last();
        assert forall|i: int| 0 <= i < front.len() implies of_category(#[trigger] front[i]) == (
        ledger::category_of(ledger, front[i]) == Some(category)) by {
            assert(front[i] == rows[i]);
        }
        lemma_amounts(ledger, front, kind, category, of_category);
        let records = ledger::records_of(ledger, rows)->0;
        assert(records.drop_last() =~= ledger::records_of(ledger, front)->0);
        assert(rows.last() == rows[rows.len() - 1]);
        let found = front.filter(of_category);
        if of_category(rows.last()) {
            assert(found.push(rows.last()).drop_last() =~= found);
        }
    }
}

proof fn lemma_two_choices(
    rows: Seq<TransactionRow<Text>>,
    first: spec_fn(TransactionRow<Text>) -> bool,
    second: spec_fn(TransactionRow<Text>) -> bool,
    both: spec_fn(TransactionRow<Text>) -> bool,
)
    requires
        forall|i: int|
            0 <= i < rows.len() ==> both(#[trigger] rows[i]) == (first(rows[i]) && second(rows[i])),
    ensures
        rows.filter(first).filter(second) == rows.filter(both),
    decreases rows.len(),
{
    reveal(Seq::filter);
    if rows.len() > 0 {
        let front = rows.drop_last();
        assert forall|i: int| 0 <= i < front.len() implies both(#[trigger] front[i]) == (first(
            front[i],
        ) && second(front[i])) by {
            assert(front[i] == rows[i]);
        }
        lemma_two_choices(front, first, second, both);
        let last = rows.last();
        assert(last == rows[rows.len() - 1]);
        if first(last) {
            assert(front.filter(first).push(last).drop_last() =~= front.filter(first));
        }
    } else {
        assert(rows.filter(first) =~= rows);
        assert(rows.filter(both) =~= rows);
    }
}

/// A summary counts exactly the transactions in force that it is about; its sums are the sums of
/// their amounts, to the fen; the net expense is the expenses less the refunds, and the balance the
/// income less that.
pub proof fn law_summaries_are_exact(ledger: Ledger, filters: Filters<Text>)
    requires
        ledger::sound(ledger),
        summary::summarized(ledger, filters) is Ok,
    ensures
        ({
            let answer = summary::summarized(ledger, filters)->Ok_0;
            let rows = ledger.transactions.filter(wanted(ledger, filters, false));
            let income = amounts(rows, Kind::Income);
            let expense = amounts(rows, Kind::Expense);
            let refund = amounts(rows, Kind::Refund);
            &&& answer.currency == "CNY"@
            &&& answer.count == rows.len()
            &&& answer.income == money::minor_text(income)
            &&& answer.expense == money::minor_text(expense)
            &&& answer.refund == money::minor_text(refund)
            &&& answer.net_expense == money::minor_text(expense - refund)
            &&& answer.balance == money::minor_text(income - expense + refund)
        }),
{
    lemma_valid_period(filters);
    lemma_same_wanted(ledger, filters, false);
    let rows = ledger.transactions.filter(query::asks_for(ledger, filters, false));
    soundness::lemma_records(ledger, rows);
    let none: spec_fn(TransactionRow<Text>) -> bool = |row: TransactionRow<Text>|
        ledger::category_of(ledger, row) == Some(Seq::<char>::empty());
    lemma_amounts(ledger, rows, Kind::Income, Seq::empty(), none);
    lemma_amounts(ledger, rows, Kind::Expense, Seq::empty(), none);
    lemma_amounts(ledger, rows, Kind::Refund, Seq::empty(), none);
}

/// A summary lists each category of the transactions that it is about, once and by name, and no
/// other; the sums of a category are those of the transactions in it, and a refund counts in the
/// category of its expense.
pub proof fn law_summaries_by_category_are_exact(ledger: Ledger, filters: Filters<Text>)
    requires
        ledger::sound(ledger),
        summary::summarized(ledger, filters) is Ok,
    ensures
        ({
            let listed = summary::summarized(ledger, filters)->Ok_0.by_category;
            &&& forall|j: int, k: int|
                0 <= j < k < listed.len() ==> text::before(
                    (#[trigger] listed[j]).category,
                    (#[trigger] listed[k]).category,
                )
            &&& forall|k: int|
                0 <= k < listed.len() ==> {
                    let item = #[trigger] listed[k];
                    let rows = ledger.transactions.filter(
                        wanted_in(ledger, filters, item.category),
                    );
                    let expense = amounts(rows, Kind::Expense);
                    let refund = amounts(rows, Kind::Refund);
                    &&& rows.len() > 0
                    &&& item.income == money::minor_text(amounts(rows, Kind::Income))
                    &&& item.expense == money::minor_text(expense)
                    &&& item.refund == money::minor_text(refund)
                    &&& item.net_expense == money::minor_text(expense - refund)
                }
            &&& forall|i: int, category: Text|
                0 <= i < ledger.transactions.len() && is_wanted(
                    ledger,
                    filters,
                    false,
                    #[trigger] ledger.transactions[i],
                ) && #[trigger] is_of_category(ledger, ledger.transactions[i], category)
                    ==> exists|k: int|
                    0 <= k < listed.len() && (#[trigger] listed[k]).category == category
        }),
{
    lemma_valid_period(filters);
    lemma_same_wanted(ledger, filters, false);
    let all = ledger.transactions;
    let asked = query::asks_for(ledger, filters, false);
    let rows = all.filter(asked);
    let records = ledger::records_of(ledger, rows)->0;
    soundness::lemma_records(ledger, rows);
    let listed = summary::summarized(ledger, filters)->Ok_0.by_category;
    let categories = summary::categories_of(records);
    order::law_distinct_texts(categories);
    let names = order::distinct(categories);
    assert forall|j: int, k: int| 0 <= j < k < listed.len() implies text::before(
        (#[trigger] listed[j]).category,
        (#[trigger] listed[k]).category,
    ) by {
        assert(text::before(names[j], names[k]));
    }
    assert forall|k: int| 0 <= k < listed.len() implies {
        let item = #[trigger] listed[k];
        let found = ledger.transactions.filter(wanted_in(ledger, filters, item.category));
        let expense = amounts(found, Kind::Expense);
        let refund = amounts(found, Kind::Refund);
        &&& found.len() > 0
        &&& item.income == money::minor_text(amounts(found, Kind::Income))
        &&& item.expense == money::minor_text(expense)
        &&& item.refund == money::minor_text(refund)
        &&& item.net_expense == money::minor_text(expense - refund)
    } by {
        let category = names[k];
        assert(listed[k].category == category);
        let of_category: spec_fn(TransactionRow<Text>) -> bool = |row: TransactionRow<Text>|
            ledger::category_of(ledger, row) == Some(category);
        let both = wanted_in(ledger, filters, category);
        assert forall|i: int| 0 <= i < all.len() implies both(#[trigger] all[i]) == (asked(all[i])
            && of_category(all[i])) by {
            lemma_wanted(ledger, filters, false, i);
            lemma_category(ledger, i, category);
        }
        lemma_two_choices(all, asked, of_category, both);
        lemma_amounts(ledger, rows, Kind::Income, category, of_category);
        lemma_amounts(ledger, rows, Kind::Expense, category, of_category);
        lemma_amounts(ledger, rows, Kind::Refund, category, of_category);
        assert(names.contains(names[k]));
        assert(categories.contains(category));
        let m = choose|m: int| 0 <= m < categories.len() && categories[m] == category;
        assert(ledger::record_of(ledger, rows[m]) == Some(records[m]));
        assert(of_category(rows[m]));
        rows.lemma_filter_contains(of_category, m);
    }
    assert forall|i: int, category: Text|
        0 <= i < ledger.transactions.len() && is_wanted(
            ledger,
            filters,
            false,
            #[trigger] ledger.transactions[i],
        ) && #[trigger] is_of_category(
            ledger,
            ledger.transactions[i],
            category,
        ) implies exists|k: int| 0 <= k < listed.len() && (#[trigger] listed[k]).category
        == category by {
        lemma_wanted(ledger, filters, false, i);
        lemma_category(ledger, i, category);
        all.lemma_filter_contains(asked, i);
        let m = choose|m: int| 0 <= m < rows.len() && rows[m] == all[i];
        assert(ledger::record_of(ledger, rows[m]) == Some(records[m]));
        assert(categories[m] == category);
        assert(categories.contains(category));
        assert(names.contains(category));
        let k = choose|k: int| 0 <= k < names.len() && names[k] == category;
        assert(listed[k].category == category);
    }
}

/// A command for a summary answers with that of exactly the transactions in force that lie in the
/// month and between the days given, belong to the category given and hold the search text given.
pub proof fn law_summary_commands_are_exact(
    before: Ledger,
    filter: FilterArgs,
    today: Text,
    stamp: Stamp<Text>,
    after: Ledger,
    result: Result<Output>,
)
    requires
        ledger::sound(before),
        command::executed(before, Command::Summary { filter }, today, stamp, after, result),
        result is Ok,
    ensures
        after == before,
        result->Ok_0 is Summary,
        ({
            let answer = result->Ok_0->Summary_summary.deep_view();
            let filters = given_filters(filter, None, false, 50, 0);
            let rows = before.transactions.filter(wanted(before, filters, false));
            let income = amounts(rows, Kind::Income);
            let expense = amounts(rows, Kind::Expense);
            let refund = amounts(rows, Kind::Refund);
            &&& answer == summary::summarized(before, filters)->Ok_0
            &&& answer.count == rows.len()
            &&& answer.income == money::minor_text(income)
            &&& answer.expense == money::minor_text(expense)
            &&& answer.refund == money::minor_text(refund)
            &&& answer.net_expense == money::minor_text(expense - refund)
            &&& answer.balance == money::minor_text(income - expense + refund)
            &&& filter.category is Some ==> forall|k: int|
                0 <= k < answer.by_category.len() ==> (#[trigger] answer.by_category[k]).category
                    == filter.category->0@
        }),
{
    let filters = given_filters(filter, None, false, 50, 0);
    law_summaries_are_exact(before, filters);
    law_summaries_by_category_are_exact(before, filters);
    let answer = result->Ok_0->Summary_summary.deep_view();
    if let Some(category) = filters.category {
        assert forall|k: int| 0 <= k < answer.by_category.len() implies (
        #[trigger] answer.by_category[k]).category == category by {
            let item = answer.by_category[k];
            let both = wanted_in(before, filters, item.category);
            let rows = before.transactions.filter(both);
            assert(rows.len() > 0);
            before.transactions.lemma_filter_pred(both, 0);
            assert(rows.contains(rows[0]));
            before.transactions.lemma_filter_contains_rev(both, rows[0]);
            let i = choose|i: int|
                0 <= i < before.transactions.len() && before.transactions[i] == rows[0];
            lemma_category(before, i, category);
            lemma_category(before, i, item.category);
        }
    }
}

/// A command for a summary is answered exactly where its period is valid.
pub proof fn law_summary_commands_are_answered(
    before: Ledger,
    filter: FilterArgs,
    today: Text,
    stamp: Stamp<Text>,
    after: Ledger,
    result: Result<Output>,
)
    requires
        ledger::sound(before),
        before.transactions.len() <= i64::MAX,
        before.pending_expenses.len() <= i64::MAX,
        command::executed(before, Command::Summary { filter }, today, stamp, after, result),
    ensures
        result is Ok <==> period_is_valid(
            filter.month.deep_view(),
            filter.from.deep_view(),
            filter.to.deep_view(),
        ),
        result is Err ==> after == before && result->Err_0.deep_view().code == "INVALID_INPUT"@,
{
    let filters = given_filters(filter, None, false, 50, 0);
    lemma_valid_period(filters);
    if query::checked_filters(filters) is Ok {
        accounting::law_sound_ledgers_are_summarized(before, filters);
    }
}

/// The sum of the refunds of an expense that are in force.
pub open spec fn refunded(rows: Seq<TransactionRow<Text>>, id: Text) -> int
    decreases rows.len(),
{
    if rows.len() == 0 {
        0
    } else if rows.last().original_id == Some(id) && !rows.last().voided {
        refunded(rows.drop_last(), id) + rows.last().amount.0
    } else {
        refunded(rows.drop_last(), id)
    }
}

/// The sum of the amounts of the rows that are in force.
pub open spec fn in_force(rows: Seq<TransactionRow<Text>>) -> int
    decreases rows.len(),
{
    if rows.len() == 0 {
        0
    } else if rows.last().voided {
        in_force(rows.drop_last())
    } else {
        in_force(rows.drop_last()) + rows.last().amount.0
    }
}

proof fn lemma_inserted_sum(rows: Seq<TransactionRow<Text>>, row: TransactionRow<Text>)
    ensures
        in_force(order::inserted::<TransactionRow, ByTime>(rows, row)) == in_force(rows.push(row)),
    decreases rows.len(),
{
    assert(rows.push(row).drop_last() =~= rows);
    if rows.len() > 0 && order::key_before(
        <ByTime as Order<TransactionRow>>::key(row),
        <ByTime as Order<TransactionRow>>::key(rows.last()),
    ) {
        let front = rows.drop_last();
        lemma_inserted_sum(front, row);
        let part = order::inserted::<TransactionRow, ByTime>(front, row);
        assert(part.push(rows.last()).drop_last() =~= part);
        assert(part.push(rows.last()).last() == rows.last());
        assert(front.push(row).drop_last() =~= front);
        assert(in_force(rows) == in_force(front) + if rows.last().voided {
            0
        } else {
            rows.last().amount.0 as int
        });
        assert(in_force(rows.push(row)) == in_force(rows) + if row.voided {
            0
        } else {
            row.amount.0 as int
        });
        assert(in_force(part.push(rows.last())) == in_force(part) + if rows.last().voided {
            0
        } else {
            rows.last().amount.0 as int
        });
    }
}

proof fn lemma_sorted_sum(rows: Seq<TransactionRow<Text>>)
    ensures
        in_force(order::sorted::<TransactionRow, ByTime>(rows)) == in_force(rows),
    decreases rows.len(),
{
    if rows.len() > 0 {
        let front = rows.drop_last();
        lemma_sorted_sum(front);
        let ordered = order::sorted::<TransactionRow, ByTime>(front);
        lemma_inserted_sum(ordered, rows.last());
        assert(ordered.push(rows.last()).drop_last() =~= ordered);
    }
}

proof fn lemma_refunds_sum(rows: Seq<TransactionRow<Text>>, id: Text)
    ensures
        in_force(rows.filter(query::refund_of(id))) == refunded(rows, id),
    decreases rows.len(),
{
    reveal(Seq::filter);
    if rows.len() > 0 {
        let front = rows.drop_last();
        lemma_refunds_sum(front, id);
        let found = front.filter(query::refund_of(id));
        assert(found.push(rows.last()).drop_last() =~= found);
    }
}

proof fn lemma_records_sum(ledger: Ledger, rows: Seq<TransactionRow<Text>>)
    requires
        ledger::records_of(ledger, rows) is Some,
    ensures
        query::active_total(ledger::records_of(ledger, rows)->0) == in_force(rows),
    decreases rows.len(),
{
    if rows.len() > 0 {
        let front = rows.drop_last();
        lemma_records_sum(ledger, front);
        let records = ledger::records_of(ledger, rows)->0;
        assert(records.drop_last() =~= ledger::records_of(ledger, front)->0);
    }
}

/// A voided record adds nothing to a sum, wherever it stands: without it the sum is the same.
pub proof fn law_voided_records_add_nothing(records: Seq<TransactionRecord<Text>>, k: int)
    requires
        0 <= k < records.len(),
        records[k].voided,
    ensures
        query::active_total(records.remove(k)) == query::active_total(records),
    decreases records.len(),
{
    let front = records.drop_last();
    if k < records.len() - 1 {
        law_voided_records_add_nothing(front, k);
        assert(records.remove(k).drop_last() =~= front.remove(k));
    } else {
        assert(records.remove(k) =~= front);
    }
}

/// A record in force adds its amount to a sum, wherever it stands.
pub proof fn law_records_in_force_add_their_amount(records: Seq<TransactionRecord<Text>>, k: int)
    requires
        0 <= k < records.len(),
        !records[k].voided,
    ensures
        query::active_total(records) == query::active_total(records.remove(k))
            + records[k].amount.0,
    decreases records.len(),
{
    let front = records.drop_last();
    if k < records.len() - 1 {
        law_records_in_force_add_their_amount(front, k);
        assert(records.remove(k).drop_last() =~= front.remove(k));
    } else {
        assert(records.remove(k) =~= front);
    }
}

/// The refunds of an expense.
pub open spec fn repays(id: Text) -> spec_fn(TransactionRow<Text>) -> bool {
    |row: TransactionRow<Text>| row.original_id == Some(id)
}

/// What is shown of a transaction: the transaction itself; all its refunds, from the oldest to the
/// newest, voided ones too; as refunded the sum of those in force; and of an expense what is left
/// of it, how far it is refunded, and by how much too far.
pub proof fn law_details_are_exact(ledger: Ledger, id: Text)
    requires
        ledger::sound(ledger),
        query::detailed(ledger, id) is Ok,
    ensures
        ({
            let detail = query::detailed(ledger, id)->Ok_0;
            let rows = ledger.transactions;
            let total = refunded(rows, id);
            let amount = detail.transaction.amount.0 as int;
            &&& detail.transaction.id == id
            &&& exists|i: int|
                0 <= i < rows.len() && entry_laws::holds(#[trigger] rows[i], detail.transaction)
                    && is_of_category(ledger, rows[i], detail.transaction.category)
            &&& detail.foreign_expense is None ==> forall|i: int|
                0 <= i < ledger.pending_expenses.len() ==> (
                #[trigger] ledger.pending_expenses[i]).transaction_id != Some(id)
            &&& detail.foreign_expense is Some ==> exists|i: int|
                0 <= i < ledger.pending_expenses.len() && (
                #[trigger] ledger.pending_expenses[i]).transaction_id == Some(id)
                    && purchase_laws::holds(
                    ledger.pending_expenses[i],
                    detail.foreign_expense->0,
                )
            &&& detail.refund_total == money::minor_text(total)
            &&& detail.transaction.kind == Kind::Expense ==> {
                &&& detail.net_expense == Some(money::minor_text(amount - total))
                &&& detail.refund_status is Some
                &&& total == 0 ==> detail.refund_status->0 == "none"@
                &&& 0 < total < amount ==> detail.refund_status->0 == "partial"@
                &&& total == amount ==> detail.refund_status->0 == "full"@
                &&& total > amount ==> detail.refund_status->0 == "excess"@
                &&& total > amount ==> detail.excess_refund == money::minor_text(total - amount)
                &&& total <= amount ==> detail.excess_refund == money::minor_text(0)
            }
            &&& detail.transaction.kind != Kind::Expense ==> {
                &&& detail.net_expense is None
                &&& detail.refund_status is None
                &&& detail.excess_refund == money::minor_text(0)
            }
            &&& detail.refunds.len() == rows.filter(repays(id)).len()
            &&& forall|k: int|
                0 <= k < detail.refunds.len() ==> (#[trigger] detail.refunds[k]).original_id
                    == Some(id)
            &&& forall|i: int|
                0 <= i < rows.len() && (#[trigger] rows[i]).original_id == Some(id)
                    ==> exists|k: int|
                    0 <= k < detail.refunds.len() && entry_laws::holds(
                        rows[i],
                        #[trigger] detail.refunds[k],
                    )
            &&& forall|j: int, k: int|
                0 <= j < k < detail.refunds.len() ==> is_newer(
                    #[trigger] detail.refunds[k],
                    #[trigger] detail.refunds[j],
                )
        }),
{
    broadcast use vstd::seq_lib::group_to_multiset_ensures;

    let detail = query::detailed(ledger, id)->Ok_0;
    let rows = ledger.transactions;
    let pick = query::refund_of(id);
    let chosen = rows.filter(pick);
    accounting::lemma_same_row_choice(rows, pick, repays(id));
    let ordered = order::sorted::<TransactionRow, ByTime>(chosen);
    order::law_sorting_orders_all_records::<TransactionRow, ByTime>(chosen);
    lemma_refunds_sum(rows, id);
    lemma_sorted_sum(chosen);
    lemma_records_sum(ledger, ordered);
    soundness::lemma_records(ledger, ordered);
    let ids = ledger::ids(rows);
    text::lemma_position(ids, id);
    let place = text::position(ids, id)->0;
    assert(rows.contains(rows[place]));
    lemma_record(ledger, rows[place], detail.transaction);
    assert(ledger::transaction_is_sound(ledger, rows[place]));
    lemma_not_negative(ledger, rows, id);
    let links = ledger::links(ledger.pending_expenses);
    text::lemma_position(links, Some(id));
    if let Some(i) = text::position(links, Some(id)) {
        assert(ledger.pending_expenses[i].transaction_id == Some(id));
        purchase_laws::law_purchases_are_reported(ledger, i);
    } else {
        assert forall|i: int| 0 <= i < ledger.pending_expenses.len() implies (
        #[trigger] ledger.pending_expenses[i]).transaction_id != Some(id) by {
            assert(links[i] == ledger.pending_expenses[i].transaction_id);
        }
    }
    assert forall|k: int| 0 <= k < ordered.len() implies rows.contains(#[trigger] ordered[k])
        && ordered[k].original_id == Some(id) by {
        assert(ordered.contains(ordered[k]));
        assert(ordered.to_multiset().count(ordered[k]) > 0);
        assert(chosen.contains(ordered[k]));
        rows.lemma_filter_contains_rev(pick, ordered[k]);
        let m = choose|m: int| 0 <= m < chosen.len() && chosen[m] == ordered[k];
        rows.lemma_filter_pred(pick, m);
    }
    assert forall|k: int| 0 <= k < detail.refunds.len() implies (
    #[trigger] detail.refunds[k]).original_id == Some(id) by {
        assert(ordered[k].original_id == Some(id));
    }
    assert forall|i: int| 0 <= i < rows.len() && (#[trigger] rows[i]).original_id == Some(
        id,
    ) implies exists|k: int|
        0 <= k < detail.refunds.len() && entry_laws::holds(rows[i], #[trigger] detail.refunds[k]) by {
        rows.lemma_filter_contains(pick, i);
        assert(chosen.to_multiset().count(rows[i]) > 0);
        assert(ordered.contains(rows[i]));
        let k = choose|k: int| 0 <= k < ordered.len() && ordered[k] == rows[i];
        assert(ledger::record_of(ledger, ordered[k]) == Some(detail.refunds[k]));
        lemma_record(ledger, ordered[k], detail.refunds[k]);
    }
    assert forall|j: int, k: int| 0 <= j < k < detail.refunds.len() implies is_newer(
        #[trigger] detail.refunds[k],
        #[trigger] detail.refunds[j],
    ) by {
        assert(rows.contains(ordered[j]) && rows.contains(ordered[k]));
        assert(ledger::record_of(ledger, ordered[j]) == Some(detail.refunds[j]));
        assert(ledger::record_of(ledger, ordered[k]) == Some(detail.refunds[k]));
        lemma_record(ledger, ordered[j], detail.refunds[j]);
        lemma_record(ledger, ordered[k], detail.refunds[k]);
        law_dates_are_compared_as_days(detail.refunds[k].date, detail.refunds[j].date);
        law_dates_are_compared_as_days(detail.refunds[j].date, detail.refunds[k].date);
        text::lemma_before_total(detail.refunds[k].date, detail.refunds[j].date);
        text::lemma_before_total(detail.refunds[k].created_at, detail.refunds[j].created_at);
        assert(!order::key_before(
            <ByTime as Order<TransactionRow>>::key(ordered[k]),
            <ByTime as Order<TransactionRow>>::key(ordered[j]),
        ));
    }
}

proof fn lemma_not_negative(ledger: Ledger, rows: Seq<TransactionRow<Text>>, id: Text)
    requires
        ledger::sound(ledger),
        forall|i: int| 0 <= i < rows.len() ==> ledger.transactions.contains(#[trigger] rows[i]),
    ensures
        refunded(rows, id) >= 0,
    decreases rows.len(),
{
    if rows.len() > 0 {
        let front = rows.drop_last();
        assert forall|i: int| 0 <= i < front.len() implies ledger.transactions.contains(
            #[trigger] front[i],
        ) by {
            assert(front[i] == rows[i]);
        }
        lemma_not_negative(ledger, front, id);
        assert(ledger.transactions.contains(rows[rows.len() - 1]));
        let k = choose|k: int|
            0 <= k < ledger.transactions.len() && ledger.transactions[k] == rows.last();
        assert(ledger::transaction_is_sound(ledger, ledger.transactions[k]));
    }
}

/// Every transaction of a sound ledger can be shown, and nothing else.
pub proof fn law_details_are_answered(ledger: Ledger, id: Text)
    requires
        ledger::sound(ledger),
    ensures
        query::detailed(ledger, id) is Ok <==> !entry_laws::is_free(ledger, id),
{
    broadcast use vstd::seq_lib::group_to_multiset_ensures;

    entry_laws::lemma_found(ledger, id);
    entry_laws::lemma_fetched(ledger, id);
    let rows = ledger.transactions;
    let pick = query::refund_of(id);
    let chosen = rows.filter(pick);
    let ordered = order::sorted::<TransactionRow, ByTime>(chosen);
    order::law_sorting_orders_all_records::<TransactionRow, ByTime>(chosen);
    accounting::law_every_transaction_has_a_category(ledger);
    assert forall|k: int| 0 <= k < ordered.len() implies ledger::record_of(
        ledger,
        #[trigger] ordered[k],
    ) is Some by {
        assert(ordered.contains(ordered[k]));
        assert(ordered.to_multiset().count(ordered[k]) > 0);
        assert(chosen.contains(ordered[k]));
        rows.lemma_filter_contains_rev(pick, ordered[k]);
        let i = choose|i: int| 0 <= i < rows.len() && rows[i] == ordered[k];
        assert(ledger::category_of(ledger, ledger.transactions[i]) is Some);
    }
    accounting::lemma_records_exist(ledger, ordered);
    let links = ledger::links(ledger.pending_expenses);
    text::lemma_position(links, Some(id));
    if let Some(i) = text::position(links, Some(id)) {
        assert(ledger::pending_is_sound(ledger, ledger.pending_expenses[i]));
    }
}

/// The command to show a transaction answers with its details and changes nothing.
pub proof fn law_show_commands_are_exact(
    before: Ledger,
    id: String,
    today: Text,
    stamp: Stamp<Text>,
    after: Ledger,
    result: Result<Output>,
)
    requires
        ledger::sound(before),
        command::executed(before, Command::Show { id }, today, stamp, after, result),
    ensures
        after == before,
        result is Ok <==> !entry_laws::is_free(before, id@),
        result is Ok ==> {
            &&& result->Ok_0 is Detail
            &&& result->Ok_0->Detail_detail.deep_view() == query::detailed(before, id@)->Ok_0
            &&& result->Ok_0->Detail_detail.deep_view().transaction.id == id@
            &&& result->Ok_0->Detail_detail.deep_view().refund_total == money::minor_text(
                refunded(before.transactions, id@),
            )
        },
{
    law_details_are_answered(before, id@);
    if query::detailed(before, id@) is Ok {
        law_details_are_exact(before, id@);
    }
}

pub(crate) proof fn lemma_one_more_refunded(
    before: Seq<TransactionRow<Text>>,
    after: Seq<TransactionRow<Text>>,
    id: Text,
)
    requires
        after.len() == before.len() + 1,
        forall|i: int| 0 <= i < before.len() ==> after[i] == #[trigger] before[i],
    ensures
        refunded(after, id) == refunded(before, id) + if after.last().original_id == Some(id)
            && !after.last().voided {
            after.last().amount.0 as int
        } else {
            0
        },
{
    assert(after.drop_last() =~= before);
}

/// Recording a refund raises what is shown as refunded for its expense by exactly its amount, and
/// for no other; recording anything else raises it for none.
pub proof fn law_recording_refunds_raises_the_refunded(
    before: Ledger,
    input: NewTransaction<Text>,
    request_id: Option<Text>,
    stamp: Stamp<Text>,
    id: Text,
)
    requires
        ledger::sound(before),
        store::added(before, input, request_id, stamp).1 is Ok,
        !store::added(before, input, request_id, stamp).1->Ok_0.replayed,
        !entry_laws::is_free(before, id),
    ensures
        ({
            let after = store::added(before, input, request_id, stamp).0;
            let total = refunded(before.transactions, id);
            &&& query::detailed(before, id)->Ok_0.refund_total == money::minor_text(total)
            &&& query::detailed(after, id) is Ok
            &&& query::detailed(after, id)->Ok_0.refund_total == money::minor_text(
                if input.kind == Kind::Refund && input.original_id == Some(id) {
                    total + input.amount.0
                } else {
                    total
                },
            )
        }),
{
    let after = store::added(before, input, request_id, stamp).0;
    soundness::law_recording_keeps_soundness(before, input, request_id, stamp);
    entry_laws::law_records_hold_what_was_given(before, input, request_id, stamp);
    law_details_are_answered(before, id);
    let i = choose|i: int|
        0 <= i < before.transactions.len() && (#[trigger] before.transactions[i]).id == id;
    assert(after.transactions[i].id == id);
    law_details_are_answered(after, id);
    law_details_are_exact(before, id);
    law_details_are_exact(after, id);
    lemma_one_more_refunded(before.transactions, after.transactions, id);
}

proof fn lemma_one_voided_refunded(
    before: Seq<TransactionRow<Text>>,
    after: Seq<TransactionRow<Text>>,
    place: int,
    id: Text,
)
    requires
        after.len() == before.len(),
        0 <= place < before.len(),
        forall|i: int|
            0 <= i < before.len() && i != place ==> after[i] == #[trigger] before[i],
        !before[place].voided,
        after[place].voided,
    ensures
        refunded(after, id) == refunded(before, id) - if before[place].original_id == Some(id) {
            before[place].amount.0 as int
        } else {
            0
        },
    decreases before.len(),
{
    let front = before.drop_last();
    let other = after.drop_last();
    if place < before.len() - 1 {
        lemma_one_voided_refunded(front, other, place, id);
        assert(after[before.len() - 1] == before[before.len() - 1]);
    } else {
        assert(front =~= other);
    }
}

/// Voiding a refund lowers what is shown as refunded for its expense by exactly its amount, and
/// leaves it the same for every other.
pub proof fn law_voiding_refunds_lowers_the_refunded(
    before: Ledger,
    place: int,
    cascade_refunds: bool,
    request_id: Option<Text>,
    now: Text,
    id: Text,
)
    requires
        ledger::sound(before),
        0 <= place < before.transactions.len(),
        before.transactions[place].kind == Kind::Refund,
        !entry_laws::is_free(before, id),
        ({
            let voided = store::voided(
                before,
                before.transactions[place].id,
                cascade_refunds,
                request_id,
                now,
            );
            voided.1 is Ok && !voided.1->Ok_0.replayed
        }),
    ensures
        ({
            let refund = before.transactions[place];
            let after = store::voided(before, refund.id, cascade_refunds, request_id, now).0;
            let total = refunded(before.transactions, id);
            &&& query::detailed(before, id)->Ok_0.refund_total == money::minor_text(total)
            &&& query::detailed(after, id) is Ok
            &&& query::detailed(after, id)->Ok_0.refund_total == money::minor_text(
                if refund.original_id == Some(id) {
                    total - refund.amount.0
                } else {
                    total
                },
            )
        }),
{
    let refund = before.transactions[place];
    let after = store::voided(before, refund.id, cascade_refunds, request_id, now).0;
    soundness::law_voiding_keeps_soundness(
        before,
        refund.id,
        cascade_refunds,
        request_id,
        now,
    );
    entry_laws::law_voiding_takes_out_of_force(
        before,
        refund.id,
        cascade_refunds,
        request_id,
        now,
    );
    entry_laws::lemma_found(before, refund.id);
    assert(before.transactions[place].id == refund.id);
    // A refund has no refunds of its own, so nothing goes with it.
    assert forall|i: int| 0 <= i < before.transactions.len() && i != place implies
        after.transactions[i] == #[trigger] before.transactions[i] by {
        let other = before.transactions[i];
        assert(ledger::transaction_is_sound(before, other));
        assert(ledger::transaction(before, refund.id) == Some(refund));
        if other.id == refund.id {
            assert(text::position(ledger::ids(before.transactions), refund.id) == Some(i));
        }
        assert(after.transactions[i] == if entry_laws::goes_with(other, refund.id) {
            TransactionRow { voided: true, updated_at: now, ..other }
        } else {
            other
        });
    }
    assert(after.transactions[place].voided);
    lemma_one_voided_refunded(before.transactions, after.transactions, place, id);
    law_details_are_answered(before, id);
    let i = choose|i: int|
        0 <= i < before.transactions.len() && (#[trigger] before.transactions[i]).id == id;
    assert(after.transactions[i].id == id);
    law_details_are_answered(after, id);
    law_details_are_exact(before, id);
    law_details_are_exact(after, id);
}

} // verus!
