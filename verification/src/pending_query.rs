//! Questions about the foreign purchases of a ledger.
use vstd::prelude::*;

use crate::calendar;
use crate::error;
use crate::error::{AppError, ErrorView, Result};
use crate::foreign;
use crate::ledger;
use crate::ledger::Ledger;
use crate::models;
use crate::models::{
    Filters, Kind, PendingAuditEntry, PendingAuditRecord, PendingCurrencySummary, PendingDetail,
    PendingExpenseRecord, PendingExpenseRow, PendingFilters, PendingListResult, PendingStatus,
};
use crate::order;
use crate::order::{Key, Order};
use crate::pending;
use crate::query;
use crate::store::Store;
use crate::text;
use crate::text::Text;

verus! {

/// Foreign purchases from the oldest to the newest.
pub struct ByDate;

impl Order<PendingExpenseRow> for ByDate {
    open spec fn key(record: PendingExpenseRow<Text>) -> Key {
        (record.date, record.id, Seq::empty())
    }

    fn comes_before(left: &PendingExpenseRow, right: &PendingExpenseRow) -> (answer: bool) {
        assert(!text::before(Seq::<char>::empty(), Seq::<char>::empty()));
        text::is_before(left.date.as_str(), right.date.as_str()) || (text::same(
            left.date.as_str(),
            right.date.as_str(),
        ) && text::is_before(left.id.as_str(), right.id.as_str()))
    }
}

/// Whether a foreign purchase is one that a query is about. No status stands for all of them.
pub open spec fn is_selected(
    filters: Filters<Text>,
    status: Option<PendingStatus>,
    row: PendingExpenseRow<Text>,
) -> bool {
    &&& status matches Some(status) ==> row.status == status
    &&& filters.kind matches Some(kind) ==> kind == Kind::Expense
    &&& query::in_period(filters, row.date)
    &&& filters.category matches Some(category) ==> row.category == category
    &&& filters.keyword matches Some(keyword) ==> query::mentions(row.note, keyword)
        || text::occurs(row.id, keyword) || query::mentions(row.channel, keyword)
        || query::mentions(row.merchant, keyword)
}

/// Whether a foreign purchase is one that a list is about.
pub open spec fn is_listed(
    filters: PendingFilters<Text>,
    status: Option<PendingStatus>,
    row: PendingExpenseRow<Text>,
) -> bool {
    &&& is_selected(filters.filters, status, row)
    &&& filters.currency matches Some(currency) ==> row.currency == currency
    &&& filters.due_only ==> row.status == PendingStatus::Pending && !text::before(
        filters.as_of,
        row.remind_on,
    )
}

/// The foreign purchases that a list is about.
pub open spec fn lists(filters: PendingFilters<Text>, status: Option<PendingStatus>) -> spec_fn(
    PendingExpenseRow<Text>,
) -> bool {
    |row: PendingExpenseRow<Text>| is_listed(filters, status, row)
}

/// The foreign purchases that a summary counts: those that await confirmation.
pub open spec fn awaits(filters: Filters<Text>) -> spec_fn(PendingExpenseRow<Text>) -> bool {
    |row: PendingExpenseRow<Text>| is_selected(filters, Some(PendingStatus::Pending), row)
}

fn selected(filters: &Filters, status: Option<PendingStatus>, row: &PendingExpenseRow) -> (answer:
    bool)
    ensures
        answer == is_selected(filters.deep_view(), status, row.deep_view()),
{
    let status = match status {
        Some(status) => row.status == status,
        None => true,
    };
    let kind = match filters.kind {
        Some(kind) => kind == Kind::Expense,
        None => true,
    };
    let category = match &filters.category {
        Some(category) => text::same(row.category.as_str(), category.as_str()),
        None => true,
    };
    let keyword = match &filters.keyword {
        Some(keyword) => query::has_keyword(&row.note, keyword.as_str()) || text::contains(
            row.id.as_str(),
            keyword.as_str(),
        ) || query::has_keyword(&row.channel, keyword.as_str()) || query::has_keyword(
            &row.merchant,
            keyword.as_str(),
        ),
        None => true,
    };
    status && kind && query::is_in_period(filters, row.date.as_str()) && category && keyword
}

/// The status that a list asks for; nothing for all of them.
pub open spec fn wanted_status(status: Option<Text>) -> core::result::Result<
    Option<PendingStatus>,
    ErrorView,
> {
    match status {
        None => Ok(Some(PendingStatus::Pending)),
        Some(name) => match models::named_status(name) {
            Some(status) => Ok(Some(status)),
            None => if name == "all"@ {
                Ok(None)
            } else {
                Err(error::invalid_input("status 必须为 pending、confirmed、cancelled 或 all"@))
            },
        },
    }
}

fn parse_status(status: &Option<String>) -> (result: Result<Option<PendingStatus>>)
    ensures
        error::outcome(result) == wanted_status(status.deep_view()),
{
    match status {
        None => Ok(Some(PendingStatus::Pending)),
        Some(name) => match PendingStatus::parse(name.as_str()) {
            Some(status) => Ok(Some(status)),
            None => if text::same(name.as_str(), "all") {
                Ok(None)
            } else {
                Err(AppError::invalid("status 必须为 pending、confirmed、cancelled 或 all"))
            },
        },
    }
}

/// Foreign purchases as they are reported; the first error where one cannot be.
pub open spec fn pending_records(rows: Seq<PendingExpenseRow<Text>>) -> core::result::Result<
    Seq<PendingExpenseRecord<Text>>,
    ErrorView,
>
    decreases rows.len(),
{
    if rows.len() == 0 {
        Ok(Seq::empty())
    } else {
        match (pending_records(rows.drop_last()), ledger::pending_record(rows.last())) {
            (Err(error), _) => Err(error),
            (_, Err(error)) => Err(error),
            (Ok(records), Ok(record)) => Ok(records.push(record)),
        }
    }
}

proof fn lemma_first_error(rows: Seq<PendingExpenseRow<Text>>, end: int)
    requires
        0 <= end <= rows.len(),
        pending_records(rows.take(end)) is Err,
    ensures
        pending_records(rows) == pending_records(rows.take(end)),
    decreases rows.len() - end,
{
    if end < rows.len() {
        assert(rows.take(end + 1).drop_last() =~= rows.take(end));
        lemma_first_error(rows, end + 1);
    } else {
        assert(rows.take(end) =~= rows);
    }
}

fn decode_all(rows: &Vec<PendingExpenseRow>) -> (result: Result<Vec<PendingExpenseRecord>>)
    ensures
        error::outcome(result) == pending_records(rows.deep_view()),
{
    let ghost all = rows.deep_view();
    let mut records: Vec<PendingExpenseRecord> = Vec::new();
    let mut i: usize = 0;
    assert(records.deep_view() =~= Seq::<PendingExpenseRecord<Text>>::empty());
    while i < rows.len()
        invariant
            all == rows.deep_view(),
            i <= rows.len(),
            pending_records(all.take(i as int)) == Ok::<
                Seq<PendingExpenseRecord<Text>>,
                ErrorView,
            >(records.deep_view()),
        decreases rows.len() - i,
    {
        assert(all.take(i + 1).drop_last() =~= all.take(i as int));
        assert(all.take(i + 1).last() == all[i as int]);
        match pending::decode_pending(&rows[i]) {
            Err(error) => {
                proof {
                    lemma_first_error(all, i + 1);
                }
                return Err(error);
            },
            Ok(record) => {
                let ghost earlier = records.deep_view();
                records.push(record);
                assert(records.deep_view() =~= earlier.push(record.deep_view()));
            },
        }
        i += 1;
    }
    assert(all.take(i as int) =~= all);
    Ok(records)
}

/// What checking the currency of a list answers.
pub open spec fn checked_currency(currency: Option<Text>) -> core::result::Result<(), ErrorView> {
    match currency {
        Some(currency) => if foreign::currency_places(currency) is Some {
            Ok(())
        } else {
            Err(foreign::currency_error())
        },
        None => Ok(()),
    }
}

/// What checking a list of foreign purchases answers: the status and the size of the page.
pub open spec fn checked_list(filters: PendingFilters<Text>) -> core::result::Result<
    (Option<PendingStatus>, i64),
    ErrorView,
> {
    match (
        query::checked_filters(filters.filters),
        query::checked_date(Some(filters.as_of)),
        checked_currency(filters.currency),
        wanted_status(filters.status),
        query::checked_page(filters.filters.limit, filters.filters.offset),
    ) {
        (Err(error), _, _, _, _) => Err(error),
        (_, Err(error), _, _, _) => Err(error),
        (_, _, Err(error), _, _) => Err(error),
        (_, _, _, Err(error), _) => Err(error),
        (_, _, _, _, Err(error)) => Err(error),
        (Ok(_), Ok(_), Ok(_), Ok(status), Ok(limit)) => Ok((status, limit)),
    }
}

fn check_list(filters: &PendingFilters) -> (result: Result<(Option<PendingStatus>, i64)>)
    ensures
        error::outcome(result) == checked_list(filters.deep_view()),
{
    match query::validate_filters(&filters.filters) {
        Err(error) => {
            return Err(error);
        },
        Ok(_) => {},
    }
    match calendar::validate_date(filters.as_of.as_str()) {
        Err(error) => {
            return Err(error);
        },
        Ok(_) => {},
    }
    match &filters.currency {
        Some(currency) => match foreign::currency_digits(currency.as_str()) {
            Err(error) => {
                return Err(error);
            },
            Ok(_) => {},
        },
        None => {},
    }
    let status = match parse_status(&filters.status) {
        Err(error) => {
            return Err(error);
        },
        Ok(status) => status,
    };
    match query::validate_page(filters.filters.limit, filters.filters.offset) {
        Err(error) => Err(error),
        Ok(limit) => Ok((status, limit)),
    }
}

/// What asking for a page of foreign purchases answers: those from the oldest to the newest.
pub open spec fn pending_listed(ledger: Ledger, filters: PendingFilters<Text>) -> core::result::Result<
    PendingListResult<Text, Seq<PendingExpenseRecord<Text>>>,
    ErrorView,
> {
    match checked_list(filters) {
        Err(error) => Err(error),
        Ok((status, limit)) => {
            let found = order::sorted::<PendingExpenseRow, ByDate>(
                ledger.pending_expenses.filter(lists(filters, status)),
            );
            let offset = filters.filters.offset;
            if found.len() > i64::MAX {
                Err(query::overflow_error())
            } else {
                match pending_records(order::page(found, offset as int, limit as int)) {
                    Err(error) => Err(error),
                    Ok(items) => Ok(
                        PendingListResult {
                            items,
                            total: found.len() as i64,
                            limit,
                            offset,
                            as_of: filters.as_of,
                        },
                    ),
                }
            }
        },
    }
}

/// What asking for one foreign purchase answers.
pub open spec fn pending_detailed(ledger: Ledger, id: Text) -> core::result::Result<
    PendingDetail<Text>,
    ErrorView,
> {
    match pending::fetched_pending(ledger, id) {
        Err(error) => Err(error),
        Ok(record) => match pending::linked_transaction(ledger, record.transaction_id) {
            Err(error) => Err(error),
            Ok(transaction) => Ok(PendingDetail { pending: record, transaction }),
        },
    }
}

/// The logged changes of one foreign purchase, with their numbers in the log.
pub open spec fn history_of(log: Seq<PendingAuditEntry<Text>>, id: Text) -> Seq<
    PendingAuditRecord<Text>,
>
    decreases log.len(),
{
    if log.len() == 0 {
        Seq::empty()
    } else {
        let earlier = history_of(log.drop_last(), id);
        let entry = log.last();
        if entry.pending_id == id {
            earlier.push(
                PendingAuditRecord {
                    id: log.len() as u64,
                    pending_id: entry.pending_id,
                    action: entry.action,
                    before: entry.before,
                    after: entry.after,
                    created_at: entry.created_at,
                },
            )
        } else {
            earlier
        }
    }
}

/// What asking for the history of a foreign purchase answers.
pub open spec fn pending_history(ledger: Ledger, id: Text) -> core::result::Result<
    Seq<PendingAuditRecord<Text>>,
    ErrorView,
> {
    match pending::fetched_pending(ledger, id) {
        Err(error) => Err(error),
        Ok(_) => Ok(history_of(ledger.pending_audit_log, id)),
    }
}

/// The hundredths that foreign purchases in one currency amount to.
pub open spec fn currency_total(rows: Seq<PendingExpenseRow<Text>>, currency: Text) -> int
    decreases rows.len(),
{
    if rows.len() == 0 {
        0
    } else {
        currency_total(rows.drop_last(), currency) + if rows.last().currency == currency {
            rows.last().amount_minor as int
        } else {
            0
        }
    }
}

/// The number of foreign purchases in one currency.
pub open spec fn currency_count(rows: Seq<PendingExpenseRow<Text>>, currency: Text) -> nat
    decreases rows.len(),
{
    if rows.len() == 0 {
        0
    } else {
        currency_count(rows.drop_last(), currency) + if rows.last().currency == currency {
            1nat
        } else {
            0nat
        }
    }
}

/// No sum of stored amounts leaves the range of the integers that it is kept in.
pub proof fn lemma_currency_total(rows: Seq<PendingExpenseRow<Text>>, currency: Text)
    ensures
        i64::MIN * rows.len() <= currency_total(rows, currency) <= i64::MAX * rows.len(),
        currency_count(rows, currency) <= rows.len(),
    decreases rows.len(),
{
    if rows.len() > 0 {
        lemma_currency_total(rows.drop_last(), currency);
    }
}

/// The currencies of foreign purchases, row by row.
pub open spec fn currencies(rows: Seq<PendingExpenseRow<Text>>) -> Seq<Text> {
    Seq::new(rows.len(), |i: int| rows[i].currency)
}

/// The foreign purchases in one currency, summed up.
pub open spec fn currency_summary(rows: Seq<PendingExpenseRow<Text>>, currency: Text) -> core::result::Result<
    PendingCurrencySummary<Text>,
    ErrorView,
> {
    match foreign::shown_amount(currency, currency_total(rows, currency)) {
        Err(error) => Err(error),
        Ok(amount) => Ok(
            PendingCurrencySummary {
                currency,
                amount,
                count: currency_count(rows, currency) as i64,
            },
        ),
    }
}

/// The foreign purchases summed up currency by currency; amounts of different currencies are
/// never added.
pub open spec fn currency_summaries(
    rows: Seq<PendingExpenseRow<Text>>,
    currencies: Seq<Text>,
) -> core::result::Result<Seq<PendingCurrencySummary<Text>>, ErrorView>
    decreases currencies.len(),
{
    if currencies.len() == 0 {
        Ok(Seq::empty())
    } else {
        match (
            currency_summaries(rows, currencies.drop_last()),
            currency_summary(rows, currencies.last()),
        ) {
            (Err(error), _) => Err(error),
            (_, Err(error)) => Err(error),
            (Ok(summaries), Ok(summary)) => Ok(summaries.push(summary)),
        }
    }
}

proof fn lemma_first_summary_error(
    rows: Seq<PendingExpenseRow<Text>>,
    currencies: Seq<Text>,
    end: int,
)
    requires
        0 <= end <= currencies.len(),
        currency_summaries(rows, currencies.take(end)) is Err,
    ensures
        currency_summaries(rows, currencies) == currency_summaries(rows, currencies.take(end)),
    decreases currencies.len() - end,
{
    if end < currencies.len() {
        assert(currencies.take(end + 1).drop_last() =~= currencies.take(end));
        lemma_first_summary_error(rows, currencies, end + 1);
    } else {
        assert(currencies.take(end) =~= currencies);
    }
}

/// The error for more foreign purchases than can be counted.
pub open spec fn count_error() -> ErrorView {
    ErrorView { code: "AMOUNT_OVERFLOW"@, message: "账单数量溢出"@ }
}

/// The number of foreign purchases that await confirmation, and what they amount to in each
/// currency.
pub open spec fn awaited_totals(ledger: Ledger, filters: Filters<Text>) -> core::result::Result<
    (i64, Seq<PendingCurrencySummary<Text>>),
    ErrorView,
> {
    let rows = ledger.pending_expenses.filter(awaits(filters));
    if rows.len() > i64::MAX {
        Err(count_error())
    } else {
        match currency_summaries(rows, order::distinct(currencies(rows))) {
            Err(error) => Err(error),
            Ok(summaries) => Ok((rows.len() as i64, summaries)),
        }
    }
}

fn summarize_currency(rows: &Vec<PendingExpenseRow>, currency: &str) -> (result: Result<
    PendingCurrencySummary,
>)
    requires
        rows.len() <= i64::MAX,
    ensures
        error::outcome(result) == currency_summary(rows.deep_view(), currency@),
{
    let ghost all = rows.deep_view();
    let mut total: i128 = 0;
    let mut count: i64 = 0;
    let mut i: usize = 0;
    while i < rows.len()
        invariant
            all == rows.deep_view(),
            rows.len() <= i64::MAX,
            i <= rows.len(),
            total == currency_total(all.take(i as int), currency@),
            count == currency_count(all.take(i as int), currency@),
            count <= i,
        decreases rows.len() - i,
    {
        proof {
            assert(all.take(i + 1).drop_last() =~= all.take(i as int));
            assert(all.take(i + 1).last() == all[i as int]);
            lemma_currency_total(all.take(i + 1), currency@);
        }
        if text::same(rows[i].currency.as_str(), currency) {
            total += rows[i].amount_minor as i128;
            count += 1;
        }
        i += 1;
    }
    assert(all.take(i as int) =~= all);
    match foreign::show_amount(currency, total) {
        Err(error) => Err(error),
        Ok(amount) => Ok(
            PendingCurrencySummary { currency: currency.to_owned(), amount, count },
        ),
    }
}

fn summarize_currencies(rows: &Vec<PendingExpenseRow>, currencies: &Vec<String>) -> (result: Result<
    Vec<PendingCurrencySummary>,
>)
    requires
        rows.len() <= i64::MAX,
    ensures
        error::outcome(result) == currency_summaries(rows.deep_view(), currencies.deep_view()),
{
    let ghost all = currencies.deep_view();
    let mut summaries: Vec<PendingCurrencySummary> = Vec::new();
    let mut i: usize = 0;
    assert(summaries.deep_view() =~= Seq::<PendingCurrencySummary<Text>>::empty());
    while i < currencies.len()
        invariant
            all == currencies.deep_view(),
            rows.len() <= i64::MAX,
            i <= currencies.len(),
            currency_summaries(rows.deep_view(), all.take(i as int)) == Ok::<
                Seq<PendingCurrencySummary<Text>>,
                ErrorView,
            >(summaries.deep_view()),
        decreases currencies.len() - i,
    {
        assert(all.take(i + 1).drop_last() =~= all.take(i as int));
        assert(all.take(i + 1).last() == currencies@[i as int]@);
        match summarize_currency(rows, currencies[i].as_str()) {
            Err(error) => {
                proof {
                    lemma_first_summary_error(rows.deep_view(), all, i + 1);
                }
                return Err(error);
            },
            Ok(summary) => {
                let ghost earlier = summaries.deep_view();
                summaries.push(summary);
                assert(summaries.deep_view() =~= earlier.push(summary.deep_view()));
            },
        }
        i += 1;
    }
    assert(all.take(i as int) =~= all);
    Ok(summaries)
}

impl Store {
    fn listed_rows(&self, filters: &PendingFilters, status: Option<PendingStatus>) -> (rows: Vec<
        PendingExpenseRow,
    >)
        ensures
            rows.deep_view() == self.deep_view().pending_expenses.filter(
                lists(filters.deep_view(), status),
            ),
    {
        let ghost all = self.pending_expenses.deep_view();
        let ghost wanted = lists(filters.deep_view(), status);
        let mut found: Vec<PendingExpenseRow> = Vec::new();
        let mut i: usize = 0;
        proof {
            reveal(Seq::filter);
            assert(all.take(0).filter(wanted) =~= Seq::<PendingExpenseRow<Text>>::empty());
        }
        while i < self.pending_expenses.len()
            invariant
                all == self.pending_expenses.deep_view(),
                wanted == lists(filters.deep_view(), status),
                i <= self.pending_expenses.len(),
                found.deep_view() == all.take(i as int).filter(wanted),
            decreases self.pending_expenses.len() - i,
        {
            proof {
                reveal(Seq::filter);
                assert(all.take(i + 1).drop_last() =~= all.take(i as int));
                assert(all.take(i + 1).last() == all[i as int]);
            }
            let row = &self.pending_expenses[i];
            let currency = match &filters.currency {
                Some(currency) => text::same(row.currency.as_str(), currency.as_str()),
                None => true,
            };
            let due = !filters.due_only || (row.status == PendingStatus::Pending
                && !text::is_before(filters.as_of.as_str(), row.remind_on.as_str()));
            let fits = selected(&filters.filters, status, row) && currency && due;
            assert(fits == wanted(all[i as int]));
            if fits {
                found.push(row.copy());
            }
            i += 1;
        }
        assert(all.take(i as int) =~= all);
        found
    }

    fn awaited_rows(&self, filters: &Filters) -> (rows: Vec<PendingExpenseRow>)
        ensures
            rows.deep_view() == self.deep_view().pending_expenses.filter(
                awaits(filters.deep_view()),
            ),
    {
        let ghost all = self.pending_expenses.deep_view();
        let ghost wanted = awaits(filters.deep_view());
        let mut found: Vec<PendingExpenseRow> = Vec::new();
        let mut i: usize = 0;
        proof {
            reveal(Seq::filter);
            assert(all.take(0).filter(wanted) =~= Seq::<PendingExpenseRow<Text>>::empty());
        }
        while i < self.pending_expenses.len()
            invariant
                all == self.pending_expenses.deep_view(),
                wanted == awaits(filters.deep_view()),
                i <= self.pending_expenses.len(),
                found.deep_view() == all.take(i as int).filter(wanted),
            decreases self.pending_expenses.len() - i,
        {
            proof {
                reveal(Seq::filter);
                assert(all.take(i + 1).drop_last() =~= all.take(i as int));
                assert(all.take(i + 1).last() == all[i as int]);
            }
            let fits = selected(filters, Some(PendingStatus::Pending), &self.pending_expenses[i]);
            assert(fits == wanted(all[i as int]));
            if fits {
                found.push(self.pending_expenses[i].copy());
            }
            i += 1;
        }
        assert(all.take(i as int) =~= all);
        found
    }

    /// The number of foreign purchases that await confirmation, and what they amount to in each
    /// currency.
    pub(crate) fn pending_totals(&self, filters: &Filters) -> (result: Result<
        (i64, Vec<PendingCurrencySummary>),
    >)
        ensures
            error::outcome(result) == awaited_totals(self.deep_view(), filters.deep_view()),
    {
        let rows = self.awaited_rows(filters);
        let ghost all = rows.deep_view();
        assert(all.len() == rows.len());
        let count = match query::counted(rows.len()) {
            Err(_) => {
                return Err(AppError::new("AMOUNT_OVERFLOW", "账单数量溢出"));
            },
            Ok(count) => count,
        };
        let mut used: Vec<String> = Vec::new();
        let mut i: usize = 0;
        while i < rows.len()
            invariant
                all == rows.deep_view(),
                i <= rows.len(),
                used.deep_view() == currencies(all).take(i as int),
            decreases rows.len() - i,
        {
            used.push(rows[i].currency.clone());
            i += 1;
            assert(currencies(all).take(i as int) =~= currencies(all).take(i - 1).push(
                all[i - 1].currency,
            ));
        }
        assert(currencies(all).take(i as int) =~= currencies(all));
        match summarize_currencies(&rows, &order::distinct_texts(&used)) {
            Err(error) => Err(error),
            Ok(summaries) => Ok((count, summaries)),
        }
    }

    /// One foreign purchase with the expense that settles it.
    pub fn get_pending(&self, id: &str) -> (result: Result<PendingDetail>)
        ensures
            error::outcome(result) == pending_detailed(self.deep_view(), id@),
    {
        let record = match self.fetch_pending(id) {
            Err(error) => {
                return Err(error);
            },
            Ok(record) => record,
        };
        match self.linked_transaction(&record.transaction_id) {
            Err(error) => Err(error),
            Ok(transaction) => Ok(PendingDetail { pending: record, transaction }),
        }
    }

    /// A page of foreign purchases, from the oldest to the newest.
    pub fn list_pending(&self, filters: &PendingFilters) -> (result: Result<PendingListResult>)
        ensures
            error::outcome(result) == pending_listed(self.deep_view(), filters.deep_view()),
    {
        let (status, limit) = match check_list(filters) {
            Err(error) => {
                return Err(error);
            },
            Ok(checked) => checked,
        };
        let found = order::sort::<PendingExpenseRow, ByDate>(self.listed_rows(filters, status));
        assert(found.deep_view().len() == found.len());
        let total = match query::counted(found.len()) {
            Err(error) => {
                return Err(error);
            },
            Ok(total) => total,
        };
        let offset = filters.filters.offset;
        match decode_all(&order::take_page(found, offset, limit)) {
            Err(error) => Err(error),
            Ok(items) => Ok(
                PendingListResult { items, total, limit, offset, as_of: filters.as_of.clone() },
            ),
        }
    }

    /// The logged changes of a foreign purchase, from the first to the last.
    pub fn pending_history(&self, id: &str) -> (result: Result<Vec<PendingAuditRecord>>)
        ensures
            error::outcome(result) == pending_history(self.deep_view(), id@),
    {
        match self.fetch_pending(id) {
            Err(error) => {
                return Err(error);
            },
            Ok(_) => {},
        }
        let ghost log = self.pending_audit_log.deep_view();
        let mut records: Vec<PendingAuditRecord> = Vec::new();
        let mut i: usize = 0;
        assert(log.take(0).len() == 0);
        while i < self.pending_audit_log.len()
            invariant
                log == self.pending_audit_log.deep_view(),
                i <= self.pending_audit_log.len(),
                records.deep_view() == history_of(log.take(i as int), id@),
            decreases self.pending_audit_log.len() - i,
        {
            assert(log.take(i + 1).drop_last() =~= log.take(i as int));
            assert(log.take(i + 1).last() == log[i as int]);
            let entry = &self.pending_audit_log[i];
            i += 1;
            if text::same(entry.pending_id.as_str(), id) {
                records.push(
                    PendingAuditRecord {
                        id: i as u64,
                        pending_id: entry.pending_id.clone(),
                        action: entry.action.clone(),
                        before: match &entry.before {
                            Some(before) => Some(before.copy()),
                            None => None,
                        },
                        after: entry.after.copy(),
                        created_at: entry.created_at.clone(),
                    },
                );
            }
        }
        assert(log.take(i as int) =~= log);
        Ok(records)
    }
}

pub(crate) proof fn lemma_pending_records(rows: Seq<PendingExpenseRow<Text>>)
    ensures
        pending_records(rows) matches Ok(records) ==> {
            &&& records.len() == rows.len()
            &&& forall|i: int|
                0 <= i < rows.len() ==> ledger::pending_record(rows[i]) == Ok::<_, ErrorView>(
                    #[trigger] records[i],
                )
        },
    decreases rows.len(),
{
    if rows.len() > 0 {
        lemma_pending_records(rows.drop_last());
        if let Ok(records) = pending_records(rows) {
            assert forall|i: int| 0 <= i < rows.len() implies ledger::pending_record(rows[i])
                == Ok::<_, ErrorView>(#[trigger] records[i]) by {
                if i < rows.len() - 1 {
                    assert(rows.drop_last()[i] == rows[i]);
                }
            }
        }
    }
}

/// A page of foreign purchases goes from the oldest to the newest and holds only those that were
/// asked for. One of those that are due holds nothing that is settled, cancelled or put off.
pub proof fn law_purchase_lists_are_in_order(ledger: Ledger, filters: PendingFilters<Text>)
    requires
        pending_listed(ledger, filters) is Ok,
    ensures
        ({
            let items = pending_listed(ledger, filters)->Ok_0.items;
            &&& items.len() <= pending_listed(ledger, filters)->Ok_0.limit
            &&& forall|i: int|
                0 <= i < items.len() ==> {
                    let item = #[trigger] items[i];
                    &&& query::in_period(filters.filters, item.date)
                    &&& filters.currency matches Some(currency) ==> item.currency == currency
                    &&& filters.status is None ==> item.status == PendingStatus::Pending
                    &&& filters.due_only ==> item.status == PendingStatus::Pending
                        && !text::before(filters.as_of, item.remind_on)
                }
            &&& forall|i: int, j: int|
                0 <= i < j < items.len() ==> !text::before(
                    (#[trigger] items[j]).date,
                    (#[trigger] items[i]).date,
                )
        }),
{
    broadcast use vstd::seq_lib::group_to_multiset_ensures;

    let (status, limit) = checked_list(filters)->Ok_0;
    let rows = ledger.pending_expenses;
    let wanted = lists(filters, status);
    let chosen = rows.filter(wanted);
    let ordered = order::sorted::<PendingExpenseRow, ByDate>(chosen);
    order::law_sorting_orders_all_records::<PendingExpenseRow, ByDate>(chosen);
    let offset = filters.filters.offset as int;
    let shown = order::page(ordered, offset, limit as int);
    lemma_pending_records(shown);
    let items = pending_listed(ledger, filters)->Ok_0.items;
    let from = if offset < ordered.len() {
        offset
    } else {
        ordered.len() as int
    };
    assert forall|i: int| 0 <= i < items.len() implies #[trigger] shown[i] == ordered[from + i]
        && is_listed(filters, status, shown[i]) by {
        assert(ordered.contains(shown[i]));
        assert(ordered.to_multiset().count(shown[i]) > 0);
        assert(chosen.contains(shown[i]));
        let k = choose|k: int| 0 <= k < chosen.len() && chosen[k] == shown[i];
        rows.lemma_filter_pred(wanted, k);
    }
    assert forall|i: int| 0 <= i < items.len() implies {
        let item = #[trigger] items[i];
        &&& query::in_period(filters.filters, item.date)
        &&& filters.currency matches Some(currency) ==> item.currency == currency
        &&& filters.status is None ==> item.status == PendingStatus::Pending
        &&& filters.due_only ==> item.status == PendingStatus::Pending && !text::before(
            filters.as_of,
            item.remind_on,
        )
    } by {
        assert(is_listed(filters, status, shown[i]));
    }
    assert forall|i: int, j: int| 0 <= i < j < items.len() implies !text::before(
        (#[trigger] items[j]).date,
        (#[trigger] items[i]).date,
    ) by {
        assert(shown[i] == ordered[from + i] && shown[j] == ordered[from + j]);
        assert(!order::key_before(
            <ByDate as Order<PendingExpenseRow>>::key(ordered[from + j]),
            <ByDate as Order<PendingExpenseRow>>::key(ordered[from + i]),
        ));
    }
}

} // verus!
