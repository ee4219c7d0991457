//! Questions about a ledger: one transaction, a page of them, the totals of a period, the
//! categories and the history of a transaction.
use vstd::prelude::*;

use crate::calendar;
use crate::error;
use crate::error::{AppError, ErrorView, Result};
use crate::ledger;
use crate::ledger::Ledger;
use crate::models;
use crate::models::{
    AuditEntry, AuditRecord, Category, Filters, Kind, ListResult,
    PendingExpenseRecord, PendingExpenseRow, TransactionDetail, TransactionRecord,
    TransactionRow,
};
use crate::money;
use crate::order;
use crate::order::{Key, Order};
use crate::pending;
use crate::store::Store;
use crate::text;
use crate::text::Text;

verus! {

/// Transactions from the oldest to the newest.
pub struct ByTime;

impl Order<TransactionRow> for ByTime {
    open spec fn key(record: TransactionRow<Text>) -> Key {
        (record.date, record.created_at, record.id)
    }

    fn comes_before(left: &TransactionRow, right: &TransactionRow) -> (answer: bool) {
        order::is_key_before(
            (left.date.as_str(), left.created_at.as_str(), left.id.as_str()),
            (right.date.as_str(), right.created_at.as_str(), right.id.as_str()),
        )
    }
}

/// The error for totals beyond the range of the integers they are kept in.
pub open spec fn overflow_error() -> ErrorView {
    ErrorView { code: "AMOUNT_OVERFLOW"@, message: "金额汇总超出可表示范围"@ }
}

pub(crate) fn overflow() -> (error: AppError)
    ensures
        error.deep_view() == overflow_error(),
{
    AppError::new("AMOUNT_OVERFLOW", "金额汇总超出可表示范围")
}

/// A number, or the error where an `i128` does not hold it.
pub open spec fn in_range(value: int) -> core::result::Result<i128, ErrorView> {
    if i128::MIN <= value <= i128::MAX {
        Ok(value as i128)
    } else {
        Err(overflow_error())
    }
}

/// The sum, or an error where it is out of range.
pub fn checked_add(left: i128, right: i128) -> (result: Result<i128>)
    ensures
        error::outcome(result) == in_range(left + right),
{
    match left.checked_add(right) {
        Some(sum) => Ok(sum),
        None => Err(overflow()),
    }
}

/// The difference, or an error where it is out of range.
pub fn checked_sub(left: i128, right: i128) -> (result: Result<i128>)
    ensures
        error::outcome(result) == in_range(left - right),
{
    match left.checked_sub(right) {
        Some(difference) => Ok(difference),
        None => Err(overflow()),
    }
}

/// What checking the month of a query answers.
pub open spec fn checked_month(month: Option<Text>) -> core::result::Result<(), ErrorView> {
    match month {
        None => Ok(()),
        Some(month) => if vstd::utf8::encode_utf8(month).len() != 7 {
            Err(error::invalid_input("月份必须为 YYYY-MM"@))
        } else if calendar::is_date(month + "-01"@) {
            Ok(())
        } else {
            Err(calendar::date_error())
        },
    }
}

/// What checking an optional date answers.
pub open spec fn checked_date(date: Option<Text>) -> core::result::Result<(), ErrorView> {
    match date {
        Some(date) => if calendar::is_date(date) {
            Ok(())
        } else {
            Err(calendar::date_error())
        },
        None => Ok(()),
    }
}

/// What checking the period of a query answers.
pub open spec fn checked_filters(filters: Filters<Text>) -> core::result::Result<(), ErrorView> {
    match (checked_month(filters.month), checked_date(filters.from), checked_date(filters.to)) {
        (Err(error), _, _) => Err(error),
        (_, Err(error), _) => Err(error),
        (_, _, Err(error)) => Err(error),
        (Ok(_), Ok(_), Ok(_)) => if filters.from is Some && filters.to is Some && text::before(
            filters.to->0,
            filters.from->0,
        ) {
            Err(error::invalid_input("from 不能晚于 to"@))
        } else {
            Ok(())
        },
    }
}

fn validate_optional_date(date: &Option<String>) -> (result: Result<()>)
    ensures
        error::outcome(result) == checked_date(date.deep_view()),
{
    match date {
        Some(date) => calendar::validate_date(date.as_str()),
        None => Ok(()),
    }
}

/// Accepts a month and dates that the calendar has, in order.
pub fn validate_filters(filters: &Filters) -> (result: Result<()>)
    ensures
        error::outcome(result) == checked_filters(filters.deep_view()),
{
    match &filters.month {
        Some(month) => {
            if month.as_str().as_bytes().len() != 7 {
                return Err(AppError::invalid("月份必须为 YYYY-MM"));
            }
            match calendar::validate_date(text::joined(month.as_str(), "-01").as_str()) {
                Err(error) => {
                    return Err(error);
                },
                Ok(_) => {},
            }
        },
        None => {},
    }
    match validate_optional_date(&filters.from) {
        Err(error) => {
            return Err(error);
        },
        Ok(_) => {},
    }
    match validate_optional_date(&filters.to) {
        Err(error) => {
            return Err(error);
        },
        Ok(_) => {},
    }
    match (&filters.from, &filters.to) {
        (Some(from), Some(to)) => if text::is_before(to.as_str(), from.as_str()) {
            Err(AppError::invalid("from 不能晚于 to"))
        } else {
            Ok(())
        },
        _ => Ok(()),
    }
}

/// Whether a date lies in the period of a query.
pub open spec fn in_period(filters: Filters<Text>, date: Text) -> bool {
    &&& filters.month matches Some(month) ==> text::begins_with(date, month)
    &&& filters.from matches Some(from) ==> !text::before(date, from)
    &&& filters.to matches Some(to) ==> !text::before(to, date)
}

/// Whether a date lies in the period of a query.
pub fn is_in_period(filters: &Filters, date: &str) -> (answer: bool)
    ensures
        answer == in_period(filters.deep_view(), date@),
{
    let month = match &filters.month {
        Some(month) => text::starts_with(date, month.as_str()),
        None => true,
    };
    let from = match &filters.from {
        Some(from) => !text::is_before(date, from.as_str()),
        None => true,
    };
    let to = match &filters.to {
        Some(to) => !text::is_before(to.as_str(), date),
        None => true,
    };
    month && from && to
}

/// Whether an optional text holds a keyword; an absent one counts as empty.
pub open spec fn mentions(text: Option<Text>, keyword: Text) -> bool {
    match text {
        Some(text) => text::occurs(text, keyword),
        None => text::occurs(Seq::empty(), keyword),
    }
}

/// Whether an optional text holds a keyword.
pub fn has_keyword(text: &Option<String>, keyword: &str) -> (answer: bool)
    ensures
        answer == mentions(text.deep_view(), keyword@),
{
    match text {
        Some(text) => text::contains(text.as_str(), keyword),
        None => text::contains(String::new().as_str(), keyword),
    }
}

/// The merchant of the foreign purchase that an expense settles.
pub open spec fn merchant_of(purchases: Seq<PendingExpenseRow<Text>>, id: Text) -> Option<Text> {
    match text::position(ledger::links(purchases), Some(id)) {
        Some(i) => purchases[i].merchant,
        None => None,
    }
}

/// Whether a transaction is one that a query is about. A keyword is looked for in its note, its
/// id, its channel and the merchant of the foreign purchase that it settles.
pub open spec fn is_asked_for(
    ledger: Ledger,
    filters: Filters<Text>,
    include_voided: bool,
    row: TransactionRow<Text>,
) -> bool {
    &&& include_voided || !row.voided
    &&& in_period(filters, row.date)
    &&& filters.kind matches Some(kind) ==> row.kind == kind
    &&& filters.category is Some ==> ledger::category_of(ledger, row) == filters.category
    &&& filters.keyword matches Some(keyword) ==> mentions(row.note, keyword) || text::occurs(
        row.id,
        keyword,
    ) || mentions(row.channel, keyword) || mentions(
        merchant_of(ledger.pending_expenses, row.id),
        keyword,
    )
}

/// The transactions that a query is about.
pub open spec fn asks_for(
    ledger: Ledger,
    filters: Filters<Text>,
    include_voided: bool,
) -> spec_fn(TransactionRow<Text>) -> bool {
    |row: TransactionRow<Text>| is_asked_for(ledger, filters, include_voided, row)
}

impl Store {
    /// The place of the foreign purchase that an expense settles.
    fn find_link(&self, id: &str) -> (result: Option<usize>)
        ensures
            match result {
                Some(i) => text::position(
                    ledger::links(self.deep_view().pending_expenses),
                    Some(id@),
                ) == Some(i as int) && i < self.pending_expenses.len(),
                None => text::position(
                    ledger::links(self.deep_view().pending_expenses),
                    Some(id@),
                ) is None,
            },
    {
        let ghost all = ledger::links(self.deep_view().pending_expenses);
        let mut i: usize = 0;
        while i < self.pending_expenses.len()
            invariant
                all == ledger::links(self.deep_view().pending_expenses),
                i <= self.pending_expenses.len(),
                forall|j: int| 0 <= j < i ==> all[j] != Some(id@),
            decreases self.pending_expenses.len() - i,
        {
            let row = &self.pending_expenses[i];
            assert(all[i as int] == row.transaction_id.deep_view());
            let hit = match &row.transaction_id {
                Some(linked) => text::same(linked.as_str(), id),
                None => false,
            };
            if hit {
                proof {
                    text::lemma_position_is(all, Some(id@), i as int);
                }
                return Some(i);
            }
            i += 1;
        }
        proof {
            text::lemma_position(all, Some(id@));
        }
        None
    }

    fn has_merchant(&self, id: &str, keyword: &str) -> (answer: bool)
        ensures
            answer == mentions(merchant_of(self.deep_view().pending_expenses, id@), keyword@),
    {
        match self.find_link(id) {
            Some(i) => has_keyword(&self.pending_expenses[i].merchant, keyword),
            None => has_keyword(&None, keyword),
        }
    }

    fn is_asked_for(&self, filters: &Filters, include_voided: bool, row: &TransactionRow) -> (
        answer: bool)
        ensures
            answer == is_asked_for(
                self.deep_view(),
                filters.deep_view(),
                include_voided,
                row.deep_view(),
            ),
    {
        let kind = match filters.kind {
            Some(kind) => row.kind == kind,
            None => true,
        };
        let category = filters.category.is_none() || text::same_option(
            &self.category_of(row),
            &filters.category,
        );
        let keyword = match &filters.keyword {
            Some(keyword) => has_keyword(&row.note, keyword.as_str()) || text::contains(
                row.id.as_str(),
                keyword.as_str(),
            ) || has_keyword(&row.channel, keyword.as_str()) || self.has_merchant(
                row.id.as_str(),
                keyword.as_str(),
            ),
            None => true,
        };
        (include_voided || !row.voided) && is_in_period(filters, row.date.as_str()) && kind
            && category && keyword
    }

    /// The transactions that a query is about.
    pub(crate) fn select(&self, filters: &Filters, include_voided: bool) -> (rows: Vec<
        TransactionRow,
    >)
        ensures
            rows.deep_view() == self.deep_view().transactions.filter(
                asks_for(self.deep_view(), filters.deep_view(), include_voided),
            ),
    {
        let ghost all = self.transactions.deep_view();
        let ghost wanted = asks_for(self.deep_view(), filters.deep_view(), include_voided);
        let mut found: Vec<TransactionRow> = Vec::new();
        let mut i: usize = 0;
        proof {
            reveal(Seq::filter);
            assert(all.take(0).filter(wanted) =~= Seq::<TransactionRow<Text>>::empty());
        }
        while i < self.transactions.len()
            invariant
                all == self.transactions.deep_view(),
                wanted == asks_for(self.deep_view(), filters.deep_view(), include_voided),
                i <= self.transactions.len(),
                found.deep_view() == all.take(i as int).filter(wanted),
            decreases self.transactions.len() - i,
        {
            proof {
                reveal(Seq::filter);
                assert(all.take(i + 1).drop_last() =~= all.take(i as int));
                assert(all.take(i + 1).last() == all[i as int]);
            }
            let fits = self.is_asked_for(filters, include_voided, &self.transactions[i]);
            assert(fits == wanted(all[i as int]));
            if fits {
                found.push(self.transactions[i].copy());
            }
            i += 1;
        }
        assert(all.take(i as int) =~= all);
        found
    }
}

/// The number of items on a page.
pub open spec fn page_size(limit: i64) -> i64 {
    if limit == 0 {
        50
    } else {
        limit
    }
}

/// What checking the page of a query answers.
pub open spec fn checked_page(limit: i64, offset: i64) -> core::result::Result<i64, ErrorView> {
    if 1 <= page_size(limit) <= 1000 && offset >= 0 {
        Ok(page_size(limit))
    } else {
        Err(error::invalid_input("limit 必须为 1..1000，offset 必须大于等于 0"@))
    }
}

/// Accepts a page and gives the number of items on it.
pub(crate) fn validate_page(limit: i64, offset: i64) -> (result: Result<i64>)
    ensures
        error::outcome(result) == checked_page(limit, offset),
{
    let size: i64 = if limit == 0 {
        50
    } else {
        limit
    };
    if size < 1 || size > 1000 || offset < 0 {
        return Err(AppError::invalid("limit 必须为 1..1000，offset 必须大于等于 0"));
    }
    Ok(size)
}

/// What asking for a page of transactions answers: those from the newest to the oldest. Only
/// those on the page are reported, so that one without a category elsewhere does no harm.
pub open spec fn listed(ledger: Ledger, filters: Filters<Text>) -> core::result::Result<
    ListResult<Seq<TransactionRecord<Text>>>,
    ErrorView,
> {
    match (checked_filters(filters), checked_page(filters.limit, filters.offset)) {
        (Err(error), _) => Err(error),
        (_, Err(error)) => Err(error),
        (Ok(_), Ok(limit)) => {
            let found = order::sorted::<TransactionRow, ByTime>(
                ledger.transactions.filter(asks_for(ledger, filters, filters.include_voided)),
            ).reverse();
            let shown = order::page(found, filters.offset as int, limit as int);
            if found.len() > i64::MAX {
                Err(overflow_error())
            } else {
                match ledger::records_of(ledger, shown) {
                    None => Err(ledger::no_category_error()),
                    Some(items) => Ok(
                        ListResult {
                            items,
                            total: found.len() as i64,
                            limit,
                            offset: filters.offset,
                        },
                    ),
                }
            }
        },
    }
}

/// A length as a signed number.
pub(crate) fn counted(length: usize) -> (result: Result<i64>)
    ensures
        error::outcome(result) == if length > i64::MAX {
            Err::<i64, ErrorView>(overflow_error())
        } else {
            Ok(length as i64)
        },
{
    if length as u64 > i64::MAX as u64 {
        Err(overflow())
    } else {
        Ok(length as i64)
    }
}

impl Store {
    /// A page of transactions, from the newest to the oldest.
    pub fn list(&self, filters: &Filters) -> (result: Result<ListResult>)
        ensures
            error::outcome(result) == listed(self.deep_view(), filters.deep_view()),
    {
        match validate_filters(filters) {
            Err(error) => {
                return Err(error);
            },
            Ok(_) => {},
        }
        let limit = match validate_page(filters.limit, filters.offset) {
            Err(error) => {
                return Err(error);
            },
            Ok(limit) => limit,
        };
        let chosen = self.select(filters, filters.include_voided);
        let found = order::reverse(order::sort::<TransactionRow, ByTime>(chosen));
        proof {
            assert(found.deep_view().len() == found.len());
        }
        let total = match counted(found.len()) {
            Err(error) => {
                return Err(error);
            },
            Ok(total) => total,
        };
        match self.report_all(&order::take_page(found, filters.offset, limit)) {
            Err(error) => Err(error),
            Ok(items) => Ok(ListResult { items, total, limit, offset: filters.offset }),
        }
    }
}

/// Which transactions are refunds of an expense.
pub open spec fn refund_of(id: Text) -> spec_fn(TransactionRow<Text>) -> bool {
    |row: TransactionRow<Text>| row.original_id == Some(id)
}

fn choose_refunds(rows: &Vec<TransactionRow>, id: &str) -> (result: Vec<TransactionRow>)
    ensures
        result.deep_view() == rows.deep_view().filter(refund_of(id@)),
{
    let ghost all = rows.deep_view();
    let ghost wanted = refund_of(id@);
    let mut found: Vec<TransactionRow> = Vec::new();
    let mut i: usize = 0;
    proof {
        reveal(Seq::filter);
        assert(all.take(0).filter(wanted) =~= Seq::<TransactionRow<Text>>::empty());
    }
    while i < rows.len()
        invariant
            all == rows.deep_view(),
            wanted == refund_of(id@),
            i <= rows.len(),
            found.deep_view() == all.take(i as int).filter(wanted),
        decreases rows.len() - i,
    {
        proof {
            reveal(Seq::filter);
            assert(all.take(i + 1).drop_last() =~= all.take(i as int));
            assert(all.take(i + 1).last() == all[i as int]);
        }
        let fits = match &rows[i].original_id {
            Some(original) => text::same(original.as_str(), id),
            None => false,
        };
        assert(fits == wanted(all[i as int]));
        if fits {
            found.push(rows[i].copy());
        }
        i += 1;
    }
    assert(all.take(i as int) =~= all);
    found
}

/// The sum of the amounts of all transactions that are not voided.
pub open spec fn active_total(records: Seq<TransactionRecord<Text>>) -> int
    decreases records.len(),
{
    if records.len() == 0 {
        0
    } else {
        active_total(records.drop_last()) + if records.last().voided {
            0
        } else {
            records.last().amount.0 as int
        }
    }
}

proof fn lemma_active_total(records: Seq<TransactionRecord<Text>>)
    ensures
        i64::MIN * records.len() <= active_total(records) <= i64::MAX * records.len(),
    decreases records.len(),
{
    if records.len() > 0 {
        lemma_active_total(records.drop_last());
    }
}

fn sum_active(records: &Vec<TransactionRecord>) -> (total: i128)
    ensures
        total == active_total(records.deep_view()),
        i64::MIN * u64::MAX <= total <= i64::MAX * u64::MAX,
{
    let ghost all = records.deep_view();
    let mut total: i128 = 0;
    let mut i: usize = 0;
    while i < records.len()
        invariant
            all == records.deep_view(),
            i <= records.len(),
            total == active_total(all.take(i as int)),
        decreases records.len() - i,
    {
        proof {
            assert(all.take(i + 1).drop_last() =~= all.take(i as int));
            assert(all.take(i + 1).last() == all[i as int]);
            lemma_active_total(all.take(i + 1));
        }
        if !records[i].voided {
            total += records[i].amount.minor() as i128;
        }
        i += 1;
    }
    proof {
        assert(all.take(i as int) =~= all);
        lemma_active_total(all);
    }
    total
}

/// How much of an expense has come back.
pub open spec fn refund_state(amount: int, total: int) -> Text {
    if total == 0 {
        "none"@
    } else if total < amount {
        "partial"@
    } else if total == amount {
        "full"@
    } else {
        "excess"@
    }
}

/// The foreign purchase that an expense settles.
pub open spec fn settled_by(ledger: Ledger, id: Text) -> core::result::Result<
    Option<PendingExpenseRecord<Text>>,
    ErrorView,
> {
    match text::position(ledger::links(ledger.pending_expenses), Some(id)) {
        None => Ok(None),
        Some(i) => match ledger::pending_record(ledger.pending_expenses[i]) {
            Ok(record) => Ok(Some(record)),
            Err(error) => Err(error),
        },
    }
}

/// What asking for one transaction answers: the transaction, its refunds from the oldest to the
/// newest, and of an expense what is left of it.
pub open spec fn detailed(ledger: Ledger, id: Text) -> core::result::Result<
    TransactionDetail<Text, Seq<TransactionRecord<Text>>>,
    ErrorView,
> {
    match (
        ledger::fetched(ledger, id),
        ledger::records_of(
            ledger,
            order::sorted::<TransactionRow, ByTime>(ledger.transactions.filter(refund_of(id))),
        ),
        settled_by(ledger, id),
    ) {
        (Err(error), _, _) => Err(error),
        (_, None, _) => Err(ledger::no_category_error()),
        (_, _, Err(error)) => Err(error),
        (Ok(transaction), Some(refunds), Ok(foreign_expense)) => {
            let total = active_total(refunds);
            let amount = transaction.amount.0 as int;
            let is_expense = transaction.kind == Kind::Expense;
            Ok(
                TransactionDetail {
                    transaction,
                    foreign_expense,
                    refunds,
                    refund_total: money::minor_text(total),
                    net_expense: if is_expense {
                        Some(money::minor_text(amount - total))
                    } else {
                        None
                    },
                    refund_status: if is_expense {
                        Some(refund_state(amount, total))
                    } else {
                        None
                    },
                    excess_refund: money::minor_text(
                        if is_expense && total > amount {
                            total - amount
                        } else {
                            0
                        },
                    ),
                },
            )
        },
    }
}

/// The logged changes of one transaction, with their numbers in the log.
pub open spec fn history_of(log: Seq<AuditEntry<Text>>, id: Text) -> Seq<AuditRecord<Text>>
    decreases log.len(),
{
    if log.len() == 0 {
        Seq::empty()
    } else {
        let earlier = history_of(log.drop_last(), id);
        let entry = log.last();
        if entry.transaction_id == id {
            earlier.push(
                AuditRecord {
                    id: log.len() as u64,
                    transaction_id: entry.transaction_id,
                    action: entry.action,
                    before: entry.before,
                    after: entry.after,
                    created_at: entry.created_at,
                },
            )
        } else {
            earlier
        }
    }
}

/// What asking for the history of a transaction answers.
pub open spec fn history(ledger: Ledger, id: Text) -> core::result::Result<
    Seq<AuditRecord<Text>>,
    ErrorView,
> {
    match ledger::fetched(ledger, id) {
        Err(error) => Err(error),
        Ok(_) => Ok(history_of(ledger.audit_log, id)),
    }
}

/// Categories by their kinds, and by their names within a kind.
pub struct ByKind;

impl Order<Category> for ByKind {
    open spec fn key(record: Category<Text>) -> Key {
        (models::kind_name(record.kind), record.name, Seq::empty())
    }

    fn comes_before(left: &Category, right: &Category) -> (answer: bool) {
        assert(!text::before(Seq::<char>::empty(), Seq::<char>::empty()));
        let left_kind = left.kind.as_str();
        let right_kind = right.kind.as_str();
        text::is_before(left_kind, right_kind) || (text::same(left_kind, right_kind)
            && text::is_before(left.name.as_str(), right.name.as_str()))
    }
}

/// What creating a category does to a ledger and answers.
pub open spec fn category_added(ledger: Ledger, name: Text, kind: Kind) -> (
    Ledger,
    core::result::Result<Category<Text>, ErrorView>,
) {
    if !text::is_trimmed(name) {
        (ledger, Err(error::invalid_input("分类名称不能为空或包含首尾空白"@)))
    } else if kind == Kind::Refund {
        (ledger, Err(error::invalid_input("退款继承原支出分类，不支持创建退款分类"@)))
    } else {
        match ledger::category_kind(ledger, name) {
            Some(existing) => if existing == kind {
                (ledger, Ok(Category { name, kind }))
            } else {
                (
                    ledger,
                    Err(
                        ErrorView {
                            code: "CATEGORY_CONFLICT"@,
                            message: "此分类名称已用于另一种收支类型"@,
                        },
                    ),
                )
            },
            None => (
                Ledger { categories: ledger.categories.push(Category { name, kind }), ..ledger },
                Ok(Category { name, kind }),
            ),
        }
    }
}

impl Store {
    /// The foreign purchase that an expense settles.
    fn find_by_transaction(&self, id: &str) -> (result: Result<Option<PendingExpenseRecord>>)
        ensures
            error::outcome(result) == settled_by(self.deep_view(), id@),
    {
        match self.find_link(id) {
            None => Ok(None),
            Some(i) => match pending::decode_pending(&self.pending_expenses[i]) {
                Ok(record) => Ok(Some(record)),
                Err(error) => Err(error),
            },
        }
    }

    /// One transaction with its refunds.
    pub fn get(&self, id: &str) -> (result: Result<TransactionDetail>)
        ensures
            error::outcome(result) == detailed(self.deep_view(), id@),
    {
        let transaction = match self.fetch_record(id) {
            Err(error) => {
                return Err(error);
            },
            Ok(transaction) => transaction,
        };
        let rows = order::sort::<TransactionRow, ByTime>(choose_refunds(&self.transactions, id));
        let refunds = match self.report_all(&rows) {
            Err(error) => {
                return Err(error);
            },
            Ok(refunds) => refunds,
        };
        let foreign_expense = match self.find_by_transaction(id) {
            Err(error) => {
                return Err(error);
            },
            Ok(foreign_expense) => foreign_expense,
        };
        let total = sum_active(&refunds);
        let amount: i128 = transaction.amount.minor() as i128;
        let refund_total = money::format_minor(total);
        if transaction.kind != Kind::Expense {
            return Ok(
                TransactionDetail {
                    transaction,
                    foreign_expense,
                    refunds,
                    refund_total,
                    net_expense: None,
                    refund_status: None,
                    excess_refund: money::format_minor(0),
                },
            );
        }
        let status = if total == 0 {
            "none"
        } else if total < amount {
            "partial"
        } else if total == amount {
            "full"
        } else {
            "excess"
        };
        let excess: i128 = if total > amount {
            total - amount
        } else {
            0
        };
        Ok(
            TransactionDetail {
                transaction,
                foreign_expense,
                refunds,
                refund_total,
                net_expense: Some(money::format_minor(amount - total)),
                refund_status: Some(status.to_owned()),
                excess_refund: money::format_minor(excess),
            },
        )
    }

    /// The logged changes of a transaction, from the first to the last.
    pub fn history(&self, id: &str) -> (result: Result<Vec<AuditRecord>>)
        ensures
            error::outcome(result) == history(self.deep_view(), id@),
    {
        match self.fetch_record(id) {
            Err(error) => {
                return Err(error);
            },
            Ok(_) => {},
        }
        let ghost log = self.audit_log.deep_view();
        let mut records: Vec<AuditRecord> = Vec::new();
        let mut i: usize = 0;
        assert(log.take(0).len() == 0);
        while i < self.audit_log.len()
            invariant
                log == self.audit_log.deep_view(),
                i <= self.audit_log.len(),
                records.deep_view() == history_of(log.take(i as int), id@),
            decreases self.audit_log.len() - i,
        {
            assert(log.take(i + 1).drop_last() =~= log.take(i as int));
            assert(log.take(i + 1).last() == log[i as int]);
            let entry = &self.audit_log[i];
            i += 1;
            if text::same(entry.transaction_id.as_str(), id) {
                records.push(
                    AuditRecord {
                        id: i as u64,
                        transaction_id: entry.transaction_id.clone(),
                        action: entry.action.clone(),
                        before: match &entry.before {
                            Some(before) => Some(before.copy()),
                            None => None,
                        },
                        after: entry.after.copy(),
                        created_at: entry.created_at.clone(),
                    },
                );
            }
        }
        assert(log.take(i as int) =~= log);
        Ok(records)
    }

    /// All categories, expenses before income.
    pub fn categories(&self) -> (result: Result<Vec<Category>>)
        ensures
            error::outcome(result) == Ok::<Seq<Category<Text>>, ErrorView>(
                order::sorted::<Category, ByKind>(self.deep_view().categories),
            ),
    {
        let ghost all = self.categories.deep_view();
        let mut copies: Vec<Category> = Vec::new();
        let mut i: usize = 0;
        while i < self.categories.len()
            invariant
                all == self.categories.deep_view(),
                i <= self.categories.len(),
                copies.deep_view() == all.take(i as int),
            decreases self.categories.len() - i,
        {
            copies.push(self.categories[i].copy());
            i += 1;
            assert(all.take(i as int) =~= all.take(i - 1).push(all[i - 1]));
        }
        assert(all.take(i as int) =~= all);
        Ok(order::sort::<Category, ByKind>(copies))
    }

    /// Creates a category, unless there is one of that name already.
    pub fn add_category(&mut self, name: &str, kind: Kind) -> (result: Result<Category>)
        ensures
            (final(self).deep_view(), error::outcome(result)) == category_added(
                old(self).deep_view(),
                name@,
                kind,
            ),
            ledger::sound(old(self).deep_view()) ==> ledger::sound(final(self).deep_view()),
    {
        let ghost expected = category_added(self.deep_view(), name@, kind).0;
        proof {
            if ledger::sound(self.deep_view()) {
                law_categories_keep_soundness(self.deep_view(), name@, kind);
            }
        }
        if !text::trimmed(name) {
            return Err(AppError::invalid("分类名称不能为空或包含首尾空白"));
        }
        if kind == Kind::Refund {
            return Err(AppError::invalid("退款继承原支出分类，不支持创建退款分类"));
        }
        match self.find_category(name) {
            Some(i) => if self.categories[i].kind != kind {
                return Err(AppError::new("CATEGORY_CONFLICT", "此分类名称已用于另一种收支类型"));
            },
            None => {
                self.categories.push(Category { name: name.to_owned(), kind });
            },
        }
        assert(self.deep_view() =~= expected);
        Ok(Category { name: name.to_owned(), kind })
    }
}

/// A ledger stays sound when a category is created.
pub proof fn law_categories_keep_soundness(before: Ledger, name: Text, kind: Kind)
    requires
        ledger::sound(before),
    ensures
        ledger::sound(category_added(before, name, kind).0),
{
    let after = category_added(before, name, kind).0;
    if after != before {
        let old_names = ledger::names(before.categories);
        text::lemma_position(old_names, name);
        assert(ledger::names(after.categories) =~= old_names.push(name));
        assert(ledger::extends(after, before));
        ledger::lemma_extends(after, before);
        ledger::lemma_rows_stay_sound(after, before);
        assert forall|i: int|
            0 <= i < after.transactions.len() implies ledger::transaction_is_sound(
            after,
            #[trigger] after.transactions[i],
        ) by {
            assert(ledger::transaction_is_sound(before, before.transactions[i]));
        }
        assert forall|i: int|
            0 <= i < after.pending_expenses.len() implies ledger::pending_is_sound(
            after,
            #[trigger] after.pending_expenses[i],
        ) by {
            assert(ledger::pending_is_sound(before, before.pending_expenses[i]));
        }
    }
}

/// Creating a category a second time changes nothing and answers the same.
pub proof fn law_creating_a_category_twice(before: Ledger, name: Text, kind: Kind)
    requires
        category_added(before, name, kind).1 is Ok,
    ensures
        ({
            let (after, outcome) = category_added(before, name, kind);
            category_added(after, name, kind) == (after, outcome)
        }),
{
    let after = category_added(before, name, kind).0;
    if after != before {
        let old_names = ledger::names(before.categories);
        text::lemma_position_push(old_names, name, name);
        assert(ledger::names(after.categories) =~= old_names.push(name));
    }
}

} // verus!
