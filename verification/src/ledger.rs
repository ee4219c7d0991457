//! The contents of a ledger: its tables, how their rows refer to each other and what always holds
//! of them.
use vstd::prelude::*;

use crate::calendar;
use crate::error;
use crate::error::ErrorView;
use crate::foreign;
use crate::models::{
    AuditEntry, Category, ConfirmPendingExpense, Kind, NewPendingExpense, NewTransaction,
    PendingAuditEntry, PendingExpenseRecord, PendingExpenseRow, PendingStatus, PendingWriteResult,
    TransactionRecord, TransactionRow, UpdateTransaction, WriteResult,
};
use crate::money::Money;
use crate::occurrence;
use crate::text;
use crate::text::Text;

verus! {

/// A change that was asked for.
#[verifier::ext_equal]
#[derive(Debug, Clone)]
pub enum Operation<T = String> {
    Add { input: NewTransaction<T> },
    Update { id: T, patch: UpdateTransaction<T> },
    Void { id: T, cascade_refunds: bool },
    PendingAdd { input: NewPendingExpense<T> },
    PendingConfirm { id: T, input: ConfirmPendingExpense<T> },
    PendingSnooze { id: T, until: T },
    PendingCancel { id: T },
    /// A stored request of a form that no operation has.
    Unknown,
}

impl DeepView for Operation {
    type V = Operation<Text>;

    open spec fn deep_view(&self) -> Operation<Text> {
        match self {
            Operation::Add { input } => Operation::Add { input: input.deep_view() },
            Operation::Update { id, patch } => Operation::Update {
                id: id@,
                patch: patch.deep_view(),
            },
            Operation::Void { id, cascade_refunds } => Operation::Void {
                id: id@,
                cascade_refunds: *cascade_refunds,
            },
            Operation::PendingAdd { input } => Operation::PendingAdd { input: input.deep_view() },
            Operation::PendingConfirm { id, input } => Operation::PendingConfirm {
                id: id@,
                input: input.deep_view(),
            },
            Operation::PendingSnooze { id, until } => Operation::PendingSnooze {
                id: id@,
                until: until@,
            },
            Operation::PendingCancel { id } => Operation::PendingCancel { id: id@ },
            Operation::Unknown => Operation::Unknown,
        }
    }
}

impl Operation {
    /// Whether two operations are the same in every part.
    pub fn same(&self, other: &Operation) -> (equal: bool)
        ensures
            equal == (self.deep_view() == other.deep_view()),
    {
        match (self, other) {
            (Operation::Add { input: left }, Operation::Add { input: right }) => left.same(right),
            (
                Operation::Update { id: left_id, patch: left },
                Operation::Update { id: right_id, patch: right },
            ) => *left_id == *right_id && left.same(right),
            (
                Operation::Void { id: left, cascade_refunds: left_cascade },
                Operation::Void { id: right, cascade_refunds: right_cascade },
            ) => *left == *right && *left_cascade == *right_cascade,
            (
                Operation::PendingAdd { input: left },
                Operation::PendingAdd { input: right },
            ) => left.same(right),
            (
                Operation::PendingConfirm { id: left_id, input: left },
                Operation::PendingConfirm { id: right_id, input: right },
            ) => *left_id == *right_id && left.same(right),
            (
                Operation::PendingSnooze { id: left, until: left_until },
                Operation::PendingSnooze { id: right, until: right_until },
            ) => *left == *right && *left_until == *right_until,
            (
                Operation::PendingCancel { id: left },
                Operation::PendingCancel { id: right },
            ) => *left == *right,
            (Operation::Unknown, Operation::Unknown) => true,
            _ => false,
        }
    }
}

/// The answer that a change got.
#[verifier::ext_equal]
#[derive(Debug, Clone)]
pub enum Reply<T = String, L = Vec<String>> {
    Write { result: WriteResult<T, L> },
    Pending { result: PendingWriteResult<T> },
    /// A stored answer that cannot be read; the message says why.
    Unreadable { message: T },
}

/// The answer to a change of transactions, in contracts.
pub type WriteView = WriteResult<Text, Seq<Text>>;

/// The answer to a change of foreign purchases, in contracts.
pub type PendingView = PendingWriteResult<Text>;

/// An answer, in contracts.
pub type ReplyView = Reply<Text, Seq<Text>>;

impl DeepView for Reply {
    type V = ReplyView;

    open spec fn deep_view(&self) -> ReplyView {
        match self {
            Reply::Write { result } => Reply::Write { result: result.deep_view() },
            Reply::Pending { result } => Reply::Pending { result: result.deep_view() },
            Reply::Unreadable { message } => Reply::Unreadable { message: message@ },
        }
    }
}

/// A row of the table of requests: what was asked under a request id, and the answer to it.
#[verifier::ext_equal]
#[derive(Debug, Clone)]
pub struct RequestRow<T = String, L = Vec<String>> {
    pub request_id: T,
    pub operation: Operation<T>,
    pub reply: Reply<T, L>,
    pub created_at: T,
}

/// A row of the table of requests, in contracts.
pub type RequestView = RequestRow<Text, Seq<Text>>;

impl DeepView for RequestRow {
    type V = RequestView;

    open spec fn deep_view(&self) -> RequestView {
        RequestRow {
            request_id: self.request_id@,
            operation: self.operation.deep_view(),
            reply: self.reply.deep_view(),
            created_at: self.created_at@,
        }
    }
}

/// What a change takes from outside the ledger: a text that no other change has, and the time.
#[derive(Debug, Clone)]
pub struct Stamp<T = String> {
    pub unique: T,
    pub now: T,
}

impl DeepView for Stamp {
    type V = Stamp<Text>;

    open spec fn deep_view(&self) -> Stamp<Text> {
        Stamp { unique: self.unique@, now: self.now@ }
    }
}

/// The tables of a ledger, in contracts.
#[verifier::ext_equal]
pub struct Ledger {
    pub categories: Seq<Category<Text>>,
    pub transactions: Seq<TransactionRow<Text>>,
    pub audit_log: Seq<AuditEntry<Text>>,
    pub requests: Seq<RequestView>,
    pub pending_expenses: Seq<PendingExpenseRow<Text>>,
    pub pending_audit_log: Seq<PendingAuditEntry<Text>>,
}

/// The names of categories.
pub open spec fn names(rows: Seq<Category<Text>>) -> Seq<Text> {
    Seq::new(rows.len(), |i: int| rows[i].name)
}

/// The ids of transactions.
pub open spec fn ids(rows: Seq<TransactionRow<Text>>) -> Seq<Text> {
    Seq::new(rows.len(), |i: int| rows[i].id)
}

/// The ids of requests.
pub open spec fn request_ids(rows: Seq<RequestView>) -> Seq<Text> {
    Seq::new(rows.len(), |i: int| rows[i].request_id)
}

/// The ids of foreign purchases.
pub open spec fn pending_ids(rows: Seq<PendingExpenseRow<Text>>) -> Seq<Text> {
    Seq::new(rows.len(), |i: int| rows[i].id)
}

/// The expenses that settle foreign purchases.
pub open spec fn links(rows: Seq<PendingExpenseRow<Text>>) -> Seq<Option<Text>> {
    Seq::new(rows.len(), |i: int| rows[i].transaction_id)
}

/// The kind of the category with a name.
pub open spec fn category_kind(ledger: Ledger, name: Text) -> Option<Kind> {
    match text::position(names(ledger.categories), name) {
        Some(i) => Some(ledger.categories[i].kind),
        None => None,
    }
}

/// The transaction with an id.
pub open spec fn transaction(ledger: Ledger, id: Text) -> Option<TransactionRow<Text>> {
    match text::position(ids(ledger.transactions), id) {
        Some(i) => Some(ledger.transactions[i]),
        None => None,
    }
}

/// The category that a transaction belongs to; a refund belongs to that of its original.
pub open spec fn category_of(ledger: Ledger, row: TransactionRow<Text>) -> Option<Text> {
    match row.category {
        Some(category) => Some(category),
        None => match row.original_id {
            Some(original) => match transaction(ledger, original) {
                Some(original) => original.category,
                None => None,
            },
            None => None,
        },
    }
}

/// A row with the category that it belongs to, as it is reported.
pub open spec fn report(row: TransactionRow<Text>, category: Text) -> TransactionRecord<Text> {
    TransactionRecord {
        id: row.id,
        kind: row.kind,
        amount: row.amount,
        currency: "CNY"@,
        category,
        date: row.date,
        occurred_at: row.occurred_at,
        note: row.note,
        channel: row.channel,
        original_id: row.original_id,
        voided: row.voided,
        created_at: row.created_at,
        updated_at: row.updated_at,
    }
}

/// A transaction as it is reported; nothing where it belongs to no category.
pub open spec fn record_of(ledger: Ledger, row: TransactionRow<Text>) -> Option<
    TransactionRecord<Text>,
> {
    match category_of(ledger, row) {
        Some(category) => Some(report(row, category)),
        None => None,
    }
}

/// The error for a transaction without a category.
pub open spec fn no_category_error() -> ErrorView {
    error::damaged("账单缺少分类"@)
}

/// What a query for the transaction with an id answers.
pub open spec fn fetched(ledger: Ledger, id: Text) -> core::result::Result<
    TransactionRecord<Text>,
    ErrorView,
> {
    match transaction(ledger, id) {
        None => Err(ErrorView { code: "NOT_FOUND"@, message: "账单不存在："@ + id }),
        Some(row) => match record_of(ledger, row) {
            Some(record) => Ok(record),
            None => Err(no_category_error()),
        },
    }
}

/// Transactions as they are reported, in the order given; nothing where one of them belongs to no
/// category.
pub open spec fn records_of(ledger: Ledger, rows: Seq<TransactionRow<Text>>) -> Option<
    Seq<TransactionRecord<Text>>,
>
    decreases rows.len(),
{
    if rows.len() == 0 {
        Some(Seq::empty())
    } else {
        match (records_of(ledger, rows.drop_last()), record_of(ledger, rows.last())) {
            (Some(records), Some(record)) => Some(records.push(record)),
            _ => None,
        }
    }
}

/// What asking for a category of a kind answers.
pub open spec fn required_category(ledger: Ledger, name: Text, kind: Kind) -> core::result::Result<
    (),
    ErrorView,
> {
    if category_kind(ledger, name) == Some(kind) {
        Ok(())
    } else {
        Err(
            error::invalid_input(
                "分类不存在或类型不匹配："@ + name + "；请先创建对应分类"@,
            ),
        )
    }
}

/// A foreign purchase as it is reported.
pub open spec fn pending_record(row: PendingExpenseRow<Text>) -> core::result::Result<
    PendingExpenseRecord<Text>,
    ErrorView,
> {
    match foreign::shown_amount(row.currency, row.amount_minor as int) {
        Err(error) => Err(error),
        Ok(amount) => Ok(
            PendingExpenseRecord {
                id: row.id,
                currency: row.currency,
                amount,
                date: row.date,
                occurred_at: row.occurred_at,
                category: row.category,
                merchant: row.merchant,
                note: row.note,
                channel: row.channel,
                status: row.status,
                remind_on: row.remind_on,
                transaction_id: row.transaction_id,
                confirmed_at: row.confirmed_at,
                posted_date: row.posted_date,
                created_at: row.created_at,
                updated_at: row.updated_at,
            },
        ),
    }
}

/// The error for an id that no foreign purchase has.
pub open spec fn pending_not_found(id: Text) -> ErrorView {
    ErrorView { code: "NOT_FOUND"@, message: "待确认账单不存在："@ + id }
}

/// The error for a request id that stands for another request.
pub open spec fn conflict_error() -> ErrorView {
    ErrorView { code: "IDEMPOTENCY_CONFLICT"@, message: "此 request-id 已用于不同请求"@ }
}

/// The answer that a request got before, if it was made before.
pub open spec fn earlier_reply(
    ledger: Ledger,
    request_id: Option<Text>,
    operation: Operation<Text>,
) -> core::result::Result<Option<ReplyView>, ErrorView> {
    match request_id {
        None => Ok(None),
        Some(id) => match text::position(request_ids(ledger.requests), id) {
            None => Ok(None),
            Some(i) => if ledger.requests[i].operation == operation {
                Ok(Some(ledger.requests[i].reply))
            } else {
                Err(conflict_error())
            },
        },
    }
}

/// The error for a stored answer of another sort than the request.
pub open spec fn reply_error() -> ErrorView {
    error::damaged("请求记录与操作不符"@)
}

/// The earlier answer to a change of transactions, marked as given again.
pub open spec fn write_replay(
    ledger: Ledger,
    request_id: Option<Text>,
    operation: Operation<Text>,
) -> core::result::Result<Option<WriteView>, ErrorView> {
    match earlier_reply(ledger, request_id, operation) {
        Err(error) => Err(error),
        Ok(None) => Ok(None),
        Ok(Some(Reply::Write { result })) => Ok(Some(WriteResult { replayed: true, ..result })),
        Ok(Some(Reply::Pending { result })) => Err(reply_error()),
        Ok(Some(Reply::Unreadable { message })) => Err(error::damaged(message)),
    }
}

/// The earlier answer to a change of foreign purchases, marked as given again.
pub open spec fn pending_replay(
    ledger: Ledger,
    request_id: Option<Text>,
    operation: Operation<Text>,
) -> core::result::Result<Option<PendingView>, ErrorView> {
    match earlier_reply(ledger, request_id, operation) {
        Err(error) => Err(error),
        Ok(None) => Ok(None),
        Ok(Some(Reply::Pending { result })) => Ok(
            Some(PendingWriteResult { replayed: true, ..result }),
        ),
        Ok(Some(Reply::Write { result })) => Err(reply_error()),
        Ok(Some(Reply::Unreadable { message })) => Err(error::damaged(message)),
    }
}

/// The requests with one more, where it has an id.
pub open spec fn with_request(
    requests: Seq<RequestView>,
    request_id: Option<Text>,
    operation: Operation<Text>,
    reply: ReplyView,
    now: Text,
) -> Seq<RequestView> {
    match request_id {
        None => requests,
        Some(request_id) => requests.push(
            RequestRow { request_id, operation, reply, created_at: now },
        ),
    }
}

/// A text that is absent where it is empty.
pub open spec fn cleaned(value: Option<Text>) -> Option<Text> {
    match value {
        Some(value) => if value.len() == 0 {
            None
        } else {
            Some(value)
        },
        None => None,
    }
}

/// What the date and the time of a row have in common.
pub open spec fn occurrence_is_sound(date: Text, occurred_at: Option<Text>) -> bool {
    &&& calendar::is_date(date)
    &&& occurred_at matches Some(time) ==> occurrence::is_normal(time) && time.take(10) == date
}

pub open spec fn is_positive(amount: Money) -> bool {
    amount.0 > 0
}

/// What holds of every transaction: its amount is positive; its date and its time agree; a refund
/// has an expense as its original, which is not voided unless the refund is, and no category; any
/// other transaction has a category of its own kind and no original.
pub open spec fn transaction_is_sound(ledger: Ledger, row: TransactionRow<Text>) -> bool {
    &&& is_positive(row.amount)
    &&& occurrence_is_sound(row.date, row.occurred_at)
    &&& row.note == cleaned(row.note)
    &&& row.channel == cleaned(row.channel)
    &&& if row.kind == Kind::Refund {
        &&& row.category is None
        &&& row.original_id is Some
        &&& transaction(ledger, row.original_id->0) is Some
        &&& transaction(ledger, row.original_id->0)->0.kind == Kind::Expense
        &&& transaction(ledger, row.original_id->0)->0.voided ==> row.voided
    } else {
        &&& row.original_id is None
        &&& row.category is Some
        &&& category_kind(ledger, row.category->0) == Some(row.kind)
    }
}

/// What holds of every foreign purchase: its currency is supported and its amount positive and
/// in whole units of the currency; it is due no earlier than it was made; its category is one of
/// expenses; and it has been settled by exactly one expense if and only if it is confirmed.
pub open spec fn pending_is_sound(ledger: Ledger, row: PendingExpenseRow<Text>) -> bool {
    &&& row.amount_minor > 0
    &&& foreign::currency_places(row.currency) is Some
    &&& foreign::currency_places(row.currency) == Some(0u32) ==> row.amount_minor % 100 == 0
    &&& occurrence_is_sound(row.date, row.occurred_at)
    &&& category_kind(ledger, row.category) == Some(Kind::Expense)
    &&& calendar::is_date(row.remind_on)
    &&& !text::before(row.remind_on, row.date)
    &&& row.merchant == cleaned(row.merchant)
    &&& row.note == cleaned(row.note)
    &&& row.channel == cleaned(row.channel)
    &&& if row.status == PendingStatus::Confirmed {
        &&& row.transaction_id is Some
        &&& transaction(ledger, row.transaction_id->0) is Some
        &&& transaction(ledger, row.transaction_id->0)->0.kind == Kind::Expense
        &&& row.confirmed_amount is Some
        &&& is_positive(row.confirmed_amount->0)
        &&& row.confirmed_at is Some
        &&& row.posted_date is Some ==> calendar::is_date(row.posted_date->0) && !text::before(
            row.posted_date->0,
            row.date,
        )
    } else {
        &&& row.transaction_id is None
        &&& row.confirmed_amount is None
        &&& row.confirmed_at is None
        &&& row.posted_date is None
    }
}

/// Whether an answer is of the sort that its operation gets.
pub open spec fn reply_fits(request: RequestView) -> bool {
    match request.operation {
        Operation::Add { .. } | Operation::Update { .. } | Operation::Void {
            ..
        } => request.reply is Write,
        Operation::Unknown => true,
        _ => request.reply is Pending,
    }
}

/// What holds of every ledger: no name and no id occurs twice, every row is sound, an expense
/// settles at most one foreign purchase, and the logs speak of rows that exist.
pub open spec fn sound(ledger: Ledger) -> bool {
    &&& names(ledger.categories).no_duplicates()
    &&& ids(ledger.transactions).no_duplicates()
    &&& request_ids(ledger.requests).no_duplicates()
    &&& pending_ids(ledger.pending_expenses).no_duplicates()
    &&& forall|i: int|
        0 <= i < ledger.categories.len() ==> text::is_trimmed(
            (#[trigger] ledger.categories[i]).name,
        ) && ledger.categories[i].kind != Kind::Refund
    &&& forall|i: int|
        0 <= i < ledger.transactions.len() ==> transaction_is_sound(
            ledger,
            #[trigger] ledger.transactions[i],
        )
    &&& forall|i: int| 0 <= i < ledger.requests.len() ==> reply_fits(#[trigger] ledger.requests[i])
    &&& forall|i: int|
        0 <= i < ledger.pending_expenses.len() ==> pending_is_sound(
            ledger,
            #[trigger] ledger.pending_expenses[i],
        )
    &&& forall|i: int, j: int|
        0 <= i < j < ledger.pending_expenses.len() && (
        #[trigger] ledger.pending_expenses[i]).transaction_id is Some
            ==> ledger.pending_expenses[i].transaction_id != (
        #[trigger] ledger.pending_expenses[j]).transaction_id
    &&& forall|i: int|
        0 <= i < ledger.audit_log.len() ==> transaction(
            ledger,
            (#[trigger] ledger.audit_log[i]).transaction_id,
        ) is Some
    &&& forall|i: int|
        0 <= i < ledger.pending_audit_log.len() ==> text::position(
            pending_ids(ledger.pending_expenses),
            (#[trigger] ledger.pending_audit_log[i]).pending_id,
        ) is Some
}

/// Whether the rows that another ledger refers to are all there in this one: nothing has been
/// taken away, and no transaction has changed its kind or been voided.
pub open spec fn extends(after: Ledger, before: Ledger) -> bool {
    &&& before.categories.len() <= after.categories.len()
    &&& forall|i: int|
        0 <= i < before.categories.len() ==> after.categories[i] == #[trigger] before.categories[i]
    &&& before.transactions.len() <= after.transactions.len()
    &&& forall|i: int|
        0 <= i < before.transactions.len() ==> after.transactions[i].id == (
        #[trigger] before.transactions[i]).id && after.transactions[i].kind
            == before.transactions[i].kind && (after.transactions[i].voided
            ==> before.transactions[i].voided)
}

/// Where nothing was taken away, what was found is found at its place.
pub proof fn lemma_extends(after: Ledger, before: Ledger)
    requires
        extends(after, before),
    ensures
        forall|name: Text|
            category_kind(before, name) is Some ==> #[trigger] category_kind(after, name)
                == category_kind(before, name),
        forall|id: Text|
            transaction(before, id) is Some ==> {
                &&& #[trigger] transaction(after, id) is Some
                &&& transaction(after, id)->0.kind == transaction(before, id)->0.kind
                &&& transaction(after, id)->0.voided ==> transaction(before, id)->0.voided
            },
{
    assert forall|name: Text| category_kind(before, name) is Some implies #[trigger] category_kind(
        after,
        name,
    ) == category_kind(before, name) by {
        text::lemma_position(names(before.categories), name);
        text::lemma_position_prefix(names(before.categories), names(after.categories), name);
    }
    assert forall|id: Text| transaction(before, id) is Some implies {
        &&& #[trigger] transaction(after, id) is Some
        &&& transaction(after, id)->0.kind == transaction(before, id)->0.kind
        &&& transaction(after, id)->0.voided ==> transaction(before, id)->0.voided
    } by {
        text::lemma_position(ids(before.transactions), id);
        text::lemma_position_prefix(ids(before.transactions), ids(after.transactions), id);
    }
}

/// A sound row stays sound where nothing was taken away.
pub proof fn lemma_rows_stay_sound(after: Ledger, before: Ledger)
    requires
        extends(after, before),
    ensures
        forall|row: TransactionRow<Text>|
            transaction_is_sound(before, row) ==> #[trigger] transaction_is_sound(after, row),
        forall|row: PendingExpenseRow<Text>|
            pending_is_sound(before, row) ==> #[trigger] pending_is_sound(after, row),
{
    lemma_extends(after, before);
}

} // verus!
