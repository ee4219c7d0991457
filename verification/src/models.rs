//! The data of the ledger: what callers hand in, what the tables hold and what queries answer.
//!
//! A type parameter `T` stands for the type of the texts: `String` in running code and a sequence
//! of characters in contracts. Where a type holds lists, further parameters stand for those.
use vstd::prelude::*;

use crate::error;
use crate::error::{AppError, ErrorView};
use crate::money::Money;
use crate::text;
use crate::text::Text;

verus! {

/// The three kinds of transactions.
#[derive(Debug, Clone, Copy, PartialEq, Eq, Structural)]
pub enum Kind {
    Expense,
    Income,
    Refund,
}

impl DeepView for Kind {
    type V = Kind;

    open spec fn deep_view(&self) -> Kind {
        *self
    }
}

/// The word for a kind.
pub open spec fn kind_name(kind: Kind) -> Text {
    match kind {
        Kind::Expense => "expense"@,
        Kind::Income => "income"@,
        Kind::Refund => "refund"@,
    }
}

/// The kind that a word names.
pub open spec fn named_kind(name: Text) -> core::result::Result<Kind, ErrorView> {
    if name == "expense"@ {
        Ok(Kind::Expense)
    } else if name == "income"@ {
        Ok(Kind::Income)
    } else if name == "refund"@ {
        Ok(Kind::Refund)
    } else {
        Err(error::invalid_input("类型必须是 expense、income 或 refund"@))
    }
}

impl Kind {
    pub fn as_str(self) -> (name: &'static str)
        ensures
            name@ == kind_name(self),
    {
        match self {
            Kind::Expense => "expense",
            Kind::Income => "income",
            Kind::Refund => "refund",
        }
    }

    /// Reads the word for a kind.
    pub fn parse(name: &str) -> (result: error::Result<Kind>)
        ensures
            error::outcome(result) == named_kind(name@),
    {
        if text::same(name, "expense") {
            Ok(Kind::Expense)
        } else if text::same(name, "income") {
            Ok(Kind::Income)
        } else if text::same(name, "refund") {
            Ok(Kind::Refund)
        } else {
            Err(AppError::invalid("类型必须是 expense、income 或 refund"))
        }
    }
}

impl std::str::FromStr for Kind {
    type Err = AppError;

    fn from_str(value: &str) -> (result: core::result::Result<Kind, AppError>)
        ensures
            error::outcome(result) == named_kind(value@),
    {
        Kind::parse(value)
    }
}

/// The word for a kind names that kind.
pub proof fn law_kind_names_round_trip(kind: Kind)
    ensures
        named_kind(kind_name(kind)) == Ok::<Kind, ErrorView>(kind),
{
    reveal_strlit("expense");
    reveal_strlit("income");
    reveal_strlit("refund");
    assert("income"@.len() != "expense"@.len());
    assert("refund"@[0] != "income"@[0]);
}

/// Whether two optional amounts are the same.
fn same_amount(left: &Option<Money>, right: &Option<Money>) -> (equal: bool)
    ensures
        equal == (left == right),
{
    match (left, right) {
        (Some(left), Some(right)) => left.0 == right.0,
        (None, None) => true,
        _ => false,
    }
}

/// How far a foreign purchase has come.
#[derive(Debug, Clone, Copy, PartialEq, Eq, Structural)]
pub enum PendingStatus {
    Pending,
    Confirmed,
    Cancelled,
}

impl DeepView for PendingStatus {
    type V = PendingStatus;

    open spec fn deep_view(&self) -> PendingStatus {
        *self
    }
}

/// The word for a status.
pub open spec fn status_name(status: PendingStatus) -> Text {
    match status {
        PendingStatus::Pending => "pending"@,
        PendingStatus::Confirmed => "confirmed"@,
        PendingStatus::Cancelled => "cancelled"@,
    }
}

/// The status that a word names.
pub open spec fn named_status(name: Text) -> Option<PendingStatus> {
    if name == "pending"@ {
        Some(PendingStatus::Pending)
    } else if name == "confirmed"@ {
        Some(PendingStatus::Confirmed)
    } else if name == "cancelled"@ {
        Some(PendingStatus::Cancelled)
    } else {
        None
    }
}

/// The word for a status names that status.
pub proof fn law_status_names_round_trip(status: PendingStatus)
    ensures
        named_status(status_name(status)) == Some(status),
{
    reveal_strlit("pending");
    reveal_strlit("confirmed");
    reveal_strlit("cancelled");
    assert("pending"@.len() == 7);
    assert("confirmed"@[1] == 'o' && "cancelled"@[1] == 'a');
}

impl PendingStatus {
    /// Reads the word for a status.
    pub fn parse(name: &str) -> (status: Option<PendingStatus>)
        ensures
            status == named_status(name@),
    {
        if text::same(name, "pending") {
            Some(PendingStatus::Pending)
        } else if text::same(name, "confirmed") {
            Some(PendingStatus::Confirmed)
        } else if text::same(name, "cancelled") {
            Some(PendingStatus::Cancelled)
        } else {
            None
        }
    }

    pub fn as_str(self) -> (name: &'static str)
        ensures
            name@ == status_name(self),
    {
        match self {
            PendingStatus::Pending => "pending",
            PendingStatus::Confirmed => "confirmed",
            PendingStatus::Cancelled => "cancelled",
        }
    }
}

/// A transaction to be recorded.
#[verifier::ext_equal]
#[derive(Debug, Clone, PartialEq, Eq)]
pub struct NewTransaction<T = String> {
    pub kind: Kind,
    pub amount: Money,
    pub date: T,
    pub occurred_at: Option<T>,
    pub category: Option<T>,
    pub note: Option<T>,
    pub channel: Option<T>,
    pub original_id: Option<T>,
}

impl DeepView for NewTransaction {
    type V = NewTransaction<Text>;

    open spec fn deep_view(&self) -> NewTransaction<Text> {
        NewTransaction {
            kind: self.kind,
            amount: self.amount,
            date: self.date@,
            occurred_at: self.occurred_at.deep_view(),
            category: self.category.deep_view(),
            note: self.note.deep_view(),
            channel: self.channel.deep_view(),
            original_id: self.original_id.deep_view(),
        }
    }
}

impl NewTransaction {
    /// A copy with the same contents.
    pub fn copy(&self) -> (copy: NewTransaction)
        ensures
            copy.deep_view() == self.deep_view(),
    {
        NewTransaction {
            kind: self.kind,
            amount: self.amount,
            date: self.date.clone(),
            occurred_at: text::copied(&self.occurred_at),
            category: text::copied(&self.category),
            note: text::copied(&self.note),
            channel: text::copied(&self.channel),
            original_id: text::copied(&self.original_id),
        }
    }

    /// Whether two have the same contents.
    pub fn same(&self, other: &NewTransaction) -> (equal: bool)
        ensures
            equal == (self.deep_view() == other.deep_view()),
    {
        self.kind == other.kind
            && self.amount == other.amount
            && self.date == other.date
            && text::same_option(&self.occurred_at, &other.occurred_at)
            && text::same_option(&self.category, &other.category)
            && text::same_option(&self.note, &other.note)
            && text::same_option(&self.channel, &other.channel)
            && text::same_option(&self.original_id, &other.original_id)
    }
}

/// Changes to a transaction; what is absent stays as it is, and an empty note or channel is
/// removed.
#[verifier::ext_equal]
#[derive(Debug, Clone, PartialEq, Eq, Default)]
pub struct UpdateTransaction<T = String> {
    pub amount: Option<Money>,
    pub date: Option<T>,
    pub occurred_at: Option<T>,
    pub clear_occurred_at: bool,
    pub category: Option<T>,
    pub note: Option<T>,
    pub channel: Option<T>,
}

impl DeepView for UpdateTransaction {
    type V = UpdateTransaction<Text>;

    open spec fn deep_view(&self) -> UpdateTransaction<Text> {
        UpdateTransaction {
            amount: self.amount,
            date: self.date.deep_view(),
            occurred_at: self.occurred_at.deep_view(),
            clear_occurred_at: self.clear_occurred_at,
            category: self.category.deep_view(),
            note: self.note.deep_view(),
            channel: self.channel.deep_view(),
        }
    }
}

impl UpdateTransaction {
    /// A copy with the same contents.
    pub fn copy(&self) -> (copy: UpdateTransaction)
        ensures
            copy.deep_view() == self.deep_view(),
    {
        UpdateTransaction {
            amount: self.amount,
            date: text::copied(&self.date),
            occurred_at: text::copied(&self.occurred_at),
            clear_occurred_at: self.clear_occurred_at,
            category: text::copied(&self.category),
            note: text::copied(&self.note),
            channel: text::copied(&self.channel),
        }
    }

    /// Whether two have the same contents.
    pub fn same(&self, other: &UpdateTransaction) -> (equal: bool)
        ensures
            equal == (self.deep_view() == other.deep_view()),
    {
        same_amount(&self.amount, &other.amount)
            && text::same_option(&self.date, &other.date)
            && text::same_option(&self.occurred_at, &other.occurred_at)
            && self.clear_occurred_at == other.clear_occurred_at
            && text::same_option(&self.category, &other.category)
            && text::same_option(&self.note, &other.note)
            && text::same_option(&self.channel, &other.channel)
    }
}

/// A row of the table of transactions. A refund has no category of its own.
#[verifier::ext_equal]
#[derive(Debug, Clone, PartialEq, Eq)]
pub struct TransactionRow<T = String> {
    pub id: T,
    pub kind: Kind,
    pub amount: Money,
    pub category: Option<T>,
    pub date: T,
    pub occurred_at: Option<T>,
    pub note: Option<T>,
    pub channel: Option<T>,
    pub original_id: Option<T>,
    pub voided: bool,
    pub created_at: T,
    pub updated_at: T,
}

impl DeepView for TransactionRow {
    type V = TransactionRow<Text>;

    open spec fn deep_view(&self) -> TransactionRow<Text> {
        TransactionRow {
            id: self.id@,
            kind: self.kind,
            amount: self.amount,
            category: self.category.deep_view(),
            date: self.date@,
            occurred_at: self.occurred_at.deep_view(),
            note: self.note.deep_view(),
            channel: self.channel.deep_view(),
            original_id: self.original_id.deep_view(),
            voided: self.voided,
            created_at: self.created_at@,
            updated_at: self.updated_at@,
        }
    }
}

impl TransactionRow {
    /// A copy with the same contents.
    pub fn copy(&self) -> (copy: TransactionRow)
        ensures
            copy.deep_view() == self.deep_view(),
    {
        TransactionRow {
            id: self.id.clone(),
            kind: self.kind,
            amount: self.amount,
            category: text::copied(&self.category),
            date: self.date.clone(),
            occurred_at: text::copied(&self.occurred_at),
            note: text::copied(&self.note),
            channel: text::copied(&self.channel),
            original_id: text::copied(&self.original_id),
            voided: self.voided,
            created_at: self.created_at.clone(),
            updated_at: self.updated_at.clone(),
        }
    }
}

/// A transaction as it is reported, a refund with the category of its original expense.
#[verifier::ext_equal]
#[derive(Debug, Clone, PartialEq, Eq)]
pub struct TransactionRecord<T = String> {
    pub id: T,
    pub kind: Kind,
    pub amount: Money,
    pub currency: T,
    pub category: T,
    pub date: T,
    pub occurred_at: Option<T>,
    pub note: Option<T>,
    pub channel: Option<T>,
    pub original_id: Option<T>,
    pub voided: bool,
    pub created_at: T,
    pub updated_at: T,
}

impl DeepView for TransactionRecord {
    type V = TransactionRecord<Text>;

    open spec fn deep_view(&self) -> TransactionRecord<Text> {
        TransactionRecord {
            id: self.id@,
            kind: self.kind,
            amount: self.amount,
            currency: self.currency@,
            category: self.category@,
            date: self.date@,
            occurred_at: self.occurred_at.deep_view(),
            note: self.note.deep_view(),
            channel: self.channel.deep_view(),
            original_id: self.original_id.deep_view(),
            voided: self.voided,
            created_at: self.created_at@,
            updated_at: self.updated_at@,
        }
    }
}

impl TransactionRecord {
    /// A copy with the same contents.
    pub fn copy(&self) -> (copy: TransactionRecord)
        ensures
            copy.deep_view() == self.deep_view(),
    {
        TransactionRecord {
            id: self.id.clone(),
            kind: self.kind,
            amount: self.amount,
            currency: self.currency.clone(),
            category: self.category.clone(),
            date: self.date.clone(),
            occurred_at: text::copied(&self.occurred_at),
            note: text::copied(&self.note),
            channel: text::copied(&self.channel),
            original_id: text::copied(&self.original_id),
            voided: self.voided,
            created_at: self.created_at.clone(),
            updated_at: self.updated_at.clone(),
        }
    }
}

/// The answer to a change of transactions.
#[verifier::ext_equal]
#[derive(Debug, Clone, PartialEq, Eq)]
pub struct WriteResult<T = String, L = Vec<String>> {
    pub transaction: TransactionRecord<T>,
    pub replayed: bool,
    pub affected_ids: L,
}

impl DeepView for WriteResult {
    type V = WriteResult<Text, Seq<Text>>;

    open spec fn deep_view(&self) -> WriteResult<Text, Seq<Text>> {
        WriteResult {
            transaction: self.transaction.deep_view(),
            replayed: self.replayed,
            affected_ids: self.affected_ids.deep_view(),
        }
    }
}

impl WriteResult {
    /// A copy with the same contents.
    pub fn copy(&self) -> (copy: WriteResult)
        ensures
            copy.deep_view() == self.deep_view(),
    {
        WriteResult {
            transaction: self.transaction.copy(),
            replayed: self.replayed,
            affected_ids: text::copied_all(&self.affected_ids),
        }
    }
}

/// A transaction with its refunds and the foreign purchase it settles.
#[verifier::ext_equal]
#[derive(Debug, Clone, PartialEq, Eq)]
pub struct TransactionDetail<T = String, L = Vec<TransactionRecord>> {
    pub transaction: TransactionRecord<T>,
    pub foreign_expense: Option<PendingExpenseRecord<T>>,
    pub refunds: L,
    pub refund_total: T,
    pub net_expense: Option<T>,
    pub refund_status: Option<T>,
    pub excess_refund: T,
}

impl DeepView for TransactionDetail {
    type V = TransactionDetail<Text, Seq<TransactionRecord<Text>>>;

    open spec fn deep_view(&self) -> TransactionDetail<Text, Seq<TransactionRecord<Text>>> {
        TransactionDetail {
            transaction: self.transaction.deep_view(),
            foreign_expense: self.foreign_expense.deep_view(),
            refunds: self.refunds.deep_view(),
            refund_total: self.refund_total@,
            net_expense: self.net_expense.deep_view(),
            refund_status: self.refund_status.deep_view(),
            excess_refund: self.excess_refund@,
        }
    }
}

/// Which transactions a query is about. A limit of zero stands for the default.
#[verifier::ext_equal]
#[derive(Debug, Clone, PartialEq, Eq, Default)]
pub struct Filters<T = String> {
    pub month: Option<T>,
    pub from: Option<T>,
    pub to: Option<T>,
    pub kind: Option<Kind>,
    pub category: Option<T>,
    pub keyword: Option<T>,
    pub include_voided: bool,
    pub limit: i64,
    pub offset: i64,
}

impl DeepView for Filters {
    type V = Filters<Text>;

    open spec fn deep_view(&self) -> Filters<Text> {
        Filters {
            month: self.month.deep_view(),
            from: self.from.deep_view(),
            to: self.to.deep_view(),
            kind: self.kind,
            category: self.category.deep_view(),
            keyword: self.keyword.deep_view(),
            include_voided: self.include_voided,
            limit: self.limit,
            offset: self.offset,
        }
    }
}

/// One page of transactions.
#[verifier::ext_equal]
#[derive(Debug, Clone, PartialEq, Eq)]
pub struct ListResult<L = Vec<TransactionRecord>> {
    pub items: L,
    pub total: i64,
    pub limit: i64,
    pub offset: i64,
}

impl DeepView for ListResult {
    type V = ListResult<Seq<TransactionRecord<Text>>>;

    open spec fn deep_view(&self) -> ListResult<Seq<TransactionRecord<Text>>> {
        ListResult {
            items: self.items.deep_view(),
            total: self.total,
            limit: self.limit,
            offset: self.offset,
        }
    }
}

/// The totals of one category.
#[verifier::ext_equal]
#[derive(Debug, Clone, PartialEq, Eq)]
pub struct CategorySummary<T = String> {
    pub category: T,
    pub income: T,
    pub expense: T,
    pub refund: T,
    pub net_expense: T,
}

impl DeepView for CategorySummary {
    type V = CategorySummary<Text>;

    open spec fn deep_view(&self) -> CategorySummary<Text> {
        CategorySummary {
            category: self.category@,
            income: self.income@,
            expense: self.expense@,
            refund: self.refund@,
            net_expense: self.net_expense@,
        }
    }
}

/// Totals in CNY, and beside them the foreign purchases that are not counted yet.
#[verifier::ext_equal]
#[derive(Debug, Clone, PartialEq, Eq)]
pub struct Summary<T = String, C = Vec<CategorySummary>, P = Vec<PendingCurrencySummary>> {
    pub currency: T,
    pub count: i64,
    pub income: T,
    pub expense: T,
    pub refund: T,
    pub net_expense: T,
    pub balance: T,
    pub by_category: C,
    pub pending_count: i64,
    pub pending_by_currency: P,
}

impl DeepView for Summary {
    type V = Summary<Text, Seq<CategorySummary<Text>>, Seq<PendingCurrencySummary<Text>>>;

    open spec fn deep_view(&self) -> Summary<
        Text,
        Seq<CategorySummary<Text>>,
        Seq<PendingCurrencySummary<Text>>,
    > {
        Summary {
            currency: self.currency@,
            count: self.count,
            income: self.income@,
            expense: self.expense@,
            refund: self.refund@,
            net_expense: self.net_expense@,
            balance: self.balance@,
            by_category: self.by_category.deep_view(),
            pending_count: self.pending_count,
            pending_by_currency: self.pending_by_currency.deep_view(),
        }
    }
}

/// A category of expenses or of income.
#[verifier::ext_equal]
#[derive(Debug, Clone, PartialEq, Eq)]
pub struct Category<T = String> {
    pub name: T,
    pub kind: Kind,
}

impl DeepView for Category {
    type V = Category<Text>;

    open spec fn deep_view(&self) -> Category<Text> {
        Category {
            name: self.name@,
            kind: self.kind,
        }
    }
}

impl Category {
    /// A copy with the same contents.
    pub fn copy(&self) -> (copy: Category)
        ensures
            copy.deep_view() == self.deep_view(),
    {
        Category {
            name: self.name.clone(),
            kind: self.kind,
        }
    }
}

/// A row of the log of changes to transactions.
#[verifier::ext_equal]
#[derive(Debug, Clone, PartialEq, Eq)]
pub struct AuditEntry<T = String> {
    pub transaction_id: T,
    pub action: T,
    pub before: Option<TransactionRecord<T>>,
    pub after: TransactionRecord<T>,
    pub created_at: T,
}

impl DeepView for AuditEntry {
    type V = AuditEntry<Text>;

    open spec fn deep_view(&self) -> AuditEntry<Text> {
        AuditEntry {
            transaction_id: self.transaction_id@,
            action: self.action@,
            before: self.before.deep_view(),
            after: self.after.deep_view(),
            created_at: self.created_at@,
        }
    }
}

/// A logged change of a transaction, with its number in the log.
#[verifier::ext_equal]
#[derive(Debug, Clone, PartialEq, Eq)]
pub struct AuditRecord<T = String> {
    pub id: u64,
    pub transaction_id: T,
    pub action: T,
    pub before: Option<TransactionRecord<T>>,
    pub after: TransactionRecord<T>,
    pub created_at: T,
}

impl DeepView for AuditRecord {
    type V = AuditRecord<Text>;

    open spec fn deep_view(&self) -> AuditRecord<Text> {
        AuditRecord {
            id: self.id,
            transaction_id: self.transaction_id@,
            action: self.action@,
            before: self.before.deep_view(),
            after: self.after.deep_view(),
            created_at: self.created_at@,
        }
    }
}

/// A foreign purchase to be recorded, with its amount in the foreign currency.
#[verifier::ext_equal]
#[derive(Debug, Clone, PartialEq, Eq)]
pub struct NewPendingExpense<T = String> {
    pub currency: T,
    pub amount: T,
    pub date: T,
    pub occurred_at: Option<T>,
    pub category: Option<T>,
    pub merchant: Option<T>,
    pub note: Option<T>,
    pub channel: Option<T>,
}

impl DeepView for NewPendingExpense {
    type V = NewPendingExpense<Text>;

    open spec fn deep_view(&self) -> NewPendingExpense<Text> {
        NewPendingExpense {
            currency: self.currency@,
            amount: self.amount@,
            date: self.date@,
            occurred_at: self.occurred_at.deep_view(),
            category: self.category.deep_view(),
            merchant: self.merchant.deep_view(),
            note: self.note.deep_view(),
            channel: self.channel.deep_view(),
        }
    }
}

impl NewPendingExpense {
    /// A copy with the same contents.
    pub fn copy(&self) -> (copy: NewPendingExpense)
        ensures
            copy.deep_view() == self.deep_view(),
    {
        NewPendingExpense {
            currency: self.currency.clone(),
            amount: self.amount.clone(),
            date: self.date.clone(),
            occurred_at: text::copied(&self.occurred_at),
            category: text::copied(&self.category),
            merchant: text::copied(&self.merchant),
            note: text::copied(&self.note),
            channel: text::copied(&self.channel),
        }
    }

    /// Whether two have the same contents.
    pub fn same(&self, other: &NewPendingExpense) -> (equal: bool)
        ensures
            equal == (self.deep_view() == other.deep_view()),
    {
        self.currency == other.currency
            && self.amount == other.amount
            && self.date == other.date
            && text::same_option(&self.occurred_at, &other.occurred_at)
            && text::same_option(&self.category, &other.category)
            && text::same_option(&self.merchant, &other.merchant)
            && text::same_option(&self.note, &other.note)
            && text::same_option(&self.channel, &other.channel)
    }
}

/// The amount in CNY that the bank charged for a foreign purchase.
#[verifier::ext_equal]
#[derive(Debug, Clone, PartialEq, Eq)]
pub struct ConfirmPendingExpense<T = String> {
    pub amount: Money,
    pub posted_date: Option<T>,
}

impl DeepView for ConfirmPendingExpense {
    type V = ConfirmPendingExpense<Text>;

    open spec fn deep_view(&self) -> ConfirmPendingExpense<Text> {
        ConfirmPendingExpense {
            amount: self.amount,
            posted_date: self.posted_date.deep_view(),
        }
    }
}

impl ConfirmPendingExpense {
    /// A copy with the same contents.
    pub fn copy(&self) -> (copy: ConfirmPendingExpense)
        ensures
            copy.deep_view() == self.deep_view(),
    {
        ConfirmPendingExpense {
            amount: self.amount,
            posted_date: text::copied(&self.posted_date),
        }
    }

    /// Whether two have the same contents.
    pub fn same(&self, other: &ConfirmPendingExpense) -> (equal: bool)
        ensures
            equal == (self.deep_view() == other.deep_view()),
    {
        self.amount == other.amount
            && text::same_option(&self.posted_date, &other.posted_date)
    }
}

/// A row of the table of foreign purchases, with the amount in hundredths of the currency.
#[verifier::ext_equal]
#[derive(Debug, Clone, PartialEq, Eq)]
pub struct PendingExpenseRow<T = String> {
    pub id: T,
    pub currency: T,
    pub amount_minor: i64,
    pub date: T,
    pub occurred_at: Option<T>,
    pub category: T,
    pub merchant: Option<T>,
    pub note: Option<T>,
    pub channel: Option<T>,
    pub status: PendingStatus,
    pub remind_on: T,
    pub transaction_id: Option<T>,
    pub confirmed_amount: Option<Money>,
    pub confirmed_at: Option<T>,
    pub posted_date: Option<T>,
    pub created_at: T,
    pub updated_at: T,
}

impl DeepView for PendingExpenseRow {
    type V = PendingExpenseRow<Text>;

    open spec fn deep_view(&self) -> PendingExpenseRow<Text> {
        PendingExpenseRow {
            id: self.id@,
            currency: self.currency@,
            amount_minor: self.amount_minor,
            date: self.date@,
            occurred_at: self.occurred_at.deep_view(),
            category: self.category@,
            merchant: self.merchant.deep_view(),
            note: self.note.deep_view(),
            channel: self.channel.deep_view(),
            status: self.status,
            remind_on: self.remind_on@,
            transaction_id: self.transaction_id.deep_view(),
            confirmed_amount: self.confirmed_amount,
            confirmed_at: self.confirmed_at.deep_view(),
            posted_date: self.posted_date.deep_view(),
            created_at: self.created_at@,
            updated_at: self.updated_at@,
        }
    }
}

impl PendingExpenseRow {
    /// A copy with the same contents.
    pub fn copy(&self) -> (copy: PendingExpenseRow)
        ensures
            copy.deep_view() == self.deep_view(),
    {
        PendingExpenseRow {
            id: self.id.clone(),
            currency: self.currency.clone(),
            amount_minor: self.amount_minor,
            date: self.date.clone(),
            occurred_at: text::copied(&self.occurred_at),
            category: self.category.clone(),
            merchant: text::copied(&self.merchant),
            note: text::copied(&self.note),
            channel: text::copied(&self.channel),
            status: self.status,
            remind_on: self.remind_on.clone(),
            transaction_id: text::copied(&self.transaction_id),
            confirmed_amount: self.confirmed_amount,
            confirmed_at: text::copied(&self.confirmed_at),
            posted_date: text::copied(&self.posted_date),
            created_at: self.created_at.clone(),
            updated_at: self.updated_at.clone(),
        }
    }
}

/// A foreign purchase as it is reported.
#[verifier::ext_equal]
#[derive(Debug, Clone, PartialEq, Eq)]
pub struct PendingExpenseRecord<T = String> {
    pub id: T,
    pub currency: T,
    pub amount: T,
    pub date: T,
    pub occurred_at: Option<T>,
    pub category: T,
    pub merchant: Option<T>,
    pub note: Option<T>,
    pub channel: Option<T>,
    pub status: PendingStatus,
    pub remind_on: T,
    pub transaction_id: Option<T>,
    pub confirmed_at: Option<T>,
    pub posted_date: Option<T>,
    pub created_at: T,
    pub updated_at: T,
}

impl DeepView for PendingExpenseRecord {
    type V = PendingExpenseRecord<Text>;

    open spec fn deep_view(&self) -> PendingExpenseRecord<Text> {
        PendingExpenseRecord {
            id: self.id@,
            currency: self.currency@,
            amount: self.amount@,
            date: self.date@,
            occurred_at: self.occurred_at.deep_view(),
            category: self.category@,
            merchant: self.merchant.deep_view(),
            note: self.note.deep_view(),
            channel: self.channel.deep_view(),
            status: self.status,
            remind_on: self.remind_on@,
            transaction_id: self.transaction_id.deep_view(),
            confirmed_at: self.confirmed_at.deep_view(),
            posted_date: self.posted_date.deep_view(),
            created_at: self.created_at@,
            updated_at: self.updated_at@,
        }
    }
}

impl PendingExpenseRecord {
    /// A copy with the same contents.
    pub fn copy(&self) -> (copy: PendingExpenseRecord)
        ensures
            copy.deep_view() == self.deep_view(),
    {
        PendingExpenseRecord {
            id: self.id.clone(),
            currency: self.currency.clone(),
            amount: self.amount.clone(),
            date: self.date.clone(),
            occurred_at: text::copied(&self.occurred_at),
            category: self.category.clone(),
            merchant: text::copied(&self.merchant),
            note: text::copied(&self.note),
            channel: text::copied(&self.channel),
            status: self.status,
            remind_on: self.remind_on.clone(),
            transaction_id: text::copied(&self.transaction_id),
            confirmed_at: text::copied(&self.confirmed_at),
            posted_date: text::copied(&self.posted_date),
            created_at: self.created_at.clone(),
            updated_at: self.updated_at.clone(),
        }
    }
}

/// The answer to a change of foreign purchases.
#[verifier::ext_equal]
#[derive(Debug, Clone, PartialEq, Eq)]
pub struct PendingWriteResult<T = String> {
    pub pending: PendingExpenseRecord<T>,
    pub transaction: Option<TransactionRecord<T>>,
    pub replayed: bool,
}

impl DeepView for PendingWriteResult {
    type V = PendingWriteResult<Text>;

    open spec fn deep_view(&self) -> PendingWriteResult<Text> {
        PendingWriteResult {
            pending: self.pending.deep_view(),
            transaction: self.transaction.deep_view(),
            replayed: self.replayed,
        }
    }
}

impl PendingWriteResult {
    /// A copy with the same contents.
    pub fn copy(&self) -> (copy: PendingWriteResult)
        ensures
            copy.deep_view() == self.deep_view(),
    {
        PendingWriteResult {
            pending: self.pending.copy(),
            transaction: match &self.transaction {
                Some(transaction) => Some(transaction.copy()),
                None => None,
            },
            replayed: self.replayed,
        }
    }
}

/// A foreign purchase with the expense that settles it.
#[verifier::ext_equal]
#[derive(Debug, Clone, PartialEq, Eq)]
pub struct PendingDetail<T = String> {
    pub pending: PendingExpenseRecord<T>,
    pub transaction: Option<TransactionRecord<T>>,
}

impl DeepView for PendingDetail {
    type V = PendingDetail<Text>;

    open spec fn deep_view(&self) -> PendingDetail<Text> {
        PendingDetail {
            pending: self.pending.deep_view(),
            transaction: self.transaction.deep_view(),
        }
    }
}

/// Which foreign purchases a query is about.
#[verifier::ext_equal]
#[derive(Debug, Clone, PartialEq, Eq, Default)]
pub struct PendingFilters<T = String> {
    pub filters: Filters<T>,
    pub status: Option<T>,
    pub currency: Option<T>,
    pub due_only: bool,
    pub as_of: T,
}

impl DeepView for PendingFilters {
    type V = PendingFilters<Text>;

    open spec fn deep_view(&self) -> PendingFilters<Text> {
        PendingFilters {
            filters: self.filters.deep_view(),
            status: self.status.deep_view(),
            currency: self.currency.deep_view(),
            due_only: self.due_only,
            as_of: self.as_of@,
        }
    }
}

/// One page of foreign purchases.
#[verifier::ext_equal]
#[derive(Debug, Clone, PartialEq, Eq)]
pub struct PendingListResult<T = String, L = Vec<PendingExpenseRecord>> {
    pub items: L,
    pub total: i64,
    pub limit: i64,
    pub offset: i64,
    pub as_of: T,
}

impl DeepView for PendingListResult {
    type V = PendingListResult<Text, Seq<PendingExpenseRecord<Text>>>;

    open spec fn deep_view(&self) -> PendingListResult<Text, Seq<PendingExpenseRecord<Text>>> {
        PendingListResult {
            items: self.items.deep_view(),
            total: self.total,
            limit: self.limit,
            offset: self.offset,
            as_of: self.as_of@,
        }
    }
}

/// A row of the log of changes to foreign purchases.
#[verifier::ext_equal]
#[derive(Debug, Clone, PartialEq, Eq)]
pub struct PendingAuditEntry<T = String> {
    pub pending_id: T,
    pub action: T,
    pub before: Option<PendingExpenseRecord<T>>,
    pub after: PendingExpenseRecord<T>,
    pub created_at: T,
}

impl DeepView for PendingAuditEntry {
    type V = PendingAuditEntry<Text>;

    open spec fn deep_view(&self) -> PendingAuditEntry<Text> {
        PendingAuditEntry {
            pending_id: self.pending_id@,
            action: self.action@,
            before: self.before.deep_view(),
            after: self.after.deep_view(),
            created_at: self.created_at@,
        }
    }
}

/// A logged change of a foreign purchase, with its number in the log.
#[verifier::ext_equal]
#[derive(Debug, Clone, PartialEq, Eq)]
pub struct PendingAuditRecord<T = String> {
    pub id: u64,
    pub pending_id: T,
    pub action: T,
    pub before: Option<PendingExpenseRecord<T>>,
    pub after: PendingExpenseRecord<T>,
    pub created_at: T,
}

impl DeepView for PendingAuditRecord {
    type V = PendingAuditRecord<Text>;

    open spec fn deep_view(&self) -> PendingAuditRecord<Text> {
        PendingAuditRecord {
            id: self.id,
            pending_id: self.pending_id@,
            action: self.action@,
            before: self.before.deep_view(),
            after: self.after.deep_view(),
            created_at: self.created_at@,
        }
    }
}

/// The unsettled foreign purchases in one currency.
#[verifier::ext_equal]
#[derive(Debug, Clone, PartialEq, Eq)]
pub struct PendingCurrencySummary<T = String> {
    pub currency: T,
    pub amount: T,
    pub count: i64,
}

impl DeepView for PendingCurrencySummary {
    type V = PendingCurrencySummary<Text>;

    open spec fn deep_view(&self) -> PendingCurrencySummary<Text> {
        PendingCurrencySummary {
            currency: self.currency@,
            amount: self.amount@,
            count: self.count,
        }
    }
}

} // verus!
