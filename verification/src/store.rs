//! A ledger in memory, and the changes of its transactions.
//!
//! Every change either is answered with an error and leaves the ledger as it was, or is carried
//! out as a whole: the rows, the log and the request that asked for it.
use vstd::prelude::*;

use crate::error;
use crate::error::{AppError, ErrorView, Result};
use crate::ledger;
use crate::ledger::{Ledger, Operation, Reply, RequestRow, Stamp, WriteView};
use crate::models::{
    AuditEntry, Category, Kind, NewTransaction, PendingAuditEntry, PendingExpenseRow,
    TransactionRecord, TransactionRow, UpdateTransaction, WriteResult,
};
use crate::money::Money;
use crate::occurrence;
use crate::order;
use crate::order::{Key, Order};
use crate::soundness;
use crate::stamp;
use crate::text;
use crate::text::Text;

verus! {

/// The tables of a ledger.
#[derive(Debug)]
pub struct Store {
    pub categories: Vec<Category>,
    pub transactions: Vec<TransactionRow>,
    pub audit_log: Vec<AuditEntry>,
    pub requests: Vec<RequestRow>,
    pub pending_expenses: Vec<PendingExpenseRow>,
    pub pending_audit_log: Vec<PendingAuditEntry>,
}

impl DeepView for Store {
    type V = Ledger;

    open spec fn deep_view(&self) -> Ledger {
        Ledger {
            categories: self.categories.deep_view(),
            transactions: self.transactions.deep_view(),
            audit_log: self.audit_log.deep_view(),
            requests: self.requests.deep_view(),
            pending_expenses: self.pending_expenses.deep_view(),
            pending_audit_log: self.pending_audit_log.deep_view(),
        }
    }
}

/// What checking the amount of a transaction answers.
pub open spec fn checked_amount(amount: Money) -> core::result::Result<(), ErrorView> {
    if amount.0 <= 0 {
        Err(error::invalid_input("单笔金额必须大于零"@))
    } else {
        Ok(())
    }
}

/// Accepts positive amounts.
pub fn validate_amount(amount: Money) -> (result: Result<()>)
    ensures
        error::outcome(result) == checked_amount(amount),
{
    if amount.minor() <= 0 {
        return Err(AppError::invalid("单笔金额必须大于零"));
    }
    Ok(())
}

/// What checking a request id answers: it is not blank and has at most 200 bytes.
pub open spec fn checked_request_id(id: Option<Text>) -> core::result::Result<(), ErrorView> {
    match id {
        Some(id) => if text::is_blank(id) || vstd::utf8::encode_utf8(id).len() > 200 {
            Err(error::invalid_input("request-id 必须为 1..200 字节的非空字符串"@))
        } else {
            Ok(())
        },
        None => Ok(()),
    }
}

/// Accepts request ids that are not blank and have at most 200 bytes.
pub fn validate_request_id(id: Option<&str>) -> (result: Result<()>)
    ensures
        error::outcome(result) == checked_request_id(id.deep_view()),
{
    match id {
        Some(id) => if text::blank(id) || id.as_bytes().len() > 200 {
            Err(AppError::invalid("request-id 必须为 1..200 字节的非空字符串"))
        } else {
            Ok(())
        },
        None => Ok(()),
    }
}

/// A text, or nothing where it is empty.
pub fn clean_optional(value: Option<String>) -> (result: Option<String>)
    ensures
        result.deep_view() == ledger::cleaned(value.deep_view()),
{
    match value {
        Some(value) => if text::is_empty(value.as_str()) {
            None
        } else {
            Some(value)
        },
        None => None,
    }
}

impl Store {
    /// The place of the category with a name.
    pub(crate) fn find_category(&self, name: &str) -> (result: Option<usize>)
        ensures
            match result {
                Some(i) => text::position(ledger::names(self.deep_view().categories), name@)
                    == Some(i as int) && i < self.categories.len(),
                None => text::position(ledger::names(self.deep_view().categories), name@) is None,
            },
    {
        let ghost all = ledger::names(self.deep_view().categories);
        let mut i: usize = 0;
        while i < self.categories.len()
            invariant
                all == ledger::names(self.deep_view().categories),
                i <= self.categories.len(),
                forall|j: int| 0 <= j < i ==> all[j] != name@,
            decreases self.categories.len() - i,
        {
            assert(all[i as int] == self.categories@[i as int].name@);
            if text::same(self.categories[i].name.as_str(), name) {
                proof {
                    text::lemma_position_is(all, name@, i as int);
                }
                return Some(i);
            }
            i += 1;
        }
        proof {
            text::lemma_position(all, name@);
        }
        None
    }

    /// The place of the transaction with an id.
    pub(crate) fn find_transaction(&self, id: &str) -> (result: Option<usize>)
        ensures
            match result {
                Some(i) => text::position(ledger::ids(self.deep_view().transactions), id@) == Some(
                    i as int,
                ) && i < self.transactions.len(),
                None => text::position(ledger::ids(self.deep_view().transactions), id@) is None,
            },
    {
        let ghost all = ledger::ids(self.deep_view().transactions);
        let mut i: usize = 0;
        while i < self.transactions.len()
            invariant
                all == ledger::ids(self.deep_view().transactions),
                i <= self.transactions.len(),
                forall|j: int| 0 <= j < i ==> all[j] != id@,
            decreases self.transactions.len() - i,
        {
            assert(all[i as int] == self.transactions@[i as int].id@);
            if text::same(self.transactions[i].id.as_str(), id) {
                proof {
                    text::lemma_position_is(all, id@, i as int);
                }
                return Some(i);
            }
            i += 1;
        }
        proof {
            text::lemma_position(all, id@);
        }
        None
    }

    /// The place of the request with an id.
    pub(crate) fn find_request(&self, id: &str) -> (result: Option<usize>)
        ensures
            match result {
                Some(i) => text::position(ledger::request_ids(self.deep_view().requests), id@)
                    == Some(i as int) && i < self.requests.len(),
                None => text::position(ledger::request_ids(self.deep_view().requests), id@) is None,
            },
    {
        let ghost all = ledger::request_ids(self.deep_view().requests);
        let mut i: usize = 0;
        while i < self.requests.len()
            invariant
                all == ledger::request_ids(self.deep_view().requests),
                i <= self.requests.len(),
                forall|j: int| 0 <= j < i ==> all[j] != id@,
            decreases self.requests.len() - i,
        {
            assert(all[i as int] == self.requests@[i as int].request_id@);
            if text::same(self.requests[i].request_id.as_str(), id) {
                proof {
                    text::lemma_position_is(all, id@, i as int);
                }
                return Some(i);
            }
            i += 1;
        }
        proof {
            text::lemma_position(all, id@);
        }
        None
    }

    /// The category that a transaction belongs to.
    pub(crate) fn category_of(&self, row: &TransactionRow) -> (result: Option<String>)
        ensures
            result.deep_view() == ledger::category_of(self.deep_view(), row.deep_view()),
    {
        match &row.category {
            Some(category) => Some(category.clone()),
            None => match &row.original_id {
                Some(original) => match self.find_transaction(original.as_str()) {
                    Some(i) => text::copied(&self.transactions[i].category),
                    None => None,
                },
                None => None,
            },
        }
    }

    /// A transaction as it is reported.
    fn record_of(&self, row: &TransactionRow) -> (result: Option<TransactionRecord>)
        ensures
            result.deep_view() == ledger::record_of(self.deep_view(), row.deep_view()),
    {
        match self.category_of(row) {
            Some(category) => Some(reported(row, category)),
            None => None,
        }
    }

    /// The transaction with an id, as it is reported.
    pub(crate) fn fetch_record(&self, id: &str) -> (result: Result<TransactionRecord>)
        ensures
            error::outcome(result) == ledger::fetched(self.deep_view(), id@),
    {
        match self.find_transaction(id) {
            None => Err(AppError::new("NOT_FOUND", text::joined("账单不存在：", id).as_str())),
            Some(i) => match self.record_of(&self.transactions[i]) {
                Some(record) => Ok(record),
                None => Err(AppError::damaged("账单缺少分类")),
            },
        }
    }

    /// Transactions, as they are reported.
    pub(crate) fn report_all(&self, rows: &Vec<TransactionRow>) -> (result: Result<
        Vec<TransactionRecord>,
    >)
        ensures
            error::outcome(result) == match ledger::records_of(
                self.deep_view(),
                rows.deep_view(),
            ) {
                Some(records) => Ok::<Seq<TransactionRecord<Text>>, ErrorView>(records),
                None => Err(ledger::no_category_error()),
            },
    {
        let ghost all = rows.deep_view();
        let mut records: Vec<TransactionRecord> = Vec::new();
        let mut i: usize = 0;
        assert(all.take(0).len() == 0);
        while i < rows.len()
            invariant
                all == rows.deep_view(),
                i <= rows.len(),
                ledger::records_of(self.deep_view(), all.take(i as int)) == Some(
                    records.deep_view(),
                ),
            decreases rows.len() - i,
        {
            assert(all.take(i + 1).drop_last() =~= all.take(i as int));
            assert(all.take(i + 1).last() == all[i as int]);
            match self.record_of(&rows[i]) {
                Some(record) => {
                    records.push(record);
                },
                None => {
                    proof {
                        lemma_missing_record(self.deep_view(), all, i + 1);
                    }
                    return Err(AppError::damaged("账单缺少分类"));
                },
            }
            i += 1;
        }
        assert(all.take(i as int) =~= all);
        Ok(records)
    }

    /// Accepts the name of a category of the given kind.
    pub(crate) fn require_category(&self, name: &str, kind: Kind) -> (result: Result<()>)
        ensures
            error::outcome(result) == ledger::required_category(self.deep_view(), name@, kind),
    {
        let fits = match self.find_category(name) {
            Some(i) => self.categories[i].kind == kind,
            None => false,
        };
        if fits {
            return Ok(());
        }
        let message = text::joined(
            text::joined("分类不存在或类型不匹配：", name).as_str(),
            "；请先创建对应分类",
        );
        Err(AppError::invalid(message.as_str()))
    }

    /// The answer that a change of transactions got before.
    fn replay(&self, request_id: Option<&str>, operation: &Operation) -> (result: Result<
        Option<WriteResult>,
    >)
        ensures
            error::outcome(result) == ledger::write_replay(
                self.deep_view(),
                request_id.deep_view(),
                operation.deep_view(),
            ),
    {
        let id = match request_id {
            None => {
                return Ok(None);
            },
            Some(id) => id,
        };
        match self.find_request(id) {
            None => Ok(None),
            Some(i) => if self.requests[i].operation.same(operation) {
                match &self.requests[i].reply {
                    Reply::Write { result } => {
                        let mut copy = result.copy();
                        copy.replayed = true;
                        Ok(Some(copy))
                    },
                    Reply::Pending { .. } => Err(AppError::damaged("请求记录与操作不符")),
                    Reply::Unreadable { message } => Err(AppError::damaged(message.as_str())),
                }
            } else {
                Err(AppError::new("IDEMPOTENCY_CONFLICT", "此 request-id 已用于不同请求"))
            },
        }
    }

    /// Keeps a request and its answer.
    pub(crate) fn save_request(
        &mut self,
        request_id: Option<&str>,
        operation: Operation,
        reply: Reply,
        now: &str,
    )
        ensures
            final(self).deep_view() == (Ledger {
                requests: ledger::with_request(
                    old(self).deep_view().requests,
                    request_id.deep_view(),
                    operation.deep_view(),
                    reply.deep_view(),
                    now@,
                ),
                ..old(self).deep_view()
            }),
    {
        match request_id {
            None => {},
            Some(id) => {
                self.requests.push(
                    RequestRow {
                        request_id: id.to_owned(),
                        operation,
                        reply,
                        created_at: now.to_owned(),
                    },
                );
            },
        }
    }
}

proof fn lemma_missing_record(ledger: Ledger, rows: Seq<TransactionRow<Text>>, end: int)
    requires
        0 <= end <= rows.len(),
        ledger::records_of(ledger, rows.take(end)) is None,
    ensures
        ledger::records_of(ledger, rows) is None,
    decreases rows.len() - end,
{
    if end < rows.len() {
        assert(rows.take(end + 1).drop_last() =~= rows.take(end));
        lemma_missing_record(ledger, rows, end + 1);
    } else {
        assert(rows.take(end) =~= rows);
    }
}

/// The category of a transaction that is recorded without one.
pub open spec fn default_category(kind: Kind) -> Text {
    if kind == Kind::Expense {
        "其他支出"@
    } else {
        "其他收入"@
    }
}

/// The transaction to be recorded, with its time in the stored form, once all that can be told
/// without the ledger has been checked.
pub open spec fn checked_new(
    input: NewTransaction<Text>,
    request_id: Option<Text>,
) -> core::result::Result<NewTransaction<Text>, ErrorView> {
    match (
        checked_amount(input.amount),
        occurrence::occurrence(input.date, input.occurred_at),
        checked_request_id(request_id),
    ) {
        (Err(error), _, _) => Err(error),
        (_, Err(error), _) => Err(error),
        (_, _, Err(error)) => Err(error),
        (Ok(_), Ok(occurred_at), Ok(_)) => if input.kind == Kind::Refund {
            if input.original_id is None || input.original_id->0.len() == 0 {
                Err(error::invalid_input("退款必须指定原支出 ID"@))
            } else if input.category is Some {
                Err(error::invalid_input("退款分类继承原支出，不接受 category"@))
            } else {
                Ok(NewTransaction { occurred_at, ..input })
            }
        } else if input.original_id is Some {
            Err(error::invalid_input("只有退款可以指定 original_id"@))
        } else {
            Ok(NewTransaction { occurred_at, ..input })
        },
    }
}

/// The category that a new transaction has of its own, and the one that it belongs to.
pub open spec fn chosen_category(
    ledger: Ledger,
    input: NewTransaction<Text>,
) -> core::result::Result<(Option<Text>, Text), ErrorView> {
    if input.kind == Kind::Refund {
        match ledger::fetched(ledger, input.original_id->0) {
            Err(error) => Err(error),
            Ok(original) => if original.kind != Kind::Expense || original.voided {
                Err(error::invalid_input("退款只能关联未作废的支出"@))
            } else {
                Ok((None, original.category))
            },
        }
    } else {
        let name = match input.category {
            Some(name) => name,
            None => default_category(input.kind),
        };
        match ledger::required_category(ledger, name, input.kind) {
            Err(error) => Err(error),
            Ok(_) => Ok((Some(name), name)),
        }
    }
}

/// The row of a new transaction.
pub open spec fn new_row(
    input: NewTransaction<Text>,
    category: Option<Text>,
    stamp: Stamp<Text>,
) -> TransactionRow<Text> {
    TransactionRow {
        id: "txn_"@ + stamp.unique,
        kind: input.kind,
        amount: input.amount,
        category,
        date: input.date,
        occurred_at: input.occurred_at,
        note: ledger::cleaned(input.note),
        channel: ledger::cleaned(input.channel),
        original_id: input.original_id,
        voided: false,
        created_at: stamp.now,
        updated_at: stamp.now,
    }
}

/// The log entry of a change of a transaction.
pub open spec fn entry(
    action: Text,
    before: Option<TransactionRecord<Text>>,
    after: TransactionRecord<Text>,
    now: Text,
) -> AuditEntry<Text> {
    AuditEntry { transaction_id: after.id, action, before, after, created_at: now }
}

/// The error for an id that is taken.
pub open spec fn id_taken_error() -> ErrorView {
    error::damaged("账单 ID 已存在"@)
}

/// What recording a transaction does to a ledger and answers.
pub open spec fn added(
    ledger: Ledger,
    input: NewTransaction<Text>,
    request_id: Option<Text>,
    stamp: Stamp<Text>,
) -> (Ledger, core::result::Result<WriteView, ErrorView>) {
    match checked_new(input, request_id) {
        Err(error) => (ledger, Err(error)),
        Ok(input) => match ledger::write_replay(ledger, request_id, Operation::Add { input }) {
            Err(error) => (ledger, Err(error)),
            Ok(Some(result)) => (ledger, Ok(result)),
            Ok(None) => match chosen_category(ledger, input) {
                Err(error) => (ledger, Err(error)),
                Ok((own, category)) => {
                    let row = new_row(input, own, stamp);
                    let record = ledger::report(row, category);
                    let result = WriteResult {
                        transaction: record,
                        replayed: false,
                        affected_ids: seq![row.id],
                    };
                    if ledger::transaction(ledger, row.id) is Some {
                        (ledger, Err(id_taken_error()))
                    } else {
                        (
                            Ledger {
                                transactions: ledger.transactions.push(row),
                                audit_log: ledger.audit_log.push(
                                    entry("create"@, None, record, stamp.now),
                                ),
                                requests: ledger::with_request(
                                    ledger.requests,
                                    request_id,
                                    Operation::Add { input },
                                    Reply::Write { result },
                                    stamp.now,
                                ),
                                ..ledger
                            },
                            Ok(result),
                        )
                    }
                },
            },
        },
    }
}

/// Checks all of a new transaction that can be told without the ledger.
fn check_new(input: NewTransaction, request_id: Option<&str>) -> (result: Result<NewTransaction>)
    ensures
        error::outcome(result) == checked_new(input.deep_view(), request_id.deep_view()),
{
    match validate_amount(input.amount) {
        Err(error) => {
            return Err(error);
        },
        Ok(_) => {},
    }
    let time: Option<&str> = match &input.occurred_at {
        Some(time) => Some(time.as_str()),
        None => None,
    };
    let occurred_at = match occurrence::validate_occurrence(input.date.as_str(), time) {
        Err(error) => {
            return Err(error);
        },
        Ok(occurred_at) => occurred_at,
    };
    match validate_request_id(request_id) {
        Err(error) => {
            return Err(error);
        },
        Ok(_) => {},
    }
    if input.kind == Kind::Refund {
        let missing = match &input.original_id {
            Some(original) => text::is_empty(original.as_str()),
            None => true,
        };
        if missing {
            return Err(AppError::invalid("退款必须指定原支出 ID"));
        }
        if input.category.is_some() {
            return Err(AppError::invalid("退款分类继承原支出，不接受 category"));
        }
    } else if input.original_id.is_some() {
        return Err(AppError::invalid("只有退款可以指定 original_id"));
    }
    let mut checked = input;
    checked.occurred_at = occurred_at;
    Ok(checked)
}

impl Store {
    fn choose_category(&self, input: &NewTransaction) -> (result: Result<(Option<String>, String)>)
        requires
            input.kind == Kind::Refund ==> input.original_id is Some,
        ensures
            error::outcome(result) == chosen_category(self.deep_view(), input.deep_view()),
    {
        if input.kind == Kind::Refund {
            let original = match &input.original_id {
                Some(id) => match self.fetch_record(id.as_str()) {
                    Ok(original) => original,
                    Err(error) => {
                        return Err(error);
                    },
                },
                None => {
                    return Err(AppError::invalid("退款必须指定原支出 ID"));
                },
            };
            if original.kind != Kind::Expense || original.voided {
                return Err(AppError::invalid("退款只能关联未作废的支出"));
            }
            Ok((None, original.category))
        } else {
            let name = match &input.category {
                Some(name) => name.clone(),
                None => if input.kind == Kind::Expense {
                    "其他支出".to_owned()
                } else {
                    "其他收入".to_owned()
                },
            };
            match self.require_category(name.as_str(), input.kind) {
                Err(error) => Err(error),
                Ok(_) => Ok((Some(name.clone()), name)),
            }
        }
    }

    /// Records a transaction, with the stamp given.
    pub fn add_with(
        &mut self,
        input: NewTransaction,
        request_id: Option<&str>,
        stamp: &Stamp,
    ) -> (result: Result<WriteResult>)
        ensures
            (final(self).deep_view(), error::outcome(result)) == added(
                old(self).deep_view(),
                input.deep_view(),
                request_id.deep_view(),
                stamp.deep_view(),
            ),
            ledger::sound(old(self).deep_view()) ==> ledger::sound(final(self).deep_view()),
    {
        let ghost expected = added(
            self.deep_view(),
            input.deep_view(),
            request_id.deep_view(),
            stamp.deep_view(),
        ).0;
        proof {
            if ledger::sound(self.deep_view()) {
                soundness::law_recording_keeps_soundness(
                    self.deep_view(),
                    input.deep_view(),
                    request_id.deep_view(),
                    stamp.deep_view(),
                );
            }
        }
        let input = match check_new(input, request_id) {
            Err(error) => {
                return Err(error);
            },
            Ok(input) => input,
        };
        let operation = Operation::Add { input: input.copy() };
        match self.replay(request_id, &operation) {
            Err(error) => {
                return Err(error);
            },
            Ok(Some(result)) => {
                return Ok(result);
            },
            Ok(None) => {},
        }
        let (own, category) = match self.choose_category(&input) {
            Err(error) => {
                return Err(error);
            },
            Ok(chosen) => chosen,
        };
        let row = TransactionRow {
            id: text::joined("txn_", stamp.unique.as_str()),
            kind: input.kind,
            amount: input.amount,
            category: own,
            date: input.date,
            occurred_at: input.occurred_at,
            note: clean_optional(input.note),
            channel: clean_optional(input.channel),
            original_id: input.original_id,
            voided: false,
            created_at: stamp.now.clone(),
            updated_at: stamp.now.clone(),
        };
        if self.find_transaction(row.id.as_str()).is_some() {
            return Err(AppError::damaged("账单 ID 已存在"));
        }
        let record = reported(&row, category);
        let mut affected_ids: Vec<String> = Vec::new();
        affected_ids.push(row.id.clone());
        assert(affected_ids.deep_view() =~= seq![row.id@]);
        self.transactions.push(row);
        self.audit("create", None, &record, stamp.now.as_str());
        let result = WriteResult { transaction: record, replayed: false, affected_ids };
        self.save_request(
            request_id,
            operation,
            Reply::Write { result: result.copy() },
            stamp.now.as_str(),
        );
        assert(self.deep_view() =~= expected);
        Ok(result)
    }

    /// Records a transaction.
    pub fn add(&mut self, input: NewTransaction, request_id: Option<&str>) -> (result: Result<
        WriteResult,
    >)
        ensures
            exists|stamp: Stamp<Text>|
                stamp::is_stamp(stamp) && (final(self).deep_view(), error::outcome(result))
                    == #[trigger] added(
                    old(self).deep_view(),
                    input.deep_view(),
                    request_id.deep_view(),
                    stamp,
                ),
            ledger::sound(old(self).deep_view()) ==> ledger::sound(final(self).deep_view()),
    {
        let stamp = stamp::stamp();
        self.add_with(input, request_id, &stamp)
    }

    /// Logs a change of a transaction.
    pub(crate) fn audit(
        &mut self,
        action: &str,
        before: Option<&TransactionRecord>,
        after: &TransactionRecord,
        now: &str,
    )
        ensures
            final(self).deep_view() == (Ledger {
                audit_log: old(self).deep_view().audit_log.push(
                    entry(action@, before.deep_view(), after.deep_view(), now@),
                ),
                ..old(self).deep_view()
            }),
    {
        self.audit_log.push(
            AuditEntry {
                transaction_id: after.id.clone(),
                action: action.to_owned(),
                before: match before {
                    Some(before) => Some(before.copy()),
                    None => None,
                },
                after: after.copy(),
                created_at: now.to_owned(),
            },
        );
    }
}

/// A row with the category that it belongs to, as it is reported.
pub(crate) fn reported(row: &TransactionRow, category: String) -> (record: TransactionRecord)
    ensures
        record.deep_view() == ledger::report(row.deep_view(), category@),
{
    TransactionRecord {
        id: row.id.clone(),
        kind: row.kind,
        amount: row.amount,
        currency: "CNY".to_owned(),
        category,
        date: row.date.clone(),
        occurred_at: text::copied(&row.occurred_at),
        note: text::copied(&row.note),
        channel: text::copied(&row.channel),
        original_id: text::copied(&row.original_id),
        voided: row.voided,
        created_at: row.created_at.clone(),
        updated_at: row.updated_at.clone(),
    }
}

/// Whether a patch changes nothing.
pub open spec fn is_empty_patch(patch: UpdateTransaction<Text>) -> bool {
    &&& patch.amount is None
    &&& patch.date is None
    &&& patch.occurred_at is None
    &&& !patch.clear_occurred_at
    &&& patch.category is None
    &&& patch.note is None
    &&& patch.channel is None
}

/// What checking the date and the time of a patch answers: the time in its stored form.
pub open spec fn patched_time(patch: UpdateTransaction<Text>) -> core::result::Result<
    Option<Text>,
    ErrorView,
> {
    match (patch.date, patch.occurred_at) {
        (Some(date), time) => occurrence::occurrence(date, time),
        (None, Some(time)) => match occurrence::normalized(time) {
            Ok(stored) => Ok(Some(stored)),
            Err(error) => Err(error),
        },
        (None, None) => Ok(None),
    }
}

/// The patch with its time in the stored form, once all that can be told without the ledger has
/// been checked.
pub open spec fn checked_patch(
    patch: UpdateTransaction<Text>,
    request_id: Option<Text>,
) -> core::result::Result<UpdateTransaction<Text>, ErrorView> {
    match checked_request_id(request_id) {
        Err(error) => Err(error),
        Ok(_) => if is_empty_patch(patch) {
            Err(error::invalid_input("修改至少需要提供一个字段"@))
        } else if patch.occurred_at is Some && patch.clear_occurred_at {
            Err(error::invalid_input("occurred-at 与 clear-occurred-at 不能同时使用"@))
        } else {
            match (
                match patch.amount {
                    Some(amount) => checked_amount(amount),
                    None => Ok(()),
                },
                patched_time(patch),
            ) {
                (Err(error), _) => Err(error),
                (_, Err(error)) => Err(error),
                (Ok(_), Ok(occurred_at)) => Ok(UpdateTransaction { occurred_at, ..patch }),
            }
        },
    }
}

/// The date and the time that a transaction has after a patch. A new time brings its date along;
/// a known time is never dropped unless that is asked for.
pub open spec fn new_occurrence(
    before: TransactionRecord<Text>,
    patch: UpdateTransaction<Text>,
) -> core::result::Result<(Text, Option<Text>), ErrorView> {
    let date = match patch.date {
        Some(date) => date,
        None => before.date,
    };
    match patch.occurred_at {
        Some(time) => Ok((time.take(10), Some(time))),
        None => if patch.clear_occurred_at {
            Ok((date, None))
        } else {
            match before.occurred_at {
                Some(time) => if text::begins_with(time, date) {
                    Ok((date, Some(time)))
                } else {
                    Err(occurrence::mismatch_error())
                },
                None => Ok((date, None)),
            }
        },
    }
}

/// The category that a transaction belongs to after a patch.
pub open spec fn new_category(
    ledger: Ledger,
    before: TransactionRecord<Text>,
    patch: UpdateTransaction<Text>,
) -> core::result::Result<Text, ErrorView> {
    match patch.category {
        None => Ok(before.category),
        Some(category) => if before.kind == Kind::Refund {
            Err(error::invalid_input("退款分类继承原支出，不能单独修改"@))
        } else {
            match ledger::required_category(ledger, category, before.kind) {
                Err(error) => Err(error),
                Ok(_) => Ok(category),
            }
        },
    }
}

/// The row of a transaction after a patch, and the category that it belongs to.
pub open spec fn patched_row(
    ledger: Ledger,
    before: TransactionRecord<Text>,
    patch: UpdateTransaction<Text>,
    now: Text,
) -> core::result::Result<(TransactionRow<Text>, Text), ErrorView> {
    if before.voided {
        Err(ErrorView { code: "VOIDED_TRANSACTION"@, message: "已作废的账单不能修改"@ })
    } else {
        match (new_category(ledger, before, patch), new_occurrence(before, patch)) {
            (Err(error), _) => Err(error),
            (_, Err(error)) => Err(error),
            (Ok(category), Ok((date, occurred_at))) => Ok(
                (
                    TransactionRow {
                        id: before.id,
                        kind: before.kind,
                        amount: match patch.amount {
                            Some(amount) => amount,
                            None => before.amount,
                        },
                        category: if before.kind == Kind::Refund {
                            None
                        } else {
                            Some(category)
                        },
                        date,
                        occurred_at,
                        note: match patch.note {
                            Some(note) => ledger::cleaned(Some(note)),
                            None => before.note,
                        },
                        channel: match patch.channel {
                            Some(channel) => ledger::cleaned(Some(channel)),
                            None => before.channel,
                        },
                        original_id: before.original_id,
                        voided: false,
                        created_at: before.created_at,
                        updated_at: now,
                    },
                    category,
                ),
            ),
        }
    }
}

/// What changing a transaction does to a ledger and answers.
pub open spec fn updated(
    ledger: Ledger,
    id: Text,
    patch: UpdateTransaction<Text>,
    request_id: Option<Text>,
    now: Text,
) -> (Ledger, core::result::Result<WriteView, ErrorView>) {
    match checked_patch(patch, request_id) {
        Err(error) => (ledger, Err(error)),
        Ok(patch) => {
            let operation = Operation::Update { id, patch };
            match ledger::write_replay(ledger, request_id, operation) {
                Err(error) => (ledger, Err(error)),
                Ok(Some(result)) => (ledger, Ok(result)),
                Ok(None) => match ledger::fetched(ledger, id) {
                    Err(error) => (ledger, Err(error)),
                    Ok(before) => match patched_row(ledger, before, patch, now) {
                        Err(error) => (ledger, Err(error)),
                        Ok((row, category)) => {
                            let after = ledger::report(row, category);
                            let result = WriteResult {
                                transaction: after,
                                replayed: false,
                                affected_ids: seq![id],
                            };
                            let place = text::position(ledger::ids(ledger.transactions), id)->0;
                            (
                                Ledger {
                                    transactions: ledger.transactions.update(place, row),
                                    audit_log: ledger.audit_log.push(
                                        entry("update"@, Some(before), after, now),
                                    ),
                                    requests: ledger::with_request(
                                        ledger.requests,
                                        request_id,
                                        operation,
                                        Reply::Write { result },
                                        now,
                                    ),
                                    ..ledger
                                },
                                Ok(result),
                            )
                        },
                    },
                },
            }
        },
    }
}

fn check_patch_time(patch: &UpdateTransaction) -> (result: Result<Option<String>>)
    ensures
        error::outcome(result) == patched_time(patch.deep_view()),
{
    match (&patch.date, &patch.occurred_at) {
        (Some(date), Some(time)) => occurrence::validate_occurrence(
            date.as_str(),
            Some(time.as_str()),
        ),
        (Some(date), None) => occurrence::validate_occurrence(date.as_str(), None),
        (None, Some(time)) => match occurrence::normalize_occurred_at(time.as_str()) {
            Ok(stored) => Ok(Some(stored)),
            Err(error) => Err(error),
        },
        (None, None) => Ok(None),
    }
}

/// Checks all of a patch that can be told without the ledger.
fn check_patch(patch: UpdateTransaction, request_id: Option<&str>) -> (result: Result<
    UpdateTransaction,
>)
    ensures
        error::outcome(result) == checked_patch(patch.deep_view(), request_id.deep_view()),
{
    match validate_request_id(request_id) {
        Err(error) => {
            return Err(error);
        },
        Ok(_) => {},
    }
    if patch.amount.is_none() && patch.date.is_none() && patch.occurred_at.is_none()
        && !patch.clear_occurred_at && patch.category.is_none() && patch.note.is_none()
        && patch.channel.is_none() {
        return Err(AppError::invalid("修改至少需要提供一个字段"));
    }
    if patch.occurred_at.is_some() && patch.clear_occurred_at {
        return Err(AppError::invalid("occurred-at 与 clear-occurred-at 不能同时使用"));
    }
    match patch.amount {
        Some(amount) => match validate_amount(amount) {
            Err(error) => {
                return Err(error);
            },
            Ok(_) => {},
        },
        None => {},
    }
    match check_patch_time(&patch) {
        Err(error) => Err(error),
        Ok(occurred_at) => {
            let mut checked = patch;
            checked.occurred_at = occurred_at;
            Ok(checked)
        },
    }
}

/// The local date of a stored time, which stands at its beginning.
fn local_date(time: &str) -> (date: String)
    requires
        time@.len() >= 10,
    ensures
        date@ == time@.take(10),
{
    let characters = text::chars_of(time);
    let date = text::text_of(&characters, 0, 10);
    assert(date@ == time@.take(10));
    date
}

/// The time of a checked patch has the length of one.
proof fn lemma_patched_time(patch: UpdateTransaction<Text>, request_id: Option<Text>)
    requires
        checked_patch(patch, request_id) is Ok,
    ensures
        checked_patch(patch, request_id)->Ok_0.occurred_at matches Some(time) ==> time.len() >= 17
            && occurrence::is_normal(time),
{
    if let Some(time) = patch.occurred_at {
        occurrence::law_normalizing_keeps_the_local_time(time);
        occurrence::law_normalizing_is_idempotent(time);
    }
}

impl Store {
    fn choose_new_category(&self, before: &TransactionRecord, patch: &UpdateTransaction) -> (result:
        Result<String>)
        ensures
            error::outcome(result) == new_category(
                self.deep_view(),
                before.deep_view(),
                patch.deep_view(),
            ),
    {
        match &patch.category {
            None => Ok(before.category.clone()),
            Some(category) => if before.kind == Kind::Refund {
                Err(AppError::invalid("退款分类继承原支出，不能单独修改"))
            } else {
                match self.require_category(category.as_str(), before.kind) {
                    Err(error) => Err(error),
                    Ok(_) => Ok(category.clone()),
                }
            },
        }
    }

    fn patch_row(&self, before: &TransactionRecord, patch: &UpdateTransaction, now: &str) -> (result:
        Result<(TransactionRow, String)>)
        requires
            patch.deep_view().occurred_at matches Some(time) ==> time.len() >= 10,
        ensures
            error::outcome(result) == patched_row(
                self.deep_view(),
                before.deep_view(),
                patch.deep_view(),
                now@,
            ),
    {
        if before.voided {
            return Err(AppError::new("VOIDED_TRANSACTION", "已作废的账单不能修改"));
        }
        let category = match self.choose_new_category(before, patch) {
            Err(error) => {
                return Err(error);
            },
            Ok(category) => category,
        };
        let (date, occurred_at) = match choose_occurrence(before, patch) {
            Err(error) => {
                return Err(error);
            },
            Ok(chosen) => chosen,
        };
        let row = TransactionRow {
            id: before.id.clone(),
            kind: before.kind,
            amount: match patch.amount {
                Some(amount) => amount,
                None => before.amount,
            },
            category: if before.kind == Kind::Refund {
                None
            } else {
                Some(category.clone())
            },
            date,
            occurred_at,
            note: match &patch.note {
                Some(note) => clean_optional(Some(note.clone())),
                None => text::copied(&before.note),
            },
            channel: match &patch.channel {
                Some(channel) => clean_optional(Some(channel.clone())),
                None => text::copied(&before.channel),
            },
            original_id: text::copied(&before.original_id),
            voided: false,
            created_at: before.created_at.clone(),
            updated_at: now.to_owned(),
        };
        Ok((row, category))
    }

    /// Changes a transaction, at the time given.
    pub fn update_with(
        &mut self,
        id: &str,
        patch: UpdateTransaction,
        request_id: Option<&str>,
        now: &str,
    ) -> (result: Result<WriteResult>)
        ensures
            (final(self).deep_view(), error::outcome(result)) == updated(
                old(self).deep_view(),
                id@,
                patch.deep_view(),
                request_id.deep_view(),
                now@,
            ),
            ledger::sound(old(self).deep_view()) ==> ledger::sound(final(self).deep_view()),
    {
        proof {
            if ledger::sound(self.deep_view()) {
                soundness::law_changing_keeps_soundness(
                    self.deep_view(),
                    id@,
                    patch.deep_view(),
                    request_id.deep_view(),
                    now@,
                );
            }
        }
        let ghost given = patch.deep_view();
        let patch = match check_patch(patch, request_id) {
            Err(error) => {
                return Err(error);
            },
            Ok(patch) => patch,
        };
        proof {
            lemma_patched_time(given, request_id.deep_view());
        }
        let operation = Operation::Update { id: id.to_owned(), patch: patch.copy() };
        match self.replay(request_id, &operation) {
            Err(error) => {
                return Err(error);
            },
            Ok(Some(result)) => {
                return Ok(result);
            },
            Ok(None) => {},
        }
        let before = match self.fetch_record(id) {
            Err(error) => {
                return Err(error);
            },
            Ok(before) => before,
        };
        let (row, category) = match self.patch_row(&before, &patch, now) {
            Err(error) => {
                return Err(error);
            },
            Ok(patched) => patched,
        };
        let after = reported(&row, category);
        match self.find_transaction(id) {
            Some(place) => {
                let ghost rows = self.transactions.deep_view();
                self.transactions.set(place, row);
                assert(self.transactions.deep_view() =~= rows.update(
                    place as int,
                    row.deep_view(),
                ));
            },
            None => {},
        }
        self.audit("update", Some(&before), &after, now);
        let mut affected_ids: Vec<String> = Vec::new();
        affected_ids.push(id.to_owned());
        assert(affected_ids.deep_view() =~= seq![id@]);
        let result = WriteResult { transaction: after, replayed: false, affected_ids };
        self.save_request(request_id, operation, Reply::Write { result: result.copy() }, now);
        Ok(result)
    }

    /// Changes a transaction.
    pub fn update(
        &mut self,
        id: &str,
        patch: UpdateTransaction,
        request_id: Option<&str>,
    ) -> (result: Result<WriteResult>)
        ensures
            exists|now: Text|
                stamp::is_instant(now) && (final(self).deep_view(), error::outcome(result))
                    == #[trigger] updated(
                    old(self).deep_view(),
                    id@,
                    patch.deep_view(),
                    request_id.deep_view(),
                    now,
                ),
            ledger::sound(old(self).deep_view()) ==> ledger::sound(final(self).deep_view()),
    {
        let stamp = stamp::stamp();
        self.update_with(id, patch, request_id, stamp.now.as_str())
    }
}

fn choose_occurrence(before: &TransactionRecord, patch: &UpdateTransaction) -> (result: Result<
    (String, Option<String>),
>)
    requires
        patch.deep_view().occurred_at matches Some(time) ==> time.len() >= 10,
    ensures
        error::outcome(result) == new_occurrence(before.deep_view(), patch.deep_view()),
{
    match &patch.occurred_at {
        Some(time) => {
            return Ok((local_date(time.as_str()), Some(time.clone())));
        },
        None => {},
    }
    let date = match &patch.date {
        Some(date) => date.clone(),
        None => before.date.clone(),
    };
    if patch.clear_occurred_at {
        return Ok((date, None));
    }
    match &before.occurred_at {
        Some(time) => if text::starts_with(time.as_str(), date.as_str()) {
            Ok((date, Some(time.clone())))
        } else {
            Err(AppError::invalid("date 必须与 occurred-at 自带时区中的本地日期一致"))
        },
        None => Ok((date, None)),
    }
}

/// Transactions in the order of their ids.
pub struct ById;

impl Order<TransactionRow> for ById {
    open spec fn key(record: TransactionRow<Text>) -> Key {
        (record.id, Seq::empty(), Seq::empty())
    }

    fn comes_before(left: &TransactionRow, right: &TransactionRow) -> (answer: bool) {
        assert(!text::before(Seq::<char>::empty(), Seq::<char>::empty()));
        text::is_before(left.id.as_str(), right.id.as_str())
    }
}

/// Which transactions are refunds of an expense that are not voided.
pub open spec fn active_refund_of(id: Text) -> spec_fn(TransactionRow<Text>) -> bool {
    |row: TransactionRow<Text>| row.original_id == Some(id) && !row.voided
}

/// The refunds of an expense that are not voided, in the order of their ids.
pub open spec fn active_refunds(rows: Seq<TransactionRow<Text>>, id: Text) -> Seq<
    TransactionRow<Text>,
> {
    order::sorted::<TransactionRow, ById>(rows.filter(active_refund_of(id)))
}

/// A transaction as it is reported once it is voided.
pub open spec fn voided_record(
    record: TransactionRecord<Text>,
    now: Text,
) -> TransactionRecord<Text> {
    TransactionRecord { voided: true, updated_at: now, ..record }
}

/// The row of a transaction after the one with an id and its refunds are voided.
pub open spec fn voided_row(row: TransactionRow<Text>, id: Text, now: Text) -> TransactionRow<
    Text,
> {
    if row.id == id || (row.original_id == Some(id) && !row.voided) {
        TransactionRow { voided: true, updated_at: now, ..row }
    } else {
        row
    }
}

/// The rows after the transaction with an id and its refunds are voided.
pub open spec fn voided_rows(rows: Seq<TransactionRow<Text>>, id: Text, now: Text) -> Seq<
    TransactionRow<Text>,
> {
    Seq::new(rows.len(), |i: int| voided_row(rows[i], id, now))
}

/// The log entries of voided transactions.
pub open spec fn void_entries(records: Seq<TransactionRecord<Text>>, now: Text) -> Seq<
    AuditEntry<Text>,
> {
    Seq::new(
        records.len(),
        |i: int| entry("void"@, Some(records[i]), voided_record(records[i], now), now),
    )
}

/// The ids of reported transactions.
pub open spec fn record_ids(records: Seq<TransactionRecord<Text>>) -> Seq<Text> {
    Seq::new(records.len(), |i: int| records[i].id)
}

/// The transaction to be voided and its refunds that are to be voided with it.
pub open spec fn void_plan(ledger: Ledger, id: Text, cascade_refunds: bool) -> core::result::Result<
    (TransactionRecord<Text>, Seq<TransactionRecord<Text>>),
    ErrorView,
> {
    match ledger::fetched(ledger, id) {
        Err(error) => Err(error),
        Ok(before) => if before.voided {
            Err(ErrorView { code: "VOIDED_TRANSACTION"@, message: "账单已经作废"@ })
        } else {
            let refunds = active_refunds(ledger.transactions, id);
            if refunds.len() > 0 && !cascade_refunds {
                Err(
                    ErrorView {
                        code: "HAS_REFUNDS"@,
                        message: "支出仍有关联退款，请先作废退款或使用 --cascade-refunds"@,
                    },
                )
            } else {
                match ledger::records_of(ledger, refunds) {
                    None => Err(ledger::no_category_error()),
                    Some(records) => Ok((before, records)),
                }
            }
        },
    }
}

/// What voiding a transaction does to a ledger and answers.
pub open spec fn voided(
    ledger: Ledger,
    id: Text,
    cascade_refunds: bool,
    request_id: Option<Text>,
    now: Text,
) -> (Ledger, core::result::Result<WriteView, ErrorView>) {
    let operation = Operation::Void { id, cascade_refunds };
    match checked_request_id(request_id) {
        Err(error) => (ledger, Err(error)),
        Ok(_) => match ledger::write_replay(ledger, request_id, operation) {
            Err(error) => (ledger, Err(error)),
            Ok(Some(result)) => (ledger, Ok(result)),
            Ok(None) => match void_plan(ledger, id, cascade_refunds) {
                Err(error) => (ledger, Err(error)),
                Ok((before, refunds)) => {
                    let result = WriteResult {
                        transaction: voided_record(before, now),
                        replayed: false,
                        affected_ids: seq![id] + record_ids(refunds),
                    };
                    (
                        Ledger {
                            transactions: voided_rows(ledger.transactions, id, now),
                            audit_log: ledger.audit_log + void_entries(refunds.push(before), now),
                            requests: ledger::with_request(
                                ledger.requests,
                                request_id,
                                operation,
                                Reply::Write { result },
                                now,
                            ),
                            ..ledger
                        },
                        Ok(result),
                    )
                },
            },
        },
    }
}

fn choose_active_refunds(rows: &Vec<TransactionRow>, id: &str) -> (refunds: Vec<TransactionRow>)
    ensures
        refunds.deep_view() == active_refunds(rows.deep_view(), id@),
{
    let ghost all = rows.deep_view();
    let ghost wanted = active_refund_of(id@);
    let mut found: Vec<TransactionRow> = Vec::new();
    let mut i: usize = 0;
    proof {
        reveal(Seq::filter);
        assert(all.take(0).filter(wanted) =~= Seq::<TransactionRow<Text>>::empty());
    }
    while i < rows.len()
        invariant
            all == rows.deep_view(),
            wanted == active_refund_of(id@),
            i <= rows.len(),
            found.deep_view() == all.take(i as int).filter(wanted),
        decreases rows.len() - i,
    {
        proof {
            reveal(Seq::filter);
            assert(all.take(i + 1).drop_last() =~= all.take(i as int));
            assert(all.take(i + 1).last() == all[i as int]);
        }
        let row = &rows[i];
        let fits = !row.voided && match &row.original_id {
            Some(original) => text::same(original.as_str(), id),
            None => false,
        };
        assert(fits == wanted(all[i as int]));
        if fits {
            found.push(row.copy());
        }
        i += 1;
    }
    assert(all.take(i as int) =~= all);
    order::sort::<TransactionRow, ById>(found)
}

impl Store {
    fn plan_void(&self, id: &str, cascade_refunds: bool) -> (result: Result<
        (TransactionRecord, Vec<TransactionRecord>),
    >)
        ensures
            error::outcome(result) == void_plan(self.deep_view(), id@, cascade_refunds),
    {
        let before = match self.fetch_record(id) {
            Err(error) => {
                return Err(error);
            },
            Ok(before) => before,
        };
        if before.voided {
            return Err(AppError::new("VOIDED_TRANSACTION", "账单已经作废"));
        }
        let refunds = choose_active_refunds(&self.transactions, id);
        assert(refunds.deep_view().len() == refunds.len());
        if refunds.len() > 0 && !cascade_refunds {
            return Err(
                AppError::new(
                    "HAS_REFUNDS",
                    "支出仍有关联退款，请先作废退款或使用 --cascade-refunds",
                ),
            );
        }
        match self.report_all(&refunds) {
            Err(error) => Err(error),
            Ok(records) => Ok((before, records)),
        }
    }

    /// Marks the transaction with an id and its active refunds as voided.
    fn void_rows(&mut self, id: &str, now: &str)
        ensures
            final(self).deep_view() == (Ledger {
                transactions: voided_rows(old(self).deep_view().transactions, id@, now@),
                ..old(self).deep_view()
            }),
    {
        let ghost rows = self.transactions.deep_view();
        let mut i: usize = 0;
        while i < self.transactions.len()
            invariant
                rows == old(self).deep_view().transactions,
                self.transactions.len() == rows.len(),
                i <= rows.len(),
                self.deep_view() == (Ledger {
                    transactions: self.transactions.deep_view(),
                    ..old(self).deep_view()
                }),
                forall|j: int|
                    0 <= j < i ==> #[trigger] self.transactions.deep_view()[j] == voided_row(
                        rows[j],
                        id@,
                        now@,
                    ),
                forall|j: int|
                    i <= j < rows.len() ==> #[trigger] self.transactions.deep_view()[j] == rows[j],
            decreases self.transactions.len() - i,
        {
            let mut row = self.transactions[i].copy();
            assert(row.deep_view() == self.transactions.deep_view()[i as int]);
            let hit = text::same(row.id.as_str(), id) || (!row.voided && match &row.original_id {
                Some(original) => text::same(original.as_str(), id),
                None => false,
            });
            if hit {
                row.voided = true;
                row.updated_at = now.to_owned();
                let ghost before = self.transactions.deep_view();
                self.transactions.set(i, row);
                assert(self.transactions.deep_view() =~= before.update(i as int, row.deep_view()));
            }
            i += 1;
        }
        assert(self.transactions.deep_view() =~= voided_rows(rows, id@, now@));
    }

    /// Logs that transactions were voided.
    fn audit_voids(&mut self, records: &Vec<TransactionRecord>, now: &str)
        ensures
            final(self).deep_view() == (Ledger {
                audit_log: old(self).deep_view().audit_log + void_entries(
                    records.deep_view(),
                    now@,
                ),
                ..old(self).deep_view()
            }),
    {
        let ghost log = self.audit_log.deep_view();
        let ghost entries = void_entries(records.deep_view(), now@);
        let mut i: usize = 0;
        assert(log + entries.take(0) =~= log);
        while i < records.len()
            invariant
                entries == void_entries(records.deep_view(), now@),
                i <= records.len(),
                self.deep_view() == (Ledger {
                    audit_log: log + entries.take(i as int),
                    ..old(self).deep_view()
                }),
            decreases records.len() - i,
        {
            let before = &records[i];
            let mut after = before.copy();
            after.voided = true;
            after.updated_at = now.to_owned();
            self.audit("void", Some(before), &after, now);
            assert(entries[i as int].before == Some(before.deep_view()));
            assert((log + entries.take(i as int)).push(entries[i as int]) =~= log + entries.take(
                i + 1,
            ));
            i += 1;
        }
        assert(entries.take(i as int) =~= entries);
    }

    /// Voids a transaction, at the time given.
    pub fn void_with(
        &mut self,
        id: &str,
        cascade_refunds: bool,
        request_id: Option<&str>,
        now: &str,
    ) -> (result: Result<WriteResult>)
        ensures
            (final(self).deep_view(), error::outcome(result)) == voided(
                old(self).deep_view(),
                id@,
                cascade_refunds,
                request_id.deep_view(),
                now@,
            ),
            ledger::sound(old(self).deep_view()) ==> ledger::sound(final(self).deep_view()),
    {
        let ghost expected = voided(
            self.deep_view(),
            id@,
            cascade_refunds,
            request_id.deep_view(),
            now@,
        ).0;
        proof {
            if ledger::sound(self.deep_view()) {
                soundness::law_voiding_keeps_soundness(
                    self.deep_view(),
                    id@,
                    cascade_refunds,
                    request_id.deep_view(),
                    now@,
                );
            }
        }
        match validate_request_id(request_id) {
            Err(error) => {
                return Err(error);
            },
            Ok(_) => {},
        }
        let operation = Operation::Void { id: id.to_owned(), cascade_refunds };
        match self.replay(request_id, &operation) {
            Err(error) => {
                return Err(error);
            },
            Ok(Some(result)) => {
                return Ok(result);
            },
            Ok(None) => {},
        }
        let (before, refunds) = match self.plan_void(id, cascade_refunds) {
            Err(error) => {
                return Err(error);
            },
            Ok(plan) => plan,
        };
        let ghost planned = refunds.deep_view();
        let mut affected_ids: Vec<String> = Vec::new();
        affected_ids.push(id.to_owned());
        let mut i: usize = 0;
        assert(affected_ids.deep_view() =~= seq![id@] + record_ids(planned).take(0));
        while i < refunds.len()
            invariant
                planned == refunds.deep_view(),
                i <= refunds.len(),
                affected_ids.deep_view() == seq![id@] + record_ids(planned).take(i as int),
            decreases refunds.len() - i,
        {
            affected_ids.push(refunds[i].id.clone());
            i += 1;
            assert((seq![id@] + record_ids(planned).take(i - 1)).push(planned[i - 1].id) =~= seq![
                id@,
            ] + record_ids(planned).take(i as int));
        }
        assert(record_ids(planned).take(i as int) =~= record_ids(planned));
        let mut after = before.copy();
        after.voided = true;
        after.updated_at = now.to_owned();
        let mut records = refunds;
        records.push(before);
        self.void_rows(id, now);
        self.audit_voids(&records, now);
        let result = WriteResult { transaction: after, replayed: false, affected_ids };
        self.save_request(request_id, operation, Reply::Write { result: result.copy() }, now);
        assert(self.deep_view() =~= expected);
        Ok(result)
    }

    /// Voids a transaction; an expense that has refunds only together with them.
    pub fn void(&mut self, id: &str, cascade_refunds: bool, request_id: Option<&str>) -> (result:
        Result<WriteResult>)
        ensures
            exists|now: Text|
                stamp::is_instant(now) && (final(self).deep_view(), error::outcome(result))
                    == #[trigger] voided(
                    old(self).deep_view(),
                    id@,
                    cascade_refunds,
                    request_id.deep_view(),
                    now,
                ),
            ledger::sound(old(self).deep_view()) ==> ledger::sound(final(self).deep_view()),
    {
        let stamp = stamp::stamp();
        self.void_with(id, cascade_refunds, request_id, stamp.now.as_str())
    }
}

/// The categories that every new ledger has.
pub open spec fn built_in_categories() -> Seq<Category<Text>> {
    seq![
        Category { name: "餐饮"@, kind: Kind::Expense },
        Category { name: "交通"@, kind: Kind::Expense },
        Category { name: "购物"@, kind: Kind::Expense },
        Category { name: "住房"@, kind: Kind::Expense },
        Category { name: "娱乐"@, kind: Kind::Expense },
        Category { name: "医疗"@, kind: Kind::Expense },
        Category { name: "其他支出"@, kind: Kind::Expense },
        Category { name: "工资"@, kind: Kind::Income },
        Category { name: "奖金"@, kind: Kind::Income },
        Category { name: "其他收入"@, kind: Kind::Income },
    ]
}

/// A ledger in which nothing has been recorded.
pub open spec fn new_ledger() -> Ledger {
    Ledger {
        categories: built_in_categories(),
        transactions: Seq::empty(),
        audit_log: Seq::empty(),
        requests: Seq::empty(),
        pending_expenses: Seq::empty(),
        pending_audit_log: Seq::empty(),
    }
}

fn built_in(name: &str, kind: Kind) -> (category: Category)
    ensures
        category.deep_view() == (Category { name: name@, kind }),
{
    Category { name: name.to_owned(), kind }
}

impl Store {
    /// A ledger in which nothing has been recorded.
    pub fn new() -> (store: Store)
        ensures
            store.deep_view() == new_ledger(),
            ledger::sound(store.deep_view()),
    {
        proof {
            law_new_ledgers_are_sound();
        }
        let mut categories: Vec<Category> = Vec::new();
        categories.push(built_in("餐饮", Kind::Expense));
        categories.push(built_in("交通", Kind::Expense));
        categories.push(built_in("购物", Kind::Expense));
        categories.push(built_in("住房", Kind::Expense));
        categories.push(built_in("娱乐", Kind::Expense));
        categories.push(built_in("医疗", Kind::Expense));
        categories.push(built_in("其他支出", Kind::Expense));
        categories.push(built_in("工资", Kind::Income));
        categories.push(built_in("奖金", Kind::Income));
        categories.push(built_in("其他收入", Kind::Income));
        assert(categories.deep_view() =~= built_in_categories());
        Store {
            categories,
            transactions: Vec::new(),
            audit_log: Vec::new(),
            requests: Vec::new(),
            pending_expenses: Vec::new(),
            pending_audit_log: Vec::new(),
        }
    }
}

/// A new ledger is sound.
pub proof fn law_new_ledgers_are_sound()
    ensures
        ledger::sound(new_ledger()),
{
    reveal_strlit("餐饮");
    reveal_strlit("交通");
    reveal_strlit("购物");
    reveal_strlit("住房");
    reveal_strlit("娱乐");
    reveal_strlit("医疗");
    reveal_strlit("其他支出");
    reveal_strlit("工资");
    reveal_strlit("奖金");
    reveal_strlit("其他收入");
    let names = ledger::names(built_in_categories());
    assert(names =~= seq![
        "餐饮"@,
        "交通"@,
        "购物"@,
        "住房"@,
        "娱乐"@,
        "医疗"@,
        "其他支出"@,
        "工资"@,
        "奖金"@,
        "其他收入"@,
    ]);
    assert forall|i: int, j: int| 0 <= i < j < names.len() implies names[i] != names[j] by {
        assert(names[i][0] != names[j][0] || names[i][2] != names[j][2]);
    }
}

} // verus!
