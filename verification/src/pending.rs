//! Foreign purchases that await the exact amount in CNY that the bank charges. Until it is known
//! they take no part in any total in CNY.
use vstd::prelude::*;

use crate::calendar;
use crate::error;
use crate::error::{AppError, ErrorView, Result};
use crate::foreign;
use crate::ledger;
use crate::ledger::{Ledger, Operation, PendingView, Reply, Stamp};
use crate::models::{
    ConfirmPendingExpense, Kind, NewPendingExpense, PendingAuditEntry,
    PendingExpenseRecord, PendingExpenseRow, PendingStatus, PendingWriteResult, TransactionRecord,
    TransactionRow,
};
use crate::money::Money;
use crate::occurrence;
use crate::soundness;
use crate::stamp;
use crate::store;
use crate::store::Store;
use crate::text;
use crate::text::Text;

verus! {

/// A foreign purchase as it is reported.
pub(crate) fn decode_pending(row: &PendingExpenseRow) -> (result: Result<PendingExpenseRecord>)
    ensures
        error::outcome(result) == ledger::pending_record(row.deep_view()),
{
    let amount = match foreign::show_amount(row.currency.as_str(), row.amount_minor as i128) {
        Err(error) => {
            return Err(error);
        },
        Ok(amount) => amount,
    };
    Ok(
        PendingExpenseRecord {
            id: row.id.clone(),
            currency: row.currency.clone(),
            amount,
            date: row.date.clone(),
            occurred_at: text::copied(&row.occurred_at),
            category: row.category.clone(),
            merchant: text::copied(&row.merchant),
            note: text::copied(&row.note),
            channel: text::copied(&row.channel),
            status: row.status,
            remind_on: row.remind_on.clone(),
            transaction_id: text::copied(&row.transaction_id),
            confirmed_at: text::copied(&row.confirmed_at),
            posted_date: text::copied(&row.posted_date),
            created_at: row.created_at.clone(),
            updated_at: row.updated_at.clone(),
        },
    )
}

/// The answer to a change that was carried out.
pub open spec fn done(
    pending: PendingExpenseRecord<Text>,
    transaction: Option<TransactionRecord<Text>>,
) -> PendingView {
    PendingWriteResult { pending, transaction, replayed: false }
}

/// The log entry of a change of a foreign purchase.
pub open spec fn entry(
    action: Text,
    before: Option<PendingExpenseRecord<Text>>,
    after: PendingExpenseRecord<Text>,
    now: Text,
) -> PendingAuditEntry<Text> {
    PendingAuditEntry { pending_id: after.id, action, before, after, created_at: now }
}

/// The foreign purchase with an id.
pub open spec fn pending_row(ledger: Ledger, id: Text) -> Option<PendingExpenseRow<Text>> {
    match text::position(ledger::pending_ids(ledger.pending_expenses), id) {
        Some(i) => Some(ledger.pending_expenses[i]),
        None => None,
    }
}

/// What a query for the foreign purchase with an id answers.
pub open spec fn fetched_pending(ledger: Ledger, id: Text) -> core::result::Result<
    PendingExpenseRecord<Text>,
    ErrorView,
> {
    match pending_row(ledger, id) {
        None => Err(ledger::pending_not_found(id)),
        Some(row) => ledger::pending_record(row),
    }
}

/// A foreign purchase to be recorded, with its amount and its time in their stored forms, the
/// hundredths that it amounts to and the day on which it is first due.
pub open spec fn checked_new(
    input: NewPendingExpense<Text>,
    request_id: Option<Text>,
) -> core::result::Result<(NewPendingExpense<Text>, i64, Text), ErrorView> {
    match (
        foreign::stored_amount(input.currency, input.amount),
        occurrence::occurrence(input.date, input.occurred_at),
        store::checked_request_id(request_id),
    ) {
        (Err(error), _, _) => Err(error),
        (_, Err(error), _) => Err(error),
        (_, _, Err(error)) => Err(error),
        (Ok(hundredths), Ok(occurred_at), Ok(_)) => match (
            foreign::shown_amount(input.currency, hundredths as int),
            calendar::date_later(input.date, 3),
        ) {
            (Err(error), _) => Err(error),
            (_, None) => Err(calendar::date_error()),
            (Ok(amount), Some(remind_on)) => Ok(
                (NewPendingExpense { amount, occurred_at, ..input }, hundredths, remind_on),
            ),
        },
    }
}

/// The row of a new foreign purchase.
pub open spec fn new_row(
    input: NewPendingExpense<Text>,
    hundredths: i64,
    remind_on: Text,
    stamp: Stamp<Text>,
) -> PendingExpenseRow<Text> {
    PendingExpenseRow {
        id: "pending_"@ + stamp.unique,
        currency: input.currency,
        amount_minor: hundredths,
        date: input.date,
        occurred_at: input.occurred_at,
        category: match input.category {
            Some(category) => category,
            None => "其他支出"@,
        },
        merchant: ledger::cleaned(input.merchant),
        note: ledger::cleaned(input.note),
        channel: ledger::cleaned(input.channel),
        status: PendingStatus::Pending,
        remind_on,
        transaction_id: None,
        confirmed_amount: None,
        confirmed_at: None,
        posted_date: None,
        created_at: stamp.now,
        updated_at: stamp.now,
    }
}

/// The error for an id that is taken.
pub open spec fn id_taken_error() -> ErrorView {
    error::damaged("待确认账单 ID 已存在"@)
}

/// What recording a foreign purchase does to a ledger and answers.
pub open spec fn pending_added(
    ledger: Ledger,
    input: NewPendingExpense<Text>,
    request_id: Option<Text>,
    stamp: Stamp<Text>,
) -> (Ledger, core::result::Result<PendingView, ErrorView>) {
    match checked_new(input, request_id) {
        Err(error) => (ledger, Err(error)),
        Ok((input, hundredths, remind_on)) => {
            let operation = Operation::PendingAdd { input };
            let row = new_row(input, hundredths, remind_on, stamp);
            match ledger::pending_replay(ledger, request_id, operation) {
                Err(error) => (ledger, Err(error)),
                Ok(Some(result)) => (ledger, Ok(result)),
                Ok(None) => match (
                    ledger::required_category(ledger, row.category, Kind::Expense),
                    ledger::pending_record(row),
                ) {
                    (Err(error), _) => (ledger, Err(error)),
                    (_, Err(error)) => (ledger, Err(error)),
                    (Ok(_), Ok(record)) => if pending_row(ledger, row.id) is Some {
                        (ledger, Err(id_taken_error()))
                    } else {
                        (
                            Ledger {
                                pending_expenses: ledger.pending_expenses.push(row),
                                pending_audit_log: ledger.pending_audit_log.push(
                                    entry("create"@, None, record, stamp.now),
                                ),
                                requests: ledger::with_request(
                                    ledger.requests,
                                    request_id,
                                    operation,
                                    Reply::Pending { result: done(record, None) },
                                    stamp.now,
                                ),
                                ..ledger
                            },
                            Ok(done(record, None)),
                        )
                    },
                },
            }
        },
    }
}

fn check_new(input: NewPendingExpense, request_id: Option<&str>) -> (result: Result<
    (NewPendingExpense, i64, String),
>)
    ensures
        error::outcome(result) == checked_new(input.deep_view(), request_id.deep_view()),
{
    let hundredths = match foreign::store_amount(input.currency.as_str(), input.amount.as_str()) {
        Err(error) => {
            return Err(error);
        },
        Ok(hundredths) => hundredths,
    };
    let time: Option<&str> = match &input.occurred_at {
        Some(time) => Some(time.as_str()),
        None => None,
    };
    let occurred_at = match occurrence::validate_occurrence(input.date.as_str(), time) {
        Err(error) => {
            return Err(error);
        },
        Ok(occurred_at) => occurred_at,
    };
    match store::validate_request_id(request_id) {
        Err(error) => {
            return Err(error);
        },
        Ok(_) => {},
    }
    let amount = match foreign::show_amount(input.currency.as_str(), hundredths as i128) {
        Err(error) => {
            return Err(error);
        },
        Ok(amount) => amount,
    };
    match calendar::later_date(input.date.as_str(), 3) {
        Err(error) => Err(error),
        Ok(remind_on) => {
            let mut checked = input;
            checked.amount = amount;
            checked.occurred_at = occurred_at;
            Ok((checked, hundredths, remind_on))
        },
    }
}

fn missing(id: &str) -> (error: AppError)
    ensures
        error.deep_view() == ledger::pending_not_found(id@),
{
    AppError::new("NOT_FOUND", text::joined("待确认账单不存在：", id).as_str())
}

impl Store {
    /// The place of the foreign purchase with an id.
    fn find_pending(&self, id: &str) -> (result: Option<usize>)
        ensures
            match result {
                Some(i) => text::position(
                    ledger::pending_ids(self.deep_view().pending_expenses),
                    id@,
                ) == Some(i as int) && i < self.pending_expenses.len(),
                None => text::position(
                    ledger::pending_ids(self.deep_view().pending_expenses),
                    id@,
                ) is None,
            },
    {
        let ghost all = ledger::pending_ids(self.deep_view().pending_expenses);
        let mut i: usize = 0;
        while i < self.pending_expenses.len()
            invariant
                all == ledger::pending_ids(self.deep_view().pending_expenses),
                i <= self.pending_expenses.len(),
                forall|j: int| 0 <= j < i ==> all[j] != id@,
            decreases self.pending_expenses.len() - i,
        {
            assert(all[i as int] == self.pending_expenses@[i as int].id@);
            if text::same(self.pending_expenses[i].id.as_str(), id) {
                proof {
                    text::lemma_position_is(all, id@, i as int);
                }
                return Some(i);
            }
            i += 1;
        }
        proof {
            text::lemma_position(all, id@);
        }
        None
    }

    /// The foreign purchase with an id, as it is reported.
    pub(crate) fn fetch_pending(&self, id: &str) -> (result: Result<PendingExpenseRecord>)
        ensures
            error::outcome(result) == fetched_pending(self.deep_view(), id@),
    {
        match self.find_pending(id) {
            None => Err(missing(id)),
            Some(i) => decode_pending(&self.pending_expenses[i]),
        }
    }

    /// The answer that a change of foreign purchases got before.
    fn replay_pending(&self, request_id: Option<&str>, operation: &Operation) -> (result: Result<
        Option<PendingWriteResult>,
    >)
        ensures
            error::outcome(result) == ledger::pending_replay(
                self.deep_view(),
                request_id.deep_view(),
                operation.deep_view(),
            ),
    {
        let id = match request_id {
            None => {
                return Ok(None);
            },
            Some(id) => id,
        };
        match self.find_request(id) {
            None => Ok(None),
            Some(i) => if self.requests[i].operation.same(operation) {
                match &self.requests[i].reply {
                    Reply::Pending { result } => {
                        let mut copy = result.copy();
                        copy.replayed = true;
                        Ok(Some(copy))
                    },
                    Reply::Write { .. } => Err(AppError::damaged("请求记录与操作不符")),
                    Reply::Unreadable { message } => Err(AppError::damaged(message.as_str())),
                }
            } else {
                Err(AppError::new("IDEMPOTENCY_CONFLICT", "此 request-id 已用于不同请求"))
            },
        }
    }

    /// Logs a change of a foreign purchase.
    fn pending_audit(
        &mut self,
        action: &str,
        before: Option<&PendingExpenseRecord>,
        after: &PendingExpenseRecord,
        now: &str,
    )
        ensures
            final(self).deep_view() == (Ledger {
                pending_audit_log: old(self).deep_view().pending_audit_log.push(
                    entry(action@, before.deep_view(), after.deep_view(), now@),
                ),
                ..old(self).deep_view()
            }),
    {
        self.pending_audit_log.push(
            PendingAuditEntry {
                pending_id: after.id.clone(),
                action: action.to_owned(),
                before: match before {
                    Some(before) => Some(before.copy()),
                    None => None,
                },
                after: after.copy(),
                created_at: now.to_owned(),
            },
        );
    }

    /// Records a foreign purchase, with the stamp given.
    pub fn add_pending_with(
        &mut self,
        input: NewPendingExpense,
        request_id: Option<&str>,
        stamp: &Stamp,
    ) -> (result: Result<PendingWriteResult>)
        ensures
            (final(self).deep_view(), error::outcome(result)) == pending_added(
                old(self).deep_view(),
                input.deep_view(),
                request_id.deep_view(),
                stamp.deep_view(),
            ),
            ledger::sound(old(self).deep_view()) ==> ledger::sound(final(self).deep_view()),
    {
        let ghost expected = pending_added(
            self.deep_view(),
            input.deep_view(),
            request_id.deep_view(),
            stamp.deep_view(),
        ).0;
        proof {
            if ledger::sound(self.deep_view()) {
                soundness::law_recording_purchases_keeps_soundness(
                    self.deep_view(),
                    input.deep_view(),
                    request_id.deep_view(),
                    stamp.deep_view(),
                );
            }
        }
        let (input, hundredths, remind_on) = match check_new(input, request_id) {
            Err(error) => {
                return Err(error);
            },
            Ok(checked) => checked,
        };
        let operation = Operation::PendingAdd { input: input.copy() };
        match self.replay_pending(request_id, &operation) {
            Err(error) => {
                return Err(error);
            },
            Ok(Some(result)) => {
                return Ok(result);
            },
            Ok(None) => {},
        }
        let row = PendingExpenseRow {
            id: text::joined("pending_", stamp.unique.as_str()),
            currency: input.currency,
            amount_minor: hundredths,
            date: input.date,
            occurred_at: input.occurred_at,
            category: match input.category {
                Some(category) => category,
                None => "其他支出".to_owned(),
            },
            merchant: store::clean_optional(input.merchant),
            note: store::clean_optional(input.note),
            channel: store::clean_optional(input.channel),
            status: PendingStatus::Pending,
            remind_on,
            transaction_id: None,
            confirmed_amount: None,
            confirmed_at: None,
            posted_date: None,
            created_at: stamp.now.clone(),
            updated_at: stamp.now.clone(),
        };
        match self.require_category(row.category.as_str(), Kind::Expense) {
            Err(error) => {
                return Err(error);
            },
            Ok(_) => {},
        }
        let pending = match decode_pending(&row) {
            Err(error) => {
                return Err(error);
            },
            Ok(pending) => pending,
        };
        if self.find_pending(row.id.as_str()).is_some() {
            return Err(AppError::damaged("待确认账单 ID 已存在"));
        }
        self.pending_expenses.push(row);
        self.pending_audit("create", None, &pending, stamp.now.as_str());
        let result = PendingWriteResult { pending, transaction: None, replayed: false };
        self.save_request(
            request_id,
            operation,
            Reply::Pending { result: result.copy() },
            stamp.now.as_str(),
        );
        assert(self.deep_view() =~= expected);
        Ok(result)
    }

    /// Records a foreign purchase, which is due for confirmation three days later.
    pub fn add_pending(&mut self, input: NewPendingExpense, request_id: Option<&str>) -> (result:
        Result<PendingWriteResult>)
        ensures
            exists|stamp: Stamp<Text>|
                stamp::is_stamp(stamp) && (final(self).deep_view(), error::outcome(result))
                    == #[trigger] pending_added(
                    old(self).deep_view(),
                    input.deep_view(),
                    request_id.deep_view(),
                    stamp,
                ),
            ledger::sound(old(self).deep_view()) ==> ledger::sound(final(self).deep_view()),
    {
        let stamp = stamp::stamp();
        self.add_pending_with(input, request_id, &stamp)
    }
}

/// What asking for a foreign purchase that awaits confirmation answers.
pub open spec fn required_pending(status: PendingStatus) -> core::result::Result<(), ErrorView> {
    match status {
        PendingStatus::Pending => Ok(()),
        PendingStatus::Confirmed => Err(
            ErrorView {
                code: "ALREADY_CONFIRMED"@,
                message: "此账单已确认，请操作关联的人民币支出"@,
            },
        ),
        PendingStatus::Cancelled => Err(
            ErrorView { code: "PENDING_CANCELLED"@, message: "此待确认账单已取消"@ },
        ),
    }
}

/// Accepts a foreign purchase that awaits confirmation.
fn require_pending(record: &PendingExpenseRecord) -> (result: Result<()>)
    ensures
        error::outcome(result) == required_pending(record.status),
{
    match record.status {
        PendingStatus::Pending => Ok(()),
        PendingStatus::Confirmed => Err(
            AppError::new("ALREADY_CONFIRMED", "此账单已确认，请操作关联的人民币支出"),
        ),
        PendingStatus::Cancelled => Err(AppError::new("PENDING_CANCELLED", "此待确认账单已取消")),
    }
}

/// The expense that settles a foreign purchase.
pub open spec fn linked_transaction(
    ledger: Ledger,
    transaction_id: Option<Text>,
) -> core::result::Result<Option<TransactionRecord<Text>>, ErrorView> {
    match transaction_id {
        None => Ok(None),
        Some(id) => match ledger::fetched(ledger, id) {
            Ok(transaction) => Ok(Some(transaction)),
            Err(error) => Err(error),
        },
    }
}

/// What checking a confirmation answers, as far as it can be told without the ledger.
pub open spec fn checked_confirmation(
    input: ConfirmPendingExpense<Text>,
    request_id: Option<Text>,
) -> core::result::Result<(), ErrorView> {
    match (store::checked_amount(input.amount), store::checked_request_id(request_id)) {
        (Err(error), _) => Err(error),
        (_, Err(error)) => Err(error),
        (Ok(_), Ok(_)) => match input.posted_date {
            Some(date) => if calendar::is_date(date) {
                Ok(())
            } else {
                Err(calendar::date_error())
            },
            None => Ok(()),
        },
    }
}

/// The row of the expense that settles a foreign purchase. It belongs to the day of the purchase.
pub open spec fn settling_row(
    before: PendingExpenseRecord<Text>,
    amount: Money,
    stamp: Stamp<Text>,
) -> TransactionRow<Text> {
    TransactionRow {
        id: "txn_"@ + stamp.unique,
        kind: Kind::Expense,
        amount,
        category: Some(before.category),
        date: before.date,
        occurred_at: before.occurred_at,
        note: before.note,
        channel: before.channel,
        original_id: None,
        voided: false,
        created_at: stamp.now,
        updated_at: stamp.now,
    }
}

/// The row of a foreign purchase once it is confirmed.
pub open spec fn confirmed_row(
    row: PendingExpenseRow<Text>,
    input: ConfirmPendingExpense<Text>,
    stamp: Stamp<Text>,
) -> PendingExpenseRow<Text> {
    PendingExpenseRow {
        status: PendingStatus::Confirmed,
        transaction_id: Some("txn_"@ + stamp.unique),
        confirmed_amount: Some(input.amount),
        confirmed_at: Some(stamp.now),
        posted_date: input.posted_date,
        updated_at: stamp.now,
        ..row
    }
}

/// What confirming a foreign purchase that is confirmed already does and answers: the same
/// confirmation is answered with the expense as it is now, any other is rejected.
pub open spec fn confirmed_again(
    ledger: Ledger,
    row: PendingExpenseRow<Text>,
    before: PendingExpenseRecord<Text>,
    input: ConfirmPendingExpense<Text>,
    request_id: Option<Text>,
    now: Text,
) -> (Ledger, core::result::Result<PendingView, ErrorView>) {
    if row.confirmed_amount != Some(input.amount) || row.posted_date != input.posted_date {
        (
            ledger,
            Err(
                ErrorView {
                    code: "ALREADY_CONFIRMED"@,
                    message: "此待确认账单已确认；请通过 edit 修改关联的人民币支出"@,
                },
            ),
        )
    } else {
        match linked_transaction(ledger, row.transaction_id) {
            Err(error) => (ledger, Err(error)),
            Ok(transaction) => {
                let result = PendingWriteResult { pending: before, transaction, replayed: true };
                (
                    Ledger {
                        requests: ledger::with_request(
                            ledger.requests,
                            request_id,
                            Operation::PendingConfirm { id: before.id, input },
                            Reply::Pending { result },
                            now,
                        ),
                        ..ledger
                    },
                    Ok(result),
                )
            },
        }
    }
}

/// What confirming a foreign purchase for the first time does and answers.
pub open spec fn confirmed_first(
    ledger: Ledger,
    row: PendingExpenseRow<Text>,
    before: PendingExpenseRecord<Text>,
    input: ConfirmPendingExpense<Text>,
    request_id: Option<Text>,
    stamp: Stamp<Text>,
) -> (Ledger, core::result::Result<PendingView, ErrorView>) {
    let settling = settling_row(before, input.amount, stamp);
    let transaction = ledger::report(settling, before.category);
    let changed = confirmed_row(row, input, stamp);
    match (
        required_pending(row.status),
        ledger::required_category(ledger, row.category, Kind::Expense),
        ledger::pending_record(changed),
    ) {
        (Err(error), _, _) => (ledger, Err(error)),
        (_, Err(error), _) => (ledger, Err(error)),
        (_, _, Err(error)) => (ledger, Err(error)),
        (Ok(_), Ok(_), Ok(after)) => if ledger::transaction(ledger, settling.id) is Some {
            (ledger, Err(store::id_taken_error()))
        } else {
            let place = text::position(
                ledger::pending_ids(ledger.pending_expenses),
                row.id,
            )->0;
            let result = done(after, Some(transaction));
            (
                Ledger {
                    transactions: ledger.transactions.push(settling),
                    audit_log: ledger.audit_log.push(
                        store::entry("create"@, None, transaction, stamp.now),
                    ),
                    pending_expenses: ledger.pending_expenses.update(place, changed),
                    pending_audit_log: ledger.pending_audit_log.push(
                        entry("confirm"@, Some(before), after, stamp.now),
                    ),
                    requests: ledger::with_request(
                        ledger.requests,
                        request_id,
                        Operation::PendingConfirm { id: row.id, input },
                        Reply::Pending { result },
                        stamp.now,
                    ),
                    ..ledger
                },
                Ok(result),
            )
        },
    }
}

/// What confirming a foreign purchase does to a ledger and answers.
pub open spec fn pending_confirmed(
    ledger: Ledger,
    id: Text,
    input: ConfirmPendingExpense<Text>,
    request_id: Option<Text>,
    stamp: Stamp<Text>,
) -> (Ledger, core::result::Result<PendingView, ErrorView>) {
    match checked_confirmation(input, request_id) {
        Err(error) => (ledger, Err(error)),
        Ok(_) => match ledger::pending_replay(
            ledger,
            request_id,
            Operation::PendingConfirm { id, input },
        ) {
            Err(error) => (ledger, Err(error)),
            Ok(Some(result)) => (ledger, Ok(result)),
            Ok(None) => match fetched_pending(ledger, id) {
                Err(error) => (ledger, Err(error)),
                Ok(before) => {
                    let row = pending_row(ledger, id)->0;
                    if input.posted_date is Some && text::before(input.posted_date->0, row.date) {
                        (ledger, Err(error::invalid_input("银行入账日期不能早于消费日期"@)))
                    } else if row.status == PendingStatus::Confirmed {
                        confirmed_again(ledger, row, before, input, request_id, stamp.now)
                    } else {
                        confirmed_first(ledger, row, before, input, request_id, stamp)
                    }
                },
            },
        },
    }
}

/// The row of a foreign purchase after it is put off to a day, or cancelled where there is none.
pub open spec fn changed_row(
    row: PendingExpenseRow<Text>,
    until: Option<Text>,
    now: Text,
) -> PendingExpenseRow<Text> {
    match until {
        Some(until) => PendingExpenseRow { remind_on: until, updated_at: now, ..row },
        None => PendingExpenseRow { status: PendingStatus::Cancelled, updated_at: now, ..row },
    }
}

/// What checking the new day of a foreign purchase answers.
pub open spec fn checked_until(row: PendingExpenseRow<Text>, until: Option<Text>) -> core::result::Result<
    (),
    ErrorView,
> {
    match until {
        Some(until) => if text::before(until, row.date) {
            Err(error::invalid_input("提醒日期不能早于消费日期"@))
        } else if text::before(until, row.remind_on) {
            Err(error::invalid_input("延后提醒不能早于当前提醒日期"@))
        } else {
            Ok(())
        },
        None => Ok(()),
    }
}

/// The operation that puts a foreign purchase off to a day, or cancels it.
pub open spec fn change_operation(id: Text, until: Option<Text>) -> Operation<Text> {
    match until {
        Some(until) => Operation::PendingSnooze { id, until },
        None => Operation::PendingCancel { id },
    }
}

/// What putting a foreign purchase off to a day, or cancelling it, does to a ledger and answers.
/// Cancelling one that is cancelled changes nothing.
pub open spec fn pending_changed(
    ledger: Ledger,
    id: Text,
    until: Option<Text>,
    request_id: Option<Text>,
    now: Text,
) -> (Ledger, core::result::Result<PendingView, ErrorView>) {
    let operation = change_operation(id, until);
    match store::checked_request_id(request_id) {
        Err(error) => (ledger, Err(error)),
        Ok(_) => match ledger::pending_replay(ledger, request_id, operation) {
            Err(error) => (ledger, Err(error)),
            Ok(Some(result)) => (ledger, Ok(result)),
            Ok(None) => match fetched_pending(ledger, id) {
                Err(error) => (ledger, Err(error)),
                Ok(before) => {
                    let row = pending_row(ledger, id)->0;
                    let changed = changed_row(row, until, now);
                    if row.status == PendingStatus::Cancelled && until is None {
                        let result = PendingWriteResult {
                            pending: before,
                            transaction: None,
                            replayed: true,
                        };
                        (
                            Ledger {
                                requests: ledger::with_request(
                                    ledger.requests,
                                    request_id,
                                    operation,
                                    Reply::Pending { result },
                                    now,
                                ),
                                ..ledger
                            },
                            Ok(result),
                        )
                    } else {
                        match (
                            required_pending(row.status),
                            checked_until(row, until),
                            ledger::pending_record(changed),
                        ) {
                            (Err(error), _, _) => (ledger, Err(error)),
                            (_, Err(error), _) => (ledger, Err(error)),
                            (_, _, Err(error)) => (ledger, Err(error)),
                            (Ok(_), Ok(_), Ok(after)) => (
                                Ledger {
                                    pending_expenses: ledger.pending_expenses.update(
                                        text::position(
                                            ledger::pending_ids(ledger.pending_expenses),
                                            id,
                                        )->0,
                                        changed,
                                    ),
                                    pending_audit_log: ledger.pending_audit_log.push(
                                        entry(
                                            if until is Some {
                                                "snooze"@
                                            } else {
                                                "cancel"@
                                            },
                                            Some(before),
                                            after,
                                            now,
                                        ),
                                    ),
                                    requests: ledger::with_request(
                                        ledger.requests,
                                        request_id,
                                        operation,
                                        Reply::Pending { result: done(after, None) },
                                        now,
                                    ),
                                    ..ledger
                                },
                                Ok(done(after, None)),
                            ),
                        }
                    }
                },
            },
        },
    }
}

/// What putting a foreign purchase off does to a ledger and answers.
pub open spec fn pending_snoozed(
    ledger: Ledger,
    id: Text,
    until: Text,
    request_id: Option<Text>,
    now: Text,
) -> (Ledger, core::result::Result<PendingView, ErrorView>) {
    if calendar::is_date(until) {
        pending_changed(ledger, id, Some(until), request_id, now)
    } else {
        (ledger, Err(calendar::date_error()))
    }
}

fn check_confirmation(input: &ConfirmPendingExpense, request_id: Option<&str>) -> (result: Result<
    (),
>)
    ensures
        error::outcome(result) == checked_confirmation(input.deep_view(), request_id.deep_view()),
{
    match store::validate_amount(input.amount) {
        Err(error) => {
            return Err(error);
        },
        Ok(_) => {},
    }
    match store::validate_request_id(request_id) {
        Err(error) => {
            return Err(error);
        },
        Ok(_) => {},
    }
    match &input.posted_date {
        Some(date) => calendar::validate_date(date.as_str()),
        None => Ok(()),
    }
}

impl Store {
    /// The expense that settles a foreign purchase.
    pub(crate) fn linked_transaction(&self, transaction_id: &Option<String>) -> (result: Result<
        Option<TransactionRecord>,
    >)
        ensures
            error::outcome(result) == linked_transaction(
                self.deep_view(),
                transaction_id.deep_view(),
            ),
    {
        match transaction_id {
            None => Ok(None),
            Some(id) => match self.fetch_record(id.as_str()) {
                Ok(transaction) => Ok(Some(transaction)),
                Err(error) => Err(error),
            },
        }
    }

    fn confirm_again(
        &mut self,
        row: &PendingExpenseRow,
        before: PendingExpenseRecord,
        input: ConfirmPendingExpense,
        request_id: Option<&str>,
        now: &str,
    ) -> (result: Result<PendingWriteResult>)
        ensures
            (final(self).deep_view(), error::outcome(result)) == confirmed_again(
                old(self).deep_view(),
                row.deep_view(),
                before.deep_view(),
                input.deep_view(),
                request_id.deep_view(),
                now@,
            ),
    {
        let same_amount = match row.confirmed_amount {
            Some(amount) => amount.minor() == input.amount.minor(),
            None => false,
        };
        if !same_amount || !text::same_option(&row.posted_date, &input.posted_date) {
            return Err(
                AppError::new(
                    "ALREADY_CONFIRMED",
                    "此待确认账单已确认；请通过 edit 修改关联的人民币支出",
                ),
            );
        }
        // The expense is answered as it is now, with later changes, and not as it was then.
        let transaction = match self.linked_transaction(&row.transaction_id) {
            Err(error) => {
                return Err(error);
            },
            Ok(transaction) => transaction,
        };
        let operation = Operation::PendingConfirm { id: before.id.clone(), input };
        let result = PendingWriteResult { pending: before, transaction, replayed: true };
        self.save_request(request_id, operation, Reply::Pending { result: result.copy() }, now);
        Ok(result)
    }

    fn confirm_first(
        &mut self,
        place: usize,
        row: PendingExpenseRow,
        before: PendingExpenseRecord,
        input: ConfirmPendingExpense,
        request_id: Option<&str>,
        stamp: &Stamp,
    ) -> (result: Result<PendingWriteResult>)
        requires
            place < old(self).pending_expenses.len(),
            text::position(
                ledger::pending_ids(old(self).deep_view().pending_expenses),
                row.deep_view().id,
            ) == Some(place as int),
            ledger::pending_record(row.deep_view()) == Ok::<PendingExpenseRecord<Text>, ErrorView>(
                before.deep_view(),
            ),
        ensures
            (final(self).deep_view(), error::outcome(result)) == confirmed_first(
                old(self).deep_view(),
                row.deep_view(),
                before.deep_view(),
                input.deep_view(),
                request_id.deep_view(),
                stamp.deep_view(),
            ),
    {
        match require_pending(&before) {
            Err(error) => {
                return Err(error);
            },
            Ok(_) => {},
        }
        match self.require_category(row.category.as_str(), Kind::Expense) {
            Err(error) => {
                return Err(error);
            },
            Ok(_) => {},
        }
        let now = stamp.now.as_str();
        let operation = Operation::PendingConfirm { id: row.id.clone(), input: input.copy() };
        let settling = TransactionRow {
            id: text::joined("txn_", stamp.unique.as_str()),
            kind: Kind::Expense,
            amount: input.amount,
            category: Some(before.category.clone()),
            date: before.date.clone(),
            occurred_at: text::copied(&before.occurred_at),
            note: text::copied(&before.note),
            channel: text::copied(&before.channel),
            original_id: None,
            voided: false,
            created_at: now.to_owned(),
            updated_at: now.to_owned(),
        };
        let transaction = store::reported(&settling, before.category.clone());
        let mut changed = row;
        changed.status = PendingStatus::Confirmed;
        changed.transaction_id = Some(settling.id.clone());
        changed.confirmed_amount = Some(input.amount);
        changed.confirmed_at = Some(now.to_owned());
        changed.posted_date = input.posted_date;
        changed.updated_at = now.to_owned();
        let after = match decode_pending(&changed) {
            Err(error) => {
                return Err(error);
            },
            Ok(after) => after,
        };
        if self.find_transaction(settling.id.as_str()).is_some() {
            return Err(AppError::damaged("账单 ID 已存在"));
        }
        self.transactions.push(settling);
        self.audit("create", None, &transaction, now);
        let ghost rows = self.pending_expenses.deep_view();
        self.pending_expenses.set(place, changed);
        assert(self.pending_expenses.deep_view() =~= rows.update(
            place as int,
            changed.deep_view(),
        ));
        self.pending_audit("confirm", Some(&before), &after, now);
        let result = PendingWriteResult {
            pending: after,
            transaction: Some(transaction),
            replayed: false,
        };
        self.save_request(request_id, operation, Reply::Pending { result: result.copy() }, now);
        Ok(result)
    }

    /// Settles a foreign purchase, with the stamp given.
    pub fn confirm_pending_with(
        &mut self,
        id: &str,
        input: ConfirmPendingExpense,
        request_id: Option<&str>,
        stamp: &Stamp,
    ) -> (result: Result<PendingWriteResult>)
        ensures
            (final(self).deep_view(), error::outcome(result)) == pending_confirmed(
                old(self).deep_view(),
                id@,
                input.deep_view(),
                request_id.deep_view(),
                stamp.deep_view(),
            ),
            ledger::sound(old(self).deep_view()) ==> ledger::sound(final(self).deep_view()),
    {
        proof {
            if ledger::sound(self.deep_view()) {
                soundness::law_confirming_keeps_soundness(
                    self.deep_view(),
                    id@,
                    input.deep_view(),
                    request_id.deep_view(),
                    stamp.deep_view(),
                );
            }
        }
        match check_confirmation(&input, request_id) {
            Err(error) => {
                return Err(error);
            },
            Ok(_) => {},
        }
        let operation = Operation::PendingConfirm { id: id.to_owned(), input: input.copy() };
        match self.replay_pending(request_id, &operation) {
            Err(error) => {
                return Err(error);
            },
            Ok(Some(result)) => {
                return Ok(result);
            },
            Ok(None) => {},
        }
        let place = match self.find_pending(id) {
            None => {
                return Err(missing(id));
            },
            Some(place) => place,
        };
        let before = match decode_pending(&self.pending_expenses[place]) {
            Err(error) => {
                return Err(error);
            },
            Ok(before) => before,
        };
        proof {
            text::lemma_position(ledger::pending_ids(self.deep_view().pending_expenses), id@);
        }
        let row = self.pending_expenses[place].copy();
        assert(row.deep_view().id == id@);
        let early = match &input.posted_date {
            Some(date) => text::is_before(date.as_str(), row.date.as_str()),
            None => false,
        };
        if early {
            return Err(AppError::invalid("银行入账日期不能早于消费日期"));
        }
        if row.status == PendingStatus::Confirmed {
            self.confirm_again(&row, before, input, request_id, stamp.now.as_str())
        } else {
            self.confirm_first(place, row, before, input, request_id, stamp)
        }
    }

    /// Settles a foreign purchase by an expense of the exact amount in CNY, once.
    pub fn confirm_pending(
        &mut self,
        id: &str,
        input: ConfirmPendingExpense,
        request_id: Option<&str>,
    ) -> (result: Result<PendingWriteResult>)
        ensures
            exists|stamp: Stamp<Text>|
                stamp::is_stamp(stamp) && (final(self).deep_view(), error::outcome(result))
                    == #[trigger] pending_confirmed(
                    old(self).deep_view(),
                    id@,
                    input.deep_view(),
                    request_id.deep_view(),
                    stamp,
                ),
            ledger::sound(old(self).deep_view()) ==> ledger::sound(final(self).deep_view()),
    {
        let stamp = stamp::stamp();
        self.confirm_pending_with(id, input, request_id, &stamp)
    }

    /// Puts a foreign purchase off to a day, or cancels it where there is none.
    fn change_pending(
        &mut self,
        id: &str,
        until: Option<&str>,
        request_id: Option<&str>,
        now: &str,
    ) -> (result: Result<PendingWriteResult>)
        ensures
            (final(self).deep_view(), error::outcome(result)) == pending_changed(
                old(self).deep_view(),
                id@,
                until.deep_view(),
                request_id.deep_view(),
                now@,
            ),
    {
        match store::validate_request_id(request_id) {
            Err(error) => {
                return Err(error);
            },
            Ok(_) => {},
        }
        let operation = match until {
            Some(until) => Operation::PendingSnooze { id: id.to_owned(), until: until.to_owned() },
            None => Operation::PendingCancel { id: id.to_owned() },
        };
        match self.replay_pending(request_id, &operation) {
            Err(error) => {
                return Err(error);
            },
            Ok(Some(result)) => {
                return Ok(result);
            },
            Ok(None) => {},
        }
        let place = match self.find_pending(id) {
            None => {
                return Err(missing(id));
            },
            Some(place) => place,
        };
        let before = match decode_pending(&self.pending_expenses[place]) {
            Err(error) => {
                return Err(error);
            },
            Ok(before) => before,
        };
        let mut row = self.pending_expenses[place].copy();
        if row.status == PendingStatus::Cancelled && until.is_none() {
            let result = PendingWriteResult { pending: before, transaction: None, replayed: true };
            self.save_request(request_id, operation, Reply::Pending { result: result.copy() }, now);
            return Ok(result);
        }
        match require_pending(&before) {
            Err(error) => {
                return Err(error);
            },
            Ok(_) => {},
        }
        let action = match until {
            Some(until) => {
                if text::is_before(until, row.date.as_str()) {
                    return Err(AppError::invalid("提醒日期不能早于消费日期"));
                }
                if text::is_before(until, row.remind_on.as_str()) {
                    return Err(AppError::invalid("延后提醒不能早于当前提醒日期"));
                }
                row.remind_on = until.to_owned();
                "snooze"
            },
            None => {
                row.status = PendingStatus::Cancelled;
                "cancel"
            },
        };
        row.updated_at = now.to_owned();
        let after = match decode_pending(&row) {
            Err(error) => {
                return Err(error);
            },
            Ok(after) => after,
        };
        let ghost rows = self.pending_expenses.deep_view();
        self.pending_expenses.set(place, row);
        assert(self.pending_expenses.deep_view() =~= rows.update(place as int, row.deep_view()));
        self.pending_audit(action, Some(&before), &after, now);
        let result = PendingWriteResult { pending: after, transaction: None, replayed: false };
        self.save_request(request_id, operation, Reply::Pending { result: result.copy() }, now);
        Ok(result)
    }

    /// Cancels a foreign purchase, at the time given.
    pub fn cancel_pending_with(&mut self, id: &str, request_id: Option<&str>, now: &str) -> (result:
        Result<PendingWriteResult>)
        ensures
            (final(self).deep_view(), error::outcome(result)) == pending_changed(
                old(self).deep_view(),
                id@,
                None,
                request_id.deep_view(),
                now@,
            ),
            ledger::sound(old(self).deep_view()) ==> ledger::sound(final(self).deep_view()),
    {
        proof {
            if ledger::sound(self.deep_view()) {
                soundness::law_changing_purchases_keeps_soundness(
                    self.deep_view(),
                    id@,
                    None,
                    request_id.deep_view(),
                    now@,
                );
            }
        }
        self.change_pending(id, None, request_id, now)
    }

    /// Cancels a foreign purchase that was never charged.
    pub fn cancel_pending(&mut self, id: &str, request_id: Option<&str>) -> (result: Result<
        PendingWriteResult,
    >)
        ensures
            exists|now: Text|
                stamp::is_instant(now) && (final(self).deep_view(), error::outcome(result))
                    == #[trigger] pending_changed(
                    old(self).deep_view(),
                    id@,
                    None,
                    request_id.deep_view(),
                    now,
                ),
            ledger::sound(old(self).deep_view()) ==> ledger::sound(final(self).deep_view()),
    {
        let stamp = stamp::stamp();
        self.cancel_pending_with(id, request_id, stamp.now.as_str())
    }

    /// Puts a foreign purchase off to a day, at the time given.
    pub fn snooze_pending_with(
        &mut self,
        id: &str,
        until: &str,
        request_id: Option<&str>,
        now: &str,
    ) -> (result: Result<PendingWriteResult>)
        ensures
            (final(self).deep_view(), error::outcome(result)) == pending_snoozed(
                old(self).deep_view(),
                id@,
                until@,
                request_id.deep_view(),
                now@,
            ),
            ledger::sound(old(self).deep_view()) ==> ledger::sound(final(self).deep_view()),
    {
        match calendar::validate_date(until) {
            Err(error) => {
                return Err(error);
            },
            Ok(_) => {},
        }
        proof {
            if ledger::sound(self.deep_view()) {
                soundness::law_changing_purchases_keeps_soundness(
                    self.deep_view(),
                    id@,
                    Some(until@),
                    request_id.deep_view(),
                    now@,
                );
            }
        }
        self.change_pending(id, Some(until), request_id, now)
    }

    /// Puts a foreign purchase off to a day, never to an earlier one than it is due on.
    pub fn snooze_pending(&mut self, id: &str, until: &str, request_id: Option<&str>) -> (result:
        Result<PendingWriteResult>)
        ensures
            exists|now: Text|
                stamp::is_instant(now) && (final(self).deep_view(), error::outcome(result))
                    == #[trigger] pending_snoozed(
                    old(self).deep_view(),
                    id@,
                    until@,
                    request_id.deep_view(),
                    now,
                ),
            ledger::sound(old(self).deep_view()) ==> ledger::sound(final(self).deep_view()),
    {
        let stamp = stamp::stamp();
        self.snooze_pending_with(id, until, request_id, stamp.now.as_str())
    }
}

} // verus!
