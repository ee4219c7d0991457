//! What commands are accepted, what a refusal says, and what repeating a command does.
use vstd::prelude::*;

use crate::calendar;
use crate::command;
use crate::command::{Command, EntryArgs, FilterArgs, PendingCommand};
use crate::entry_laws;
use crate::error::{ErrorView, Result};
use crate::laws;
use crate::ledger;
use crate::ledger::{Ledger, Operation, Stamp};
use crate::list_laws;
use crate::models;
use crate::models::{
    ConfirmPendingExpense, Filters, Kind, NewPendingExpense, NewTransaction, PendingStatus,
    TransactionRow, UpdateTransaction,
};
use crate::money;
use crate::money::Money;
use crate::occurrence;
use crate::order;
use crate::pending;
use crate::purchase_laws;
use crate::query;
use crate::query::ByTime;
use crate::report::Output;
use crate::soundness;
use crate::store;
use crate::text;
use crate::text::Text;
use crate::value_laws;

verus! {

/// A command that records an income or an expense is accepted exactly where its amount is positive,
/// its date is one of the calendar and agrees with its time, and its category exists and is of its
/// kind. A refund is not recorded so.
pub proof fn law_add_commands_are_accepted(
    before: Ledger,
    kind: Kind,
    category: Option<String>,
    entry: EntryArgs,
    today: Text,
    stamp: Stamp<Text>,
    after: Ledger,
    result: Result<Output>,
)
    requires
        ledger::sound(before),
        command::executed(
            before,
            Command::Add { kind, category, entry },
            today,
            stamp,
            after,
            result,
        ),
        entry_laws::is_new_request(before, entry.request_id.deep_view()),
        entry_laws::is_free(before, "txn_"@ + stamp.unique),
    ensures
        result is Ok <==> {
            &&& kind != Kind::Refund
            &&& entry.amount.0 > 0
            &&& entry_laws::agree(
                entry_laws::day_of_entry(entry.date, entry.occurred_at, today),
                entry.occurred_at.deep_view(),
            )
            &&& entry_laws::has_category(
                before,
                if category is Some {
                    category->0@
                } else if kind == Kind::Expense {
                    "其他支出"@
                } else {
                    "其他收入"@
                },
                kind,
            )
        },
        result is Ok ==> result->Ok_0 is Write && !result->Ok_0->Write_result.replayed,
        result is Err ==> after == before && result->Err_0.deep_view().code == "INVALID_INPUT"@,
{
    let input = NewTransaction {
        kind,
        amount: entry.amount,
        date: entry_laws::day_of_entry(entry.date, entry.occurred_at, today),
        occurred_at: entry.occurred_at.deep_view(),
        category: category.deep_view(),
        note: entry.note.deep_view(),
        channel: entry.channel.deep_view(),
        original_id: None,
    };
    let request_id = entry.request_id.deep_view();
    if kind == Kind::Refund {
        entry_laws::law_refunds_are_accepted(before, input, request_id, stamp);
    } else {
        entry_laws::law_entries_are_accepted(before, input, request_id, stamp);
    }
}

/// A command that records a refund is accepted exactly where its amount is positive, its date is one
/// of the calendar and agrees with its time, and it names an expense in force: of any amount.
pub proof fn law_refund_commands_are_accepted(
    before: Ledger,
    id: String,
    entry: EntryArgs,
    today: Text,
    stamp: Stamp<Text>,
    after: Ledger,
    result: Result<Output>,
)
    requires
        ledger::sound(before),
        command::executed(before, Command::Refund { id, entry }, today, stamp, after, result),
        entry_laws::is_new_request(before, entry.request_id.deep_view()),
        entry_laws::is_free(before, "txn_"@ + stamp.unique),
    ensures
        result is Ok <==> {
            &&& entry.amount.0 > 0
            &&& entry_laws::agree(
                entry_laws::day_of_entry(entry.date, entry.occurred_at, today),
                entry.occurred_at.deep_view(),
            )
            &&& id@.len() > 0
            &&& exists|category: Text| entry_laws::has_expense(before, id@, category)
        },
        result is Ok ==> result->Ok_0 is Write && !result->Ok_0->Write_result.replayed,
        result is Err ==> after == before && (result->Err_0.deep_view().code == "INVALID_INPUT"@
            || result->Err_0.deep_view().code == "NOT_FOUND"@ && entry_laws::is_free(before, id@)),
{
    let input = NewTransaction {
        kind: Kind::Refund,
        amount: entry.amount,
        date: entry_laws::day_of_entry(entry.date, entry.occurred_at, today),
        occurred_at: entry.occurred_at.deep_view(),
        category: None,
        note: entry.note.deep_view(),
        channel: entry.channel.deep_view(),
        original_id: Some(id@),
    };
    entry_laws::law_refunds_are_accepted(before, input, entry.request_id.deep_view(), stamp);
}

/// A record is accepted exactly where the command with the same contents is.
pub proof fn law_record_commands_are_accepted(
    before: Ledger,
    input: NewTransaction,
    request_id: Option<String>,
    today: Text,
    stamp: Stamp<Text>,
    after: Ledger,
    result: Result<Output>,
)
    requires
        ledger::sound(before),
        command::executed(
            before,
            Command::Record { input, request_id },
            today,
            stamp,
            after,
            result,
        ),
        entry_laws::is_new_request(before, request_id.deep_view()),
        entry_laws::is_free(before, "txn_"@ + stamp.unique),
    ensures
        result is Ok <==> {
            &&& input.amount.0 > 0
            &&& entry_laws::agree(input.date@, input.occurred_at.deep_view())
            &&& input.kind == Kind::Refund ==> {
                &&& input.category is None
                &&& input.original_id is Some
                &&& input.original_id->0@.len() > 0
                &&& exists|category: Text|
                    entry_laws::has_expense(before, input.original_id->0@, category)
            }
            &&& input.kind != Kind::Refund ==> {
                &&& input.original_id is None
                &&& entry_laws::has_category(
                    before,
                    if input.category is Some {
                        input.category->0@
                    } else if input.kind == Kind::Expense {
                        "其他支出"@
                    } else {
                        "其他收入"@
                    },
                    input.kind,
                )
            }
        },
        result is Err ==> after == before,
{
    let given = input.deep_view();
    if input.kind == Kind::Refund {
        entry_laws::law_refunds_are_accepted(before, given, request_id.deep_view(), stamp);
    } else {
        entry_laws::law_entries_are_accepted(before, given, request_id.deep_view(), stamp);
    }
}

/// A command that edits a transaction is accepted exactly where the transaction is in force, the
/// patch names something, each value that it names is valid, and the date and the time that result
/// agree. One that is voided is refused as such.
pub proof fn law_edit_commands_are_accepted(
    before: Ledger,
    i: int,
    id: String,
    patch: UpdateTransaction,
    request_id: Option<String>,
    today: Text,
    stamp: Stamp<Text>,
    after: Ledger,
    result: Result<Output>,
)
    requires
        ledger::sound(before),
        command::executed(
            before,
            Command::Edit { id, patch, request_id },
            today,
            stamp,
            after,
            result,
        ),
        entry_laws::is_new_request(before, request_id.deep_view()),
        0 <= i < before.transactions.len(),
        before.transactions[i].id == id@,
    ensures
        ({
            let row = before.transactions[i];
            let names_something = patch.amount is Some || patch.date is Some || patch.occurred_at
                is Some || patch.clear_occurred_at || patch.category is Some || patch.note is Some
                || patch.channel is Some;
            let values_are_valid = {
                &&& patch.amount is Some ==> ledger::is_positive(patch.amount->0)
                &&& patch.date is Some ==> entry_laws::agree(
                    patch.date->0@,
                    patch.occurred_at.deep_view(),
                )
                &&& patch.occurred_at is Some ==> occurrence::normalized(patch.occurred_at->0@)
                    is Ok && !patch.clear_occurred_at
            };
            &&& result is Ok <==> {
                &&& !row.voided
                &&& names_something
                &&& values_are_valid
                &&& patch.category is Some ==> row.kind != Kind::Refund && entry_laws::has_category(
                    before,
                    patch.category->0@,
                    row.kind,
                )
                &&& patch.date is Some && patch.occurred_at is None && !patch.clear_occurred_at
                    && row.occurred_at is Some ==> patch.date->0@ == row.date
            }
            &&& result is Ok ==> result->Ok_0 is Write && !result->Ok_0->Write_result.replayed
            &&& result is Err ==> after == before
            &&& result is Err && !row.voided ==> result->Err_0.deep_view().code
                == "INVALID_INPUT"@
            &&& row.voided && names_something && values_are_valid ==> result is Err
                && result->Err_0.deep_view().code == "VOIDED_TRANSACTION"@
        }),
{
    let row = before.transactions[i];
    let given = patch.deep_view();
    entry_laws::law_edits_are_accepted(before, i, given, request_id.deep_view(), stamp.now);
    entry_laws::lemma_new_request(before, request_id.deep_view());
    entry_laws::lemma_found(before, id@);
    entry_laws::lemma_fetched(before, id@);
    if patch.date is Some {
        entry_laws::lemma_agree(patch.date->0@, patch.occurred_at.deep_view());
    }
}

/// A command that records a purchase is accepted exactly where its currency is supported, its amount
/// is one of that currency, is positive and can be kept, its date is one of the calendar, has a day
/// three days later and agrees with its time, and its category exists and is one of expenses.
pub proof fn law_purchase_commands_are_accepted(
    before: Ledger,
    currency: String,
    amount: String,
    date: Option<String>,
    occurred_at: Option<String>,
    category: Option<String>,
    merchant: Option<String>,
    note: Option<String>,
    channel: Option<String>,
    request_id: Option<String>,
    today: Text,
    stamp: Stamp<Text>,
    after: Ledger,
    result: Result<Output>,
)
    requires
        ledger::sound(before),
        command::executed(
            before,
            Command::Pending {
                command: PendingCommand::Add {
                    currency,
                    amount,
                    date,
                    occurred_at,
                    category,
                    merchant,
                    note,
                    channel,
                    request_id,
                },
            },
            today,
            stamp,
            after,
            result,
        ),
        entry_laws::is_new_request(before, request_id.deep_view()),
        purchase_laws::is_free(before, "pending_"@ + stamp.unique),
    ensures
        result is Ok <==> {
            let day = entry_laws::day_of_entry(date, occurred_at, today);
            &&& purchase_laws::is_foreign(currency@)
            &&& exists|whole: Text, fraction: Text| #[trigger]
                value_laws::reads_as(amount@, whole, fraction) && (purchase_laws::is_whole(
                    currency@,
                ) ==> fraction.len() == 0) && 0 < value_laws::hundredths(whole, fraction)
                    <= i64::MAX
            &&& entry_laws::agree(day, occurred_at.deep_view())
            &&& value_laws::day_number(calendar::named_day(day)) + 3 <= value_laws::day_number(
                (9999, 12, 31),
            )
            &&& entry_laws::has_category(
                before,
                if category is Some {
                    category->0@
                } else {
                    "其他支出"@
                },
                Kind::Expense,
            )
        },
        result is Ok ==> result->Ok_0 is PendingWrite && !result->Ok_0->PendingWrite_result.replayed,
        result is Err ==> after == before && result->Err_0.deep_view().code == "INVALID_INPUT"@,
{
    let input = NewPendingExpense {
        currency: currency@,
        amount: amount@,
        date: entry_laws::day_of_entry(date, occurred_at, today),
        occurred_at: occurred_at.deep_view(),
        category: category.deep_view(),
        merchant: merchant.deep_view(),
        note: note.deep_view(),
        channel: channel.deep_view(),
    };
    purchase_laws::law_purchases_are_accepted(before, input, request_id.deep_view(), stamp);
}

/// A record of a purchase is accepted exactly where the command with the same contents is.
pub proof fn law_purchase_records_are_accepted(
    before: Ledger,
    input: NewPendingExpense,
    request_id: Option<String>,
    today: Text,
    stamp: Stamp<Text>,
    after: Ledger,
    result: Result<Output>,
)
    requires
        ledger::sound(before),
        command::executed(
            before,
            Command::Pending { command: PendingCommand::Record { input, request_id } },
            today,
            stamp,
            after,
            result,
        ),
        entry_laws::is_new_request(before, request_id.deep_view()),
        purchase_laws::is_free(before, "pending_"@ + stamp.unique),
    ensures
        result is Ok <==> {
            &&& purchase_laws::is_foreign(input.currency@)
            &&& exists|whole: Text, fraction: Text| #[trigger]
                value_laws::reads_as(input.amount@, whole, fraction) && (purchase_laws::is_whole(
                    input.currency@,
                ) ==> fraction.len() == 0) && 0 < value_laws::hundredths(whole, fraction)
                    <= i64::MAX
            &&& entry_laws::agree(input.date@, input.occurred_at.deep_view())
            &&& value_laws::day_number(calendar::named_day(input.date@)) + 3
                <= value_laws::day_number((9999, 12, 31))
            &&& entry_laws::has_category(
                before,
                if input.category is Some {
                    input.category->0@
                } else {
                    "其他支出"@
                },
                Kind::Expense,
            )
        },
        result is Err ==> after == before && result->Err_0.deep_view().code == "INVALID_INPUT"@,
{
    purchase_laws::law_purchases_are_accepted(
        before,
        input.deep_view(),
        request_id.deep_view(),
        stamp,
    );
}

/// A request id that is blank or has more than 200 bytes is refused, whatever the change.
pub proof fn law_request_ids_are_checked(
    before: Ledger,
    operation: Operation<Text>,
    request_id: Text,
    stamp: Stamp<Text>,
)
    requires
        vstd::utf8::encode_utf8(request_id).len() > 200 || forall|i: int|
            0 <= i < request_id.len() ==> text::is_white_space(#[trigger] request_id[i]),
    ensures
        laws::carried_out(before, operation, Some(request_id), stamp).1 is Err,
        laws::carried_out(before, operation, Some(request_id), stamp).0 == before,
{
}

/// What has an id that nothing has is not found, in every command that names one.
pub proof fn law_missing_transactions_are_not_found(
    before: Ledger,
    id: String,
    command: Command,
    today: Text,
    stamp: Stamp<Text>,
    after: Ledger,
    result: Result<Output>,
)
    requires
        ledger::sound(before),
        entry_laws::is_free(before, id@),
        command::executed(before, command, today, stamp, after, result),
        ({
            ||| command == (Command::Show { id })
            ||| command == (Command::History { id })
            ||| command == (Command::Void { id, cascade_refunds: false, request_id: None })
            ||| command == (Command::Void { id, cascade_refunds: true, request_id: None })
        }),
    ensures
        after == before,
        result is Err,
        result->Err_0.deep_view().code == "NOT_FOUND"@,
{
    entry_laws::lemma_found(before, id@);
    if command == (Command::Show { id }) {
        assert(query::detailed(before, id@) is Err);
    }
}

/// What has an id that no purchase has is not found, in every command that names one.
pub proof fn law_missing_purchases_are_not_found(
    before: Ledger,
    id: String,
    until: String,
    amount: Money,
    command: PendingCommand,
    today: Text,
    stamp: Stamp<Text>,
    after: Ledger,
    result: Result<Output>,
)
    requires
        ledger::sound(before),
        purchase_laws::is_free(before, id@),
        command::executed(before, Command::Pending { command }, today, stamp, after, result),
        ({
            ||| command == (PendingCommand::Show { id })
            ||| command == (PendingCommand::History { id })
            ||| command == (PendingCommand::Cancel { id, request_id: None })
            ||| calendar::is_date(until@) && command == (PendingCommand::Snooze {
                id,
                until,
                request_id: None,
            })
            ||| amount.0 > 0 && command == (PendingCommand::Confirm {
                id,
                amount,
                posted_date: None,
                request_id: None,
            })
        }),
    ensures
        after == before,
        result is Err,
        result->Err_0.deep_view().code == "NOT_FOUND"@,
{
    purchase_laws::lemma_found(before, id@);
}

/// A purchase that is confirmed cannot be cancelled or put off, and one that is cancelled can be
/// neither confirmed nor put off; the refusal says which it is.
pub proof fn law_settled_purchases_stay_settled(
    before: Ledger,
    i: int,
    input: ConfirmPendingExpense<Text>,
    until: Text,
    request_id: Option<Text>,
    stamp: Stamp<Text>,
)
    requires
        ledger::sound(before),
        0 <= i < before.pending_expenses.len(),
        entry_laws::is_new_request(before, request_id),
        input.amount.0 > 0,
        input.posted_date is Some ==> calendar::is_date(input.posted_date->0)
            && !list_laws::is_earlier(input.posted_date->0, before.pending_expenses[i].date),
        calendar::is_date(until),
    ensures
        ({
            let was = before.pending_expenses[i];
            let confirmed = pending::pending_confirmed(before, was.id, input, request_id, stamp).1;
            let cancelled = pending::pending_changed(
                before,
                was.id,
                None,
                request_id,
                stamp.now,
            ).1;
            let snoozed = pending::pending_snoozed(
                before,
                was.id,
                until,
                request_id,
                stamp.now,
            ).1;
            &&& was.status == PendingStatus::Confirmed ==> {
                &&& cancelled is Err && cancelled->Err_0.code == "ALREADY_CONFIRMED"@
                &&& snoozed is Err && snoozed->Err_0.code == "ALREADY_CONFIRMED"@
                &&& was.confirmed_amount != Some(input.amount) || was.posted_date
                    != input.posted_date ==> confirmed is Err && confirmed->Err_0.code
                    == "ALREADY_CONFIRMED"@
            }
            &&& was.status == PendingStatus::Cancelled ==> {
                &&& confirmed is Err && confirmed->Err_0.code == "PENDING_CANCELLED"@
                &&& snoozed is Err && snoozed->Err_0.code == "PENDING_CANCELLED"@
            }
        }),
{
    let was = before.pending_expenses[i];
    purchase_laws::lemma_found(before, was.id);
    entry_laws::lemma_new_request(before, request_id);
    if let Some(date) = input.posted_date {
        assert(ledger::pending_is_sound(before, was));
        list_laws::law_dates_are_compared_as_days(date, was.date);
    }
}

/// A voided transaction is not voided again, and an expense with refunds in force is only voided
/// together with them; the refusal says which it is.
pub proof fn law_voidings_are_refused(
    before: Ledger,
    i: int,
    j: int,
    cascade_refunds: bool,
    request_id: Option<Text>,
    now: Text,
)
    requires
        ledger::sound(before),
        0 <= i < before.transactions.len(),
        0 <= j < before.transactions.len(),
        entry_laws::is_new_request(before, request_id),
    ensures
        ({
            let row = before.transactions[i];
            let refund = before.transactions[j];
            let (after, outcome) = store::voided(before, row.id, cascade_refunds, request_id, now);
            &&& row.voided ==> outcome is Err && outcome->Err_0.code == "VOIDED_TRANSACTION"@
                && after == before
            &&& !row.voided && refund.original_id == Some(row.id) && !refund.voided
                && !cascade_refunds ==> outcome is Err && outcome->Err_0.code == "HAS_REFUNDS"@
                && after == before
        }),
{
    let row = before.transactions[i];
    entry_laws::lemma_found(before, row.id);
    entry_laws::lemma_fetched(before, row.id);
    entry_laws::lemma_new_request(before, request_id);
    let refund = before.transactions[j];
    if refund.original_id == Some(row.id) && !refund.voided {
        let chosen = before.transactions.filter(store::active_refund_of(row.id));
        before.transactions.lemma_filter_contains(store::active_refund_of(row.id), j);
        assert(store::active_refunds(before.transactions, row.id).len() > 0) by {
            order::law_sorting_orders_all_records::<TransactionRow, ByTime>(chosen);
        }
    }
}

/// A new ledger holds nothing but categories, and these let an income and an expense be recorded
/// that name none.
pub proof fn law_new_ledgers_take_entries(
    input: NewTransaction<Text>,
    stamp: Stamp<Text>,
)
    requires
        input.kind != Kind::Refund,
        input.category is None,
        input.original_id is None,
        input.amount.0 > 0,
        entry_laws::agree(input.date, input.occurred_at),
    ensures
        store::new_ledger().transactions.len() == 0,
        store::new_ledger().pending_expenses.len() == 0,
        store::new_ledger().requests.len() == 0,
        store::new_ledger().audit_log.len() == 0,
        store::new_ledger().pending_audit_log.len() == 0,
        store::added(store::new_ledger(), input, None, stamp).1 is Ok,
{
    let ledger = store::new_ledger();
    store::law_new_ledgers_are_sound();
    assert(ledger.categories[6].name == "其他支出"@ && ledger.categories[6].kind == Kind::Expense);
    assert(ledger.categories[9].name == "其他收入"@ && ledger.categories[9].kind == Kind::Income);
    entry_laws::law_entries_are_accepted(ledger, input, None, stamp);
}

/// The request id that a command gives.
pub open spec fn request_of(command: Command) -> Option<Text> {
    match command {
        Command::Add { entry, .. } => entry.request_id.deep_view(),
        Command::Refund { entry, .. } => entry.request_id.deep_view(),
        Command::Record { request_id, .. } => request_id.deep_view(),
        Command::Edit { request_id, .. } => request_id.deep_view(),
        Command::Void { request_id, .. } => request_id.deep_view(),
        Command::Pending { command } => match command {
            PendingCommand::Add { request_id, .. } => request_id.deep_view(),
            PendingCommand::Record { request_id, .. } => request_id.deep_view(),
            PendingCommand::Confirm { request_id, .. } => request_id.deep_view(),
            PendingCommand::Cancel { request_id, .. } => request_id.deep_view(),
            PendingCommand::Snooze { request_id, .. } => request_id.deep_view(),
            _ => None,
        },
        _ => None,
    }
}

/// Whether an answer is another one given again: the same in all but that it says so.
pub open spec fn is_repeated(first: Output, second: Output) -> bool {
    match (first, second) {
        (Output::Write { result }, Output::Write { result: other }) => {
            &&& other.replayed
            &&& other.transaction.deep_view() == result.transaction.deep_view()
            &&& other.affected_ids.deep_view() == result.affected_ids.deep_view()
        },
        (Output::PendingWrite { result }, Output::PendingWrite { result: other }) => {
            &&& other.replayed
            &&& other.pending.deep_view() == result.pending.deep_view()
            &&& other.transaction.deep_view() == result.transaction.deep_view()
        },
        _ => false,
    }
}

/// The operation that a command stands for on a day.
spec fn operation_of(command: Command, today: Text) -> Operation<Text> {
    match command {
        Command::Add { kind, category, entry } => Operation::Add {
            input: NewTransaction {
                kind,
                amount: entry.amount,
                date: entry_laws::day_of_entry(entry.date, entry.occurred_at, today),
                occurred_at: entry.occurred_at.deep_view(),
                category: category.deep_view(),
                note: entry.note.deep_view(),
                channel: entry.channel.deep_view(),
                original_id: None,
            },
        },
        Command::Refund { id, entry } => Operation::Add {
            input: NewTransaction {
                kind: Kind::Refund,
                amount: entry.amount,
                date: entry_laws::day_of_entry(entry.date, entry.occurred_at, today),
                occurred_at: entry.occurred_at.deep_view(),
                category: None,
                note: entry.note.deep_view(),
                channel: entry.channel.deep_view(),
                original_id: Some(id@),
            },
        },
        Command::Record { input, .. } => Operation::Add { input: input.deep_view() },
        Command::Edit { id, patch, .. } => Operation::Update { id: id@, patch: patch.deep_view() },
        Command::Void { id, cascade_refunds, .. } => Operation::Void { id: id@, cascade_refunds },
        Command::Pending { command } => match command {
            PendingCommand::Add {
                currency,
                amount,
                date,
                occurred_at,
                category,
                merchant,
                note,
                channel,
                ..
            } => Operation::PendingAdd {
                input: NewPendingExpense {
                    currency: currency@,
                    amount: amount@,
                    date: entry_laws::day_of_entry(date, occurred_at, today),
                    occurred_at: occurred_at.deep_view(),
                    category: category.deep_view(),
                    merchant: merchant.deep_view(),
                    note: note.deep_view(),
                    channel: channel.deep_view(),
                },
            },
            PendingCommand::Record { input, .. } => Operation::PendingAdd {
                input: input.deep_view(),
            },
            PendingCommand::Confirm { id, amount, posted_date, .. } => Operation::PendingConfirm {
                id: id@,
                input: ConfirmPendingExpense { amount, posted_date: posted_date.deep_view() },
            },
            PendingCommand::Cancel { id, .. } => Operation::PendingCancel { id: id@ },
            PendingCommand::Snooze { id, until, .. } => Operation::PendingSnooze {
                id: id@,
                until: until@,
            },
            _ => Operation::Unknown,
        },
        _ => Operation::Unknown,
    }
}

/// Whether an answer of a command is that of a change.
spec fn is_reply(result: Result<Output>, reply: ledger::ReplyView) -> bool {
    match (result, reply) {
        (Ok(Output::Write { result }), ledger::Reply::Write { result: view }) => result.deep_view()
            == view,
        (
            Ok(Output::PendingWrite { result }),
            ledger::Reply::Pending { result: view },
        ) => result.deep_view() == view,
        _ => false,
    }
}

proof fn lemma_operation(
    before: Ledger,
    command: Command,
    today: Text,
    stamp: Stamp<Text>,
    after: Ledger,
    result: Result<Output>,
)
    requires
        command::executed(before, command, today, stamp, after, result),
        request_of(command) is Some,
    ensures
        ({
            let change = laws::carried_out(
                before,
                operation_of(command, today),
                request_of(command),
                stamp,
            );
            &&& result is Ok ==> change.1 is Ok && after == change.0 && is_reply(
                result,
                change.1->Ok_0,
            )
            &&& change.1 is Ok ==> result is Ok
        }),
{
    match command {
        Command::Add { entry, .. } | Command::Refund { entry, .. } => {
            entry_laws::lemma_agree(
                entry_laws::day_of_entry(entry.date, entry.occurred_at, today),
                entry.occurred_at.deep_view(),
            );
        },
        Command::Pending { command } => {
            if let PendingCommand::Add { date, occurred_at, .. } = command {
                entry_laws::lemma_agree(
                    entry_laws::day_of_entry(date, occurred_at, today),
                    occurred_at.deep_view(),
                );
            }
        },
        _ => {},
    }
}

/// A command with a request id that was carried out once is answered again with the same answer, and
/// changes nothing: neither at once nor after any number of other changes.
pub proof fn law_commands_are_carried_out_once(
    before: Ledger,
    command: Command,
    today: Text,
    stamp: Stamp<Text>,
    after: Ledger,
    result: Result<Output>,
    later: Ledger,
    later_stamp: Stamp<Text>,
    latest: Ledger,
    repeated: Result<Output>,
)
    requires
        request_of(command) is Some,
        command::executed(before, command, today, stamp, after, result),
        result is Ok,
        laws::continues(later.requests, after.requests),
        command::executed(later, command, today, later_stamp, latest, repeated),
    ensures
        latest == later,
        repeated is Ok,
        is_repeated(result->Ok_0, repeated->Ok_0),
{
    let operation = operation_of(command, today);
    let request_id = request_of(command)->0;
    lemma_operation(before, command, today, stamp, after, result);
    lemma_operation(later, command, today, later_stamp, latest, repeated);
    laws::law_requests_are_carried_out_once(
        before,
        operation,
        request_id,
        stamp,
        later,
        later_stamp,
    );
}

/// A command for a refund raises what is shown as refunded of the expense that it names by exactly
/// its amount.
pub proof fn law_refund_commands_raise_the_refunded(
    before: Ledger,
    id: String,
    entry: EntryArgs,
    today: Text,
    stamp: Stamp<Text>,
    after: Ledger,
    result: Result<Output>,
    first: Result<Output>,
    second: Result<Output>,
)
    requires
        ledger::sound(before),
        command::executed(before, Command::Refund { id, entry }, today, stamp, after, result),
        result is Ok,
        result->Ok_0 is Write && !result->Ok_0->Write_result.replayed,
        command::executed(before, Command::Show { id }, today, stamp, before, first),
        command::executed(after, Command::Show { id }, today, stamp, after, second),
    ensures
        first is Ok && first->Ok_0 is Detail,
        second is Ok && second->Ok_0 is Detail,
        ({
            let total = list_laws::refunded(before.transactions, id@);
            &&& first->Ok_0->Detail_detail.deep_view().refund_total == money::minor_text(total)
            &&& second->Ok_0->Detail_detail.deep_view().refund_total == money::minor_text(
                total + entry.amount.0,
            )
        }),
{
    lemma_refund_is_added(before, id, entry, today, stamp, after, result);
    entry_laws::law_refund_commands_record_what_they_give(
        before,
        id,
        entry,
        today,
        stamp,
        after,
        result,
    );
    let record = result->Ok_0->Write_result.transaction.deep_view();
    list_laws::lemma_one_more_refunded(before.transactions, after.transactions, id@);
    let i = choose|i: int|
        0 <= i < before.transactions.len() && (#[trigger] before.transactions[i]).id == id@
            && before.transactions[i].kind == Kind::Expense && !before.transactions[i].voided
            && before.transactions[i].category == Some(record.category);
    assert(!entry_laws::is_free(before, id@));
    assert(after.transactions[i].id == id@);
    assert(!entry_laws::is_free(after, id@));
    list_laws::law_show_commands_are_exact(before, id, today, stamp, before, first);
    list_laws::law_show_commands_are_exact(after, id, today, stamp, after, second);
}

proof fn lemma_refund_is_added(
    before: Ledger,
    id: String,
    entry: EntryArgs,
    today: Text,
    stamp: Stamp<Text>,
    after: Ledger,
    result: Result<Output>,
)
    requires
        ledger::sound(before),
        command::executed(before, Command::Refund { id, entry }, today, stamp, after, result),
        result is Ok,
    ensures
        ledger::sound(after),
{
    if entry.date is None && entry.occurred_at is Some {
        entry_laws::law_times_are_kept(entry.occurred_at->0@);
    }
    let input = NewTransaction {
        kind: Kind::Refund,
        amount: entry.amount,
        date: entry_laws::day_of_entry(entry.date, entry.occurred_at, today),
        occurred_at: entry.occurred_at.deep_view(),
        category: None,
        note: entry.note.deep_view(),
        channel: entry.channel.deep_view(),
        original_id: Some(id@),
    };
    let request_id = entry.request_id.deep_view();
    assert(after == store::added(before, input, request_id, stamp).0);
    soundness::law_recording_keeps_soundness(before, input, request_id, stamp);
}

/// A command that voids a refund lowers what is shown as refunded of its expense by exactly its
/// amount.
pub proof fn law_void_commands_lower_the_refunded(
    before: Ledger,
    place: int,
    refund_id: String,
    cascade_refunds: bool,
    request_id: Option<String>,
    id: String,
    today: Text,
    stamp: Stamp<Text>,
    after: Ledger,
    result: Result<Output>,
    first: Result<Output>,
    second: Result<Output>,
)
    requires
        ledger::sound(before),
        0 <= place < before.transactions.len(),
        before.transactions[place].id == refund_id@,
        before.transactions[place].kind == Kind::Refund,
        before.transactions[place].original_id == Some(id@),
        command::executed(
            before,
            Command::Void { id: refund_id, cascade_refunds, request_id },
            today,
            stamp,
            after,
            result,
        ),
        result is Ok,
        result->Ok_0 is Write && !result->Ok_0->Write_result.replayed,
        command::executed(before, Command::Show { id }, today, stamp, before, first),
        command::executed(after, Command::Show { id }, today, stamp, after, second),
    ensures
        first is Ok && first->Ok_0 is Detail,
        second is Ok && second->Ok_0 is Detail,
        ({
            let total = list_laws::refunded(before.transactions, id@);
            &&& first->Ok_0->Detail_detail.deep_view().refund_total == money::minor_text(total)
            &&& second->Ok_0->Detail_detail.deep_view().refund_total == money::minor_text(
                total - before.transactions[place].amount.0,
            )
        }),
{
    assert(ledger::transaction_is_sound(before, before.transactions[place]));
    entry_laws::lemma_found(before, id@);
    list_laws::law_voiding_refunds_lowers_the_refunded(
        before,
        place,
        cascade_refunds,
        request_id.deep_view(),
        stamp.now,
        id@,
    );
    list_laws::law_details_are_answered(before, id@);
}

/// Every transaction that fits what a command for a list gives has a place in it, and every page
/// that reaches to that place shows it there.
pub proof fn law_list_commands_show_everything(
    before: Ledger,
    filter: FilterArgs,
    kind: Option<String>,
    include_voided: bool,
    i: int,
    today: Text,
) -> (place: int)
    requires
        ledger::sound(before),
        before.transactions.len() <= i64::MAX,
        list_laws::period_is_valid(
            filter.month.deep_view(),
            filter.from.deep_view(),
            filter.to.deep_view(),
        ),
        0 <= i < before.transactions.len(),
        ({
            let row = before.transactions[i];
            &&& row.voided ==> include_voided
            &&& list_laws::lies_in(
                filter.month.deep_view(),
                filter.from.deep_view(),
                filter.to.deep_view(),
                row.date,
            )
            &&& kind is Some ==> kind->0@ == match row.kind {
                Kind::Expense => "expense"@,
                Kind::Income => "income"@,
                Kind::Refund => "refund"@,
            }
            &&& filter.category is Some ==> list_laws::is_of_category(
                before,
                row,
                filter.category->0@,
            )
            &&& filter.search is Some ==> list_laws::is_found_by(before, row, filter.search->0@)
        }),
    ensures
        place >= 0,
        forall|limit: i64, offset: i64, stamp: Stamp<Text>, after: Ledger, result: Result<Output>|
            0 <= offset <= place < offset + limit && limit <= 1000 && #[trigger] command::executed(
                before,
                Command::List { filter, kind, include_voided, limit, offset },
                today,
                stamp,
                after,
                result,
            ) ==> {
                &&& result is Ok
                &&& result->Ok_0 is List
                &&& result->Ok_0->List_page.deep_view().items.len() > place - offset
                &&& entry_laws::holds(
                    before.transactions[i],
                    result->Ok_0->List_page.deep_view().items[place - offset],
                )
            },
{
    let row = before.transactions[i];
    let asked = if kind is None {
        None
    } else {
        Some(row.kind)
    };
    lemma_kind_names();
    let filters = list_laws::given_filters(filter, asked, include_voided, 1, 0);
    let place = list_laws::law_everything_wanted_is_listed(before, filters, i);
    assert forall|
        limit: i64,
        offset: i64,
        stamp: Stamp<Text>,
        after: Ledger,
        result: Result<Output>,
    |
        0 <= offset <= place < offset + limit && limit <= 1000 && #[trigger] command::executed(
            before,
            Command::List { filter, kind, include_voided, limit, offset },
            today,
            stamp,
            after,
            result,
        ) implies {
        &&& result is Ok
        &&& result->Ok_0 is List
        &&& result->Ok_0->List_page.deep_view().items.len() > place - offset
        &&& entry_laws::holds(
            before.transactions[i],
            result->Ok_0->List_page.deep_view().items[place - offset],
        )
    } by {
        let these = Filters { offset, limit, ..filters };
        assert(these == list_laws::given_filters(filter, asked, include_voided, limit, offset));
        assert(query::listed(before, these) is Ok);
    }
    place
}

proof fn lemma_kind_names()
    ensures
        models::named_kind("expense"@) == Ok::<Kind, ErrorView>(Kind::Expense),
        models::named_kind("income"@) == Ok::<Kind, ErrorView>(Kind::Income),
        models::named_kind("refund"@) == Ok::<Kind, ErrorView>(Kind::Refund),
{
    reveal_strlit("expense");
    reveal_strlit("income");
    reveal_strlit("refund");
    assert("expense"@[0] == 'e' && "income"@[0] == 'i' && "refund"@[0] == 'r');
}

} // verus!
