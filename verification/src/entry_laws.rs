//! What the commands on transactions are for: what a record holds, what an edit changes and
//! leaves alone, what voiding takes out of force, and when each is accepted.
use vstd::prelude::*;

use crate::accounting;
use crate::calendar;
use crate::command;
use crate::command::{CategoryCommand, Command, EntryArgs};
use crate::error::Result;
use crate::ledger;
use crate::ledger::{Ledger, RequestView, Stamp};
use crate::models::{
    AuditEntry, AuditRecord, Category, Kind, NewTransaction, TransactionRecord, TransactionRow,
    UpdateTransaction,
};
use crate::occurrence;
use crate::order;
use crate::query;
use crate::report::Output;
use crate::soundness;
use crate::store;
use crate::text;
use crate::text::Text;

verus! {

/// A text that was given, or nothing where it is empty.
pub open spec fn unless_empty(given: Option<Text>) -> Option<Text> {
    if given is Some && given->0.len() > 0 {
        given
    } else {
        None
    }
}

/// A time as it is kept: as it was given, but with `Z` for a zero offset.
pub open spec fn kept_time(given: Text) -> Text {
    let end = given.len() as int;
    if end >= 6 && given.skip(end - 6) == seq!['+', '0', '0', ':', '0', '0'] {
        given.take(end - 6).push('Z')
    } else {
        given
    }
}

/// An optional time as it is kept.
pub open spec fn kept_optional_time(given: Option<Text>) -> Option<Text> {
    match given {
        Some(time) => Some(kept_time(time)),
        None => None,
    }
}

/// Whether a row of the table holds what a reported transaction says. A refund has no category of
/// its own.
pub open spec fn holds(row: TransactionRow<Text>, record: TransactionRecord<Text>) -> bool {
    &&& row.id == record.id
    &&& row.kind == record.kind
    &&& row.amount == record.amount
    &&& row.date == record.date
    &&& row.occurred_at == record.occurred_at
    &&& row.note == record.note
    &&& row.channel == record.channel
    &&& row.original_id == record.original_id
    &&& row.voided == record.voided
    &&& row.created_at == record.created_at
    &&& row.updated_at == record.updated_at
    &&& row.kind == Kind::Refund ==> row.category is None
    &&& row.kind != Kind::Refund ==> row.category == Some(record.category)
}

/// Whether one more request is kept where the change has a request id, and none otherwise.
pub open spec fn request_added(
    before: Seq<RequestView>,
    after: Seq<RequestView>,
    request_id: Option<Text>,
) -> bool {
    match request_id {
        None => after == before,
        Some(id) => {
            &&& after.len() == before.len() + 1
            &&& forall|i: int| 0 <= i < before.len() ==> after[i] == #[trigger] before[i]
            &&& after.last().request_id == id
        },
    }
}

/// Whether a ledger has one transaction more than before, and is the same otherwise but for one
/// entry in the log and the request.
pub open spec fn one_more(
    before: Ledger,
    after: Ledger,
    record: TransactionRecord<Text>,
    request_id: Option<Text>,
    now: Text,
) -> bool {
    &&& after.transactions.len() == before.transactions.len() + 1
    &&& forall|i: int|
        0 <= i < before.transactions.len() ==> after.transactions[i]
            == #[trigger] before.transactions[i]
    &&& holds(after.transactions.last(), record)
    &&& after.categories == before.categories
    &&& after.pending_expenses == before.pending_expenses
    &&& after.pending_audit_log == before.pending_audit_log
    &&& after.audit_log == before.audit_log.push(
        AuditEntry {
            transaction_id: record.id,
            action: "create"@,
            before: None,
            after: record,
            created_at: now,
        },
    )
    &&& request_added(before.requests, after.requests, request_id)
}

/// Whether the ledger has a category of a name and a kind.
pub open spec fn has_category(ledger: Ledger, name: Text, kind: Kind) -> bool {
    exists|i: int|
        0 <= i < ledger.categories.len() && (#[trigger] ledger.categories[i]).name == name
            && ledger.categories[i].kind == kind
}

/// Whether the ledger has an expense of an id that is in force, in a category.
pub open spec fn has_expense(ledger: Ledger, id: Text, category: Text) -> bool {
    exists|i: int|
        0 <= i < ledger.transactions.len() && (#[trigger] ledger.transactions[i]).id == id
            && ledger.transactions[i].kind == Kind::Expense && !ledger.transactions[i].voided
            && ledger.transactions[i].category == Some(category)
}

/// Whether no transaction has an id.
pub open spec fn is_free(ledger: Ledger, id: Text) -> bool {
    forall|i: int| 0 <= i < ledger.transactions.len() ==> (#[trigger] ledger.transactions[i]).id != id
}

/// Whether a request id can be used for something new.
pub open spec fn is_new_request(ledger: Ledger, request_id: Option<Text>) -> bool {
    match request_id {
        None => true,
        Some(id) => {
            &&& !text::is_blank(id)
            &&& vstd::utf8::encode_utf8(id).len() <= 200
            &&& forall|i: int|
                0 <= i < ledger.requests.len() ==> (#[trigger] ledger.requests[i]).request_id != id
        },
    }
}

/// Whether a date is one of the calendar and a time beside it is valid and of that local date.
pub open spec fn agree(date: Text, time: Option<Text>) -> bool {
    &&& calendar::is_date(date)
    &&& time matches Some(time) ==> occurrence::normalized(time) is Ok && time.take(10) == date
}

/// A time that is accepted is kept as it was given, but with `Z` for a zero offset.
pub proof fn law_times_are_kept(text: Text)
    requires
        occurrence::normalized(text) is Ok,
    ensures
        occurrence::normalized(text)->Ok_0 == kept_time(text),
        kept_time(text).take(10) == text.take(10),
        calendar::is_date(text.take(10)),
{
    let zero = seq!['+', '0', '0', ':', '0', '0'];
    let end = text.len() as int;
    assert(zero[5] == '0');
    if text.skip(end - 6) == zero {
        assert(text[end - 1] == text.skip(end - 6)[5]);
    }
    occurrence::law_normalizing_keeps_the_local_time(text);
}

pub(crate) proof fn lemma_agree(date: Text, time: Option<Text>)
    ensures
        occurrence::occurrence(date, time) is Ok <==> agree(date, time),
        occurrence::occurrence(date, time) is Ok ==> occurrence::occurrence(date, time)->Ok_0
            == kept_optional_time(time),
{
    if let Some(given) = time {
        if occurrence::normalized(given) is Ok {
            law_times_are_kept(given);
        }
    }
}

pub(crate) proof fn lemma_categories(ledger: Ledger, name: Text, kind: Kind)
    requires
        ledger::sound(ledger),
    ensures
        ledger::category_kind(ledger, name) == Some(kind) <==> has_category(ledger, name, kind),
{
    let names = ledger::names(ledger.categories);
    text::lemma_position(names, name);
    if has_category(ledger, name, kind) {
        let i = choose|i: int|
            0 <= i < ledger.categories.len() && (#[trigger] ledger.categories[i]).name == name
                && ledger.categories[i].kind == kind;
        assert(names[i] == name);
    }
}

/// The row of an id is the one that is found, and there is none where none is found.
pub(crate) proof fn lemma_found(ledger: Ledger, id: Text)
    requires
        ledger::sound(ledger),
    ensures
        ledger::transaction(ledger, id) is None <==> is_free(ledger, id),
        forall|i: int|
            0 <= i < ledger.transactions.len() && (#[trigger] ledger.transactions[i]).id == id
                ==> text::position(ledger::ids(ledger.transactions), id) == Some(i)
                && ledger::transaction(ledger, id) == Some(ledger.transactions[i]),
{
    let ids = ledger::ids(ledger.transactions);
    text::lemma_position(ids, id);
    assert forall|i: int|
        0 <= i < ledger.transactions.len() && (#[trigger] ledger.transactions[i]).id
            == id implies text::position(ids, id) == Some(i) && ledger::transaction(ledger, id)
        == Some(ledger.transactions[i]) by {
        assert(ids[i] == id);
    }
    if ledger::transaction(ledger, id) is None {
        assert forall|i: int| 0 <= i < ledger.transactions.len() implies (
        #[trigger] ledger.transactions[i]).id != id by {
            assert(ids[i] == ledger.transactions[i].id);
        }
    } else {
        let i = text::position(ids, id)->0;
        assert(ledger.transactions[i].id == id);
    }
}

proof fn lemma_expense(ledger: Ledger, id: Text, category: Text)
    requires
        ledger::sound(ledger),
    ensures
        has_expense(ledger, id, category) <==> {
            &&& ledger::fetched(ledger, id) is Ok
            &&& ledger::fetched(ledger, id)->Ok_0.kind == Kind::Expense
            &&& !ledger::fetched(ledger, id)->Ok_0.voided
            &&& ledger::fetched(ledger, id)->Ok_0.category == category
        },
{
    lemma_found(ledger, id);
    let ids = ledger::ids(ledger.transactions);
    text::lemma_position(ids, id);
    if let Some(i) = text::position(ids, id) {
        assert(ledger::transaction_is_sound(ledger, ledger.transactions[i]));
        assert(ledger.transactions[i].id == id);
    }
}

pub(crate) proof fn lemma_new_request(ledger: Ledger, request_id: Option<Text>)
    requires
        is_new_request(ledger, request_id),
    ensures
        store::checked_request_id(request_id) is Ok,
        forall|operation: ledger::Operation<Text>|
            #[trigger] ledger::earlier_reply(ledger, request_id, operation) == Ok::<
                Option<ledger::ReplyView>,
                crate::error::ErrorView,
            >(None),
{
    if let Some(id) = request_id {
        let ids = ledger::request_ids(ledger.requests);
        text::lemma_position(ids, id);
        if let Some(i) = text::position(ids, id) {
            assert(ledger.requests[i].request_id == id);
        }
    }
}

/// What is answered for a new transaction, and what the ledger then holds, is what was given.
pub proof fn law_records_hold_what_was_given(
    before: Ledger,
    input: NewTransaction<Text>,
    request_id: Option<Text>,
    stamp: Stamp<Text>,
)
    requires
        ledger::sound(before),
        store::added(before, input, request_id, stamp).1 is Ok,
        !store::added(before, input, request_id, stamp).1->Ok_0.replayed,
    ensures
        ({
            let (after, outcome) = store::added(before, input, request_id, stamp);
            let record = outcome->Ok_0.transaction;
            &&& record.id == "txn_"@ + stamp.unique
            &&& record.kind == input.kind
            &&& record.amount == input.amount
            &&& record.currency == "CNY"@
            &&& record.date == input.date
            &&& record.occurred_at == kept_optional_time(input.occurred_at)
            &&& record.note == unless_empty(input.note)
            &&& record.channel == unless_empty(input.channel)
            &&& record.original_id == input.original_id
            &&& !record.voided
            &&& record.created_at == stamp.now
            &&& record.updated_at == stamp.now
            &&& input.kind != Kind::Refund && input.category is Some ==> record.category
                == input.category->0
            &&& input.kind == Kind::Expense && input.category is None ==> record.category
                == "其他支出"@
            &&& input.kind == Kind::Income && input.category is None ==> record.category
                == "其他收入"@
            &&& input.kind != Kind::Refund ==> has_category(before, record.category, input.kind)
            &&& input.kind == Kind::Refund ==> input.original_id is Some && has_expense(
                before,
                input.original_id->0,
                record.category,
            )
            &&& outcome->Ok_0.affected_ids == seq![record.id]
            &&& is_free(before, record.id)
            &&& one_more(before, after, record, request_id, stamp.now)
        }),
{
    let (after, outcome) = store::added(before, input, request_id, stamp);
    let record = outcome->Ok_0.transaction;
    lemma_agree(input.date, input.occurred_at);
    lemma_found(before, record.id);
    if input.kind == Kind::Refund {
        lemma_expense(before, input.original_id->0, record.category);
    } else {
        lemma_categories(before, record.category, input.kind);
    }
}

/// An income or an expense is accepted exactly where its amount is positive, its date is one of
/// the calendar and agrees with its time, and its category exists and is of its kind.
pub proof fn law_entries_are_accepted(
    before: Ledger,
    input: NewTransaction<Text>,
    request_id: Option<Text>,
    stamp: Stamp<Text>,
)
    requires
        ledger::sound(before),
        input.kind != Kind::Refund,
        is_new_request(before, request_id),
        is_free(before, "txn_"@ + stamp.unique),
    ensures
        store::added(before, input, request_id, stamp).1 is Ok <==> {
            &&& input.amount.0 > 0
            &&& agree(input.date, input.occurred_at)
            &&& input.original_id is None
            &&& has_category(
                before,
                if input.category is Some {
                    input.category->0
                } else if input.kind == Kind::Expense {
                    "其他支出"@
                } else {
                    "其他收入"@
                },
                input.kind,
            )
        },
        store::added(before, input, request_id, stamp).1 is Ok ==> !store::added(
            before,
            input,
            request_id,
            stamp,
        ).1->Ok_0.replayed,
        store::added(before, input, request_id, stamp).1 is Err ==> store::added(
            before,
            input,
            request_id,
            stamp,
        ).0 == before && store::added(before, input, request_id, stamp).1->Err_0.code
            == "INVALID_INPUT"@,
{
    lemma_agree(input.date, input.occurred_at);
    lemma_new_request(before, request_id);
    lemma_found(before, "txn_"@ + stamp.unique);
    let name = if input.category is Some {
        input.category->0
    } else if input.kind == Kind::Expense {
        "其他支出"@
    } else {
        "其他收入"@
    };
    lemma_categories(before, name, input.kind);
}

/// A refund is accepted exactly where its amount is positive, its date is one of the calendar and
/// agrees with its time, it names an expense in force, and no category of its own is given.
pub proof fn law_refunds_are_accepted(
    before: Ledger,
    input: NewTransaction<Text>,
    request_id: Option<Text>,
    stamp: Stamp<Text>,
)
    requires
        ledger::sound(before),
        input.kind == Kind::Refund,
        is_new_request(before, request_id),
        is_free(before, "txn_"@ + stamp.unique),
    ensures
        store::added(before, input, request_id, stamp).1 is Ok <==> {
            &&& input.amount.0 > 0
            &&& agree(input.date, input.occurred_at)
            &&& input.category is None
            &&& input.original_id is Some
            &&& input.original_id->0.len() > 0
            &&& exists|category: Text| has_expense(before, input.original_id->0, category)
        },
        store::added(before, input, request_id, stamp).1 is Ok ==> !store::added(
            before,
            input,
            request_id,
            stamp,
        ).1->Ok_0.replayed,
        store::added(before, input, request_id, stamp).1 is Err ==> store::added(
            before,
            input,
            request_id,
            stamp,
        ).0 == before && (store::added(before, input, request_id, stamp).1->Err_0.code
            == "INVALID_INPUT"@ || (store::added(
            before,
            input,
            request_id,
            stamp,
        ).1->Err_0.code == "NOT_FOUND"@ && is_free(before, input.original_id->0))),
{
    lemma_agree(input.date, input.occurred_at);
    lemma_new_request(before, request_id);
    lemma_found(before, "txn_"@ + stamp.unique);
    if let Some(original) = input.original_id {
        lemma_found(before, original);
        lemma_fetched(before, original);
        assert forall|category: Text| has_expense(before, original, category) implies
            ledger::fetched(before, original) is Ok && ledger::fetched(before, original)->Ok_0.kind
            == Kind::Expense && !ledger::fetched(before, original)->Ok_0.voided by {
            lemma_expense(before, original, category);
        }
        if ledger::fetched(before, original) is Ok {
            lemma_expense(before, original, ledger::fetched(before, original)->Ok_0.category);
        }
    }
}

/// The date that an entry of a command belongs to: the one given, else the local date of its time,
/// else the current day.
pub open spec fn day_of_entry(date: Option<String>, time: Option<String>, today: Text) -> Text {
    if date is Some {
        date->0@
    } else if time is Some {
        time->0@.take(10)
    } else {
        today
    }
}

/// Whether a reported transaction holds all that an entry of a command gave.
pub open spec fn holds_entry(
    record: TransactionRecord<Text>,
    entry: EntryArgs,
    today: Text,
    now: Text,
) -> bool {
    &&& record.amount == entry.amount
    &&& record.date == day_of_entry(entry.date, entry.occurred_at, today)
    &&& record.occurred_at == kept_optional_time(entry.occurred_at.deep_view())
    &&& entry.note is None ==> record.note is None
    &&& entry.note is Some ==> record.note == if entry.note->0@.len() > 0 {
        Some(entry.note->0@)
    } else {
        None
    }
    &&& entry.channel is None ==> record.channel is None
    &&& entry.channel is Some ==> record.channel == if entry.channel->0@.len() > 0 {
        Some(entry.channel->0@)
    } else {
        None
    }
    &&& record.currency == "CNY"@
    &&& !record.voided
    &&& record.created_at == now
    &&& record.updated_at == now
}

/// An accepted command that records an income or an expense, and is no replay, records exactly
/// what the command gave.
pub proof fn law_add_commands_record_what_they_give(
    before: Ledger,
    kind: Kind,
    category: Option<String>,
    entry: EntryArgs,
    today: Text,
    stamp: Stamp<Text>,
    after: Ledger,
    result: Result<Output>,
)
    requires
        ledger::sound(before),
        command::executed(
            before,
            Command::Add { kind, category, entry },
            today,
            stamp,
            after,
            result,
        ),
        result is Ok,
    ensures
        result->Ok_0 is Write,
        entry.request_id is None ==> !result->Ok_0->Write_result.replayed,
        ({
            let answer = result->Ok_0->Write_result;
            let record = answer.transaction.deep_view();
            !answer.replayed ==> {
                &&& holds_entry(record, entry, today, stamp.now)
                &&& record.kind == kind
                &&& record.original_id is None
                &&& category is Some ==> record.category == category->0@
                &&& category is None && kind == Kind::Expense ==> record.category == "其他支出"@
                &&& category is None && kind == Kind::Income ==> record.category == "其他收入"@
                &&& one_more(before, after, record, entry.request_id.deep_view(), stamp.now)
            }
        }),
{
    if entry.date is None && entry.occurred_at is Some {
        law_times_are_kept(entry.occurred_at->0@);
    }
    let date = day_of_entry(entry.date, entry.occurred_at, today);
    let input = NewTransaction {
        kind,
        amount: entry.amount,
        date,
        occurred_at: entry.occurred_at.deep_view(),
        category: category.deep_view(),
        note: entry.note.deep_view(),
        channel: entry.channel.deep_view(),
        original_id: None,
    };
    let request_id = entry.request_id.deep_view();
    assert(after == store::added(before, input, request_id, stamp).0);
    if !result->Ok_0->Write_result.replayed {
        law_records_hold_what_was_given(before, input, request_id, stamp);
    }
}

/// An accepted command that records a refund, and is no replay, records exactly what the command
/// gave, in the category of the expense that it names.
pub proof fn law_refund_commands_record_what_they_give(
    before: Ledger,
    id: String,
    entry: EntryArgs,
    today: Text,
    stamp: Stamp<Text>,
    after: Ledger,
    result: Result<Output>,
)
    requires
        ledger::sound(before),
        command::executed(
            before,
            Command::Refund { id, entry },
            today,
            stamp,
            after,
            result,
        ),
        result is Ok,
    ensures
        result->Ok_0 is Write,
        entry.request_id is None ==> !result->Ok_0->Write_result.replayed,
        ({
            let answer = result->Ok_0->Write_result;
            let record = answer.transaction.deep_view();
            !answer.replayed ==> {
                &&& holds_entry(record, entry, today, stamp.now)
                &&& record.kind == Kind::Refund
                &&& record.original_id == Some(id@)
                &&& has_expense(before, id@, record.category)
                &&& one_more(before, after, record, entry.request_id.deep_view(), stamp.now)
            }
        }),
{
    if entry.date is None && entry.occurred_at is Some {
        law_times_are_kept(entry.occurred_at->0@);
    }
    let input = NewTransaction {
        kind: Kind::Refund,
        amount: entry.amount,
        date: day_of_entry(entry.date, entry.occurred_at, today),
        occurred_at: entry.occurred_at.deep_view(),
        category: None,
        note: entry.note.deep_view(),
        channel: entry.channel.deep_view(),
        original_id: Some(id@),
    };
    let request_id = entry.request_id.deep_view();
    assert(after == store::added(before, input, request_id, stamp).0);
    if !result->Ok_0->Write_result.replayed {
        law_records_hold_what_was_given(before, input, request_id, stamp);
    }
}

/// An accepted record that is no replay holds exactly what was given.
pub proof fn law_record_commands_record_what_they_give(
    before: Ledger,
    input: NewTransaction,
    request_id: Option<String>,
    today: Text,
    stamp: Stamp<Text>,
    after: Ledger,
    result: Result<Output>,
)
    requires
        ledger::sound(before),
        command::executed(
            before,
            Command::Record { input, request_id },
            today,
            stamp,
            after,
            result,
        ),
        result is Ok,
    ensures
        result->Ok_0 is Write,
        request_id is None ==> !result->Ok_0->Write_result.replayed,
        ({
            let answer = result->Ok_0->Write_result;
            let record = answer.transaction.deep_view();
            !answer.replayed ==> {
                &&& record.kind == input.kind
                &&& record.amount == input.amount
                &&& record.date == input.date@
                &&& record.occurred_at == kept_optional_time(input.occurred_at.deep_view())
                &&& record.note == unless_empty(input.note.deep_view())
                &&& record.channel == unless_empty(input.channel.deep_view())
                &&& record.original_id == input.original_id.deep_view()
                &&& input.category is Some ==> record.category == input.category->0@
                &&& one_more(before, after, record, request_id.deep_view(), stamp.now)
            }
        }),
{
    if !result->Ok_0->Write_result.replayed {
        law_records_hold_what_was_given(
            before,
            input.deep_view(),
            request_id.deep_view(),
            stamp,
        );
    }
}

/// What a transaction is after an accepted edit: every field that the patch names has the value
/// given, and every other field is as it was.
pub open spec fn is_edited(
    old_row: TransactionRow<Text>,
    new_row: TransactionRow<Text>,
    patch: UpdateTransaction<Text>,
    now: Text,
) -> bool {
    &&& new_row.amount == if patch.amount is Some {
        patch.amount->0
    } else {
        old_row.amount
    }
    &&& new_row.date == if patch.date is Some {
        patch.date->0
    } else if patch.occurred_at is Some {
        patch.occurred_at->0.take(10)
    } else {
        old_row.date
    }
    &&& new_row.occurred_at == if patch.occurred_at is Some {
        Some(kept_time(patch.occurred_at->0))
    } else if patch.clear_occurred_at {
        None
    } else {
        old_row.occurred_at
    }
    &&& new_row.category == if patch.category is Some {
        patch.category
    } else {
        old_row.category
    }
    &&& new_row.note == if patch.note is Some {
        unless_empty(patch.note)
    } else {
        old_row.note
    }
    &&& new_row.channel == if patch.channel is Some {
        unless_empty(patch.channel)
    } else {
        old_row.channel
    }
    &&& new_row.updated_at == now
    &&& new_row.id == old_row.id
    &&& new_row.kind == old_row.kind
    &&& new_row.original_id == old_row.original_id
    &&& new_row.voided == old_row.voided
    &&& new_row.created_at == old_row.created_at
}

/// Whether a log has one entry more, about the change of one row.
pub open spec fn change_logged(
    before: Ledger,
    after: Ledger,
    place: int,
    action: Text,
    record: TransactionRecord<Text>,
    now: Text,
) -> bool {
    &&& after.audit_log.len() == before.audit_log.len() + 1
    &&& forall|i: int|
        0 <= i < before.audit_log.len() ==> after.audit_log[i] == #[trigger] before.audit_log[i]
    &&& after.audit_log.last().transaction_id == record.id
    &&& after.audit_log.last().action == action
    &&& after.audit_log.last().before is Some
    &&& holds(before.transactions[place], after.audit_log.last().before->0)
    &&& after.audit_log.last().after == record
    &&& after.audit_log.last().created_at == now
}

/// An accepted edit that is no replay gives every field that the patch names the value given, and
/// leaves all else of the transaction, and every other transaction, as it was.
pub proof fn law_edits_change_what_they_name(
    before: Ledger,
    id: Text,
    patch: UpdateTransaction<Text>,
    request_id: Option<Text>,
    now: Text,
) -> (place: int)
    requires
        ledger::sound(before),
        store::updated(before, id, patch, request_id, now).1 is Ok,
        !store::updated(before, id, patch, request_id, now).1->Ok_0.replayed,
    ensures
        ({
            let (after, outcome) = store::updated(before, id, patch, request_id, now);
            let record = outcome->Ok_0.transaction;
            &&& 0 <= place < before.transactions.len()
            &&& before.transactions[place].id == id
            &&& is_edited(before.transactions[place], after.transactions[place], patch, now)
            &&& holds(after.transactions[place], record)
            &&& record.currency == "CNY"@
            &&& outcome->Ok_0.affected_ids == seq![id]
            &&& after.transactions.len() == before.transactions.len()
            &&& forall|i: int|
                0 <= i < before.transactions.len() && i != place ==> after.transactions[i]
                    == #[trigger] before.transactions[i]
            &&& after.categories == before.categories
            &&& after.pending_expenses == before.pending_expenses
            &&& after.pending_audit_log == before.pending_audit_log
            &&& change_logged(before, after, place, "update"@, record, now)
            &&& request_added(before.requests, after.requests, request_id)
        }),
{
    let (after, outcome) = store::updated(before, id, patch, request_id, now);
    let ids = ledger::ids(before.transactions);
    text::lemma_position(ids, id);
    let place = text::position(ids, id)->0;
    let old_row = before.transactions[place];
    assert(ledger::transaction_is_sound(before, old_row));
    if patch.date is Some {
        lemma_agree(patch.date->0, patch.occurred_at);
    }
    if let Some(time) = patch.occurred_at {
        law_times_are_kept(time);
    }
    place
}

/// An edit is accepted exactly where the transaction exists and is in force, the patch names
/// something, what it names is valid, and a known time is neither contradicted nor dropped
/// without being told so.
pub proof fn law_edits_are_accepted(
    before: Ledger,
    place: int,
    patch: UpdateTransaction<Text>,
    request_id: Option<Text>,
    now: Text,
)
    requires
        ledger::sound(before),
        0 <= place < before.transactions.len(),
        is_new_request(before, request_id),
    ensures
        ({
            let row = before.transactions[place];
            let outcome = store::updated(before, row.id, patch, request_id, now).1;
            &&& outcome is Ok <==> {
                &&& !row.voided
                &&& {
                    ||| patch.amount is Some
                    ||| patch.date is Some
                    ||| patch.occurred_at is Some
                    ||| patch.clear_occurred_at
                    ||| patch.category is Some
                    ||| patch.note is Some
                    ||| patch.channel is Some
                }
                &&& !(patch.occurred_at is Some && patch.clear_occurred_at)
                &&& patch.amount is Some ==> ledger::is_positive(patch.amount->0)
                &&& patch.date is Some ==> agree(patch.date->0, patch.occurred_at)
                &&& patch.occurred_at is Some ==> occurrence::normalized(patch.occurred_at->0) is Ok
                &&& patch.category is Some ==> row.kind != Kind::Refund && has_category(
                    before,
                    patch.category->0,
                    row.kind,
                )
                &&& patch.date is Some && patch.occurred_at is None && !patch.clear_occurred_at
                    && row.occurred_at is Some ==> patch.date->0 == row.date
            }
            &&& outcome is Ok ==> !outcome->Ok_0.replayed
        }),
{
    let row = before.transactions[place];
    lemma_found(before, row.id);
    lemma_new_request(before, request_id);
    accounting::law_every_transaction_has_a_category(before);
    assert(ledger::category_of(before, before.transactions[place]) is Some);
    assert(ledger::transaction_is_sound(before, row));
    if patch.date is Some {
        lemma_agree(patch.date->0, patch.occurred_at);
    }
    if let Some(time) = patch.occurred_at {
        if occurrence::normalized(time) is Ok {
            law_times_are_kept(time);
        }
    }
    if let Some(category) = patch.category {
        lemma_categories(before, category, row.kind);
    }
    if let Some(time) = row.occurred_at {
        assert(time.take(10) == row.date);
        law_times_are_kept(time);
        if patch.date is Some && calendar::is_date(patch.date->0) {
            assert(patch.date->0.len() == 10);
        }
        assert(row.date.len() == 10);
    }
}

/// No edit is accepted of an id that no transaction has.
pub proof fn law_only_what_exists_is_edited(
    before: Ledger,
    id: Text,
    patch: UpdateTransaction<Text>,
    request_id: Option<Text>,
    now: Text,
)
    requires
        ledger::sound(before),
        is_free(before, id),
        is_new_request(before, request_id),
    ensures
        store::updated(before, id, patch, request_id, now).1 is Err,
{
    lemma_found(before, id);
    lemma_new_request(before, request_id);
}

/// An accepted command to edit, that is no replay, gives every field that it names the value
/// given, and leaves every other field and every other transaction as it was.
pub proof fn law_edit_commands_change_what_they_name(
    before: Ledger,
    id: String,
    patch: UpdateTransaction,
    request_id: Option<String>,
    today: Text,
    stamp: Stamp<Text>,
    after: Ledger,
    result: Result<Output>,
) -> (place: int)
    requires
        ledger::sound(before),
        command::executed(
            before,
            Command::Edit { id, patch, request_id },
            today,
            stamp,
            after,
            result,
        ),
        result is Ok,
    ensures
        result->Ok_0 is Write,
        !result->Ok_0->Write_result.replayed ==> {
            &&& 0 <= place < before.transactions.len()
            &&& before.transactions[place].id == id@
            &&& is_edited(
                before.transactions[place],
                after.transactions[place],
                UpdateTransaction {
                    amount: patch.amount,
                    date: patch.date.deep_view(),
                    occurred_at: patch.occurred_at.deep_view(),
                    clear_occurred_at: patch.clear_occurred_at,
                    category: patch.category.deep_view(),
                    note: patch.note.deep_view(),
                    channel: patch.channel.deep_view(),
                },
                stamp.now,
            )
            &&& holds(
                after.transactions[place],
                result->Ok_0->Write_result.transaction.deep_view(),
            )
            &&& after.transactions.len() == before.transactions.len()
            &&& forall|i: int|
                0 <= i < before.transactions.len() && i != place ==> after.transactions[i]
                    == #[trigger] before.transactions[i]
            &&& after.pending_expenses == before.pending_expenses
            &&& after.categories == before.categories
            &&& request_added(before.requests, after.requests, request_id.deep_view())
        },
{
    if !result->Ok_0->Write_result.replayed {
        law_edits_change_what_they_name(
            before,
            id@,
            patch.deep_view(),
            request_id.deep_view(),
            stamp.now,
        )
    } else {
        0
    }
}

/// Whether a transaction is the one of an id or a refund of it that is in force.
pub open spec fn goes_with(row: TransactionRow<Text>, id: Text) -> bool {
    row.id == id || (row.original_id == Some(id) && !row.voided)
}

/// The ids of the refunds of an expense that are in force, in ascending order, are among what an
/// accepted voiding affects, and nothing else but the transaction itself.
pub open spec fn names_what_goes_with(
    affected: Seq<Text>,
    rows: Seq<TransactionRow<Text>>,
    id: Text,
) -> bool {
    &&& affected.len() > 0
    &&& affected[0] == id
    &&& forall|k: int|
        0 <= k < affected.len() ==> exists|i: int|
            0 <= i < rows.len() && (#[trigger] rows[i]).id == #[trigger] affected[k] && goes_with(
                rows[i],
                id,
            )
    &&& forall|i: int|
        0 <= i < rows.len() && goes_with(#[trigger] rows[i], id) ==> affected.contains(rows[i].id)
    &&& forall|j: int, k: int|
        0 < j < k < affected.len() ==> !text::before(#[trigger] affected[k], #[trigger] affected[j])
}

/// An accepted voiding that is no replay takes the transaction and its refunds out of force, names
/// each of them, logs each of them, and leaves everything else as it was.
pub proof fn law_voiding_takes_out_of_force(
    before: Ledger,
    id: Text,
    cascade_refunds: bool,
    request_id: Option<Text>,
    now: Text,
)
    requires
        ledger::sound(before),
        store::voided(before, id, cascade_refunds, request_id, now).1 is Ok,
        !store::voided(before, id, cascade_refunds, request_id, now).1->Ok_0.replayed,
    ensures
        ({
            let (after, outcome) = store::voided(before, id, cascade_refunds, request_id, now);
            let affected = outcome->Ok_0.affected_ids;
            let record = outcome->Ok_0.transaction;
            &&& after.transactions.len() == before.transactions.len()
            &&& forall|i: int|
                0 <= i < before.transactions.len() ==> (#[trigger] after.transactions[i]) == if goes_with(
                    before.transactions[i],
                    id,
                ) {
                    TransactionRow { voided: true, updated_at: now, ..before.transactions[i] }
                } else {
                    before.transactions[i]
                }
            &&& record.id == id
            &&& record.voided
            &&& exists|i: int|
                0 <= i < after.transactions.len() && holds(#[trigger] after.transactions[i], record)
            &&& names_what_goes_with(affected, before.transactions, id)
            &&& after.audit_log.len() == before.audit_log.len() + affected.len()
            &&& forall|i: int|
                0 <= i < before.audit_log.len() ==> after.audit_log[i]
                    == #[trigger] before.audit_log[i]
            &&& forall|k: int|
                0 <= k < affected.len() ==> {
                    let entry = #[trigger] after.audit_log[before.audit_log.len() + k];
                    &&& entry.action == "void"@
                    &&& entry.transaction_id == if k == affected.len() - 1 {
                        id
                    } else {
                        affected[k + 1]
                    }
                    &&& entry.before is Some && !entry.before->0.voided
                    &&& entry.before->0.id == entry.transaction_id
                    &&& entry.after.voided && entry.after.id == entry.transaction_id
                    &&& entry.created_at == now
                }
            &&& after.categories == before.categories
            &&& after.pending_expenses == before.pending_expenses
            &&& after.pending_audit_log == before.pending_audit_log
            &&& request_added(before.requests, after.requests, request_id)
        }),
{
    broadcast use vstd::seq_lib::group_to_multiset_ensures;

    let (after, outcome) = store::voided(before, id, cascade_refunds, request_id, now);
    let affected = outcome->Ok_0.affected_ids;
    let rows = before.transactions;
    let ids = ledger::ids(rows);
    text::lemma_position(ids, id);
    let place = text::position(ids, id)->0;
    assert(rows[place].id == id);
    assert(ledger::transaction_is_sound(before, rows[place]));
    let (found, refunds) = store::void_plan(before, id, cascade_refunds)->Ok_0;
    let wanted = store::active_refund_of(id);
    let chosen = rows.filter(wanted);
    let ordered = store::active_refunds(rows, id);
    order::law_sorting_orders_all_records::<TransactionRow, store::ById>(chosen);
    soundness::lemma_records(before, ordered);
    assert(affected.len() == refunds.len() + 1);
    assert forall|k: int| 0 <= k < refunds.len() implies affected[k + 1] == ordered[k].id
        && wanted(#[trigger] ordered[k]) && rows.contains(ordered[k]) && !refunds[k].voided
        && refunds[k].id == ordered[k].id by {
        assert(ledger::record_of(before, ordered[k]) == Some(refunds[k]));
        assert(affected[k + 1] == refunds[k].id);
        assert(ordered.contains(ordered[k]));
        assert(ordered.to_multiset().count(ordered[k]) > 0);
        assert(chosen.contains(ordered[k]));
        rows.lemma_filter_contains_rev(wanted, ordered[k]);
        let m = choose|m: int| 0 <= m < chosen.len() && chosen[m] == ordered[k];
        rows.lemma_filter_pred(wanted, m);
    }
    assert forall|k: int| 0 <= k < affected.len() implies exists|i: int|
        0 <= i < rows.len() && (#[trigger] rows[i]).id == #[trigger] affected[k] && goes_with(
            rows[i],
            id,
        ) by {
        if k == 0 {
            assert(rows[place].id == affected[0] && goes_with(rows[place], id));
        } else {
            assert(wanted(ordered[k - 1]) && rows.contains(ordered[k - 1]));
            let i = choose|i: int| 0 <= i < rows.len() && rows[i] == ordered[k - 1];
            assert(rows[i].id == affected[k] && goes_with(rows[i], id));
        }
    }
    assert forall|i: int| 0 <= i < rows.len() && goes_with(#[trigger] rows[i], id) implies
        affected.contains(rows[i].id) by {
        if rows[i].id == id {
            assert(affected[0] == id);
        } else {
            rows.lemma_filter_contains(wanted, i);
            assert(chosen.contains(rows[i]));
            assert(chosen.to_multiset().count(rows[i]) > 0);
            assert(ordered.contains(rows[i]));
            let k = choose|k: int| 0 <= k < ordered.len() && ordered[k] == rows[i];
            assert(wanted(ordered[k]));
            assert(affected[k + 1] == rows[i].id);
        }
    }
    assert forall|j: int, k: int| 0 < j < k < affected.len() implies !text::before(
        #[trigger] affected[k],
        #[trigger] affected[j],
    ) by {
        assert(wanted(ordered[j - 1]) && wanted(ordered[k - 1]));
        assert(!order::key_before(
            <store::ById as order::Order<TransactionRow>>::key(ordered[k - 1]),
            <store::ById as order::Order<TransactionRow>>::key(ordered[j - 1]),
        ));
    }
    let all = refunds.push(found);
    assert forall|k: int| 0 <= k < affected.len() implies {
        let entry = #[trigger] after.audit_log[before.audit_log.len() + k];
        &&& entry.action == "void"@
        &&& entry.transaction_id == if k == affected.len() - 1 {
            id
        } else {
            affected[k + 1]
        }
        &&& entry.before is Some && !entry.before->0.voided
        &&& entry.before->0.id == entry.transaction_id
        &&& entry.after.voided && entry.after.id == entry.transaction_id
        &&& entry.created_at == now
    } by {
        assert(after.audit_log[before.audit_log.len() + k] == store::void_entries(all, now)[k]);
        if k < refunds.len() {
            assert(wanted(ordered[k]));
            assert(all[k] == refunds[k]);
        } else {
            assert(all[k] == found);
        }
    }
    assert(holds(after.transactions[place], outcome->Ok_0.transaction));
}

/// A transaction in force is voided exactly where it has no refunds in force, or where voiding
/// them with it was asked for.
pub proof fn law_voidings_are_accepted(
    before: Ledger,
    place: int,
    cascade_refunds: bool,
    request_id: Option<Text>,
    now: Text,
)
    requires
        ledger::sound(before),
        0 <= place < before.transactions.len(),
        is_new_request(before, request_id),
    ensures
        ({
            let row = before.transactions[place];
            let outcome = store::voided(before, row.id, cascade_refunds, request_id, now).1;
            &&& outcome is Ok <==> {
                &&& !row.voided
                &&& cascade_refunds || forall|i: int|
                    0 <= i < before.transactions.len() && (
                    #[trigger] before.transactions[i]).original_id == Some(row.id)
                        ==> before.transactions[i].voided
            }
            &&& outcome is Ok ==> !outcome->Ok_0.replayed
        }),
{
    broadcast use vstd::seq_lib::group_to_multiset_ensures;

    let rows = before.transactions;
    let row = rows[place];
    let id = row.id;
    lemma_found(before, id);
    lemma_new_request(before, request_id);
    accounting::law_every_transaction_has_a_category(before);
    assert(ledger::category_of(before, before.transactions[place]) is Some);
    let wanted = store::active_refund_of(id);
    let chosen = rows.filter(wanted);
    let ordered = store::active_refunds(rows, id);
    order::law_sorting_orders_all_records::<TransactionRow, store::ById>(chosen);
    if chosen.len() > 0 {
        rows.lemma_filter_pred(wanted, 0);
        assert(chosen.contains(chosen[0]));
        rows.lemma_filter_contains_rev(wanted, chosen[0]);
        let i = choose|i: int| 0 <= i < rows.len() && rows[i] == chosen[0];
        assert(before.transactions[i].original_id == Some(id) && !before.transactions[i].voided);
    } else {
        assert forall|i: int|
            0 <= i < before.transactions.len() && (#[trigger] before.transactions[i]).original_id
                == Some(id) implies before.transactions[i].voided by {
            if !rows[i].voided {
                rows.lemma_filter_contains(wanted, i);
            }
        }
    }
    assert forall|k: int| 0 <= k < ordered.len() implies ledger::record_of(
        before,
        #[trigger] ordered[k],
    ) is Some by {
        assert(ordered.contains(ordered[k]));
        assert(ordered.to_multiset().count(ordered[k]) > 0);
        assert(chosen.contains(ordered[k]));
        rows.lemma_filter_contains_rev(wanted, ordered[k]);
        let i = choose|i: int| 0 <= i < rows.len() && rows[i] == ordered[k];
        assert(ledger::category_of(before, before.transactions[i]) is Some);
    }
    accounting::lemma_records_exist(before, ordered);
}

/// A command to void does what was asked for, with the refunds only where that was asked for.
pub proof fn law_void_commands_do_what_they_say(
    before: Ledger,
    id: String,
    cascade_refunds: bool,
    request_id: Option<String>,
    today: Text,
    stamp: Stamp<Text>,
    after: Ledger,
    result: Result<Output>,
)
    requires
        ledger::sound(before),
        command::executed(
            before,
            Command::Void { id, cascade_refunds, request_id },
            today,
            stamp,
            after,
            result,
        ),
    ensures
        result is Ok ==> result->Ok_0 is Write,
        result is Ok && !result->Ok_0->Write_result.replayed ==> {
            let answer = result->Ok_0->Write_result;
            &&& after.transactions.len() == before.transactions.len()
            &&& forall|i: int|
                0 <= i < before.transactions.len() ==> (#[trigger] after.transactions[i]) == if goes_with(
                    before.transactions[i],
                    id@,
                ) {
                    TransactionRow { voided: true, updated_at: stamp.now, ..before.transactions[i] }
                } else {
                    before.transactions[i]
                }
            &&& answer.transaction.deep_view().id == id@
            &&& answer.transaction.deep_view().voided
            &&& names_what_goes_with(answer.affected_ids.deep_view(), before.transactions, id@)
            &&& after.pending_expenses == before.pending_expenses
            &&& request_added(before.requests, after.requests, request_id.deep_view())
        },
        forall|i: int|
            #![trigger before.transactions[i]]
            0 <= i < before.transactions.len() && before.transactions[i].id == id@
                && is_new_request(before, request_id.deep_view()) ==> (result is Ok <==> {
                &&& !before.transactions[i].voided
                &&& cascade_refunds || forall|j: int|
                    0 <= j < before.transactions.len() && (
                    #[trigger] before.transactions[j]).original_id == Some(id@)
                        ==> before.transactions[j].voided
            }),
{
    if result is Ok && !result->Ok_0->Write_result.replayed {
        law_voiding_takes_out_of_force(
            before,
            id@,
            cascade_refunds,
            request_id.deep_view(),
            stamp.now,
        );
    }
    assert forall|i: int|
        #![trigger before.transactions[i]]
        0 <= i < before.transactions.len() && before.transactions[i].id == id@ && is_new_request(
            before,
            request_id.deep_view(),
        ) implies (result is Ok <==> {
        &&& !before.transactions[i].voided
        &&& cascade_refunds || forall|j: int|
            0 <= j < before.transactions.len() && (#[trigger] before.transactions[j]).original_id
                == Some(id@) ==> before.transactions[j].voided
    }) by {
        law_voidings_are_accepted(
            before,
            i,
            cascade_refunds,
            request_id.deep_view(),
            stamp.now,
        );
    }
}

/// Whether the entry of a log with a number, counted from one, is about a transaction.
pub open spec fn is_about(log: Seq<AuditEntry<Text>>, number: int, id: Text) -> bool {
    1 <= number <= log.len() && log[number - 1].transaction_id == id
}

/// Whether a record of a history tells what the entry of the log with its number says.
pub open spec fn tells(record: AuditRecord<Text>, log: Seq<AuditEntry<Text>>) -> bool {
    &&& 1 <= record.id <= log.len()
    &&& record.transaction_id == log[record.id - 1].transaction_id
    &&& record.action == log[record.id - 1].action
    &&& record.before == log[record.id - 1].before
    &&& record.after == log[record.id - 1].after
    &&& record.created_at == log[record.id - 1].created_at
}

/// Whether a history holds every entry of a log that is about a transaction, each with its number,
/// in the order of the log, and nothing else.
pub open spec fn is_whole_history(
    history: Seq<AuditRecord<Text>>,
    log: Seq<AuditEntry<Text>>,
    id: Text,
) -> bool {
    &&& forall|k: int|
        0 <= k < history.len() ==> tells(#[trigger] history[k], log) && history[k].transaction_id
            == id
    &&& forall|j: int, k: int|
        0 <= j < k < history.len() ==> (#[trigger] history[j]).id < (#[trigger] history[k]).id
    &&& forall|number: int|
        #[trigger] is_about(log, number, id) ==> exists|k: int|
            0 <= k < history.len() && (#[trigger] history[k]).id == number
}

/// The history of a transaction holds every entry of the log that is about it, each with its
/// number, in the order of the log, and nothing else.
pub proof fn law_histories_are_complete(log: Seq<AuditEntry<Text>>, id: Text)
    requires
        log.len() <= u64::MAX,
    ensures
        is_whole_history(query::history_of(log, id), log, id),
    decreases log.len(),
{
    if log.len() > 0 {
        let front = log.drop_last();
        law_histories_are_complete(front, id);
        let earlier = query::history_of(front, id);
        let history = query::history_of(log, id);
        assert forall|k: int| 0 <= k < history.len() implies tells(#[trigger] history[k], log)
            && history[k].transaction_id == id by {
            if k < earlier.len() {
                assert(history[k] == earlier[k]);
                assert(tells(earlier[k], front));
                assert(front[earlier[k].id - 1] == log[earlier[k].id - 1]);
            }
        }
        assert forall|j: int, k: int| 0 <= j < k < history.len() implies (
        #[trigger] history[j]).id < (#[trigger] history[k]).id by {
            assert(history[j] == earlier[j]);
            assert(tells(earlier[j], front));
            if k < earlier.len() {
                assert(history[k] == earlier[k]);
            }
        }
        assert forall|number: int| #[trigger] is_about(log, number, id) implies exists|k: int|
            0 <= k < history.len() && (#[trigger] history[k]).id == number by {
            if number <= front.len() {
                assert(front[number - 1] == log[number - 1]);
                assert(is_about(front, number, id));
                let k = choose|k: int|
                    0 <= k < earlier.len() && (#[trigger] earlier[k]).id == number;
                assert(history[k] == earlier[k]);
            } else {
                assert(history[history.len() - 1].id == number);
            }
        }
    }
}

/// The command for a history answers with the whole of it where the transaction exists, and
/// changes nothing.
pub proof fn law_history_commands_are_complete(
    before: Ledger,
    id: String,
    today: Text,
    stamp: Stamp<Text>,
    after: Ledger,
    result: Result<Output>,
)
    requires
        ledger::sound(before),
        before.audit_log.len() <= u64::MAX,
        command::executed(before, Command::History { id }, today, stamp, after, result),
    ensures
        after == before,
        result is Ok <==> !is_free(before, id@),
        result is Ok ==> result->Ok_0 is History && is_whole_history(
            result->Ok_0->History_records.deep_view(),
            before.audit_log,
            id@,
        ),
{
    lemma_found(before, id@);
    lemma_fetched(before, id@);
    law_histories_are_complete(before.audit_log, id@);
}

/// A transaction that exists is reported, and no other.
pub(crate) proof fn lemma_fetched(ledger: Ledger, id: Text)
    requires
        ledger::sound(ledger),
    ensures
        ledger::fetched(ledger, id) is Ok <==> ledger::transaction(ledger, id) is Some,
{
    accounting::law_every_transaction_has_a_category(ledger);
    text::lemma_position(ledger::ids(ledger.transactions), id);
}

/// A category is created exactly where its name is not empty, neither begins nor ends with white
/// space, and is not that of a category of the other kind; there is then exactly one of that name
/// and kind, and all others are as they were.
pub proof fn law_categories_are_created(before: Ledger, name: Text, kind: Kind)
    requires
        ledger::sound(before),
    ensures
        ({
            let (after, outcome) = query::category_added(before, name, kind);
            &&& outcome is Ok <==> {
                &&& name.len() > 0
                &&& !text::is_white_space(name[0])
                &&& !text::is_white_space(name[name.len() - 1])
                &&& kind != Kind::Refund
                &&& forall|i: int|
                    0 <= i < before.categories.len() && (#[trigger] before.categories[i]).name
                        == name ==> before.categories[i].kind == kind
            }
            &&& outcome is Ok ==> outcome->Ok_0 == (Category { name, kind }) && has_category(
                after,
                name,
                kind,
            )
            &&& before.categories.len() <= after.categories.len() <= before.categories.len() + 1
            &&& forall|i: int|
                0 <= i < before.categories.len() ==> after.categories[i]
                    == #[trigger] before.categories[i]
            &&& after.transactions == before.transactions
            &&& after.pending_expenses == before.pending_expenses
        }),
{
    let (after, outcome) = query::category_added(before, name, kind);
    let names = ledger::names(before.categories);
    text::lemma_position(names, name);
    if let Some(i) = text::position(names, name) {
        assert(before.categories[i].name == name);
        assert forall|j: int|
            0 <= j < before.categories.len() && (#[trigger] before.categories[j]).name
                == name implies j == i by {
            assert(names[j] == name);
        }
        if outcome is Ok {
            assert(after.categories[i].name == name && after.categories[i].kind == kind);
        }
    } else {
        assert forall|j: int| 0 <= j < before.categories.len() implies (
        #[trigger] before.categories[j]).name != name by {
            assert(names[j] == before.categories[j].name);
        }
        if outcome is Ok {
            assert(after.categories.last() == (Category { name, kind }));
            assert(after.categories[after.categories.len() - 1].name == name);
        }
    }
}

/// The commands on categories: one creates what it names, the other lists all of them, those of
/// expenses first and each kind by name.
pub proof fn law_category_commands_do_what_they_say(
    before: Ledger,
    command: CategoryCommand,
    today: Text,
    stamp: Stamp<Text>,
    after: Ledger,
    result: Result<Output>,
)
    requires
        ledger::sound(before),
        command::executed(before, Command::Category { command }, today, stamp, after, result),
    ensures
        match command {
            CategoryCommand::Add { name, kind } => {
                &&& result is Ok ==> result->Ok_0 is Category && has_category(after, name@, kind)
                &&& result is Ok ==> result->Ok_0->Category_category.deep_view() == (Category {
                    name: name@,
                    kind,
                })
                &&& result is Ok <==> {
                    &&& name@.len() > 0
                    &&& !text::is_white_space(name@[0])
                    &&& !text::is_white_space(name@[name@.len() - 1])
                    &&& kind != Kind::Refund
                    &&& forall|i: int|
                        0 <= i < before.categories.len() && (#[trigger] before.categories[i]).name
                            == name@ ==> before.categories[i].kind == kind
                }
            },
            CategoryCommand::List => {
                &&& after == before
                &&& result is Ok
                &&& result->Ok_0 is Categories
                &&& ({
                    let listed = result->Ok_0->Categories_categories.deep_view();
                    &&& listed.to_multiset() == before.categories.to_multiset()
                    &&& forall|i: int, j: int|
                        0 <= i < j < listed.len() ==> {
                            ||| (#[trigger] listed[i]).kind == Kind::Expense && (
                            #[trigger] listed[j]).kind == Kind::Income
                            ||| listed[i].kind == listed[j].kind && !text::before(
                                listed[j].name,
                                listed[i].name,
                            )
                        }
                })
            },
        },
{
    match command {
        CategoryCommand::Add { name, kind } => {
            law_categories_are_created(before, name@, kind);
        },
        CategoryCommand::List => {
            broadcast use vstd::seq_lib::group_to_multiset_ensures;

            let all = before.categories;
            let listed = result->Ok_0->Categories_categories.deep_view();
            order::law_sorting_orders_all_records::<Category, query::ByKind>(all);
            reveal_strlit("expense");
            reveal_strlit("income");
            assert("expense"@[0] == 'e' && "income"@[0] == 'i');
            text::lemma_before_at("expense"@, "income"@, 0);
            text::lemma_before_asymmetric("expense"@, "income"@);
            text::lemma_before_irreflexive("expense"@);
            text::lemma_before_irreflexive("income"@);
            assert forall|i: int| 0 <= i < listed.len() implies (#[trigger] listed[i]).kind
                != Kind::Refund by {
                assert(listed.contains(listed[i]));
                assert(listed.to_multiset().count(listed[i]) > 0);
                assert(all.contains(listed[i]));
                let k = choose|k: int| 0 <= k < all.len() && all[k] == listed[i];
                assert(before.categories[k].kind != Kind::Refund);
            }
            assert forall|i: int, j: int| 0 <= i < j < listed.len() implies {
                ||| (#[trigger] listed[i]).kind == Kind::Expense && (#[trigger] listed[j]).kind
                    == Kind::Income
                ||| listed[i].kind == listed[j].kind && !text::before(
                    listed[j].name,
                    listed[i].name,
                )
            } by {
                assert(!order::key_before(
                    <query::ByKind as order::Order<Category>>::key(listed[j]),
                    <query::ByKind as order::Order<Category>>::key(listed[i]),
                ));
            }
        },
    }
}

/// A request id that has served to record one transaction is refused for another: for one that
/// differs in its kind, amount, date, time, category, note, channel or original.
pub proof fn law_different_records_conflict(
    before: Ledger,
    first: NewTransaction<Text>,
    second: NewTransaction<Text>,
    request_id: Text,
    stamp: Stamp<Text>,
    later_stamp: Stamp<Text>,
)
    requires
        store::added(before, first, Some(request_id), stamp).1 is Ok,
        !store::added(before, first, Some(request_id), stamp).1->Ok_0.replayed,
        is_new_request(before, Some(request_id)),
        first.kind != second.kind || first.amount != second.amount || first.date != second.date
            || kept_optional_time(first.occurred_at) != kept_optional_time(second.occurred_at)
            || first.category != second.category || first.note != second.note || first.channel
            != second.channel || first.original_id != second.original_id,
    ensures
        ({
            let after = store::added(before, first, Some(request_id), stamp).0;
            let repeated = store::added(after, second, Some(request_id), later_stamp);
            repeated.0 == after && repeated.1 is Err
        }),
{
    let after = store::added(before, first, Some(request_id), stamp).0;
    lemma_agree(first.date, first.occurred_at);
    lemma_agree(second.date, second.occurred_at);
    let ids = ledger::request_ids(before.requests);
    lemma_new_request(before, Some(request_id));
    text::lemma_position(ids, request_id);
    if text::position(ids, request_id) is Some {
        assert(before.requests[text::position(ids, request_id)->0].request_id == request_id);
    }
    text::lemma_position_push(ids, request_id, request_id);
    assert(ledger::request_ids(after.requests) =~= ids.push(request_id));
}

/// A request id that has served for one edit is refused for another: of another transaction, or
/// with another patch.
pub proof fn law_different_edits_conflict(
    before: Ledger,
    id: Text,
    first: UpdateTransaction<Text>,
    other_id: Text,
    second: UpdateTransaction<Text>,
    request_id: Text,
    now: Text,
    later: Text,
)
    requires
        store::updated(before, id, first, Some(request_id), now).1 is Ok,
        is_new_request(before, Some(request_id)),
        id != other_id || first.amount != second.amount || first.date != second.date
            || kept_optional_time(first.occurred_at) != kept_optional_time(second.occurred_at)
            || first.clear_occurred_at != second.clear_occurred_at || first.category
            != second.category || first.note != second.note || first.channel != second.channel,
    ensures
        ({
            let after = store::updated(before, id, first, Some(request_id), now).0;
            let repeated = store::updated(after, other_id, second, Some(request_id), later);
            repeated.0 == after && repeated.1 is Err
        }),
{
    let after = store::updated(before, id, first, Some(request_id), now).0;
    lemma_patched_time(first);
    lemma_patched_time(second);
    let ids = ledger::request_ids(before.requests);
    lemma_new_request(before, Some(request_id));
    text::lemma_position(ids, request_id);
    if text::position(ids, request_id) is Some {
        assert(before.requests[text::position(ids, request_id)->0].request_id == request_id);
    }
    text::lemma_position_push(ids, request_id, request_id);
    assert(ledger::request_ids(after.requests) =~= ids.push(request_id));
}

/// The time of a patch is kept as it was given.
proof fn lemma_patched_time(patch: UpdateTransaction<Text>)
    ensures
        store::patched_time(patch) is Ok ==> store::patched_time(patch)->Ok_0
            == kept_optional_time(patch.occurred_at),
{
    if patch.date is Some {
        lemma_agree(patch.date->0, patch.occurred_at);
    }
    if let Some(time) = patch.occurred_at {
        if occurrence::normalized(time) is Ok {
            law_times_are_kept(time);
        }
    }
}

/// A request id that has served to void one transaction is refused for another, and for the other
/// way to treat its refunds.
pub proof fn law_different_voidings_conflict(
    before: Ledger,
    id: Text,
    cascade_refunds: bool,
    other_id: Text,
    other_cascade: bool,
    request_id: Text,
    now: Text,
    later: Text,
)
    requires
        store::voided(before, id, cascade_refunds, Some(request_id), now).1 is Ok,
        is_new_request(before, Some(request_id)),
        id != other_id || cascade_refunds != other_cascade,
    ensures
        ({
            let after = store::voided(before, id, cascade_refunds, Some(request_id), now).0;
            let repeated = store::voided(after, other_id, other_cascade, Some(request_id), later);
            repeated.0 == after && repeated.1 is Err
        }),
{
    let after = store::voided(before, id, cascade_refunds, Some(request_id), now).0;
    let ids = ledger::request_ids(before.requests);
    lemma_new_request(before, Some(request_id));
    text::lemma_position(ids, request_id);
    if text::position(ids, request_id) is Some {
        assert(before.requests[text::position(ids, request_id)->0].request_id == request_id);
    }
    text::lemma_position_push(ids, request_id, request_id);
    assert(ledger::request_ids(after.requests) =~= ids.push(request_id));
}

} // verus!
