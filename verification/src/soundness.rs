//! Every change keeps a sound ledger sound.
use vstd::prelude::*;

use crate::calendar;
use crate::error::ErrorView;
use crate::foreign;
use crate::ledger;
use crate::ledger::{Ledger, Operation, Reply, ReplyView, RequestRow, Stamp};
use crate::models::{
    ConfirmPendingExpense, Kind, NewPendingExpense, NewTransaction, PendingStatus,
    TransactionRow, UpdateTransaction, WriteResult,
};
use crate::occurrence;
use crate::order;
use crate::pending;
use crate::store;
use crate::store::ById;
use crate::text;
use crate::text::Text;

verus! {

/// Keeping a request that was not made before keeps the table of requests sound.
pub proof fn lemma_request_kept(
    before: Ledger,
    request_id: Option<Text>,
    operation: Operation<Text>,
    reply: ReplyView,
    now: Text,
)
    requires
        ledger::earlier_reply(before, request_id, operation) == Ok::<Option<ReplyView>, ErrorView>(
            None,
        ),
        ledger::request_ids(before.requests).no_duplicates(),
        forall|i: int|
            0 <= i < before.requests.len() ==> ledger::reply_fits(#[trigger] before.requests[i]),
        ledger::reply_fits(
            RequestRow { request_id: Seq::empty(), operation, reply, created_at: now },
        ),
    ensures
        ({
            let requests = ledger::with_request(before.requests, request_id, operation, reply, now);
            &&& ledger::request_ids(requests).no_duplicates()
            &&& forall|i: int|
                0 <= i < requests.len() ==> ledger::reply_fits(#[trigger] requests[i])
        }),
{
    if let Some(id) = request_id {
        let ids = ledger::request_ids(before.requests);
        text::lemma_position(ids, id);
        let requests = ledger::with_request(before.requests, request_id, operation, reply, now);
        assert(ledger::request_ids(requests) =~= ids.push(id));
    }
}

/// The rest of a sound ledger stays sound where transactions are added or changed but none is
/// removed, voided or given another kind.
proof fn lemma_others_stay_sound(before: Ledger, after: Ledger)
    requires
        ledger::sound(before),
        ledger::extends(after, before),
        after.categories == before.categories,
        after.pending_expenses == before.pending_expenses,
        after.pending_audit_log == before.pending_audit_log,
    ensures
        forall|i: int|
            0 <= i < after.pending_expenses.len() ==> ledger::pending_is_sound(
                after,
                #[trigger] after.pending_expenses[i],
            ),
        forall|i: int|
            0 <= i < before.audit_log.len() ==> ledger::transaction(
                after,
                (#[trigger] before.audit_log[i]).transaction_id,
            ) is Some,
{
    ledger::lemma_extends(after, before);
    ledger::lemma_rows_stay_sound(after, before);
}

/// A ledger stays sound when a transaction is recorded.
pub proof fn law_recording_keeps_soundness(
    before: Ledger,
    input: NewTransaction<Text>,
    request_id: Option<Text>,
    stamp: Stamp<Text>,
)
    requires
        ledger::sound(before),
    ensures
        ledger::sound(store::added(before, input, request_id, stamp).0),
{
    let (after, outcome) = store::added(before, input, request_id, stamp);
    if after != before {
        let checked = store::checked_new(input, request_id)->Ok_0;
        occurrence::law_local_dates_are_dates(input.date, input.occurred_at);
        let (own, category) = store::chosen_category(before, checked)->Ok_0;
        let row = store::new_row(checked, own, stamp);
        let record = ledger::report(row, category);
        let result = WriteResult {
            transaction: record,
            replayed: false,
            affected_ids: seq![row.id],
        };
        lemma_request_kept(
            before,
            request_id,
            Operation::Add { input: checked },
            Reply::Write { result },
            stamp.now,
        );
        let old_ids = ledger::ids(before.transactions);
        text::lemma_position(old_ids, row.id);
        assert(ledger::ids(after.transactions) =~= old_ids.push(row.id));
        text::lemma_position_push(old_ids, row.id, row.id);
        assert(ledger::extends(after, before));
        ledger::lemma_extends(after, before);
        ledger::lemma_rows_stay_sound(after, before);
        lemma_others_stay_sound(before, after);
        assert(ledger::transaction_is_sound(after, row));
        assert forall|i: int|
            0 <= i < after.transactions.len() implies ledger::transaction_is_sound(
            after,
            #[trigger] after.transactions[i],
        ) by {
            if i < before.transactions.len() {
                assert(after.transactions[i] == before.transactions[i]);
            }
        }
        assert forall|i: int| 0 <= i < after.audit_log.len() implies ledger::transaction(
            after,
            (#[trigger] after.audit_log[i]).transaction_id,
        ) is Some by {
            if i < before.audit_log.len() {
                assert(after.audit_log[i] == before.audit_log[i]);
            }
        }
    }
}

/// A ledger stays sound when a transaction is changed.
pub proof fn law_changing_keeps_soundness(
    before: Ledger,
    id: Text,
    patch: UpdateTransaction<Text>,
    request_id: Option<Text>,
    now: Text,
)
    requires
        ledger::sound(before),
    ensures
        ledger::sound(store::updated(before, id, patch, request_id, now).0),
{
    let (after, outcome) = store::updated(before, id, patch, request_id, now);
    if after != before {
        let checked = store::checked_patch(patch, request_id)->Ok_0;
        let operation = Operation::Update { id, patch: checked };
        let found = ledger::fetched(before, id)->Ok_0;
        let (row, category) = store::patched_row(before, found, checked, now)->Ok_0;
        let result = outcome->Ok_0;
        lemma_request_kept(before, request_id, operation, Reply::Write { result }, now);
        let old_ids = ledger::ids(before.transactions);
        text::lemma_position(old_ids, id);
        let place = text::position(old_ids, id)->0;
        let old_row = before.transactions[place];
        assert(ledger::transaction_is_sound(before, old_row));
        assert(ledger::ids(after.transactions) =~= old_ids);
        assert(ledger::extends(after, before));
        ledger::lemma_extends(after, before);
        ledger::lemma_rows_stay_sound(after, before);
        lemma_others_stay_sound(before, after);
        if let Some(time) = patch.occurred_at {
            occurrence::law_normalizing_is_idempotent(time);
            occurrence::law_normalizing_keeps_the_local_time(time);
        }
        assert(ledger::occurrence_is_sound(row.date, row.occurred_at));
        assert(ledger::transaction_is_sound(before, row));
        assert forall|i: int|
            0 <= i < after.transactions.len() implies ledger::transaction_is_sound(
            after,
            #[trigger] after.transactions[i],
        ) by {
            if i != place {
                assert(after.transactions[i] == before.transactions[i]);
            }
        }
        assert forall|i: int| 0 <= i < after.audit_log.len() implies ledger::transaction(
            after,
            (#[trigger] after.audit_log[i]).transaction_id,
        ) is Some by {
            if i < before.audit_log.len() {
                assert(after.audit_log[i] == before.audit_log[i]);
            }
        }
    }
}

/// The reported transactions are those of the rows, in the same order.
pub proof fn lemma_records(ledger: Ledger, rows: Seq<TransactionRow<Text>>)
    ensures
        ledger::records_of(ledger, rows) matches Some(records) ==> {
            &&& records.len() == rows.len()
            &&& forall|i: int|
                0 <= i < rows.len() ==> ledger::record_of(ledger, rows[i]) == Some(
                    #[trigger] records[i],
                )
        },
    decreases rows.len(),
{
    if rows.len() > 0 {
        lemma_records(ledger, rows.drop_last());
        if let Some(records) = ledger::records_of(ledger, rows) {
            assert forall|i: int| 0 <= i < rows.len() implies ledger::record_of(ledger, rows[i])
                == Some(#[trigger] records[i]) by {
                if i < rows.len() - 1 {
                    assert(rows.drop_last()[i] == rows[i]);
                }
            }
        }
    }
}

/// Every active refund of an expense is a row of the ledger.
proof fn lemma_active_refunds(rows: Seq<TransactionRow<Text>>, id: Text)
    ensures
        forall|i: int|
            0 <= i < store::active_refunds(rows, id).len() ==> rows.contains(
                #[trigger] store::active_refunds(rows, id)[i],
            ),
{
    broadcast use vstd::seq_lib::group_to_multiset_ensures;

    let chosen = rows.filter(store::active_refund_of(id));
    let refunds = store::active_refunds(rows, id);
    order::law_sorting_orders_all_records::<TransactionRow, ById>(chosen);
    assert forall|i: int| 0 <= i < refunds.len() implies rows.contains(#[trigger] refunds[i]) by {
        assert(refunds.contains(refunds[i]));
        assert(refunds.to_multiset().count(refunds[i]) > 0);
        assert(chosen.contains(refunds[i]));
        rows.lemma_filter_contains_rev(store::active_refund_of(id), refunds[i]);
    }
}

/// A ledger stays sound when a transaction is voided.
pub proof fn law_voiding_keeps_soundness(
    before: Ledger,
    id: Text,
    cascade_refunds: bool,
    request_id: Option<Text>,
    now: Text,
)
    requires
        ledger::sound(before),
    ensures
        ledger::sound(store::voided(before, id, cascade_refunds, request_id, now).0),
{
    let (after, outcome) = store::voided(before, id, cascade_refunds, request_id, now);
    if after != before {
        let operation = Operation::Void { id, cascade_refunds };
        let result = outcome->Ok_0;
        lemma_request_kept(before, request_id, operation, Reply::Write { result }, now);
        let ids = ledger::ids(before.transactions);
        assert(ledger::ids(after.transactions) =~= ids);
        assert forall|other: Text| #[trigger] ledger::transaction(after, other) is Some
            == ledger::transaction(before, other) is Some by {}
        assert forall|other: Text| ledger::transaction(before, other) is Some implies (
        #[trigger] ledger::transaction(after, other))->0 == store::voided_row(
            ledger::transaction(before, other)->0,
            id,
            now,
        ) by {
            text::lemma_position(ids, other);
        }
        assert forall|i: int|
            0 <= i < after.transactions.len() implies ledger::transaction_is_sound(
            after,
            #[trigger] after.transactions[i],
        ) by {
            let row = before.transactions[i];
            assert(ledger::transaction_is_sound(before, row));
            if row.kind == Kind::Refund {
                let original = row.original_id->0;
                text::lemma_position(ids, original);
                let place = text::position(ids, original)->0;
                assert(ledger::transaction_is_sound(before, before.transactions[place]));
            }
        }
        assert forall|i: int| 0 <= i < after.pending_expenses.len() implies ledger::pending_is_sound(
            after,
            #[trigger] after.pending_expenses[i],
        ) by {
            assert(ledger::pending_is_sound(before, before.pending_expenses[i]));
        }
        let (found, refunds) = store::void_plan(before, id, cascade_refunds)->Ok_0;
        let rows = store::active_refunds(before.transactions, id);
        lemma_records(before, rows);
        lemma_active_refunds(before.transactions, id);
        text::lemma_position(ids, id);
        assert forall|i: int| 0 <= i < after.audit_log.len() implies ledger::transaction(
            after,
            (#[trigger] after.audit_log[i]).transaction_id,
        ) is Some by {
            if i < before.audit_log.len() {
                assert(after.audit_log[i] == before.audit_log[i]);
            } else {
                let k = i - before.audit_log.len();
                let all = refunds.push(found);
                assert(after.audit_log[i] == store::void_entries(all, now)[k]);
                if k < refunds.len() {
                    assert(all[k] == refunds[k]);
                    assert(ledger::record_of(before, rows[k]) == Some(refunds[k]));
                    assert(before.transactions.contains(rows[k]));
                    let place = choose|p: int|
                        0 <= p < before.transactions.len() && before.transactions[p] == rows[k];
                    assert(ids[place] == refunds[k].id);
                    text::lemma_position(ids, refunds[k].id);
                }
            }
        }
    }
}

/// A ledger stays sound when a foreign purchase is recorded.
pub proof fn law_recording_purchases_keeps_soundness(
    before: Ledger,
    input: NewPendingExpense<Text>,
    request_id: Option<Text>,
    stamp: Stamp<Text>,
)
    requires
        ledger::sound(before),
    ensures
        ledger::sound(pending::pending_added(before, input, request_id, stamp).0),
{
    let (after, outcome) = pending::pending_added(before, input, request_id, stamp);
    if after != before {
        let (checked, hundredths, remind_on) = pending::checked_new(input, request_id)->Ok_0;
        let row = pending::new_row(checked, hundredths, remind_on, stamp);
        occurrence::law_local_dates_are_dates(input.date, input.occurred_at);
        foreign::law_foreign_amounts_round_trip(input.currency, input.amount);
        calendar::law_later_dates_are_not_before(input.date, 3);
        lemma_request_kept(
            before,
            request_id,
            Operation::PendingAdd { input: checked },
            Reply::Pending { result: outcome->Ok_0 },
            stamp.now,
        );
        let old_ids = ledger::pending_ids(before.pending_expenses);
        text::lemma_position(old_ids, row.id);
        assert(ledger::pending_ids(after.pending_expenses) =~= old_ids.push(row.id));
        text::lemma_position_push(old_ids, row.id, row.id);
        assert(ledger::extends(after, before));
        ledger::lemma_rows_stay_sound(after, before);
        ledger::lemma_extends(after, before);
        assert(ledger::pending_is_sound(after, row));
        assert forall|i: int|
            0 <= i < after.pending_expenses.len() implies ledger::pending_is_sound(
            after,
            #[trigger] after.pending_expenses[i],
        ) by {
            if i < before.pending_expenses.len() {
                assert(after.pending_expenses[i] == before.pending_expenses[i]);
            }
        }
        assert forall|i: int|
            0 <= i < after.transactions.len() implies ledger::transaction_is_sound(
            after,
            #[trigger] after.transactions[i],
        ) by {
            assert(ledger::transaction_is_sound(before, before.transactions[i]));
        }
        assert forall|i: int, j: int|
            0 <= i < j < after.pending_expenses.len() && (
            #[trigger] after.pending_expenses[i]).transaction_id is Some implies
            after.pending_expenses[i].transaction_id != (
        #[trigger] after.pending_expenses[j]).transaction_id by {
            assert(after.pending_expenses[i] == before.pending_expenses[i]);
            if j < before.pending_expenses.len() {
                assert(after.pending_expenses[j] == before.pending_expenses[j]);
            }
        }
        assert forall|i: int| 0 <= i < after.pending_audit_log.len() implies text::position(
            ledger::pending_ids(after.pending_expenses),
            (#[trigger] after.pending_audit_log[i]).pending_id,
        ) is Some by {
            if i < before.pending_audit_log.len() {
                let id = before.pending_audit_log[i].pending_id;
                assert(after.pending_audit_log[i] == before.pending_audit_log[i]);
                text::lemma_position_push(old_ids, row.id, id);
            }
        }
    }
}

/// A ledger stays sound when a foreign purchase is confirmed.
pub proof fn law_confirming_keeps_soundness(
    before: Ledger,
    id: Text,
    input: ConfirmPendingExpense<Text>,
    request_id: Option<Text>,
    stamp: Stamp<Text>,
)
    requires
        ledger::sound(before),
    ensures
        ledger::sound(pending::pending_confirmed(before, id, input, request_id, stamp).0),
{
    let (after, outcome) = pending::pending_confirmed(before, id, input, request_id, stamp);
    if after != before {
        let ids = ledger::pending_ids(before.pending_expenses);
        text::lemma_position(ids, id);
        let place = text::position(ids, id)->0;
        let row = before.pending_expenses[place];
        assert(ledger::pending_is_sound(before, row));
        lemma_request_kept(
            before,
            request_id,
            Operation::PendingConfirm { id, input },
            Reply::Pending { result: outcome->Ok_0 },
            stamp.now,
        );
        if row.status == PendingStatus::Confirmed {
            assert(ledger::extends(after, before));
            lemma_same_rows_stay_sound(before, after);
        } else {
            let found = pending::fetched_pending(before, id)->Ok_0;
            let settling = pending::settling_row(found, input.amount, stamp);
            let changed = pending::confirmed_row(row, input, stamp);
            let old_ids = ledger::ids(before.transactions);
            text::lemma_position(old_ids, settling.id);
            assert(ledger::ids(after.transactions) =~= old_ids.push(settling.id));
            text::lemma_position_push(old_ids, settling.id, settling.id);
            assert(ledger::pending_ids(after.pending_expenses) =~= ids);
            assert(ledger::extends(after, before));
            ledger::lemma_extends(after, before);
            ledger::lemma_rows_stay_sound(after, before);
            assert(ledger::transaction_is_sound(after, settling));
            assert(ledger::pending_is_sound(after, changed));
            assert forall|i: int|
                0 <= i < after.transactions.len() implies ledger::transaction_is_sound(
                after,
                #[trigger] after.transactions[i],
            ) by {
                if i < before.transactions.len() {
                    assert(after.transactions[i] == before.transactions[i]);
                }
            }
            assert forall|i: int|
                0 <= i < after.pending_expenses.len() implies ledger::pending_is_sound(
                after,
                #[trigger] after.pending_expenses[i],
            ) by {
                if i != place {
                    assert(after.pending_expenses[i] == before.pending_expenses[i]);
                }
            }
            // The new expense is linked to nothing yet, since every link leads to an old one.
            assert forall|i: int|
                0 <= i < before.pending_expenses.len() implies (
            #[trigger] before.pending_expenses[i]).transaction_id != Some(settling.id) by {
                assert(ledger::pending_is_sound(before, before.pending_expenses[i]));
            }
            assert forall|i: int, j: int|
                0 <= i < j < after.pending_expenses.len() && (
                #[trigger] after.pending_expenses[i]).transaction_id is Some implies
                after.pending_expenses[i].transaction_id != (
            #[trigger] after.pending_expenses[j]).transaction_id by {
                if i != place {
                    assert(after.pending_expenses[i] == before.pending_expenses[i]);
                }
                if j != place {
                    assert(after.pending_expenses[j] == before.pending_expenses[j]);
                }
            }
            assert forall|i: int| 0 <= i < after.audit_log.len() implies ledger::transaction(
                after,
                (#[trigger] after.audit_log[i]).transaction_id,
            ) is Some by {
                if i < before.audit_log.len() {
                    assert(after.audit_log[i] == before.audit_log[i]);
                }
            }
            assert forall|i: int| 0 <= i < after.pending_audit_log.len() implies text::position(
                ids,
                (#[trigger] after.pending_audit_log[i]).pending_id,
            ) is Some by {
                if i < before.pending_audit_log.len() {
                    assert(after.pending_audit_log[i] == before.pending_audit_log[i]);
                }
            }
        }
    }
}

/// A ledger whose tables are all the same but for sound requests stays sound.
proof fn lemma_same_rows_stay_sound(before: Ledger, after: Ledger)
    requires
        ledger::sound(before),
        after == (Ledger { requests: after.requests, ..before }),
        ledger::request_ids(after.requests).no_duplicates(),
        forall|i: int|
            0 <= i < after.requests.len() ==> ledger::reply_fits(#[trigger] after.requests[i]),
    ensures
        ledger::sound(after),
{
    ledger::lemma_rows_stay_sound(after, before);
    ledger::lemma_extends(after, before);
    assert forall|i: int| 0 <= i < after.transactions.len() implies ledger::transaction_is_sound(
        after,
        #[trigger] after.transactions[i],
    ) by {
        assert(ledger::transaction_is_sound(before, before.transactions[i]));
    }
    assert forall|i: int| 0 <= i < after.pending_expenses.len() implies ledger::pending_is_sound(
        after,
        #[trigger] after.pending_expenses[i],
    ) by {
        assert(ledger::pending_is_sound(before, before.pending_expenses[i]));
    }
}

/// A ledger stays sound when a foreign purchase is put off, or is cancelled where no day is given.
pub proof fn law_changing_purchases_keeps_soundness(
    before: Ledger,
    id: Text,
    until: Option<Text>,
    request_id: Option<Text>,
    now: Text,
)
    requires
        ledger::sound(before),
        until is Some ==> calendar::is_date(until->0),
    ensures
        ledger::sound(pending::pending_changed(before, id, until, request_id, now).0),
{
    let (after, outcome) = pending::pending_changed(before, id, until, request_id, now);
    if after != before {
        let ids = ledger::pending_ids(before.pending_expenses);
        text::lemma_position(ids, id);
        let place = text::position(ids, id)->0;
        let row = before.pending_expenses[place];
        assert(ledger::pending_is_sound(before, row));
        lemma_request_kept(
            before,
            request_id,
            pending::change_operation(id, until),
            Reply::Pending { result: outcome->Ok_0 },
            now,
        );
        if row.status == PendingStatus::Cancelled && until is None {
            lemma_same_rows_stay_sound(before, after);
        } else {
            let changed = pending::changed_row(row, until, now);
            assert(ledger::pending_ids(after.pending_expenses) =~= ids);
            assert(ledger::extends(after, before));
            ledger::lemma_extends(after, before);
            ledger::lemma_rows_stay_sound(after, before);
            assert(ledger::pending_is_sound(after, changed));
            assert forall|i: int|
                0 <= i < after.transactions.len() implies ledger::transaction_is_sound(
                after,
                #[trigger] after.transactions[i],
            ) by {
                assert(ledger::transaction_is_sound(before, before.transactions[i]));
            }
            assert forall|i: int|
                0 <= i < after.pending_expenses.len() implies ledger::pending_is_sound(
                after,
                #[trigger] after.pending_expenses[i],
            ) by {
                if i != place {
                    assert(after.pending_expenses[i] == before.pending_expenses[i]);
                }
            }
            assert forall|i: int, j: int|
                0 <= i < j < after.pending_expenses.len() && (
                #[trigger] after.pending_expenses[i]).transaction_id is Some implies
                after.pending_expenses[i].transaction_id != (
            #[trigger] after.pending_expenses[j]).transaction_id by {
                assert(before.pending_expenses[i].transaction_id
                    == after.pending_expenses[i].transaction_id);
                assert(before.pending_expenses[j].transaction_id
                    == after.pending_expenses[j].transaction_id);
            }
            assert forall|i: int| 0 <= i < after.pending_audit_log.len() implies text::position(
                ids,
                (#[trigger] after.pending_audit_log[i]).pending_id,
            ) is Some by {
                if i < before.pending_audit_log.len() {
                    assert(after.pending_audit_log[i] == before.pending_audit_log[i]);
                }
            }
        }
    }
}

} // verus!
