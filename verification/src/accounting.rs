//! How the totals follow from what was recorded.
use vstd::prelude::*;

use crate::error::ErrorView;
use crate::foreign;
use crate::ledger;
use crate::ledger::{Ledger, Stamp};
use crate::models::{
    AuditEntry, ConfirmPendingExpense, Filters, Kind, NewPendingExpense, NewTransaction,
    PendingExpenseRow, PendingStatus, TransactionRecord, TransactionRow, UpdateTransaction,
};
use crate::occurrence;
use crate::order;
use crate::order::{Key, Order};
use crate::pending;
use crate::pending_query;
use crate::query;
use crate::query::ByTime;
use crate::soundness;
use crate::store;
use crate::summary;
use crate::text;
use crate::text::Text;

verus! {

/// The transactions that a summary counts.
pub open spec fn counted(ledger: Ledger, filters: Filters<Text>) -> Seq<TransactionRecord<Text>> {
    ledger::records_of(
        ledger,
        ledger.transactions.filter(query::asks_for(ledger, filters, false)),
    )->0
}

/// Whether a reported transaction is one that a query is about.
pub open spec fn is_selected(
    purchases: Seq<PendingExpenseRow<Text>>,
    filters: Filters<Text>,
    include_voided: bool,
    record: TransactionRecord<Text>,
) -> bool {
    &&& include_voided || !record.voided
    &&& query::in_period(filters, record.date)
    &&& filters.kind matches Some(kind) ==> record.kind == kind
    &&& filters.category matches Some(category) ==> record.category == category
    &&& filters.keyword matches Some(keyword) ==> query::mentions(record.note, keyword)
        || text::occurs(record.id, keyword) || query::mentions(record.channel, keyword)
        || query::mentions(query::merchant_of(purchases, record.id), keyword)
}

/// The reported transactions that a query is about.
pub open spec fn selects(
    purchases: Seq<PendingExpenseRow<Text>>,
    filters: Filters<Text>,
    include_voided: bool,
) -> spec_fn(TransactionRecord<Text>) -> bool {
    |record: TransactionRecord<Text>| is_selected(purchases, filters, include_voided, record)
}

/// It is the same to choose transactions and then to report them, and to report them and then to
/// choose.
proof fn lemma_choice_commutes(
    ledger: Ledger,
    rows: Seq<TransactionRow<Text>>,
    filters: Filters<Text>,
    include_voided: bool,
)
    requires
        ledger::records_of(ledger, rows) is Some,
    ensures
        ledger::records_of(
            ledger,
            rows.filter(query::asks_for(ledger, filters, include_voided)),
        ) == Some(
            ledger::records_of(ledger, rows)->0.filter(
                selects(ledger.pending_expenses, filters, include_voided),
            ),
        ),
    decreases rows.len(),
{
    reveal(Seq::filter);
    let asked = query::asks_for(ledger, filters, include_voided);
    let selected = selects(ledger.pending_expenses, filters, include_voided);
    let records = ledger::records_of(ledger, rows)->0;
    if rows.len() > 0 {
        let front = rows.drop_last();
        lemma_choice_commutes(ledger, front, filters, include_voided);
        let record = ledger::record_of(ledger, rows.last())->0;
        assert(records.drop_last() =~= ledger::records_of(ledger, front)->0);
        assert(records.last() == record);
        assert(asked(rows.last()) == selected(record));
        if asked(rows.last()) {
            assert(front.filter(asked).push(rows.last()).drop_last() =~= front.filter(asked));
        }
    } else {
        assert(rows.filter(asked) =~= rows);
        assert(records.filter(selected) =~= records);
    }
}

/// What a summary of a sound ledger counts.
proof fn lemma_counted(ledger: Ledger, filters: Filters<Text>)
    requires
        ledger::sound(ledger),
    ensures
        ledger::records_of(ledger, ledger.transactions) is Some,
        ledger::records_of(
            ledger,
            ledger.transactions.filter(query::asks_for(ledger, filters, false)),
        ) is Some,
        counted(ledger, filters) == ledger::records_of(ledger, ledger.transactions)->0.filter(
            selects(ledger.pending_expenses, filters, false),
        ),
{
    law_every_transaction_has_a_category(ledger);
    lemma_choice_commutes(ledger, ledger.transactions, filters, false);
}

/// What one transaction contributes to a sum.
pub open spec fn share(
    purchases: Seq<PendingExpenseRow<Text>>,
    record: TransactionRecord<Text>,
    filters: Filters<Text>,
    kind: Kind,
    category: Option<Text>,
) -> int {
    if is_selected(purchases, filters, false, record) && summary::counts(
        record,
        kind,
        category,
    ) {
        record.amount.0 as int
    } else {
        0
    }
}

/// Transactions that all have a category can all be reported.
pub proof fn lemma_records_exist(ledger: Ledger, rows: Seq<TransactionRow<Text>>)
    requires
        forall|i: int|
            0 <= i < rows.len() ==> ledger::record_of(ledger, #[trigger] rows[i]) is Some,
    ensures
        ledger::records_of(ledger, rows) is Some,
    decreases rows.len(),
{
    if rows.len() > 0 {
        assert forall|i: int| 0 <= i < rows.drop_last().len() implies ledger::record_of(
            ledger,
            #[trigger] rows.drop_last()[i],
        ) is Some by {
            assert(rows.drop_last()[i] == rows[i]);
        }
        lemma_records_exist(ledger, rows.drop_last());
        assert(rows.last() == rows[rows.len() - 1]);
    }
}

/// Every transaction of a sound ledger belongs to a category: a refund to that of its original.
pub proof fn law_every_transaction_has_a_category(ledger: Ledger)
    requires
        ledger::sound(ledger),
    ensures
        forall|i: int|
            0 <= i < ledger.transactions.len() ==> ledger::category_of(
                ledger,
                #[trigger] ledger.transactions[i],
            ) is Some,
        ledger::records_of(ledger, ledger.transactions) is Some,
{
    assert forall|i: int| 0 <= i < ledger.transactions.len() implies ledger::category_of(
        ledger,
        #[trigger] ledger.transactions[i],
    ) is Some by {
        let row = ledger.transactions[i];
        assert(ledger::transaction_is_sound(ledger, row));
        if row.kind == Kind::Refund {
            let ids = ledger::ids(ledger.transactions);
            text::lemma_position(ids, row.original_id->0);
            let place = text::position(ids, row.original_id->0)->0;
            assert(ledger::transaction_is_sound(ledger, ledger.transactions[place]));
        }
    }
    lemma_records_exist(ledger, ledger.transactions);
}

/// With one transaction more, the others are reported as before.
proof fn lemma_one_more(before: Ledger, after: Ledger, row: TransactionRow<Text>, category: Text)
    requires
        ledger::sound(before),
        after.transactions == before.transactions.push(row),
        ledger::category_of(after, row) == Some(category),
    ensures
        ledger::records_of(before, before.transactions) is Some,
        ledger::records_of(after, after.transactions) == Some(
            ledger::records_of(before, before.transactions)->0.push(
                ledger::report(row, category),
            ),
        ),
{
    law_every_transaction_has_a_category(before);
    let old_ids = ledger::ids(before.transactions);
    assert(ledger::ids(after.transactions) =~= old_ids.push(row.id));
    assert forall|i: int| 0 <= i < before.transactions.len() implies ledger::record_of(
        after,
        #[trigger] before.transactions[i],
    ) == ledger::record_of(before, before.transactions[i]) by {
        let other = before.transactions[i];
        assert(ledger::category_of(before, other) is Some);
        if let Some(original) = other.original_id {
            text::lemma_position(old_ids, original);
            text::lemma_position_push(old_ids, row.id, original);
        }
    }
    lemma_same_records(before, after, before.transactions);
    assert(after.transactions.drop_last() =~= before.transactions);
}

proof fn lemma_same_records(before: Ledger, after: Ledger, rows: Seq<TransactionRow<Text>>)
    requires
        forall|i: int|
            0 <= i < rows.len() ==> ledger::record_of(after, #[trigger] rows[i])
                == ledger::record_of(before, rows[i]),
    ensures
        ledger::records_of(after, rows) == ledger::records_of(before, rows),
    decreases rows.len(),
{
    if rows.len() > 0 {
        assert forall|i: int| 0 <= i < rows.drop_last().len() implies ledger::record_of(
            after,
            #[trigger] rows.drop_last()[i],
        ) == ledger::record_of(before, rows.drop_last()[i]) by {
            assert(rows.drop_last()[i] == rows[i]);
        }
        lemma_same_records(before, after, rows.drop_last());
        assert(rows.last() == rows[rows.len() - 1]);
    }
}

proof fn lemma_one_more_counts(
    purchases: Seq<PendingExpenseRow<Text>>,
    records: Seq<TransactionRecord<Text>>,
    record: TransactionRecord<Text>,
    filters: Filters<Text>,
    kind: Kind,
    category: Option<Text>,
)
    ensures
        summary::total(
            records.push(record).filter(selects(purchases, filters, false)),
            kind,
            category,
        ) == summary::total(
            records.filter(selects(purchases, filters, false)),
            kind,
            category,
        ) + share(
            purchases,
            record,
            filters,
            kind,
            category,
        ),
{
    reveal(Seq::filter);
    assert(records.push(record).drop_last() =~= records);
    let wanted = selects(purchases, filters, false);
    let old_found = records.filter(wanted);
    if wanted(record) {
        assert(old_found.push(record).drop_last() =~= old_found);
    }
}

/// Recording a transaction adds its exact amount to the sums that it belongs to, and nothing to
/// any other.
pub proof fn law_recording_adds_the_exact_amount(
    before: Ledger,
    input: NewTransaction<Text>,
    request_id: Option<Text>,
    stamp: Stamp<Text>,
    filters: Filters<Text>,
    kind: Kind,
    category: Option<Text>,
)
    requires
        ledger::sound(before),
        store::added(before, input, request_id, stamp).1 is Ok,
        !store::added(before, input, request_id, stamp).1->Ok_0.replayed,
    ensures
        ({
            let (after, outcome) = store::added(before, input, request_id, stamp);
            let record = outcome->Ok_0.transaction;
            &&& record.amount == input.amount
            &&& record.date == input.date
            &&& record.kind == input.kind
            &&& summary::total(counted(after, filters), kind, category) == summary::total(
                counted(before, filters),
                kind,
                category,
            ) + share(after.pending_expenses, record, filters, kind, category)
        }),
{
    let (after, outcome) = store::added(before, input, request_id, stamp);
    soundness::law_recording_keeps_soundness(before, input, request_id, stamp);
    lemma_counted(before, filters);
    lemma_counted(after, filters);
    let checked = store::checked_new(input, request_id)->Ok_0;
    let (own, belongs) = store::chosen_category(before, checked)->Ok_0;
    let row = store::new_row(checked, own, stamp);
    let old_ids = ledger::ids(before.transactions);
    assert(ledger::ids(after.transactions) =~= old_ids.push(row.id));
    if input.kind == Kind::Refund {
        let original = checked.original_id->0;
        text::lemma_position(old_ids, original);
        text::lemma_position_push(old_ids, row.id, original);
        let place = text::position(old_ids, original)->0;
        assert(ledger::transaction_is_sound(before, before.transactions[place]));
    }
    lemma_one_more(before, after, row, belongs);
    lemma_one_more_counts(
        before.pending_expenses,
        ledger::records_of(before, before.transactions)->0,
        ledger::report(row, belongs),
        filters,
        kind,
        category,
    );
}

proof fn lemma_same_choice(
    records: Seq<TransactionRecord<Text>>,
    first: spec_fn(TransactionRecord<Text>) -> bool,
    second: spec_fn(TransactionRecord<Text>) -> bool,
)
    requires
        forall|i: int| 0 <= i < records.len() ==> first(#[trigger] records[i]) == second(records[i]),
    ensures
        records.filter(first) == records.filter(second),
    decreases records.len(),
{
    reveal(Seq::filter);
    if records.len() > 0 {
        let front = records.drop_last();
        assert forall|i: int| 0 <= i < front.len() implies first(#[trigger] front[i]) == second(
            front[i],
        ) by {
            assert(front[i] == records[i]);
        }
        lemma_same_choice(front, first, second);
        assert(records.last() == records[records.len() - 1]);
    }
}

/// A link to a new expense leaves the merchants of all others as they were.
proof fn lemma_new_link(before: Ledger, after: Ledger, place: int, id: Text)
    requires
        0 <= place < before.pending_expenses.len(),
        before.pending_expenses[place].transaction_id is None,
        after.pending_expenses.len() == before.pending_expenses.len(),
        forall|i: int|
            0 <= i < before.pending_expenses.len() && i != place ==> after.pending_expenses[i]
                == #[trigger] before.pending_expenses[i],
        after.pending_expenses[place].transaction_id == Some(id),
    ensures
        forall|other: Text|
            other != id ==> #[trigger] query::merchant_of(after.pending_expenses, other)
                == query::merchant_of(before.pending_expenses, other),
{
    let old_links = ledger::links(before.pending_expenses);
    let new_links = ledger::links(after.pending_expenses);
    assert forall|other: Text| other != id implies #[trigger] query::merchant_of(
        after.pending_expenses,
        other,
    ) == query::merchant_of(before.pending_expenses, other) by {
        text::lemma_position(old_links, Some(other));
        text::lemma_position(new_links, Some(other));
        if let Some(i) = text::position(old_links, Some(other)) {
            assert(new_links[i] == old_links[i]);
            assert forall|j: int| 0 <= j < i implies new_links[j] != Some(other) by {
                assert(j == place || new_links[j] == old_links[j]);
            }
            text::lemma_position_is(new_links, Some(other), i);
        } else if let Some(i) = text::position(new_links, Some(other)) {
            assert(i == place || new_links[i] == old_links[i]);
        }
    }
}

/// Confirming a foreign purchase for the first time counts the exact amount in CNY, as one expense
/// on the day of the purchase.
pub proof fn law_confirming_adds_the_exact_amount(
    before: Ledger,
    id: Text,
    input: ConfirmPendingExpense<Text>,
    request_id: Option<Text>,
    stamp: Stamp<Text>,
    filters: Filters<Text>,
    kind: Kind,
    category: Option<Text>,
)
    requires
        ledger::sound(before),
        pending::pending_confirmed(before, id, input, request_id, stamp).1 is Ok,
        !pending::pending_confirmed(before, id, input, request_id, stamp).1->Ok_0.replayed,
    ensures
        ({
            let (after, outcome) = pending::pending_confirmed(
                before,
                id,
                input,
                request_id,
                stamp,
            );
            let record = outcome->Ok_0.transaction->0;
            &&& outcome->Ok_0.transaction is Some
            &&& record.kind == Kind::Expense
            &&& record.amount == input.amount
            &&& record.date == pending::pending_row(before, id)->0.date
            &&& record.occurred_at == pending::pending_row(before, id)->0.occurred_at
            &&& record.category == pending::pending_row(before, id)->0.category
            &&& outcome->Ok_0.pending.transaction_id == Some(record.id)
            &&& summary::total(counted(after, filters), kind, category) == summary::total(
                counted(before, filters),
                kind,
                category,
            ) + share(after.pending_expenses, record, filters, kind, category)
        }),
{
    let (after, outcome) = pending::pending_confirmed(before, id, input, request_id, stamp);
    soundness::law_confirming_keeps_soundness(before, id, input, request_id, stamp);
    lemma_counted(before, filters);
    lemma_counted(after, filters);
    let found = pending::fetched_pending(before, id)->Ok_0;
    let row = pending::settling_row(found, input.amount, stamp);
    lemma_one_more(before, after, row, found.category);
    let place = text::position(ledger::pending_ids(before.pending_expenses), id)->0;
    text::lemma_position(ledger::pending_ids(before.pending_expenses), id);
    assert(ledger::pending_is_sound(before, before.pending_expenses[place]));
    lemma_new_link(before, after, place, row.id);
    let records = ledger::records_of(before, before.transactions)->0;
    soundness::lemma_records(before, before.transactions);
    text::lemma_position(ledger::ids(before.transactions), row.id);
    assert forall|i: int| 0 <= i < records.len() implies (#[trigger] records[i]).id != row.id by {
        assert(ledger::record_of(before, before.transactions[i]) == Some(records[i]));
        assert(ledger::ids(before.transactions)[i] == records[i].id);
    }
    lemma_same_choice(
        records,
        selects(before.pending_expenses, filters, false),
        selects(after.pending_expenses, filters, false),
    );
    lemma_one_more_counts(
        after.pending_expenses,
        ledger::records_of(before, before.transactions)->0,
        ledger::report(row, found.category),
        filters,
        kind,
        category,
    );
}

/// What is counted depends on the transactions and on the merchants that they are found by.
proof fn lemma_same_counted(before: Ledger, after: Ledger, filters: Filters<Text>)
    requires
        after.transactions == before.transactions,
        forall|id: Text|
            #[trigger] query::merchant_of(after.pending_expenses, id) == query::merchant_of(
                before.pending_expenses,
                id,
            ),
    ensures
        after.transactions.filter(query::asks_for(after, filters, false))
            == before.transactions.filter(query::asks_for(before, filters, false)),
        ledger::records_of(
            after,
            after.transactions.filter(query::asks_for(after, filters, false)),
        ) == ledger::records_of(
            before,
            before.transactions.filter(query::asks_for(before, filters, false)),
        ),
        counted(after, filters) == counted(before, filters),
{
    lemma_same_row_choice(
        before.transactions,
        query::asks_for(after, filters, false),
        query::asks_for(before, filters, false),
    );
    lemma_same_records(
        before,
        after,
        before.transactions.filter(query::asks_for(before, filters, false)),
    );
}

pub(crate) proof fn lemma_same_row_choice(
    rows: Seq<TransactionRow<Text>>,
    first: spec_fn(TransactionRow<Text>) -> bool,
    second: spec_fn(TransactionRow<Text>) -> bool,
)
    requires
        forall|i: int| 0 <= i < rows.len() ==> first(#[trigger] rows[i]) == second(rows[i]),
    ensures
        rows.filter(first) == rows.filter(second),
    decreases rows.len(),
{
    reveal(Seq::filter);
    if rows.len() > 0 {
        let front = rows.drop_last();
        assert forall|i: int| 0 <= i < front.len() implies first(#[trigger] front[i]) == second(
            front[i],
        ) by {
            assert(front[i] == rows[i]);
        }
        lemma_same_row_choice(front, first, second);
        assert(rows.last() == rows[rows.len() - 1]);
    }
}

/// Recording a foreign purchase changes no total in CNY.
pub proof fn law_awaited_purchases_are_not_counted(
    before: Ledger,
    input: NewPendingExpense<Text>,
    request_id: Option<Text>,
    stamp: Stamp<Text>,
    filters: Filters<Text>,
)
    ensures
        counted(pending::pending_added(before, input, request_id, stamp).0, filters) == counted(
            before,
            filters,
        ),
{
    let after = pending::pending_added(before, input, request_id, stamp).0;
    if after.pending_expenses != before.pending_expenses {
        let old_links = ledger::links(before.pending_expenses);
        assert(ledger::links(after.pending_expenses) =~= old_links.push(None));
        assert forall|id: Text|
            #[trigger] query::merchant_of(after.pending_expenses, id) == query::merchant_of(
                before.pending_expenses,
                id,
            ) by {
            text::lemma_position(old_links, Some(id));
            text::lemma_position_push(old_links, None, Some(id));
        }
    }
    lemma_same_counted(before, after, filters);
}

/// Putting a foreign purchase off, or cancelling it, leaves all merchants as they were.
proof fn lemma_changed_merchants(
    before: Ledger,
    id: Text,
    until: Option<Text>,
    request_id: Option<Text>,
    now: Text,
)
    ensures
        ({
            let after = pending::pending_changed(before, id, until, request_id, now).0;
            &&& after.transactions == before.transactions
            &&& forall|other: Text|
                #[trigger] query::merchant_of(after.pending_expenses, other) == query::merchant_of(
                    before.pending_expenses,
                    other,
                )
        }),
{
    let after = pending::pending_changed(before, id, until, request_id, now).0;
    text::lemma_position(ledger::pending_ids(before.pending_expenses), id);
    let old_links = ledger::links(before.pending_expenses);
    assert(ledger::links(after.pending_expenses) =~= old_links);
    assert forall|other: Text|
        #[trigger] query::merchant_of(after.pending_expenses, other) == query::merchant_of(
            before.pending_expenses,
            other,
        ) by {
        text::lemma_position(old_links, Some(other));
    }
}

/// Putting a foreign purchase off, or cancelling it where no day is given, changes no total in
/// CNY.
pub proof fn law_changed_purchases_are_not_counted(
    before: Ledger,
    id: Text,
    until: Option<Text>,
    request_id: Option<Text>,
    now: Text,
    filters: Filters<Text>,
)
    ensures
        counted(pending::pending_changed(before, id, until, request_id, now).0, filters) == counted(
            before,
            filters,
        ),
{
    let after = pending::pending_changed(before, id, until, request_id, now).0;
    lemma_changed_merchants(before, id, until, request_id, now);
    lemma_same_counted(before, after, filters);
}

/// A confirmed foreign purchase is never settled a second time: whatever is confirmed again, no
/// transaction and no foreign purchase changes.
pub proof fn law_purchases_are_settled_once(
    before: Ledger,
    id: Text,
    input: ConfirmPendingExpense<Text>,
    request_id: Option<Text>,
    stamp: Stamp<Text>,
)
    requires
        pending::pending_row(before, id) is Some,
        pending::pending_row(before, id)->0.status == PendingStatus::Confirmed,
    ensures
        ({
            let (after, outcome) = pending::pending_confirmed(
                before,
                id,
                input,
                request_id,
                stamp,
            );
            &&& after.transactions == before.transactions
            &&& after.audit_log == before.audit_log
            &&& after.pending_expenses == before.pending_expenses
            &&& after.pending_audit_log == before.pending_audit_log
            &&& outcome is Ok ==> outcome->Ok_0.replayed
        }),
{
}

/// What was confirmed stays confirmed: it can be neither cancelled nor put off.
pub proof fn law_confirmed_purchases_stay_confirmed(
    before: Ledger,
    id: Text,
    until: Option<Text>,
    now: Text,
)
    requires
        ledger::sound(before),
        pending::pending_row(before, id) is Some,
        pending::pending_row(before, id)->0.status == PendingStatus::Confirmed,
    ensures
        pending::pending_changed(before, id, until, None, now) == (
            before,
            Err::<ledger::PendingView, ErrorView>(
                ErrorView {
                    code: "ALREADY_CONFIRMED"@,
                    message: "此账单已确认，请操作关联的人民币支出"@,
                },
            ),
        ),
{
    let ids = ledger::pending_ids(before.pending_expenses);
    text::lemma_position(ids, id);
    let row = before.pending_expenses[text::position(ids, id)->0];
    assert(ledger::pending_is_sound(before, row));
}

/// The day on which a foreign purchase is due never moves back.
pub proof fn law_reminders_never_move_back(
    before: Ledger,
    id: Text,
    until: Text,
    request_id: Option<Text>,
    now: Text,
)
    requires
        pending::pending_snoozed(before, id, until, request_id, now).1 is Ok,
        !pending::pending_snoozed(before, id, until, request_id, now).1->Ok_0.replayed,
    ensures
        ({
            let (after, outcome) = pending::pending_snoozed(before, id, until, request_id, now);
            &&& outcome->Ok_0.pending.remind_on == until
            &&& pending::pending_row(after, id) is Some
            &&& pending::pending_row(after, id)->0.remind_on == until
            &&& !text::before(until, pending::pending_row(before, id)->0.remind_on)
        }),
{
    let after = pending::pending_snoozed(before, id, until, request_id, now).0;
    let ids = ledger::pending_ids(before.pending_expenses);
    text::lemma_position(ids, id);
    assert(ledger::pending_ids(after.pending_expenses) =~= ids);
}

/// Voiding leaves neither the transaction nor a refund of it in force, so that no total counts
/// them any more.
pub proof fn law_voided_transactions_are_not_counted(
    before: Ledger,
    id: Text,
    cascade_refunds: bool,
    request_id: Option<Text>,
    now: Text,
    filters: Filters<Text>,
)
    requires
        ledger::sound(before),
        store::voided(before, id, cascade_refunds, request_id, now).1 is Ok,
        !store::voided(before, id, cascade_refunds, request_id, now).1->Ok_0.replayed,
    ensures
        ({
            let after = store::voided(before, id, cascade_refunds, request_id, now).0;
            &&& forall|i: int|
                0 <= i < after.transactions.len() && ((#[trigger] after.transactions[i]).id == id
                    || after.transactions[i].original_id == Some(id))
                    ==> after.transactions[i].voided
            &&& forall|i: int|
                0 <= i < counted(after, filters).len() ==> (#[trigger] counted(after, filters)[i]).id
                    != id && counted(after, filters)[i].original_id != Some(id)
        }),
{
    let after = store::voided(before, id, cascade_refunds, request_id, now).0;
    soundness::law_voiding_keeps_soundness(before, id, cascade_refunds, request_id, now);
    lemma_counted(after, filters);
    soundness::lemma_records(after, after.transactions);
    let records = ledger::records_of(after, after.transactions)->0;
    let wanted = selects(after.pending_expenses, filters, false);
    assert forall|i: int| 0 <= i < counted(after, filters).len() implies (
    #[trigger] counted(after, filters)[i]).id != id && counted(after, filters)[i].original_id
        != Some(id) by {
        let record = counted(after, filters)[i];
        records.lemma_filter_pred(wanted, i);
        assert(records.filter(wanted).contains(record));
        records.lemma_filter_contains_rev(wanted, record);
        let k = choose|k: int| 0 <= k < records.len() && records[k] == record;
        assert(ledger::record_of(after, after.transactions[k]) == Some(records[k]));
    }
}

/// What was voided stays voided: it can neither be changed nor be voided again.
pub proof fn law_voided_transactions_stay_voided(
    before: Ledger,
    id: Text,
    patch: UpdateTransaction<Text>,
    cascade_refunds: bool,
    now: Text,
)
    requires
        ledger::sound(before),
        ledger::transaction(before, id) is Some,
        ledger::transaction(before, id)->0.voided,
        store::checked_patch(patch, None) is Ok,
    ensures
        store::updated(before, id, patch, None, now) == (
            before,
            Err::<ledger::WriteView, ErrorView>(
                ErrorView { code: "VOIDED_TRANSACTION"@, message: "已作废的账单不能修改"@ },
            ),
        ),
        store::voided(before, id, cascade_refunds, None, now) == (
            before,
            Err::<ledger::WriteView, ErrorView>(
                ErrorView { code: "VOIDED_TRANSACTION"@, message: "账单已经作废"@ },
            ),
        ),
{
    law_every_transaction_has_a_category(before);
    text::lemma_position(ledger::ids(before.transactions), id);
}

/// Refunds belong to the category of their expense, also after that has changed.
pub proof fn law_refunds_follow_their_expense(
    before: Ledger,
    id: Text,
    patch: UpdateTransaction<Text>,
    request_id: Option<Text>,
    now: Text,
)
    requires
        ledger::sound(before),
        store::updated(before, id, patch, request_id, now).1 is Ok,
        !store::updated(before, id, patch, request_id, now).1->Ok_0.replayed,
    ensures
        ({
            let (after, outcome) = store::updated(before, id, patch, request_id, now);
            forall|i: int|
                0 <= i < after.transactions.len() && (
                #[trigger] after.transactions[i]).original_id == Some(id)
                    ==> ledger::category_of(after, after.transactions[i]) == Some(
                    outcome->Ok_0.transaction.category,
                )
        }),
{
    let (after, outcome) = store::updated(before, id, patch, request_id, now);
    soundness::law_changing_keeps_soundness(before, id, patch, request_id, now);
    let ids = ledger::ids(before.transactions);
    text::lemma_position(ids, id);
    let place = text::position(ids, id)->0;
    assert(ledger::ids(after.transactions) =~= ids);
    assert forall|i: int|
        0 <= i < after.transactions.len() && (#[trigger] after.transactions[i]).original_id == Some(
            id,
        ) implies ledger::category_of(after, after.transactions[i]) == Some(
        outcome->Ok_0.transaction.category,
    ) by {
        assert(ledger::transaction_is_sound(after, after.transactions[i]));
        assert(ledger::transaction(after, id) == Some(after.transactions[place]));
    }
}

/// The sum of the totals of some categories.
pub open spec fn sum_over(
    records: Seq<TransactionRecord<Text>>,
    kind: Kind,
    categories: Seq<Text>,
) -> int
    decreases categories.len(),
{
    if categories.len() == 0 {
        0
    } else {
        sum_over(records, kind, categories.drop_last()) + summary::total(
            records,
            kind,
            Some(categories.last()),
        )
    }
}

proof fn lemma_sum_over_step(
    records: Seq<TransactionRecord<Text>>,
    kind: Kind,
    categories: Seq<Text>,
)
    requires
        records.len() > 0,
        categories.no_duplicates(),
    ensures
        sum_over(records, kind, categories) == sum_over(records.drop_last(), kind, categories)
            + if records.last().kind == kind && categories.contains(records.last().category) {
            records.last().amount.0 as int
        } else {
            0
        },
    decreases categories.len(),
{
    if categories.len() > 0 {
        let front = categories.drop_last();
        let last = categories.last();
        lemma_sum_over_step(records, kind, front);
        let category = records.last().category;
        assert(categories.contains(category) == (front.contains(category) || last == category)) by {
            if front.contains(category) {
                let k = choose|k: int| 0 <= k < front.len() && front[k] == category;
                assert(categories[k] == category);
            }
            assert(categories[categories.len() - 1] == last);
            if categories.contains(category) && last != category {
                let k = choose|k: int| 0 <= k < categories.len() && categories[k] == category;
                assert(front[k] == category);
            }
        }
        assert(!(front.contains(category) && last == category)) by {
            if front.contains(category) && last == category {
                let k = choose|k: int| 0 <= k < front.len() && front[k] == category;
                assert(categories[k] == categories[categories.len() - 1]);
            }
        }
    }
}

proof fn lemma_sum_over_all(
    records: Seq<TransactionRecord<Text>>,
    kind: Kind,
    categories: Seq<Text>,
)
    requires
        categories.no_duplicates(),
        forall|i: int|
            0 <= i < records.len() ==> categories.contains((#[trigger] records[i]).category),
    ensures
        sum_over(records, kind, categories) == summary::total(records, kind, None),
    decreases records.len(),
{
    if records.len() > 0 {
        assert forall|i: int| 0 <= i < records.drop_last().len() implies categories.contains(
            (#[trigger] records.drop_last()[i]).category,
        ) by {
            assert(records.drop_last()[i] == records[i]);
        }
        lemma_sum_over_all(records.drop_last(), kind, categories);
        lemma_sum_over_step(records, kind, categories);
        assert(categories.contains(records[records.len() - 1].category));
    } else {
        lemma_sum_over_none(records, kind, categories);
    }
}

proof fn lemma_sum_over_none(
    records: Seq<TransactionRecord<Text>>,
    kind: Kind,
    categories: Seq<Text>,
)
    requires
        records.len() == 0,
    ensures
        sum_over(records, kind, categories) == 0,
    decreases categories.len(),
{
    if categories.len() > 0 {
        lemma_sum_over_none(records, kind, categories.drop_last());
    }
}

/// The totals of the categories that a summary lists add up to its total.
pub proof fn law_categories_add_up(records: Seq<TransactionRecord<Text>>, kind: Kind)
    ensures
        sum_over(records, kind, order::distinct(summary::categories_of(records)))
            == summary::total(records, kind, None),
{
    let all = summary::categories_of(records);
    order::law_distinct_texts(all);
    assert forall|i: int| 0 <= i < records.len() implies order::distinct(all).contains(
        (#[trigger] records[i]).category,
    ) by {
        assert(all[i] == records[i].category);
        assert(all.contains(all[i]));
    }
    lemma_sum_over_all(records, kind, order::distinct(all));
}

/// The history of a new transaction is its creation and nothing else.
pub proof fn law_history_begins_with_the_creation(
    before: Ledger,
    input: NewTransaction<Text>,
    request_id: Option<Text>,
    stamp: Stamp<Text>,
)
    requires
        ledger::sound(before),
        store::added(before, input, request_id, stamp).1 is Ok,
        !store::added(before, input, request_id, stamp).1->Ok_0.replayed,
    ensures
        ({
            let (after, outcome) = store::added(before, input, request_id, stamp);
            let record = outcome->Ok_0.transaction;
            let history = query::history_of(after.audit_log, record.id);
            &&& history.len() == 1
            &&& history[0].action == "create"@
            &&& history[0].before is None
            &&& history[0].after == record
        }),
{
    let (after, outcome) = store::added(before, input, request_id, stamp);
    let id = outcome->Ok_0.transaction.id;
    lemma_no_history(before.audit_log, id);
    assert(after.audit_log.drop_last() =~= before.audit_log);
}

proof fn lemma_no_history(log: Seq<AuditEntry<Text>>, id: Text)
    requires
        forall|i: int| 0 <= i < log.len() ==> (#[trigger] log[i]).transaction_id != id,
    ensures
        query::history_of(log, id).len() == 0,
    decreases log.len(),
{
    if log.len() > 0 {
        assert forall|i: int| 0 <= i < log.drop_last().len() implies (
        #[trigger] log.drop_last()[i]).transaction_id != id by {
            assert(log.drop_last()[i] == log[i]);
        }
        lemma_no_history(log.drop_last(), id);
        assert(log[log.len() - 1].transaction_id != id);
    }
}

proof fn lemma_whole_units(rows: Seq<PendingExpenseRow<Text>>, currency: Text)
    requires
        forall|i: int|
            0 <= i < rows.len() && (#[trigger] rows[i]).currency == currency
                ==> rows[i].amount_minor % 100 == 0,
    ensures
        pending_query::currency_total(rows, currency) % 100 == 0,
    decreases rows.len(),
{
    if rows.len() > 0 {
        assert forall|i: int|
            0 <= i < rows.drop_last().len() && (#[trigger] rows.drop_last()[i]).currency
                == currency implies rows.drop_last()[i].amount_minor % 100 == 0 by {
            assert(rows.drop_last()[i] == rows[i]);
        }
        lemma_whole_units(rows.drop_last(), currency);
        assert(rows[rows.len() - 1] == rows.last());
    }
}

proof fn lemma_currencies_are_summarized(
    ledger: Ledger,
    rows: Seq<PendingExpenseRow<Text>>,
    currencies: Seq<Text>,
)
    requires
        forall|i: int|
            0 <= i < rows.len() ==> ledger::pending_is_sound(ledger, #[trigger] rows[i]),
        forall|i: int|
            0 <= i < currencies.len() ==> pending_query::currencies(rows).contains(
                #[trigger] currencies[i],
            ),
    ensures
        pending_query::currency_summaries(rows, currencies) is Ok,
    decreases currencies.len(),
{
    if currencies.len() > 0 {
        let front = currencies.drop_last();
        assert forall|i: int| 0 <= i < front.len() implies pending_query::currencies(rows).contains(
            #[trigger] front[i],
        ) by {
            assert(front[i] == currencies[i]);
        }
        lemma_currencies_are_summarized(ledger, rows, front);
        let currency = currencies[currencies.len() - 1];
        let all = pending_query::currencies(rows);
        let k = choose|k: int| 0 <= k < all.len() && all[k] == currency;
        assert(ledger::pending_is_sound(ledger, rows[k]));
        if foreign::currency_places(currency) == Some(0u32) {
            assert forall|i: int|
                0 <= i < rows.len() && (#[trigger] rows[i]).currency == currency implies
                rows[i].amount_minor % 100 == 0 by {
                assert(ledger::pending_is_sound(ledger, rows[i]));
            }
            lemma_whole_units(rows, currency);
        }
    }
}

/// A sound ledger answers every question for the totals of a valid period.
pub proof fn law_sound_ledgers_are_summarized(ledger: Ledger, filters: Filters<Text>)
    requires
        ledger::sound(ledger),
        query::checked_filters(filters) is Ok,
        ledger.transactions.len() <= i64::MAX,
        ledger.pending_expenses.len() <= i64::MAX,
    ensures
        summary::summarized(ledger, filters) is Ok,
{
    lemma_counted(ledger, filters);
    soundness::lemma_records(ledger, ledger.transactions);
    let records = ledger::records_of(ledger, ledger.transactions)->0;
    records.lemma_filter_len(selects(ledger.pending_expenses, filters, false));
    let wanted = pending_query::awaits(filters);
    let rows = ledger.pending_expenses.filter(wanted);
    ledger.pending_expenses.lemma_filter_len(wanted);
    assert forall|i: int| 0 <= i < rows.len() implies ledger::pending_is_sound(
        ledger,
        #[trigger] rows[i],
    ) by {
        assert(rows.contains(rows[i]));
        ledger.pending_expenses.lemma_filter_contains_rev(wanted, rows[i]);
        let k = choose|k: int|
            0 <= k < ledger.pending_expenses.len() && ledger.pending_expenses[k] == rows[i];
        assert(ledger::pending_is_sound(ledger, ledger.pending_expenses[k]));
    }
    let all = pending_query::currencies(rows);
    order::law_distinct_texts(all);
    let used = order::distinct(all);
    assert forall|i: int| 0 <= i < used.len() implies all.contains(#[trigger] used[i]) by {
        assert(used.contains(used[i]));
    }
    lemma_currencies_are_summarized(ledger, rows, used);
}

/// What reported transactions are listed by: the date, then the time of recording, then the id.
pub open spec fn time_key(record: TransactionRecord<Text>) -> Key {
    (record.date, record.created_at, record.id)
}

/// A page of transactions goes from the newest to the oldest, holds only transactions that were
/// asked for, and is part of all of those.
pub proof fn law_lists_are_in_order(ledger: Ledger, filters: Filters<Text>)
    requires
        query::listed(ledger, filters) is Ok,
    ensures
        ({
            let items = query::listed(ledger, filters)->Ok_0.items;
            &&& items.len() <= query::listed(ledger, filters)->Ok_0.limit
            &&& forall|i: int|
                0 <= i < items.len() ==> is_selected(
                    ledger.pending_expenses,
                    filters,
                    filters.include_voided,
                    #[trigger] items[i],
                )
            &&& forall|i: int, j: int|
                0 <= i < j < items.len() ==> !order::key_before(
                    time_key(#[trigger] items[i]),
                    time_key(#[trigger] items[j]),
                )
        }),
{
    broadcast use vstd::seq_lib::group_to_multiset_ensures;

    let rows = ledger.transactions;
    let wanted = query::asks_for(ledger, filters, filters.include_voided);
    let chosen = rows.filter(wanted);
    let ordered = order::sorted::<TransactionRow, ByTime>(chosen);
    order::law_sorting_orders_all_records::<TransactionRow, ByTime>(chosen);
    let found = ordered.reverse();
    let limit = query::listed(ledger, filters)->Ok_0.limit;
    let shown = order::page(found, filters.offset as int, limit as int);
    soundness::lemma_records(ledger, shown);
    let items = query::listed(ledger, filters)->Ok_0.items;
    let from = if filters.offset < found.len() {
        filters.offset as int
    } else {
        found.len() as int
    };
    assert forall|i: int| 0 <= i < items.len() implies #[trigger] shown[i] == ordered[ordered.len()
        - 1 - from - i] by {
        assert(shown[i] == found[from + i]);
    }
    assert forall|i: int| 0 <= i < items.len() implies is_selected(
        ledger.pending_expenses,
        filters,
        filters.include_voided,
        #[trigger] items[i],
    ) by {
        assert(shown[i] == ordered[ordered.len() - 1 - from - i]);
        assert(ordered.contains(shown[i]));
        assert(ordered.to_multiset().count(shown[i]) > 0);
        assert(chosen.contains(shown[i]));
        let k = choose|k: int| 0 <= k < chosen.len() && chosen[k] == shown[i];
        rows.lemma_filter_pred(wanted, k);
        assert(ledger::record_of(ledger, shown[i]) == Some(items[i]));
    }
    assert forall|i: int, j: int| 0 <= i < j < items.len() implies !order::key_before(
        time_key(#[trigger] items[i]),
        time_key(#[trigger] items[j]),
    ) by {
        assert(shown[i] == ordered[ordered.len() - 1 - from - i]);
        assert(shown[j] == ordered[ordered.len() - 1 - from - j]);
        assert(ledger::record_of(ledger, shown[i]) == Some(items[i]));
        assert(ledger::record_of(ledger, shown[j]) == Some(items[j]));
        assert(!order::key_before(
            <ByTime as Order<TransactionRow>>::key(ordered[ordered.len() - 1 - from - i]),
            <ByTime as Order<TransactionRow>>::key(ordered[ordered.len() - 1 - from - j]),
        ));
    }
}

/// A refund of an expense in force is accepted whatever its amount, also beyond that of the
/// expense, and however much was refunded before.
pub proof fn law_refunds_of_any_amount_are_accepted(
    before: Ledger,
    input: NewTransaction<Text>,
    stamp: Stamp<Text>,
)
    requires
        ledger::sound(before),
        input.kind == Kind::Refund,
        ledger::is_positive(input.amount),
        occurrence::occurrence(input.date, input.occurred_at) is Ok,
        input.category is None,
        input.original_id is Some,
        input.original_id->0.len() > 0,
        ledger::transaction(before, input.original_id->0) is Some,
        ledger::transaction(before, input.original_id->0)->0.kind == Kind::Expense,
        !ledger::transaction(before, input.original_id->0)->0.voided,
        ledger::transaction(before, "txn_"@ + stamp.unique) is None,
    ensures
        store::added(before, input, None, stamp).1 is Ok,
{
    law_every_transaction_has_a_category(before);
    text::lemma_position(ledger::ids(before.transactions), input.original_id->0);
}

/// A summary has no pages and never counts voided transactions: it does not depend on what its
/// filters say of either.
pub proof fn law_summaries_have_no_pages(
    ledger: Ledger,
    filters: Filters<Text>,
    limit: i64,
    offset: i64,
    include_voided: bool,
)
    ensures
        summary::summarized(ledger, Filters { limit, offset, include_voided, ..filters })
            == summary::summarized(ledger, filters),
{
    let other = Filters { limit, offset, include_voided, ..filters };
    lemma_same_row_choice(
        ledger.transactions,
        query::asks_for(ledger, other, false),
        query::asks_for(ledger, filters, false),
    );
    lemma_same_awaited(
        ledger.pending_expenses,
        pending_query::awaits(other),
        pending_query::awaits(filters),
    );
}

proof fn lemma_same_awaited(
    rows: Seq<PendingExpenseRow<Text>>,
    first: spec_fn(PendingExpenseRow<Text>) -> bool,
    second: spec_fn(PendingExpenseRow<Text>) -> bool,
)
    requires
        forall|i: int| 0 <= i < rows.len() ==> first(#[trigger] rows[i]) == second(rows[i]),
    ensures
        rows.filter(first) == rows.filter(second),
    decreases rows.len(),
{
    reveal(Seq::filter);
    if rows.len() > 0 {
        let front = rows.drop_last();
        assert forall|i: int| 0 <= i < front.len() implies first(#[trigger] front[i]) == second(
            front[i],
        ) by {
            assert(front[i] == rows[i]);
        }
        lemma_same_awaited(front, first, second);
        assert(rows.last() == rows[rows.len() - 1]);
    }
}

/// Whether two foreign purchases count alike in a summary.
pub open spec fn counts_alike(left: PendingExpenseRow<Text>, right: PendingExpenseRow<Text>) -> bool {
    left.currency == right.currency && left.amount_minor == right.amount_minor
}

proof fn lemma_alike_choice(
    left: Seq<PendingExpenseRow<Text>>,
    right: Seq<PendingExpenseRow<Text>>,
    wanted: spec_fn(PendingExpenseRow<Text>) -> bool,
)
    requires
        left.len() == right.len(),
        forall|i: int|
            0 <= i < left.len() ==> counts_alike(#[trigger] left[i], right[i]) && wanted(left[i])
                == wanted(right[i]),
    ensures
        left.filter(wanted).len() == right.filter(wanted).len(),
        forall|i: int|
            0 <= i < left.filter(wanted).len() ==> counts_alike(
                #[trigger] left.filter(wanted)[i],
                right.filter(wanted)[i],
            ),
    decreases left.len(),
{
    reveal(Seq::filter);
    if left.len() > 0 {
        let front = left.drop_last();
        let other = right.drop_last();
        assert forall|i: int| 0 <= i < front.len() implies counts_alike(
            #[trigger] front[i],
            other[i],
        ) && wanted(front[i]) == wanted(other[i]) by {
            assert(front[i] == left[i] && other[i] == right[i]);
        }
        lemma_alike_choice(front, other, wanted);
        let last = left.len() - 1;
        assert(counts_alike(left[last], right[last]) && wanted(left[last]) == wanted(right[last]));
    }
}

proof fn lemma_alike_totals(
    left: Seq<PendingExpenseRow<Text>>,
    right: Seq<PendingExpenseRow<Text>>,
    currency: Text,
)
    requires
        left.len() == right.len(),
        forall|i: int| 0 <= i < left.len() ==> counts_alike(#[trigger] left[i], right[i]),
    ensures
        pending_query::currency_total(left, currency) == pending_query::currency_total(
            right,
            currency,
        ),
        pending_query::currency_count(left, currency) == pending_query::currency_count(
            right,
            currency,
        ),
    decreases left.len(),
{
    if left.len() > 0 {
        let front = left.drop_last();
        let other = right.drop_last();
        assert forall|i: int| 0 <= i < front.len() implies counts_alike(
            #[trigger] front[i],
            other[i],
        ) by {
            assert(front[i] == left[i] && other[i] == right[i]);
        }
        lemma_alike_totals(front, other, currency);
        assert(counts_alike(left[left.len() - 1], right[left.len() - 1]));
    }
}

proof fn lemma_alike_summaries(
    left: Seq<PendingExpenseRow<Text>>,
    right: Seq<PendingExpenseRow<Text>>,
    currencies: Seq<Text>,
)
    requires
        left.len() == right.len(),
        forall|i: int| 0 <= i < left.len() ==> counts_alike(#[trigger] left[i], right[i]),
    ensures
        pending_query::currency_summaries(left, currencies) == pending_query::currency_summaries(
            right,
            currencies,
        ),
    decreases currencies.len(),
{
    if currencies.len() > 0 {
        lemma_alike_summaries(left, right, currencies.drop_last());
        lemma_alike_totals(left, right, currencies.last());
    }
}

/// Putting a foreign purchase off changes no summary: it is still counted among those that await
/// confirmation.
pub proof fn law_putting_off_changes_no_summary(
    before: Ledger,
    id: Text,
    until: Text,
    request_id: Option<Text>,
    now: Text,
    filters: Filters<Text>,
)
    ensures
        summary::summarized(
            pending::pending_snoozed(before, id, until, request_id, now).0,
            filters,
        ) == summary::summarized(before, filters),
{
    let after = pending::pending_snoozed(before, id, until, request_id, now).0;
    if after != before {
        lemma_changed_merchants(before, id, Some(until), request_id, now);
        lemma_same_counted(before, after, filters);
        text::lemma_position(ledger::pending_ids(before.pending_expenses), id);
        let wanted = pending_query::awaits(filters);
        let old_rows = before.pending_expenses;
        let new_rows = after.pending_expenses;
        assert forall|i: int| 0 <= i < old_rows.len() implies counts_alike(
            #[trigger] old_rows[i],
            new_rows[i],
        ) && wanted(old_rows[i]) == wanted(new_rows[i]) by {}
        lemma_alike_choice(old_rows, new_rows, wanted);
        let old_found = old_rows.filter(wanted);
        let new_found = new_rows.filter(wanted);
        let used = pending_query::currencies(old_found);
        assert(pending_query::currencies(new_found) =~= used) by {
            assert forall|i: int| 0 <= i < old_found.len() implies old_found[i].currency
                == new_found[i].currency by {
                assert(counts_alike(old_found[i], new_found[i]));
            }
        }
        lemma_alike_summaries(old_found, new_found, order::distinct(used));
    }
}

} // verus!
