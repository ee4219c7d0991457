//! What holds of all changes alike: how they answer a repeated request, what they leave behind and
//! what they never touch.
use vstd::prelude::*;

use crate::calendar;
use crate::error::ErrorView;
use crate::ledger;
use crate::ledger::{Ledger, Operation, PendingView, Reply, ReplyView, Stamp, WriteView};
use crate::models::{Kind, PendingWriteResult, WriteResult};
use crate::pending;
use crate::soundness;
use crate::store;
use crate::text;
use crate::text::Text;

verus! {

/// What a change does and answers.
pub type Change = (Ledger, core::result::Result<ReplyView, ErrorView>);

/// A change of transactions as a change.
pub open spec fn write_change(
    change: (Ledger, core::result::Result<WriteView, ErrorView>),
) -> Change {
    (
        change.0,
        match change.1 {
            Ok(result) => Ok(Reply::Write { result }),
            Err(error) => Err(error),
        },
    )
}

/// A change of foreign purchases as a change.
pub open spec fn pending_change(
    change: (Ledger, core::result::Result<PendingView, ErrorView>),
) -> Change {
    (
        change.0,
        match change.1 {
            Ok(result) => Ok(Reply::Pending { result }),
            Err(error) => Err(error),
        },
    )
}

/// What carrying out an operation does to a ledger and answers.
pub open spec fn carried_out(
    ledger: Ledger,
    operation: Operation<Text>,
    request_id: Option<Text>,
    stamp: Stamp<Text>,
) -> Change {
    match operation {
        Operation::Add { input } => write_change(store::added(ledger, input, request_id, stamp)),
        Operation::Update { id, patch } => write_change(
            store::updated(ledger, id, patch, request_id, stamp.now),
        ),
        Operation::Void { id, cascade_refunds } => write_change(
            store::voided(ledger, id, cascade_refunds, request_id, stamp.now),
        ),
        Operation::PendingAdd { input } => pending_change(
            pending::pending_added(ledger, input, request_id, stamp),
        ),
        Operation::PendingConfirm { id, input } => pending_change(
            pending::pending_confirmed(ledger, id, input, request_id, stamp),
        ),
        Operation::PendingSnooze { id, until } => pending_change(
            pending::pending_snoozed(ledger, id, until, request_id, stamp.now),
        ),
        Operation::PendingCancel { id } => pending_change(
            pending::pending_changed(ledger, id, None, request_id, stamp.now),
        ),
        Operation::Unknown => (ledger, Err(ledger::conflict_error())),
    }
}

/// The form in which an operation is kept, once all that can be told without the ledger has been
/// checked: amounts and times are written in one way.
pub open spec fn checked(
    operation: Operation<Text>,
    request_id: Option<Text>,
) -> core::result::Result<Operation<Text>, ErrorView> {
    match operation {
        Operation::Add { input } => match store::checked_new(input, request_id) {
            Ok(input) => Ok(Operation::Add { input }),
            Err(error) => Err(error),
        },
        Operation::Update { id, patch } => match store::checked_patch(patch, request_id) {
            Ok(patch) => Ok(Operation::Update { id, patch }),
            Err(error) => Err(error),
        },
        Operation::PendingAdd { input } => match pending::checked_new(input, request_id) {
            Ok((input, hundredths, remind_on)) => Ok(Operation::PendingAdd { input }),
            Err(error) => Err(error),
        },
        Operation::PendingConfirm { id, input } => match pending::checked_confirmation(
            input,
            request_id,
        ) {
            Ok(_) => Ok(operation),
            Err(error) => Err(error),
        },
        Operation::PendingSnooze { id, until } => if calendar::is_date(until) {
            match store::checked_request_id(request_id) {
                Ok(_) => Ok(operation),
                Err(error) => Err(error),
            }
        } else {
            Err(calendar::date_error())
        },
        Operation::Void { .. } | Operation::PendingCancel { .. } => match store::checked_request_id(
            request_id,
        ) {
            Ok(_) => Ok(operation),
            Err(error) => Err(error),
        },
        Operation::Unknown => Err(ledger::conflict_error()),
    }
}

/// An answer that is given again.
pub open spec fn again(reply: ReplyView) -> ReplyView {
    match reply {
        Reply::Write { result } => Reply::Write {
            result: WriteResult { replayed: true, ..result },
        },
        Reply::Pending { result } => Reply::Pending {
            result: PendingWriteResult { replayed: true, ..result },
        },
        Reply::Unreadable { .. } => reply,
    }
}

/// Whether a list begins with another.
pub open spec fn continues<A>(longer: Seq<A>, shorter: Seq<A>) -> bool {
    shorter.len() <= longer.len() && forall|i: int|
        0 <= i < shorter.len() ==> longer[i] == #[trigger] shorter[i]
}

/// A change that is refused leaves the ledger as it was.
pub proof fn law_refused_changes_leave_no_trace(
    before: Ledger,
    operation: Operation<Text>,
    request_id: Option<Text>,
    stamp: Stamp<Text>,
)
    requires
        carried_out(before, operation, request_id, stamp).1 is Err,
    ensures
        carried_out(before, operation, request_id, stamp).0 == before,
{
}

/// Every change keeps a sound ledger sound.
pub proof fn law_changes_keep_soundness(
    before: Ledger,
    operation: Operation<Text>,
    request_id: Option<Text>,
    stamp: Stamp<Text>,
)
    requires
        ledger::sound(before),
    ensures
        ledger::sound(carried_out(before, operation, request_id, stamp).0),
{
    match operation {
        Operation::Add { input } => soundness::law_recording_keeps_soundness(
            before,
            input,
            request_id,
            stamp,
        ),
        Operation::Update { id, patch } => soundness::law_changing_keeps_soundness(
            before,
            id,
            patch,
            request_id,
            stamp.now,
        ),
        Operation::Void { id, cascade_refunds } => soundness::law_voiding_keeps_soundness(
            before,
            id,
            cascade_refunds,
            request_id,
            stamp.now,
        ),
        Operation::PendingAdd { input } => soundness::law_recording_purchases_keeps_soundness(
            before,
            input,
            request_id,
            stamp,
        ),
        Operation::PendingConfirm { id, input } => soundness::law_confirming_keeps_soundness(
            before,
            id,
            input,
            request_id,
            stamp,
        ),
        Operation::PendingSnooze { id, until } => if calendar::is_date(until) {
            soundness::law_changing_purchases_keeps_soundness(
                before,
                id,
                Some(until),
                request_id,
                stamp.now,
            );
        },
        Operation::PendingCancel { id } => soundness::law_changing_purchases_keeps_soundness(
            before,
            id,
            None,
            request_id,
            stamp.now,
        ),
        Operation::Unknown => {},
    }
}

/// No change removes anything: the rows keep their places and ids, and the logs and the requests
/// only grow.
pub proof fn law_nothing_is_ever_removed(
    before: Ledger,
    operation: Operation<Text>,
    request_id: Option<Text>,
    stamp: Stamp<Text>,
)
    ensures
        ({
            let after = carried_out(before, operation, request_id, stamp).0;
            &&& after.categories == before.categories
            &&& continues(ledger::ids(after.transactions), ledger::ids(before.transactions))
            &&& continues(
                ledger::pending_ids(after.pending_expenses),
                ledger::pending_ids(before.pending_expenses),
            )
            &&& continues(after.audit_log, before.audit_log)
            &&& continues(after.pending_audit_log, before.pending_audit_log)
            &&& continues(after.requests, before.requests)
        }),
{
    text::lemma_position(
        ledger::ids(before.transactions),
        match operation {
            Operation::Update { id, .. } => id,
            _ => Seq::empty(),
        },
    );
    text::lemma_position(
        ledger::pending_ids(before.pending_expenses),
        match operation {
            Operation::PendingConfirm { id, .. } => id,
            Operation::PendingSnooze { id, .. } => id,
            Operation::PendingCancel { id } => id,
            _ => Seq::empty(),
        },
    );
}

/// No change of a table goes without an entry in its log.
pub proof fn law_every_change_is_logged(
    before: Ledger,
    operation: Operation<Text>,
    request_id: Option<Text>,
    stamp: Stamp<Text>,
)
    ensures
        ({
            let after = carried_out(before, operation, request_id, stamp).0;
            &&& after.transactions != before.transactions ==> after.audit_log.len()
                > before.audit_log.len()
            &&& after.pending_expenses != before.pending_expenses
                ==> after.pending_audit_log.len() > before.pending_audit_log.len()
        }),
{
}

/// The answer to a carried out operation is kept under its request id.
proof fn lemma_reply_kept(
    before: Ledger,
    operation: Operation<Text>,
    request_id: Text,
    stamp: Stamp<Text>,
)
    requires
        carried_out(before, operation, Some(request_id), stamp).1 is Ok,
    ensures
        ({
            let (after, outcome) = carried_out(before, operation, Some(request_id), stamp);
            let kept = checked(operation, Some(request_id));
            let place = text::position(ledger::request_ids(after.requests), request_id);
            &&& kept is Ok
            &&& place is Some
            &&& 0 <= place->0 < after.requests.len()
            &&& after.requests[place->0].operation == kept->Ok_0
            &&& again(after.requests[place->0].reply) == again(outcome->Ok_0)
            &&& after.requests[place->0].reply is Write == outcome->Ok_0 is Write
            &&& after.requests[place->0].reply is Pending == outcome->Ok_0 is Pending
        }),
{
    let (after, outcome) = carried_out(before, operation, Some(request_id), stamp);
    let ids = ledger::request_ids(before.requests);
    text::lemma_position(ids, request_id);
    text::lemma_position_push(ids, request_id, request_id);
    if let Operation::PendingConfirm { id, input } = operation {
        text::lemma_position(ledger::pending_ids(before.pending_expenses), id);
    }
    if after.requests.len() > before.requests.len() {
        assert(ledger::request_ids(after.requests) =~= ids.push(request_id));
    }
}

/// A request that was carried out once is answered again with the same answer, marked as given
/// again, and changes nothing: neither at once nor after any number of other changes.
pub proof fn law_requests_are_carried_out_once(
    before: Ledger,
    operation: Operation<Text>,
    request_id: Text,
    stamp: Stamp<Text>,
    later: Ledger,
    later_stamp: Stamp<Text>,
)
    requires
        carried_out(before, operation, Some(request_id), stamp).1 is Ok,
        continues(
            later.requests,
            carried_out(before, operation, Some(request_id), stamp).0.requests,
        ),
    ensures
        carried_out(later, operation, Some(request_id), later_stamp) == (
            later,
            Ok::<ReplyView, ErrorView>(
                again(carried_out(before, operation, Some(request_id), stamp).1->Ok_0),
            ),
        ),
{
    let (after, outcome) = carried_out(before, operation, Some(request_id), stamp);
    lemma_reply_kept(before, operation, request_id, stamp);
    let ids = ledger::request_ids(after.requests);
    let later_ids = ledger::request_ids(later.requests);
    assert forall|i: int| 0 <= i < ids.len() implies ids[i] == later_ids[i] by {
        assert(later.requests[i] == after.requests[i]);
    }
    text::lemma_position_prefix(ids, later_ids, request_id);
    let place = text::position(ids, request_id)->0;
    assert(later.requests[place] == after.requests[place]);
}

/// A request id that stands for one operation is refused for any other, which changes nothing.
pub proof fn law_request_ids_stand_for_one_operation(
    before: Ledger,
    operation: Operation<Text>,
    request_id: Text,
    stamp: Stamp<Text>,
    place: int,
)
    requires
        text::position(ledger::request_ids(before.requests), request_id) == Some(place),
        checked(operation, Some(request_id)) is Ok,
        checked(operation, Some(request_id))->Ok_0 != before.requests[place].operation,
    ensures
        carried_out(before, operation, Some(request_id), stamp) == (
            before,
            Err::<ReplyView, ErrorView>(ledger::conflict_error()),
        ),
{
}

/// What a change answered is what is read afterwards, and what its log entry says.
pub proof fn law_answers_are_read_back(
    before: Ledger,
    operation: Operation<Text>,
    request_id: Option<Text>,
    stamp: Stamp<Text>,
)
    requires
        ledger::sound(before),
        carried_out(before, operation, request_id, stamp).1 is Ok,
    ensures
        ({
            let (after, outcome) = carried_out(before, operation, request_id, stamp);
            match outcome->Ok_0 {
                Reply::Write { result } => !result.replayed ==> {
                    &&& ledger::fetched(after, result.transaction.id) == Ok::<_, ErrorView>(
                        result.transaction,
                    )
                    &&& after.audit_log.last().after == result.transaction
                },
                Reply::Pending { result } => !result.replayed ==> {
                    &&& pending::fetched_pending(after, result.pending.id) == Ok::<_, ErrorView>(
                        result.pending,
                    )
                    &&& after.pending_audit_log.last().after == result.pending
                    &&& result.transaction matches Some(transaction) ==> ledger::fetched(
                        after,
                        transaction.id,
                    ) == Ok::<_, ErrorView>(transaction)
                },
                Reply::Unreadable { .. } => false,
            }
        }),
{
    let (after, outcome) = carried_out(before, operation, request_id, stamp);
    let ids = ledger::ids(before.transactions);
    let pending_ids = ledger::pending_ids(before.pending_expenses);
    match operation {
        Operation::Add { input } => {
            let checked = store::checked_new(input, request_id)->Ok_0;
            let record = outcome->Ok_0->Write_result.transaction;
            if !outcome->Ok_0->Write_result.replayed {
                assert(ledger::ids(after.transactions) =~= ids.push(record.id));
                text::lemma_position_push(ids, record.id, record.id);
                if input.kind == Kind::Refund {
                    let original = checked.original_id->0;
                    text::lemma_position(ids, original);
                    text::lemma_position_push(ids, record.id, original);
                    let place = text::position(ids, original)->0;
                    assert(ledger::transaction_is_sound(before, before.transactions[place]));
                }
            }
        },
        Operation::Update { id, patch } => {
            if !outcome->Ok_0->Write_result.replayed {
                text::lemma_position(ids, id);
                assert(ledger::ids(after.transactions) =~= ids);
                let place = text::position(ids, id)->0;
                let row = before.transactions[place];
                assert(ledger::transaction_is_sound(before, row));
                if row.kind == Kind::Refund {
                    text::lemma_position(ids, row.original_id->0);
                }
            }
        },
        Operation::Void { id, cascade_refunds } => {
            if !outcome->Ok_0->Write_result.replayed {
                text::lemma_position(ids, id);
                assert(ledger::ids(after.transactions) =~= ids);
                let place = text::position(ids, id)->0;
                let row = before.transactions[place];
                assert(ledger::transaction_is_sound(before, row));
                if row.kind == Kind::Refund {
                    text::lemma_position(ids, row.original_id->0);
                }
                let (found, refunds) = store::void_plan(before, id, cascade_refunds)->Ok_0;
                let entries = store::void_entries(refunds.push(found), stamp.now);
                assert(after.audit_log.last() == entries.last());
            }
        },
        Operation::PendingAdd { input } => {
            let record = outcome->Ok_0->Pending_result.pending;
            if !outcome->Ok_0->Pending_result.replayed {
                assert(ledger::pending_ids(after.pending_expenses) =~= pending_ids.push(record.id));
                text::lemma_position_push(pending_ids, record.id, record.id);
            }
        },
        Operation::PendingConfirm { id, input } => {
            if !outcome->Ok_0->Pending_result.replayed {
                text::lemma_position(pending_ids, id);
                assert(ledger::pending_ids(after.pending_expenses) =~= pending_ids);
                let record = outcome->Ok_0->Pending_result.transaction->0;
                assert(ledger::ids(after.transactions) =~= ids.push(record.id));
                text::lemma_position_push(ids, record.id, record.id);
            }
        },
        Operation::PendingSnooze { id, until } => {
            if !outcome->Ok_0->Pending_result.replayed {
                text::lemma_position(pending_ids, id);
                assert(ledger::pending_ids(after.pending_expenses) =~= pending_ids);
            }
        },
        Operation::PendingCancel { id } => {
            if !outcome->Ok_0->Pending_result.replayed {
                text::lemma_position(pending_ids, id);
                assert(ledger::pending_ids(after.pending_expenses) =~= pending_ids);
            }
        },
        Operation::Unknown => {},
    }
}

/// A change of transactions leaves the foreign purchases alone. A change of foreign purchases
/// leaves the transactions alone, except that the first confirmation of one adds an expense.
pub proof fn law_changes_keep_to_their_tables(
    before: Ledger,
    operation: Operation<Text>,
    request_id: Option<Text>,
    stamp: Stamp<Text>,
)
    ensures
        ({
            let (after, outcome) = carried_out(before, operation, request_id, stamp);
            &&& operation is Add || operation is Update || operation is Void ==> {
                &&& after.pending_expenses == before.pending_expenses
                &&& after.pending_audit_log == before.pending_audit_log
            }
            &&& operation is PendingAdd || operation is PendingSnooze || operation is PendingCancel
                ==> {
                &&& after.transactions == before.transactions
                &&& after.audit_log == before.audit_log
            }
            &&& operation is PendingConfirm ==> {
                ||| after.transactions == before.transactions
                ||| {
                    &&& outcome is Ok
                    &&& !outcome->Ok_0->Pending_result.replayed
                    &&& after.transactions.drop_last() == before.transactions
                }
            }
        }),
{
    let after = carried_out(before, operation, request_id, stamp).0;
    if operation is PendingConfirm && after.transactions != before.transactions {
        assert(after.transactions.drop_last() =~= before.transactions);
    }
}

/// Cancelling a foreign purchase again changes no row and no log.
pub proof fn law_cancelling_twice(
    before: Ledger,
    id: Text,
    stamp: Stamp<Text>,
    later_stamp: Stamp<Text>,
)
    requires
        carried_out(before, Operation::PendingCancel { id }, None, stamp).1 is Ok,
    ensures
        ({
            let operation = Operation::PendingCancel { id };
            let (after, outcome) = carried_out(before, operation, None, stamp);
            carried_out(after, operation, None, later_stamp) == (
                after,
                Ok::<ReplyView, ErrorView>(again(outcome->Ok_0)),
            )
        }),
{
    let after = carried_out(before, Operation::PendingCancel { id }, None, stamp).0;
    let ids = ledger::pending_ids(before.pending_expenses);
    text::lemma_position(ids, id);
    assert(ledger::pending_ids(after.pending_expenses) =~= ids);
}

} // verus!
