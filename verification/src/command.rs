//! The commands that a ledger understands, and how each is carried out.
use vstd::prelude::*;

use crate::error;
use crate::error::{ErrorView, Result};
use crate::ledger;
use crate::ledger::{Ledger, PendingView, Stamp, WriteView};
use crate::models;
use crate::models::{
    ConfirmPendingExpense, Filters, Kind, NewPendingExpense, NewTransaction, PendingFilters,
    UpdateTransaction,
};
use crate::money::Money;
use crate::occurrence;
use crate::order;
use crate::pending;
use crate::pending_query;
use crate::query;
use crate::report::Output;
use crate::stamp;
use crate::store;
use crate::store::Store;
use crate::summary;
use crate::text::Text;

verus! {

/// What an entry of any kind is given with. Without a date it belongs to the local date of its
/// time, and without either to the current day.
#[derive(Debug)]
pub struct EntryArgs {
    pub amount: Money,
    pub date: Option<String>,
    pub occurred_at: Option<String>,
    pub note: Option<String>,
    pub channel: Option<String>,
    pub request_id: Option<String>,
}

/// What a list or a summary is about.
#[derive(Debug, Default)]
pub struct FilterArgs {
    pub month: Option<String>,
    pub from: Option<String>,
    pub to: Option<String>,
    pub category: Option<String>,
    pub search: Option<String>,
}

/// What a list of foreign purchases is about.
#[derive(Debug)]
pub struct PendingListArgs {
    pub filter: FilterArgs,
    pub currency: Option<String>,
    pub as_of: Option<String>,
    pub limit: i64,
    pub offset: i64,
}

/// A command about foreign purchases.
#[derive(Debug)]
pub enum PendingCommand {
    Add {
        currency: String,
        amount: String,
        date: Option<String>,
        occurred_at: Option<String>,
        category: Option<String>,
        merchant: Option<String>,
        note: Option<String>,
        channel: Option<String>,
        request_id: Option<String>,
    },
    Record { input: NewPendingExpense, request_id: Option<String> },
    List { query: PendingListArgs, status: Option<String> },
    Due { query: PendingListArgs },
    Show { id: String },
    Confirm {
        id: String,
        amount: Money,
        posted_date: Option<String>,
        request_id: Option<String>,
    },
    Cancel { id: String, request_id: Option<String> },
    Snooze { id: String, until: String, request_id: Option<String> },
    History { id: String },
}

/// A command about categories.
#[derive(Debug)]
pub enum CategoryCommand {
    List,
    Add { name: String, kind: Kind },
}

/// A command.
#[derive(Debug)]
pub enum Command {
    Add { kind: Kind, category: Option<String>, entry: EntryArgs },
    Refund { id: String, entry: EntryArgs },
    Record { input: NewTransaction, request_id: Option<String> },
    List {
        filter: FilterArgs,
        kind: Option<String>,
        include_voided: bool,
        limit: i64,
        offset: i64,
    },
    Show { id: String },
    Summary { filter: FilterArgs },
    Edit { id: String, patch: UpdateTransaction, request_id: Option<String> },
    Void { id: String, cascade_refunds: bool, request_id: Option<String> },
    History { id: String },
    Category { command: CategoryCommand },
    Pending { command: PendingCommand },
}

/// The date of an entry.
pub open spec fn dated(
    date: Option<Text>,
    occurred_at: Option<Text>,
    today: Text,
) -> core::result::Result<Text, ErrorView> {
    match (date, occurred_at) {
        (Some(date), _) => Ok(date),
        (None, Some(time)) => match occurrence::normalized(time) {
            Ok(_) => Ok(time.take(10)),
            Err(error) => Err(error),
        },
        (None, None) => Ok(today),
    }
}

/// The date of an entry: the one given, else the local date of its time, else today.
pub fn entry_date(date: &Option<String>, occurred_at: &Option<String>, today: &str) -> (result:
    Result<String>)
    ensures
        error::outcome(result) == dated(date.deep_view(), occurred_at.deep_view(), today@),
{
    match (date, occurred_at) {
        (Some(date), _) => Ok(date.clone()),
        (None, Some(time)) => occurrence::date_from_occurred_at(time.as_str()),
        (None, None) => Ok(today.to_owned()),
    }
}

/// The filters of a list or a summary.
pub open spec fn filters_of(args: FilterArgs) -> Filters<Text> {
    Filters {
        month: args.month.deep_view(),
        from: args.from.deep_view(),
        to: args.to.deep_view(),
        kind: None,
        category: args.category.deep_view(),
        keyword: args.search.deep_view(),
        include_voided: false,
        limit: 50,
        offset: 0,
    }
}

impl FilterArgs {
    /// The filters of a list or a summary.
    pub fn filters(self) -> (filters: Filters)
        ensures
            filters.deep_view() == filters_of(self),
    {
        Filters {
            month: self.month,
            from: self.from,
            to: self.to,
            kind: None,
            category: self.category,
            keyword: self.search,
            include_voided: false,
            limit: 50,
            offset: 0,
        }
    }
}

/// The filters of a list of foreign purchases.
pub open spec fn pending_filters_of(
    args: PendingListArgs,
    status: Option<Text>,
    due_only: bool,
    today: Text,
) -> PendingFilters<Text> {
    PendingFilters {
        filters: Filters { limit: args.limit, offset: args.offset, ..filters_of(args.filter) },
        status,
        currency: args.currency.deep_view(),
        due_only,
        as_of: match args.as_of {
            Some(as_of) => as_of@,
            None => today,
        },
    }
}

impl PendingListArgs {
    /// The filters of a list of foreign purchases.
    pub fn filters(self, status: Option<String>, due_only: bool, today: &str) -> (filters:
        PendingFilters)
        ensures
            filters.deep_view() == pending_filters_of(self, status.deep_view(), due_only, today@),
    {
        let mut filters = self.filter.filters();
        filters.limit = self.limit;
        filters.offset = self.offset;
        PendingFilters {
            filters,
            status,
            currency: self.currency,
            due_only,
            as_of: match self.as_of {
                Some(as_of) => as_of,
                None => today.to_owned(),
            },
        }
    }
}

/// Whether an answer is what a change of transactions gives.
pub open spec fn is_write(
    result: Result<Output>,
    outcome: core::result::Result<WriteView, ErrorView>,
) -> bool {
    match result {
        Ok(Output::Write { result }) => outcome == Ok::<WriteView, ErrorView>(result.deep_view()),
        Ok(_) => false,
        Err(error) => outcome == Err::<WriteView, ErrorView>(error.deep_view()),
    }
}

/// Whether an answer is what a change of foreign purchases gives.
pub open spec fn is_pending_write(
    result: Result<Output>,
    outcome: core::result::Result<PendingView, ErrorView>,
) -> bool {
    match result {
        Ok(Output::PendingWrite { result }) => outcome == Ok::<PendingView, ErrorView>(
            result.deep_view(),
        ),
        Ok(_) => false,
        Err(error) => outcome == Err::<PendingView, ErrorView>(error.deep_view()),
    }
}

/// Whether a change was refused with an error and left the ledger as it was.
pub open spec fn refused(
    before: Ledger,
    after: Ledger,
    result: Result<Output>,
    error: ErrorView,
) -> bool {
    after == before && result is Err && result->Err_0.deep_view() == error
}

/// The transaction that an entry stands for.
pub open spec fn entry_input(
    kind: Kind,
    category: Option<Text>,
    original_id: Option<Text>,
    entry: EntryArgs,
    date: Text,
) -> NewTransaction<Text> {
    NewTransaction {
        kind,
        amount: entry.amount,
        date,
        occurred_at: entry.occurred_at.deep_view(),
        category,
        note: entry.note.deep_view(),
        channel: entry.channel.deep_view(),
        original_id,
    }
}

/// What recording an entry does and answers.
pub open spec fn entry_recorded(
    before: Ledger,
    kind: Kind,
    category: Option<Text>,
    original_id: Option<Text>,
    entry: EntryArgs,
    today: Text,
    stamp: Stamp<Text>,
    after: Ledger,
    result: Result<Output>,
) -> bool {
    match dated(entry.date.deep_view(), entry.occurred_at.deep_view(), today) {
        Err(error) => refused(before, after, result, error),
        Ok(date) => {
            let change = store::added(
                before,
                entry_input(kind, category, original_id, entry, date),
                entry.request_id.deep_view(),
                stamp,
            );
            after == change.0 && is_write(result, change.1)
        },
    }
}

/// The kind that a list is about.
pub open spec fn listed_kind(kind: Option<Text>) -> core::result::Result<Option<Kind>, ErrorView> {
    match kind {
        None => Ok(None),
        Some(name) => match models::named_kind(name) {
            Ok(kind) => Ok(Some(kind)),
            Err(error) => Err(error),
        },
    }
}

/// What a command about foreign purchases does and answers.
pub open spec fn pending_executed(
    before: Ledger,
    command: PendingCommand,
    today: Text,
    stamp: Stamp<Text>,
    after: Ledger,
    result: Result<Output>,
) -> bool {
    match command {
        PendingCommand::Add {
            currency,
            amount,
            date,
            occurred_at,
            category,
            merchant,
            note,
            channel,
            request_id,
        } => match dated(date.deep_view(), occurred_at.deep_view(), today) {
            Err(error) => refused(before, after, result, error),
            Ok(date) => {
                let input = NewPendingExpense {
                    currency: currency@,
                    amount: amount@,
                    date,
                    occurred_at: occurred_at.deep_view(),
                    category: category.deep_view(),
                    merchant: merchant.deep_view(),
                    note: note.deep_view(),
                    channel: channel.deep_view(),
                };
                let change = pending::pending_added(before, input, request_id.deep_view(), stamp);
                after == change.0 && is_pending_write(result, change.1)
            },
        },
        PendingCommand::Record { input, request_id } => {
            let change = pending::pending_added(
                before,
                input.deep_view(),
                request_id.deep_view(),
                stamp,
            );
            after == change.0 && is_pending_write(result, change.1)
        },
        PendingCommand::List { query, status } => after == before && is_pending_list(
            result,
            before,
            pending_filters_of(query, status.deep_view(), false, today),
        ),
        PendingCommand::Due { query } => after == before && is_pending_list(
            result,
            before,
            pending_filters_of(query, None, true, today),
        ),
        PendingCommand::Show { id } => after == before && match result {
            Ok(Output::PendingDetail { detail }) => pending_query::pending_detailed(before, id@)
                == Ok::<models::PendingDetail<Text>, ErrorView>(detail.deep_view()),
            Ok(_) => false,
            Err(error) => pending_query::pending_detailed(before, id@) == Err::<
                models::PendingDetail<Text>,
                ErrorView,
            >(error.deep_view()),
        },
        PendingCommand::Confirm { id, amount, posted_date, request_id } => {
            let change = pending::pending_confirmed(
                before,
                id@,
                ConfirmPendingExpense { amount, posted_date: posted_date.deep_view() },
                request_id.deep_view(),
                stamp,
            );
            after == change.0 && is_pending_write(result, change.1)
        },
        PendingCommand::Cancel { id, request_id } => {
            let change = pending::pending_changed(
                before,
                id@,
                None,
                request_id.deep_view(),
                stamp.now,
            );
            after == change.0 && is_pending_write(result, change.1)
        },
        PendingCommand::Snooze { id, until, request_id } => {
            let change = pending::pending_snoozed(
                before,
                id@,
                until@,
                request_id.deep_view(),
                stamp.now,
            );
            after == change.0 && is_pending_write(result, change.1)
        },
        PendingCommand::History { id } => after == before && match result {
            Ok(Output::PendingHistory { records }) => pending_query::pending_history(before, id@)
                == Ok::<Seq<models::PendingAuditRecord<Text>>, ErrorView>(records.deep_view()),
            Ok(_) => false,
            Err(error) => pending_query::pending_history(before, id@) == Err::<
                Seq<models::PendingAuditRecord<Text>>,
                ErrorView,
            >(error.deep_view()),
        },
    }
}

/// Whether an answer is a page of foreign purchases.
pub open spec fn is_pending_list(
    result: Result<Output>,
    ledger: Ledger,
    filters: PendingFilters<Text>,
) -> bool {
    match result {
        Ok(Output::PendingList { page }) => pending_query::pending_listed(ledger, filters) == Ok::<
            models::PendingListResult<Text, Seq<models::PendingExpenseRecord<Text>>>,
            ErrorView,
        >(page.deep_view()),
        Ok(_) => false,
        Err(error) => pending_query::pending_listed(ledger, filters) == Err::<
            models::PendingListResult<Text, Seq<models::PendingExpenseRecord<Text>>>,
            ErrorView,
        >(error.deep_view()),
    }
}

/// What a command does to a ledger and answers.
pub open spec fn executed(
    before: Ledger,
    command: Command,
    today: Text,
    stamp: Stamp<Text>,
    after: Ledger,
    result: Result<Output>,
) -> bool {
    match command {
        Command::Add { kind, category, entry } => entry_recorded(
            before,
            kind,
            category.deep_view(),
            None,
            entry,
            today,
            stamp,
            after,
            result,
        ),
        Command::Refund { id, entry } => entry_recorded(
            before,
            Kind::Refund,
            None,
            Some(id@),
            entry,
            today,
            stamp,
            after,
            result,
        ),
        Command::Record { input, request_id } => {
            let change = store::added(before, input.deep_view(), request_id.deep_view(), stamp);
            after == change.0 && is_write(result, change.1)
        },
        Command::List { filter, kind, include_voided, limit, offset } => after == before
            && match listed_kind(kind.deep_view()) {
            Err(error) => refused(before, after, result, error),
            Ok(kind) => {
                let outcome = query::listed(
                    before,
                    Filters { kind, include_voided, limit, offset, ..filters_of(filter) },
                );
                match result {
                    Ok(Output::List { page }) => outcome == Ok::<
                        models::ListResult<Seq<models::TransactionRecord<Text>>>,
                        ErrorView,
                    >(page.deep_view()),
                    Ok(_) => false,
                    Err(error) => outcome == Err::<
                        models::ListResult<Seq<models::TransactionRecord<Text>>>,
                        ErrorView,
                    >(error.deep_view()),
                }
            },
        },
        Command::Show { id } => after == before && match result {
            Ok(Output::Detail { detail }) => query::detailed(before, id@) == Ok::<
                models::TransactionDetail<Text, Seq<models::TransactionRecord<Text>>>,
                ErrorView,
            >(detail.deep_view()),
            Ok(_) => false,
            Err(error) => query::detailed(before, id@) == Err::<
                models::TransactionDetail<Text, Seq<models::TransactionRecord<Text>>>,
                ErrorView,
            >(error.deep_view()),
        },
        Command::Summary { filter } => after == before && match result {
            Ok(Output::Summary { summary }) => summary::summarized(before, filters_of(filter))
                == Ok::<summary::SummaryView, ErrorView>(summary.deep_view()),
            Ok(_) => false,
            Err(error) => summary::summarized(before, filters_of(filter)) == Err::<
                summary::SummaryView,
                ErrorView,
            >(error.deep_view()),
        },
        Command::Edit { id, patch, request_id } => {
            let change = store::updated(
                before,
                id@,
                patch.deep_view(),
                request_id.deep_view(),
                stamp.now,
            );
            after == change.0 && is_write(result, change.1)
        },
        Command::Void { id, cascade_refunds, request_id } => {
            let change = store::voided(
                before,
                id@,
                cascade_refunds,
                request_id.deep_view(),
                stamp.now,
            );
            after == change.0 && is_write(result, change.1)
        },
        Command::History { id } => after == before && match result {
            Ok(Output::History { records }) => query::history(before, id@) == Ok::<
                Seq<models::AuditRecord<Text>>,
                ErrorView,
            >(records.deep_view()),
            Ok(_) => false,
            Err(error) => query::history(before, id@) == Err::<
                Seq<models::AuditRecord<Text>>,
                ErrorView,
            >(error.deep_view()),
        },
        Command::Category { command: CategoryCommand::List } => after == before && match result {
            Ok(Output::Categories { categories }) => categories.deep_view() == order::sorted::<
                models::Category,
                query::ByKind,
            >(before.categories),
            _ => false,
        },
        Command::Category { command: CategoryCommand::Add { name, kind } } => {
            let change = query::category_added(before, name@, kind);
            after == change.0 && match result {
                Ok(Output::Category { category }) => change.1 == Ok::<
                    models::Category<Text>,
                    ErrorView,
                >(category.deep_view()),
                Ok(_) => false,
                Err(error) => change.1 == Err::<models::Category<Text>, ErrorView>(
                    error.deep_view(),
                ),
            }
        },
        Command::Pending { command } => pending_executed(
            before,
            command,
            today,
            stamp,
            after,
            result,
        ),
    }
}

fn borrowed(text: &Option<String>) -> (result: Option<&str>)
    ensures
        result.deep_view() == text.deep_view(),
{
    match text {
        Some(text) => Some(text.as_str()),
        None => None,
    }
}

fn written(result: Result<models::WriteResult>) -> (output: Result<Output>)
    ensures
        is_write(output, error::outcome(result)),
{
    match result {
        Ok(result) => Ok(Output::Write { result }),
        Err(error) => Err(error),
    }
}

fn pending_written(result: Result<models::PendingWriteResult>) -> (output: Result<Output>)
    ensures
        is_pending_write(output, error::outcome(result)),
{
    match result {
        Ok(result) => Ok(Output::PendingWrite { result }),
        Err(error) => Err(error),
    }
}

fn record_entry(
    store: &mut Store,
    kind: Kind,
    category: Option<String>,
    original_id: Option<String>,
    entry: EntryArgs,
    today: &str,
    stamp: &Stamp,
) -> (result: Result<Output>)
    ensures
        entry_recorded(
            old(store).deep_view(),
            kind,
            category.deep_view(),
            original_id.deep_view(),
            entry,
            today@,
            stamp.deep_view(),
            final(store).deep_view(),
            result,
        ),
        ledger::sound(old(store).deep_view()) ==> ledger::sound(final(store).deep_view()),
{
    let date = match entry_date(&entry.date, &entry.occurred_at, today) {
        Err(error) => {
            return Err(error);
        },
        Ok(date) => date,
    };
    let request_id = entry.request_id;
    let input = NewTransaction {
        kind,
        amount: entry.amount,
        date,
        occurred_at: entry.occurred_at,
        category,
        note: entry.note,
        channel: entry.channel,
        original_id,
    };
    written(store.add_with(input, borrowed(&request_id), stamp))
}

/// Carries out a command about foreign purchases, with the stamp given.
pub fn execute_pending(store: &mut Store, command: PendingCommand, today: &str, stamp: &Stamp) -> (
    result: Result<Output>)
    ensures
        pending_executed(
            old(store).deep_view(),
            command,
            today@,
            stamp.deep_view(),
            final(store).deep_view(),
            result,
        ),
        ledger::sound(old(store).deep_view()) ==> ledger::sound(final(store).deep_view()),
{
    match command {
        PendingCommand::Add {
            currency,
            amount,
            date,
            occurred_at,
            category,
            merchant,
            note,
            channel,
            request_id,
        } => {
            let date = match entry_date(&date, &occurred_at, today) {
                Err(error) => {
                    return Err(error);
                },
                Ok(date) => date,
            };
            let input = NewPendingExpense {
                currency,
                amount,
                date,
                occurred_at,
                category,
                merchant,
                note,
                channel,
            };
            pending_written(store.add_pending_with(input, borrowed(&request_id), stamp))
        },
        PendingCommand::Record { input, request_id } => pending_written(
            store.add_pending_with(input, borrowed(&request_id), stamp),
        ),
        PendingCommand::List { query, status } => match store.list_pending(
            &query.filters(status, false, today),
        ) {
            Ok(page) => Ok(Output::PendingList { page }),
            Err(error) => Err(error),
        },
        PendingCommand::Due { query } => match store.list_pending(
            &query.filters(None, true, today),
        ) {
            Ok(page) => Ok(Output::PendingList { page }),
            Err(error) => Err(error),
        },
        PendingCommand::Show { id } => match store.get_pending(id.as_str()) {
            Ok(detail) => Ok(Output::PendingDetail { detail }),
            Err(error) => Err(error),
        },
        PendingCommand::Confirm { id, amount, posted_date, request_id } => pending_written(
            store.confirm_pending_with(
                id.as_str(),
                ConfirmPendingExpense { amount, posted_date },
                borrowed(&request_id),
                stamp,
            ),
        ),
        PendingCommand::Cancel { id, request_id } => pending_written(
            store.cancel_pending_with(id.as_str(), borrowed(&request_id), stamp.now.as_str()),
        ),
        PendingCommand::Snooze { id, until, request_id } => pending_written(
            store.snooze_pending_with(
                id.as_str(),
                until.as_str(),
                borrowed(&request_id),
                stamp.now.as_str(),
            ),
        ),
        PendingCommand::History { id } => match store.pending_history(id.as_str()) {
            Ok(records) => Ok(Output::PendingHistory { records }),
            Err(error) => Err(error),
        },
    }
}

/// Carries out a command, with the stamp given.
pub fn execute_with(store: &mut Store, command: Command, today: &str, stamp: &Stamp) -> (result:
    Result<Output>)
    ensures
        executed(
            old(store).deep_view(),
            command,
            today@,
            stamp.deep_view(),
            final(store).deep_view(),
            result,
        ),
        ledger::sound(old(store).deep_view()) ==> ledger::sound(final(store).deep_view()),
{
    match command {
        Command::Add { kind, category, entry } => record_entry(
            store,
            kind,
            category,
            None,
            entry,
            today,
            stamp,
        ),
        Command::Refund { id, entry } => record_entry(
            store,
            Kind::Refund,
            None,
            Some(id),
            entry,
            today,
            stamp,
        ),
        Command::Record { input, request_id } => written(
            store.add_with(input, borrowed(&request_id), stamp),
        ),
        Command::List { filter, kind, include_voided, limit, offset } => {
            let kind = match &kind {
                Some(name) => match Kind::parse(name.as_str()) {
                    Ok(kind) => Some(kind),
                    Err(error) => {
                        return Err(error);
                    },
                },
                None => None,
            };
            let mut filters = filter.filters();
            filters.kind = kind;
            filters.include_voided = include_voided;
            filters.limit = limit;
            filters.offset = offset;
            match store.list(&filters) {
                Ok(page) => Ok(Output::List { page }),
                Err(error) => Err(error),
            }
        },
        Command::Show { id } => match store.get(id.as_str()) {
            Ok(detail) => Ok(Output::Detail { detail }),
            Err(error) => Err(error),
        },
        Command::Summary { filter } => match store.summary(&filter.filters()) {
            Ok(summary) => Ok(Output::Summary { summary }),
            Err(error) => Err(error),
        },
        Command::Edit { id, patch, request_id } => written(
            store.update_with(id.as_str(), patch, borrowed(&request_id), stamp.now.as_str()),
        ),
        Command::Void { id, cascade_refunds, request_id } => written(
            store.void_with(
                id.as_str(),
                cascade_refunds,
                borrowed(&request_id),
                stamp.now.as_str(),
            ),
        ),
        Command::History { id } => match store.history(id.as_str()) {
            Ok(records) => Ok(Output::History { records }),
            Err(error) => Err(error),
        },
        Command::Category { command: CategoryCommand::List } => match store.categories() {
            Ok(categories) => Ok(Output::Categories { categories }),
            Err(error) => Err(error),
        },
        Command::Category {
            command: CategoryCommand::Add { name, kind },
        } => match store.add_category(name.as_str(), kind) {
            Ok(category) => Ok(Output::Category { category }),
            Err(error) => Err(error),
        },
        Command::Pending { command } => execute_pending(store, command, today, stamp),
    }
}

/// Carries out a command.
pub fn execute(store: &mut Store, command: Command, today: &str) -> (result: Result<Output>)
    ensures
        exists|stamp: Stamp<Text>|
            stamp::is_stamp(stamp) && #[trigger] executed(
                old(store).deep_view(),
                command,
                today@,
                stamp,
                final(store).deep_view(),
                result,
            ),
        ledger::sound(old(store).deep_view()) ==> ledger::sound(final(store).deep_view()),
{
    let stamp = stamp::stamp();
    execute_with(store, command, today, &stamp)
}

/// A command that fails leaves the ledger as it was.
pub proof fn law_failed_commands_change_nothing(
    before: Ledger,
    command: Command,
    today: Text,
    stamp: Stamp<Text>,
    after: Ledger,
    result: Result<Output>,
)
    requires
        executed(before, command, today, stamp, after, result),
        result is Err,
    ensures
        after == before,
{
}

} // verus!
