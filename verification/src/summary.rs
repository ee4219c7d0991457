//! Totals of a period in exact minor units.
use vstd::prelude::*;

use crate::error;
use crate::error::{ErrorView, Result};
use crate::ledger;
use crate::ledger::Ledger;
use crate::models::{
    CategorySummary, Filters, Kind, PendingCurrencySummary, Summary, TransactionRecord,
};
use crate::money;
use crate::order;
use crate::pending_query;
use crate::query;
use crate::store::Store;
use crate::text;
use crate::text::Text;

verus! {

/// A summary, in contracts.
pub type SummaryView = Summary<
    Text,
    Seq<CategorySummary<Text>>,
    Seq<PendingCurrencySummary<Text>>,
>;

/// The sums of the three kinds of transactions.
#[derive(Debug, Clone, Copy)]
pub struct Totals {
    pub income: i128,
    pub expense: i128,
    pub refund: i128,
}

/// The sum of one kind.
pub open spec fn sum_of(totals: Totals, kind: Kind) -> i128 {
    match kind {
        Kind::Income => totals.income,
        Kind::Expense => totals.expense,
        Kind::Refund => totals.refund,
    }
}

/// The sums with that of one kind replaced.
pub open spec fn with_sum(totals: Totals, kind: Kind, sum: i128) -> Totals {
    match kind {
        Kind::Income => Totals { income: sum, ..totals },
        Kind::Expense => Totals { expense: sum, ..totals },
        Kind::Refund => Totals { refund: sum, ..totals },
    }
}

impl Totals {
    pub fn new() -> (totals: Totals)
        ensures
            totals == (Totals { income: 0, expense: 0, refund: 0 }),
    {
        Totals { income: 0, expense: 0, refund: 0 }
    }

    /// Adds an amount to the sum of its kind; nothing changes where the sum is out of range.
    pub fn add(&mut self, kind: Kind, amount: i128) -> (result: Result<()>)
        ensures
            match query::in_range(sum_of(*old(self), kind) + amount) {
                Ok(sum) => error::outcome(result) == Ok::<(), ErrorView>(()) && *final(self)
                    == with_sum(*old(self), kind, sum),
                Err(error) => error::outcome(result) == Err::<(), ErrorView>(error) && *final(self)
                    == *old(self),
            },
    {
        let value = match kind {
            Kind::Income => self.income,
            Kind::Expense => self.expense,
            Kind::Refund => self.refund,
        };
        match query::checked_add(value, amount) {
            Err(error) => {
                return Err(error);
            },
            Ok(sum) => match kind {
                Kind::Income => {
                    self.income = sum;
                },
                Kind::Expense => {
                    self.expense = sum;
                },
                Kind::Refund => {
                    self.refund = sum;
                },
            },
        }
        Ok(())
    }

    /// The expenses less the refunds.
    pub fn net(&self) -> (result: Result<i128>)
        ensures
            error::outcome(result) == query::in_range(self.expense - self.refund),
    {
        query::checked_sub(self.expense, self.refund)
    }
}

/// Whether a transaction counts towards the sum of a kind, in one category or in all.
pub open spec fn counts(
    record: TransactionRecord<Text>,
    kind: Kind,
    category: Option<Text>,
) -> bool {
    record.kind == kind && (category is None || category == Some(record.category))
}

/// The sum of the amounts of one kind, in one category or in all.
pub open spec fn total(
    records: Seq<TransactionRecord<Text>>,
    kind: Kind,
    category: Option<Text>,
) -> int
    decreases records.len(),
{
    if records.len() == 0 {
        0
    } else {
        total(records.drop_last(), kind, category) + if counts(records.last(), kind, category) {
            records.last().amount.0 as int
        } else {
            0
        }
    }
}

/// The expenses less the refunds, in one category or in all.
pub open spec fn net(records: Seq<TransactionRecord<Text>>, category: Option<Text>) -> int {
    total(records, Kind::Expense, category) - total(records, Kind::Refund, category)
}

/// The sums of all kinds together stay in range, whatever the amounts are.
proof fn lemma_total_bounds(records: Seq<TransactionRecord<Text>>, category: Option<Text>)
    ensures
        text::magnitude(total(records, Kind::Income, category)) + text::magnitude(
            total(records, Kind::Expense, category),
        ) + text::magnitude(total(records, Kind::Refund, category)) <= 0x8000_0000_0000_0000
            * records.len(),
    decreases records.len(),
{
    if records.len() > 0 {
        lemma_total_bounds(records.drop_last(), category);
    }
}

/// No total of a ledger in memory overflows: every sum, the net expense and the balance are in
/// the range of the integers that they are kept in.
pub proof fn law_totals_never_overflow(
    records: Seq<TransactionRecord<Text>>,
    kind: Kind,
    category: Option<Text>,
)
    requires
        records.len() <= u64::MAX,
    ensures
        i128::MIN <= total(records, kind, category) <= i128::MAX,
        i128::MIN <= net(records, category) <= i128::MAX,
        i128::MIN <= total(records, Kind::Income, category) - net(records, category) <= i128::MAX,
{
    lemma_total_bounds(records, category);
    assert(0x8000_0000_0000_0000 * records.len() <= 0x8000_0000_0000_0000 * u64::MAX);
}

/// The categories of transactions, one by one.
pub open spec fn categories_of(records: Seq<TransactionRecord<Text>>) -> Seq<Text> {
    Seq::new(records.len(), |i: int| records[i].category)
}

/// The totals of one category.
pub open spec fn category_summary(
    records: Seq<TransactionRecord<Text>>,
    category: Text,
) -> CategorySummary<Text> {
    CategorySummary {
        category,
        income: money::minor_text(total(records, Kind::Income, Some(category))),
        expense: money::minor_text(total(records, Kind::Expense, Some(category))),
        refund: money::minor_text(total(records, Kind::Refund, Some(category))),
        net_expense: money::minor_text(net(records, Some(category))),
    }
}

/// The totals of some categories.
pub open spec fn category_summaries(
    records: Seq<TransactionRecord<Text>>,
    categories: Seq<Text>,
) -> Seq<CategorySummary<Text>> {
    Seq::new(categories.len(), |i: int| category_summary(records, categories[i]))
}

/// What asking for the totals of a period answers. Voided transactions never count, and foreign
/// purchases that await confirmation are reported apart.
pub open spec fn summarized(ledger: Ledger, filters: Filters<Text>) -> core::result::Result<
    SummaryView,
    ErrorView,
> {
    match (
        query::checked_filters(filters),
        ledger::records_of(
            ledger,
            ledger.transactions.filter(query::asks_for(ledger, filters, false)),
        ),
        pending_query::awaited_totals(ledger, filters),
    ) {
        (Err(error), _, _) => Err(error),
        (_, None, _) => Err(ledger::no_category_error()),
        (_, _, Err(error)) => Err(error),
        (Ok(_), Some(found), Ok((pending_count, pending_by_currency))) => {
            if found.len() > i64::MAX {
                Err(query::overflow_error())
            } else {
                Ok(
                    Summary {
                        currency: "CNY"@,
                        count: found.len() as i64,
                        income: money::minor_text(total(found, Kind::Income, None)),
                        expense: money::minor_text(total(found, Kind::Expense, None)),
                        refund: money::minor_text(total(found, Kind::Refund, None)),
                        net_expense: money::minor_text(net(found, None)),
                        balance: money::minor_text(
                            total(found, Kind::Income, None) - net(found, None),
                        ),
                        by_category: category_summaries(
                            found,
                            order::distinct(categories_of(found)),
                        ),
                        pending_count,
                        pending_by_currency,
                    },
                )
            }
        },
    }
}

fn totals_of(records: &Vec<TransactionRecord>, category: Option<&str>) -> (result: Result<Totals>)
    ensures
        result matches Ok(totals) && {
            &&& totals.income == total(records.deep_view(), Kind::Income, category.deep_view())
            &&& totals.expense == total(records.deep_view(), Kind::Expense, category.deep_view())
            &&& totals.refund == total(records.deep_view(), Kind::Refund, category.deep_view())
        },
{
    let ghost all = records.deep_view();
    let ghost wanted = category.deep_view();
    let mut totals = Totals::new();
    let mut i: usize = 0;
    while i < records.len()
        invariant
            all == records.deep_view(),
            wanted == category.deep_view(),
            i <= records.len(),
            totals.income == total(all.take(i as int), Kind::Income, wanted),
            totals.expense == total(all.take(i as int), Kind::Expense, wanted),
            totals.refund == total(all.take(i as int), Kind::Refund, wanted),
        decreases records.len() - i,
    {
        let record = &records[i];
        proof {
            assert(all.take(i + 1).drop_last() =~= all.take(i as int));
            assert(all.take(i + 1).last() == all[i as int]);
            law_totals_never_overflow(all.take(i + 1), record.kind, wanted);
        }
        let fits = match category {
            Some(category) => text::same(record.category.as_str(), category),
            None => true,
        };
        if fits {
            match totals.add(record.kind, record.amount.minor() as i128) {
                Err(error) => {
                    return Err(error);
                },
                Ok(_) => {},
            }
        }
        i += 1;
    }
    assert(all.take(i as int) =~= all);
    Ok(totals)
}

fn summarize_category(records: &Vec<TransactionRecord>, category: &str) -> (result: Result<
    CategorySummary,
>)
    ensures
        error::outcome(result) == Ok::<CategorySummary<Text>, ErrorView>(
            category_summary(records.deep_view(), category@),
        ),
{
    assert(records.deep_view().len() == records.len());
    proof {
        law_totals_never_overflow(records.deep_view(), Kind::Expense, Some(category@));
    }
    let totals = match totals_of(records, Some(category)) {
        Err(error) => {
            return Err(error);
        },
        Ok(totals) => totals,
    };
    let net_expense = match totals.net() {
        Err(error) => {
            return Err(error);
        },
        Ok(net_expense) => net_expense,
    };
    Ok(
        CategorySummary {
            category: category.to_owned(),
            income: money::format_minor(totals.income),
            expense: money::format_minor(totals.expense),
            refund: money::format_minor(totals.refund),
            net_expense: money::format_minor(net_expense),
        },
    )
}

fn summarize_categories(records: &Vec<TransactionRecord>) -> (result: Result<Vec<CategorySummary>>)
    ensures
        error::outcome(result) == Ok::<Seq<CategorySummary<Text>>, ErrorView>(
            category_summaries(
                records.deep_view(),
                order::distinct(categories_of(records.deep_view())),
            ),
        ),
{
    let ghost all = records.deep_view();
    let mut used: Vec<String> = Vec::new();
    let mut i: usize = 0;
    while i < records.len()
        invariant
            all == records.deep_view(),
            i <= records.len(),
            used.deep_view() == categories_of(all).take(i as int),
        decreases records.len() - i,
    {
        used.push(records[i].category.clone());
        i += 1;
        assert(categories_of(all).take(i as int) =~= categories_of(all).take(i - 1).push(
            all[i - 1].category,
        ));
    }
    assert(categories_of(all).take(i as int) =~= categories_of(all));
    let categories = order::distinct_texts(&used);
    let ghost expected = category_summaries(all, categories.deep_view());
    let mut summaries: Vec<CategorySummary> = Vec::new();
    let mut k: usize = 0;
    while k < categories.len()
        invariant
            all == records.deep_view(),
            expected == category_summaries(all, categories.deep_view()),
            k <= categories.len(),
            summaries.deep_view() == expected.take(k as int),
        decreases categories.len() - k,
    {
        assert(categories.deep_view()[k as int] == categories@[k as int]@);
        match summarize_category(records, categories[k].as_str()) {
            Err(error) => {
                return Err(error);
            },
            Ok(summary) => {
                summaries.push(summary);
            },
        }
        k += 1;
        assert(expected.take(k as int) =~= expected.take(k - 1).push(expected[k - 1]));
    }
    assert(expected.take(k as int) =~= expected);
    Ok(summaries)
}

impl Store {
    /// The totals of a period. Voided transactions are left out and there are no pages.
    pub fn summary(&self, filters: &Filters) -> (result: Result<Summary>)
        ensures
            error::outcome(result) == summarized(self.deep_view(), filters.deep_view()),
    {
        match query::validate_filters(filters) {
            Err(error) => {
                return Err(error);
            },
            Ok(_) => {},
        }
        let found = match self.report_all(&self.select(filters, false)) {
            Err(error) => {
                return Err(error);
            },
            Ok(found) => found,
        };
        let (pending_count, pending_by_currency) = match self.pending_totals(filters) {
            Err(error) => {
                return Err(error);
            },
            Ok(totals) => totals,
        };
        assert(found.deep_view().len() == found.len());
        let count = match query::counted(found.len()) {
            Err(error) => {
                return Err(error);
            },
            Ok(count) => count,
        };
        proof {
            law_totals_never_overflow(found.deep_view(), Kind::Income, None);
        }
        let totals = match totals_of(&found, None) {
            Err(error) => {
                return Err(error);
            },
            Ok(totals) => totals,
        };
        let net_expense = match totals.net() {
            Err(error) => {
                return Err(error);
            },
            Ok(net_expense) => net_expense,
        };
        let balance = match query::checked_sub(totals.income, net_expense) {
            Err(error) => {
                return Err(error);
            },
            Ok(balance) => balance,
        };
        let by_category = match summarize_categories(&found) {
            Err(error) => {
                return Err(error);
            },
            Ok(by_category) => by_category,
        };
        Ok(
            Summary {
                currency: "CNY".to_owned(),
                count,
                income: money::format_minor(totals.income),
                expense: money::format_minor(totals.expense),
                refund: money::format_minor(totals.refund),
                net_expense: money::format_minor(net_expense),
                balance: money::format_minor(balance),
                by_category,
                pending_count,
                pending_by_currency,
            },
        )
    }
}

} // verus!
