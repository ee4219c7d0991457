//! What answers show and exports hold: all that they are about, and nothing made up.
use vstd::prelude::*;

use crate::archive;
use crate::archive::{AppliedMigration, BackupFactsView, BackupQuestion, Cell, KnownMigration};
use crate::error::ErrorView;
use crate::list_laws;
use crate::models::{
    CategorySummary, Kind, ListResult, PendingCurrencySummary, PendingDetail, PendingExpenseRecord,
    PendingListResult, PendingStatus, PendingWriteResult, Summary, TransactionDetail,
    TransactionRecord, WriteResult,
};
use crate::money;
use crate::report;
use crate::report::Output;
use crate::text;
use crate::text::Text;
use crate::update;
use crate::update::{Cache, Parts, Release};
use crate::value_laws;

verus! {

/// A text on one line: a space stands for every control code.
pub open spec fn on_one_line(text: Text) -> Text {
    Seq::new(
        text.len(),
        |i: int|
            if (text[i] as int) < 32 || 127 <= text[i] as int <= 159 {
                ' '
            } else {
                text[i]
            },
    )
}

/// What is shown of a text has no line break, and is the text itself where that has no control
/// code.
pub proof fn law_cells_are_on_one_line(text: Text)
    ensures
        report::cell_text(text) == on_one_line(text),
        !report::cell_text(text).contains('\n'),
        (forall|i: int| 0 <= i < text.len() ==> 32 <= (#[trigger] text[i] as int) < 127)
            ==> report::cell_text(text) == text,
{
    let shown = report::cell_text(text);
    assert(shown =~= on_one_line(text));
    assert forall|i: int| 0 <= i < shown.len() implies #[trigger] shown[i] != '\n' by {}
    if forall|i: int| 0 <= i < text.len() ==> 32 <= (#[trigger] text[i] as int) < 127 {
        assert(shown =~= text);
    }
}

/// What is behind a text takes nothing from it.
proof fn lemma_more(whole: Text, more: Text)
    ensures
        list_laws::has_part(whole + more, more),
        forall|part: Text|
            #![trigger list_laws::has_part(whole + more, part)]
            #![trigger list_laws::has_part(whole, part)]
            list_laws::has_part(whole, part) ==> list_laws::has_part(whole + more, part),
        forall|part: Text|
            #![trigger list_laws::has_part(whole + more, part)]
            #![trigger list_laws::has_part(more, part)]
            list_laws::has_part(more, part) ==> list_laws::has_part(whole + more, part),
{
    let sum = whole + more;
    let at = whole.len() as int;
    assert(sum.subrange(at, at + more.len()) =~= more);
    assert forall|part: Text| list_laws::has_part(whole, part) implies list_laws::has_part(
        sum,
        part,
    ) by {
        let at = choose|at: int|
            0 <= at && at + part.len() <= whole.len() && #[trigger] whole.subrange(
                at,
                at + part.len(),
            ) == part;
        assert(sum.subrange(at, at + part.len()) =~= part);
    }
    assert forall|part: Text| list_laws::has_part(more, part) implies list_laws::has_part(
        sum,
        part,
    ) by {
        let at = choose|at: int|
            0 <= at && at + part.len() <= more.len() && #[trigger] more.subrange(
                at,
                at + part.len(),
            ) == part;
        let there = whole.len() + at;
        assert(sum.subrange(there, there + part.len()) =~= part);
    }
}

/// Joining texts in another order gives the same.
proof fn lemma_joined(first: Text, second: Text, third: Text)
    ensures
        first + second + third == first + (second + third),
{
    assert(first + second + third =~= first + (second + third));
}

proof fn lemma_plain(value: nat)
    ensures
        forall|i: int|
            0 <= i < text::decimal(value).len() ==> 32 <= (#[trigger] text::decimal(
                value,
            )[i] as int) < 127,
{
    text::lemma_decimal(value);
    assert forall|i: int| 0 <= i < text::decimal(value).len() implies 32 <= (
    #[trigger] text::decimal(value)[i] as int) < 127 by {
        assert(text::is_digit(text::decimal(value)[i]));
    }
}

proof fn lemma_plain_amount(value: int)
    ensures
        report::cell_text(money::minor_text(value)) == money::minor_text(value),
{
    let amount = money::minor_text(value);
    let units = text::decimal(text::magnitude(value) / 100);
    lemma_plain(text::magnitude(value) / 100);
    let sign: int = if value < 0 {
        1
    } else {
        0
    };
    assert forall|i: int| 0 <= i < amount.len() implies 32 <= (#[trigger] amount[i] as int)
        < 127 by {
        if sign <= i < sign + units.len() {
            assert(amount[i] == units[i - sign]);
        }
    }
    law_cells_are_on_one_line(amount);
}

/// The line of a transaction shows its id, when it was, its amount, its kind, its category and its
/// note, and whether it is voided.
pub proof fn law_transaction_lines_show_everything(entry: TransactionRecord<Text>)
    ensures
        ({
            let line = report::entry_text(entry);
            &&& list_laws::has_part(line, on_one_line(entry.id))
            &&& entry.occurred_at is Some ==> list_laws::has_part(
                line,
                on_one_line(entry.occurred_at->0),
            )
            &&& entry.occurred_at is None ==> list_laws::has_part(line, on_one_line(entry.date))
            &&& list_laws::has_part(line, money::minor_text(entry.amount.0 as int) + " 元  "@)
            &&& entry.kind == Kind::Income ==> list_laws::has_part(line, "收入"@)
            &&& entry.kind == Kind::Expense ==> list_laws::has_part(line, "支出"@)
            &&& entry.kind == Kind::Refund ==> list_laws::has_part(line, "退款"@)
            &&& list_laws::has_part(line, on_one_line(entry.category))
            &&& entry.note is Some ==> list_laws::has_part(line, on_one_line(entry.note->0))
            &&& entry.voided ==> list_laws::has_part(line, " [已作废]"@)
        }),
{
    law_cells_are_on_one_line(entry.id);
    law_cells_are_on_one_line(entry.date);
    law_cells_are_on_one_line(entry.category);
    if let Some(time) = entry.occurred_at {
        law_cells_are_on_one_line(time);
    }
    if let Some(note) = entry.note {
        law_cells_are_on_one_line(note);
    }
    lemma_plain_amount(entry.amount.0 as int);
    let amount = money::minor_text(entry.amount.0 as int);
    let id = report::cell_text(entry.id);
    let when = report::when_text(entry.date, entry.occurred_at);
    let kind = report::kind_label(entry.kind);
    let category = report::cell_text(entry.category);
    let note = report::optional_text(entry.note);
    let end = if entry.voided {
        " [已作废]"@
    } else {
        ""@
    };
    lemma_more(Seq::empty(), id);
    assert(Seq::empty() + id =~= id);
    let s1 = id + "  "@;
    lemma_more(id, "  "@);
    let s2 = s1 + when;
    lemma_more(s1, when);
    let s3 = s2 + "  "@;
    lemma_more(s2, "  "@);
    let s4 = s3 + amount;
    let s5 = s4 + " 元  "@;
    assert(s5 =~= s3 + (amount + " 元  "@));
    lemma_more(s3, amount + " 元  "@);
    let s6 = s5 + kind;
    lemma_more(s5, kind);
    let s7 = s6 + "  "@;
    lemma_more(s6, "  "@);
    let s8 = s7 + category;
    lemma_more(s7, category);
    let s9 = s8 + "  "@;
    lemma_more(s8, "  "@);
    let s10 = s9 + note;
    lemma_more(s9, note);
    lemma_more(s10, end);
    assert(report::entry_text(entry) == s10 + end);
}

/// The line of a purchase shows its id, when it was, its amount and currency, its status, its
/// merchant, its category and its note, and while it awaits confirmation the day to be reminded.
pub proof fn law_purchase_lines_show_everything(entry: PendingExpenseRecord<Text>)
    ensures
        ({
            let line = report::pending_text(entry);
            &&& list_laws::has_part(line, on_one_line(entry.id))
            &&& entry.occurred_at is Some ==> list_laws::has_part(
                line,
                on_one_line(entry.occurred_at->0),
            )
            &&& entry.occurred_at is None ==> list_laws::has_part(line, on_one_line(entry.date))
            &&& list_laws::has_part(
                line,
                on_one_line(entry.amount) + " "@ + on_one_line(entry.currency),
            )
            &&& entry.status == PendingStatus::Pending ==> list_laws::has_part(
                line,
                "待确认人民币金额"@,
            ) && list_laws::has_part(line, "  提醒日 "@ + on_one_line(entry.remind_on))
            &&& entry.status == PendingStatus::Confirmed ==> list_laws::has_part(line, "已确认"@)
            &&& entry.status == PendingStatus::Cancelled ==> list_laws::has_part(line, "已取消"@)
            &&& entry.merchant is Some ==> list_laws::has_part(
                line,
                on_one_line(entry.merchant->0),
            )
            &&& list_laws::has_part(line, on_one_line(entry.category))
            &&& entry.note is Some ==> list_laws::has_part(line, on_one_line(entry.note->0))
        }),
{
    law_cells_are_on_one_line(entry.id);
    law_cells_are_on_one_line(entry.date);
    law_cells_are_on_one_line(entry.amount);
    law_cells_are_on_one_line(entry.currency);
    law_cells_are_on_one_line(entry.category);
    law_cells_are_on_one_line(entry.remind_on);
    if let Some(time) = entry.occurred_at {
        law_cells_are_on_one_line(time);
    }
    if let Some(note) = entry.note {
        law_cells_are_on_one_line(note);
    }
    if let Some(merchant) = entry.merchant {
        law_cells_are_on_one_line(merchant);
    }
    let id = report::cell_text(entry.id);
    let when = report::when_text(entry.date, entry.occurred_at);
    let amount = report::cell_text(entry.amount);
    let currency = report::cell_text(entry.currency);
    let status = report::status_label(entry.status);
    let merchant = report::optional_text(entry.merchant);
    let category = report::cell_text(entry.category);
    let note = report::optional_text(entry.note);
    lemma_more(Seq::empty(), id);
    assert(Seq::empty() + id =~= id);
    let s1 = id + "  "@;
    lemma_more(id, "  "@);
    let s2 = s1 + when;
    lemma_more(s1, when);
    let s3 = s2 + "  "@;
    lemma_more(s2, "  "@);
    let s4 = s3 + amount + " "@ + currency;
    assert(s4 =~= s3 + (amount + " "@ + currency));
    lemma_more(s3, amount + " "@ + currency);
    let s5 = s4 + "  ["@;
    lemma_more(s4, "  ["@);
    let s6 = s5 + status;
    lemma_more(s5, status);
    let s7 = s6 + "]  "@;
    lemma_more(s6, "]  "@);
    let s8 = s7 + merchant;
    lemma_more(s7, merchant);
    let s9 = s8 + "  "@;
    lemma_more(s8, "  "@);
    let s10 = s9 + category;
    lemma_more(s9, category);
    let s11 = s10 + "  "@;
    lemma_more(s10, "  "@);
    let s12 = s11 + note;
    lemma_more(s11, note);
    let remind = report::cell_text(entry.remind_on);
    lemma_more(s12, "  提醒日 "@ + remind);
    assert(s12 + "  提醒日 "@ + remind =~= s12 + ("  提醒日 "@ + remind));
}

proof fn lemma_entries(entries: Seq<TransactionRecord<Text>>, k: int)
    requires
        0 <= k < entries.len(),
    ensures
        list_laws::has_part(
            report::entries_text(entries),
            report::entry_text(entries[k]) + "\n"@,
        ),
    decreases entries.len(),
{
    let front = entries.drop_last();
    let line = report::entry_text(entries.last()) + "\n"@;
    assert(report::entries_text(entries) =~= report::entries_text(front) + line);
    lemma_more(report::entries_text(front), line);
    if k < front.len() {
        lemma_entries(front, k);
        assert(front[k] == entries[k]);
    }
}

proof fn lemma_purchases(entries: Seq<PendingExpenseRecord<Text>>, k: int)
    requires
        0 <= k < entries.len(),
    ensures
        list_laws::has_part(
            report::pendings_text(entries),
            report::pending_text(entries[k]) + "\n"@,
        ),
    decreases entries.len(),
{
    let front = entries.drop_last();
    let line = report::pending_text(entries.last()) + "\n"@;
    assert(report::pendings_text(entries) =~= report::pendings_text(front) + line);
    lemma_more(report::pendings_text(front), line);
    if k < front.len() {
        lemma_purchases(front, k);
        assert(front[k] == entries[k]);
    }
}

/// The lines of several transactions are those of each, one behind the other.
pub proof fn law_lines_follow_one_another(
    first: Seq<TransactionRecord<Text>>,
    second: Seq<TransactionRecord<Text>>,
)
    ensures
        report::entries_text(first + second) == report::entries_text(first) + report::entries_text(
            second,
        ),
        first.len() == 1 ==> report::entries_text(first) == report::entry_text(first[0]) + "\n"@,
    decreases second.len(),
{
    reveal_strlit("");
    if first.len() == 1 {
        assert(first.drop_last().len() == 0);
        assert(report::entries_text(first.drop_last()) == ""@);
        assert(report::entries_text(first) =~= report::entry_text(first[0]) + "\n"@);
    }
    if second.len() == 0 {
        assert(first + second =~= first);
        assert(report::entries_text(first) + report::entries_text(second) =~= report::entries_text(
            first,
        ));
    } else {
        law_lines_follow_one_another(first, second.drop_last());
        assert((first + second).drop_last() =~= first + second.drop_last());
        assert((first + second).last() == second.last());
        assert(report::entries_text(first + second) =~= report::entries_text(first)
            + report::entries_text(second));
    }
}

/// The lines of several purchases are those of each, one behind the other.
pub proof fn law_purchase_lines_follow_one_another(
    first: Seq<PendingExpenseRecord<Text>>,
    second: Seq<PendingExpenseRecord<Text>>,
)
    ensures
        report::pendings_text(first + second) == report::pendings_text(first)
            + report::pendings_text(second),
        first.len() == 1 ==> report::pendings_text(first) == report::pending_text(first[0])
            + "\n"@,
    decreases second.len(),
{
    reveal_strlit("");
    if first.len() == 1 {
        assert(first.drop_last().len() == 0);
        assert(report::pendings_text(first.drop_last()) == ""@);
        assert(report::pendings_text(first) =~= report::pending_text(first[0]) + "\n"@);
    }
    if second.len() == 0 {
        assert(first + second =~= first);
        assert(report::pendings_text(first) + report::pendings_text(second)
            =~= report::pendings_text(first));
    } else {
        law_purchase_lines_follow_one_another(first, second.drop_last());
        assert((first + second).drop_last() =~= first + second.drop_last());
        assert((first + second).last() == second.last());
        assert(report::pendings_text(first + second) =~= report::pendings_text(first)
            + report::pendings_text(second));
    }
}

/// What is shown of a list says how many transactions there are and how many are shown, and has a
/// line for each of these.
pub proof fn law_lists_show_every_item(page: ListResult)
    ensures
        ({
            let shown = report::output_text(Output::List { page });
            let items = page.items.deep_view();
            &&& shown is Some
            &&& list_laws::has_part(shown->0, "共 "@ + text::signed_decimal(page.total as int) + " 笔"@)
            &&& list_laws::has_part(
                shown->0,
                "当前显示 "@ + text::signed_decimal(items.len() as int) + " 笔\n"@,
            )
            &&& forall|k: int|
                0 <= k < items.len() ==> list_laws::has_part(
                    shown->0,
                    report::entry_text(#[trigger] items[k]) + "\n"@,
                )
        }),
{
    let items = page.items.deep_view();
    lemma_page_text(page.total as int, items.len() as int);
    let head = report::page_text(page.total as int, items.len() as int);
    let body = report::entries_text(items);
    lemma_more(head, body);
    assert forall|k: int| 0 <= k < items.len() implies list_laws::has_part(
        head + body,
        report::entry_text(#[trigger] items[k]) + "\n"@,
    ) by {
        lemma_entries(items, k);
    }
}

proof fn lemma_page_text(total: int, shown: int)
    ensures
        list_laws::has_part(
            report::page_text(total, shown),
            "共 "@ + text::signed_decimal(total) + " 笔"@,
        ),
        list_laws::has_part(
            report::page_text(total, shown),
            "当前显示 "@ + text::signed_decimal(shown) + " 笔\n"@,
        ),
{
    reveal_strlit(" 笔，当前显示 ");
    reveal_strlit(" 笔");
    reveal_strlit("当前显示 ");
    reveal_strlit(" 笔\n");
    let first = "共 "@ + text::signed_decimal(total) + " 笔"@;
    let second = "当前显示 "@ + text::signed_decimal(shown) + " 笔\n"@;
    assert(" 笔，当前显示 "@ =~= " 笔"@ + seq!['，'] + "当前显示 "@);
    assert(report::page_text(total, shown) =~= first + seq!['，'] + second);
    lemma_more(Seq::empty(), first);
    assert(Seq::empty() + first =~= first);
    lemma_more(first, seq!['，']);
    lemma_more(first + seq!['，'], second);
}

/// What is shown of a list of purchases says how many there are and how many are shown, and has a
/// line for each of these.
pub proof fn law_purchase_lists_show_every_item(page: PendingListResult)
    ensures
        ({
            let shown = report::output_text(Output::PendingList { page });
            let items = page.items.deep_view();
            &&& shown is Some
            &&& list_laws::has_part(shown->0, "共 "@ + text::signed_decimal(page.total as int) + " 笔"@)
            &&& list_laws::has_part(
                shown->0,
                "当前显示 "@ + text::signed_decimal(items.len() as int) + " 笔\n"@,
            )
            &&& forall|k: int|
                0 <= k < items.len() ==> list_laws::has_part(
                    shown->0,
                    report::pending_text(#[trigger] items[k]) + "\n"@,
                )
        }),
{
    let items = page.items.deep_view();
    lemma_page_text(page.total as int, items.len() as int);
    let head = report::page_text(page.total as int, items.len() as int);
    let body = report::pendings_text(items);
    lemma_more(head, body);
    assert forall|k: int| 0 <= k < items.len() implies list_laws::has_part(
        head + body,
        report::pending_text(#[trigger] items[k]) + "\n"@,
    ) by {
        lemma_purchases(items, k);
    }
}

proof fn lemma_categories(items: Seq<CategorySummary<Text>>, k: int)
    requires
        0 <= k < items.len(),
    ensures
        list_laws::has_part(report::categories_text(items), report::category_text(items[k])),
    decreases items.len(),
{
    let front = items.drop_last();
    lemma_more(report::categories_text(front), report::category_text(items.last()));
    if k < front.len() {
        lemma_categories(front, k);
        assert(front[k] == items[k]);
    }
}

proof fn lemma_currencies(items: Seq<PendingCurrencySummary<Text>>, k: int)
    requires
        0 <= k < items.len(),
    ensures
        list_laws::has_part(report::currencies_text(items), report::currency_text(items[k])),
    decreases items.len(),
{
    let front = items.drop_last();
    lemma_more(report::currencies_text(front), report::currency_text(items.last()));
    if k < front.len() {
        lemma_currencies(front, k);
        assert(front[k] == items[k]);
    }
}

/// The line of a category shows its name and its four sums, each behind its word.
pub proof fn law_category_lines_show_everything(item: CategorySummary<Text>)
    ensures
        ({
            let line = report::category_text(item);
            &&& list_laws::has_part(line, on_one_line(item.category) + "：收入 "@)
            &&& list_laws::has_part(line, "：收入 "@ + on_one_line(item.income))
            &&& list_laws::has_part(line, " / 支出 "@ + on_one_line(item.expense))
            &&& list_laws::has_part(line, " / 退款 "@ + on_one_line(item.refund))
            &&& list_laws::has_part(line, " / 净支出 "@ + on_one_line(item.net_expense) + " 元\n"@)
        }),
{
    law_cells_are_on_one_line(item.category);
    law_cells_are_on_one_line(item.income);
    law_cells_are_on_one_line(item.expense);
    law_cells_are_on_one_line(item.refund);
    law_cells_are_on_one_line(item.net_expense);
    let category = on_one_line(item.category);
    let p1 = "：收入 "@ + on_one_line(item.income);
    let p2 = " / 支出 "@ + on_one_line(item.expense);
    let p3 = " / 退款 "@ + on_one_line(item.refund);
    let p4 = " / 净支出 "@ + on_one_line(item.net_expense) + " 元\n"@;
    let s1 = category + p1;
    let s2 = s1 + p2;
    let s3 = s2 + p3;
    assert(report::category_text(item) == s3 + p4) by {
        lemma_joined(category, "：收入 "@, on_one_line(item.income));
        lemma_joined(s1, " / 支出 "@, on_one_line(item.expense));
        lemma_joined(s2, " / 退款 "@, on_one_line(item.refund));
        lemma_joined(s3, " / 净支出 "@, on_one_line(item.net_expense));
        lemma_joined(s3, " / 净支出 "@ + on_one_line(item.net_expense), " 元\n"@);
    }
    assert(list_laws::has_part(s1, category + "：收入 "@)) by {
        lemma_joined(category, "：收入 "@, on_one_line(item.income));
        lemma_more(Seq::empty(), category + "：收入 "@);
        assert(Seq::empty() + (category + "：收入 "@) =~= category + "：收入 "@);
        lemma_more(category + "：收入 "@, on_one_line(item.income));
    }
    lemma_more(category, p1);
    lemma_more(s1, p2);
    lemma_more(s2, p3);
    lemma_more(s3, p4);
}

/// The line of a currency shows the sum in it and the number of purchases.
pub proof fn law_currency_lines_show_everything(item: PendingCurrencySummary<Text>)
    ensures
        ({
            let line = report::currency_text(item);
            &&& list_laws::has_part(
                line,
                on_one_line(item.amount) + " "@ + on_one_line(item.currency),
            )
            &&& list_laws::has_part(
                line,
                "（"@ + text::signed_decimal(item.count as int) + " 笔）\n"@,
            )
        }),
{
    law_cells_are_on_one_line(item.amount);
    law_cells_are_on_one_line(item.currency);
    let first = on_one_line(item.amount) + " "@ + on_one_line(item.currency);
    let second = "（"@ + text::signed_decimal(item.count as int) + " 笔）\n"@;
    lemma_more(Seq::empty(), first);
    assert(Seq::empty() + first =~= first);
    lemma_more(first, second);
    let count = text::signed_decimal(item.count as int);
    lemma_joined(first, "（"@, count);
    lemma_joined(first, "（"@ + count, " 笔）\n"@);
}

/// What is shown of a summary has each sum behind its word, the number of transactions, the line of
/// every category and, where purchases await confirmation, their number and the line of every
/// currency.
pub proof fn law_summaries_show_everything(summary: Summary)
    ensures
        ({
            let shown = report::output_text(Output::Summary { summary });
            let sums = summary.deep_view();
            &&& shown is Some
            &&& list_laws::has_part(shown->0, "收入 "@ + on_one_line(sums.income))
            &&& list_laws::has_part(shown->0, " 元 | 支出 "@ + on_one_line(sums.expense))
            &&& list_laws::has_part(shown->0, " 元 | 退款 "@ + on_one_line(sums.refund))
            &&& list_laws::has_part(shown->0, " 元\n净支出 "@ + on_one_line(sums.net_expense))
            &&& list_laws::has_part(shown->0, " 元 | 收支结余 "@ + on_one_line(sums.balance))
            &&& list_laws::has_part(
                shown->0,
                " 元 | "@ + text::signed_decimal(sums.count as int) + " 笔\n"@,
            )
            &&& forall|k: int|
                0 <= k < sums.by_category.len() ==> list_laws::has_part(
                    shown->0,
                    report::category_text(#[trigger] sums.by_category[k]),
                )
            &&& sums.pending_count > 0 ==> {
                &&& list_laws::has_part(
                    shown->0,
                    "另有 "@ + text::signed_decimal(sums.pending_count as int)
                        + " 笔外币消费待确认，尚未计入人民币收支：\n"@,
                )
                &&& forall|k: int|
                    0 <= k < sums.pending_by_currency.len() ==> list_laws::has_part(
                        shown->0,
                        report::currency_text(#[trigger] sums.pending_by_currency[k]),
                    )
            }
        }),
{
    let sums = summary.deep_view();
    law_cells_are_on_one_line(sums.income);
    law_cells_are_on_one_line(sums.expense);
    law_cells_are_on_one_line(sums.refund);
    law_cells_are_on_one_line(sums.net_expense);
    law_cells_are_on_one_line(sums.balance);
    let p1 = "收入 "@ + on_one_line(sums.income);
    let p2 = " 元 | 支出 "@ + on_one_line(sums.expense);
    let p3 = " 元 | 退款 "@ + on_one_line(sums.refund);
    let p4 = " 元\n净支出 "@ + on_one_line(sums.net_expense);
    let p5 = " 元 | 收支结余 "@ + on_one_line(sums.balance);
    let p6 = " 元 | "@ + text::signed_decimal(sums.count as int) + " 笔\n"@;
    let body = report::categories_text(sums.by_category);
    let told = "另有 "@ + text::signed_decimal(sums.pending_count as int)
        + " 笔外币消费待确认，尚未计入人民币收支：\n"@;
    let last = report::currencies_text(sums.pending_by_currency);
    let end = if sums.pending_count > 0 {
        told + last
    } else {
        ""@
    };
    let s2 = p1 + p2;
    let s3 = s2 + p3;
    let s4 = s3 + p4;
    let s5 = s4 + p5;
    let head = s5 + p6;
    assert(report::summary_text(sums) == head + body + end) by {
        let count = text::signed_decimal(sums.count as int);
        lemma_joined(p1, " 元 | 支出 "@, on_one_line(sums.expense));
        lemma_joined(s2, " 元 | 退款 "@, on_one_line(sums.refund));
        lemma_joined(s3, " 元\n净支出 "@, on_one_line(sums.net_expense));
        lemma_joined(s4, " 元 | 收支结余 "@, on_one_line(sums.balance));
        lemma_joined(s5, " 元 | "@, count);
        lemma_joined(s5, " 元 | "@ + count, " 笔\n"@);
    }
    assert(list_laws::has_part(p1, p1)) by {
        lemma_more(Seq::empty(), p1);
        assert(Seq::empty() + p1 =~= p1);
    }
    lemma_more(p1, p2);
    lemma_more(s2, p3);
    lemma_more(s3, p4);
    lemma_more(s4, p5);
    lemma_more(s5, p6);
    lemma_more(head, body);
    lemma_more(head + body, end);
    if sums.pending_count > 0 {
        assert(list_laws::has_part(told, told)) by {
            lemma_more(Seq::empty(), told);
            assert(Seq::empty() + told =~= told);
        }
        lemma_more(told, last);
    }
    assert forall|k: int| 0 <= k < sums.by_category.len() implies list_laws::has_part(
        report::summary_text(sums),
        report::category_text(#[trigger] sums.by_category[k]),
    ) by {
        lemma_categories(sums.by_category, k);
    }
    if sums.pending_count > 0 {
        assert forall|k: int| 0 <= k < sums.pending_by_currency.len() implies list_laws::has_part(
            report::summary_text(sums),
            report::currency_text(#[trigger] sums.pending_by_currency[k]),
        ) by {
            lemma_currencies(sums.pending_by_currency, k);
        }
    }
}

/// What is shown of a transaction has its line, that of the purchase which it settles, what was
/// refunded, what is left of it, and the line of every refund.
pub proof fn law_details_show_everything(detail: TransactionDetail)
    ensures
        ({
            let shown = report::output_text(Output::Detail { detail });
            let parts = detail.deep_view();
            &&& shown is Some
            &&& list_laws::has_part(shown->0, report::entry_text(parts.transaction) + "\n"@)
            &&& parts.foreign_expense is Some ==> list_laws::has_part(
                shown->0,
                "原币消费：\n"@ + report::pending_text(parts.foreign_expense->0) + "\n"@,
            )
            &&& list_laws::has_part(shown->0, "累计退回 "@ + parts.refund_total + " 元"@)
            &&& parts.net_expense is Some ==> list_laws::has_part(
                shown->0,
                " | 净支出 "@ + parts.net_expense->0 + " 元"@,
            )
            &&& forall|k: int|
                0 <= k < parts.refunds.len() ==> list_laws::has_part(
                    shown->0,
                    report::entry_text(#[trigger] parts.refunds[k]) + "\n"@,
                )
        }),
{
    let parts = detail.deep_view();
    let p1 = report::entry_text(parts.transaction) + "\n"@;
    let p2 = match parts.foreign_expense {
        Some(pending) => "原币消费：\n"@ + report::pending_text(pending) + "\n"@,
        None => ""@,
    };
    let p3 = "累计退回 "@ + parts.refund_total + " 元"@;
    let p4 = match parts.net_expense {
        Some(net) => " | 净支出 "@ + net + " 元"@,
        None => ""@,
    };
    let body = report::entries_text(parts.refunds);
    lemma_more(Seq::empty(), p1);
    assert(Seq::empty() + p1 =~= p1);
    lemma_more(p1, p2);
    lemma_more(p1 + p2, p3);
    lemma_more(p1 + p2 + p3, p4);
    lemma_more(p1 + p2 + p3 + p4, "\n"@);
    lemma_more(p1 + p2 + p3 + p4 + "\n"@, body);
    assert(report::detail_text(parts) =~= p1 + p2 + p3 + p4 + "\n"@ + body);
    assert forall|k: int| 0 <= k < parts.refunds.len() implies list_laws::has_part(
        report::detail_text(parts),
        report::entry_text(#[trigger] parts.refunds[k]) + "\n"@,
    ) by {
        lemma_entries(parts.refunds, k);
    }
}

/// What is shown of a change has the line of the transaction, and says where it was a replay.
pub proof fn law_changes_are_shown(result: WriteResult)
    ensures
        ({
            let shown = report::output_text(Output::Write { result });
            let line = report::entry_text(result.transaction.deep_view()) + "\n"@;
            &&& shown is Some
            &&& !result.replayed ==> shown->0 == line
            &&& result.replayed ==> shown->0 == line
                + "重复请求：返回原操作结果，未重复执行。\n"@
        }),
{
    reveal_strlit("");
    let line = report::entry_text(result.transaction.deep_view()) + "\n"@;
    assert(line + ""@ =~= line);
}

proof fn lemma_purchase_text(
    pending: PendingExpenseRecord<Text>,
    transaction: Option<TransactionRecord<Text>>,
    replayed: bool,
)
    ensures
        ({
            let shown = report::purchase_text(pending, transaction, replayed);
            &&& list_laws::has_part(shown, report::pending_text(pending) + "\n"@)
            &&& replayed ==> list_laws::has_part(
                shown,
                "此前已处理，未重复执行；当前状态请用 pending show 查询。\n"@,
            )
            &&& transaction is Some ==> list_laws::has_part(
                shown,
                "关联人民币账单：\n"@ + report::entry_text(transaction->0) + "\n"@,
            )
            &&& pending.posted_date is Some ==> list_laws::has_part(
                shown,
                "银行入账日 "@ + on_one_line(pending.posted_date->0) + "\n"@,
            )
            &&& pending.confirmed_at is Some ==> list_laws::has_part(
                shown,
                "确认时间 "@ + on_one_line(pending.confirmed_at->0) + "\n"@,
            )
        }),
{
    if let Some(date) = pending.posted_date {
        law_cells_are_on_one_line(date);
    }
    if let Some(time) = pending.confirmed_at {
        law_cells_are_on_one_line(time);
    }
    let p1 = report::pending_text(pending) + "\n"@;
    let p2 = if replayed {
        "此前已处理，未重复执行；当前状态请用 pending show 查询。\n"@
    } else {
        ""@
    };
    let p3 = match transaction {
        Some(transaction) => "关联人民币账单：\n"@ + report::entry_text(transaction) + "\n"@,
        None => ""@,
    };
    let p4 = match pending.posted_date {
        Some(date) => "银行入账日 "@ + report::cell_text(date) + "\n"@,
        None => ""@,
    };
    let p5 = match pending.confirmed_at {
        Some(time) => "确认时间 "@ + report::cell_text(time) + "\n"@,
        None => ""@,
    };
    lemma_more(Seq::empty(), p1);
    assert(Seq::empty() + p1 =~= p1);
    lemma_more(p1, p2);
    lemma_more(p1 + p2, p3);
    lemma_more(p1 + p2 + p3, p4);
    lemma_more(p1 + p2 + p3 + p4, p5);
    assert(report::purchase_text(pending, transaction, replayed) == p1 + p2 + p3 + p4 + p5);
}

/// What is shown of a change of a purchase has its line, that of the expense which settles it, the
/// days of the confirmation, and says where it was a replay.
pub proof fn law_purchase_changes_are_shown(result: PendingWriteResult)
    ensures
        ({
            let shown = report::output_text(Output::PendingWrite { result });
            let pending = result.pending.deep_view();
            &&& shown is Some
            &&& list_laws::has_part(shown->0, report::pending_text(pending) + "\n"@)
            &&& result.replayed ==> list_laws::has_part(
                shown->0,
                "此前已处理，未重复执行；当前状态请用 pending show 查询。\n"@,
            )
            &&& result.transaction is Some ==> list_laws::has_part(
                shown->0,
                "关联人民币账单：\n"@ + report::entry_text(result.transaction->0.deep_view())
                    + "\n"@,
            )
            &&& pending.posted_date is Some ==> list_laws::has_part(
                shown->0,
                "银行入账日 "@ + on_one_line(pending.posted_date->0) + "\n"@,
            )
            &&& pending.confirmed_at is Some ==> list_laws::has_part(
                shown->0,
                "确认时间 "@ + on_one_line(pending.confirmed_at->0) + "\n"@,
            )
        }),
{
    lemma_purchase_text(
        result.pending.deep_view(),
        result.transaction.deep_view(),
        result.replayed,
    );
}

/// What is shown of a purchase has its line, that of the expense which settles it, and the days of
/// the confirmation.
pub proof fn law_purchases_are_shown(detail: PendingDetail)
    ensures
        ({
            let shown = report::output_text(Output::PendingDetail { detail });
            let pending = detail.pending.deep_view();
            &&& shown is Some
            &&& list_laws::has_part(shown->0, report::pending_text(pending) + "\n"@)
            &&& detail.transaction is Some ==> list_laws::has_part(
                shown->0,
                "关联人民币账单：\n"@ + report::entry_text(detail.transaction->0.deep_view())
                    + "\n"@,
            )
            &&& pending.posted_date is Some ==> list_laws::has_part(
                shown->0,
                "银行入账日 "@ + on_one_line(pending.posted_date->0) + "\n"@,
            )
            &&& pending.confirmed_at is Some ==> list_laws::has_part(
                shown->0,
                "确认时间 "@ + on_one_line(pending.confirmed_at->0) + "\n"@,
            )
        }),
{
    lemma_purchase_text(detail.pending.deep_view(), detail.transaction.deep_view(), false);
}

/// A row is exported exactly where each of its values can be, value by value: what is missing stays
/// so, a text stays as it is, and an integer becomes its decimal text.
pub proof fn law_rows_are_exported_whole(cells: Seq<Cell<Text>>)
    ensures
        archive::exported_row(cells) is Ok <==> forall|i: int|
            0 <= i < cells.len() ==> !(#[trigger] cells[i] is Other),
        archive::exported_row(cells) is Ok ==> {
            let values = archive::exported_row(cells)->Ok_0;
            &&& values.len() == cells.len()
            &&& forall|i: int|
                0 <= i < cells.len() ==> {
                    &&& #[trigger] cells[i] is Null ==> values[i] is None
                    &&& cells[i] is Text ==> values[i] == Some(cells[i]->Text_value)
                    &&& cells[i] is Integer ==> values[i] is Some && is_decimal_of(
                        values[i]->0,
                        cells[i]->Integer_value as int,
                    )
                }
        },
    decreases cells.len(),
{
    if cells.len() > 0 {
        let front = cells.drop_last();
        let last = cells.last();
        law_rows_are_exported_whole(front);
        assert(cells[cells.len() - 1] == last);
        assert forall|i: int| 0 <= i < front.len() implies front[i] == cells[i] by {}
        if let Cell::Integer { value } = last {
            law_integers_are_written(value as int);
        }
        if archive::exported_row(front) is Err {
            let i = choose|i: int| 0 <= i < front.len() && front[i] is Other;
            assert(cells[i] is Other);
        }
        if archive::exported_row(cells) is Ok {
            let values = archive::exported_row(cells)->Ok_0;
            assert forall|i: int| 0 <= i < cells.len() implies !(#[trigger] cells[i] is Other) by {
                if i < front.len() {
                    assert(!(front[i] is Other));
                }
            }
            assert forall|i: int| 0 <= i < cells.len() implies {
                &&& #[trigger] cells[i] is Null ==> values[i] is None
                &&& cells[i] is Text ==> values[i] == Some(cells[i]->Text_value)
                &&& cells[i] is Integer ==> values[i] is Some && is_decimal_of(
                    values[i]->0,
                    cells[i]->Integer_value as int,
                )
            } by {
                if i < front.len() {
                    assert(front[i] == cells[i]);
                    assert(values[i] == archive::exported_row(front)->Ok_0[i]);
                }
            }
        }
    }
}

/// Whether a text is the decimal numeral of an integer: digits without a zero in front, behind a
/// minus sign where the integer is negative.
pub open spec fn is_decimal_of(text: Text, value: int) -> bool {
    let digits = if value < 0 {
        text.skip(1)
    } else {
        text
    };
    &&& value < 0 ==> text.len() > 0 && text[0] == '-'
    &&& digits.len() > 0
    &&& text::all_digits(digits)
    &&& digits[0] == '0' ==> digits.len() == 1
    &&& text::decimal_value(digits) == if value < 0 {
        -value
    } else {
        value
    }
}

/// Every integer is written as its decimal numeral.
pub proof fn law_integers_are_written(value: int)
    ensures
        is_decimal_of(text::signed_decimal(value), value),
{
    let digits = text::decimal(text::magnitude(value));
    text::lemma_decimal(text::magnitude(value));
    value_laws::lemma_no_zero_in_front(text::magnitude(value));
    if value < 0 {
        assert(text::signed_decimal(value).skip(1) =~= digits);
    }
}

/// A backup is accepted exactly where it is that of a ledger, its integrity check said only `ok`, no
/// reference leads nowhere, and its migrations are the known ones from the first onward, each
/// completed and unchanged.
pub proof fn law_backups_are_accepted(
    application_id: i64,
    integrity: Seq<Text>,
    broken: usize,
    applied: Seq<AppliedMigration<Seq<u8>>>,
    known: Seq<KnownMigration<Seq<u8>>>,
)
    ensures
        archive::checked_archive(application_id, integrity, broken, applied, known) is Ok <==> {
            &&& application_id == 1129071960
            &&& integrity.len() == 1 && integrity[0] == "ok"@
            &&& broken == 0
            &&& 1 <= applied.len() <= known.len()
            &&& forall|i: int|
                0 <= i < applied.len() ==> (#[trigger] applied[i]).success && applied[i].version
                    == known[i].version && applied[i].checksum == known[i].checksum
        },
{
    if integrity.len() == 1 && integrity[0] == "ok"@ {
        assert(integrity =~= seq!["ok"@]);
    }
    assert(seq!["ok"@].len() == 1 && seq!["ok"@][0] == "ok"@);
}

/// There is a notice exactly where the running version and the tag, without the `v` in front, are
/// versions, the tag is not too long and no pre-release, and its version is the greater by the first
/// number that differs, or has the same numbers as a running pre-release.
pub proof fn law_notices_are_given(current: Text, latest_tag: Text)
    ensures
        ({
            let running = update::parts_of(current);
            let latest = update::parts_of(
                if latest_tag.len() > 0 && latest_tag[0] == 'v' {
                    latest_tag.skip(1)
                } else {
                    latest_tag
                },
            );
            &&& update::noticed(current, latest_tag) is Some <==> {
                &&& running is Some
                &&& latest is Some
                &&& vstd::utf8::encode_utf8(latest_tag).len() <= 128
                &&& latest->0.pre.len() == 0
                &&& exceeds(latest->0, running->0)
            }
            &&& update::noticed(current, latest_tag) is Some ==> {
                let told = update::noticed(current, latest_tag)->0;
                &&& list_laws::has_part(
                    told,
                    update::version_text(running->0) + " → "@ + update::version_text(latest->0),
                )
                &&& list_laws::has_part(
                    told,
                    "https://github.com/yuzheng14/claw-expense/releases/tag/"@ + latest_tag,
                )
            }
        }),
{
    if update::noticed(current, latest_tag) is Some {
        let running = update::parts_of(current)->0;
        let latest = update::parts_of(update::bare_tag(latest_tag))->0;
        let versions = update::version_text(running) + " → "@ + update::version_text(latest);
        let page = "https://github.com/yuzheng14/claw-expense/releases/tag/"@ + latest_tag;
        let begin = "[WARN] 有更新可用：claw-expense "@;
        reveal_strlit("；请手动更新：https://github.com/yuzheng14/claw-expense/releases/tag/");
        reveal_strlit("；请手动更新：");
        reveal_strlit("https://github.com/yuzheng14/claw-expense/releases/tag/");
        assert("；请手动更新：https://github.com/yuzheng14/claw-expense/releases/tag/"@
            =~= "；请手动更新："@ + "https://github.com/yuzheng14/claw-expense/releases/tag/"@);
        let middle = "；请手动更新："@;
        let address = "https://github.com/yuzheng14/claw-expense/releases/tag/"@;
        let running_text = update::version_text(running);
        let latest_text = update::version_text(latest);
        let s1 = begin + versions;
        let s2 = s1 + middle;
        let s3 = s2 + page;
        assert(update::notice_text(running, latest, latest_tag) == s3 + "（不会自动升级）"@) by {
            lemma_joined(begin, running_text, " → "@);
            lemma_joined(begin, running_text + " → "@, latest_text);
            lemma_joined(s1, middle, address);
            lemma_joined(s2, address, latest_tag);
        }
        lemma_more(begin, versions);
        lemma_more(s1, middle);
        lemma_more(s2, page);
        lemma_more(s3, "（不会自动升级）"@);
    }
}

/// The text of a version has its three numbers with points between them, and behind them what marks
/// a pre-release and the build, where there is such.
pub proof fn law_versions_are_written_out(parts: Parts<Text>)
    ensures
        ({
            let written = update::version_text(parts);
            let numbers = text::decimal(parts.major as nat) + "."@ + text::decimal(
                parts.minor as nat,
            ) + "."@ + text::decimal(parts.patch as nat);
            &&& written.len() >= numbers.len() && written.take(numbers.len() as int) == numbers
            &&& parts.pre.len() == 0 && parts.build.len() == 0 ==> written == numbers
            &&& parts.pre.len() > 0 ==> list_laws::has_part(written, "-"@ + parts.pre)
            &&& parts.build.len() > 0 ==> list_laws::has_part(written, "+"@ + parts.build)
        }),
{
    reveal_strlit("");
    let numbers = text::decimal(parts.major as nat) + "."@ + text::decimal(parts.minor as nat)
        + "."@ + text::decimal(parts.patch as nat);
    let pre = if parts.pre.len() > 0 {
        "-"@ + parts.pre
    } else {
        ""@
    };
    let build = if parts.build.len() > 0 {
        "+"@ + parts.build
    } else {
        ""@
    };
    lemma_more(numbers, pre);
    lemma_more(numbers + pre, build);
    assert(update::version_text(parts) == numbers + pre + build);
    assert((numbers + pre + build).take(numbers.len() as int) =~= numbers);
    if parts.pre.len() == 0 && parts.build.len() == 0 {
        assert(numbers + pre + build =~= numbers);
    }
}

/// Whether one version has precedence over another that may be a pre-release.
pub open spec fn exceeds(release: Parts<Text>, version: Parts<Text>) -> bool {
    if release.major != version.major {
        release.major > version.major
    } else if release.minor != version.minor {
        release.minor > version.minor
    } else if release.patch != version.patch {
        release.patch > version.patch
    } else {
        version.pre.len() > 0
    }
}

/// A ledger that exists is opened, and a missing one only where it is to be created; what is opened
/// must be a ledger.
pub proof fn law_ledgers_are_opened(present: bool, create: bool, application_id: i64)
    ensures
        archive::opened(present, create) is Err <==> !present && !create,
        archive::opened(present, create) is Err ==> archive::opened(present, create)->Err_0.code
            == "NOT_INITIALIZED"@,
        archive::checked_ledger(application_id) is Ok <==> application_id == 1129071960,
        archive::checked_ledger(application_id) is Ok <==> archive::checked_backup(application_id)
            is Ok,
{
}

/// Nothing that exists is written over, only a file is written to, and an input of up to 1048576
/// bytes is read.
pub proof fn law_files_are_not_written_over(is_file: bool, present: bool, length: u64)
    ensures
        archive::checked_output(is_file, present) is Ok <==> is_file && !present,
        is_file && present ==> archive::checked_output(is_file, present)->Err_0.code
            == "FILE_EXISTS"@,
        archive::checked_input(length) is Ok <==> length <= 1048576,
{
}

/// A look for a release is made where none is known, where the last one lies in the future, or is a
/// day old; a failed look keeps the tag that was known, and any other replaces it.
pub proof fn law_looks_keep_what_is_known(
    cache: Option<Cache<Text>>,
    now: u64,
    fetched: Option<Text>,
)
    ensures
        ({
            let known = cache is Some && cache->0.schema == 1;
            let step = update::first_step(cache, now);
            &&& step is Fetch <==> !known || cache->0.checked_at > now || now - cache->0.checked_at
                >= 86400
            &&& step is Remembered ==> step->Remembered_cache == cache->0
            &&& step is Fetch ==> {
                let begun = step->Fetch_cache;
                let ended = update::looked(begun, fetched);
                &&& begun.schema == 1
                &&& begun.checked_at == now
                &&& begun.latest_tag == if known {
                    cache->0.latest_tag
                } else {
                    None
                }
                &&& ended.schema == 1
                &&& ended.checked_at == now
                &&& fetched is None ==> ended.latest_tag == begun.latest_tag
                &&& fetched is Some ==> ended.latest_tag == fetched
            }
        }),
{
}

/// An answer is a body, a line break and the status `200`; whatever the body holds, it is what stands
/// in front of these four bytes.
pub proof fn law_answers_end_in_their_status(body: Seq<u8>, bytes: Seq<u8>, separator: int)
    ensures
        update::status_behind(body + seq![10u8, 50u8, 48u8, 48u8], body.len() as int),
        update::status_behind(bytes, separator) <==> separator >= 0 && bytes.len() >= separator
            && bytes == bytes.take(separator) + seq![10u8, 50u8, 48u8, 48u8],
{
    let end = seq![10u8, 50u8, 48u8, 48u8];
    if update::status_behind(bytes, separator) {
        assert(bytes =~= bytes.take(separator) + end);
    }
    if separator >= 0 && bytes.len() >= separator && bytes == bytes.take(separator) + end {
        assert(bytes.len() == separator + 4);
        assert(bytes[separator] == end[0] && bytes[separator + 1] == end[1]);
        assert(bytes[separator + 2] == end[2] && bytes[separator + 3] == end[3]);
    }
}

/// A release is accepted exactly where it is neither a draft nor a pre-release, and its tag is not
/// too long and stands, without the `v` in front, for a version that is no pre-release either.
pub proof fn law_releases_are_accepted(release: Release<Text>)
    ensures
        update::is_accepted(release) <==> {
            let tag = release.tag_name;
            let version = update::parts_of(
                if tag.len() > 0 && tag[0] == 'v' {
                    tag.skip(1)
                } else {
                    tag
                },
            );
            &&& !release.draft
            &&& !release.prerelease
            &&& vstd::utf8::encode_utf8(tag).len() <= 128
            &&& version is Some
            &&& version->0.pre.len() == 0
        },
{
}

/// What is to be found out of a backup comes in one order: the application id, the integrity, the
/// references, the migrations. The first that fails ends it, and nothing is asked twice.
pub proof fn law_questions_come_in_order(
    facts: BackupFactsView,
    known: Seq<KnownMigration<Seq<u8>>>,
)
    ensures
        ({
            let next = archive::next_question(facts, known);
            let is_ledger = facts.application_id == Some(1129071960i64);
            let is_whole = facts.integrity == Some(seq!["ok"@]);
            let is_linked = facts.broken == Some(0usize);
            &&& next == Ok::<BackupQuestion, ErrorView>(BackupQuestion::ApplicationId)
                <==> facts.application_id is None
            &&& next == Ok::<BackupQuestion, ErrorView>(BackupQuestion::Integrity) <==> is_ledger
                && facts.integrity is None
            &&& next == Ok::<BackupQuestion, ErrorView>(BackupQuestion::References) <==> is_ledger
                && is_whole && facts.broken is None
            &&& next == Ok::<BackupQuestion, ErrorView>(BackupQuestion::Migrations) <==> is_ledger
                && is_whole && is_linked && facts.applied is None
            &&& next == Ok::<BackupQuestion, ErrorView>(BackupQuestion::Nothing) <==> is_ledger
                && is_whole && is_linked && facts.applied is Some && archive::checked_migrations(
                facts.applied->0,
                known,
            ) is Ok
        }),
{
}

} // verus!
