//! Answers as text for people.
use vstd::prelude::*;

use crate::models::{
    AuditRecord, Category, CategorySummary, Kind, ListResult, PendingAuditRecord,
    PendingCurrencySummary, PendingDetail, PendingExpenseRecord, PendingListResult, PendingStatus,
    PendingWriteResult, Summary, TransactionDetail, TransactionRecord, WriteResult,
};
use crate::money;
use crate::summary::SummaryView;
use crate::text;
use crate::text::Text;

verus! {

/// What a command answers.
#[derive(Debug)]
pub enum Output {
    Write { result: WriteResult },
    Detail { detail: TransactionDetail },
    List { page: ListResult },
    Summary { summary: Summary },
    PendingWrite { result: PendingWriteResult },
    PendingDetail { detail: PendingDetail },
    PendingList { page: PendingListResult },
    Categories { categories: Vec<Category> },
    Category { category: Category },
    History { records: Vec<AuditRecord> },
    PendingHistory { records: Vec<PendingAuditRecord> },
}

/// A character that does not break a line.
pub open spec fn visible(character: char) -> char {
    if text::is_control(character) {
        ' '
    } else {
        character
    }
}

/// A text on one line: every control code becomes a space.
pub open spec fn cell_text(text: Text) -> Text {
    Seq::new(text.len(), |i: int| visible(text[i]))
}

/// An optional text on one line; empty where it is absent.
pub open spec fn optional_text(text: Option<Text>) -> Text {
    match text {
        Some(text) => cell_text(text),
        None => ""@,
    }
}

/// The time of an entry as far as it is known, else its date.
pub open spec fn when_text(date: Text, occurred_at: Option<Text>) -> Text {
    match occurred_at {
        Some(time) => cell_text(time),
        None => cell_text(date),
    }
}

/// The word for a kind of transactions.
pub open spec fn kind_label(kind: Kind) -> Text {
    match kind {
        Kind::Income => "收入"@,
        Kind::Refund => "退款"@,
        Kind::Expense => "支出"@,
    }
}

/// The line of a transaction.
pub open spec fn entry_text(entry: TransactionRecord<Text>) -> Text {
    cell_text(entry.id) + "  "@ + when_text(entry.date, entry.occurred_at) + "  "@ + cell_text(
        money::minor_text(entry.amount.0 as int),
    ) + " 元  "@ + kind_label(entry.kind) + "  "@ + cell_text(entry.category) + "  "@
        + optional_text(entry.note) + if entry.voided {
        " [已作废]"@
    } else {
        ""@
    }
}

/// The words for a status of foreign purchases.
pub open spec fn status_label(status: PendingStatus) -> Text {
    match status {
        PendingStatus::Confirmed => "已确认"@,
        PendingStatus::Cancelled => "已取消"@,
        PendingStatus::Pending => "待确认人民币金额"@,
    }
}

/// The line of a foreign purchase.
pub open spec fn pending_text(entry: PendingExpenseRecord<Text>) -> Text {
    let line = cell_text(entry.id) + "  "@ + when_text(entry.date, entry.occurred_at) + "  "@
        + cell_text(entry.amount) + " "@ + cell_text(entry.currency) + "  ["@ + status_label(
        entry.status,
    ) + "]  "@ + optional_text(entry.merchant) + "  "@ + cell_text(entry.category) + "  "@
        + optional_text(entry.note);
    if entry.status == PendingStatus::Pending {
        line + "  提醒日 "@ + cell_text(entry.remind_on)
    } else {
        line
    }
}

/// The lines of transactions.
pub open spec fn entries_text(entries: Seq<TransactionRecord<Text>>) -> Text
    decreases entries.len(),
{
    if entries.len() == 0 {
        ""@
    } else {
        entries_text(entries.drop_last()) + entry_text(entries.last()) + "\n"@
    }
}

/// The lines of foreign purchases.
pub open spec fn pendings_text(entries: Seq<PendingExpenseRecord<Text>>) -> Text
    decreases entries.len(),
{
    if entries.len() == 0 {
        ""@
    } else {
        pendings_text(entries.drop_last()) + pending_text(entries.last()) + "\n"@
    }
}

/// The first line of a page.
pub open spec fn page_text(total: int, shown: int) -> Text {
    "共 "@ + text::signed_decimal(total) + " 笔，当前显示 "@ + text::signed_decimal(shown) + " 笔\n"@
}

/// A foreign purchase with the expense that settles it.
pub open spec fn purchase_text(
    pending: PendingExpenseRecord<Text>,
    transaction: Option<TransactionRecord<Text>>,
    replayed: bool,
) -> Text {
    pending_text(pending) + "\n"@ + if replayed {
        "此前已处理，未重复执行；当前状态请用 pending show 查询。\n"@
    } else {
        ""@
    } + match transaction {
        Some(transaction) => "关联人民币账单：\n"@ + entry_text(transaction) + "\n"@,
        None => ""@,
    } + match pending.posted_date {
        Some(date) => "银行入账日 "@ + cell_text(date) + "\n"@,
        None => ""@,
    } + match pending.confirmed_at {
        Some(time) => "确认时间 "@ + cell_text(time) + "\n"@,
        None => ""@,
    }
}

/// The line of a category.
pub open spec fn category_text(item: CategorySummary<Text>) -> Text {
    cell_text(item.category) + "：收入 "@ + cell_text(item.income) + " / 支出 "@ + cell_text(
        item.expense,
    ) + " / 退款 "@ + cell_text(item.refund) + " / 净支出 "@ + cell_text(item.net_expense)
        + " 元\n"@
}

/// The lines of categories.
pub open spec fn categories_text(items: Seq<CategorySummary<Text>>) -> Text
    decreases items.len(),
{
    if items.len() == 0 {
        ""@
    } else {
        categories_text(items.drop_last()) + category_text(items.last())
    }
}

/// The line of a currency.
pub open spec fn currency_text(item: PendingCurrencySummary<Text>) -> Text {
    cell_text(item.amount) + " "@ + cell_text(item.currency) + "（"@ + text::signed_decimal(
        item.count as int,
    ) + " 笔）\n"@
}

/// The lines of currencies.
pub open spec fn currencies_text(items: Seq<PendingCurrencySummary<Text>>) -> Text
    decreases items.len(),
{
    if items.len() == 0 {
        ""@
    } else {
        currencies_text(items.drop_last()) + currency_text(items.last())
    }
}

/// The totals of a period.
pub open spec fn summary_text(summary: SummaryView) -> Text {
    "收入 "@ + cell_text(summary.income) + " 元 | 支出 "@ + cell_text(summary.expense)
        + " 元 | 退款 "@ + cell_text(summary.refund) + " 元\n净支出 "@ + cell_text(
        summary.net_expense,
    ) + " 元 | 收支结余 "@ + cell_text(summary.balance) + " 元 | "@ + text::signed_decimal(
        summary.count as int,
    ) + " 笔\n"@ + categories_text(summary.by_category) + if summary.pending_count > 0 {
        "另有 "@ + text::signed_decimal(summary.pending_count as int)
            + " 笔外币消费待确认，尚未计入人民币收支：\n"@ + currencies_text(
            summary.pending_by_currency,
        )
    } else {
        ""@
    }
}

/// The answer to a change of transactions.
pub open spec fn write_text(transaction: TransactionRecord<Text>, replayed: bool) -> Text {
    entry_text(transaction) + "\n"@ + if replayed {
        "重复请求：返回原操作结果，未重复执行。\n"@
    } else {
        ""@
    }
}

/// A transaction with its refunds.
pub open spec fn detail_text(
    detail: TransactionDetail<Text, Seq<TransactionRecord<Text>>>,
) -> Text {
    entry_text(detail.transaction) + "\n"@ + match detail.foreign_expense {
        Some(pending) => "原币消费：\n"@ + pending_text(pending) + "\n"@,
        None => ""@,
    } + ("累计退回 "@ + detail.refund_total + " 元"@) + match detail.net_expense {
        Some(net) => " | 净支出 "@ + net + " 元"@,
        None => ""@,
    } + "\n"@ + entries_text(detail.refunds)
}

/// The text of an answer; nothing for those that have no layout of their own.
pub open spec fn output_text(output: Output) -> Option<Text> {
    match output {
        Output::Write { result } => Some(
            write_text(result.transaction.deep_view(), result.replayed),
        ),
        Output::Detail { detail } => Some(detail_text(detail.deep_view())),
        Output::List { page } => Some(
            page_text(page.total as int, page.items.deep_view().len() as int) + entries_text(
                page.items.deep_view(),
            ),
        ),
        Output::Summary { summary } => Some(summary_text(summary.deep_view())),
        Output::PendingWrite { result } => Some(
            purchase_text(
                result.pending.deep_view(),
                result.transaction.deep_view(),
                result.replayed,
            ),
        ),
        Output::PendingDetail { detail } => Some(
            purchase_text(detail.pending.deep_view(), detail.transaction.deep_view(), false),
        ),
        Output::PendingList { page } => Some(
            page_text(page.total as int, page.items.deep_view().len() as int) + pendings_text(
                page.items.deep_view(),
            ),
        ),
        _ => None,
    }
}

/// A text on one line.
pub fn cell(text: &str) -> (line: String)
    ensures
        line@ == cell_text(text@),
{
    let characters = text::chars_of(text);
    let mut line: String = String::new();
    let mut i: usize = 0;
    while i < characters.len()
        invariant
            characters@ == text@,
            i <= characters.len(),
            line@ == cell_text(text@).take(i as int),
        decreases characters.len() - i,
    {
        let character = characters[i];
        line.push(
            if text::control(character) {
                ' '
            } else {
                character
            },
        );
        i += 1;
        assert(cell_text(text@).take(i as int) =~= cell_text(text@).take(i - 1).push(
            visible(character),
        ));
    }
    assert(cell_text(text@).take(i as int) =~= cell_text(text@));
    line
}

fn optional_cell(text: &Option<String>) -> (line: String)
    ensures
        line@ == optional_text(text.deep_view()),
{
    match text {
        Some(text) => cell(text.as_str()),
        None => "".to_owned(),
    }
}

fn when(date: &str, occurred_at: &Option<String>) -> (line: String)
    ensures
        line@ == when_text(date@, occurred_at.deep_view()),
{
    match occurred_at {
        Some(time) => cell(time.as_str()),
        None => cell(date),
    }
}

/// The line of a transaction.
pub fn entry_line(entry: &TransactionRecord) -> (line: String)
    ensures
        line@ == entry_text(entry.deep_view()),
{
    let mut line = cell(entry.id.as_str());
    line.append("  ");
    line.append(when(entry.date.as_str(), &entry.occurred_at).as_str());
    line.append("  ");
    line.append(cell(entry.amount.to_string().as_str()).as_str());
    line.append(" 元  ");
    line.append(
        match entry.kind {
            Kind::Income => "收入",
            Kind::Refund => "退款",
            Kind::Expense => "支出",
        },
    );
    line.append("  ");
    line.append(cell(entry.category.as_str()).as_str());
    line.append("  ");
    line.append(optional_cell(&entry.note).as_str());
    line.append(
        if entry.voided {
            " [已作废]"
        } else {
            ""
        },
    );
    line
}

/// The line of a foreign purchase.
pub fn pending_line(entry: &PendingExpenseRecord) -> (line: String)
    ensures
        line@ == pending_text(entry.deep_view()),
{
    let mut line = cell(entry.id.as_str());
    line.append("  ");
    line.append(when(entry.date.as_str(), &entry.occurred_at).as_str());
    line.append("  ");
    line.append(cell(entry.amount.as_str()).as_str());
    line.append(" ");
    line.append(cell(entry.currency.as_str()).as_str());
    line.append("  [");
    line.append(
        match entry.status {
            PendingStatus::Confirmed => "已确认",
            PendingStatus::Cancelled => "已取消",
            PendingStatus::Pending => "待确认人民币金额",
        },
    );
    line.append("]  ");
    line.append(optional_cell(&entry.merchant).as_str());
    line.append("  ");
    line.append(cell(entry.category.as_str()).as_str());
    line.append("  ");
    line.append(optional_cell(&entry.note).as_str());
    if entry.status == PendingStatus::Pending {
        line.append("  提醒日 ");
        line.append(cell(entry.remind_on.as_str()).as_str());
    }
    line
}

fn entry_lines(entries: &Vec<TransactionRecord>) -> (lines: String)
    ensures
        lines@ == entries_text(entries.deep_view()),
{
    let ghost all = entries.deep_view();
    let mut lines: String = "".to_owned();
    let mut i: usize = 0;
    assert(all.take(0).len() == 0);
    while i < entries.len()
        invariant
            all == entries.deep_view(),
            i <= entries.len(),
            lines@ == entries_text(all.take(i as int)),
        decreases entries.len() - i,
    {
        assert(all.take(i + 1).drop_last() =~= all.take(i as int));
        assert(all.take(i + 1).last() == all[i as int]);
        lines.append(entry_line(&entries[i]).as_str());
        lines.append("\n");
        i += 1;
    }
    assert(all.take(i as int) =~= all);
    lines
}

fn pending_lines(entries: &Vec<PendingExpenseRecord>) -> (lines: String)
    ensures
        lines@ == pendings_text(entries.deep_view()),
{
    let ghost all = entries.deep_view();
    let mut lines: String = "".to_owned();
    let mut i: usize = 0;
    assert(all.take(0).len() == 0);
    while i < entries.len()
        invariant
            all == entries.deep_view(),
            i <= entries.len(),
            lines@ == pendings_text(all.take(i as int)),
        decreases entries.len() - i,
    {
        assert(all.take(i + 1).drop_last() =~= all.take(i as int));
        assert(all.take(i + 1).last() == all[i as int]);
        lines.append(pending_line(&entries[i]).as_str());
        lines.append("\n");
        i += 1;
    }
    assert(all.take(i as int) =~= all);
    lines
}

fn category_lines(items: &Vec<CategorySummary>) -> (lines: String)
    ensures
        lines@ == categories_text(items.deep_view()),
{
    let ghost all = items.deep_view();
    let mut lines: String = "".to_owned();
    let mut i: usize = 0;
    assert(all.take(0).len() == 0);
    while i < items.len()
        invariant
            all == items.deep_view(),
            i <= items.len(),
            lines@ == categories_text(all.take(i as int)),
        decreases items.len() - i,
    {
        assert(all.take(i + 1).drop_last() =~= all.take(i as int));
        assert(all.take(i + 1).last() == all[i as int]);
        let item = &items[i];
        let mut line = cell(item.category.as_str());
        line.append("：收入 ");
        line.append(cell(item.income.as_str()).as_str());
        line.append(" / 支出 ");
        line.append(cell(item.expense.as_str()).as_str());
        line.append(" / 退款 ");
        line.append(cell(item.refund.as_str()).as_str());
        line.append(" / 净支出 ");
        line.append(cell(item.net_expense.as_str()).as_str());
        line.append(" 元\n");
        lines.append(line.as_str());
        i += 1;
    }
    assert(all.take(i as int) =~= all);
    lines
}

fn currency_lines(items: &Vec<PendingCurrencySummary>) -> (lines: String)
    ensures
        lines@ == currencies_text(items.deep_view()),
{
    let ghost all = items.deep_view();
    let mut lines: String = "".to_owned();
    let mut i: usize = 0;
    assert(all.take(0).len() == 0);
    while i < items.len()
        invariant
            all == items.deep_view(),
            i <= items.len(),
            lines@ == currencies_text(all.take(i as int)),
        decreases items.len() - i,
    {
        assert(all.take(i + 1).drop_last() =~= all.take(i as int));
        assert(all.take(i + 1).last() == all[i as int]);
        let item = &items[i];
        let mut line = cell(item.amount.as_str());
        line.append(" ");
        line.append(cell(item.currency.as_str()).as_str());
        line.append("（");
        line.append(text::signed_text(item.count as i128).as_str());
        line.append(" 笔）\n");
        lines.append(line.as_str());
        i += 1;
    }
    assert(all.take(i as int) =~= all);
    lines
}

fn page_line(total: i64, shown: usize) -> (line: String)
    ensures
        line@ == page_text(total as int, shown as int),
{
    let mut line: String = "共 ".to_owned();
    line.append(text::signed_text(total as i128).as_str());
    line.append(" 笔，当前显示 ");
    line.append(text::signed_text(shown as i128).as_str());
    line.append(" 笔\n");
    line
}

fn purchase_lines(
    pending: &PendingExpenseRecord,
    transaction: &Option<TransactionRecord>,
    replayed: bool,
) -> (lines: String)
    ensures
        lines@ == purchase_text(pending.deep_view(), transaction.deep_view(), replayed),
{
    let mut lines = pending_line(pending);
    lines.append("\n");
    lines.append(
        if replayed {
            "此前已处理，未重复执行；当前状态请用 pending show 查询。\n"
        } else {
            ""
        },
    );
    let linked = match transaction {
        Some(transaction) => {
            let mut linked: String = "关联人民币账单：\n".to_owned();
            linked.append(entry_line(transaction).as_str());
            linked.append("\n");
            linked
        },
        None => "".to_owned(),
    };
    lines.append(linked.as_str());
    let posted = match &pending.posted_date {
        Some(date) => {
            let mut posted: String = "银行入账日 ".to_owned();
            posted.append(cell(date.as_str()).as_str());
            posted.append("\n");
            posted
        },
        None => "".to_owned(),
    };
    lines.append(posted.as_str());
    let confirmed = match &pending.confirmed_at {
        Some(time) => {
            let mut confirmed: String = "确认时间 ".to_owned();
            confirmed.append(cell(time.as_str()).as_str());
            confirmed.append("\n");
            confirmed
        },
        None => "".to_owned(),
    };
    lines.append(confirmed.as_str());
    lines
}

fn summary_lines(summary: &Summary) -> (lines: String)
    ensures
        lines@ == summary_text(summary.deep_view()),
{
    let mut lines: String = "收入 ".to_owned();
    lines.append(cell(summary.income.as_str()).as_str());
    lines.append(" 元 | 支出 ");
    lines.append(cell(summary.expense.as_str()).as_str());
    lines.append(" 元 | 退款 ");
    lines.append(cell(summary.refund.as_str()).as_str());
    lines.append(" 元\n净支出 ");
    lines.append(cell(summary.net_expense.as_str()).as_str());
    lines.append(" 元 | 收支结余 ");
    lines.append(cell(summary.balance.as_str()).as_str());
    lines.append(" 元 | ");
    lines.append(text::signed_text(summary.count as i128).as_str());
    lines.append(" 笔\n");
    lines.append(category_lines(&summary.by_category).as_str());
    let awaited = if summary.pending_count > 0 {
        let mut awaited: String = "另有 ".to_owned();
        awaited.append(text::signed_text(summary.pending_count as i128).as_str());
        awaited.append(" 笔外币消费待确认，尚未计入人民币收支：\n");
        awaited.append(currency_lines(&summary.pending_by_currency).as_str());
        awaited
    } else {
        "".to_owned()
    };
    lines.append(awaited.as_str());
    lines
}

fn detail_lines(detail: &TransactionDetail) -> (lines: String)
    ensures
        lines@ == detail_text(detail.deep_view()),
{
    let mut lines = entry_line(&detail.transaction);
    lines.append("\n");
    let purchase = match &detail.foreign_expense {
        Some(pending) => {
            let mut purchase: String = "原币消费：\n".to_owned();
            purchase.append(pending_line(pending).as_str());
            purchase.append("\n");
            purchase
        },
        None => "".to_owned(),
    };
    lines.append(purchase.as_str());
    let mut refunded: String = "累计退回 ".to_owned();
    refunded.append(detail.refund_total.as_str());
    refunded.append(" 元");
    lines.append(refunded.as_str());
    let net = match &detail.net_expense {
        Some(net_expense) => {
            let mut net: String = " | 净支出 ".to_owned();
            net.append(net_expense.as_str());
            net.append(" 元");
            net
        },
        None => "".to_owned(),
    };
    lines.append(net.as_str());
    lines.append("\n");
    lines.append(entry_lines(&detail.refunds).as_str());
    lines
}

fn write_lines(result: &WriteResult) -> (lines: String)
    ensures
        lines@ == write_text(result.transaction.deep_view(), result.replayed),
{
    let mut lines = entry_line(&result.transaction);
    lines.append("\n");
    lines.append(
        if result.replayed {
            "重复请求：返回原操作结果，未重复执行。\n"
        } else {
            ""
        },
    );
    lines
}

/// The text of an answer; nothing for those that have no layout of their own.
pub fn human_output(output: &Output) -> (result: Option<String>)
    ensures
        result.deep_view() == output_text(*output),
{
    match output {
        Output::Write { result } => Some(write_lines(result)),
        Output::Detail { detail } => Some(detail_lines(detail)),
        Output::List { page } => {
            assert(page.items.deep_view().len() == page.items.len());
            let mut lines = page_line(page.total, page.items.len());
            lines.append(entry_lines(&page.items).as_str());
            Some(lines)
        },
        Output::Summary { summary } => Some(summary_lines(summary)),
        Output::PendingWrite { result } => Some(
            purchase_lines(&result.pending, &result.transaction, result.replayed),
        ),
        Output::PendingDetail { detail } => Some(
            purchase_lines(&detail.pending, &detail.transaction, false),
        ),
        Output::PendingList { page } => {
            assert(page.items.deep_view().len() == page.items.len());
            let mut lines = page_line(page.total, page.items.len());
            lines.append(pending_lines(&page.items).as_str());
            Some(lines)
        },
        _ => None,
    }
}

/// No text that was entered breaks the line that it stands in.
pub proof fn law_cells_stay_on_one_line(text: Text)
    ensures
        cell_text(text).len() == text.len(),
        forall|i: int|
            0 <= i < text.len() ==> !text::is_control(#[trigger] cell_text(text)[i]),
{
}

} // verus!
