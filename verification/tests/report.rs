use claw_expense::command::{entry_date, execute_with, CategoryCommand, Command};
use claw_expense::ledger::Stamp;
use claw_expense::models::{
    ConfirmPendingExpense, Filters, Kind, NewPendingExpense, NewTransaction, PendingFilters,
};
use claw_expense::report::{cell, human_output, Output};
use claw_expense::store::Store;

const NOW: &str = "2026-09-05T01:02:03.000004Z";

fn stamp(unique: &str) -> Stamp {
    Stamp {
        unique: unique.to_owned(),
        now: NOW.to_owned(),
    }
}

fn ledger() -> Store {
    let mut store = Store::new();
    let expense = NewTransaction {
        kind: Kind::Expense,
        amount: "98.01".parse().unwrap(),
        date: "2026-09-01".to_owned(),
        occurred_at: None,
        category: None,
        note: Some("午餐\n含饮料".to_owned()),
        channel: None,
        original_id: None,
    };
    store.add_with(expense.clone(), None, &stamp("a")).unwrap();
    let refund = NewTransaction {
        kind: Kind::Refund,
        amount: "100".parse().unwrap(),
        date: "2026-09-02".to_owned(),
        occurred_at: Some("2026-09-02T08:00+08:00".to_owned()),
        note: None,
        original_id: Some("txn_a".to_owned()),
        ..expense
    };
    store.add_with(refund, None, &stamp("b")).unwrap();
    let purchase = NewPendingExpense {
        currency: "JPY".to_owned(),
        amount: "10000".to_owned(),
        date: "2026-09-03".to_owned(),
        occurred_at: None,
        category: None,
        merchant: Some("乐天".to_owned()),
        note: None,
        channel: None,
    };
    store.add_pending_with(purchase.clone(), None, &stamp("c")).unwrap();
    store.add_pending_with(purchase, None, &stamp("d")).unwrap();
    store
}

#[test]
fn lists_say_how_many_there_are_and_show_one_line_each() {
    let store = ledger();
    let page = store.list(&Filters::default()).unwrap();
    assert_eq!(
        human_output(&Output::List { page }).unwrap(),
        "共 2 笔，当前显示 2 笔\n\
         txn_b  2026-09-02T08:00+08:00  100.00 元  退款  其他支出  \n\
         txn_a  2026-09-01  98.01 元  支出  其他支出  午餐 含饮料\n"
    );
    let filters = PendingFilters {
        as_of: "2026-09-05".to_owned(),
        filters: Filters {
            limit: 1,
            ..Filters::default()
        },
        ..PendingFilters::default()
    };
    let page = store.list_pending(&filters).unwrap();
    assert_eq!(
        human_output(&Output::PendingList { page }).unwrap(),
        "共 2 笔，当前显示 1 笔\n\
         pending_c  2026-09-03  10000 JPY  [待确认人民币金额]  乐天  其他支出    提醒日 2026-09-06\n"
    );
}

#[test]
fn details_show_refunds_and_the_original_currency() {
    let mut store = ledger();
    let detail = store.get("txn_a").unwrap();
    assert_eq!(
        human_output(&Output::Detail { detail }).unwrap(),
        "txn_a  2026-09-01  98.01 元  支出  其他支出  午餐 含饮料\n\
         累计退回 100.00 元 | 净支出 -1.99 元\n\
         txn_b  2026-09-02T08:00+08:00  100.00 元  退款  其他支出  \n"
    );
    let detail = store.get("txn_b").unwrap();
    assert_eq!(
        human_output(&Output::Detail { detail }).unwrap(),
        "txn_b  2026-09-02T08:00+08:00  100.00 元  退款  其他支出  \n累计退回 0.00 元\n"
    );
    let input = ConfirmPendingExpense {
        amount: "510.38".parse().unwrap(),
        posted_date: Some("2026-09-04".to_owned()),
    };
    let result = store
        .confirm_pending_with("pending_c", input, None, &stamp("e"))
        .unwrap();
    let settled = "pending_c  2026-09-03  10000 JPY  [已确认]  乐天  其他支出  \n\
                   关联人民币账单：\n\
                   txn_e  2026-09-03  510.38 元  支出  其他支出  \n\
                   银行入账日 2026-09-04\n\
                   确认时间 2026-09-05T01:02:03.000004Z\n";
    assert_eq!(human_output(&Output::PendingWrite { result }).unwrap(), settled);
    let detail = store.get_pending("pending_c").unwrap();
    assert_eq!(human_output(&Output::PendingDetail { detail }).unwrap(), settled);
    let detail = store.get("txn_e").unwrap();
    assert_eq!(
        human_output(&Output::Detail { detail }).unwrap(),
        "txn_e  2026-09-03  510.38 元  支出  其他支出  \n\
         原币消费：\n\
         pending_c  2026-09-03  10000 JPY  [已确认]  乐天  其他支出  \n\
         累计退回 0.00 元 | 净支出 510.38 元\n"
    );
}

#[test]
fn changes_say_whether_they_were_repeated() {
    let mut store = ledger();
    let result = store.void_with("txn_b", false, Some("v"), NOW).unwrap();
    assert_eq!(
        human_output(&Output::Write { result }).unwrap(),
        "txn_b  2026-09-02T08:00+08:00  100.00 元  退款  其他支出   [已作废]\n"
    );
    let result = store.void_with("txn_b", false, Some("v"), NOW).unwrap();
    assert!(human_output(&Output::Write { result })
        .unwrap()
        .ends_with("[已作废]\n重复请求：返回原操作结果，未重复执行。\n"));
    store.cancel_pending_with("pending_d", None, NOW).unwrap();
    let result = store.cancel_pending_with("pending_d", None, NOW).unwrap();
    assert_eq!(
        human_output(&Output::PendingWrite { result }).unwrap(),
        "pending_d  2026-09-03  10000 JPY  [已取消]  乐天  其他支出  \n\
         此前已处理，未重复执行；当前状态请用 pending show 查询。\n"
    );
}

#[test]
fn summaries_keep_unsettled_purchases_apart() {
    let store = ledger();
    let summary = store.summary(&Filters::default()).unwrap();
    assert_eq!(
        human_output(&Output::Summary { summary }).unwrap(),
        "收入 0.00 元 | 支出 98.01 元 | 退款 100.00 元\n\
         净支出 -1.99 元 | 收支结余 1.99 元 | 2 笔\n\
         其他支出：收入 0.00 / 支出 98.01 / 退款 100.00 / 净支出 -1.99 元\n\
         另有 2 笔外币消费待确认，尚未计入人民币收支：\n\
         20000 JPY（2 笔）\n"
    );
}

#[test]
fn answers_without_a_layout_have_no_text() {
    let mut store = ledger();
    for command in [
        Command::History {
            id: "txn_a".to_owned(),
        },
        Command::Category {
            command: CategoryCommand::List,
        },
    ] {
        let output = execute_with(&mut store, command, "2026-09-05", &stamp("z")).unwrap();
        assert!(human_output(&output).is_none());
    }
}

#[test]
fn cells_stay_on_one_line() {
    assert_eq!(cell("a\tb\r\nc\u{7f}\u{9f}é\u{a0}"), "a b  c  é\u{a0}");
    assert_eq!(cell(""), "");
}

#[test]
fn an_entry_belongs_to_its_date_its_time_or_today() {
    let date = Some("2026-09-01".to_owned());
    let time = Some("2026-10-01T00:15+14:00".to_owned());
    let today = "2026-11-11";
    assert_eq!(entry_date(&date, &time, today).unwrap(), "2026-09-01");
    assert_eq!(entry_date(&None, &time, today).unwrap(), "2026-10-01");
    assert_eq!(entry_date(&None, &None, today).unwrap(), today);
    assert!(entry_date(&None, &Some("10:00".to_owned()), today).is_err());
}
