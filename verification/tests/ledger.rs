use claw_expense::ledger::{Operation, Reply, RequestRow, Stamp};
use claw_expense::models::{
    ConfirmPendingExpense, Filters, Kind, NewPendingExpense, NewTransaction, PendingFilters,
    PendingStatus, TransactionRow, UpdateTransaction,
};
use claw_expense::money::Money;
use claw_expense::store::{
    clean_optional, validate_amount, validate_request_id, Store,
};
use claw_expense::query::{checked_add, checked_sub};
use claw_expense::summary::Totals;

fn stamp(unique: &str, now: &str) -> Stamp {
    Stamp {
        unique: unique.to_owned(),
        now: now.to_owned(),
    }
}

fn entry(kind: Kind, amount: &str, date: &str) -> NewTransaction {
    NewTransaction {
        kind,
        amount: amount.parse().unwrap(),
        date: date.to_owned(),
        occurred_at: None,
        category: None,
        note: None,
        channel: None,
        original_id: None,
    }
}

fn refund(original: &str, amount: &str, date: &str) -> NewTransaction {
    NewTransaction {
        original_id: Some(original.to_owned()),
        ..entry(Kind::Refund, amount, date)
    }
}

fn purchase(currency: &str, amount: &str, date: &str) -> NewPendingExpense {
    NewPendingExpense {
        currency: currency.to_owned(),
        amount: amount.to_owned(),
        date: date.to_owned(),
        occurred_at: None,
        category: None,
        merchant: None,
        note: None,
        channel: None,
    }
}

fn confirmation(amount: &str) -> ConfirmPendingExpense {
    ConfirmPendingExpense {
        amount: amount.parse().unwrap(),
        posted_date: None,
    }
}

fn contents(store: &Store) -> String {
    format!("{store:?}")
}

#[test]
fn a_new_ledger_has_its_categories_and_nothing_else() {
    let store = Store::new();
    let categories: Vec<(String, Kind)> = store
        .categories()
        .unwrap()
        .into_iter()
        .map(|category| (category.name, category.kind))
        .collect();
    let expense = ["交通", "住房", "其他支出", "医疗", "娱乐", "购物", "餐饮"];
    let income = ["其他收入", "奖金", "工资"];
    let expected: Vec<(String, Kind)> = expense
        .iter()
        .map(|name| (name.to_string(), Kind::Expense))
        .chain(income.iter().map(|name| (name.to_string(), Kind::Income)))
        .collect();
    assert_eq!(categories, expected);
    assert_eq!(store.list(&Filters::default()).unwrap().total, 0);
    assert!(store.requests.is_empty() && store.audit_log.is_empty());
}

#[test]
fn a_recorded_transaction_is_exactly_what_was_given() {
    let mut store = Store::new();
    let input = NewTransaction {
        occurred_at: Some("2026-09-01T08:00+00:00".to_owned()),
        note: Some(String::new()),
        channel: Some("现金".to_owned()),
        ..entry(Kind::Expense, "12.30", "2026-09-01")
    };
    let result = store
        .add_with(input, Some("r1"), &stamp("abc", "2026-09-01T09:00:00.000000Z"))
        .unwrap();
    assert!(!result.replayed);
    assert_eq!(result.affected_ids, ["txn_abc"]);
    let record = &result.transaction;
    assert_eq!(record.id, "txn_abc");
    assert_eq!(record.kind, Kind::Expense);
    assert_eq!(record.amount, Money::from_minor(1230));
    assert_eq!(record.currency, "CNY");
    assert_eq!(record.category, "其他支出");
    assert_eq!(record.date, "2026-09-01");
    assert_eq!(record.occurred_at.as_deref(), Some("2026-09-01T08:00Z"));
    assert_eq!(record.note, None);
    assert_eq!(record.channel.as_deref(), Some("现金"));
    assert!(!record.voided);
    assert_eq!(record.created_at, "2026-09-01T09:00:00.000000Z");
    assert_eq!(record.updated_at, record.created_at);
    let history = store.history("txn_abc").unwrap();
    assert_eq!(history.len(), 1);
    assert_eq!(history[0].id, 1);
    assert_eq!(history[0].action, "create");
    assert!(history[0].before.is_none());
    assert_eq!(history[0].after.amount, Money::from_minor(1230));
    assert_eq!(store.requests.len(), 1);
    assert_eq!(store.requests[0].created_at, "2026-09-01T09:00:00.000000Z");
}

#[test]
fn ids_come_from_random_hexadecimal_digits() {
    let mut store = Store::new();
    let first = store.add(entry(Kind::Expense, "1", "2026-09-01"), None).unwrap();
    let second = store.add(entry(Kind::Expense, "1", "2026-09-01"), None).unwrap();
    let waiting = store.add_pending(purchase("USD", "1", "2026-09-01"), None).unwrap();
    assert_ne!(first.transaction.id, second.transaction.id);
    for (id, prefix) in [
        (&first.transaction.id, "txn_"),
        (&second.transaction.id, "txn_"),
        (&waiting.pending.id, "pending_"),
    ] {
        let digits = id.strip_prefix(prefix).unwrap();
        assert_eq!(digits.len(), 32);
        assert!(digits.chars().all(|c| c.is_ascii_digit() || ('a'..='f').contains(&c)));
    }
    let created_at = &first.transaction.created_at;
    assert_eq!(created_at.len(), 27);
    for (place, mark) in [(4, '-'), (7, '-'), (10, 'T'), (13, ':'), (16, ':'), (19, '.'), (26, 'Z')] {
        assert_eq!(created_at.chars().nth(place), Some(mark), "{created_at}");
    }
    assert_eq!(created_at.chars().filter(char::is_ascii_digit).count(), 20);
    assert!(chrono::DateTime::parse_from_rfc3339(&first.transaction.created_at).is_ok());
}

#[test]
fn refused_changes_leave_no_trace() {
    let mut store = Store::new();
    let at = stamp("one", "2026-09-05T00:00:00.000000Z");
    store.add_with(entry(Kind::Expense, "10", "2026-09-01"), None, &at).unwrap();
    store.add_with(
        refund("txn_one", "3", "2026-09-02"),
        None,
        &stamp("two", "2026-09-05T00:00:01.000000Z"),
    )
    .unwrap();
    store.add_pending_with(purchase("JPY", "100", "2026-09-01"), None, &at).unwrap();
    let before = contents(&store);
    let date = |value: &str| UpdateTransaction {
        date: Some(value.to_owned()),
        ..UpdateTransaction::default()
    };
    let errors = [
        store.add(entry(Kind::Expense, "0", "2026-09-01"), None).unwrap_err(),
        store.add(entry(Kind::Expense, "1", "2026-09-31"), None).unwrap_err(),
        store.add(entry(Kind::Expense, "1", "2026-09-01"), Some(" ")).unwrap_err(),
        store.add(entry(Kind::Refund, "1", "2026-09-01"), None).unwrap_err(),
        store.add(refund("txn_none", "1", "2026-09-01"), None).unwrap_err(),
        store.add(refund("txn_two", "1", "2026-09-01"), None).unwrap_err(),
        store.add_with(entry(Kind::Income, "1", "2026-09-01"), None, &at).unwrap_err(),
        store.update("txn_one", UpdateTransaction::default(), None).unwrap_err(),
        store.update("txn_none", date("2026-09-02"), None).unwrap_err(),
        store.void("txn_one", false, None).unwrap_err(),
        store.void("txn_none", true, None).unwrap_err(),
        store.add_pending(purchase("CNY", "1", "2026-09-01"), None).unwrap_err(),
        store.add_pending(purchase("USD", "1", "9999-12-30"), None).unwrap_err(),
        store.add_pending_with(purchase("USD", "1", "2026-09-01"), None, &at).unwrap_err(),
        store.confirm_pending("pending_none", confirmation("1"), None).unwrap_err(),
        store.confirm_pending_with("pending_one", confirmation("1"), None, &at).unwrap_err(),
        store.snooze_pending("pending_one", "2026-09-03", None).unwrap_err(),
        store.snooze_pending("pending_one", "2026-08-01", None).unwrap_err(),
        store.snooze_pending("pending_one", "tomorrow", None).unwrap_err(),
        store.cancel_pending("pending_none", None).unwrap_err(),
        store.add_category(" 书", Kind::Expense).unwrap_err(),
        store.add_category("书", Kind::Refund).unwrap_err(),
        store.add_category("工资", Kind::Expense).unwrap_err(),
    ];
    let told: Vec<(&str, &str)> = errors
        .iter()
        .map(|error| (error.code, error.message.as_str()))
        .collect();
    assert_eq!(
        told,
        [
            ("INVALID_INPUT", "单笔金额必须大于零"),
            ("INVALID_INPUT", "日期必须为有效的 YYYY-MM-DD（年份 0001..9999）"),
            ("INVALID_INPUT", "request-id 必须为 1..200 字节的非空字符串"),
            ("INVALID_INPUT", "退款必须指定原支出 ID"),
            ("NOT_FOUND", "账单不存在：txn_none"),
            ("INVALID_INPUT", "退款只能关联未作废的支出"),
            ("DATABASE_ERROR", "账单 ID 已存在"),
            ("INVALID_INPUT", "修改至少需要提供一个字段"),
            ("NOT_FOUND", "账单不存在：txn_none"),
            ("HAS_REFUNDS", "支出仍有关联退款，请先作废退款或使用 --cascade-refunds"),
            ("NOT_FOUND", "账单不存在：txn_none"),
            (
                "INVALID_INPUT",
                "外币必须为 USD、JPY、EUR、GBP、HKD、SGD、AUD、CAD、CHF、NZD、KRW 或 TWD（大写）"
            ),
            ("INVALID_INPUT", "日期必须为有效的 YYYY-MM-DD（年份 0001..9999）"),
            ("DATABASE_ERROR", "待确认账单 ID 已存在"),
            ("NOT_FOUND", "待确认账单不存在：pending_none"),
            ("DATABASE_ERROR", "账单 ID 已存在"),
            ("INVALID_INPUT", "延后提醒不能早于当前提醒日期"),
            ("INVALID_INPUT", "提醒日期不能早于消费日期"),
            ("INVALID_INPUT", "日期必须为有效的 YYYY-MM-DD（年份 0001..9999）"),
            ("NOT_FOUND", "待确认账单不存在：pending_none"),
            ("INVALID_INPUT", "分类名称不能为空或包含首尾空白"),
            ("INVALID_INPUT", "退款继承原支出分类，不支持创建退款分类"),
            ("CATEGORY_CONFLICT", "此分类名称已用于另一种收支类型"),
        ]
    );
    assert_eq!(contents(&store), before);
}

#[test]
fn every_other_refusal_says_why() {
    let mut store = Store::new();
    let expense = store.add(entry(Kind::Expense, "1", "2026-09-01"), None).unwrap().transaction.id;
    let mut with_category = refund(&expense, "1", "2026-09-01");
    with_category.category = Some("餐饮".to_owned());
    assert_eq!(
        store.add(with_category, None).unwrap_err().message,
        "退款分类继承原支出，不接受 category"
    );
    let mut with_original = entry(Kind::Income, "1", "2026-09-01");
    with_original.original_id = Some(expense.clone());
    assert_eq!(
        store.add(with_original, None).unwrap_err().message,
        "只有退款可以指定 original_id"
    );
    let mut unknown = entry(Kind::Expense, "1", "2026-09-01");
    unknown.category = Some("工资".to_owned());
    assert_eq!(
        store.add(unknown, None).unwrap_err().message,
        "分类不存在或类型不匹配：工资；请先创建对应分类"
    );
    let both = UpdateTransaction {
        occurred_at: Some("2026-09-01T10:00Z".to_owned()),
        clear_occurred_at: true,
        ..UpdateTransaction::default()
    };
    assert_eq!(
        store.update(&expense, both, None).unwrap_err().message,
        "occurred-at 与 clear-occurred-at 不能同时使用"
    );
    let timed = UpdateTransaction {
        occurred_at: Some("2026-09-01T10:00Z".to_owned()),
        ..UpdateTransaction::default()
    };
    store.update(&expense, timed, None).unwrap();
    let moved = UpdateTransaction {
        date: Some("2026-09-02".to_owned()),
        ..UpdateTransaction::default()
    };
    assert_eq!(
        store.update(&expense, moved, None).unwrap_err().message,
        "date 必须与 occurred-at 自带时区中的本地日期一致"
    );
    let back = store.add(refund(&expense, "1", "2026-09-01"), None).unwrap().transaction.id;
    let other_category = UpdateTransaction {
        category: Some("餐饮".to_owned()),
        ..UpdateTransaction::default()
    };
    assert_eq!(
        store.update(&back, other_category, None).unwrap_err().message,
        "退款分类继承原支出，不能单独修改"
    );
    let waiting = store.add_pending(purchase("USD", "1", "2026-09-10"), None).unwrap().pending.id;
    let early = ConfirmPendingExpense {
        amount: Money::from_minor(100),
        posted_date: Some("2026-09-09".to_owned()),
    };
    assert_eq!(
        store.confirm_pending(&waiting, early, None).unwrap_err().message,
        "银行入账日期不能早于消费日期"
    );
    let mut filters = PendingFilters {
        as_of: "2026-09-10".to_owned(),
        status: Some("open".to_owned()),
        ..PendingFilters::default()
    };
    assert_eq!(
        store.list_pending(&filters).unwrap_err().message,
        "status 必须为 pending、confirmed、cancelled 或 all"
    );
    filters.status = None;
    filters.currency = Some("usd".to_owned());
    assert!(store.list_pending(&filters).unwrap_err().message.starts_with("外币必须为"));
    let reversed = Filters {
        from: Some("2026-09-02".to_owned()),
        to: Some("2026-09-01".to_owned()),
        ..Filters::default()
    };
    assert_eq!(store.list(&reversed).unwrap_err().message, "from 不能晚于 to");
    let month = Filters {
        month: Some("2026-9".to_owned()),
        ..Filters::default()
    };
    assert_eq!(store.list(&month).unwrap_err().message, "月份必须为 YYYY-MM");
    let page = Filters {
        limit: 1001,
        ..Filters::default()
    };
    assert_eq!(
        store.list(&page).unwrap_err().message,
        "limit 必须为 1..1000，offset 必须大于等于 0"
    );
    assert_eq!(Kind::parse("transfer").unwrap_err().message, "类型必须是 expense、income 或 refund");
}

#[test]
fn a_request_is_carried_out_once_however_much_happens_after() {
    let mut store = Store::new();
    let first = store.add(entry(Kind::Expense, "10", "2026-09-01"), Some("add")).unwrap();
    let id = first.transaction.id.clone();
    let patch = UpdateTransaction {
        amount: Some(Money::from_minor(900)),
        ..UpdateTransaction::default()
    };
    store.update(&id, patch.clone(), Some("edit")).unwrap();
    store.void(&id, false, Some("void")).unwrap();
    let waiting = store.add_pending(purchase("USD", "5", "2026-09-01"), Some("wait")).unwrap();
    store.snooze_pending(&waiting.pending.id, "2026-09-09", Some("later")).unwrap();
    store.confirm_pending(&waiting.pending.id, confirmation("36"), Some("settle")).unwrap();
    let before = contents(&store);
    let again = store.add(entry(Kind::Expense, "10.00", "2026-09-01"), Some("add")).unwrap();
    assert!(again.replayed);
    assert_eq!(again.transaction.amount, Money::from_minor(1000));
    assert!(!again.transaction.voided);
    let edited = store.update(&id, patch, Some("edit")).unwrap();
    assert!(edited.replayed && !edited.transaction.voided);
    assert!(store.void(&id, false, Some("void")).unwrap().replayed);
    let waits = store.add_pending(purchase("USD", "5.0", "2026-09-01"), Some("wait")).unwrap();
    assert!(waits.replayed);
    assert_eq!(waits.pending.status, PendingStatus::Pending);
    assert!(store.snooze_pending(&waiting.pending.id, "2026-09-09", Some("later")).unwrap().replayed);
    let settled = store
        .confirm_pending(&waiting.pending.id, confirmation("36.00"), Some("settle"))
        .unwrap();
    assert!(settled.replayed && settled.transaction.is_some());
    assert_eq!(contents(&store), before);
    for request in ["add", "edit", "void", "wait", "later", "settle"] {
        let error = store.add(entry(Kind::Income, "1", "2026-09-01"), Some(request)).unwrap_err();
        assert_eq!(error.code, "IDEMPOTENCY_CONFLICT");
        assert_eq!(error.message, "此 request-id 已用于不同请求");
    }
    assert_eq!(contents(&store), before);
}

#[test]
fn a_stored_request_of_another_sort_is_never_repeated() {
    let mut store = Store::new();
    let result = store.add(entry(Kind::Expense, "1", "2026-09-01"), None).unwrap();
    store.requests.push(RequestRow {
        request_id: "old".to_owned(),
        operation: Operation::Unknown,
        reply: Reply::Write { result: result.copy() },
        created_at: "2020-01-01T00:00:00Z".to_owned(),
    });
    store.requests.push(RequestRow {
        request_id: "odd".to_owned(),
        operation: Operation::PendingCancel { id: "pending_x".to_owned() },
        reply: Reply::Write { result },
        created_at: "2020-01-01T00:00:00Z".to_owned(),
    });
    let error = store.add(entry(Kind::Expense, "1", "2026-09-01"), Some("old")).unwrap_err();
    assert_eq!(error.code, "IDEMPOTENCY_CONFLICT");
    let error = store.cancel_pending("pending_x", Some("odd")).unwrap_err();
    assert_eq!((error.code, error.message.as_str()), ("DATABASE_ERROR", "请求记录与操作不符"));
    // An answer that cannot be read matters only to the request that it belongs to.
    store.requests.push(RequestRow {
        request_id: "torn".to_owned(),
        operation: Operation::PendingCancel { id: "pending_x".to_owned() },
        reply: Reply::Unreadable { message: "unexpected end".to_owned() },
        created_at: "2020-01-01T00:00:00Z".to_owned(),
    });
    let error = store.cancel_pending("pending_y", Some("torn")).unwrap_err();
    assert_eq!(error.code, "IDEMPOTENCY_CONFLICT");
    let error = store.void("txn_x", false, Some("torn")).unwrap_err();
    assert_eq!(error.code, "IDEMPOTENCY_CONFLICT");
    let error = store.cancel_pending("pending_x", Some("torn")).unwrap_err();
    assert_eq!((error.code, error.message.as_str()), ("DATABASE_ERROR", "unexpected end"));
}

#[test]
fn a_refund_without_its_original_is_reported_as_damage() {
    let mut store = Store::new();
    store.transactions.push(TransactionRow {
        id: "txn_lost".to_owned(),
        kind: Kind::Refund,
        amount: Money::from_minor(1),
        category: None,
        date: "2026-09-01".to_owned(),
        occurred_at: None,
        note: None,
        channel: None,
        original_id: Some("txn_gone".to_owned()),
        voided: false,
        created_at: "2026-09-01T00:00:00Z".to_owned(),
        updated_at: "2026-09-01T00:00:00Z".to_owned(),
    });
    let later = store.add(entry(Kind::Expense, "2", "2026-10-01"), None).unwrap().transaction.id;
    let period = |month: &str| Filters {
        month: Some(month.to_owned()),
        ..Filters::default()
    };
    for error in [
        store.get("txn_lost").unwrap_err(),
        store.list(&Filters::default()).unwrap_err(),
        store.list(&period("2026-09")).unwrap_err(),
        store.summary(&Filters::default()).unwrap_err(),
        store.summary(&period("2026-09")).unwrap_err(),
    ] {
        assert_eq!((error.code, error.message.as_str()), ("DATABASE_ERROR", "账单缺少分类"));
    }
    // What does not ask for the damaged row is answered as ever.
    assert_eq!(store.list(&period("2026-10")).unwrap().total, 1);
    assert_eq!(store.summary(&period("2026-10")).unwrap().expense, "2.00");
    let first = Filters {
        limit: 1,
        ..Filters::default()
    };
    let page = store.list(&first).unwrap();
    assert_eq!((page.total, page.items.len()), (2, 1));
    assert_eq!(page.items[0].id, later);
    let category = Filters {
        category: Some("其他支出".to_owned()),
        ..Filters::default()
    };
    assert_eq!(store.list(&category).unwrap().total, 1);
    assert!(store.get(&later).unwrap().refunds.is_empty());
    assert_eq!(store.void(&later, true, None).unwrap().affected_ids, [later]);
}

#[test]
fn purchases_count_only_once_they_are_confirmed_and_then_exactly() {
    let mut store = Store::new();
    store.add(entry(Kind::Expense, "1.00", "2026-09-01"), None).unwrap();
    let total = |store: &Store| store.summary(&Filters::default()).unwrap().expense;
    let first = store.add_pending(purchase("USD", "20", "2026-09-01"), None).unwrap().pending.id;
    let second = store.add_pending(purchase("USD", "30", "2026-09-02"), None).unwrap().pending.id;
    store.snooze_pending(&first, "2026-10-01", None).unwrap();
    store.cancel_pending(&second, None).unwrap();
    assert_eq!(total(&store), "1.00");
    let settled = store.confirm_pending(&first, confirmation("145.27"), None).unwrap();
    assert_eq!(total(&store), "146.27");
    let record = settled.transaction.unwrap();
    assert_eq!(record.date, "2026-09-01");
    assert_eq!(settled.pending.transaction_id.as_deref(), Some(record.id.as_str()));
    let rows = store.transactions.len();
    assert!(store.confirm_pending(&first, confirmation("145.27"), None).unwrap().replayed);
    assert_eq!(
        store.confirm_pending(&first, confirmation("145.28"), None).unwrap_err().code,
        "ALREADY_CONFIRMED"
    );
    assert_eq!(store.transactions.len(), rows);
    assert_eq!(store.cancel_pending(&first, None).unwrap_err().code, "ALREADY_CONFIRMED");
    assert_eq!(
        store.snooze_pending(&first, "2026-12-01", None).unwrap_err().message,
        "此账单已确认，请操作关联的人民币支出"
    );
    assert_eq!(
        store.confirm_pending(&second, confirmation("1"), None).unwrap_err().message,
        "此待确认账单已取消"
    );
    let actions: Vec<String> = store
        .pending_history(&first)
        .unwrap()
        .into_iter()
        .map(|record| record.action)
        .collect();
    assert_eq!(actions, ["create", "snooze", "confirm"]);
}

#[test]
fn a_purchase_is_found_by_its_merchant_before_and_after_it_is_settled() {
    let mut store = Store::new();
    let mut input = purchase("JPY", "1000", "2026-09-01");
    input.merchant = Some("乐天市场".to_owned());
    let id = store.add_pending(input, None).unwrap().pending.id;
    store.add(entry(Kind::Expense, "1.00", "2026-09-01"), None).unwrap();
    let search = Filters {
        keyword: Some("乐天".to_owned()),
        ..Filters::default()
    };
    assert_eq!(store.list(&search).unwrap().total, 0);
    assert_eq!(store.summary(&search).unwrap().pending_count, 1);
    store.confirm_pending(&id, confirmation("50"), None).unwrap();
    assert_eq!(store.list(&search).unwrap().total, 1);
    let summary = store.summary(&search).unwrap();
    assert_eq!((summary.expense.as_str(), summary.pending_count), ("50.00", 0));
}

#[test]
fn voiding_takes_an_expense_and_its_refunds_out_of_all_totals() {
    let mut store = Store::new();
    let at = |n: &str| stamp(n, "2026-09-05T00:00:00.000000Z");
    store.add_with(entry(Kind::Expense, "10", "2026-09-01"), None, &at("e")).unwrap();
    store.add_with(refund("txn_e", "2", "2026-09-02"), None, &at("b")).unwrap();
    store.add_with(refund("txn_e", "3", "2026-09-02"), None, &at("a")).unwrap();
    store.add_with(entry(Kind::Expense, "1", "2026-09-01"), None, &at("x")).unwrap();
    let result = store.void_with("txn_e", true, None, "2026-09-06T00:00:00.000000Z").unwrap();
    assert_eq!(result.affected_ids, ["txn_e", "txn_a", "txn_b"]);
    assert_eq!(result.transaction.updated_at, "2026-09-06T00:00:00.000000Z");
    let summary = store.summary(&Filters::default()).unwrap();
    assert_eq!((summary.count, summary.expense.as_str()), (1, "1.00"));
    assert_eq!(summary.refund, "0.00");
    let voided: Vec<&str> = store.audit_log[4..]
        .iter()
        .map(|entry| entry.transaction_id.as_str())
        .collect();
    assert_eq!(voided, ["txn_a", "txn_b", "txn_e"]);
    assert_eq!(
        store.void("txn_e", true, None).unwrap_err().message,
        "账单已经作废"
    );
    let patch = UpdateTransaction {
        note: Some("x".to_owned()),
        ..UpdateTransaction::default()
    };
    assert_eq!(
        store.update("txn_e", patch, None).unwrap_err().message,
        "已作废的账单不能修改"
    );
}

#[test]
fn totals_of_categories_add_up_and_are_sorted_by_name() {
    let mut store = Store::new();
    for (category, amount) in [("餐饮", "1.10"), ("交通", "2.20"), ("餐饮", "3.30")] {
        let mut input = entry(Kind::Expense, amount, "2026-09-01");
        input.category = Some(category.to_owned());
        store.add(input, None).unwrap();
    }
    store.add(entry(Kind::Income, "100", "2026-09-01"), None).unwrap();
    let summary = store.summary(&Filters::default()).unwrap();
    assert_eq!(summary.count, 4);
    assert_eq!(summary.expense, "6.60");
    assert_eq!(summary.net_expense, "6.60");
    assert_eq!(summary.balance, "93.40");
    let parts: Vec<(&str, &str, &str)> = summary
        .by_category
        .iter()
        .map(|item| (item.category.as_str(), item.income.as_str(), item.expense.as_str()))
        .collect();
    assert_eq!(
        parts,
        [
            ("交通", "0.00", "2.20"),
            ("其他收入", "100.00", "0.00"),
            ("餐饮", "0.00", "4.40"),
        ]
    );
}

#[test]
fn lists_go_from_the_newest_to_the_oldest_page_by_page() {
    let mut store = Store::new();
    for (unique, date, now) in [
        ("a", "2026-09-01", "2026-09-09T00:00:00.000000Z"),
        ("b", "2026-09-02", "2026-09-08T00:00:00.000000Z"),
        ("c", "2026-09-01", "2026-09-09T00:00:00.000001Z"),
        ("d", "2026-09-01", "2026-09-09T00:00:00.000000Z"),
    ] {
        store.add_with(entry(Kind::Expense, "1", date), None, &stamp(unique, now)).unwrap();
    }
    let page = |limit: i64, offset: i64| {
        let filters = Filters {
            limit,
            offset,
            ..Filters::default()
        };
        let page = store.list(&filters).unwrap();
        assert_eq!((page.total, page.offset), (4, offset));
        page.items.into_iter().map(|item| item.id).collect::<Vec<_>>()
    };
    assert_eq!(page(0, 0), ["txn_b", "txn_c", "txn_d", "txn_a"]);
    assert_eq!(page(2, 1), ["txn_c", "txn_d"]);
    assert_eq!(page(1000, 3), ["txn_a"]);
    assert!(page(1, i64::MAX).is_empty());
}

#[test]
fn what_was_answered_is_what_is_read() {
    let mut store = Store::new();
    let added = store.add(entry(Kind::Expense, "10", "2026-09-01"), None).unwrap();
    let id = added.transaction.id.clone();
    assert_eq!(store.get(&id).unwrap().transaction, added.transaction);
    let patch = UpdateTransaction {
        amount: Some(Money::from_minor(900)),
        category: Some("餐饮".to_owned()),
        ..UpdateTransaction::default()
    };
    let edited = store.update(&id, patch, None).unwrap();
    assert_eq!(store.get(&id).unwrap().transaction, edited.transaction);
    let returned = store.add(refund(&id, "20", "2026-09-02"), None).unwrap();
    assert_eq!(returned.transaction.category, "餐饮");
    assert_eq!(store.get(&id).unwrap().refunds, [returned.transaction.clone()]);
    let voided = store.void(&returned.transaction.id, false, None).unwrap();
    assert_eq!(store.get(&returned.transaction.id).unwrap().transaction, voided.transaction);
    let waiting = store.add_pending(purchase("KRW", "500", "2026-09-01"), None).unwrap();
    let pending = waiting.pending.id.clone();
    assert_eq!(store.get_pending(&pending).unwrap().pending, waiting.pending);
    let later = store.snooze_pending(&pending, "2026-09-20", None).unwrap();
    assert_eq!(store.get_pending(&pending).unwrap().pending, later.pending);
    let settled = store.confirm_pending(&pending, confirmation("3"), None).unwrap();
    let detail = store.get_pending(&pending).unwrap();
    assert_eq!(detail.pending, settled.pending);
    assert_eq!(detail.transaction, settled.transaction);
    let history = store.pending_history(&pending).unwrap();
    assert_eq!(history.last().unwrap().after, settled.pending);
    assert_eq!(history.last().unwrap().before.as_ref(), Some(&later.pending));
}

#[test]
fn a_summary_has_no_pages_and_putting_off_does_not_change_it() {
    let mut store = Store::new();
    for _ in 0..3 {
        store.add(entry(Kind::Expense, "1", "2026-09-01"), None).unwrap();
    }
    let id = store.add_pending(purchase("USD", "5", "2026-09-01"), None).unwrap().pending.id;
    let whole = store.summary(&Filters::default()).unwrap();
    let page = Filters {
        limit: 1,
        offset: 2,
        include_voided: true,
        ..Filters::default()
    };
    assert_eq!(store.summary(&page).unwrap(), whole);
    store.snooze_pending(&id, "2026-12-01", None).unwrap();
    assert_eq!(store.summary(&Filters::default()).unwrap(), whole);
    let due = |as_of: &str| {
        let filters = PendingFilters {
            as_of: as_of.to_owned(),
            due_only: true,
            ..PendingFilters::default()
        };
        store.list_pending(&filters).unwrap().total
    };
    assert_eq!((due("2026-11-30"), due("2026-12-01")), (0, 1));
}

#[test]
fn creating_a_category_twice_changes_nothing() {
    let mut store = Store::new();
    let first = store.add_category("书", Kind::Expense).unwrap();
    let before = contents(&store);
    let second = store.add_category("书", Kind::Expense).unwrap();
    assert_eq!((first.name, first.kind), (second.name, second.kind));
    assert_eq!(contents(&store), before);
}

#[test]
fn small_rules_hold_at_their_edges() {
    assert!(validate_amount(Money::from_minor(1)).is_ok());
    assert!(validate_amount(Money::from_minor(0)).is_err());
    assert!(validate_request_id(None).is_ok());
    assert!(validate_request_id(Some(&"a".repeat(200))).is_ok());
    assert!(validate_request_id(Some(&"a".repeat(201))).is_err());
    assert!(validate_request_id(Some(&"好".repeat(67))).is_err());
    assert!(validate_request_id(Some("\u{3000}\t")).is_err());
    assert!(validate_request_id(Some("")).is_err());
    assert_eq!(clean_optional(Some(String::new())), None);
    assert_eq!(clean_optional(Some(" ".to_owned())).as_deref(), Some(" "));
    assert_eq!(clean_optional(None), None);
    assert_eq!(checked_add(i128::MAX, 0).unwrap(), i128::MAX);
    let error = checked_add(i128::MAX, 1).unwrap_err();
    assert_eq!((error.code, error.message.as_str()), ("AMOUNT_OVERFLOW", "金额汇总超出可表示范围"));
    assert_eq!(checked_sub(0, i128::MIN).unwrap_err().code, "AMOUNT_OVERFLOW");
    let mut totals = Totals::new();
    totals.add(Kind::Expense, 5).unwrap();
    totals.add(Kind::Refund, 7).unwrap();
    assert_eq!(totals.net().unwrap(), -2);
    totals.add(Kind::Income, i128::MAX).unwrap();
    assert!(totals.add(Kind::Income, 1).is_err());
    assert_eq!(totals.income, i128::MAX);
    for status in [
        PendingStatus::Pending,
        PendingStatus::Confirmed,
        PendingStatus::Cancelled,
    ] {
        assert_eq!(PendingStatus::parse(status.as_str()), Some(status));
    }
    assert_eq!(PendingStatus::parse("all"), None);
    for kind in [Kind::Expense, Kind::Income, Kind::Refund] {
        assert_eq!(Kind::parse(kind.as_str()).unwrap(), kind);
        assert_eq!(kind.as_str().parse::<Kind>().unwrap(), kind);
    }
}
