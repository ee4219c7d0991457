use claw_expense::models::{Filters, Kind, NewTransaction, UpdateTransaction};
use claw_expense::money::Money;
use claw_expense::store::Store;

fn expense(amount: &str, date: &str) -> NewTransaction {
    NewTransaction {
        kind: Kind::Expense,
        amount: amount.parse().unwrap(),
        date: date.to_owned(),
        occurred_at: None,
        category: Some("购物".to_owned()),
        note: None,
        channel: Some("银行卡".to_owned()),
        original_id: None,
    }
}

fn refund(original: &str, amount: &str, date: &str) -> NewTransaction {
    NewTransaction {
        kind: Kind::Refund,
        amount: amount.parse().unwrap(),
        date: date.to_owned(),
        occurred_at: None,
        category: None,
        note: None,
        channel: Some("微信".to_owned()),
        original_id: Some(original.to_owned()),
    }
}

fn month(month: &str) -> Filters {
    Filters {
        month: Some(month.to_owned()),
        ..Filters::default()
    }
}

#[test]
fn partial_full_and_excess_refunds_preserve_exact_cash_flow_dates() {
    let mut store = Store::new();
    let original = store
        .add(expense("98.01", "2026-08-20"), None)
        .unwrap()
        .transaction
        .id;
    assert_eq!(
        store.get(&original).unwrap().refund_status.as_deref(),
        Some("none")
    );
    store
        .add(refund(&original, "0.10", "2026-09-01"), None)
        .unwrap();
    let partial = store.get(&original).unwrap();
    assert_eq!(partial.refund_status.as_deref(), Some("partial"));
    assert_eq!(partial.net_expense.as_deref(), Some("97.91"));
    store
        .add(refund(&original, "97.91", "2026-09-02"), None)
        .unwrap();
    assert_eq!(
        store.get(&original).unwrap().refund_status.as_deref(),
        Some("full")
    );
    store
        .add(refund(&original, "1.99", "2026-09-03"), None)
        .unwrap();
    let detail = store.get(&original).unwrap();
    assert_eq!(detail.refund_total, "100.00");
    assert_eq!(detail.net_expense.as_deref(), Some("-1.99"));
    assert_eq!(detail.excess_refund, "1.99");
    assert_eq!(detail.refund_status.as_deref(), Some("excess"));
    assert_eq!(detail.transaction.channel.as_deref(), Some("银行卡"));
    assert!(
        detail
            .refunds
            .iter()
            .all(|r| r.channel.as_deref() == Some("微信"))
    );
    let august = store.summary(&month("2026-08")).unwrap();
    assert_eq!(
        (
            august.expense.as_str(),
            august.refund.as_str(),
            august.net_expense.as_str()
        ),
        ("98.01", "0.00", "98.01")
    );
    let september = store.summary(&month("2026-09")).unwrap();
    assert_eq!(
        (
            september.income.as_str(),
            september.refund.as_str(),
            september.net_expense.as_str()
        ),
        ("0.00", "100.00", "-100.00")
    );
    assert_eq!(september.by_category[0].category, "购物");
    assert_eq!(september.by_category[0].net_expense, "-100.00");
}

#[test]
fn totals_exceed_i64_without_losing_a_cent() {
    let mut store = Store::new();
    let first = store
        .add(expense("92233720368547758.07", "2026-09-01"), None)
        .unwrap()
        .transaction;
    store
        .add(expense("92233720368547758.07", "2026-09-01"), None)
        .unwrap();
    store
        .add(expense("0.01", "2026-09-01"), None)
        .unwrap();
    assert_eq!(
        store
            .get(&first.id)
            .unwrap()
            .transaction
            .amount
            .minor(),
        i64::MAX
    );
    assert_eq!(
        store.summary(&Filters::default()).unwrap().expense,
        "184467440737095516.15"
    );
    store
        .add(
            refund(&first.id, "92233720368547758.07", "2026-09-02"),
            None,
        )
        .unwrap();
    store
        .add(
            refund(&first.id, "92233720368547758.07", "2026-09-02"),
            None,
        )
        .unwrap();
    let detail = store.get(&first.id).unwrap();
    assert_eq!(detail.refund_total, "184467440737095516.14");
    assert_eq!(detail.net_expense.as_deref(), Some("-92233720368547758.07"));
    assert_eq!(
        store
            .summary(&Filters::default())
            .unwrap()
            .net_expense,
        "0.01"
    );
}

#[test]
fn request_ids_replay_original_response_and_reject_changed_payload() {
    let mut store = Store::new();
    let input = expense("35.01", "2026-09-01");
    let first = store.add(input.clone(), Some("add-1")).unwrap();
    let second = store.add(input.clone(), Some("add-1")).unwrap();
    assert!(second.replayed);
    assert_eq!(first.transaction.id, second.transaction.id);
    assert_eq!(store.history(&first.transaction.id).unwrap().len(), 1);
    assert_eq!(store.list(&Filters::default()).unwrap().total, 1);
    assert_eq!(
        store
            .add(expense("35.02", "2026-09-01"), Some("add-1"))
            .unwrap_err()
            .code,
        "IDEMPOTENCY_CONFLICT"
    );
    let patch = UpdateTransaction {
        note: Some("午饭".to_owned()),
        ..UpdateTransaction::default()
    };
    store
        .update(&first.transaction.id, patch.clone(), Some("update-1"))
        .unwrap();
    assert!(
        store
            .update(&first.transaction.id, patch, Some("update-1"))
            .unwrap()
            .replayed
    );
    assert_eq!(
        store
            .void(&first.transaction.id, false, Some("add-1"))
            .unwrap_err()
            .code,
        "IDEMPOTENCY_CONFLICT"
    );
    store
        .void(&first.transaction.id, false, Some("void-1"))
        .unwrap();
    assert!(
        store
            .void(&first.transaction.id, false, Some("void-1"))
            .unwrap()
            .replayed
    );
    let replay = store.add(input, Some("add-1")).unwrap();
    assert!(replay.replayed);
    assert!(!replay.transaction.voided);
    assert_eq!(store.history(&first.transaction.id).unwrap().len(), 3);
}

#[test]
fn expense_category_changes_follow_refunds_and_clear_optional_fields() {
    let mut store = Store::new();
    store.add_category("代付", Kind::Expense).unwrap();
    let id = store
        .add(expense("20.00", "2026-09-01"), None)
        .unwrap()
        .transaction
        .id;
    let refund = store
        .add(refund(&id, "25.00", "2026-09-02"), None)
        .unwrap()
        .transaction
        .id;
    store
        .update(
            &id,
            UpdateTransaction {
                amount: Some("10.00".parse().unwrap()),
                category: Some("代付".to_owned()),
                channel: Some(String::new()),
                note: Some(String::new()),
                ..Default::default()
            },
            None,
        )
        .unwrap();
    assert_eq!(
        store.get(&refund).unwrap().transaction.category,
        "代付"
    );
    let detail = store.get(&id).unwrap();
    assert_eq!(detail.net_expense.as_deref(), Some("-15.00"));
    assert!(detail.transaction.note.is_none());
    assert!(detail.transaction.channel.is_none());
    assert!(
        store
            .update(
                &refund,
                UpdateTransaction {
                    category: Some("购物".to_owned()),
                    ..Default::default()
                },
                None
            )
            .is_err()
    );
    let totals = store
        .summary(&Filters {
            category: Some("代付".to_owned()),
            ..Default::default()
        })
        .unwrap();
    assert_eq!(totals.count, 2);
    assert_eq!(totals.net_expense, "-15.00");
    let audit = store.history(&id).unwrap();
    assert_eq!(audit[1].before.as_ref().unwrap().amount.to_string(), "20.00");
    assert_eq!(audit[1].after.amount.to_string(), "10.00");
}

#[test]
fn cascading_void_is_atomic_audited_and_excluded_from_totals() {
    let mut store = Store::new();
    let id = store
        .add(expense("20.00", "2026-09-01"), None)
        .unwrap()
        .transaction
        .id;
    let r1 = store
        .add(refund(&id, "5.00", "2026-09-02"), None)
        .unwrap()
        .transaction
        .id;
    let r2 = store
        .add(refund(&id, "20.00", "2026-09-03"), None)
        .unwrap()
        .transaction
        .id;
    assert_eq!(
        store.void(&id, false, Some("void")).unwrap_err().code,
        "HAS_REFUNDS"
    );
    assert_eq!(store.history(&id).unwrap().len(), 1);
    let result = store.void(&id, true, Some("void")).unwrap();
    assert_eq!(result.affected_ids.len(), 3);
    for id in [&id, &r1, &r2] {
        assert!(store.get(id).unwrap().transaction.voided);
        assert_eq!(
            store.history(id).unwrap().last().unwrap().action,
            "void"
        );
    }
    assert_eq!(store.get(&id).unwrap().refund_total, "0.00");
    assert_eq!(store.list(&Filters::default()).unwrap().total, 0);
    let filters = Filters {
        include_voided: true,
        ..Default::default()
    };
    assert_eq!(store.list(&filters).unwrap().total, 3);
    assert_eq!(store.summary(&filters).unwrap().count, 0);
    assert!(
        store
            .update(
                &id,
                UpdateTransaction {
                    amount: Some("50".parse().unwrap()),
                    ..Default::default()
                },
                None
            )
            .is_err()
    );
    assert!(
        store
            .add(refund(&id, "1.00", "2026-09-04"), None)
            .is_err()
    );
    assert!(store.void(&id, true, Some("void")).unwrap().replayed);
}

#[test]
fn voiding_one_refund_recalculates_status_without_changing_expense() {
    let mut store = Store::new();
    let id = store
        .add(expense("1.00", "2026-09-01"), None)
        .unwrap()
        .transaction
        .id;
    let refund = store
        .add(refund(&id, "2.00", "2026-09-02"), None)
        .unwrap()
        .transaction
        .id;
    store.void(&refund, false, None).unwrap();
    let detail = store.get(&id).unwrap();
    assert_eq!(detail.refund_status.as_deref(), Some("none"));
    assert_eq!(detail.net_expense.as_deref(), Some("1.00"));
    assert_eq!(detail.refunds.len(), 1);
    assert!(!detail.transaction.voided);
    store.void(&id, false, None).unwrap();
}

#[test]
fn malformed_inputs_leave_the_ledger_unchanged() {
    let mut store = Store::new();
    for date in [
        "2026-9-01",
        "2026-09-1",
        "2026-02-29",
        "2026-13-01",
        "0000-01-01",
        "2026-09-01 ",
        "2026-09-01T00:00:00Z",
    ] {
        assert!(
            store.add(expense("1.00", date), None).is_err(),
            "{date}"
        );
    }
    assert!(store.add(expense("0", "2026-09-01"), None).is_err());
    let mut negative = expense("1", "2026-09-01");
    negative.amount = Money::from_minor(-1);
    assert!(store.add(negative, None).is_err());
    let mut unknown = expense("1", "2026-09-01");
    unknown.category = Some("不存在".to_owned());
    assert!(store.add(unknown, None).is_err());
    assert!(
        store
            .add(expense("1", "2026-09-01"), Some("  "))
            .is_err()
    );
    let mut wrong_kind = expense("1", "2026-09-01");
    wrong_kind.kind = Kind::Income;
    assert!(store.add(wrong_kind, None).is_err());
    let mut with_original = expense("1", "2026-09-01");
    with_original.original_id = Some("missing".to_owned());
    assert!(store.add(with_original, None).is_err());
    assert!(
        store
            .add(refund("missing", "1", "2026-09-01"), None)
            .is_err()
    );
    assert_eq!(store.list(&Filters::default()).unwrap().total, 0);
    // Leap day is valid in leap years and remains a date rather than a timezone conversion.
    store.add(expense("1", "2024-02-29"), None).unwrap();
}

#[test]
fn income_defaults_and_category_types_are_enforced() {
    let mut store = Store::new();
    let mut input = expense("500.00", "2026-09-01");
    input.kind = Kind::Income;
    input.category = None;
    let income = store.add(input, None).unwrap().transaction;
    assert_eq!(income.category, "其他收入");
    assert!(
        store
            .add(refund(&income.id, "1", "2026-09-02"), None)
            .is_err()
    );
    assert!(store.add_category("退款", Kind::Refund).is_err());
    assert!(store.add_category("购物", Kind::Income).is_err());
    assert!(store.add_category(" ", Kind::Expense).is_err());
    let summary = store.summary(&Filters::default()).unwrap();
    assert_eq!(summary.income, "500.00");
    assert_eq!(summary.balance, "500.00");
    assert!(store.get(&income.id).unwrap().net_expense.is_none());
}

#[test]
fn date_filters_pagination_and_keywords_are_literal() {
    let mut store = Store::new();
    for (date, note) in [
        ("2026-08-31", "100%_x"),
        ("2026-09-01", "100 apples"),
        ("2026-09-02", "100%_x"),
    ] {
        let mut input = expense("1.00", date);
        input.note = Some(note.to_owned());
        store.add(input, None).unwrap();
    }
    let matches = store
        .list(&Filters {
            keyword: Some("%_".to_owned()),
            ..Default::default()
        })
        .unwrap();
    assert_eq!(matches.total, 2);
    let page = store
        .list(&Filters {
            month: Some("2026-09".to_owned()),
            limit: 1,
            offset: 1,
            ..Default::default()
        })
        .unwrap();
    assert_eq!(page.total, 2);
    assert_eq!(page.items.len(), 1);
    assert_eq!(page.items[0].date, "2026-09-01");
    assert_eq!(
        store
            .list(&Filters {
                from: Some("2026-09-01".to_owned()),
                to: Some("2026-09-01".to_owned()),
                ..Default::default()
            })
            .unwrap()
            .total,
        1
    );
    for invalid_month in ["2026-9", "2026-00", "2026-13", "0000-01"] {
        assert!(store.summary(&month(invalid_month)).is_err());
    }
    assert!(
        store
            .list(&Filters {
                from: Some("2026-09-02".to_owned()),
                to: Some("2026-09-01".to_owned()),
                ..Default::default()
            })
            .is_err()
    );
    assert!(
        store
            .list(&Filters {
                limit: 1001,
                ..Default::default()
            })
            .is_err()
    );
    assert!(
        store
            .list(&Filters {
                limit: -1,
                ..Default::default()
            })
            .is_err()
    );
    assert!(
        store
            .list(&Filters {
                offset: -1,
                ..Default::default()
            })
            .is_err()
    );
}
