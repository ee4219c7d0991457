use claw_expense::models::{
    ConfirmPendingExpense, Filters, Kind, NewPendingExpense, NewTransaction, PendingFilters,
    UpdateTransaction,
};
use claw_expense::money::Money;
use claw_expense::store::Store;

fn input(currency: &str, amount: &str) -> NewPendingExpense {
    NewPendingExpense {
        currency: currency.into(),
        amount: amount.into(),
        date: "2026-09-29".into(),
        occurred_at: None,
        category: Some("购物".into()),
        merchant: Some("乐天".into()),
        note: Some("海淘".into()),
        channel: Some("信用卡".into()),
    }
}

fn confirm(amount: &str) -> ConfirmPendingExpense {
    ConfirmPendingExpense {
        amount: amount.parse().unwrap(),
        posted_date: Some("2026-10-03".into()),
    }
}

fn pending_filters(as_of: &str) -> PendingFilters {
    PendingFilters {
        filters: Filters::default(),
        status: None,
        currency: None,
        as_of: as_of.into(),
        due_only: false,
    }
}

#[test]
fn pending_occurrence_survives_confirmation_without_moving_date_or_reminder() {
    let mut store = Store::new();
    let mut data = input("USD", "20");
    data.date = "2026-09-30".into();
    data.occurred_at = Some("2026-09-30T23:30:12.123-07:00".into());
    let pending = store
        .add_pending(data.clone(), Some("timed-pending"))
        .unwrap()
        .pending;
    assert_eq!(pending.remind_on, "2026-10-03");
    assert_eq!(pending.occurred_at, data.occurred_at);
    assert_eq!(
        store
            .list_pending(&pending_filters("2026-10-03"))
            .unwrap()
            .items[0]
            .occurred_at,
        data.occurred_at
    );
    let confirmed = store
        .confirm_pending(&pending.id, confirm("140"), Some("confirm-time"))
        .unwrap();
    let txn = confirmed.transaction.unwrap();
    assert_eq!(txn.date, "2026-09-30");
    assert_eq!(txn.occurred_at, data.occurred_at);
    assert_eq!(
        store
            .get(&txn.id)
            .unwrap()
            .foreign_expense
            .unwrap()
            .occurred_at,
        data.occurred_at
    );
    assert_eq!(
        store.pending_history(&pending.id).unwrap()[1]
            .after
            .occurred_at
            .as_deref(),
        Some("2026-09-30T23:30:12.123-07:00")
    );
    assert_eq!(
        store
            .summary(&Filters {
                month: Some("2026-09".into()),
                ..Default::default()
            })
            .unwrap()
            .expense,
        "140.00"
    );
    assert_eq!(
        store
            .summary(&Filters {
                month: Some("2026-10".into()),
                ..Default::default()
            })
            .unwrap()
            .expense,
        "0.00"
    );
    data.date = "2026-10-01".into();
    assert!(store.add_pending(data, None).is_err());
}

#[test]
fn confirmation_preserves_original_purchase_and_supports_excess_refunds() {
    let mut store = Store::new();
    let pending = store
        .add_pending(input("JPY", "10000"), None)
        .unwrap();
    assert_eq!(pending.pending.remind_on, "2026-10-02");
    assert!(pending.transaction.is_none());
    let null_amount = store.pending_expenses[0].confirmed_amount;
    assert!(null_amount.is_none());
    let filters = Filters {
        month: Some("2026-09".into()),
        keyword: Some("乐天".into()),
        ..Default::default()
    };
    let summary = store.summary(&filters).unwrap();
    assert_eq!(summary.expense, "0.00");
    assert_eq!(summary.pending_count, 1);
    assert_eq!(summary.pending_by_currency[0].amount, "10000");
    let result = store
        .confirm_pending(&pending.pending.id, confirm("510.38"), None)
        .unwrap();
    let txn = result.transaction.unwrap();
    assert_eq!(txn.date, "2026-09-29");
    assert_eq!(txn.category, "购物");
    assert_eq!(result.pending.posted_date.as_deref(), Some("2026-10-03"));
    assert!(result.pending.confirmed_at.unwrap().ends_with('Z'));
    assert_eq!(
        store
            .get(&txn.id)
            .unwrap()
            .foreign_expense
            .unwrap()
            .amount,
        "10000"
    );
    let summary = store.summary(&filters).unwrap();
    assert_eq!(summary.expense, "510.38");
    assert_eq!(summary.pending_count, 0);
    assert_eq!(
        store
            .summary(&Filters {
                month: Some("2026-10".into()),
                ..Default::default()
            })
            .unwrap()
            .expense,
        "0.00"
    );
    store
        .add(
            NewTransaction {
                kind: Kind::Refund,
                amount: "520.00".parse().unwrap(),
                date: "2026-10-04".into(),
                occurred_at: None,
                category: None,
                note: None,
                channel: None,
                original_id: Some(txn.id.clone()),
            },
            None,
        )
        .unwrap();
    assert_eq!(
        store.get(&txn.id).unwrap().net_expense.as_deref(),
        Some("-9.62")
    );
    assert_eq!(
        store
            .pending_history(&pending.pending.id)
            .unwrap()
            .len(),
        2
    );
    assert_eq!(store.history(&txn.id).unwrap().len(), 1);
    assert_eq!(
        store
            .cancel_pending(&pending.pending.id, None)
            .unwrap_err()
            .code,
        "ALREADY_CONFIRMED"
    );
    assert_eq!(
        store
            .snooze_pending(&pending.pending.id, "2026-10-05", None)
            .unwrap_err()
            .code,
        "ALREADY_CONFIRMED"
    );
}

#[test]
fn request_ids_and_reconfirmation_are_safe_after_edits_and_voids() {
    let mut store = Store::new();
    let first = store
        .add_pending(input("USD", "20"), Some("create"))
        .unwrap();
    let id = first.pending.id;
    assert!(
        store
            .add_pending(input("USD", "20"), Some("create"))
            .unwrap()
            .replayed
    );
    assert_eq!(
        store
            .add_pending(input("USD", "21"), Some("create"))
            .unwrap_err()
            .code,
        "IDEMPOTENCY_CONFLICT"
    );
    assert_eq!(
        store
            .confirm_pending(&id, confirm("140.01"), Some("create"))
            .unwrap_err()
            .code,
        "IDEMPOTENCY_CONFLICT"
    );
    let initial = store
        .confirm_pending(&id, confirm("140.01"), Some("confirm"))
        .unwrap()
        .transaction
        .unwrap();
    assert_eq!(
        store
            .confirm_pending(&id, confirm("140.02"), None)
            .unwrap_err()
            .code,
        "ALREADY_CONFIRMED"
    );
    store
        .update(
            &initial.id,
            UpdateTransaction {
                amount: Some("140.99".parse().unwrap()),
                ..Default::default()
            },
            None,
        )
        .unwrap();
    let repeated = store
        .confirm_pending(&id, confirm("140.01"), None)
        .unwrap();
    assert!(repeated.replayed);
    assert_eq!(repeated.transaction.unwrap().amount.to_string(), "140.99");
    store.void(&initial.id, false, None).unwrap();
    assert!(
        store
            .confirm_pending(&id, confirm("140.01"), None)
            .unwrap()
            .transaction
            .unwrap()
            .voided
    );
    let replay = store
        .confirm_pending(&id, confirm("140.01"), Some("confirm"))
        .unwrap();
    assert_eq!(
        replay.transaction.as_ref().unwrap().amount.to_string(),
        "140.01"
    );
    assert!(!replay.transaction.unwrap().voided);
    assert_eq!(
        store
            .add_pending(input("USD", "20"), Some("create"))
            .unwrap()
            .pending
            .status
        .as_str(),
        "pending"
    );
    assert_eq!(store.pending_history(&id).unwrap().len(), 2);
    assert_eq!(
        store
            .void(&initial.id, false, Some("create"))
            .unwrap_err()
            .code,
        "IDEMPOTENCY_CONFLICT"
    );
}

#[test]
fn equivalent_currency_amount_spellings_replay_same_request() {
    let mut store = Store::new();
    for (currency, first, second, key, canonical) in [
        ("USD", "20", "00020.00", "usd", "20.00"),
        ("JPY", "10000", "00010000", "jpy", "10000"),
    ] {
        let original = store
            .add_pending(input(currency, first), Some(key))
            .unwrap();
        let repeated = store
            .add_pending(input(currency, second), Some(key))
            .unwrap();
        assert!(repeated.replayed);
        assert_eq!(original.pending.id, repeated.pending.id);
        assert_eq!(repeated.pending.amount, canonical);
    }
    assert_eq!(
        store
            .list_pending(&pending_filters("2026-10-01"))
            .unwrap()
            .total,
        2
    );
}

#[test]
fn reminders_filters_cancellation_and_pagination() {
    let mut store = Store::new();
    let mut original = input("USD", "20");
    original.date = "2026-09-01".into();
    let id = store.add_pending(original, None).unwrap().pending.id;
    let mut filters = pending_filters("2026-09-03");
    filters.due_only = true;
    assert_eq!(store.list_pending(&filters).unwrap().total, 0);
    filters.as_of = "2026-09-04".into();
    assert_eq!(store.list_pending(&filters).unwrap().total, 1);
    store
        .snooze_pending(&id, "2026-09-06", Some("snooze"))
        .unwrap();
    assert!(
        store
            .snooze_pending(&id, "2026-09-06", Some("snooze"))
            .unwrap()
            .replayed
    );
    assert!(store.snooze_pending(&id, "2026-09-05", None).is_err());
    assert_eq!(store.list_pending(&filters).unwrap().total, 0);
    filters.as_of = "2026-09-06".into();
    assert_eq!(store.list_pending(&filters).unwrap().total, 1);
    let other = store
        .add_pending(input("JPY", "1000"), None)
        .unwrap()
        .pending
        .id;
    filters.due_only = false;
    filters.filters.limit = 1;
    let page = store.list_pending(&filters).unwrap();
    assert_eq!(page.total, 2);
    assert_eq!(page.items[0].id, id);
    filters.filters.offset = 1;
    assert_eq!(
        store.list_pending(&filters).unwrap().items[0].id,
        other
    );
    filters.filters.offset = 0;
    filters.currency = Some("JPY".into());
    assert_eq!(store.list_pending(&filters).unwrap().total, 1);
    filters.filters.keyword = Some("missing".into());
    assert_eq!(store.list_pending(&filters).unwrap().total, 0);
    store.cancel_pending(&id, Some("cancel")).unwrap();
    assert!(
        store
            .cancel_pending(&id, Some("cancel"))
            .unwrap()
            .replayed
    );
    assert!(store.cancel_pending(&id, None).unwrap().replayed);
    assert_eq!(
        store
            .confirm_pending(&id, confirm("140"), None)
            .unwrap_err()
            .code,
        "PENDING_CANCELLED"
    );
    assert_eq!(
        store
            .snooze_pending(&id, "2026-09-10", None)
            .unwrap_err()
            .code,
        "PENDING_CANCELLED"
    );
    assert_eq!(store.pending_history(&id).unwrap().len(), 3);
    let mut all = pending_filters("2026-10-10");
    all.status = Some("all".into());
    assert_eq!(store.list_pending(&all).unwrap().total, 2);
    all.due_only = true;
    assert_eq!(store.list_pending(&all).unwrap().total, 1);
}

#[test]
fn totals_of_purchases_are_exact_by_currency_and_follow_the_filters() {
    let mut store = Store::new();
    for (currency, amount) in [
        ("JPY", "92233720368547758"),
        ("JPY", "92233720368547758"),
        ("USD", "92233720368547758.07"),
        ("USD", "92233720368547758.07"),
    ] {
        store.add_pending(input(currency, amount), None).unwrap();
    }
    let summary = store.summary(&Filters::default()).unwrap();
    assert_eq!(summary.pending_count, 4);
    assert_eq!(summary.pending_by_currency[0].currency, "JPY");
    assert_eq!(summary.pending_by_currency[0].amount, "184467440737095516");
    assert_eq!(summary.pending_by_currency[1].amount, "184467440737095516.14");
    assert_eq!(summary.pending_by_currency[1].count, 2);
    assert_eq!(summary.expense, "0.00");
    for filters in [
        Filters {
            month: Some("2026-10".into()),
            ..Default::default()
        },
        Filters {
            from: Some("2026-09-30".into()),
            ..Default::default()
        },
        Filters {
            to: Some("2026-09-28".into()),
            ..Default::default()
        },
        Filters {
            kind: Some(Kind::Income),
            ..Default::default()
        },
        Filters {
            kind: Some(Kind::Refund),
            ..Default::default()
        },
        Filters {
            category: Some("交通".into()),
            ..Default::default()
        },
        Filters {
            keyword: Some("missing".into()),
            ..Default::default()
        },
    ] {
        assert_eq!(store.summary(&filters).unwrap().pending_count, 0);
    }
    assert_eq!(
        store
            .summary(&Filters {
                limit: 1,
                offset: 100,
                keyword: Some("海淘".into()),
                ..Default::default()
            })
            .unwrap()
            .pending_count,
        4
    );
}

#[test]
fn invalid_purchases_and_confirmations_are_refused() {
    let mut store = Store::new();
    for date in ["2026-02-30", "0000-01-01", "2026-9-1", "9999-12-30"] {
        let mut data = input("USD", "20");
        data.date = date.into();
        assert!(store.add_pending(data, None).is_err());
    }
    let mut data = input("USD", "20");
    data.category = Some("工资".into());
    assert!(store.add_pending(data, None).is_err());
    let id = store
        .add_pending(input("USD", "20"), None)
        .unwrap()
        .pending
        .id;
    assert!(store
        .confirm_pending(
            &id,
            ConfirmPendingExpense {
                amount: Money::from_minor(0),
                posted_date: None
            },
            None
        )
        .is_err());
    assert!(store
        .confirm_pending(
            &id,
            ConfirmPendingExpense {
                amount: "1".parse().unwrap(),
                posted_date: Some("2026-09-28".into())
            },
            None
        )
        .is_err());
    assert!(store.transactions.is_empty());
    assert!(store
        .confirm_pending(&id, confirm("140"), None)
        .unwrap()
        .transaction
        .is_some());
}
