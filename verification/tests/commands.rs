//! Command lines, carried out on a ledger in memory and answered as JSON.
use std::cell::RefCell;
use std::collections::BTreeMap;

use chrono::{DateTime, Local, Utc};
use claw_expense::command::{
    execute, CategoryCommand, Command, EntryArgs, FilterArgs, PendingCommand, PendingListArgs,
};
use claw_expense::error::{AppError, Result};
use claw_expense::models::{
    Category, Kind, NewPendingExpense, NewTransaction, PendingExpenseRecord, TransactionRecord,
    UpdateTransaction,
};
use claw_expense::money::Money;
use claw_expense::report::{human_output, Output};
use claw_expense::store::Store;
use serde_json::Value;

const EXPENSE_CATEGORY: &str = "集成测试支出";
const INCOME_CATEGORY: &str = "集成测试收入";
const CATEGORY: &str = "外币测试购物";

struct Ledger {
    store: RefCell<Store>,
}

impl Ledger {
    fn new() -> Self {
        let ledger = Ledger {
            store: RefCell::new(Store::new()),
        };
        ledger.ok(&["category", "add", CATEGORY, "--kind", "expense"]);
        ledger
    }

    fn initialized() -> Self {
        let ledger = Ledger {
            store: RefCell::new(Store::new()),
        };
        ledger.ok(&["category", "add", EXPENSE_CATEGORY, "--kind", "expense"]);
        ledger.ok(&["category", "add", INCOME_CATEGORY, "--kind", "income"]);
        ledger
    }

    fn run(&self, words: &[&str], input: Option<&str>) -> Result<Output> {
        let command = read_command(words, input)?;
        execute(&mut self.store.borrow_mut(), command, &today())
    }

    fn ok(&self, words: &[&str]) -> Value {
        success(self.run(words, None))
    }

    fn error(&self, words: &[&str]) -> Value {
        failure(self.run(words, None))
    }

    fn human(&self, words: &[&str]) -> String {
        human_output(&self.run(words, None).expect("an answer")).expect("a layout")
    }

    fn add(&self, kind: &str, amount: &str, date: &str) -> Value {
        let category = if kind == "income" {
            INCOME_CATEGORY
        } else {
            EXPENSE_CATEGORY
        };
        self.ok(&[
            "add",
            kind,
            "--amount",
            amount,
            "--date",
            date,
            "--category",
            category,
        ])
    }

    fn purchase(&self, currency: &str, amount: &str, date: &str) -> Value {
        self.ok(&[
            "pending",
            "add",
            "--currency",
            currency,
            "--amount",
            amount,
            "--date",
            date,
            "--category",
            CATEGORY,
        ])
    }
}

fn today() -> String {
    Local::now().date_naive().to_string()
}

struct Words<'a> {
    plain: Vec<&'a str>,
    named: BTreeMap<&'a str, &'a str>,
}

impl<'a> Words<'a> {
    fn read(words: &[&'a str]) -> Self {
        let mut plain = Vec::new();
        let mut named = BTreeMap::new();
        let mut rest = words.iter();
        while let Some(word) = rest.next() {
            match *word {
                "--include-voided" | "--cascade-refunds" | "--clear-occurred-at" => {
                    named.insert(*word, "");
                }
                option if option.starts_with("--") => {
                    named.insert(option, *rest.next().expect("a value"));
                }
                _ => plain.push(*word),
            }
        }
        Words { plain, named }
    }

    fn text(&self, name: &str) -> Option<String> {
        self.named.get(name).map(|value| value.to_string())
    }

    fn flag(&self, name: &str) -> bool {
        self.named.contains_key(name)
    }

    fn number(&self, name: &str, default: i64) -> i64 {
        self.named
            .get(name)
            .map_or(default, |value| value.parse().expect("a number"))
    }

    /// A page of no entries is refused on the command line; elsewhere it stands for the default.
    fn limit(&self) -> Result<i64> {
        match self.number("--limit", 50) {
            0 => Err(AppError::new("CLI_ARGUMENT_ERROR", "limit")),
            limit => Ok(limit),
        }
    }

    fn id(&self, place: usize) -> String {
        self.plain[place].to_string()
    }

    fn entry(&self) -> Result<EntryArgs> {
        Ok(EntryArgs {
            amount: Money::parse(self.named["--amount"])?,
            date: self.text("--date"),
            occurred_at: self.text("--occurred-at"),
            note: self.text("--note"),
            channel: self.text("--channel"),
            request_id: self.text("--request-id"),
        })
    }

    fn filter(&self) -> FilterArgs {
        FilterArgs {
            month: self.text("--month"),
            from: self.text("--from"),
            to: self.text("--to"),
            category: self.text("--category"),
            search: self.text("--search"),
        }
    }

    fn pending_list(&self) -> Result<PendingListArgs> {
        Ok(PendingListArgs {
            filter: self.filter(),
            currency: self.text("--currency"),
            as_of: self.text("--as-of"),
            limit: self.limit()?,
            offset: self.number("--offset", 0),
        })
    }
}

fn read_command(words: &[&str], input: Option<&str>) -> Result<Command> {
    let words = Words::read(words);
    let request_id = words.text("--request-id");
    Ok(match words.plain[0] {
        "add" => Command::Add {
            kind: Kind::parse(words.plain[1])?,
            category: words.text("--category"),
            entry: words.entry()?,
        },
        "refund" => Command::Refund {
            id: words.id(1),
            entry: words.entry()?,
        },
        "record" => Command::Record {
            input: read_transaction(input.expect("a record"))?,
            request_id,
        },
        "list" => Command::List {
            filter: words.filter(),
            kind: words.text("--kind"),
            include_voided: words.flag("--include-voided"),
            limit: words.limit()?,
            offset: words.number("--offset", 0),
        },
        "show" => Command::Show { id: words.id(1) },
        "summary" => Command::Summary {
            filter: words.filter(),
        },
        "edit" => Command::Edit {
            id: words.id(1),
            patch: UpdateTransaction {
                amount: match words.named.get("--amount") {
                    Some(amount) => Some(Money::parse(amount)?),
                    None => None,
                },
                date: words.text("--date"),
                occurred_at: words.text("--occurred-at"),
                clear_occurred_at: words.flag("--clear-occurred-at"),
                category: words.text("--category"),
                note: words.text("--note"),
                channel: words.text("--channel"),
            },
            request_id,
        },
        "void" => Command::Void {
            id: words.id(1),
            cascade_refunds: words.flag("--cascade-refunds"),
            request_id,
        },
        "history" => Command::History { id: words.id(1) },
        "category" => Command::Category {
            command: match words.plain[1] {
                "list" => CategoryCommand::List,
                _ => CategoryCommand::Add {
                    name: words.id(2),
                    kind: Kind::parse(words.named["--kind"])?,
                },
            },
        },
        "pending" => Command::Pending {
            command: read_pending(&words, input)?,
        },
        other => panic!("no command {other}"),
    })
}

fn read_pending(words: &Words, input: Option<&str>) -> Result<PendingCommand> {
    let request_id = words.text("--request-id");
    Ok(match words.plain[1] {
        "add" => PendingCommand::Add {
            currency: words.text("--currency").expect("a currency"),
            amount: words.text("--amount").expect("an amount"),
            date: words.text("--date"),
            occurred_at: words.text("--occurred-at"),
            category: words.text("--category"),
            merchant: words.text("--merchant"),
            note: words.text("--note"),
            channel: words.text("--channel"),
            request_id,
        },
        "record" => PendingCommand::Record {
            input: read_purchase(input.expect("a record"))?,
            request_id,
        },
        "list" => PendingCommand::List {
            query: words.pending_list()?,
            status: words.text("--status"),
        },
        "due" => PendingCommand::Due {
            query: words.pending_list()?,
        },
        "show" => PendingCommand::Show { id: words.id(2) },
        "confirm" => PendingCommand::Confirm {
            id: words.id(2),
            amount: Money::parse(words.named["--amount"])?,
            posted_date: words.text("--posted-date"),
            request_id,
        },
        "cancel" => PendingCommand::Cancel {
            id: words.id(2),
            request_id,
        },
        "snooze" => PendingCommand::Snooze {
            id: words.id(2),
            until: words.text("--until").expect("a day"),
            request_id,
        },
        "history" => PendingCommand::History { id: words.id(2) },
        other => panic!("no command pending {other}"),
    })
}

fn field(record: &Value, name: &str) -> Result<Option<String>> {
    match record.get(name) {
        None | Some(Value::Null) => Ok(None),
        Some(Value::String(value)) => Ok(Some(value.clone())),
        Some(_) => Err(AppError::invalid("not a string")),
    }
}

fn required(record: &Value, name: &str) -> Result<String> {
    field(record, name)?.ok_or_else(|| AppError::invalid("missing field"))
}

/// Reads a JSON object that has no other fields than the ones given, as the program does.
fn read_record(input: &str, fields: &[&str]) -> Result<Value> {
    let record: Value =
        serde_json::from_str(input).map_err(|error| AppError::invalid(&error.to_string()))?;
    let object = record
        .as_object()
        .ok_or_else(|| AppError::invalid("not an object"))?;
    if object.keys().any(|key| !fields.contains(&key.as_str())) {
        return Err(AppError::invalid("unknown field"));
    }
    Ok(record)
}

fn read_transaction(input: &str) -> Result<NewTransaction> {
    let record = read_record(
        input,
        &[
            "kind",
            "amount",
            "date",
            "occurred_at",
            "category",
            "note",
            "channel",
            "original_id",
        ],
    )?;
    Ok(NewTransaction {
        kind: Kind::parse(&required(&record, "kind")?)?,
        amount: Money::parse(&required(&record, "amount")?)?,
        date: required(&record, "date")?,
        occurred_at: field(&record, "occurred_at")?,
        category: field(&record, "category")?,
        note: field(&record, "note")?,
        channel: field(&record, "channel")?,
        original_id: field(&record, "original_id")?,
    })
}

fn read_purchase(input: &str) -> Result<NewPendingExpense> {
    let record = read_record(
        input,
        &[
            "currency",
            "amount",
            "date",
            "occurred_at",
            "category",
            "merchant",
            "note",
            "channel",
        ],
    )?;
    Ok(NewPendingExpense {
        currency: required(&record, "currency")?,
        amount: required(&record, "amount")?,
        date: required(&record, "date")?,
        occurred_at: field(&record, "occurred_at")?,
        category: field(&record, "category")?,
        merchant: field(&record, "merchant")?,
        note: field(&record, "note")?,
        channel: field(&record, "channel")?,
    })
}

fn object(fields: Vec<(&str, Value)>) -> Value {
    let mut map = serde_json::Map::new();
    for (name, value) in fields {
        map.insert(name.to_string(), value);
    }
    Value::Object(map)
}

fn transaction(record: &TransactionRecord) -> Value {
    object(vec![
        ("id", record.id.clone().into()),
        ("kind", record.kind.as_str().into()),
        ("amount", record.amount.to_string().into()),
        ("currency", record.currency.clone().into()),
        ("category", record.category.clone().into()),
        ("date", record.date.clone().into()),
        ("occurred_at", record.occurred_at.clone().into()),
        ("note", record.note.clone().into()),
        ("channel", record.channel.clone().into()),
        ("original_id", record.original_id.clone().into()),
        ("voided", record.voided.into()),
        ("created_at", record.created_at.clone().into()),
        ("updated_at", record.updated_at.clone().into()),
    ])
}

fn purchase(record: &PendingExpenseRecord) -> Value {
    object(vec![
        ("id", record.id.clone().into()),
        ("currency", record.currency.clone().into()),
        ("amount", record.amount.clone().into()),
        ("date", record.date.clone().into()),
        ("occurred_at", record.occurred_at.clone().into()),
        ("category", record.category.clone().into()),
        ("merchant", record.merchant.clone().into()),
        ("note", record.note.clone().into()),
        ("channel", record.channel.clone().into()),
        ("status", record.status.as_str().into()),
        ("remind_on", record.remind_on.clone().into()),
        ("transaction_id", record.transaction_id.clone().into()),
        ("confirmed_at", record.confirmed_at.clone().into()),
        ("posted_date", record.posted_date.clone().into()),
        ("created_at", record.created_at.clone().into()),
        ("updated_at", record.updated_at.clone().into()),
    ])
}

fn category(record: &Category) -> Value {
    object(vec![
        ("name", record.name.clone().into()),
        ("kind", record.kind.as_str().into()),
    ])
}

fn optional<T>(value: &Option<T>, convert: fn(&T) -> Value) -> Value {
    value.as_ref().map_or(Value::Null, convert)
}

fn answer(output: &Output) -> Value {
    match output {
        Output::Write { result } => object(vec![
            ("transaction", transaction(&result.transaction)),
            ("replayed", result.replayed.into()),
            ("affected_ids", result.affected_ids.clone().into()),
        ]),
        Output::Detail { detail } => object(vec![
            ("transaction", transaction(&detail.transaction)),
            ("foreign_expense", optional(&detail.foreign_expense, purchase)),
            ("refunds", detail.refunds.iter().map(transaction).collect::<Vec<_>>().into()),
            ("refund_total", detail.refund_total.clone().into()),
            ("net_expense", detail.net_expense.clone().into()),
            ("refund_status", detail.refund_status.clone().into()),
            ("excess_refund", detail.excess_refund.clone().into()),
        ]),
        Output::List { page } => object(vec![
            ("items", page.items.iter().map(transaction).collect::<Vec<_>>().into()),
            ("total", page.total.into()),
            ("limit", page.limit.into()),
            ("offset", page.offset.into()),
        ]),
        Output::Summary { summary } => object(vec![
            ("currency", summary.currency.clone().into()),
            ("count", summary.count.into()),
            ("income", summary.income.clone().into()),
            ("expense", summary.expense.clone().into()),
            ("refund", summary.refund.clone().into()),
            ("net_expense", summary.net_expense.clone().into()),
            ("balance", summary.balance.clone().into()),
            (
                "by_category",
                summary
                    .by_category
                    .iter()
                    .map(|item| {
                        object(vec![
                            ("category", item.category.clone().into()),
                            ("income", item.income.clone().into()),
                            ("expense", item.expense.clone().into()),
                            ("refund", item.refund.clone().into()),
                            ("net_expense", item.net_expense.clone().into()),
                        ])
                    })
                    .collect::<Vec<_>>()
                    .into(),
            ),
            ("pending_count", summary.pending_count.into()),
            (
                "pending_by_currency",
                summary
                    .pending_by_currency
                    .iter()
                    .map(|item| {
                        object(vec![
                            ("currency", item.currency.clone().into()),
                            ("amount", item.amount.clone().into()),
                            ("count", item.count.into()),
                        ])
                    })
                    .collect::<Vec<_>>()
                    .into(),
            ),
        ]),
        Output::PendingWrite { result } => object(vec![
            ("pending", purchase(&result.pending)),
            ("transaction", optional(&result.transaction, transaction)),
            ("replayed", result.replayed.into()),
        ]),
        Output::PendingDetail { detail } => object(vec![
            ("pending", purchase(&detail.pending)),
            ("transaction", optional(&detail.transaction, transaction)),
        ]),
        Output::PendingList { page } => object(vec![
            ("items", page.items.iter().map(purchase).collect::<Vec<_>>().into()),
            ("total", page.total.into()),
            ("limit", page.limit.into()),
            ("offset", page.offset.into()),
            ("as_of", page.as_of.clone().into()),
        ]),
        Output::Categories { categories } => {
            categories.iter().map(category).collect::<Vec<_>>().into()
        }
        Output::Category { category: created } => category(created),
        Output::History { records } => records
            .iter()
            .map(|record| {
                object(vec![
                    ("id", record.id.into()),
                    ("transaction_id", record.transaction_id.clone().into()),
                    ("action", record.action.clone().into()),
                    ("before", optional(&record.before, transaction)),
                    ("after", transaction(&record.after)),
                    ("created_at", record.created_at.clone().into()),
                ])
            })
            .collect::<Vec<_>>()
            .into(),
        Output::PendingHistory { records } => records
            .iter()
            .map(|record| {
                object(vec![
                    ("id", record.id.into()),
                    ("pending_id", record.pending_id.clone().into()),
                    ("action", record.action.clone().into()),
                    ("before", optional(&record.before, purchase)),
                    ("after", purchase(&record.after)),
                    ("created_at", record.created_at.clone().into()),
                ])
            })
            .collect::<Vec<_>>()
            .into(),
    }
}

fn success(result: Result<Output>) -> Value {
    answer(&result.expect("a success"))
}

fn failure(result: Result<Output>) -> Value {
    let error = result.expect_err("a failure");
    assert!(!error.code.is_empty());
    assert!(!error.message.is_empty());
    object(vec![
        ("code", error.code.into()),
        ("message", error.message.into()),
    ])
}

fn id(result: &Value) -> &str {
    transaction_id(result)
}

fn transaction_id(value: &Value) -> &str {
    value["transaction"]["id"].as_str().expect("transaction ID")
}

fn pending_id(value: &Value) -> &str {
    value["pending"]["id"].as_str().expect("pending ID")
}

fn currency_total<'a>(summary: &'a Value, currency: &str) -> &'a Value {
    summary["pending_by_currency"]
        .as_array()
        .expect("pending currency totals")
        .iter()
        .find(|item| item["currency"] == currency)
        .unwrap_or_else(|| panic!("missing {currency}: {summary}"))
}

fn assert_occurrence(record: &Value, date: &str, occurred_at: Option<&str>) {
    assert_eq!(record["date"], date, "{record}");
    assert_eq!(
        record.get("occurred_at"),
        Some(&Value::from(occurred_at)),
        "{record}"
    );
}

fn assert_totals(
    summary: &Value,
    income: &str,
    expense: &str,
    refund: &str,
    net: &str,
    balance: &str,
) {
    assert_eq!(summary["income"], income, "{summary}");
    assert_eq!(summary["expense"], expense, "{summary}");
    assert_eq!(summary["refund"], refund, "{summary}");
    assert_eq!(summary["net_expense"], net, "{summary}");
    assert_eq!(summary["balance"], balance, "{summary}");
}

#[test]
fn decimal_arithmetic_and_reopening_are_exact() {
    let ledger = Ledger::initialized();
    let first = ledger.add("expense", "0.10", "2026-09-01");
    let second = ledger.add("expense", "0.20", "2026-09-02");
    ledger.add("income", "0.40", "2026-09-03");
    assert_eq!(first["transaction"]["amount"], "0.10");
    assert_eq!(second["transaction"]["amount"], "0.20");
    assert_eq!(first["replayed"], false);

    assert_eq!(
        ledger.ok(&["show", id(&first)])["transaction"],
        first["transaction"]
    );
    assert_totals(
        &ledger.ok(&["summary", "--month", "2026-09"]),
        "0.40",
        "0.30",
        "0.00",
        "0.30",
        "0.10",
    );
    assert_eq!(ledger.ok(&["list"])["total"], 3);
}

#[test]
fn invalid_amounts_and_unrecognized_record_fields_do_not_write_transactions() {
    let ledger = Ledger::initialized();
    for amount in [
        "1.001",
        "0.100",
        "92233720368547758.08",
        "1e2",
        "NaN",
        "0.00",
    ] {
        ledger.error(&["add", "expense", "--amount", amount, "--date", "2026-09-01"]);
    }

    let numeric_amount = object(vec![
        ("kind", "expense".into()),
        ("amount", 0.1.into()),
        ("date", "2026-09-01".into()),
        ("category", EXPENSE_CATEGORY.into()),
    ]);
    failure(ledger.run(&["record"], Some(&numeric_amount.to_string())));
    let unknown_field = object(vec![
        ("kind", "expense".into()),
        ("amount", "0.10".into()),
        ("date", "2026-09-01".into()),
        ("category", EXPENSE_CATEGORY.into()),
        ("unexpected", true.into()),
    ]);
    failure(ledger.run(&["record"], Some(&unknown_field.to_string())));
    failure(ledger.run(&["record"], Some("{broken json")));
    assert_eq!(ledger.ok(&["list"])["total"], 0);
}

#[test]
fn stdin_record_preserves_strings_and_rejects_invalid_dates() {
    let ledger = Ledger::initialized();
    let record = object(vec![
        ("kind", "expense".into()),
        ("amount", "98.01".into()),
        ("date", "2026-08-31".into()),
        ("category", EXPENSE_CATEGORY.into()),
        ("note", "午餐\n含饮料".into()),
        ("channel", "微信支付".into()),
    ]);
    let first = success(ledger.run(
        &["record", "--request-id", "stdin-request"],
        Some(&record.to_string()),
    ));
    assert_eq!(first["transaction"]["amount"], "98.01");
    assert_eq!(first["transaction"]["note"], "午餐\n含饮料");
    assert_eq!(first["transaction"]["channel"], "微信支付");
    let replay = success(ledger.run(
        &["record", "--request-id", "stdin-request"],
        Some(&record.to_string()),
    ));
    assert_eq!(replay["replayed"], true);
    assert_eq!(id(&first), id(&replay));
    ledger.error(&["add", "expense", "--amount", "1.00", "--date", "2026-02-30"]);
    ledger.error(&["list", "--month", "2026-13"]);
    assert_eq!(ledger.ok(&["list"])["total"], 1);
}

#[test]
fn excess_refunds_are_legal_and_follow_their_own_month() {
    let ledger = Ledger::initialized();
    let expense = ledger.add("expense", "98.00", "2026-08-31");
    let refund = ledger.ok(&[
        "refund",
        id(&expense),
        "--amount",
        "100.00",
        "--date",
        "2026-09-01",
        "--note",
        "商家多退两元",
        "--channel",
        "支付宝",
    ]);
    assert_eq!(refund["transaction"]["kind"], "refund");
    assert_eq!(refund["transaction"]["original_id"], id(&expense));
    assert_eq!(refund["transaction"]["category"], EXPENSE_CATEGORY);
    let detail = ledger.ok(&["show", id(&expense)]);
    assert_eq!(detail["refund_total"], "100.00");
    assert_eq!(detail["net_expense"], "-2.00");
    assert_eq!(detail["excess_refund"], "2.00");
    assert!(
        detail["refund_status"]
            .as_str()
            .is_some_and(|status| !status.is_empty())
    );
    assert_totals(
        &ledger.ok(&["summary", "--month", "2026-08"]),
        "0.00",
        "98.00",
        "0.00",
        "98.00",
        "-98.00",
    );
    assert_totals(
        &ledger.ok(&["summary", "--month", "2026-09"]),
        "0.00",
        "0.00",
        "100.00",
        "-100.00",
        "100.00",
    );
    assert_totals(
        &ledger.ok(&["summary"]),
        "0.00",
        "98.00",
        "100.00",
        "-2.00",
        "2.00",
    );
}

#[test]
fn multiple_refunds_keep_independent_payment_channels() {
    let ledger = Ledger::initialized();
    let expense = ledger.ok(&[
        "add",
        "expense",
        "--amount",
        "120",
        "--date",
        "2026-09-01",
        "--category",
        EXPENSE_CATEGORY,
        "--channel",
        "微信支付",
    ]);
    let first = ledger.ok(&[
        "refund",
        id(&expense),
        "--amount",
        "30.10",
        "--date",
        "2026-09-02",
        "--channel",
        "银行卡",
    ]);
    let second = ledger.ok(&[
        "refund",
        id(&expense),
        "--amount",
        "40.20",
        "--date",
        "2026-09-03",
        "--channel",
        "现金",
    ]);
    assert_eq!(first["transaction"]["channel"], "银行卡");
    assert_eq!(second["transaction"]["channel"], "现金");
    let detail = ledger.ok(&["show", id(&expense)]);
    assert_eq!(detail["transaction"]["channel"], "微信支付");
    assert_eq!(detail["refund_total"], "70.30");
    assert_eq!(detail["net_expense"], "49.70");
    assert_eq!(detail["excess_refund"], "0.00");
    assert_eq!(detail["refunds"].as_array().unwrap().len(), 2);
}

#[test]
fn repeated_requests_replay_and_changed_payloads_conflict() {
    let ledger = Ledger::initialized();
    let args = [
        "add",
        "expense",
        "--amount",
        "98.01",
        "--date",
        "2026-09-01",
        "--category",
        EXPENSE_CATEGORY,
        "--request-id",
        "purchase-request",
    ];
    let first = ledger.ok(&args);
    let replay = ledger.ok(&args);
    assert_eq!(first["replayed"], false);
    assert_eq!(replay["replayed"], true);
    assert_eq!(first["transaction"], replay["transaction"]);
    let conflict = ledger.error(&[
        "add",
        "expense",
        "--amount",
        "98.02",
        "--date",
        "2026-09-01",
        "--category",
        EXPENSE_CATEGORY,
        "--request-id",
        "purchase-request",
    ]);
    assert_eq!(conflict["code"], "IDEMPOTENCY_CONFLICT");

    let refund_args = [
        "refund",
        id(&first),
        "--amount",
        "8.01",
        "--date",
        "2026-09-02",
        "--request-id",
        "refund-request",
    ];
    let refund = ledger.ok(&refund_args);
    let refund_replay = ledger.ok(&refund_args);
    assert_eq!(refund_replay["replayed"], true);
    assert_eq!(id(&refund), id(&refund_replay));
    assert_eq!(ledger.ok(&["list"])["total"], 2);
    assert_eq!(ledger.ok(&["show", id(&first)])["refund_total"], "8.01");
    assert_eq!(
        ledger
            .ok(&["history", id(&first)])
            .as_array()
            .unwrap()
            .len(),
        1
    );
}

#[test]
fn editing_original_to_less_than_refunds_is_legal_and_audited() {
    let ledger = Ledger::initialized();
    let expense = ledger.add("expense", "100.00", "2026-09-01");
    ledger.ok(&[
        "refund",
        id(&expense),
        "--amount",
        "80.00",
        "--date",
        "2026-09-02",
    ]);
    let args = [
        "edit",
        id(&expense),
        "--amount",
        "50.00",
        "--note",
        "更正原始金额",
        "--request-id",
        "edit-request",
    ];
    let updated = ledger.ok(&args);
    assert_eq!(updated["transaction"]["amount"], "50.00");
    assert_eq!(ledger.ok(&args)["replayed"], true);
    let detail = ledger.ok(&["show", id(&expense)]);
    assert_eq!(detail["net_expense"], "-30.00");
    assert_eq!(detail["excess_refund"], "30.00");
    let history = ledger.ok(&["history", id(&expense)]);
    let edits: Vec<_> = history
        .as_array()
        .unwrap()
        .iter()
        .filter(|event| !event["before"].is_null())
        .collect();
    assert_eq!(
        edits.len(),
        1,
        "replay must not add another audit event: {history}"
    );
    assert_eq!(edits[0]["before"]["amount"], "100.00");
    assert_eq!(edits[0]["after"]["amount"], "50.00");
    assert_totals(
        &ledger.ok(&["summary"]),
        "0.00",
        "50.00",
        "80.00",
        "-30.00",
        "30.00",
    );
}

#[test]
fn void_requires_explicit_refund_cascade_and_audits_every_affected_record() {
    let ledger = Ledger::initialized();
    let expense = ledger.add("expense", "100.00", "2026-09-01");
    let first_refund = ledger.ok(&[
        "refund",
        id(&expense),
        "--amount",
        "20.00",
        "--date",
        "2026-09-02",
    ]);
    let second_refund = ledger.ok(&[
        "refund",
        id(&expense),
        "--amount",
        "30.00",
        "--date",
        "2026-09-03",
    ]);
    ledger.error(&["void", id(&expense)]);
    assert_eq!(ledger.ok(&["list"])["total"], 3);
    assert_totals(
        &ledger.ok(&["summary"]),
        "0.00",
        "100.00",
        "50.00",
        "50.00",
        "-50.00",
    );

    let args = [
        "void",
        id(&expense),
        "--cascade-refunds",
        "--request-id",
        "void-request",
    ];
    ledger.ok(&args);
    assert_eq!(ledger.ok(&args)["replayed"], true);
    assert_eq!(ledger.ok(&["list"])["total"], 0);
    assert_eq!(ledger.ok(&["list", "--include-voided"])["total"], 3);
    assert_totals(
        &ledger.ok(&["summary"]),
        "0.00",
        "0.00",
        "0.00",
        "0.00",
        "0.00",
    );
    for transaction in [&expense, &first_refund, &second_refund] {
        assert_eq!(
            ledger.ok(&["show", id(transaction)])["transaction"]["voided"],
            true
        );
        let history = ledger.ok(&["history", id(transaction)]);
        let events = history.as_array().unwrap();
        assert_eq!(
            events.len(),
            2,
            "expected creation and void events: {history}"
        );
        assert!(events.iter().any(|event| event["before"]["voided"] == false && event["after"]["voided"] == true));
    }
    ledger.error(&[
        "refund",
        id(&expense),
        "--amount",
        "1.00",
        "--date",
        "2026-09-04",
    ]);
}

#[test]
fn filters_and_pagination_return_matching_records_and_full_matching_count() {
    let ledger = Ledger::initialized();
    let first = ledger.add("expense", "10", "2026-09-01");
    let second = ledger.add("expense", "20", "2026-09-02");
    ledger.ok(&["edit", id(&first), "--note", "早餐咖啡"]);
    ledger.ok(&["edit", id(&second), "--note", "午餐咖啡"]);
    ledger.add("income", "100", "2026-09-03");
    ledger.add("expense", "30", "2026-08-31");
    let matching = ledger.ok(&[
        "list",
        "--month",
        "2026-09",
        "--kind",
        "expense",
        "--category",
        EXPENSE_CATEGORY,
        "--search",
        "咖啡",
    ]);
    assert_eq!(matching["total"], 2);
    let first_page = ledger.ok(&[
        "list", "--month", "2026-09", "--kind", "expense", "--search", "咖啡", "--limit", "1",
        "--offset", "0",
    ]);
    let second_page = ledger.ok(&[
        "list", "--month", "2026-09", "--kind", "expense", "--search", "咖啡", "--limit", "1",
        "--offset", "1",
    ]);
    assert_eq!(first_page["total"], 2);
    assert_eq!(second_page["total"], 2);
    assert_eq!(first_page["items"].as_array().unwrap().len(), 1);
    assert_eq!(second_page["items"].as_array().unwrap().len(), 1);
    assert_ne!(first_page["items"][0]["id"], second_page["items"][0]["id"]);
    assert_eq!(ledger.ok(&["list", "--search", "没有这个备注"])["total"], 0);
    let categories = ledger.ok(&["category", "list"]);
    assert!(
        categories
            .as_array()
            .unwrap()
            .iter()
            .any(|category| category["name"] == EXPENSE_CATEGORY && category["kind"] == "expense")
    );
    assert!(
        categories
            .as_array()
            .unwrap()
            .iter()
            .any(|category| category["name"] == INCOME_CATEGORY && category["kind"] == "income")
    );
}

#[test]
fn maximum_individual_amounts_and_totals_larger_than_i64_are_exact() {
    let ledger = Ledger::initialized();
    let maximum = "92233720368547758.07";
    let first = ledger.add("expense", maximum, "2026-09-01");
    let second = ledger.add("expense", maximum, "2026-09-02");
    assert_eq!(first["transaction"]["amount"], maximum);
    assert_eq!(second["transaction"]["amount"], maximum);
    assert_totals(
        &ledger.ok(&["summary"]),
        "0.00",
        "184467440737095516.14",
        "0.00",
        "184467440737095516.14",
        "-184467440737095516.14",
    );
}

#[test]
fn pagination_rejects_zero_or_excessive_limits_and_negative_offsets() {
    let ledger = Ledger::initialized();
    for args in [
        &["list", "--limit", "0"][..],
        &["list", "--limit", "1001"][..],
        &["list", "--offset", "-1"][..],
    ] {
        ledger.error(args);
    }
    assert_eq!(
        ledger.ok(&["list", "--limit", "1", "--offset", "0"])["total"],
        0
    );
    assert_eq!(ledger.ok(&["list", "--limit", "1000"])["total"], 0);
}

#[test]
fn date_only_and_default_today_records_do_not_invent_a_time() {
    let ledger = Ledger::new();
    let expense = ledger.ok(&["add", "expense", "--amount", "98", "--date", "2026-09-24"]);
    assert_occurrence(&expense["transaction"], "2026-09-24", None);
    let refund = ledger.ok(&[
        "refund",
        transaction_id(&expense),
        "--amount",
        "100",
        "--date",
        "2026-09-25",
    ]);
    assert_occurrence(&refund["transaction"], "2026-09-25", None);
    let pending = ledger.ok(&[
        "pending",
        "add",
        "--currency",
        "JPY",
        "--amount",
        "10000",
        "--date",
        "2026-09-24",
    ]);
    assert_occurrence(&pending["pending"], "2026-09-24", None);
    let confirmed = ledger.ok(&[
        "pending",
        "confirm",
        pending_id(&pending),
        "--amount",
        "510.38",
    ]);
    assert_occurrence(&confirmed["transaction"], "2026-09-24", None);

    let before = Local::now().date_naive().to_string();
    let today = ledger.ok(&["add", "income", "--amount", "1"]);
    let waiting = ledger.ok(&["pending", "add", "--currency", "USD", "--amount", "20"]);
    let after = Local::now().date_naive().to_string();
    for record in [&today["transaction"], &waiting["pending"]] {
        assert_eq!(record.get("occurred_at"), Some(&Value::Null));
        assert!(record["date"] == before || record["date"] == after);
    }
}

#[test]
fn minute_precision_and_nanoseconds_are_preserved_without_using_creation_time() {
    let ledger = Ledger::new();
    let start = Utc::now();
    let minute = "2020-02-29T09:30+08:00";
    let expense = ledger.ok(&["add", "expense", "--amount", "98", "--occurred-at", minute]);
    assert_occurrence(&expense["transaction"], "2020-02-29", Some(minute));
    let detailed = ledger.ok(&["show", transaction_id(&expense)]);
    assert_occurrence(&detailed["transaction"], "2020-02-29", Some(minute));
    let fractional = "2020-02-29T23:59:59.123456789-05:00";
    let income = ledger.ok(&[
        "add",
        "income",
        "--amount",
        "100",
        "--date",
        "2020-02-29",
        "--occurred-at",
        fractional,
    ]);
    assert_occurrence(&income["transaction"], "2020-02-29", Some(fractional));
    let end = Utc::now();
    for record in [&expense["transaction"], &income["transaction"]] {
        let created = DateTime::parse_from_rfc3339(record["created_at"].as_str().unwrap())
            .unwrap()
            .with_timezone(&Utc);
        assert!(
            created >= start && created <= end,
            "created_at must be system creation time: {record}"
        );
        assert_ne!(record["created_at"], record["occurred_at"]);
    }
}

#[test]
fn local_offset_date_controls_month_totals_pending_reminders_and_refunds() {
    let ledger = Ledger::new();
    // This instant is still September in UTC, but the purchase happened on October 1 locally.
    let purchase_time = "2026-10-01T00:15+14:00";
    let pending = ledger.ok(&[
        "pending",
        "add",
        "--currency",
        "TWD",
        "--amount",
        "1234.56",
        "--occurred-at",
        purchase_time,
    ]);
    assert_occurrence(&pending["pending"], "2026-10-01", Some(purchase_time));
    assert_eq!(pending["pending"]["remind_on"], "2026-10-04");
    assert_eq!(
        ledger.ok(&["summary", "--month", "2026-09"])["pending_count"],
        0
    );
    assert_eq!(
        ledger.ok(&["summary", "--month", "2026-10"])["pending_count"],
        1
    );
    assert_eq!(
        ledger.ok(&["pending", "due", "--as-of", "2026-10-03"])["total"],
        0
    );
    assert_eq!(
        ledger.ok(&["pending", "due", "--as-of", "2026-10-04"])["total"],
        1
    );

    let start = Utc::now();
    let confirmed = ledger.ok(&[
        "pending",
        "confirm",
        pending_id(&pending),
        "--amount",
        "278.91",
        "--posted-date",
        "2026-10-05",
    ]);
    let end = Utc::now();
    assert_occurrence(&confirmed["pending"], "2026-10-01", Some(purchase_time));
    assert_occurrence(&confirmed["transaction"], "2026-10-01", Some(purchase_time));
    let confirmed_at =
        DateTime::parse_from_rfc3339(confirmed["pending"]["confirmed_at"].as_str().unwrap())
            .unwrap()
            .with_timezone(&Utc);
    assert!(confirmed_at >= start && confirmed_at <= end);
    assert_eq!(confirmed["pending"]["posted_date"], "2026-10-05");
    let detail = ledger.ok(&["show", transaction_id(&confirmed)]);
    assert_occurrence(
        &detail["foreign_expense"],
        "2026-10-01",
        Some(purchase_time),
    );

    // Refund date follows its own original offset, not the expense month or UTC month.
    let refund_time = "2026-10-31T23:45:12-07:00";
    let refund = ledger.ok(&[
        "refund",
        transaction_id(&confirmed),
        "--amount",
        "280",
        "--occurred-at",
        refund_time,
    ]);
    assert_occurrence(&refund["transaction"], "2026-10-31", Some(refund_time));
    let october = ledger.ok(&["summary", "--month", "2026-10"]);
    assert_eq!(october["expense"], "278.91");
    assert_eq!(october["refund"], "280.00");
    assert_eq!(october["net_expense"], "-1.09");
    assert_eq!(october["pending_count"], 0);
    assert_eq!(
        ledger.ok(&["summary", "--month", "2026-11"])["refund"],
        "0.00"
    );
}

#[test]
fn malformed_or_ambiguous_timestamps_and_mismatched_dates_never_write() {
    let ledger = Ledger::new();
    for time in [
        "2026-09-24T09:30",
        "2026-09-24T09:30:00",
        "2026-09-24T09:30-00:00",
        "2026-02-30T09:30+08:00",
        "2026-09-24T24:00+08:00",
        "2026-09-24T23:59:60+08:00",
        "2026-09-24T09:30:00.1234567890+08:00",
        "2026-09-24T09:30+24:00",
    ] {
        ledger.error(&["add", "expense", "--amount", "1", "--occurred-at", time]);
        ledger.error(&[
            "pending",
            "add",
            "--currency",
            "USD",
            "--amount",
            "1",
            "--occurred-at",
            time,
        ]);
    }
    for args in [
        &[
            "add",
            "income",
            "--amount",
            "1",
            "--date",
            "2026-09-30",
            "--occurred-at",
            "2026-10-01T00:15+14:00",
        ][..],
        &[
            "pending",
            "add",
            "--currency",
            "JPY",
            "--amount",
            "1",
            "--date",
            "2026-09-30",
            "--occurred-at",
            "2026-10-01T00:15+14:00",
        ][..],
    ] {
        ledger.error(args);
    }
    assert_eq!(ledger.ok(&["list"])["total"], 0);
    assert_eq!(ledger.ok(&["pending", "list"])["total"], 0);
}

#[test]
fn json_input_keeps_date_required_accepts_null_and_checks_occurrence_type_and_date() {
    let ledger = Ledger::new();
    let time = "2026-09-24T09:30+08:00";
    let expense = object(vec![
        ("kind", "expense".into()),
        ("amount", "98".into()),
        ("date", "2026-09-24".into()),
        ("occurred_at", time.into()),
    ]);
    let added = success(ledger.run(&["record"], Some(&expense.to_string())));
    assert_occurrence(&added["transaction"], "2026-09-24", Some(time));
    let pending = object(vec![
        ("currency", "JPY".into()),
        ("amount", "10000".into()),
        ("date", "2026-09-24".into()),
        ("occurred_at", time.into()),
    ]);
    let waiting = success(ledger.run(
        &["pending", "record"],
        Some(&pending.to_string()),
    ));
    assert_occurrence(&waiting["pending"], "2026-09-24", Some(time));
    for (command, template, field) in [
        (&["record"][..], expense, "transaction"),
        (&["pending", "record"][..], pending, "pending"),
    ] {
        let mut no_date = template.clone();
        no_date.as_object_mut().unwrap().remove("date");
        failure(ledger.run(command, Some(&no_date.to_string())));
        let mut wrong_date = template.clone();
        wrong_date["date"] = Value::from("2026-09-23");
        failure(ledger.run(command, Some(&wrong_date.to_string())));
        for invalid in [Value::from(1234), Value::from(true), Value::from("2026-09-24T09:30")] {
            let mut input = template.clone();
            input["occurred_at"] = invalid;
            failure(ledger.run(command, Some(&input.to_string())));
        }
        let mut with_null = template;
        with_null["occurred_at"] = Value::Null;
        let accepted = success(ledger.run(command, Some(&with_null.to_string())));
        assert_occurrence(&accepted[field], "2026-09-24", None);
    }
    assert_eq!(ledger.ok(&["list"])["total"], 2);
    assert_eq!(ledger.ok(&["pending", "list"])["total"], 2);
}

#[test]
fn editing_time_derives_date_and_clearing_time_is_explicit_and_audited() {
    let ledger = Ledger::new();
    let added = ledger.ok(&["add", "expense", "--amount", "98", "--date", "2026-09-24"]);
    let id = transaction_id(&added);
    let time = "2026-10-01T00:15+14:00";
    let args = [
        "edit",
        id,
        "--occurred-at",
        time,
        "--request-id",
        "set-occurrence",
    ];
    let updated = ledger.ok(&args);
    assert_occurrence(&updated["transaction"], "2026-10-01", Some(time));
    assert_eq!(ledger.ok(&args)["replayed"], true);
    ledger.error(&["edit", id, "--date", "2026-10-02"]);
    ledger.error(&["edit", id, "--occurred-at", time, "--clear-occurred-at"]);
    ledger.error(&["edit", id, "--date", "2026-09-30", "--occurred-at", time]);
    assert_occurrence(
        &ledger.ok(&["show", id])["transaction"],
        "2026-10-01",
        Some(time),
    );
    let history = ledger.ok(&["history", id]);
    let events = history.as_array().unwrap();
    assert_eq!(
        events.len(),
        2,
        "errors and request replay must not create audit events"
    );
    assert_occurrence(&events[1]["before"], "2026-09-24", None);
    assert_occurrence(&events[1]["after"], "2026-10-01", Some(time));

    let clear_args = [
        "edit",
        id,
        "--clear-occurred-at",
        "--request-id",
        "clear-occurrence",
    ];
    let cleared = ledger.ok(&clear_args);
    assert_occurrence(&cleared["transaction"], "2026-10-01", None);
    assert_eq!(ledger.ok(&clear_args)["replayed"], true);
    let reset = ledger.ok(&["edit", id, "--occurred-at", "2026-10-03T18:01:02+08:00"]);
    assert_occurrence(
        &reset["transaction"],
        "2026-10-03",
        Some("2026-10-03T18:01:02+08:00"),
    );
    let clear_with_date = ledger.ok(&["edit", id, "--clear-occurred-at", "--date", "2026-10-02"]);
    assert_occurrence(&clear_with_date["transaction"], "2026-10-02", None);
    assert_eq!(
        ledger.ok(&["summary", "--month", "2026-09"])["expense"],
        "0.00"
    );
    assert_eq!(
        ledger.ok(&["summary", "--month", "2026-10"])["expense"],
        "98.00"
    );
}

#[test]
fn timestamps_participate_in_idempotency_and_equivalent_utc_spellings_replay() {
    let ledger = Ledger::new();
    for (prefix, response_key, request_id) in [
        (
            &["add", "expense", "--amount", "98"][..],
            "transaction",
            "utc-expense",
        ),
        (
            &["pending", "add", "--currency", "USD", "--amount", "20"][..],
            "pending",
            "utc-pending",
        ),
    ] {
        let mut args = prefix.to_vec();
        args.extend([
            "--occurred-at",
            "2026-09-24T09:30Z",
            "--request-id",
            request_id,
        ]);
        let added = ledger.ok(&args);
        let mut equivalent = prefix.to_vec();
        equivalent.extend([
            "--occurred-at",
            "2026-09-24T09:30+00:00",
            "--request-id",
            request_id,
        ]);
        let replayed = ledger.ok(&equivalent);
        assert_eq!(replayed["replayed"], true);
        assert_eq!(replayed[response_key], added[response_key]);
        let mut different = prefix.to_vec();
        different.extend([
            "--occurred-at",
            "2026-09-24T09:31Z",
            "--request-id",
            request_id,
        ]);
        assert_eq!(ledger.error(&different)["code"], "IDEMPOTENCY_CONFLICT");
    }
    assert_eq!(ledger.ok(&["list"])["total"], 1);
    assert_eq!(ledger.ok(&["pending", "list"])["total"], 1);
}

#[test]
fn human_lists_and_details_display_recorded_offset_and_precision() {
    let ledger = Ledger::new();
    let time = "2026-09-24T09:30+08:00";
    let expense = ledger.ok(&["add", "expense", "--amount", "98", "--occurred-at", time]);
    let pending = ledger.ok(&[
        "pending",
        "add",
        "--currency",
        "JPY",
        "--amount",
        "10000",
        "--occurred-at",
        time,
    ]);
    for args in [
        &["list"][..],
        &["show", transaction_id(&expense)][..],
        &["pending", "list"][..],
        &["pending", "show", pending_id(&pending)][..],
    ] {
        let rendered = ledger.human(args);
        assert!(
            rendered.contains(time),
            "{args:?} omitted the recorded offset/precision: {rendered}"
        );
        assert!(
            !rendered.contains("2026-09-24T09:30:00+08:00"),
            "must not invent seconds: {rendered}"
        );
    }
}

#[test]
fn twd_records_use_exact_two_decimal_amounts_and_confirm_without_duplicate_cny() {
    let ledger = Ledger::new();
    let mut record = object(vec![
        ("currency", "TWD".into()),
        ("amount", "1234.56".into()),
        ("date", "2026-09-24".into()),
        ("category", CATEGORY.into()),
        ("merchant", "台湾海淘".into()),
        ("channel", "信用卡".into()),
    ]);
    let args = ["pending", "record", "--request-id", "twd-purchase"];
    let added = success(ledger.run(&args, Some(&record.to_string())));
    assert_eq!(added["pending"]["currency"], "TWD");
    assert_eq!(added["pending"]["amount"], "1234.56");
    assert!(added["transaction"].is_null());
    record["amount"] = Value::from("001234.56");
    let replayed = success(ledger.run(&args, Some(&record.to_string())));
    assert_eq!(replayed["replayed"], true);
    assert_eq!(replayed["pending"], added["pending"]);

    let cent = ledger.purchase("TWD", "0.01", "2026-09-24");
    assert_eq!(cent["pending"]["amount"], "0.01");
    ledger.purchase("USD", "20", "2026-09-24");
    ledger.error(&[
        "pending",
        "add",
        "--currency",
        "TWD",
        "--amount",
        "1.001",
        "--date",
        "2026-09-24",
    ]);
    record["amount"] = Value::from(1234.56);
    failure(ledger.run(
        &["pending", "record"],
        Some(&record.to_string()),
    ));
    let before = ledger.ok(&["summary"]);
    assert_eq!(before["pending_count"], 3);
    assert_eq!(before["expense"], "0.00");
    assert_eq!(currency_total(&before, "TWD")["amount"], "1234.57");
    assert_eq!(currency_total(&before, "TWD")["count"], 2);
    let filtered = ledger.ok(&["pending", "list", "--currency", "TWD"]);
    assert_eq!(filtered["total"], 2);
    assert!(
        filtered["items"]
            .as_array()
            .unwrap()
            .iter()
            .all(|item| item["currency"] == "TWD")
    );

    let confirm_args = [
        "pending",
        "confirm",
        pending_id(&added),
        "--amount",
        "278.91",
        "--posted-date",
        "2026-09-28",
        "--request-id",
        "twd-confirm",
    ];
    let confirmed = ledger.ok(&confirm_args);
    let confirm_replay = ledger.ok(&confirm_args);
    assert_eq!(confirm_replay["replayed"], true);
    assert_eq!(confirm_replay["transaction"], confirmed["transaction"]);
    assert_eq!(confirmed["transaction"]["currency"], "CNY");
    assert_eq!(confirmed["transaction"]["amount"], "278.91");
    assert_eq!(confirmed["pending"]["currency"], "TWD");
    assert_eq!(confirmed["pending"]["amount"], "1234.56");
    let detail = ledger.ok(&["show", transaction_id(&confirmed)]);
    assert_eq!(detail["foreign_expense"]["currency"], "TWD");
    assert_eq!(detail["foreign_expense"]["amount"], "1234.56");
    assert_eq!(ledger.ok(&["list"])["total"], 1);
    let after = ledger.ok(&["summary"]);
    assert_eq!(after["count"], 1);
    assert_eq!(after["expense"], "278.91");
    assert_eq!(currency_total(&after, "TWD")["amount"], "0.01");
    assert_eq!(currency_total(&after, "TWD")["count"], 1);
}

#[test]
fn pending_purchase_has_no_cny_amount_until_confirmed_and_retains_both_dates() {
    let ledger = Ledger::new();
    let added = ledger.ok(&[
        "pending",
        "add",
        "--currency",
        "JPY",
        "--amount",
        "10000",
        "--date",
        "2026-09-30",
        "--category",
        CATEGORY,
        "--merchant",
        "乐天",
        "--channel",
        "招行信用卡",
        "--note",
        "海淘",
    ]);
    assert_eq!(added["pending"]["currency"], "JPY");
    assert_eq!(added["pending"]["amount"], "10000");
    assert_eq!(added["pending"]["date"], "2026-09-30");
    assert_eq!(added["pending"]["status"], "pending");
    assert_eq!(added["pending"]["remind_on"], "2026-10-03");
    assert!(added["pending"]["transaction_id"].is_null());
    assert!(added["pending"]["confirmed_at"].is_null());
    assert!(added["pending"]["posted_date"].is_null());
    assert!(added["transaction"].is_null());
    assert_eq!(ledger.ok(&["list"])["total"], 0);
    let before = ledger.ok(&["summary", "--month", "2026-09"]);
    assert_eq!(before["expense"], "0.00");
    assert_eq!(before["pending_count"], 1);
    assert_eq!(currency_total(&before, "JPY")["amount"], "10000");

    let confirmed = ledger.ok(&[
        "pending",
        "confirm",
        pending_id(&added),
        "--amount",
        "510.38",
        "--posted-date",
        "2026-10-03",
    ]);
    assert_eq!(confirmed["pending"]["status"], "confirmed");
    assert_eq!(confirmed["pending"]["posted_date"], "2026-10-03");
    assert!(confirmed["pending"]["confirmed_at"].is_string());
    assert_eq!(confirmed["pending"]["amount"], "10000");
    assert_eq!(confirmed["pending"]["merchant"], "乐天");
    assert_eq!(confirmed["transaction"]["kind"], "expense");
    assert_eq!(confirmed["transaction"]["amount"], "510.38");
    assert_eq!(confirmed["transaction"]["date"], "2026-09-30");
    assert_eq!(confirmed["transaction"]["category"], CATEGORY);
    assert_eq!(confirmed["transaction"]["channel"], "招行信用卡");
    assert_eq!(
        confirmed["pending"]["transaction_id"],
        transaction_id(&confirmed)
    );
    assert_eq!(
        ledger.ok(&["pending", "show", pending_id(&added)])["pending"],
        confirmed["pending"]
    );
    let detail = ledger.ok(&["show", transaction_id(&confirmed)]);
    assert_eq!(detail["foreign_expense"]["currency"], "JPY");
    assert_eq!(detail["foreign_expense"]["amount"], "10000");
    let september = ledger.ok(&["summary", "--month", "2026-09"]);
    assert_eq!(september["expense"], "510.38");
    assert_eq!(september["pending_count"], 0);
    assert_eq!(
        ledger.ok(&["summary", "--month", "2026-10"])["expense"],
        "0.00"
    );
}

#[test]
fn pending_summary_is_per_currency_exact_and_excludes_closed_or_out_of_range_items() {
    let ledger = Ledger::new();
    ledger.purchase("USD", "0.10", "2026-09-01");
    ledger.purchase("USD", "0.20", "2026-09-02");
    ledger.purchase("JPY", "10000", "2026-09-03");
    ledger.purchase("USD", "999", "2026-08-31");
    let cancelled = ledger.purchase("JPY", "200", "2026-09-04");
    ledger.ok(&["pending", "cancel", pending_id(&cancelled)]);
    let confirmed = ledger.purchase("USD", "20", "2026-09-05");
    ledger.ok(&[
        "pending",
        "confirm",
        pending_id(&confirmed),
        "--amount",
        "145.00",
    ]);

    let summary = ledger.ok(&["summary", "--month", "2026-09"]);
    assert_eq!(summary["pending_count"], 3);
    assert_eq!(summary["expense"], "145.00");
    assert_eq!(summary["pending_by_currency"].as_array().unwrap().len(), 2);
    assert_eq!(currency_total(&summary, "USD")["amount"], "0.30");
    assert_eq!(currency_total(&summary, "USD")["count"], 2);
    assert_eq!(currency_total(&summary, "JPY")["amount"], "10000");
    assert_eq!(currency_total(&summary, "JPY")["count"], 1);
    let filtered = ledger.ok(&["summary", "--from", "2026-09-02", "--to", "2026-09-03"]);
    assert_eq!(filtered["pending_count"], 2);
    assert_eq!(filtered["expense"], "0.00");
    assert_eq!(currency_total(&filtered, "USD")["amount"], "0.20");
}

#[test]
fn foreign_amount_precision_and_i128_totals_are_exact() {
    let ledger = Ledger::new();
    for (currency, amount) in [
        ("JPY", "1.1"),
        ("USD", "1.001"),
        ("USD", "1e3"),
        ("USD", "NaN"),
        ("USD", "0"),
        ("USD", "92233720368547758.08"),
        ("JPY", "92233720368547759"),
        ("KRW", "92233720368547759"),
        ("ZZZ", "1"),
    ] {
        ledger.error(&[
            "pending",
            "add",
            "--currency",
            currency,
            "--amount",
            amount,
            "--date",
            "2026-09-01",
        ]);
    }
    assert_eq!(ledger.ok(&["pending", "list"])["total"], 0);
    let maximum_usd = "92233720368547758.07";
    let maximum_integer_currency = "92233720368547758";
    for _ in 0..2 {
        assert_eq!(
            ledger.purchase("USD", maximum_usd, "2026-09-01")["pending"]["amount"],
            maximum_usd
        );
        for currency in ["JPY", "KRW"] {
            assert_eq!(
                ledger.purchase(currency, maximum_integer_currency, "2026-09-01")["pending"]["amount"],
                maximum_integer_currency
            );
        }
    }
    let summary = ledger.ok(&["summary"]);
    assert_eq!(
        currency_total(&summary, "USD")["amount"],
        "184467440737095516.14"
    );
    for currency in ["JPY", "KRW"] {
        assert_eq!(
            currency_total(&summary, currency)["amount"],
            "184467440737095516"
        );
    }
    assert_eq!(summary["expense"], "0.00");
}

#[test]
fn confirm_is_atomic_idempotent_and_terminal_and_cny_validation_is_strict() {
    let ledger = Ledger::new();
    let added = ledger.purchase("USD", "20.00", "2026-09-24");
    for amount in ["0", "1.001", "92233720368547758.08"] {
        ledger.error(&["pending", "confirm", pending_id(&added), "--amount", amount]);
    }
    ledger.error(&[
        "pending",
        "confirm",
        pending_id(&added),
        "--amount",
        "145",
        "--posted-date",
        "2026-09-23",
    ]);
    assert_eq!(
        ledger.ok(&["pending", "show", pending_id(&added)])["pending"]["status"],
        "pending"
    );
    assert_eq!(ledger.ok(&["list"])["total"], 0);
    let args = [
        "pending",
        "confirm",
        pending_id(&added),
        "--amount",
        "145.27",
        "--request-id",
        "confirm-codex",
    ];
    let confirmed = ledger.ok(&args);
    let replayed = ledger.ok(&args);
    assert_eq!(replayed["replayed"], true);
    assert_eq!(replayed["pending"], confirmed["pending"]);
    assert_eq!(replayed["transaction"], confirmed["transaction"]);
    ledger.error(&[
        "pending",
        "confirm",
        pending_id(&added),
        "--amount",
        "145.28",
        "--request-id",
        "confirm-codex",
    ]);
    let repeated = ledger.ok(&[
        "pending",
        "confirm",
        pending_id(&added),
        "--amount",
        "145.27",
    ]);
    assert_eq!(repeated["transaction"], confirmed["transaction"]);
    let error = ledger.error(&[
        "pending",
        "confirm",
        pending_id(&added),
        "--amount",
        "145.28",
    ]);
    assert_eq!(error["code"], "ALREADY_CONFIRMED");
    ledger.error(&["pending", "cancel", pending_id(&added)]);
    ledger.error(&[
        "pending",
        "snooze",
        pending_id(&added),
        "--until",
        "2026-10-01",
    ]);
    assert_eq!(ledger.ok(&["list"])["total"], 1);
    assert_eq!(ledger.ok(&["summary"])["expense"], "145.27");
    let history = ledger.ok(&["pending", "history", pending_id(&added)]);
    assert_eq!(
        history.as_array().unwrap().len(),
        2,
        "failed writes/replays must not add audit events"
    );
    assert_eq!(
        ledger
            .ok(&["history", transaction_id(&confirmed)])
            .as_array()
            .unwrap()
            .len(),
        1
    );
}

#[test]
fn due_dates_snoozing_and_cancellation_keep_the_reminder_queue_accurate() {
    let ledger = Ledger::new();
    let added = ledger.purchase("USD", "20", "2026-09-24");
    assert_eq!(
        ledger.ok(&["pending", "due", "--as-of", "2026-09-26"])["total"],
        0
    );
    assert_eq!(
        ledger.ok(&["pending", "due", "--as-of", "2026-09-27"])["total"],
        1
    );
    let args = [
        "pending",
        "snooze",
        pending_id(&added),
        "--until",
        "2026-10-01",
        "--request-id",
        "snooze-codex",
    ];
    let snoozed = ledger.ok(&args);
    assert_eq!(snoozed["pending"]["remind_on"], "2026-10-01");
    assert_eq!(ledger.ok(&args)["replayed"], true);
    assert_eq!(
        ledger.ok(&["pending", "due", "--as-of", "2026-09-30"])["total"],
        0
    );
    let due = ledger.ok(&["pending", "due", "--as-of", "2026-10-01"]);
    assert_eq!(due["as_of"], "2026-10-01");
    assert_eq!(due["total"], 1);
    let cancel_args = [
        "pending",
        "cancel",
        pending_id(&added),
        "--request-id",
        "cancel-codex",
    ];
    assert_eq!(ledger.ok(&cancel_args)["pending"]["status"], "cancelled");
    assert_eq!(ledger.ok(&cancel_args)["replayed"], true);
    ledger.error(&["pending", "confirm", pending_id(&added), "--amount", "145"]);
    ledger.error(&[
        "pending",
        "snooze",
        pending_id(&added),
        "--until",
        "2026-10-02",
    ]);
    assert_eq!(
        ledger.ok(&["pending", "due", "--as-of", "2026-12-01"])["total"],
        0
    );
    assert_eq!(
        ledger.ok(&["pending", "list", "--status", "cancelled"])["total"],
        1
    );
    assert_eq!(ledger.ok(&["summary"])["pending_count"], 0);
    assert_eq!(ledger.ok(&["list"])["total"], 0);
    assert_eq!(
        ledger
            .ok(&["pending", "history", pending_id(&added)])
            .as_array()
            .unwrap()
            .len(),
        3
    );
}

#[test]
fn pending_filters_pagination_and_search_are_independent_of_cny_transactions() {
    let ledger = Ledger::new();
    for date in ["2026-09-01", "2026-09-02"] {
        ledger.ok(&[
            "pending",
            "add",
            "--currency",
            "USD",
            "--amount",
            "20",
            "--date",
            date,
            "--category",
            CATEGORY,
            "--merchant",
            "Codex",
        ]);
    }
    ledger.purchase("JPY", "2000", "2026-09-03");
    ledger.purchase("USD", "10", "2026-08-31");
    let closed = ledger.purchase("USD", "3", "2026-09-04");
    ledger.ok(&["pending", "cancel", pending_id(&closed)]);
    let filtered = ledger.ok(&[
        "pending",
        "list",
        "--status",
        "pending",
        "--month",
        "2026-09",
        "--currency",
        "USD",
        "--category",
        CATEGORY,
        "--search",
        "Codex",
    ]);
    assert_eq!(filtered["total"], 2);
    let first = ledger.ok(&[
        "pending", "list", "--month", "2026-09", "--search", "Codex", "--limit", "1", "--offset",
        "0",
    ]);
    let second = ledger.ok(&[
        "pending", "list", "--month", "2026-09", "--search", "Codex", "--limit", "1", "--offset",
        "1",
    ]);
    assert_eq!(first["total"], 2);
    assert_eq!(second["total"], 2);
    assert_eq!(first["items"].as_array().unwrap().len(), 1);
    assert_eq!(second["items"].as_array().unwrap().len(), 1);
    assert_ne!(first["items"][0]["id"], second["items"][0]["id"]);
    assert_eq!(
        ledger.ok(&["pending", "list", "--status", "all"])["total"],
        5
    );
    assert_eq!(
        ledger.ok(&[
            "pending",
            "list",
            "--from",
            "2026-09-02",
            "--to",
            "2026-09-03"
        ])["total"],
        2
    );
    for args in [
        &["pending", "list", "--limit", "0"][..],
        &["pending", "list", "--limit", "1001"][..],
        &["pending", "list", "--offset", "-1"][..],
        &["pending", "list", "--as-of", "2026-02-30"][..],
        &["pending", "list", "--month", "2026-13"][..],
    ] {
        ledger.error(args);
    }
}

#[test]
fn confirmed_foreign_expenses_keep_existing_excess_refund_behavior() {
    let ledger = Ledger::new();
    let added = ledger.purchase("USD", "13", "2026-09-24");
    let confirmed = ledger.ok(&["pending", "confirm", pending_id(&added), "--amount", "98"]);
    ledger.ok(&[
        "refund",
        transaction_id(&confirmed),
        "--amount",
        "100",
        "--date",
        "2026-09-25",
        "--channel",
        "支付宝",
    ]);
    let detail = ledger.ok(&["show", transaction_id(&confirmed)]);
    assert_eq!(detail["net_expense"], "-2.00");
    assert_eq!(detail["excess_refund"], "2.00");
    assert_eq!(detail["foreign_expense"]["amount"], "13.00");
    assert_eq!(detail["foreign_expense"]["currency"], "USD");
    assert_eq!(ledger.ok(&["summary"])["net_expense"], "-2.00");
}

#[test]
fn human_pending_list_identifies_original_currency_without_fake_zero_cny() {
    let ledger = Ledger::new();
    ledger.purchase("JPY", "10000", "2026-09-24");
    let rendered = ledger.human(&["pending", "list", "--as-of", "2026-09-28"]);
    assert!(rendered.contains("JPY"), "{rendered}");
    assert!(rendered.contains("10000"), "{rendered}");
    assert!(
        !rendered.contains("0.00"),
        "unknown CNY must not appear as zero: {rendered}"
    );
}
