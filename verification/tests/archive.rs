use claw_expense::archive::{
    check_archive, check_backup, check_input, check_integrity, check_ledger, check_migrations, check_open,
    check_output, check_references, export_cell, export_row, export_head, export_tables, inspect_backup,
    publish_error, AppliedMigration, BackupFacts, BackupQuestion, Cell, KnownMigration, APPLICATION_ID, MAX_INPUT,
};
use claw_expense::paths::{database_suffixes, ensure_unused_database_path, Presence, Probe};

fn known() -> Vec<KnownMigration> {
    [(1, [1, 2]), (2, [3, 4]), (3, [5, 6])]
        .into_iter()
        .map(|(version, checksum)| KnownMigration {
            version,
            checksum: checksum.to_vec(),
        })
        .collect()
}

fn applied(count: usize) -> Vec<AppliedMigration> {
    known()
        .into_iter()
        .take(count)
        .map(|migration| AppliedMigration {
            version: migration.version,
            success: true,
            checksum: migration.checksum,
        })
        .collect()
}

#[test]
fn a_backup_has_been_through_some_known_migrations_from_the_first_onward() {
    for count in 1..=3 {
        assert!(check_migrations(&applied(count), &known()).is_ok());
    }
    let none = check_migrations(&applied(0), &known()).unwrap_err();
    assert_eq!(none.code, "UNSUPPORTED_BACKUP");
    assert_eq!(none.message, "备份迁移记录与当前程序不兼容");
    let mut newer = applied(3);
    newer.push(AppliedMigration {
        version: 4,
        success: true,
        checksum: vec![7],
    });
    assert_eq!(
        check_migrations(&newer, &known()).unwrap_err().message,
        "备份迁移记录与当前程序不兼容"
    );
}

#[test]
fn a_backup_with_a_gap_a_failure_or_a_changed_migration_is_refused() {
    let mut gap = applied(3);
    gap.remove(1);
    let mut failed = applied(3);
    failed[2].success = false;
    let mut changed = applied(3);
    changed[0].checksum = vec![1, 3];
    let mut shorter = applied(3);
    shorter[0].checksum = vec![1];
    for backup in [gap, failed, changed, shorter] {
        let error = check_migrations(&backup, &known()).unwrap_err();
        assert_eq!(error.code, "UNSUPPORTED_BACKUP");
        assert_eq!(error.message, "备份包含未完成或校验不匹配的迁移");
    }
}

#[test]
fn ledgers_and_backups_are_told_by_their_application_id() {
    assert_eq!(APPLICATION_ID, 1_129_071_960);
    assert!(check_ledger(APPLICATION_ID).is_ok());
    assert!(check_backup(APPLICATION_ID).is_ok());
    assert_eq!(check_ledger(0).unwrap_err().code, "NOT_INITIALIZED");
    let error = check_backup(0).unwrap_err();
    assert_eq!(error.code, "INVALID_INPUT");
    assert_eq!(error.message, "该文件不是 claw-expense 账本备份");
    assert!(check_open(true, false).is_ok());
    assert!(check_open(false, true).is_ok());
    let missing = check_open(false, false).unwrap_err();
    assert_eq!(missing.code, "NOT_INITIALIZED");
    assert_eq!(missing.message, "账本不存在，请先执行 init");
}

#[test]
fn a_backup_is_whole() {
    assert!(check_integrity(&vec!["ok".to_owned()]).is_ok());
    for answer in [
        vec![],
        vec!["row 1 missing".to_owned()],
        vec!["ok".to_owned(), "ok".to_owned()],
    ] {
        let error = check_integrity(&answer).unwrap_err();
        assert_eq!(error.code, "INVALID_BACKUP");
        assert_eq!(error.message, "备份完整性检查失败");
    }
    assert!(check_references(0).is_ok());
    assert_eq!(
        check_references(1).unwrap_err().message,
        "备份关联关系检查失败"
    );
}

#[test]
fn the_first_check_of_a_backup_that_fails_decides() {
    let ok = vec!["ok".to_owned()];
    let damaged = vec!["row 1 missing".to_owned()];
    let told = |id: i64, integrity: &Vec<String>, broken: usize, count: usize| {
        check_archive(id, integrity, broken, &applied(count), &known()).map_err(|e| e.message)
    };
    assert_eq!(told(APPLICATION_ID, &ok, 0, 3), Ok(()));
    assert_eq!(
        told(0, &damaged, 1, 0).unwrap_err(),
        "该文件不是 claw-expense 账本备份"
    );
    assert_eq!(told(APPLICATION_ID, &damaged, 1, 0).unwrap_err(), "备份完整性检查失败");
    assert_eq!(told(APPLICATION_ID, &ok, 1, 0).unwrap_err(), "备份关联关系检查失败");
    assert_eq!(
        told(APPLICATION_ID, &ok, 0, 0).unwrap_err(),
        "备份迁移记录与当前程序不兼容"
    );
}

#[test]
fn a_backup_is_asked_about_step_by_step() {
    let mut facts = BackupFacts {
        application_id: None,
        integrity: None,
        broken: None,
        applied: None,
    };
    assert_eq!(
        inspect_backup(&facts, &known()).unwrap(),
        BackupQuestion::ApplicationId
    );
    facts.application_id = Some(0);
    assert_eq!(inspect_backup(&facts, &known()).unwrap_err().code, "INVALID_INPUT");
    facts.application_id = Some(APPLICATION_ID);
    assert_eq!(
        inspect_backup(&facts, &known()).unwrap(),
        BackupQuestion::Integrity
    );
    facts.integrity = Some(vec![]);
    assert_eq!(inspect_backup(&facts, &known()).unwrap_err().code, "INVALID_BACKUP");
    facts.integrity = Some(vec!["ok".to_owned()]);
    assert_eq!(
        inspect_backup(&facts, &known()).unwrap(),
        BackupQuestion::References
    );
    facts.broken = Some(2);
    assert_eq!(inspect_backup(&facts, &known()).unwrap_err().code, "INVALID_BACKUP");
    facts.broken = Some(0);
    assert_eq!(
        inspect_backup(&facts, &known()).unwrap(),
        BackupQuestion::Migrations
    );
    facts.applied = Some(applied(0));
    assert_eq!(inspect_backup(&facts, &known()).unwrap_err().code, "UNSUPPORTED_BACKUP");
    facts.applied = Some(applied(2));
    assert_eq!(inspect_backup(&facts, &known()).unwrap(), BackupQuestion::Nothing);
}

#[test]
fn an_export_says_how_its_integers_are_read() {
    let head = export_head();
    assert_eq!(head.format, "claw-expense-export");
    assert_eq!(head.version, 2);
    assert_eq!(head.base_currency, "CNY");
    assert_eq!(head.integer_encoding, "decimal_string");
    let units: Vec<(&str, Option<&str>, Option<&str>, &str, u32)> = head
        .amount_units
        .iter()
        .map(|unit| {
            (
                unit.field.as_str(),
                unit.currency.as_deref(),
                unit.currency_column.as_deref(),
                unit.unit.as_str(),
                unit.exponent,
            )
        })
        .collect();
    assert_eq!(
        units,
        [
            ("transactions.amount_minor", Some("CNY"), None, "fen", 2),
            (
                "pending_expenses.amount_minor",
                None,
                Some("currency"),
                "currency_hundredth",
                2
            ),
            ("pending_expenses.confirmed_amount_minor", Some("CNY"), None, "fen", 2),
        ]
    );
}

#[test]
fn nothing_is_overwritten_and_input_is_bounded() {
    assert!(check_output(true, false).is_ok());
    assert_eq!(check_output(true, true).unwrap_err().code, "FILE_EXISTS");
    assert_eq!(check_output(false, false).unwrap_err().code, "INVALID_INPUT");
    assert_eq!(publish_error(true, "taken").code, "FILE_EXISTS");
    let error = publish_error(false, "disk full");
    assert_eq!(error.code, "IO_ERROR");
    assert_eq!(error.message, "disk full");
    assert!(check_input(MAX_INPUT).is_ok());
    assert_eq!(
        check_input(MAX_INPUT + 1).unwrap_err().message,
        "JSON 输入不能超过 1 MiB"
    );
}

#[test]
fn exported_values_keep_every_digit() {
    let row = vec![
        Cell::Null,
        Cell::Integer { value: i64::MIN },
        Cell::Integer { value: 9_007_199_254_740_993 },
        Cell::Text { value: "午餐\n".to_owned() },
    ];
    assert_eq!(
        export_row(&row).unwrap(),
        vec![
            None,
            Some("-9223372036854775808".to_owned()),
            Some("9007199254740993".to_owned()),
            Some("午餐\n".to_owned()),
        ]
    );
    assert_eq!(export_cell(&Cell::Integer { value: 0 }).unwrap().as_deref(), Some("0"));
    let error = export_row(&vec![
        Cell::Null,
        Cell::Other { storage_type: "BLOB".to_owned() },
        Cell::Other { storage_type: "REAL".to_owned() },
    ])
    .unwrap_err();
    assert_eq!(error.code, "INVALID_STORAGE_TYPE");
    assert_eq!(error.message, "不支持导出的数据类型: BLOB");
}

#[test]
fn an_export_holds_all_six_tables() {
    let tables: Vec<(String, String)> = export_tables()
        .into_iter()
        .map(|table| (table.name, table.ordered_by))
        .collect();
    let expected = [
        ("categories", "name"),
        ("transactions", "id"),
        ("audit_log", "id"),
        ("idempotency", "request_id"),
        ("pending_expenses", "id"),
        ("pending_audit_log", "id"),
    ];
    assert_eq!(
        tables,
        expected.map(|(name, column)| (name.to_owned(), column.to_owned()))
    );
}

#[test]
fn a_new_database_has_its_files_to_itself() {
    assert_eq!(database_suffixes(), ["", "-wal", "-shm", "-journal"]);
    let probe = |path: &str, presence: Presence| Probe {
        path: path.to_owned(),
        presence,
    };
    assert!(ensure_unused_database_path(&vec![]).is_ok());
    assert!(ensure_unused_database_path(&vec![
        probe("l", Presence::Missing),
        probe("l-wal", Presence::Missing),
    ])
    .is_ok());
    let error = ensure_unused_database_path(&vec![
        probe("l", Presence::Missing),
        probe("l-wal", Presence::Present),
        probe("l-shm", Presence::Unknown { message: "denied".to_owned() }),
    ])
    .unwrap_err();
    assert_eq!(error.code, "FILE_EXISTS");
    assert_eq!(error.message, "目标或数据库日志已存在，不会覆盖：l-wal");
    let error = ensure_unused_database_path(&vec![probe(
        "l",
        Presence::Unknown { message: "denied".to_owned() },
    )])
    .unwrap_err();
    assert_eq!((error.code, error.message.as_str()), ("IO_ERROR", "denied"));
}
