//! What a ledger file, a backup and an export have to be like.
use vstd::prelude::*;

use crate::error;
use crate::error::{AppError, ErrorView, Result};
use crate::text;
use crate::text::Text;

verus! {

/// The application id that every ledger file carries.
pub const APPLICATION_ID: i64 = 1129071960;

/// The longest input that is read as one record, in bytes.
pub const MAX_INPUT: u64 = 1048576;

/// What opening a ledger answers before its file is touched: a missing one is only created where
/// that was asked for.
pub open spec fn opened(present: bool, create: bool) -> core::result::Result<(), ErrorView> {
    if present || create {
        Ok(())
    } else {
        Err(ErrorView { code: "NOT_INITIALIZED"@, message: "账本不存在，请先执行 init"@ })
    }
}

/// What opening a ledger answers before its file is touched: a missing one is only created where
/// that was asked for.
pub fn check_open(present: bool, create: bool) -> (result: Result<()>)
    ensures
        error::outcome(result) == opened(present, create),
{
    if !present && !create {
        return Err(AppError::new("NOT_INITIALIZED", "账本不存在，请先执行 init"));
    }
    Ok(())
}

/// What checking the application id of an existing ledger answers.
pub open spec fn checked_ledger(application_id: i64) -> core::result::Result<(), ErrorView> {
    if application_id == APPLICATION_ID {
        Ok(())
    } else {
        Err(
            ErrorView {
                code: "NOT_INITIALIZED"@,
                message: "指定文件不是 claw-expense 账本"@,
            },
        )
    }
}

/// Accepts the application id of an existing ledger.
pub fn check_ledger(application_id: i64) -> (result: Result<()>)
    ensures
        error::outcome(result) == checked_ledger(application_id),
{
    if application_id != APPLICATION_ID {
        return Err(AppError::new("NOT_INITIALIZED", "指定文件不是 claw-expense 账本"));
    }
    Ok(())
}

/// What checking the length of an input answers.
pub open spec fn checked_input(length: u64) -> core::result::Result<(), ErrorView> {
    if length > MAX_INPUT {
        Err(error::invalid_input("JSON 输入不能超过 1 MiB"@))
    } else {
        Ok(())
    }
}

/// Accepts input of at most 1 MiB.
pub fn check_input(length: u64) -> (result: Result<()>)
    ensures
        error::outcome(result) == checked_input(length),
{
    if length > MAX_INPUT {
        return Err(AppError::invalid("JSON 输入不能超过 1 MiB"));
    }
    Ok(())
}

/// What checking a file to write to answers.
pub open spec fn checked_output(is_file: bool, present: bool) -> core::result::Result<
    (),
    ErrorView,
> {
    if !is_file {
        Err(error::invalid_input("输出路径必须是一个文件"@))
    } else if present {
        Err(
            ErrorView {
                code: "FILE_EXISTS"@,
                message: "目标文件已存在；请指定一个新文件，现有文件不会被覆盖"@,
            },
        )
    } else {
        Ok(())
    }
}

/// Accepts a new file to write to: nothing is ever overwritten.
pub fn check_output(is_file: bool, present: bool) -> (result: Result<()>)
    ensures
        error::outcome(result) == checked_output(is_file, present),
{
    if !is_file {
        return Err(AppError::invalid("输出路径必须是一个文件"));
    }
    if present {
        return Err(
            AppError::new("FILE_EXISTS", "目标文件已存在；请指定一个新文件，现有文件不会被覆盖"),
        );
    }
    Ok(())
}

/// The error where a finished file could not be put in its place.
pub fn publish_error(already_exists: bool, message: &str) -> (error: AppError)
    ensures
        error.deep_view() == (ErrorView {
            code: if already_exists {
                "FILE_EXISTS"@
            } else {
                "IO_ERROR"@
            },
            message: message@,
        }),
{
    AppError::new(
        if already_exists {
            "FILE_EXISTS"
        } else {
            "IO_ERROR"
        },
        message,
    )
}

/// A migration that a ledger file has been through.
#[verifier::ext_equal]
#[derive(Debug)]
pub struct AppliedMigration<C = Vec<u8>> {
    pub version: i64,
    pub success: bool,
    pub checksum: C,
}

impl DeepView for AppliedMigration {
    type V = AppliedMigration<Seq<u8>>;

    open spec fn deep_view(&self) -> AppliedMigration<Seq<u8>> {
        AppliedMigration {
            version: self.version,
            success: self.success,
            checksum: self.checksum@,
        }
    }
}

/// A migration that this program knows.
#[verifier::ext_equal]
#[derive(Debug)]
pub struct KnownMigration<C = Vec<u8>> {
    pub version: i64,
    pub checksum: C,
}

impl DeepView for KnownMigration {
    type V = KnownMigration<Seq<u8>>;

    open spec fn deep_view(&self) -> KnownMigration<Seq<u8>> {
        KnownMigration { version: self.version, checksum: self.checksum@ }
    }
}

/// Whether a migration was completed as this program knows it.
pub open spec fn is_complete(
    applied: AppliedMigration<Seq<u8>>,
    known: KnownMigration<Seq<u8>>,
) -> bool {
    applied.version == known.version && applied.success && applied.checksum == known.checksum
}

/// What checking the migrations of a backup answers: it has been through some of the known ones,
/// from the first onward, and completed each of them.
pub open spec fn checked_migrations(
    applied: Seq<AppliedMigration<Seq<u8>>>,
    known: Seq<KnownMigration<Seq<u8>>>,
) -> core::result::Result<(), ErrorView> {
    if applied.len() == 0 || applied.len() > known.len() {
        Err(
            ErrorView {
                code: "UNSUPPORTED_BACKUP"@,
                message: "备份迁移记录与当前程序不兼容"@,
            },
        )
    } else if forall|i: int|
        0 <= i < applied.len() ==> is_complete(#[trigger] applied[i], known[i]) {
        Ok(())
    } else {
        Err(
            ErrorView {
                code: "UNSUPPORTED_BACKUP"@,
                message: "备份包含未完成或校验不匹配的迁移"@,
            },
        )
    }
}

fn same_bytes(left: &Vec<u8>, right: &Vec<u8>) -> (equal: bool)
    ensures
        equal == (left@ == right@),
{
    if left.len() != right.len() {
        return false;
    }
    let mut i: usize = 0;
    while i < left.len()
        invariant
            left.len() == right.len(),
            i <= left.len(),
            forall|k: int| 0 <= k < i ==> left@[k] == right@[k],
        decreases left.len() - i,
    {
        if left[i] != right[i] {
            return false;
        }
        i += 1;
    }
    assert(left@ =~= right@);
    true
}

/// Accepts a backup whose migrations are known and complete.
pub fn check_migrations(applied: &Vec<AppliedMigration>, known: &Vec<KnownMigration>) -> (result:
    Result<()>)
    ensures
        error::outcome(result) == checked_migrations(applied.deep_view(), known.deep_view()),
{
    if applied.len() == 0 || applied.len() > known.len() {
        return Err(AppError::new("UNSUPPORTED_BACKUP", "备份迁移记录与当前程序不兼容"));
    }
    let ghost done = applied.deep_view();
    let ghost expected = known.deep_view();
    let mut i: usize = 0;
    while i < applied.len()
        invariant
            done == applied.deep_view(),
            expected == known.deep_view(),
            applied.len() <= known.len(),
            i <= applied.len(),
            forall|k: int| 0 <= k < i ==> is_complete(#[trigger] done[k], expected[k]),
        decreases applied.len() - i,
    {
        let row = &applied[i];
        let migration = &known[i];
        assert(done[i as int] == row.deep_view());
        assert(expected[i as int] == migration.deep_view());
        if row.version != migration.version || !row.success || !same_bytes(
            &row.checksum,
            &migration.checksum,
        ) {
            return Err(AppError::new("UNSUPPORTED_BACKUP", "备份包含未完成或校验不匹配的迁移"));
        }
        i += 1;
    }
    Ok(())
}

/// What checking the application id of a backup answers.
pub open spec fn checked_backup(application_id: i64) -> core::result::Result<(), ErrorView> {
    if application_id == APPLICATION_ID {
        Ok(())
    } else {
        Err(error::invalid_input("该文件不是 claw-expense 账本备份"@))
    }
}

/// Accepts the application id of a backup.
pub fn check_backup(application_id: i64) -> (result: Result<()>)
    ensures
        error::outcome(result) == checked_backup(application_id),
{
    if application_id != APPLICATION_ID {
        return Err(AppError::invalid("该文件不是 claw-expense 账本备份"));
    }
    Ok(())
}

/// What checking the answer of an integrity check answers: it is the one word `ok`.
pub open spec fn checked_integrity(answer: Seq<Text>) -> core::result::Result<(), ErrorView> {
    if answer == seq!["ok"@] {
        Ok(())
    } else {
        Err(ErrorView { code: "INVALID_BACKUP"@, message: "备份完整性检查失败"@ })
    }
}

/// Accepts the answer of an integrity check: the one word `ok`.
pub fn check_integrity(answer: &Vec<String>) -> (result: Result<()>)
    ensures
        error::outcome(result) == checked_integrity(answer.deep_view()),
{
    if answer.len() == 1 && text::same(answer[0].as_str(), "ok") {
        assert(answer.deep_view() =~= seq!["ok"@]);
        return Ok(());
    }
    proof {
        if answer.deep_view() == seq!["ok"@] {
            assert(answer.deep_view().len() == 1);
            assert(answer.deep_view()[0] == answer@[0]@);
        }
    }
    Err(AppError::new("INVALID_BACKUP", "备份完整性检查失败"))
}

/// What checking the references of a backup answers: none leads nowhere.
pub open spec fn checked_references(broken: usize) -> core::result::Result<(), ErrorView> {
    if broken == 0 {
        Ok(())
    } else {
        Err(ErrorView { code: "INVALID_BACKUP"@, message: "备份关联关系检查失败"@ })
    }
}

/// Accepts a backup in which no reference leads nowhere.
pub fn check_references(broken: usize) -> (result: Result<()>)
    ensures
        error::outcome(result) == checked_references(broken),
{
    if broken != 0 {
        return Err(AppError::new("INVALID_BACKUP", "备份关联关系检查失败"));
    }
    Ok(())
}

/// What checking a backup answers: the first of its checks that fails decides.
pub open spec fn checked_archive(
    application_id: i64,
    integrity: Seq<Text>,
    broken: usize,
    applied: Seq<AppliedMigration<Seq<u8>>>,
    known: Seq<KnownMigration<Seq<u8>>>,
) -> core::result::Result<(), ErrorView> {
    match (
        checked_backup(application_id),
        checked_integrity(integrity),
        checked_references(broken),
    ) {
        (Err(error), _, _) => Err(error),
        (_, Err(error), _) => Err(error),
        (_, _, Err(error)) => Err(error),
        (Ok(_), Ok(_), Ok(_)) => checked_migrations(applied, known),
    }
}

/// Accepts a backup of a ledger that is whole and that this program knows.
pub fn check_archive(
    application_id: i64,
    integrity: &Vec<String>,
    broken: usize,
    applied: &Vec<AppliedMigration>,
    known: &Vec<KnownMigration>,
) -> (result: Result<()>)
    ensures
        error::outcome(result) == checked_archive(
            application_id,
            integrity.deep_view(),
            broken,
            applied.deep_view(),
            known.deep_view(),
        ),
{
    match check_backup(application_id) {
        Err(error) => {
            return Err(error);
        },
        Ok(_) => {},
    }
    match check_integrity(integrity) {
        Err(error) => {
            return Err(error);
        },
        Ok(_) => {},
    }
    match check_references(broken) {
        Err(error) => {
            return Err(error);
        },
        Ok(_) => {},
    }
    check_migrations(applied, known)
}

/// What is known of a backup so far.
#[verifier::ext_equal]
#[derive(Debug)]
pub struct BackupFacts<I = Vec<String>, A = Vec<AppliedMigration>> {
    pub application_id: Option<i64>,
    pub integrity: Option<I>,
    pub broken: Option<usize>,
    pub applied: Option<A>,
}

/// What is known of a backup so far, in contracts.
pub type BackupFactsView = BackupFacts<Seq<Text>, Seq<AppliedMigration<Seq<u8>>>>;

impl DeepView for BackupFacts {
    type V = BackupFactsView;

    open spec fn deep_view(&self) -> BackupFactsView {
        BackupFacts {
            application_id: self.application_id,
            integrity: self.integrity.deep_view(),
            broken: self.broken,
            applied: self.applied.deep_view(),
        }
    }
}

/// What to find out of a backup next.
#[derive(Debug, Clone, Copy, PartialEq, Eq, Structural)]
pub enum BackupQuestion {
    ApplicationId,
    Integrity,
    References,
    Migrations,
    /// Nothing: the backup is accepted.
    Nothing,
}

impl DeepView for BackupQuestion {
    type V = BackupQuestion;

    open spec fn deep_view(&self) -> BackupQuestion {
        *self
    }
}

/// What to find out of a backup next, given what is known. The questions come in the order of the
/// checks, and none is asked once an earlier check has failed.
pub open spec fn next_question(
    facts: BackupFactsView,
    known: Seq<KnownMigration<Seq<u8>>>,
) -> core::result::Result<BackupQuestion, ErrorView> {
    match facts.application_id {
        None => Ok(BackupQuestion::ApplicationId),
        Some(application_id) => match (checked_backup(application_id), facts.integrity) {
            (Err(error), _) => Err(error),
            (Ok(_), None) => Ok(BackupQuestion::Integrity),
            (Ok(_), Some(integrity)) => match (checked_integrity(integrity), facts.broken) {
                (Err(error), _) => Err(error),
                (Ok(_), None) => Ok(BackupQuestion::References),
                (Ok(_), Some(broken)) => match (checked_references(broken), facts.applied) {
                    (Err(error), _) => Err(error),
                    (Ok(_), None) => Ok(BackupQuestion::Migrations),
                    (Ok(_), Some(applied)) => match checked_migrations(applied, known) {
                        Err(error) => Err(error),
                        Ok(_) => Ok(BackupQuestion::Nothing),
                    },
                },
            },
        },
    }
}

/// Decides what to find out of a backup next.
pub fn inspect_backup(facts: &BackupFacts, known: &Vec<KnownMigration>) -> (result: Result<
    BackupQuestion,
>)
    ensures
        error::outcome(result) == next_question(facts.deep_view(), known.deep_view()),
{
    let application_id = match facts.application_id {
        None => {
            return Ok(BackupQuestion::ApplicationId);
        },
        Some(application_id) => application_id,
    };
    match check_backup(application_id) {
        Err(error) => {
            return Err(error);
        },
        Ok(_) => {},
    }
    match &facts.integrity {
        None => {
            return Ok(BackupQuestion::Integrity);
        },
        Some(integrity) => match check_integrity(integrity) {
            Err(error) => {
                return Err(error);
            },
            Ok(_) => {},
        },
    }
    match facts.broken {
        None => {
            return Ok(BackupQuestion::References);
        },
        Some(broken) => match check_references(broken) {
            Err(error) => {
                return Err(error);
            },
            Ok(_) => {},
        },
    }
    match &facts.applied {
        None => Ok(BackupQuestion::Migrations),
        Some(applied) => match check_migrations(applied, known) {
            Err(error) => Err(error),
            Ok(_) => Ok(BackupQuestion::Nothing),
        },
    }
}

/// Once all is known of a backup, it is accepted exactly where all its checks together accept it,
/// and refused with the same error.
pub proof fn law_questions_end_in_the_checks(
    facts: BackupFactsView,
    known: Seq<KnownMigration<Seq<u8>>>,
)
    requires
        facts.application_id is Some,
        facts.integrity is Some,
        facts.broken is Some,
        facts.applied is Some,
    ensures
        next_question(facts, known) == match checked_archive(
            facts.application_id->0,
            facts.integrity->0,
            facts.broken->0,
            facts.applied->0,
            known,
        ) {
            Ok(_) => Ok::<BackupQuestion, ErrorView>(BackupQuestion::Nothing),
            Err(error) => Err(error),
        },
{
}

/// A value as it is stored.
#[verifier::ext_equal]
#[derive(Debug)]
pub enum Cell<T = String> {
    Null,
    Integer { value: i64 },
    Text { value: T },
    /// A value of a storage type that no table of a ledger has.
    Other { storage_type: T },
}

impl DeepView for Cell {
    type V = Cell<Text>;

    open spec fn deep_view(&self) -> Cell<Text> {
        match self {
            Cell::Null => Cell::Null,
            Cell::Integer { value } => Cell::Integer { value: *value },
            Cell::Text { value } => Cell::Text { value: value@ },
            Cell::Other { storage_type } => Cell::Other { storage_type: storage_type@ },
        }
    }
}

/// What a stored value is exported as. Integers become decimal texts, which keep every digit in
/// any reader.
pub open spec fn exported_cell(cell: Cell<Text>) -> core::result::Result<Option<Text>, ErrorView> {
    match cell {
        Cell::Null => Ok(None),
        Cell::Integer { value } => Ok(Some(text::signed_decimal(value as int))),
        Cell::Text { value } => Ok(Some(value)),
        Cell::Other { storage_type } => Err(
            ErrorView {
                code: "INVALID_STORAGE_TYPE"@,
                message: "不支持导出的数据类型: "@ + storage_type,
            },
        ),
    }
}

/// What a stored row is exported as; the first error where one of its values cannot be.
pub open spec fn exported_row(cells: Seq<Cell<Text>>) -> core::result::Result<
    Seq<Option<Text>>,
    ErrorView,
>
    decreases cells.len(),
{
    if cells.len() == 0 {
        Ok(Seq::empty())
    } else {
        match (exported_row(cells.drop_last()), exported_cell(cells.last())) {
            (Err(error), _) => Err(error),
            (_, Err(error)) => Err(error),
            (Ok(values), Ok(value)) => Ok(values.push(value)),
        }
    }
}

proof fn lemma_first_cell_error(cells: Seq<Cell<Text>>, end: int)
    requires
        0 <= end <= cells.len(),
        exported_row(cells.take(end)) is Err,
    ensures
        exported_row(cells) == exported_row(cells.take(end)),
    decreases cells.len() - end,
{
    if end < cells.len() {
        assert(cells.take(end + 1).drop_last() =~= cells.take(end));
        lemma_first_cell_error(cells, end + 1);
    } else {
        assert(cells.take(end) =~= cells);
    }
}

/// Exports a stored value.
pub fn export_cell(cell: &Cell) -> (result: Result<Option<String>>)
    ensures
        error::outcome(result) == exported_cell(cell.deep_view()),
{
    match cell {
        Cell::Null => Ok(None),
        Cell::Integer { value } => Ok(Some(text::signed_text(*value as i128))),
        Cell::Text { value } => Ok(Some(value.clone())),
        Cell::Other { storage_type } => Err(
            AppError::new(
                "INVALID_STORAGE_TYPE",
                text::joined("不支持导出的数据类型: ", storage_type.as_str()).as_str(),
            ),
        ),
    }
}

/// Exports a stored row.
pub fn export_row(cells: &Vec<Cell>) -> (result: Result<Vec<Option<String>>>)
    ensures
        error::outcome(result) == exported_row(cells.deep_view()),
{
    let ghost all = cells.deep_view();
    let mut values: Vec<Option<String>> = Vec::new();
    let mut i: usize = 0;
    assert(values.deep_view() =~= Seq::<Option<Text>>::empty());
    while i < cells.len()
        invariant
            all == cells.deep_view(),
            i <= cells.len(),
            exported_row(all.take(i as int)) == Ok::<Seq<Option<Text>>, ErrorView>(
                values.deep_view(),
            ),
        decreases cells.len() - i,
    {
        assert(all.take(i + 1).drop_last() =~= all.take(i as int));
        assert(all.take(i + 1).last() == all[i as int]);
        match export_cell(&cells[i]) {
            Err(error) => {
                proof {
                    lemma_first_cell_error(all, i + 1);
                }
                return Err(error);
            },
            Ok(value) => {
                let ghost earlier = values.deep_view();
                values.push(value);
                assert(values.deep_view() =~= earlier.push(value.deep_view()));
            },
        }
        i += 1;
    }
    assert(all.take(i as int) =~= all);
    Ok(values)
}

/// Two integers are exported alike only where they are the same, so an export loses nothing.
pub proof fn law_exported_integers_are_exact(left: i64, right: i64)
    requires
        exported_cell(Cell::Integer { value: left }) == exported_cell(
            Cell::Integer { value: right },
        ),
    ensures
        left == right,
{
    let low = text::signed_decimal(left as int);
    let high = text::signed_decimal(right as int);
    assert(low == high);
    text::lemma_decimal(text::magnitude(left as int));
    text::lemma_decimal(text::magnitude(right as int));
    let left_digits = text::decimal(text::magnitude(left as int));
    let right_digits = text::decimal(text::magnitude(right as int));
    assert(text::is_digit(left_digits[0]) && text::is_digit(right_digits[0]));
    if left < 0 {
        assert(low[0] == '-');
        if right >= 0 {
            assert(high[0] == right_digits[0]);
        }
        assert(left_digits =~= low.skip(1));
        assert(right_digits =~= high.skip(1));
    } else if right < 0 {
        assert(high[0] == '-');
        assert(low[0] == left_digits[0]);
    }
}

/// A backup that went through all known migrations, as this program knows them, is accepted.
pub proof fn law_complete_backups_are_accepted(
    applied: Seq<AppliedMigration<Seq<u8>>>,
    known: Seq<KnownMigration<Seq<u8>>>,
)
    requires
        known.len() > 0,
        applied.len() == known.len(),
        forall|i: int|
            0 <= i < applied.len() ==> is_complete(#[trigger] applied[i], known[i]),
    ensures
        checked_migrations(applied, known) is Ok,
{
}

/// A table of an export.
#[verifier::ext_equal]
#[derive(Debug)]
pub struct ExportedTable<T = String> {
    pub name: T,
    pub ordered_by: T,
}

impl DeepView for ExportedTable {
    type V = ExportedTable<Text>;

    open spec fn deep_view(&self) -> ExportedTable<Text> {
        ExportedTable { name: self.name@, ordered_by: self.ordered_by@ }
    }
}

/// The tables of an export, and the column that each is ordered by.
pub open spec fn exported_tables() -> Seq<ExportedTable<Text>> {
    seq![
        ExportedTable { name: "categories"@, ordered_by: "name"@ },
        ExportedTable { name: "transactions"@, ordered_by: "id"@ },
        ExportedTable { name: "audit_log"@, ordered_by: "id"@ },
        ExportedTable { name: "idempotency"@, ordered_by: "request_id"@ },
        ExportedTable { name: "pending_expenses"@, ordered_by: "id"@ },
        ExportedTable { name: "pending_audit_log"@, ordered_by: "id"@ },
    ]
}

fn exported_table(name: &str, ordered_by: &str) -> (table: ExportedTable)
    ensures
        table.deep_view() == (ExportedTable { name: name@, ordered_by: ordered_by@ }),
{
    ExportedTable { name: name.to_owned(), ordered_by: ordered_by.to_owned() }
}

/// The tables of an export, and the column that each is ordered by.
pub fn export_tables() -> (tables: Vec<ExportedTable>)
    ensures
        tables.deep_view() == exported_tables(),
{
    let mut tables: Vec<ExportedTable> = Vec::new();
    tables.push(exported_table("categories", "name"));
    tables.push(exported_table("transactions", "id"));
    tables.push(exported_table("audit_log", "id"));
    tables.push(exported_table("idempotency", "request_id"));
    tables.push(exported_table("pending_expenses", "id"));
    tables.push(exported_table("pending_audit_log", "id"));
    assert(tables.deep_view() =~= exported_tables());
    tables
}

/// How the integers of a column are to be read.
#[verifier::ext_equal]
#[derive(Debug)]
pub struct AmountUnit<T = String> {
    /// The table and the column.
    pub field: T,
    /// The currency, where all amounts of the column have the same.
    pub currency: Option<T>,
    /// The column that holds the currency, where they have not.
    pub currency_column: Option<T>,
    pub unit: T,
    /// The power of ten by which the amounts are to be divided.
    pub exponent: u32,
}

impl DeepView for AmountUnit {
    type V = AmountUnit<Text>;

    open spec fn deep_view(&self) -> AmountUnit<Text> {
        AmountUnit {
            field: self.field@,
            currency: self.currency.deep_view(),
            currency_column: self.currency_column.deep_view(),
            unit: self.unit@,
            exponent: self.exponent,
        }
    }
}

/// What an export says of itself in front of its tables.
#[verifier::ext_equal]
#[derive(Debug)]
pub struct ExportHead<T = String, L = Vec<AmountUnit>> {
    pub format: T,
    pub version: u32,
    pub base_currency: T,
    pub integer_encoding: T,
    pub amount_units: L,
}

impl DeepView for ExportHead {
    type V = ExportHead<Text, Seq<AmountUnit<Text>>>;

    open spec fn deep_view(&self) -> ExportHead<Text, Seq<AmountUnit<Text>>> {
        ExportHead {
            format: self.format@,
            version: self.version,
            base_currency: self.base_currency@,
            integer_encoding: self.integer_encoding@,
            amount_units: self.amount_units.deep_view(),
        }
    }
}

/// A column of amounts in CNY, in fen.
pub open spec fn fen_unit(field: Text) -> AmountUnit<Text> {
    AmountUnit {
        field,
        currency: Some("CNY"@),
        currency_column: None,
        unit: "fen"@,
        exponent: 2,
    }
}

/// What an export says of itself: the second version of its format, amounts in CNY in fen, and
/// amounts in foreign currencies in hundredths of the currency that stands in the same row.
pub open spec fn exported_head() -> ExportHead<Text, Seq<AmountUnit<Text>>> {
    ExportHead {
        format: "claw-expense-export"@,
        version: 2,
        base_currency: "CNY"@,
        integer_encoding: "decimal_string"@,
        amount_units: seq![
            fen_unit("transactions.amount_minor"@),
            AmountUnit {
                field: "pending_expenses.amount_minor"@,
                currency: None,
                currency_column: Some("currency"@),
                unit: "currency_hundredth"@,
                exponent: 2,
            },
            fen_unit("pending_expenses.confirmed_amount_minor"@),
        ],
    }
}

fn fen(field: &str) -> (unit: AmountUnit)
    ensures
        unit.deep_view() == fen_unit(field@),
{
    AmountUnit {
        field: field.to_owned(),
        currency: Some("CNY".to_owned()),
        currency_column: None,
        unit: "fen".to_owned(),
        exponent: 2,
    }
}

/// What an export says of itself in front of its tables.
pub fn export_head() -> (head: ExportHead)
    ensures
        head.deep_view() == exported_head(),
{
    let mut amount_units: Vec<AmountUnit> = Vec::new();
    amount_units.push(fen("transactions.amount_minor"));
    amount_units.push(
        AmountUnit {
            field: "pending_expenses.amount_minor".to_owned(),
            currency: None,
            currency_column: Some("currency".to_owned()),
            unit: "currency_hundredth".to_owned(),
            exponent: 2,
        },
    );
    amount_units.push(fen("pending_expenses.confirmed_amount_minor"));
    assert(amount_units.deep_view() =~= exported_head().amount_units);
    ExportHead {
        format: "claw-expense-export".to_owned(),
        version: 2,
        base_currency: "CNY".to_owned(),
        integer_encoding: "decimal_string".to_owned(),
        amount_units,
    }
}

} // verus!
