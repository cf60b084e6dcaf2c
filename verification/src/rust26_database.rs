//! A task store on SQLite: versioned migrations, validated inserts,
//! parameterised queries, updates that report whether a row changed, a
//! transactional batch insert and summary statistics.
//!
//! What SQLite stores and answers is outside the proofs: each call into
//! `rusqlite` may fail or return whatever the database holds. The store
//! keeps a ghost log of every request it hands to SQLite (statement text
//! and bound values, and a mark after each statement SQLite refused), and
//! the contracts state that log: validation runs before any SQL, each
//! operation hands over exactly its statement and values, and a batch
//! whose insert is refused is rolled back, never committed. How every
//! answer is mapped is proved as well.
use vstd::prelude::*;
use vstd::string::*;
use rusqlite::{Connection, ErrorCode, Row, Statement, Transaction};
use rusqlite::types::Value;
use rusqlite::types::FromSql;
use crate::strings::{chars_of, trim, trim_bounds, signed_decimal};

verus! {

#[verifier::external_type_specification]
#[verifier::external_body]
pub struct ExConnection(Connection);

#[verifier::external_type_specification]
#[verifier::external_body]
pub struct ExSqliteError(rusqlite::Error);

#[verifier::external_type_specification]
#[verifier::external_body]
pub struct ExStatement<'conn>(Statement<'conn>);

#[verifier::external_type_specification]
#[verifier::external_body]
pub struct ExRow<'stmt>(Row<'stmt>);

#[verifier::external_type_specification]
#[verifier::external_body]
pub struct ExTransaction<'conn>(Transaction<'conn>);

/// `Connection::execute_batch` runs a script; it may fail.
pub assume_specification[ Connection::execute_batch ](conn: &Connection, sql: &str) -> rusqlite::Result<()>;

/// `Connection::last_insert_rowid`: the rowid of the latest insert on this
/// connection, which only the database knows.
pub assume_specification[ Connection::last_insert_rowid ](conn: &Connection) -> i64;

/// `Connection::prepare` compiles a statement; it may fail.
pub assume_specification<'a>[ Connection::prepare ](conn: &'a Connection, sql: &str) -> rusqlite::Result<Statement<'a>>;

/// `Connection::pragma_update` sets a pragma; it may fail.
pub assume_specification<V: rusqlite::ToSql>[ Connection::pragma_update::<V> ](
    conn: &Connection,
    schema_name: Option<&str>,
    pragma_name: &str,
    pragma_value: V,
) -> rusqlite::Result<()>;

/// `Connection::transaction` starts a transaction; it may fail.
pub assume_specification<'a>[ Connection::transaction ](conn: &'a mut Connection) -> rusqlite::Result<Transaction<'a>>;

/// `Transaction::commit` commits; it may fail.
pub assume_specification[ Transaction::commit ](tx: Transaction<'_>) -> rusqlite::Result<()>;

/// `Transaction::rollback` rolls back; it may fail.
pub assume_specification[ Transaction::rollback ](tx: Transaction<'_>) -> rusqlite::Result<()>;

/// `Connection::open_in_memory`: a fresh private database, or an error.
pub assume_specification[ Connection::open_in_memory ]() -> rusqlite::Result<Connection>;

/// `Row::get`: the value of one column of the current row, converted to
/// `T`; fails on a missing column or an unconvertible value. Which value
/// comes back is what the database holds, so nothing is stated of it.
#[verifier::external_body]
fn column<T: FromSql>(row: &Row<'_>, index: usize) -> rusqlite::Result<T> {
    row.get(index)
}

/// `Connection::execute` with `args` bound in order to `?1`, `?2`, ...; each
/// argument becomes the `rusqlite` value of the same kind. The number of
/// rows changed depends on what the database holds, so nothing is stated
/// of it.
#[verifier::external_body]
fn execute_args(conn: &Connection, sql: &str, args: &[SqlArg]) -> rusqlite::Result<usize> {
    let values = args.iter().map(|arg| match arg {
        SqlArg::Integer(i) => Value::Integer(*i),
        SqlArg::Text(t) => Value::Text(t.clone()),
    });
    conn.execute(sql, rusqlite::params_from_iter(values))
}

/// `Statement::query_map` with `args` bound as in [`execute_args`],
/// followed by collecting every mapped row in the order the statement
/// yields them; the first failure, of the query or of a row, is returned
/// instead. The rows are what the database holds.
#[verifier::external_body]
fn query_all<T, F: FnMut(&Row<'_>) -> rusqlite::Result<T>>(
    statement: &mut Statement<'_>,
    args: &[SqlArg],
    map: F,
) -> rusqlite::Result<Vec<T>> {
    let values = args.iter().map(|arg| match arg {
        SqlArg::Integer(i) => Value::Integer(*i),
        SqlArg::Text(t) => Value::Text(t.clone()),
    });
    match statement.query_map(rusqlite::params_from_iter(values), map) {
        Ok(rows) => rows.collect(),
        Err(error) => Err(error),
    }
}

/// `Statement::query_row` without parameters: the first row, mapped, or an
/// error (also when there is no row).
#[verifier::external_body]
fn query_first<T, F: FnOnce(&Row<'_>) -> rusqlite::Result<T>>(statement: &mut Statement<'_>, map: F) -> rusqlite::Result<T> {
    statement.query_row([], map)
}

/// A transaction is used as the connection it runs on (`Deref`).
#[verifier::external_body]
fn transaction_connection<'a>(tx: &'a Transaction<'_>) -> &'a Connection {
    tx
}

/// Whether a `rusqlite` error is SQLite's constraint violation (a
/// `SqliteFailure` whose code is `ConstraintViolation`); which errors are
/// is not stated.
#[verifier::external_body]
fn is_constraint_failure(error: &rusqlite::Error) -> bool {
    error.sqlite_error_code() == Some(ErrorCode::ConstraintViolation)
}

/// A value bound to a statement parameter.
#[derive(Debug, Clone)]
pub enum SqlArg {
    Integer(i64),
    Text(String),
}

/// A bound value, as the contracts see it.
pub enum SqlValue {
    Integer(i64),
    Text(Seq<char>),
}

impl View for SqlArg {
    type V = SqlValue;

    open spec fn view(&self) -> SqlValue {
        match self {
            SqlArg::Integer(i) => SqlValue::Integer(*i),
            SqlArg::Text(t) => SqlValue::Text(t@),
        }
    }
}

/// The bound values of a list of arguments.
pub open spec fn arg_values(args: Seq<SqlArg>) -> Seq<SqlValue> {
    args.map_values(|a: SqlArg| a@)
}

/// One request handed to SQLite.
pub enum SqlCall {
    /// A statement run with `Connection::execute` and its bound values.
    Execute { sql: Seq<char>, args: Seq<SqlValue> },
    /// A query prepared and run with its bound values.
    Query { sql: Seq<char>, args: Seq<SqlValue> },
    /// A script run with `Connection::execute_batch`.
    Batch { sql: Seq<char> },
    /// `PRAGMA user_version` set to `version`.
    SetVersion { version: i64 },
    /// A transaction begun.
    Begin,
    /// The transaction committed.
    Commit,
    /// The transaction rolled back.
    Rollback,
    /// SQLite refused the statement just before.
    Refused,
}

/// A connection to the task database, with the ghost log of every request
/// handed to SQLite through it.
pub struct TaskDb {
    conn: Connection,
    log: Ghost<Seq<SqlCall>>,
    answers: Ghost<Seq<SqlAnswer>>,
}

/// What SQLite answered to a request that it carried out.
pub enum SqlAnswer {
    /// An update or delete changed this many rows.
    Changed(usize),
    /// An insert gave the new row this id.
    RowId(i64),
    /// A task query returned these tasks, in order.
    Rows(Seq<Task>),
    /// The schema version read.
    Version(i64),
    /// The statistics query counted this many tasks, and this many done.
    Totals(i64, i64),
    /// A query-plan query returned these detail lines.
    Details(Seq<Seq<char>>),
}

/// `after` is `before` with one answer appended, which is the schema
/// version read.
pub open spec fn version_answer(before: Seq<SqlAnswer>, after: Seq<SqlAnswer>) -> bool {
    after.len() > 0 && after == before.push(after.last()) && after.last() is Version
}

impl TaskDb {
    /// The requests handed to SQLite so far, oldest first.
    pub closed spec fn log(&self) -> Seq<SqlCall> {
        self.log@
    }

    /// SQLite's answers to the updates, inserts and task queries it carried
    /// out so far, oldest first.
    pub closed spec fn answers(&self) -> Seq<SqlAnswer> {
        self.answers@
    }

    /// A store on an open connection; nothing handed over yet.
    pub fn new(conn: Connection) -> (db: Self)
        ensures
            db.log() == Seq::<SqlCall>::empty(),
            db.answers() == Seq::<SqlAnswer>::empty(),
    {
        TaskDb { conn, log: Ghost(Seq::empty()), answers: Ghost(Seq::empty()) }
    }
}

/// `after` is `before` with SQLite's answer to one update appended when it
/// ran (`r` is `Ok(b)`), and `b` says whether it changed exactly one row;
/// a refused update adds no answer.
pub open spec fn changed_answer(before: Seq<SqlAnswer>, after: Seq<SqlAnswer>, r: Result<bool, TaskError>) -> bool {
    match r {
        Ok(b) => after.len() > 0 && after == before.push(after.last())
            && (after.last() matches SqlAnswer::Changed(n) && b == (n == 1)),
        Err(_) => after == before,
    }
}

/// `after` is `before` with the tasks of one query appended when it ran.
pub open spec fn rows_answer(before: Seq<SqlAnswer>, after: Seq<SqlAnswer>, r: Result<Vec<Task>, TaskError>) -> bool {
    match r {
        Ok(ts) => after == before.push(SqlAnswer::Rows(ts@)),
        Err(_) => after == before,
    }
}

/// Runs one update, recording SQLite's answer when it ran.
fn update(db: &mut TaskDb, sql: &str, args: &[SqlArg]) -> (r: rusqlite::Result<usize>)
    ensures
        final(db).log() == old(db).log().push(SqlCall::Execute { sql: sql@, args: arg_values(args@) }) + refusal(r),
        match r {
            Ok(n) => final(db).answers() == old(db).answers().push(SqlAnswer::Changed(n)),
            Err(_) => final(db).answers() == old(db).answers(),
        },
{
    let outcome = run(&db.conn, &mut db.log, sql, args);
    proof {
        if outcome is Ok {
            db.answers@ = db.answers@.push(SqlAnswer::Changed(outcome->Ok_0));
        }
    }
    outcome
}

/// `[Refused]` after a statement SQLite refused, nothing after one it ran.
pub open spec fn refusal<T, E>(r: Result<T, E>) -> Seq<SqlCall> {
    if r is Err {
        seq![SqlCall::Refused]
    } else {
        Seq::empty()
    }
}

/// Runs one statement with its arguments, recording the request and
/// whether SQLite refused it.
fn run(conn: &Connection, log: &mut Ghost<Seq<SqlCall>>, sql: &str, args: &[SqlArg]) -> (r: rusqlite::Result<usize>)
    ensures
        final(log)@ == old(log)@.push(SqlCall::Execute { sql: sql@, args: arg_values(args@) }) + refusal(r),
{
    let ghost sent = old(log)@.push(SqlCall::Execute { sql: sql@, args: arg_values(args@) });
    *log = Ghost(sent);
    let r = execute_args(conn, sql, args);
    if r.is_err() {
        *log = Ghost(log@.push(SqlCall::Refused));
        assert(log@ =~= sent + seq![SqlCall::Refused]);
    } else {
        assert(log@ =~= sent + Seq::<SqlCall>::empty());
    }
    r
}

/// Prepares a query and runs it with its arguments, mapping every row;
/// the request is recorded.
fn query_rows<T, F: FnMut(&Row<'_>) -> rusqlite::Result<T>>(
    conn: &Connection,
    log: &mut Ghost<Seq<SqlCall>>,
    sql: &str,
    args: &[SqlArg],
    map: F,
) -> (r: rusqlite::Result<Vec<T>>)
    ensures
        final(log)@ == old(log)@.push(SqlCall::Query { sql: sql@, args: arg_values(args@) }),
{
    *log = Ghost(log@.push(SqlCall::Query { sql: sql@, args: arg_values(args@) }));
    let mut statement = conn.prepare(sql)?;
    query_all(&mut statement, args, map)
}

/// Prepares a query without parameters and maps its first row; the
/// request is recorded.
fn query_one<T, F: FnOnce(&Row<'_>) -> rusqlite::Result<T>>(
    conn: &Connection,
    log: &mut Ghost<Seq<SqlCall>>,
    sql: &str,
    map: F,
) -> (r: rusqlite::Result<T>)
    ensures
        final(log)@ == old(log)@.push(SqlCall::Query { sql: sql@, args: Seq::empty() }),
{
    *log = Ghost(log@.push(SqlCall::Query { sql: sql@, args: Seq::empty() }));
    let mut statement = conn.prepare(sql)?;
    query_first(&mut statement, map)
}

/// Runs a script; the request is recorded.
fn run_batch(conn: &Connection, log: &mut Ghost<Seq<SqlCall>>, sql: &str) -> (r: rusqlite::Result<()>)
    ensures
        final(log)@ == old(log)@.push(SqlCall::Batch { sql: sql@ }),
{
    *log = Ghost(log@.push(SqlCall::Batch { sql: sql@ }));
    conn.execute_batch(sql)
}

/// Records `version` as the schema version; the request is recorded.
fn set_version(conn: &Connection, log: &mut Ghost<Seq<SqlCall>>, version: i64) -> (r: rusqlite::Result<()>)
    ensures
        final(log)@ == old(log)@.push(SqlCall::SetVersion { version }),
{
    *log = Ghost(log@.push(SqlCall::SetVersion { version }));
    conn.pragma_update(None, "user_version", version)
}

/// Begins a transaction; the request is recorded.
fn begin<'a>(conn: &'a mut Connection, log: &mut Ghost<Seq<SqlCall>>) -> (r: rusqlite::Result<Transaction<'a>>)
    ensures
        final(log)@ == old(log)@.push(SqlCall::Begin),
{
    *log = Ghost(log@.push(SqlCall::Begin));
    conn.transaction()
}

/// Commits a transaction; the request is recorded.
fn commit(tx: Transaction<'_>, log: &mut Ghost<Seq<SqlCall>>) -> (r: rusqlite::Result<()>)
    ensures
        final(log)@ == old(log)@.push(SqlCall::Commit),
{
    *log = Ghost(log@.push(SqlCall::Commit));
    tx.commit()
}

/// Rolls a transaction back; the request is recorded.
fn rollback(tx: Transaction<'_>, log: &mut Ghost<Seq<SqlCall>>) -> (r: rusqlite::Result<()>)
    ensures
        final(log)@ == old(log)@.push(SqlCall::Rollback),
{
    *log = Ghost(log@.push(SqlCall::Rollback));
    tx.rollback()
}

/// One row of the `tasks` table.
#[derive(Debug, Clone, PartialEq, Eq)]
pub struct Task {
    pub id: i64,
    pub title: String,
    pub done: bool,
    /// 1 is the highest priority, 3 the lowest.
    pub priority: i64,
}

/// Totals of one statistics query.
#[derive(Debug, Clone, Copy, PartialEq, Eq, Structural)]
pub struct Stats {
    pub total: i64,
    pub done: i64,
    pub open: i64,
}

/// Validation failures, kept apart from what SQLite reports.
#[derive(Debug)]
pub enum TaskError {
    /// The title is empty once surrounding whitespace is removed.
    EmptyTitle,
    /// The priority is outside `1..=3`.
    InvalidPriority(i64),
    /// SQLite failed (a constraint, I/O, SQL syntax, ...): whether SQLite
    /// reported a constraint violation, and the text of the error.
    Sqlite { constraint: bool, text: String },
}

/// The error is `InvalidPriority(priority)`.
pub open spec fn rejects_priority(e: TaskError, priority: i64) -> bool {
    match e {
        TaskError::InvalidPriority(p) => p == priority,
        _ => false,
    }
}

impl TaskError {
    /// Whether this is a constraint violation reported by SQLite (a
    /// duplicate title, a failed `CHECK`).
    pub fn is_constraint_violation(&self) -> (b: bool)
        ensures
            b == (self matches TaskError::Sqlite { constraint, .. } && *constraint),
    {
        match self {
            TaskError::Sqlite { constraint, .. } => *constraint,
            _ => false,
        }
    }

    /// The message shown to a user.
    pub fn message(&self) -> (s: String)
        ensures
            self is EmptyTitle ==> s@ == "任务标题不能为空"@,
            self matches TaskError::InvalidPriority(v) ==> s@ == "优先级 "@ + signed_decimal(v as int) + " 不在 1..=3 之间"@,
            self matches TaskError::Sqlite { text, .. } ==> s@ == "数据库错误："@ + text@,
    {
        match self {
            TaskError::EmptyTitle => String::from_str("任务标题不能为空"),
            TaskError::InvalidPriority(value) => {
                let mut s = String::from_str("优先级 ");
                crate::strings::push_signed_decimal(&mut s, *value);
                s.append(" 不在 1..=3 之间");
                s
            },
            TaskError::Sqlite { text, .. } => {
                let mut s = String::from_str("数据库错误：");
                s.append(text.as_str());
                s
            },
        }
    }
}

/// The `Display` text of a `rusqlite` error; which text it is depends on
/// the error and is not stated.
#[verifier::external_body]
fn sqlite_error_text(error: &rusqlite::Error) -> String {
    error.to_string()
}

/// A `rusqlite` error as the library keeps it: whether it is SQLite's
/// constraint violation, and its text.
pub fn sqlite_failure(error: rusqlite::Error) -> (e: TaskError)
    ensures
        e is Sqlite,
{
    TaskError::Sqlite { constraint: is_constraint_failure(&error), text: sqlite_error_text(&error) }
}

/// How many schema migrations exist; schema version `n` has the first `n`
/// applied.
pub const MIGRATION_COUNT: usize = 3;

/// The text of migration script `index` (0-based): the table, then the
/// priority column, then the index on `done`. Scripts are only ever
/// appended.
pub open spec fn migration_script(index: int) -> Seq<char> {
    if index == 0 {
        "CREATE TABLE IF NOT EXISTS tasks (
        id INTEGER PRIMARY KEY,
        title TEXT NOT NULL UNIQUE,
        done INTEGER NOT NULL DEFAULT 0 CHECK (done IN (0, 1))
    );"@
    } else if index == 1 {
        "ALTER TABLE tasks ADD COLUMN priority INTEGER NOT NULL DEFAULT 2;"@
    } else {
        "CREATE INDEX IF NOT EXISTS idx_tasks_done ON tasks (done);"@
    }
}

/// Migration script `index` (0-based).
fn migration(index: usize) -> (script: &'static str)
    requires
        index < MIGRATION_COUNT,
    ensures
        script@ == migration_script(index as int),
{
    if index == 0 {
        "CREATE TABLE IF NOT EXISTS tasks (
        id INTEGER PRIMARY KEY,
        title TEXT NOT NULL UNIQUE,
        done INTEGER NOT NULL DEFAULT 0 CHECK (done IN (0, 1))
    );"
    } else if index == 1 {
        "ALTER TABLE tasks ADD COLUMN priority INTEGER NOT NULL DEFAULT 2;"
    } else {
        "CREATE INDEX IF NOT EXISTS idx_tasks_done ON tasks (done);"
    }
}

/// The index of the first migration still to apply at schema `version`:
/// none for a version at or past the last one, or for a negative version
/// (which, as an unsigned count, is past every migration).
pub open spec fn first_pending(version: int) -> nat {
    if version < 0 || version >= MIGRATION_COUNT {
        MIGRATION_COUNT as nat
    } else {
        version as nat
    }
}

/// The number of migrations that `migrate` applies at schema `version`.
pub open spec fn pending_count(version: int) -> nat {
    (MIGRATION_COUNT - first_pending(version)) as nat
}

/// Where migration starts at schema `version`.
pub fn first_pending_index(version: i64) -> (i: usize)
    ensures
        i == first_pending(version as int),
{
    if version < 0 || version >= MIGRATION_COUNT as i64 {
        MIGRATION_COUNT
    } else {
        version as usize
    }
}

/// The first column of a row as an integer.
fn first_integer(row: &Row<'_>) -> rusqlite::Result<i64> {
    column::<i64>(row, 0)
}

/// The query that reads the schema version.
pub open spec fn version_query() -> SqlCall {
    SqlCall::Query { sql: "PRAGMA user_version"@, args: Seq::empty() }
}

/// The schema version recorded in `PRAGMA user_version`.
pub fn schema_version(db: &mut TaskDb) -> (r: Result<i64, TaskError>)
    ensures
        match r {
            Ok(v) => final(db).answers() == old(db).answers().push(SqlAnswer::Version(v)),
            Err(_) => final(db).answers() == old(db).answers(),
        },
        final(db).log() == old(db).log().push(version_query()),
        r is Err ==> r->Err_0 is Sqlite,
{
    match query_one(&db.conn, &mut db.log, "PRAGMA user_version", first_integer) {
        Ok(v) => {
            proof {
                db.answers@ = db.answers@.push(SqlAnswer::Version(v));
            }
            Ok(v)
        },
        Err(e) => Err(sqlite_failure(e)),
    }
}

/// The requests of migrations `from` up to (not including) `to`: each
/// script, then the schema version it reaches.
pub open spec fn migration_calls(from: nat, to: nat) -> Seq<SqlCall>
    decreases to,
{
    if to <= from {
        Seq::empty()
    } else {
        migration_calls(from, (to - 1) as nat).push(SqlCall::Batch { sql: migration_script(to - 1) }).push(
            SqlCall::SetVersion { version: to as i64 },
        )
    }
}

/// Applies, in order, the migrations newer than the recorded schema
/// version, recording the version after each; returns how many ran. On
/// success the requests were: reading the version, then each pending
/// script followed by the version it reaches.
pub fn migrate(db: &mut TaskDb) -> (r: Result<usize, TaskError>)
    ensures
        r matches Ok(n) ==> version_answer(old(db).answers(), final(db).answers())
            && (final(db).answers().last() matches SqlAnswer::Version(v) && n == pending_count(v as int)),
        r matches Ok(n) ==> n <= MIGRATION_COUNT && final(db).log() == old(db).log().push(version_query())
            + migration_calls((MIGRATION_COUNT - n) as nat, MIGRATION_COUNT as nat),
        r is Err ==> r->Err_0 is Sqlite,
{
    let current = schema_version(db)?;
    let start = first_pending_index(current);
    let ghost before = db.log@;
    let ghost answers0 = db.answers@;
    let mut applied: usize = 0;
    let mut index: usize = start;
    assert(before + migration_calls(start as nat, start as nat) =~= before);
    while index < MIGRATION_COUNT
        invariant
            start <= index <= MIGRATION_COUNT,
            applied == index - start,
            db.log@ == before + migration_calls(start as nat, index as nat),
            answers0 == old(db).answers().push(SqlAnswer::Version(current)),
            db.answers@ == answers0,
            start == first_pending(current as int),
        decreases MIGRATION_COUNT - index,
    {
        let script = migration(index);
        if let Err(e) = run_batch(&db.conn, &mut db.log, script) {
            return Err(sqlite_failure(e));
        }
        let version = (index + 1) as i64;
        if let Err(e) = set_version(&db.conn, &mut db.log, version) {
            return Err(sqlite_failure(e));
        }
        proof {
            let next = migration_calls(start as nat, (index + 1) as nat);
            assert(next == migration_calls(start as nat, index as nat).push(SqlCall::Batch { sql: script@ }).push(
                SqlCall::SetVersion { version },
            ));
            assert(db.log@ =~= before + next);
        }
        applied = applied + 1;
        index = index + 1;
    }
    assert(db.answers@.last() == SqlAnswer::Version(current));
    Ok(applied)
}

/// Once the schema is at the latest version `migrate` finds nothing left
/// to apply, and from any version the pending migrations are exactly those
/// after it.
pub proof fn law_migrations_are_idempotent(version: int)
    ensures
        pending_count(MIGRATION_COUNT as int) == 0,
        migration_calls(first_pending(MIGRATION_COUNT as int), MIGRATION_COUNT as nat) == Seq::<SqlCall>::empty(),
        0 <= version <= MIGRATION_COUNT ==> version + pending_count(version) == MIGRATION_COUNT,
{
}

/// Creates the table and brings the schema up to date; safe to repeat. On
/// success the requests were those of one `migrate`.
pub fn init(db: &mut TaskDb) -> (r: Result<(), TaskError>)
    ensures
        r is Ok ==> version_answer(old(db).answers(), final(db).answers()),
        r is Ok ==> exists|n: nat| n <= MIGRATION_COUNT && final(db).log() == old(db).log().push(version_query())
            + #[trigger] migration_calls((MIGRATION_COUNT - n) as nat, MIGRATION_COUNT as nat),
        r is Err ==> r->Err_0 is Sqlite,
{
    match migrate(db) {
        Ok(_) => Ok(()),
        Err(e) => Err(e),
    }
}

/// A title is valid when something is left after trimming whitespace; the
/// trimmed text is what gets stored.
pub fn validate_title(title: &str) -> (r: Result<&str, TaskError>)
    ensures
        trim(title@).len() == 0 <==> r is Err,
        r is Err ==> r->Err_0 is EmptyTitle,
        r matches Ok(t) ==> t@ == trim(title@),
{
    let chars = chars_of(title);
    let (start, end) = trim_bounds(&chars);
    if start == end {
        return Err(TaskError::EmptyTitle);
    }
    Ok(title.substring_char(start, end))
}

/// Whether a priority is one of 1, 2, 3.
pub open spec fn valid_priority(priority: int) -> bool {
    1 <= priority <= 3
}

/// Priorities run from 1 (highest) to 3 (lowest).
pub fn validate_priority(priority: i64) -> (r: Result<i64, TaskError>)
    ensures
        valid_priority(priority as int) <==> r is Ok,
        r matches Ok(p) ==> p == priority,
        r is Err ==> rejects_priority(r->Err_0, priority),
{
    if 1 <= priority && priority <= 3 {
        Ok(priority)
    } else {
        Err(TaskError::InvalidPriority(priority))
    }
}

/// A task from its four columns; SQLite has no boolean, any non-zero
/// `done` counts as done.
pub fn task_from_columns(id: i64, title: String, done: i64, priority: i64) -> (t: Task)
    ensures
        t.id == id,
        t.title@ == title@,
        t.done == (done != 0),
        t.priority == priority,
{
    Task { id, title, done: done != 0, priority }
}

/// Maps a row of `SELECT id, title, done, priority` to a task.
fn task_from_row(row: &Row<'_>) -> rusqlite::Result<Task> {
    let id = column::<i64>(row, 0)?;
    let title = column::<String>(row, 1)?;
    let done = column::<i64>(row, 2)?;
    let priority = column::<i64>(row, 3)?;
    Ok(task_from_columns(id, title, done, priority))
}

/// Prepares and runs a task query with its arguments, mapping each row;
/// the request is recorded.
fn select_tasks(db: &mut TaskDb, sql: &str, args: &[SqlArg]) -> (r: Result<Vec<Task>, TaskError>)
    ensures
        final(db).log() == old(db).log().push(SqlCall::Query { sql: sql@, args: arg_values(args@) }),
        rows_answer(old(db).answers(), final(db).answers(), r),
        r is Err ==> r->Err_0 is Sqlite,
{
    match query_rows(&db.conn, &mut db.log, sql, args, task_from_row) {
        Ok(tasks) => {
            proof {
                db.answers@ = db.answers@.push(SqlAnswer::Rows(tasks@));
            }
            Ok(tasks)
        },
        Err(e) => Err(sqlite_failure(e)),
    }
}

/// The query of every task, by id.
pub open spec fn all_tasks_sql() -> Seq<char> {
    "SELECT id, title, done, priority FROM tasks ORDER BY id"@
}

/// The query of the open tasks, by priority and then id.
pub open spec fn open_tasks_sql() -> Seq<char> {
    "SELECT id, title, done, priority FROM tasks WHERE done = 0 ORDER BY priority, id"@
}

/// The query of the tasks of one priority, by id.
pub open spec fn priority_tasks_sql() -> Seq<char> {
    "SELECT id, title, done, priority FROM tasks WHERE priority = ?1 ORDER BY id"@
}

/// The query of the tasks whose title is `LIKE ?1`, by id.
pub open spec fn search_sql() -> Seq<char> {
    "SELECT id, title, done, priority FROM tasks WHERE title LIKE ?1 ORDER BY id"@
}

/// Every task, by id.
pub fn list_tasks(db: &mut TaskDb) -> (r: Result<Vec<Task>, TaskError>)
    ensures
        rows_answer(old(db).answers(), final(db).answers(), r),
        final(db).log() == old(db).log().push(SqlCall::Query { sql: all_tasks_sql(), args: Seq::empty() }),
        r is Err ==> r->Err_0 is Sqlite,
{
    let args: Vec<SqlArg> = Vec::new();
    assert(arg_values(args@) =~= Seq::<SqlValue>::empty());
    select_tasks(db, "SELECT id, title, done, priority FROM tasks ORDER BY id", args.as_slice())
}

/// The open tasks, by priority and then id.
pub fn list_open_tasks(db: &mut TaskDb) -> (r: Result<Vec<Task>, TaskError>)
    ensures
        rows_answer(old(db).answers(), final(db).answers(), r),
        final(db).log() == old(db).log().push(SqlCall::Query { sql: open_tasks_sql(), args: Seq::empty() }),
        r is Err ==> r->Err_0 is Sqlite,
{
    let args: Vec<SqlArg> = Vec::new();
    assert(arg_values(args@) =~= Seq::<SqlValue>::empty());
    select_tasks(
        db,
        "SELECT id, title, done, priority FROM tasks WHERE done = 0 ORDER BY priority, id",
        args.as_slice(),
    )
}

/// The tasks of one priority, by id; an invalid priority is refused before
/// any query.
pub fn list_by_priority(db: &mut TaskDb, priority: i64) -> (r: Result<Vec<Task>, TaskError>)
    ensures
        !valid_priority(priority as int) ==> final(db).answers() == old(db).answers(),
        valid_priority(priority as int) ==> rows_answer(old(db).answers(), final(db).answers(), r),
        !valid_priority(priority as int) ==> r is Err && rejects_priority(r->Err_0, priority)
            && final(db).log() == old(db).log(),
        valid_priority(priority as int) ==> final(db).log() == old(db).log().push(
            SqlCall::Query { sql: priority_tasks_sql(), args: seq![SqlValue::Integer(priority)] },
        ),
        valid_priority(priority as int) && r is Err ==> r->Err_0 is Sqlite,
{
    let priority = validate_priority(priority)?;
    let args = vec![SqlArg::Integer(priority)];
    assert(arg_values(args@) =~= seq![SqlValue::Integer(priority)]);
    select_tasks(db, "SELECT id, title, done, priority FROM tasks WHERE priority = ?1 ORDER BY id", args.as_slice())
}

/// The `LIKE` pattern that finds `keyword` anywhere in a title.
pub open spec fn contains_pattern(keyword: Seq<char>) -> Seq<char> {
    seq!['%'] + keyword + seq!['%']
}

/// Builds the `LIKE` pattern for a keyword; the keyword is bound as a
/// parameter, never spliced into SQL.
pub fn like_pattern(keyword: &str) -> (p: String)
    ensures
        p@ == contains_pattern(keyword@),
{
    let mut p = String::from_str("%");
    p.append(keyword);
    p.append("%");
    proof {
        reveal_strlit("%");
    }
    p
}

/// Tasks whose title contains `keyword`, by id: the keyword is bound as
/// the pattern `%keyword%`.
pub fn search_tasks(db: &mut TaskDb, keyword: &str) -> (r: Result<Vec<Task>, TaskError>)
    ensures
        rows_answer(old(db).answers(), final(db).answers(), r),
        final(db).log() == old(db).log().push(
            SqlCall::Query { sql: search_sql(), args: seq![SqlValue::Text(contains_pattern(keyword@))] },
        ),
        r is Err ==> r->Err_0 is Sqlite,
{
    let pattern = like_pattern(keyword);
    let args = vec![SqlArg::Text(pattern)];
    assert(arg_values(args@) =~= seq![SqlValue::Text(contains_pattern(keyword@))]);
    select_tasks(db, "SELECT id, title, done, priority FROM tasks WHERE title LIKE ?1 ORDER BY id", args.as_slice())
}

/// The statement that inserts a task.
pub open spec fn insert_sql() -> Seq<char> {
    "INSERT INTO tasks (title, priority) VALUES (?1, ?2)"@
}

/// The request that inserts a task with a (trimmed) title and a priority.
pub open spec fn insert_call(title: Seq<char>, priority: i64) -> SqlCall {
    SqlCall::Execute { sql: insert_sql(), args: seq![SqlValue::Text(trim(title)), SqlValue::Integer(priority)] }
}

/// Validates, then inserts on `conn`, recording the request.
fn insert_on(
    conn: &Connection,
    log: &mut Ghost<Seq<SqlCall>>,
    answers: &mut Ghost<Seq<SqlAnswer>>,
    title: &str,
    priority: i64,
) -> (r: Result<i64, TaskError>)
    ensures
        match r {
            Ok(id) => final(answers)@ == old(answers)@.push(SqlAnswer::RowId(id)),
            Err(_) => final(answers)@ == old(answers)@,
        },
        trim(title@).len() == 0 ==> r is Err && r->Err_0 is EmptyTitle && final(log)@ == old(log)@,
        trim(title@).len() > 0 && !valid_priority(priority as int) ==> r is Err
            && rejects_priority(r->Err_0, priority) && final(log)@ == old(log)@,
        trim(title@).len() > 0 && valid_priority(priority as int) ==> final(log)@ == old(log)@.push(
            insert_call(title@, priority),
        ) + refusal(r),
        trim(title@).len() > 0 && valid_priority(priority as int) && r is Err ==> r->Err_0 is Sqlite,
{
    let title = validate_title(title)?;
    let priority = validate_priority(priority)?;
    let args = vec![SqlArg::Text(String::from_str(title)), SqlArg::Integer(priority)];
    assert(arg_values(args@) =~= seq![SqlValue::Text(title@), SqlValue::Integer(priority)]);
    match run(conn, log, "INSERT INTO tasks (title, priority) VALUES (?1, ?2)", args.as_slice()) {
        Ok(_) => {
            let id = conn.last_insert_rowid();
            *answers = Ghost(answers@.push(SqlAnswer::RowId(id)));
            Ok(id)
        },
        Err(e) => Err(sqlite_failure(e)),
    }
}

/// Inserts a task with the default priority 2; returns its id. A blank
/// title is refused before any SQL.
pub fn add_task(db: &mut TaskDb, title: &str) -> (r: Result<i64, TaskError>)
    ensures
        match r {
            Ok(id) => final(db).answers() == old(db).answers().push(SqlAnswer::RowId(id)),
            Err(_) => final(db).answers() == old(db).answers(),
        },
        trim(title@).len() == 0 ==> r is Err && r->Err_0 is EmptyTitle && final(db).log() == old(db).log(),
        trim(title@).len() > 0 ==> final(db).log() == old(db).log().push(insert_call(title@, 2)) + refusal(r),
        trim(title@).len() > 0 && r is Err ==> r->Err_0 is Sqlite,
{
    add_task_with_priority(db, title, 2)
}

/// Inserts a task with a priority; returns its id. The title is trimmed;
/// an empty title, then an invalid priority, are refused before any SQL.
pub fn add_task_with_priority(db: &mut TaskDb, title: &str, priority: i64) -> (r: Result<i64, TaskError>)
    ensures
        match r {
            Ok(id) => final(db).answers() == old(db).answers().push(SqlAnswer::RowId(id)),
            Err(_) => final(db).answers() == old(db).answers(),
        },
        trim(title@).len() == 0 ==> r is Err && r->Err_0 is EmptyTitle && final(db).log() == old(db).log(),
        trim(title@).len() > 0 && !valid_priority(priority as int) ==> r is Err
            && rejects_priority(r->Err_0, priority) && final(db).log() == old(db).log(),
        trim(title@).len() > 0 && valid_priority(priority as int) ==> final(db).log() == old(db).log().push(
            insert_call(title@, priority),
        ) + refusal(r),
        trim(title@).len() > 0 && valid_priority(priority as int) && r is Err ==> r->Err_0 is Sqlite,
{
    insert_on(&db.conn, &mut db.log, &mut db.answers, title, priority)
}

/// The inserts of a batch of titles, each with priority 2.
pub open spec fn insert_calls(titles: Seq<&str>) -> Seq<SqlCall> {
    titles.map_values(|t: &str| insert_call(t@, 2))
}

/// Inserts every title inside one transaction, in order; the first failed
/// insert rolls the whole batch back, and no `COMMIT` is handed over.
/// On success the ids come in the order of the titles.
pub fn add_tasks_transactional(db: &mut TaskDb, titles: &[&str]) -> (r: Result<Vec<i64>, TaskError>)
    ensures
        r matches Ok(ids) ==> final(db).answers() == old(db).answers() + ids@.map_values(|id: i64| SqlAnswer::RowId(id)),
        r matches Ok(ids) ==> ids@.len() == titles@.len()
            && (forall|i: int| 0 <= i < titles@.len() ==> trim(#[trigger] titles@[i]@).len() > 0)
            && final(db).log() == old(db).log().push(SqlCall::Begin) + insert_calls(titles@) + seq![SqlCall::Commit],
        r matches Err(TaskError::EmptyTitle) ==> exists|i: int| 0 <= i < titles@.len()
            && trim(#[trigger] titles@[i]@).len() == 0
            && (forall|k: int| 0 <= k < i ==> trim(#[trigger] titles@[k]@).len() > 0)
            && final(db).log() == (old(db).log().push(SqlCall::Begin) + insert_calls(titles@.take(i))).push(
                SqlCall::Rollback,
            ),
        r matches Err(TaskError::Sqlite { .. }) ==> {
            // the transaction could not begin
            ||| final(db).log() == old(db).log().push(SqlCall::Begin)
            // SQLite refused insert `i`: the batch is rolled back, never committed
            ||| exists|i: int| 0 <= i < titles@.len()
                && (forall|k: int| 0 <= k <= i ==> trim(#[trigger] titles@[k]@).len() > 0)
                && final(db).log() == (old(db).log().push(SqlCall::Begin) + insert_calls(titles@.take(i))).push(
                    insert_call(titles@[i]@, 2),
                ).push(SqlCall::Refused).push(SqlCall::Rollback)
            // every insert went through, the commit failed
            ||| (forall|k: int| 0 <= k < titles@.len() ==> trim(#[trigger] titles@[k]@).len() > 0)
                && final(db).log() == old(db).log().push(SqlCall::Begin) + insert_calls(titles@) + seq![SqlCall::Commit]
        },
        r is Err ==> r->Err_0 is EmptyTitle || r->Err_0 is Sqlite,
{
    let transaction = match begin(&mut db.conn, &mut db.log) {
        Ok(t) => t,
        Err(e) => return Err(sqlite_failure(e)),
    };
    let ghost begun = db.log@;
    let ghost answers0 = db.answers@;
    let mut ids: Vec<i64> = Vec::new();
    let mut i: usize = 0;
    assert(insert_calls(titles@.take(0)) =~= Seq::<SqlCall>::empty());
    assert(begun + insert_calls(titles@.take(0)) =~= begun);
    while i < titles.len()
        invariant
            i <= titles@.len(),
            ids@.len() == i,
            forall|k: int| 0 <= k < i ==> trim(#[trigger] titles@[k]@).len() > 0,
            begun == old(db).log().push(SqlCall::Begin),
            db.log@ == begun + insert_calls(titles@.take(i as int)),
            answers0 == old(db).answers(),
            db.answers@ == answers0 + ids@.map_values(|id: i64| SqlAnswer::RowId(id)),
        decreases titles@.len() - i,
    {
        let ghost before = db.log@;
        let id = match insert_on(transaction_connection(&transaction), &mut db.log, &mut db.answers, titles[i], 2) {
            Ok(id) => {
                assert(db.log@ =~= before.push(insert_call(titles@[i as int]@, 2)));
                id
            },
            Err(e) => {
                proof {
                    if e is EmptyTitle {
                        assert(trim(titles@[i as int]@).len() == 0);
                        assert(db.log@ == begun + insert_calls(titles@.take(i as int)));
                    } else {
                        assert(trim(titles@[i as int]@).len() > 0);
                        assert(db.log@ =~= (begun + insert_calls(titles@.take(i as int))).push(
                            insert_call(titles@[i as int]@, 2),
                        ).push(SqlCall::Refused));
                    }
                }
                let _ = rollback(transaction, &mut db.log);
                proof {
                    if e is Sqlite {
                        let j = i as int;
                        assert(forall|k: int| 0 <= k <= j ==> trim(#[trigger] titles@[k]@).len() > 0);
                    }
                }
                return Err(e);
            },
        };
        proof {
            assert(titles@.take(i + 1) =~= titles@.take(i as int).push(titles@[i as int]));
            assert(insert_calls(titles@.take(i + 1)) =~= insert_calls(titles@.take(i as int)).push(
                insert_call(titles@[i as int]@, 2),
            ));
        }
        let ghost ids0 = ids@;
        ids.push(id);
        assert(ids@.map_values(|id: i64| SqlAnswer::RowId(id)) =~= ids0.map_values(|id: i64| SqlAnswer::RowId(id)).push(
            SqlAnswer::RowId(id),
        ));
        i = i + 1;
    }
    proof {
        assert(titles@.take(titles@.len() as int) =~= titles@);
    }
    match commit(transaction, &mut db.log) {
        Ok(()) => Ok(ids),
        Err(e) => Err(sqlite_failure(e)),
    }
}

/// Reads an update's row count: `true` when exactly one row changed.
pub fn changed_one(outcome: rusqlite::Result<usize>) -> (r: Result<bool, TaskError>)
    ensures
        outcome matches Ok(n) ==> r matches Ok(b) && b == (n == 1),
        outcome is Err ==> r is Err && r->Err_0 is Sqlite,
{
    match outcome {
        Ok(n) => Ok(n == 1),
        Err(e) => Err(sqlite_failure(e)),
    }
}

/// The statement that marks an open task done.
pub open spec fn complete_sql() -> Seq<char> {
    "UPDATE tasks SET done = 1 WHERE id = ?1 AND done = 0"@
}

/// The statement that renames a task.
pub open spec fn rename_sql() -> Seq<char> {
    "UPDATE tasks SET title = ?1 WHERE id = ?2"@
}

/// The statement that changes a task's priority.
pub open spec fn set_priority_sql() -> Seq<char> {
    "UPDATE tasks SET priority = ?1 WHERE id = ?2"@
}

/// The statement that deletes a task.
pub open spec fn delete_sql() -> Seq<char> {
    "DELETE FROM tasks WHERE id = ?1"@
}

/// Marks a task done; `true` only when it went from open to done, so a
/// repeated call answers `false`.
pub fn complete_task(db: &mut TaskDb, id: i64) -> (r: Result<bool, TaskError>)
    ensures
        changed_answer(old(db).answers(), final(db).answers(), r),
        final(db).log() == old(db).log().push(SqlCall::Execute { sql: complete_sql(), args: seq![SqlValue::Integer(id)] })
            + refusal(r),
        r is Err ==> r->Err_0 is Sqlite,
{
    let args = vec![SqlArg::Integer(id)];
    assert(arg_values(args@) =~= seq![SqlValue::Integer(id)]);
    changed_one(update(db, "UPDATE tasks SET done = 1 WHERE id = ?1 AND done = 0", args.as_slice()))
}

/// Renames a task (trimmed title); `false` for an unknown id. A blank title
/// is refused before any SQL.
pub fn rename_task(db: &mut TaskDb, id: i64, title: &str) -> (r: Result<bool, TaskError>)
    ensures
        trim(title@).len() == 0 ==> final(db).answers() == old(db).answers(),
        trim(title@).len() > 0 ==> changed_answer(old(db).answers(), final(db).answers(), r),
        trim(title@).len() == 0 ==> r is Err && r->Err_0 is EmptyTitle && final(db).log() == old(db).log(),
        trim(title@).len() > 0 ==> final(db).log() == old(db).log().push(
            SqlCall::Execute { sql: rename_sql(), args: seq![SqlValue::Text(trim(title@)), SqlValue::Integer(id)] },
        ) + refusal(r),
        trim(title@).len() > 0 && r is Err ==> r->Err_0 is Sqlite,
{
    let title = validate_title(title)?;
    let args = vec![SqlArg::Text(String::from_str(title)), SqlArg::Integer(id)];
    assert(arg_values(args@) =~= seq![SqlValue::Text(title@), SqlValue::Integer(id)]);
    changed_one(update(db, "UPDATE tasks SET title = ?1 WHERE id = ?2", args.as_slice()))
}

/// Changes a task's priority; `false` for an unknown id. An invalid
/// priority is refused before any SQL.
pub fn set_priority(db: &mut TaskDb, id: i64, priority: i64) -> (r: Result<bool, TaskError>)
    ensures
        !valid_priority(priority as int) ==> final(db).answers() == old(db).answers(),
        valid_priority(priority as int) ==> changed_answer(old(db).answers(), final(db).answers(), r),
        !valid_priority(priority as int) ==> r is Err && rejects_priority(r->Err_0, priority)
            && final(db).log() == old(db).log(),
        valid_priority(priority as int) ==> final(db).log() == old(db).log().push(
            SqlCall::Execute { sql: set_priority_sql(), args: seq![SqlValue::Integer(priority), SqlValue::Integer(id)] },
        ) + refusal(r),
        valid_priority(priority as int) && r is Err ==> r->Err_0 is Sqlite,
{
    let priority = validate_priority(priority)?;
    let args = vec![SqlArg::Integer(priority), SqlArg::Integer(id)];
    assert(arg_values(args@) =~= seq![SqlValue::Integer(priority), SqlValue::Integer(id)]);
    changed_one(update(db, "UPDATE tasks SET priority = ?1 WHERE id = ?2", args.as_slice()))
}

/// Deletes a task; `false` for an unknown id.
pub fn delete_task(db: &mut TaskDb, id: i64) -> (r: Result<bool, TaskError>)
    ensures
        changed_answer(old(db).answers(), final(db).answers(), r),
        final(db).log() == old(db).log().push(SqlCall::Execute { sql: delete_sql(), args: seq![SqlValue::Integer(id)] })
            + refusal(r),
        r is Err ==> r->Err_0 is Sqlite,
{
    let args = vec![SqlArg::Integer(id)];
    assert(arg_values(args@) =~= seq![SqlValue::Integer(id)]);
    changed_one(update(db, "DELETE FROM tasks WHERE id = ?1", args.as_slice()))
}

/// The counts of all tasks and of done tasks give the statistics; the open
/// count is their difference (wrapping, as `i64` subtraction does in a
/// release build, for counts no database produces).
pub fn stats_from_counts(total: i64, done: i64) -> (s: Stats)
    ensures
        s.total == total,
        s.done == done,
        i64::MIN <= total - done <= i64::MAX ==> s.open == total - done,
{
    Stats { total, done, open: total.wrapping_sub(done) }
}

/// The first two columns of a row as integers.
fn two_integers(row: &Row<'_>) -> rusqlite::Result<(i64, i64)> {
    let a = column::<i64>(row, 0)?;
    let b = column::<i64>(row, 1)?;
    Ok((a, b))
}

/// The query that counts all tasks and done tasks.
pub open spec fn stats_sql() -> Seq<char> {
    "SELECT COUNT(*), COALESCE(SUM(done), 0) FROM tasks"@
}

/// Totals: all tasks, done ones, open ones (an empty table gives zeros).
pub fn stats(db: &mut TaskDb) -> (r: Result<Stats, TaskError>)
    ensures
        match r {
            Ok(s) => final(db).answers() == old(db).answers().push(SqlAnswer::Totals(s.total, s.done)),
            Err(_) => final(db).answers() == old(db).answers(),
        },
        final(db).log() == old(db).log().push(SqlCall::Query { sql: stats_sql(), args: Seq::empty() }),
        r matches Ok(s) ==> (i64::MIN <= s.total - s.done <= i64::MAX ==> s.open == s.total - s.done),
        r is Err ==> r->Err_0 is Sqlite,
{
    match query_one(&db.conn, &mut db.log, "SELECT COUNT(*), COALESCE(SUM(done), 0) FROM tasks", two_integers) {
        Ok((total, done)) => {
            proof {
                db.answers@ = db.answers@.push(SqlAnswer::Totals(total, done));
            }
            Ok(stats_from_counts(total, done))
        },
        Err(e) => Err(sqlite_failure(e)),
    }
}

/// The detail column of a query-plan row.
fn plan_detail(row: &Row<'_>) -> rusqlite::Result<String> {
    column::<String>(row, 3)
}

/// The statement that explains how `sql` would run.
pub fn explain_statement(sql: &str) -> (s: String)
    ensures
        s@ == "EXPLAIN QUERY PLAN "@ + sql@,
{
    let mut s = String::from_str("EXPLAIN QUERY PLAN ");
    s.append(sql);
    s
}

/// The detail lines of `EXPLAIN QUERY PLAN` for a fixed statement, to see
/// whether an index is used. `sql` must be the program's own text, never
/// user input.
pub fn query_plan(db: &mut TaskDb, sql: &str) -> (r: Result<Vec<String>, TaskError>)
    ensures
        match r {
            Ok(lines) => final(db).answers() == old(db).answers().push(
                SqlAnswer::Details(lines@.map_values(|l: String| l@)),
            ),
            Err(_) => final(db).answers() == old(db).answers(),
        },
        final(db).log() == old(db).log().push(
            SqlCall::Query { sql: "EXPLAIN QUERY PLAN "@ + sql@, args: Seq::empty() },
        ),
        r is Err ==> r->Err_0 is Sqlite,
{
    let explain = explain_statement(sql);
    let args: Vec<SqlArg> = Vec::new();
    assert(arg_values(args@) =~= Seq::<SqlValue>::empty());
    match query_rows(&db.conn, &mut db.log, explain.as_str(), args.as_slice(), plan_detail) {
        Ok(lines) => {
            proof {
                db.answers@ = db.answers@.push(SqlAnswer::Details(lines@.map_values(|l: String| l@)));
            }
            Ok(lines)
        },
        Err(e) => Err(sqlite_failure(e)),
    }
}

/// The titles of a task list, in order.
pub fn titles(tasks: &[Task]) -> (r: Vec<&str>)
    ensures
        r@.len() == tasks@.len(),
        forall|i: int| 0 <= i < tasks@.len() ==> #[trigger] r@[i]@ == tasks@[i].title@,
{
    let mut r: Vec<&str> = Vec::new();
    let mut i: usize = 0;
    while i < tasks.len()
        invariant
            i <= tasks@.len(),
            r@.len() == i,
            forall|k: int| 0 <= k < i ==> #[trigger] r@[k]@ == tasks@[k].title@,
        decreases tasks@.len() - i,
    {
        r.push(tasks[i].title.as_str());
        i = i + 1;
    }
    r
}

} // verus!
