//! The embedded run store: runs, append-only per-run log lines, and a
//! namespaced key/value table, on SQLite through rusqlite.
//!
//! What the database answers depends on the disk, so the store's contracts
//! pin down the error mapping and the shapes handed back; the behavioural
//! guarantees (ordering, overwrite) are exercised by tests against the real
//! database.

use vstd::prelude::*;
use vstd::string::StringExecFns;

use rusqlite::OptionalExtension;

use crate::strutil::usize_to_string;

verus! {

/// Declares rusqlite::Connection so that it can stand in fields and
/// signatures; the type stays opaque to verification.
#[verifier::external_type_specification]
#[verifier::external_body]
pub struct ExConnection(rusqlite::Connection);

/// Declares rusqlite::Error, carried opaquely inside `DotDbError::Sql`.
#[verifier::external_type_specification]
#[verifier::external_body]
pub struct ExSqlError(rusqlite::Error);

/// Relies on rusqlite::Connection::open: opens the SQLite database at the
/// path, creating the file if missing.
#[verifier::external_body]
fn sql_open(path: &str) -> Result<rusqlite::Connection, rusqlite::Error> {
    rusqlite::Connection::open(path)
}

/// Relies on rusqlite::Connection::execute_batch: runs the given SQL
/// statements in order.
#[verifier::external_body]
fn sql_exec_batch(conn: &rusqlite::Connection, sql: &str) -> Result<(), rusqlite::Error> {
    conn.execute_batch(sql)
}

/// Relies on rusqlite::Connection::execute with a text and an integer
/// parameter; returns the number of changed rows.
#[verifier::external_body]
fn sql_execute_str_i64(
    conn: &rusqlite::Connection,
    sql: &str,
    p1: &str,
    p2: i64,
) -> Result<usize, rusqlite::Error> {
    conn.execute(sql, (p1, p2))
}

/// Relies on rusqlite::Connection::execute with a text and two integer
/// parameters; returns the number of changed rows.
#[verifier::external_body]
fn sql_execute_str_i64_i64(
    conn: &rusqlite::Connection,
    sql: &str,
    p1: &str,
    p2: i64,
    p3: i64,
) -> Result<usize, rusqlite::Error> {
    conn.execute(sql, (p1, p2, p3))
}

/// Relies on rusqlite::Connection::execute with two integer parameters and a
/// text one; returns the number of changed rows.
#[verifier::external_body]
fn sql_execute_i64_i64_str(
    conn: &rusqlite::Connection,
    sql: &str,
    p1: i64,
    p2: i64,
    p3: &str,
) -> Result<usize, rusqlite::Error> {
    conn.execute(sql, (p1, p2, p3))
}

/// Relies on rusqlite::Connection::execute with two text parameters, a blob
/// and an integer; returns the number of changed rows.
#[verifier::external_body]
fn sql_execute_kv(
    conn: &rusqlite::Connection,
    sql: &str,
    p1: &str,
    p2: &str,
    p3: &[u8],
    p4: i64,
) -> Result<usize, rusqlite::Error> {
    conn.execute(sql, (p1, p2, p3, p4))
}

/// Relies on rusqlite::Connection::last_insert_rowid: the rowid of the most
/// recent successful INSERT on this connection.
#[verifier::external_body]
fn sql_last_insert_rowid(conn: &rusqlite::Connection) -> i64 {
    conn.last_insert_rowid()
}

/// Relies on rusqlite::Connection::query_row: reads the connection's
/// `user_version` pragma.
#[verifier::external_body]
fn sql_user_version(conn: &rusqlite::Connection) -> Result<u32, rusqlite::Error> {
    conn.query_row("PRAGMA user_version", [], |row| row.get(0))
}

/// Relies on rusqlite::Connection::prepare and Statement::query_map: returns
/// each selected row as an `(id, created_at_ms, line)` triple, in query
/// order.
#[verifier::external_body]
fn sql_query_logs(
    conn: &rusqlite::Connection,
    sql: &str,
    run_id: i64,
) -> Result<Vec<(i64, i64, String)>, rusqlite::Error> {
    let mut stmt = conn.prepare(sql)?;
    let rows = stmt.query_map((run_id,), |row| Ok((row.get(0)?, row.get(1)?, row.get(2)?)))?;
    rows.collect()
}

/// Relies on rusqlite::Connection::query_row and OptionalExtension::optional:
/// the selected blob, or `None` when no row matches.
#[verifier::external_body]
fn sql_query_state(
    conn: &rusqlite::Connection,
    sql: &str,
    p1: &str,
    p2: &str,
) -> Result<Option<Vec<u8>>, rusqlite::Error> {
    conn.query_row(sql, (p1, p2), |row| row.get(0)).optional()
}

/// Relies on fs_err::create_dir_all: creates the directory and every missing
/// parent; the error is rendered as its message.
#[verifier::external_body]
fn fs_create_dir_all(path: &str) -> Result<(), String> {
    fs_err::create_dir_all(path).map_err(|error| error.to_string())
}

/// Relies on std::time::SystemTime: milliseconds since the Unix epoch, 0 for
/// a clock reading before it, saturating at the largest value.
#[verifier::external_body]
pub fn now_ms() -> (r: i64)
    ensures
        r >= 0,
{
    let Ok(delta) = std::time::SystemTime::now().duration_since(std::time::UNIX_EPOCH) else {
        return 0;
    };
    i64::try_from(delta.as_millis()).unwrap_or(i64::MAX)
}

/// A stable id for a persisted run.
#[derive(Clone, Copy, Debug, PartialEq, Eq, Structural, Hash, PartialOrd, Ord)]
pub struct RunId(i64);

impl RunId {
    /// The raw id, as a specification value.
    pub closed spec fn spec_i64(self) -> i64 {
        self.0
    }

    /// Returns the raw SQLite integer id.
    pub fn as_i64(self) -> (r: i64)
        ensures
            r == self.spec_i64(),
    {
        self.0
    }
}

/// A run status persisted in the store.
#[derive(Clone, Copy, Debug, PartialEq, Eq, Structural)]
pub enum RunStatus {
    /// Run created but not yet finalized.
    Running,
    /// Run finished successfully.
    Succeeded,
    /// Run finalized with a failure.
    Failed,
}

/// The stable text a status is stored as.
pub open spec fn run_status_name(s: RunStatus) -> Seq<char> {
    match s {
        RunStatus::Running => "running"@,
        RunStatus::Succeeded => "succeeded"@,
        RunStatus::Failed => "failed"@,
    }
}

impl RunStatus {
    pub fn as_str(self) -> (r: &'static str)
        ensures
            r@ == run_status_name(self),
    {
        match self {
            RunStatus::Running => "running",
            RunStatus::Succeeded => "succeeded",
            RunStatus::Failed => "failed",
        }
    }
}

/// A single log line appended to a run.
#[derive(Debug, PartialEq)]
pub struct RunLogEntry {
    /// Monotonic id used for stable ordering.
    pub id: i64,
    /// Timestamp (Unix millis) captured at insert time.
    pub created_at_ms: i64,
    /// The log line payload.
    pub line: String,
}

/// A store failure: I/O around the database file, SQL, a schema newer than
/// this build, or a missing run.
#[derive(Debug)]
pub enum DotDbError {
    Io { action: &'static str, path: Option<String>, message: String },
    Sql { action: &'static str, source: rusqlite::Error },
    SchemaVersionTooNew { current: u32, supported: u32 },
    RunNotFound { run_id: RunId },
}

/// The number of schema migrations this build knows.
pub open spec fn spec_migrations_count() -> u32 {
    1
}

pub fn migrations_count() -> (r: u32)
    ensures
        r == spec_migrations_count(),
{
    1
}

/// The schema-version decision: a store written by a newer build — its
/// stored version above what this build knows — is refused, exactly then.
pub fn schema_check(current: u32) -> (r: Result<(), DotDbError>)
    ensures
        current <= spec_migrations_count() <==> r is Ok,
        current > spec_migrations_count() ==> r == Err::<(), DotDbError>(
            DotDbError::SchemaVersionTooNew { current, supported: spec_migrations_count() },
        ),
{
    let supported = migrations_count();
    if current > supported {
        Err(DotDbError::SchemaVersionTooNew { current, supported })
    } else {
        Ok(())
    }
}

/// The finalize decision over the changed-row count: zero changed rows
/// means the id named no run, exactly then.
pub fn finalize_outcome(run_id: RunId, updated: usize) -> (r: Result<(), DotDbError>)
    ensures
        updated == 0 <==> r == Err::<(), DotDbError>(DotDbError::RunNotFound { run_id }),
        updated > 0 <==> r is Ok,
{
    if updated == 0 {
        Err(DotDbError::RunNotFound { run_id })
    } else {
        Ok(())
    }
}

/// Converts queried rows to log entries: one entry per row, in order, each
/// mirroring its row's id, timestamp and line.
pub fn run_log_entries_from_rows(rows: &Vec<(i64, i64, String)>) -> (r: Vec<RunLogEntry>)
    ensures
        r@.len() == rows@.len(),
        forall|i: int|
            0 <= i < rows@.len() ==> {
                &&& (#[trigger] r@[i]).id == rows@[i].0
                &&& r@[i].created_at_ms == rows@[i].1
                &&& r@[i].line@ == rows@[i].2@
            },
{
    let mut entries: Vec<RunLogEntry> = Vec::new();
    let mut i: usize = 0;
    while i < rows.len()
        invariant
            i <= rows@.len(),
            entries@.len() == i,
            forall|j: int|
                0 <= j < i ==> {
                    &&& (#[trigger] entries@[j]).id == rows@[j].0
                    &&& entries@[j].created_at_ms == rows@[j].1
                    &&& entries@[j].line@ == rows@[j].2@
                },
        decreases rows@.len() - i,
    {
        let (id, created_at_ms, line) = (rows[i].0, rows[i].1, rows[i].2.clone());
        entries.push(RunLogEntry { id, created_at_ms, line });
        i = i + 1;
    }
    entries
}

/// The schema statements of one migration version.
fn migration_sql(version: u32) -> &'static str {
    if version == 1 {
        "CREATE TABLE IF NOT EXISTS runs (\n    id INTEGER PRIMARY KEY AUTOINCREMENT,\n    status TEXT NOT NULL,\n    created_at_ms INTEGER NOT NULL,\n    finalized_at_ms INTEGER\n);\n\nCREATE TABLE IF NOT EXISTS run_logs (\n    id INTEGER PRIMARY KEY AUTOINCREMENT,\n    run_id INTEGER NOT NULL,\n    created_at_ms INTEGER NOT NULL,\n    line TEXT NOT NULL,\n    FOREIGN KEY(run_id) REFERENCES runs(id) ON DELETE CASCADE\n);\n\nCREATE INDEX IF NOT EXISTS idx_run_logs_run_id_id\n    ON run_logs(run_id, id);\n\nCREATE TABLE IF NOT EXISTS state_kv (\n    namespace TEXT NOT NULL,\n    key TEXT NOT NULL,\n    value BLOB NOT NULL,\n    updated_at_ms INTEGER NOT NULL,\n    PRIMARY KEY(namespace, key)\n);\n"
    } else {
        ""
    }
}

/// A local-first SQLite-backed store.
#[derive(Debug)]
pub struct DotDb {
    conn: rusqlite::Connection,
    path: String,
}

impl DotDb {
    /// The stored database file path, as a specification value.
    pub closed spec fn spec_path(&self) -> Seq<char> {
        self.path@
    }

    /// Returns the default store path within `root`:
    /// `<root>/.dotlanth/dotdb.sqlite`.
    pub fn default_path_in(root: &str) -> (r: String)
        ensures
            r@ == root@ + "/.dotlanth/dotdb.sqlite"@,
    {
        let mut s = String::from_str(root);
        s.append("/.dotlanth/dotdb.sqlite");
        s
    }

    /// Opens (and creates if missing) the default store within `root`.
    pub fn open_in(root: &str) -> (r: Result<DotDb, DotDbError>)
        ensures
            r matches Ok(db) ==> db.spec_path() == root@ + "/.dotlanth/dotdb.sqlite"@,
    {
        let path = Self::default_path_in(root);
        Self::open(path)
    }

    /// Opens (and creates if missing) a store at the provided path.
    ///
    /// This creates missing parent directories, turns foreign keys on, and
    /// runs migrations; it is safe to call multiple times.
    pub fn open(path: String) -> (r: Result<DotDb, DotDbError>)
        ensures
            r matches Ok(db) ==> db.spec_path() == path@,
            r matches Err(DotDbError::SchemaVersionTooNew { current, supported }) ==> supported
                == spec_migrations_count() && current > spec_migrations_count(),
    {
        ensure_parent_dir_exists(path.as_str())?;
        let conn = match sql_open(path.as_str()) {
            Ok(conn) => conn,
            Err(source) => {
                return Err(DotDbError::Sql { action: "open sqlite connection", source });
            },
        };
        match sql_exec_batch(&conn, "PRAGMA foreign_keys = ON;\n") {
            Ok(()) => {},
            Err(source) => {
                return Err(DotDbError::Sql { action: "configure sqlite connection", source });
            },
        }
        let mut db = DotDb { conn, path };
        db.migrate()?;
        Ok(db)
    }

    /// Returns the SQLite file path backing this store.
    pub fn path(&self) -> (r: &str)
        ensures
            r@ == self.spec_path(),
    {
        self.path.as_str()
    }

    /// Creates a new run with status `running` and returns its id.
    pub fn create_run(&mut self) -> (r: Result<RunId, DotDbError>)
        ensures
            final(self).spec_path() == old(self).spec_path(),
            r matches Err(e) ==> e matches DotDbError::Sql { action, .. } && action@
                == "insert run"@,
    {
        let created_at_ms = now_ms();
        match sql_execute_str_i64(
            &self.conn,
            "INSERT INTO runs(status, created_at_ms) VALUES (?1, ?2)",
            RunStatus::Running.as_str(),
            created_at_ms,
        ) {
            Ok(_) => {},
            Err(source) => {
                return Err(DotDbError::Sql { action: "insert run", source });
            },
        }
        Ok(RunId(sql_last_insert_rowid(&self.conn)))
    }

    /// Finalizes a run, persisting its status and finalization timestamp.
    /// When the UPDATE succeeds, the outcome is exactly `finalize_outcome`
    /// of the changed-row count: `RunNotFound` precisely when no row
    /// changed, `Ok` precisely when one did.
    pub fn finalize_run(&mut self, run_id: RunId, status: RunStatus) -> (r: Result<(), DotDbError>)
        ensures
            final(self).spec_path() == old(self).spec_path(),
            r matches Err(e) ==> (e matches DotDbError::Sql { action, .. } && action@
                == "finalize run"@) || e == (DotDbError::RunNotFound { run_id }),
    {
        let finalized_at_ms = now_ms();
        let updated = match sql_execute_str_i64_i64(
            &self.conn,
            "UPDATE runs SET status = ?1, finalized_at_ms = ?2 WHERE id = ?3",
            status.as_str(),
            finalized_at_ms,
            run_id.as_i64(),
        ) {
            Ok(updated) => updated,
            Err(source) => {
                return Err(DotDbError::Sql { action: "finalize run", source });
            },
        };
        finalize_outcome(run_id, updated)
    }

    /// Appends a single log line to a run.
    pub fn append_run_log(&mut self, run_id: RunId, line: &str) -> (r: Result<(), DotDbError>)
        ensures
            final(self).spec_path() == old(self).spec_path(),
    {
        let mut lines: Vec<String> = Vec::new();
        lines.push(String::from_str(line));
        self.append_run_logs(run_id, &lines)
    }

    /// Appends multiple log lines to a run in one SQL transaction: either
    /// all lines are appended, or none.
    pub fn append_run_logs(&mut self, run_id: RunId, lines: &Vec<String>) -> (r: Result<
        (),
        DotDbError,
    >)
        ensures
            final(self).spec_path() == old(self).spec_path(),
    {
        let created_at_ms = now_ms();
        match sql_exec_batch(&self.conn, "BEGIN;\n") {
            Ok(()) => {},
            Err(source) => {
                return Err(DotDbError::Sql { action: "begin log append transaction", source });
            },
        }
        let mut i: usize = 0;
        while i < lines.len()
            invariant
                self.spec_path() == old(self).spec_path(),
            decreases lines@.len() - i,
        {
            match sql_execute_i64_i64_str(
                &self.conn,
                "INSERT INTO run_logs(run_id, created_at_ms, line) VALUES (?1, ?2, ?3)",
                run_id.as_i64(),
                created_at_ms,
                lines[i].as_str(),
            ) {
                Ok(_) => {},
                Err(source) => {
                    let _ = sql_exec_batch(&self.conn, "ROLLBACK;\n");
                    return Err(DotDbError::Sql { action: "insert run log line", source });
                },
            }
            i = i + 1;
        }
        match sql_exec_batch(&self.conn, "COMMIT;\n") {
            Ok(()) => Ok(()),
            Err(source) => Err(DotDbError::Sql { action: "commit log append transaction", source }),
        }
    }

    /// Returns all log lines for a run, in stable `id ASC` order.
    pub fn run_logs(&mut self, run_id: RunId) -> (r: Result<Vec<RunLogEntry>, DotDbError>)
        ensures
            final(self).spec_path() == old(self).spec_path(),
            r matches Err(e) ==> e matches DotDbError::Sql { action, .. } && action@
                == "query run logs"@,
    {
        let rows = match sql_query_logs(
            &self.conn,
            "SELECT id, created_at_ms, line FROM run_logs WHERE run_id = ?1 ORDER BY id ASC",
            run_id.as_i64(),
        ) {
            Ok(rows) => rows,
            Err(source) => {
                return Err(DotDbError::Sql { action: "query run logs", source });
            },
        };
        Ok(run_log_entries_from_rows(&rows))
    }

    /// Sets a state value, inserting or overwriting `(namespace, key)`.
    pub fn state_set(&mut self, namespace: &str, key: &str, value: &[u8]) -> (r: Result<
        (),
        DotDbError,
    >)
        ensures
            final(self).spec_path() == old(self).spec_path(),
            r matches Err(e) ==> e matches DotDbError::Sql { action, .. } && action@
                == "set state kv"@,
    {
        let updated_at_ms = now_ms();
        match sql_execute_kv(
            &self.conn,
            "INSERT INTO state_kv(namespace, key, value, updated_at_ms)\nVALUES (?1, ?2, ?3, ?4)\nON CONFLICT(namespace, key) DO UPDATE SET\n    value = excluded.value,\n    updated_at_ms = excluded.updated_at_ms\n",
            namespace,
            key,
            value,
            updated_at_ms,
        ) {
            Ok(_) => Ok(()),
            Err(source) => Err(DotDbError::Sql { action: "set state kv", source }),
        }
    }

    /// Gets a state value; `Ok(None)` when the key is not present.
    pub fn state_get(&mut self, namespace: &str, key: &str) -> (r: Result<
        Option<Vec<u8>>,
        DotDbError,
    >)
        ensures
            final(self).spec_path() == old(self).spec_path(),
            r matches Err(e) ==> e matches DotDbError::Sql { action, .. } && action@
                == "get state kv"@,
    {
        match sql_query_state(
            &self.conn,
            "SELECT value FROM state_kv WHERE namespace = ?1 AND key = ?2",
            namespace,
            key,
        ) {
            Ok(value) => Ok(value),
            Err(source) => Err(DotDbError::Sql { action: "get state kv", source }),
        }
    }

    /// Applies every migration the store is missing; a store written by a
    /// newer build is refused, through `schema_check` on the stored version.
    fn migrate(&mut self) -> (r: Result<(), DotDbError>)
        ensures
            final(self).spec_path() == old(self).spec_path(),
            r matches Err(DotDbError::SchemaVersionTooNew { current, supported }) ==> supported
                == spec_migrations_count() && current > spec_migrations_count(),
    {
        let current = match sql_user_version(&self.conn) {
            Ok(current) => current,
            Err(source) => {
                return Err(DotDbError::Sql { action: "read sqlite user_version", source });
            },
        };
        schema_check(current)?;
        let target = migrations_count();
        let mut version: u32 = 1;
        while version <= target
            invariant
                self.spec_path() == old(self).spec_path(),
                target == 1,
            decreases target + 1 - version,
        {
            if current < version {
                self.apply_migration(version)?;
            }
            version = version + 1;
        }
        Ok(())
    }

    /// Applies one migration and bumps `user_version`, in one transaction.
    fn apply_migration(&mut self, version: u32) -> (r: Result<(), DotDbError>)
        ensures
            final(self).spec_path() == old(self).spec_path(),
            r matches Err(e) ==> e matches DotDbError::Sql { action, .. } && action@
                == "apply migration"@,
    {
        let mut sql = String::from_str("BEGIN;\n");
        sql.append(migration_sql(version));
        sql.append("\nPRAGMA user_version = ");
        let v = usize_to_string(version as usize);
        sql.append(v.as_str());
        sql.append(";\nCOMMIT;\n");
        match sql_exec_batch(&self.conn, sql.as_str()) {
            Ok(()) => Ok(()),
            Err(source) => {
                let _ = sql_exec_batch(&self.conn, "ROLLBACK;\n");
                Err(DotDbError::Sql { action: "apply migration", source })
            },
        }
    }
}

/// Index of the last `/` in `s`, or `-1` when there is none.
pub open spec fn last_slash(s: Seq<char>) -> int
    decreases s.len(),
{
    if s.len() == 0 {
        -1
    } else if s.last() == '/' {
        s.len() - 1
    } else {
        last_slash(s.drop_last())
    }
}

proof fn lemma_last_slash(s: Seq<char>)
    ensures
        -1 <= last_slash(s) < s.len(),
        last_slash(s) >= 0 ==> s[last_slash(s)] == '/',
        forall|j: int| last_slash(s) < j < s.len() ==> #[trigger] s[j] != '/',
    decreases s.len(),
{
    if s.len() != 0 && s.last() != '/' {
        lemma_last_slash(s.drop_last());
        assert(forall|j: int| 0 <= j < s.len() - 1 ==> s.drop_last()[j] == #[trigger] s[j]);
    }
}

/// Creates the parent directory of a store path: everything before the last
/// `/`; paths without one, or with it leading, name no parent to create.
/// Whether creation succeeds is the filesystem's; a failure is reported
/// against exactly that parent path.
fn ensure_parent_dir_exists(path: &str) -> (r: Result<(), DotDbError>)
    ensures
        last_slash(path@) <= 0 ==> r is Ok,
        r matches Err(e) ==> {
            &&& last_slash(path@) > 0
            &&& e matches DotDbError::Io { action, path: parent, .. }
            &&& action@ == "create database parent directory"@
            &&& parent matches Some(p) && p@ == path@.subrange(0, last_slash(path@))
        },
{
    let chars = crate::strutil::chars_of(path);
    let mut last_sep: Option<usize> = None;
    let mut i: usize = 0;
    while i < chars.len()
        invariant
            i <= chars@.len(),
            match last_sep {
                Some(j) => j < i && chars@[j as int] == '/' && (forall|k: int|
                    j < k < i ==> #[trigger] chars@[k] != '/'),
                None => forall|k: int| 0 <= k < i ==> #[trigger] chars@[k] != '/',
            },
        decreases chars@.len() - i,
    {
        if chars[i] == '/' {
            last_sep = Some(i);
        }
        i = i + 1;
    }
    proof {
        lemma_last_slash(chars@);
        match last_sep {
            Some(j) => {
                if last_slash(chars@) != j {
                    if last_slash(chars@) > j {
                        assert(chars@[last_slash(chars@)] != '/');
                    } else {
                        assert(chars@[j as int] != '/');
                    }
                }
            },
            None => {
                if last_slash(chars@) >= 0 {
                    assert(chars@[last_slash(chars@)] != '/');
                }
            },
        }
    }
    let sep = match last_sep {
        Some(sep) => sep,
        None => {
            return Ok(());
        },
    };
    if sep == 0 {
        return Ok(());
    }
    let parent_chars = crate::parser::subvec(&chars, 0, sep);
    let parent = crate::strutil::string_from_chars(&parent_chars);
    match fs_create_dir_all(parent.as_str()) {
        Ok(()) => Ok(()),
        Err(message) => Err(
            DotDbError::Io {
                action: "create database parent directory",
                path: Some(parent),
                message,
            },
        ),
    }
}

} // verus!
