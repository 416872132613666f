use dotlanth::db::{DotDb, RunStatus};
use tempfile::TempDir;

#[test]
fn open_in_creates_db_and_runs_migrations() {
    let temp = TempDir::new().expect("temp dir must create");
    let root = temp.path().to_str().expect("temp path must be utf-8");
    let mut db = DotDb::open_in(root).expect("db open must succeed");

    let expected = DotDb::default_path_in(root);
    assert_eq!(db.path(), expected.as_str());
    assert!(
        std::path::Path::new(expected.as_str()).exists(),
        "sqlite file should exist after open"
    );

    let run_id = db.create_run().expect("run must create");
    db.finalize_run(run_id, RunStatus::Succeeded)
        .expect("run must finalize");

    let conn = rusqlite::Connection::open(expected.as_str()).expect("db must reopen");
    let (status, created_at_ms, finalized_at_ms): (String, i64, Option<i64>) = conn
        .query_row(
            "SELECT status, created_at_ms, finalized_at_ms FROM runs WHERE id = ?1",
            [run_id.as_i64()],
            |row| Ok((row.get(0)?, row.get(1)?, row.get(2)?)),
        )
        .expect("run row must exist");

    assert_eq!(status, "succeeded");
    assert!(created_at_ms > 0);
    assert!(finalized_at_ms.unwrap_or(0) >= created_at_ms);
}

#[test]
fn run_logs_roundtrip_in_order() {
    let temp = TempDir::new().expect("temp dir must create");
    let root = temp.path().to_str().expect("temp path must be utf-8");
    let mut db = DotDb::open_in(root).expect("db open must succeed");

    let run_id = db.create_run().expect("run must create");
    db.append_run_logs(
        run_id,
        &vec!["first".to_string(), "second".to_string(), "third".to_string()],
    )
    .expect("append must succeed");

    let logs = db.run_logs(run_id).expect("query must succeed");
    let lines: Vec<_> = logs.into_iter().map(|entry| entry.line).collect();
    assert_eq!(lines, vec!["first", "second", "third"]);
}

#[test]
fn state_kv_set_get_and_overwrite() {
    let temp = TempDir::new().expect("temp dir must create");
    let root = temp.path().to_str().expect("temp path must be utf-8");
    let mut db = DotDb::open_in(root).expect("db open must succeed");

    assert_eq!(db.state_get("ns", "k").unwrap(), None);

    db.state_set("ns", "k", b"v1").expect("set must succeed");
    assert_eq!(db.state_get("ns", "k").unwrap().as_deref(), Some(&b"v1"[..]));

    db.state_set("ns", "k", b"v2").expect("overwrite must succeed");
    assert_eq!(db.state_get("ns", "k").unwrap().as_deref(), Some(&b"v2"[..]));
}

#[test]
fn run_log_order_is_kept_across_single_and_batch_appends() {
    let temp = TempDir::new().expect("temp dir must create");
    let root = temp.path().to_str().expect("temp path must be utf-8");
    let mut db = DotDb::open_in(root).expect("db open must succeed");

    let run_id = db.create_run().expect("run must create");
    db.append_run_log(run_id, "a").expect("append must succeed");
    db.append_run_logs(run_id, &vec!["b".to_string(), "c".to_string()])
        .expect("batch append must succeed");
    db.append_run_log(run_id, "d").expect("append must succeed");

    let logs = db.run_logs(run_id).expect("query must succeed");
    let lines: Vec<_> = logs.iter().map(|entry| entry.line.as_str()).collect();
    assert_eq!(lines, vec!["a", "b", "c", "d"]);
    let mut previous = i64::MIN;
    for entry in &logs {
        assert!(entry.id > previous, "ids must be strictly increasing");
        previous = entry.id;
    }
}

#[test]
fn finalizing_a_missing_run_reports_run_not_found() {
    let temp = TempDir::new().expect("temp dir must create");
    let root = temp.path().to_str().expect("temp path must be utf-8");
    let mut db = DotDb::open_in(root).expect("db open must succeed");

    let run_id = db.create_run().expect("run must create");
    db.finalize_run(run_id, RunStatus::Failed).expect("run must finalize");

    let missing = rusqlite::Connection::open(db.path())
        .and_then(|conn| conn.execute("DELETE FROM runs", []))
        .expect("delete must succeed");
    assert!(missing >= 1);
    let error = db
        .finalize_run(run_id, RunStatus::Succeeded)
        .expect_err("finalize of deleted run must fail");
    assert!(matches!(
        error,
        dotlanth::db::DotDbError::RunNotFound { .. }
    ));
}

#[test]
fn opening_a_newer_schema_is_refused_with_both_versions() {
    let temp = TempDir::new().expect("temp dir must create");
    let root = temp.path().to_str().expect("temp path must be utf-8");
    {
        let _db = DotDb::open_in(root).expect("db open must succeed");
    }
    let path = DotDb::default_path_in(root);
    let conn = rusqlite::Connection::open(path.as_str()).expect("db must reopen");
    conn.pragma_update(None, "user_version", 99).expect("pragma must set");
    drop(conn);

    let error = DotDb::open_in(root).expect_err("newer schema must be refused");
    assert!(matches!(
        error,
        dotlanth::db::DotDbError::SchemaVersionTooNew {
            current: 99,
            supported: 1,
        }
    ));
}

#[test]
fn schema_and_finalize_decisions_are_exact() {
    assert!(dotlanth::db::schema_check(0).is_ok());
    assert!(dotlanth::db::schema_check(1).is_ok());
    assert!(matches!(
        dotlanth::db::schema_check(2),
        Err(dotlanth::db::DotDbError::SchemaVersionTooNew {
            current: 2,
            supported: 1,
        })
    ));

    let run_id = {
        let temp = TempDir::new().expect("temp dir must create");
        let root = temp.path().to_str().expect("temp path must be utf-8");
        let mut db = DotDb::open_in(root).expect("db open must succeed");
        db.create_run().expect("run must create")
    };
    assert!(dotlanth::db::finalize_outcome(run_id, 1).is_ok());
    assert!(matches!(
        dotlanth::db::finalize_outcome(run_id, 0),
        Err(dotlanth::db::DotDbError::RunNotFound { .. })
    ));

    let rows = vec![(1_i64, 10_i64, "a".to_string()), (2, 20, "b".to_string())];
    let entries = dotlanth::db::run_log_entries_from_rows(&rows);
    assert_eq!(entries.len(), 2);
    assert_eq!(entries[0].id, 1);
    assert_eq!(entries[0].created_at_ms, 10);
    assert_eq!(entries[0].line, "a");
    assert_eq!(entries[1].id, 2);
    assert_eq!(entries[1].created_at_ms, 20);
    assert_eq!(entries[1].line, "b");
}
