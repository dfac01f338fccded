//! The answers of the history agree with those that SQLite gives for the same
//! rows.

use rusqlite::{Connection, Row};
use yeti3_cleaner::clock::cutoff_at;
use yeti3_cleaner::convert::from_i64;
use yeti3_cleaner::history::rows::{CleanupEntry, EntryRow, RunRow};
use yeti3_cleaner::history::store::{HistoryDb, HistoryError, LastIds};

const SCHEMA: &str = "
    PRAGMA foreign_keys = ON;
    CREATE TABLE cleanup_runs (
        id INTEGER PRIMARY KEY AUTOINCREMENT,
        started_at INTEGER NOT NULL,
        finished_at INTEGER,
        disk_total INTEGER NOT NULL DEFAULT 0,
        free_before INTEGER NOT NULL DEFAULT 0,
        free_after INTEGER,
        discovered_bytes INTEGER NOT NULL DEFAULT 0,
        reclaimed_bytes INTEGER NOT NULL DEFAULT 0,
        files_deleted INTEGER NOT NULL DEFAULT 0,
        dirs_deleted INTEGER NOT NULL DEFAULT 0,
        skipped INTEGER NOT NULL DEFAULT 0,
        errors INTEGER NOT NULL DEFAULT 0,
        duration_ms INTEGER NOT NULL DEFAULT 0,
        mode TEXT NOT NULL DEFAULT 'max',
        status TEXT NOT NULL DEFAULT 'running'
    );
    CREATE INDEX idx_cleanup_runs_started ON cleanup_runs(started_at DESC);
    CREATE TABLE cleanup_entries (
        id INTEGER PRIMARY KEY AUTOINCREMENT,
        run_id INTEGER NOT NULL REFERENCES cleanup_runs(id) ON DELETE CASCADE,
        category TEXT NOT NULL,
        path TEXT NOT NULL,
        parent_path TEXT,
        kind TEXT NOT NULL,
        bytes_before INTEGER NOT NULL DEFAULT 0,
        bytes_reclaimed INTEGER NOT NULL DEFAULT 0,
        action TEXT NOT NULL,
        rule TEXT NOT NULL,
        result TEXT NOT NULL,
        error TEXT
    );
    CREATE INDEX idx_cleanup_entries_run ON cleanup_entries(run_id);
    CREATE INDEX idx_cleanup_entries_category ON cleanup_entries(run_id, category);
    CREATE INDEX idx_cleanup_entries_path ON cleanup_entries(path);
";

struct Dice(u64);

impl Dice {
    fn roll(&mut self, sides: u64) -> u64 {
        self.0 = self.0.wrapping_mul(6364136223846793005).wrapping_add(1442695040888963407);
        (self.0 >> 33) % sides
    }
}

const CATEGORIES: [&str; 11] = [
    "caches", "logs", "trash", "Zeta", "a", "ab", "Корзина", "Логи", "été", "zz", "𐍈",
];
const RESULTS: [&str; 4] = ["deleted", "error", "skipped", "Deleted"];
const STATUSES: [&str; 3] = ["completed", "running", "failed"];

fn insert_entry(conn: &Connection, entry: &CleanupEntry) -> rusqlite::Result<usize> {
    conn.execute(
        "INSERT INTO cleanup_entries(run_id, category, path, parent_path, kind, bytes_before,
             bytes_reclaimed, action, rule, result, error)
         VALUES(?1, ?2, ?3, ?4, ?5, ?6, ?7, ?8, ?9, ?10, ?11)",
        (
            entry.run_id,
            &entry.category,
            &entry.path,
            &entry.parent_path,
            &entry.kind,
            entry.bytes_before as i64,
            entry.bytes_reclaimed as i64,
            &entry.action,
            &entry.rule,
            &entry.result,
            &entry.error,
        ),
    )
}

fn fill(seed: u64, runs: u64, entries: u64) -> (Connection, HistoryDb) {
    let mut dice = Dice(seed);
    let conn = Connection::open_in_memory().unwrap();
    conn.execute_batch(SCHEMA).unwrap();
    let mut db = HistoryDb::new();
    for _ in 0..runs {
        let started = 1_000_000 + dice.roll(9) as i64;
        let free = dice.roll(1000);
        let mode = "max";
        conn.execute(
            "INSERT INTO cleanup_runs(started_at, disk_total, free_before, discovered_bytes, mode,
                 status)
             VALUES(?1, ?2, ?3, ?4, ?5, 'running')",
            (started, 5000i64, free as i64, 77i64, mode),
        )
        .unwrap();
        let id = db.begin_cleanup_at(started, 5000, free, 77, mode).unwrap();
        assert_eq!(id, conn.last_insert_rowid());
        if dice.roll(4) > 0 {
            let n: Vec<u64> = (0..7).map(|_| dice.roll(500)).collect();
            let status = STATUSES[dice.roll(3) as usize];
            conn.execute(
                "UPDATE cleanup_runs SET finished_at = ?2, free_after = ?3, reclaimed_bytes = ?4,
                     files_deleted = ?5, dirs_deleted = ?6, skipped = ?7, errors = ?8,
                     duration_ms = ?9, status = ?10
                 WHERE id = ?1",
                (
                    id,
                    started + 5,
                    n[0] as i64,
                    n[1] as i64,
                    n[2] as i64,
                    n[3] as i64,
                    n[4] as i64,
                    n[5] as i64,
                    n[6] as i64,
                    status,
                ),
            )
            .unwrap();
            db.finish_cleanup_at(
                started + 5,
                id,
                n[0],
                n[1],
                n[2],
                n[3],
                n[4],
                n[5],
                n[6],
                status,
            );
        }
    }
    for number in 0..entries {
        let entry = CleanupEntry {
            run_id: 1 + dice.roll(runs + 1) as i64,
            category: CATEGORIES[dice.roll(11) as usize].to_string(),
            path: format!("/p/{number}"),
            parent_path: if dice.roll(2) == 0 { None } else { Some("/p".to_string()) },
            kind: "file".to_string(),
            bytes_before: dice.roll(50),
            bytes_reclaimed: dice.roll(4),
            action: "delete".to_string(),
            rule: format!("rule {}", dice.roll(3)),
            result: RESULTS[dice.roll(4) as usize].to_string(),
            error: if dice.roll(2) == 0 { None } else { Some(format!("why {number}")) },
        };
        let stored = insert_entry(&conn, &entry);
        let added = db.add_cleanup_entry(&entry);
        assert_eq!(stored.is_ok(), added.is_ok());
        if added.is_err() {
            assert_eq!(added, Err(HistoryError::UnknownRun));
            assert_eq!(entry.run_id, runs as i64 + 1);
        }
    }
    (conn, db)
}

fn counter(row: &Row, column: usize) -> rusqlite::Result<u64> {
    Ok(from_i64(row.get(column)?))
}

#[test]
fn latest_run_agrees_with_sqlite() {
    for seed in 1..40 {
        let (conn, db) = fill(seed, 1 + seed % 9, 0);
        let run = db.latest_cleanup().unwrap();
        conn.query_row(
            "SELECT id, started_at, finished_at, disk_total, free_before, free_after,
                 discovered_bytes, reclaimed_bytes, files_deleted, dirs_deleted, skipped, errors,
                 duration_ms, status
             FROM cleanup_runs ORDER BY id DESC LIMIT 1",
            [],
            |row| {
                assert_eq!(run.id, row.get::<_, i64>(0)?);
                assert_eq!(run.started_at, row.get::<_, i64>(1)?);
                assert_eq!(run.finished_at, row.get::<_, Option<i64>>(2)?);
                assert_eq!(run.disk_total, counter(row, 3)?);
                assert_eq!(run.free_before, counter(row, 4)?);
                assert_eq!(run.free_after, row.get::<_, Option<i64>>(5)?.map(from_i64));
                assert_eq!(run.discovered_bytes, counter(row, 6)?);
                assert_eq!(run.reclaimed_bytes, counter(row, 7)?);
                assert_eq!(run.files_deleted, counter(row, 8)?);
                assert_eq!(run.dirs_deleted, counter(row, 9)?);
                assert_eq!(run.skipped, counter(row, 10)?);
                assert_eq!(run.errors, counter(row, 11)?);
                assert_eq!(run.duration_ms, counter(row, 12)?);
                assert_eq!(run.status, row.get::<_, String>(13)?);
                Ok(())
            },
        )
        .unwrap();
    }
}

#[test]
fn category_totals_agree_with_sqlite() {
    for seed in 1..60 {
        let runs = 1 + seed % 4;
        let (conn, db) = fill(seed, runs, 60);
        for run_id in 0..runs as i64 + 2 {
            let mut statement = conn
                .prepare(
                    "SELECT category, COALESCE(SUM(bytes_reclaimed), 0),
                         SUM(CASE WHEN result = 'deleted' THEN 1 ELSE 0 END),
                         SUM(CASE WHEN result = 'error' THEN 1 ELSE 0 END)
                     FROM cleanup_entries WHERE run_id = ?1
                     GROUP BY category ORDER BY SUM(bytes_reclaimed) DESC",
                )
                .unwrap();
            let expected: Vec<(String, u64, u64, u64)> = statement
                .query_map([run_id], |row| {
                    Ok((row.get(0)?, counter(row, 1)?, counter(row, 2)?, counter(row, 3)?))
                })
                .unwrap()
                .map(|row| row.unwrap())
                .collect();
            let totals = db.category_totals(run_id).unwrap();
            let found: Vec<(String, u64, u64, u64)> = totals
                .iter()
                .map(|t| (t.category.clone(), t.reclaimed_bytes, t.files, t.errors))
                .collect();
            assert_eq!(found, expected);
        }
    }
}

#[test]
fn latest_errors_agree_with_sqlite() {
    for seed in 1..60 {
        let (conn, db) = fill(seed, seed % 5, if seed % 5 == 0 { 0 } else { 50 });
        let mut statement = conn
            .prepare(
                "SELECT category, path, COALESCE(error, 'Причина не указана')
                 FROM cleanup_entries
                 WHERE run_id = (SELECT MAX(id) FROM cleanup_runs WHERE status != 'running')
                   AND result = 'error' ORDER BY id",
            )
            .unwrap();
        let expected: Vec<(String, String, String)> = statement
            .query_map([], |row| Ok((row.get(0)?, row.get(1)?, row.get(2)?)))
            .unwrap()
            .map(|row| row.unwrap())
            .collect();
        assert_eq!(db.latest_errors(), expected);
    }
}

#[test]
fn statistics_agree_with_sqlite() {
    for seed in 1..80 {
        let (conn, db) = fill(seed, 1 + seed % 30, 90);
        for (now, days) in [(1_000_005i64 + 86_400, Some(1u64)), (0, None), (1_000_100, Some(0))] {
            let cutoff = cutoff_at(now, days);
            let summary = db.statistics_snapshot_at(now, days).unwrap();
            conn.query_row(
                "SELECT COUNT(*), COALESCE(SUM(reclaimed_bytes), 0),
                     COALESCE(SUM(files_deleted), 0), COALESCE(SUM(dirs_deleted), 0),
                     COALESCE(SUM(skipped), 0), COALESCE(SUM(errors), 0)
                 FROM cleanup_runs WHERE started_at >= ?1 AND status != 'running'",
                [cutoff],
                |row| {
                    assert_eq!(summary.runs, counter(row, 0)?);
                    assert_eq!(summary.reclaimed_bytes, counter(row, 1)?);
                    assert_eq!(summary.files_deleted, counter(row, 2)?);
                    assert_eq!(summary.dirs_deleted, counter(row, 3)?);
                    assert_eq!(summary.skipped, counter(row, 4)?);
                    assert_eq!(summary.errors, counter(row, 5)?);
                    Ok(())
                },
            )
            .unwrap();
            let first: u64 = conn
                .query_row(
                    "SELECT free_before FROM cleanup_runs
                     WHERE started_at >= ?1 AND status != 'running'
                     ORDER BY started_at ASC LIMIT 1",
                    [cutoff],
                    |row| counter(row, 0),
                )
                .unwrap_or(0);
            assert_eq!(summary.first_free_before, first);
            let last: u64 = conn
                .query_row(
                    "SELECT COALESCE(free_after, free_before) FROM cleanup_runs
                     WHERE started_at >= ?1 AND status != 'running'
                     ORDER BY started_at DESC LIMIT 1",
                    [cutoff],
                    |row| counter(row, 0),
                )
                .unwrap_or(0);
            assert_eq!(summary.latest_free_after, last);
            let mut statement = conn
                .prepare(
                    "SELECT started_at, reclaimed_bytes, free_before,
                         COALESCE(free_after, free_before), errors
                     FROM cleanup_runs WHERE started_at >= ?1 AND status != 'running'
                     ORDER BY started_at DESC LIMIT 12",
                )
                .unwrap();
            let recent: Vec<(i64, u64, u64, u64, u64)> = statement
                .query_map([cutoff], |row| {
                    Ok((
                        row.get(0)?,
                        counter(row, 1)?,
                        counter(row, 2)?,
                        counter(row, 3)?,
                        counter(row, 4)?,
                    ))
                })
                .unwrap()
                .map(|row| row.unwrap())
                .collect();
            let found: Vec<(i64, u64, u64, u64, u64)> = summary
                .recent_runs
                .iter()
                .map(|r| (r.started_at, r.reclaimed_bytes, r.free_before, r.free_after, r.errors))
                .collect();
            assert_eq!(found, recent);
            let mut statement = conn
                .prepare(
                    "SELECT e.category, COALESCE(SUM(e.bytes_reclaimed), 0), COUNT(*)
                     FROM cleanup_entries e JOIN cleanup_runs r ON r.id = e.run_id
                     WHERE r.started_at >= ?1 AND r.status != 'running'
                     GROUP BY e.category ORDER BY SUM(e.bytes_reclaimed) DESC LIMIT 8",
                )
                .unwrap();
            let categories: Vec<(String, u64, u64)> = statement
                .query_map([cutoff], |row| Ok((row.get(0)?, counter(row, 1)?, counter(row, 2)?)))
                .unwrap()
                .map(|row| row.unwrap())
                .collect();
            let found: Vec<(String, u64, u64)> = summary
                .categories
                .iter()
                .map(|c| (c.category.clone(), c.reclaimed_bytes, c.objects))
                .collect();
            assert_eq!(found, categories);
        }
    }
}

type DetailLine =
    (String, String, Option<String>, String, u64, u64, String, String, Option<String>);

#[test]
fn details_agree_with_sqlite() {
    for seed in 1..60 {
        let (conn, db) = fill(seed, 1 + seed % 6, 40);
        for limit in [0usize, 1, 7, 1000] {
            let (now, days) = (1_000_004i64 + 86_400, Some(1u64));
            let mut statement = conn
                .prepare(
                    "SELECT e.category, e.path, e.parent_path, e.kind, e.bytes_before,
                         e.bytes_reclaimed, e.rule, e.result, e.error
                     FROM cleanup_entries e JOIN cleanup_runs r ON r.id = e.run_id
                     WHERE r.started_at >= ?1 AND r.status != 'running'
                     ORDER BY e.bytes_reclaimed DESC, e.id DESC LIMIT ?2",
                )
                .unwrap();
            let expected: Vec<DetailLine> = statement
                .query_map((cutoff_at(now, days), limit.min(500) as i64), |row| {
                    Ok((
                        row.get(0)?,
                        row.get(1)?,
                        row.get(2)?,
                        row.get(3)?,
                        counter(row, 4)?,
                        counter(row, 5)?,
                        row.get(6)?,
                        row.get(7)?,
                        row.get(8)?,
                    ))
                })
                .unwrap()
                .map(|row| row.unwrap())
                .collect();
            let found: Vec<DetailLine> = db
                .statistics_details_at(now, days, limit)
                .into_iter()
                .map(|d| {
                    (
                        d.category,
                        d.path,
                        d.parent_path,
                        d.kind,
                        d.bytes_before,
                        d.bytes_reclaimed,
                        d.rule,
                        d.result,
                        d.error,
                    )
                })
                .collect();
            assert_eq!(found, expected);
        }
    }
}

#[test]
fn overflowing_sums_fail_as_in_sqlite() {
    let (conn, mut db) = fill(3, 1, 0);
    for number in 0..3 {
        let entry = CleanupEntry {
            run_id: 1,
            category: "caches".to_string(),
            path: format!("/p/{number}"),
            parent_path: None,
            kind: "file".to_string(),
            bytes_before: 0,
            bytes_reclaimed: i64::MAX as u64 / 2,
            action: "delete".to_string(),
            rule: "rule".to_string(),
            result: "deleted".to_string(),
            error: None,
        };
        insert_entry(&conn, &entry).unwrap();
        db.add_cleanup_entry(&entry).unwrap();
        let sum = conn.query_row(
            "SELECT SUM(bytes_reclaimed) FROM cleanup_entries GROUP BY category",
            [],
            |row| row.get::<_, i64>(0),
        );
        assert_eq!(sum.is_err(), number == 2);
        assert_eq!(db.category_totals(1).is_err(), number == 2);
    }
    assert!(matches!(db.category_totals(1), Err(HistoryError::SumOverflow)));
}

const LARGE: [i64; 6] =
    [i64::MAX, i64::MIN, i64::MAX / 2 + 1, i64::MIN / 2 - 1, -1, 1];

/// Rows with values of either sign, of which some belong to no run, in SQLite and in the
/// history.
fn fill_large(seed: u64, runs: u64, entries: u64, tame: u64) -> (Connection, HistoryDb) {
    let mut dice = Dice(seed);
    let mut value = |dice: &mut Dice| {
        if dice.roll(tame) == 0 {
            LARGE[dice.roll(6) as usize]
        } else {
            dice.roll(9) as i64 - 4
        }
    };
    let conn = Connection::open_in_memory().unwrap();
    conn.execute_batch(SCHEMA).unwrap();
    conn.execute_batch("PRAGMA foreign_keys = OFF").unwrap();
    let mut run_rows = Vec::new();
    for id in 1..=runs as i64 {
        let run = RunRow {
            id,
            started_at: 1_000_000 + dice.roll(4) as i64,
            finished_at: None,
            disk_total: 0,
            free_before: value(&mut dice),
            free_after: None,
            discovered_bytes: 0,
            reclaimed_bytes: value(&mut dice),
            files_deleted: value(&mut dice),
            dirs_deleted: value(&mut dice),
            skipped: value(&mut dice),
            errors: value(&mut dice),
            duration_ms: 0,
            mode: "max".to_string(),
            status: STATUSES[dice.roll(3) as usize].to_string(),
        };
        conn.execute(
            "INSERT INTO cleanup_runs(id, started_at, free_before, reclaimed_bytes, files_deleted,
                 dirs_deleted, skipped, errors, status)
             VALUES(?1, ?2, ?3, ?4, ?5, ?6, ?7, ?8, ?9)",
            (
                run.id,
                run.started_at,
                run.free_before,
                run.reclaimed_bytes,
                run.files_deleted,
                run.dirs_deleted,
                run.skipped,
                run.errors,
                &run.status,
            ),
        )
        .unwrap();
        run_rows.push(run);
    }
    let mut entry_rows = Vec::new();
    for id in 1..=entries as i64 {
        let entry = EntryRow {
            id,
            run_id: 1 + dice.roll(runs + 1) as i64,
            category: CATEGORIES[dice.roll(3) as usize].to_string(),
            path: "/p".to_string(),
            parent_path: None,
            kind: "file".to_string(),
            bytes_before: 0,
            bytes_reclaimed: value(&mut dice),
            action: "delete".to_string(),
            rule: "rule".to_string(),
            result: "deleted".to_string(),
            error: None,
        };
        conn.execute(
            "INSERT INTO cleanup_entries(id, run_id, category, path, kind, bytes_reclaimed, action,
                 rule, result)
             VALUES(?1, ?2, ?3, ?4, ?5, ?6, ?7, ?8, ?9)",
            (
                entry.id,
                entry.run_id,
                &entry.category,
                &entry.path,
                &entry.kind,
                entry.bytes_reclaimed,
                &entry.action,
                &entry.rule,
                &entry.result,
            ),
        )
        .unwrap();
        entry_rows.push(entry);
    }
    let last = LastIds { run: 0, entry: 0, snapshot: 0, storage: 0 };
    let db = HistoryDb::from_rows(run_rows, entry_rows, Vec::new(), Vec::new(), last).unwrap();
    (conn, db)
}

fn all<T>(
    conn: &Connection,
    text: &str,
    number: i64,
    read: impl Fn(&Row) -> rusqlite::Result<T>,
) -> Option<Vec<T>> {
    let mut statement = conn.prepare(text).unwrap();
    let rows = statement.query_map([number], read).unwrap().collect::<rusqlite::Result<Vec<T>>>();
    rows.ok()
}

#[test]
fn sums_of_either_sign_agree_with_sqlite() {
    let (mut sums, mut refusals) = (0, 0);
    for seed in 1..400 {
        let runs = 1 + seed % 6;
        let (conn, db) = fill_large(seed, runs, 24, 3 + seed % 40);
        for run_id in 1..=runs as i64 + 1 {
            let expected = all(
                &conn,
                "SELECT category, COALESCE(SUM(bytes_reclaimed), 0) FROM cleanup_entries
                 WHERE run_id = ?1 GROUP BY category ORDER BY SUM(bytes_reclaimed) DESC",
                run_id,
                |row| Ok((row.get::<_, String>(0)?, counter(row, 1)?)),
            );
            let found = db.category_totals(run_id).ok().map(|totals| {
                totals
                    .into_iter()
                    .map(|line| (line.category, line.reclaimed_bytes))
                    .collect::<Vec<_>>()
            });
            assert_eq!(found, expected, "seed {seed} run {run_id}");
            if found.is_some() { sums += 1 } else { refusals += 1 }
        }
    }
    assert!(sums > 100 && refusals > 100, "{sums} sums, {refusals} refusals");
}

#[test]
fn summaries_of_either_sign_agree_with_sqlite() {
    let (mut sums, mut refusals) = (0, 0);
    for seed in 1..800 {
        let (conn, db) = fill_large(seed, 1 + seed % 6, 12, 3 + seed % 20);
        let columns = all(
            &conn,
            "SELECT COUNT(*), COALESCE(SUM(reclaimed_bytes), 0),
                 COALESCE(SUM(files_deleted), 0), COALESCE(SUM(dirs_deleted), 0),
                 COALESCE(SUM(skipped), 0), COALESCE(SUM(errors), 0)
             FROM cleanup_runs WHERE started_at >= ?1 AND status != 'running'",
            0,
            |row| (0..6).map(|column| counter(row, column)).collect::<rusqlite::Result<Vec<_>>>(),
        );
        let categories = all(
            &conn,
            "SELECT e.category, COALESCE(SUM(e.bytes_reclaimed), 0), COUNT(*)
             FROM cleanup_entries e JOIN cleanup_runs r ON r.id = e.run_id
             WHERE r.started_at >= ?1 AND r.status != 'running'
             GROUP BY e.category ORDER BY SUM(e.bytes_reclaimed) DESC LIMIT 8",
            0,
            |row| Ok((row.get::<_, String>(0)?, counter(row, 1)?, counter(row, 2)?)),
        );
        let expected = columns.zip(categories);
        let found = db.statistics_snapshot_at(0, None).ok().map(|summary| {
            (
                vec![vec![
                    summary.runs,
                    summary.reclaimed_bytes,
                    summary.files_deleted,
                    summary.dirs_deleted,
                    summary.skipped,
                    summary.errors,
                ]],
                summary
                    .categories
                    .into_iter()
                    .map(|line| (line.category, line.reclaimed_bytes, line.objects))
                    .collect::<Vec<_>>(),
            )
        });
        assert_eq!(found, expected, "seed {seed}");
        if found.is_some() { sums += 1 } else { refusals += 1 }
    }
    assert!(sums > 100 && refusals > 100, "{sums} sums, {refusals} refusals");
}

fn entry_with(id: i64, run_id: i64, bytes_reclaimed: i64) -> EntryRow {
    EntryRow {
        id,
        run_id,
        category: "caches".to_string(),
        path: "/p".to_string(),
        parent_path: None,
        kind: "file".to_string(),
        bytes_before: 0,
        bytes_reclaimed,
        action: "delete".to_string(),
        rule: "rule".to_string(),
        result: "deleted".to_string(),
        error: None,
    }
}

#[test]
fn order_of_a_sum_decides() {
    let totals = |values: [i64; 3]| {
        let last = LastIds { run: 1, entry: 0, snapshot: 0, storage: 0 };
        let rows = values.iter().enumerate().map(|(at, value)| entry_with(at as i64, 1, *value));
        HistoryDb::from_rows(Vec::new(), rows.collect(), Vec::new(), Vec::new(), last)
            .unwrap()
            .category_totals(1)
            .map(|totals| totals[0].reclaimed_bytes)
    };
    assert_eq!(totals([i64::MAX, -1, 1]), Ok(i64::MAX as u64));
    assert_eq!(totals([i64::MAX, 1, -1]), Err(HistoryError::SumOverflow));
    assert_eq!(totals([i64::MIN, -1, 1]), Err(HistoryError::SumOverflow));
}

fn run_with(id: i64, started_at: i64, reclaimed_bytes: i64) -> RunRow {
    RunRow {
        id,
        started_at,
        finished_at: None,
        disk_total: 0,
        free_before: 0,
        free_after: None,
        discovered_bytes: 0,
        reclaimed_bytes,
        files_deleted: 0,
        dirs_deleted: 0,
        skipped: 0,
        errors: 0,
        duration_ms: 0,
        mode: "max".to_string(),
        status: "completed".to_string(),
    }
}

#[test]
fn runs_are_added_from_the_newest_on() {
    let sum = |runs: Vec<RunRow>| {
        let last = LastIds { run: 3, entry: 0, snapshot: 0, storage: 0 };
        HistoryDb::from_rows(runs, Vec::new(), Vec::new(), Vec::new(), last)
            .unwrap()
            .statistics_snapshot_at(0, None)
            .map(|summary| summary.reclaimed_bytes)
    };
    let rising = vec![run_with(1, 10, 1), run_with(2, 20, i64::MAX), run_with(3, 30, -1)];
    assert_eq!(sum(rising), Ok(i64::MAX as u64));
    let falling = vec![run_with(1, 30, 1), run_with(2, 20, i64::MAX), run_with(3, 10, -1)];
    assert_eq!(sum(falling), Err(HistoryError::SumOverflow));
    let together = vec![run_with(1, 10, -1), run_with(2, 10, i64::MAX), run_with(3, 10, 1)];
    assert_eq!(sum(together), Ok(i64::MAX as u64));
}

#[test]
fn objects_are_added_run_by_run() {
    let sum = |first: i64, second: i64| {
        let last = LastIds { run: 2, entry: 3, snapshot: 0, storage: 0 };
        HistoryDb::from_rows(
            vec![run_with(1, first, 0), run_with(2, second, 0)],
            vec![entry_with(1, 1, 1), entry_with(2, 2, i64::MAX), entry_with(3, 2, -1)],
            Vec::new(),
            Vec::new(),
            last,
        )
        .unwrap()
        .statistics_snapshot_at(0, None)
        .map(|summary| summary.categories[0].reclaimed_bytes)
    };
    assert_eq!(sum(10, 20), Ok(i64::MAX as u64));
    assert_eq!(sum(20, 10), Err(HistoryError::SumOverflow));
    assert_eq!(sum(10, 10), Err(HistoryError::SumOverflow));
}

#[test]
fn identifiers_are_given_as_in_sqlite() {
    for held in [None, Some(-8), Some(3), Some(i64::MAX)] {
        for recorded in [None, Some(-4), Some(0), Some(7), Some(i64::MAX)] {
            let conn = Connection::open_in_memory().unwrap();
            conn.execute_batch(SCHEMA).unwrap();
            conn.execute_batch("PRAGMA foreign_keys = OFF").unwrap();
            let mut runs = Vec::new();
            if let Some(id) = held {
                conn.execute("INSERT INTO cleanup_runs(id, started_at) VALUES(?1, 5)", [id])
                    .unwrap();
                runs.push(run_with(id, 5, 0));
            }
            conn.execute("DELETE FROM sqlite_sequence", []).unwrap();
            if let Some(last) = recorded {
                conn.execute(
                    "INSERT INTO sqlite_sequence(name, seq) VALUES('cleanup_runs', ?1)",
                    [last],
                )
                .unwrap();
            }
            let expected = conn
                .execute("INSERT INTO cleanup_runs(started_at) VALUES(6)", [])
                .ok()
                .map(|_| conn.last_insert_rowid());
            let last =
                LastIds { run: recorded.unwrap_or(0), entry: 0, snapshot: 0, storage: 0 };
            let mut db =
                HistoryDb::from_rows(runs, Vec::new(), Vec::new(), Vec::new(), last).unwrap();
            let found = db.begin_cleanup_at(6, 0, 0, 0, "max").ok();
            assert_eq!(found, expected, "{held:?} {recorded:?}");
        }
    }
}
