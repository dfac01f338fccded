//! The history: what is written reads back, and what is refused.

use yeti3_cleaner::clock::{cutoff_at, now, timestamp_of};
use yeti3_cleaner::history::rows::{
    CleanupEntry, EntryRow, RunRow, StorageEntry, StorageRow,
};
use yeti3_cleaner::history::store::{HistoryDb, HistoryError, LastIds};

fn entry(run_id: i64, category: &str, result: &str, bytes: u64) -> CleanupEntry {
    CleanupEntry {
        run_id,
        category: String::from(category),
        path: format!("/p/{category}"),
        parent_path: Some(String::from("/p")),
        kind: String::from("file"),
        bytes_before: bytes,
        bytes_reclaimed: bytes,
        action: String::from("delete"),
        rule: String::from("r"),
        result: String::from(result),
        error: None,
    }
}

fn run_row(id: i64) -> RunRow {
    RunRow {
        id,
        started_at: 10,
        finished_at: None,
        disk_total: 0,
        free_before: 0,
        free_after: None,
        discovered_bytes: 0,
        reclaimed_bytes: 0,
        files_deleted: 0,
        dirs_deleted: 0,
        skipped: 0,
        errors: 0,
        duration_ms: 0,
        mode: String::from("max"),
        status: String::from("running"),
    }
}

fn entry_row(id: i64, run_id: i64) -> EntryRow {
    EntryRow {
        id,
        run_id,
        category: String::from("c"),
        path: String::from("/p"),
        parent_path: None,
        kind: String::from("file"),
        bytes_before: 0,
        bytes_reclaimed: 0,
        action: String::from("delete"),
        rule: String::from("r"),
        result: String::from("deleted"),
        error: None,
    }
}

#[test]
fn begun_run_is_latest() {
    let mut db = HistoryDb::new();
    assert!(db.latest_cleanup().is_none());
    let first = db.begin_cleanup_at(50, 1000, 300, 70, "max").unwrap();
    let second = db.begin_cleanup_at(40, u64::MAX, 310, 80, "safe").unwrap();
    assert!(second > first);
    let run = db.latest_cleanup().unwrap();
    assert_eq!((run.id, run.started_at, run.finished_at), (second, 40, None));
    assert_eq!(run.disk_total, i64::MAX as u64);
    assert_eq!((run.free_before, run.free_after), (310, None));
    assert_eq!(run.discovered_bytes, 80);
    assert_eq!(run.status, "running");
}

#[test]
fn finished_run_reads_back() {
    let mut db = HistoryDb::new();
    let other = db.begin_cleanup_at(1, 1, 1, 1, "max").unwrap();
    let id = db.begin_cleanup_at(50, 1000, 300, 70, "max").unwrap();
    db.finish_cleanup_at(60, id, 350, 50, 5, 6, 7, 8, 9, "completed");
    let run = db.latest_cleanup().unwrap();
    assert_eq!(run.finished_at, Some(60));
    assert_eq!(run.free_after, Some(350));
    assert_eq!(
        (run.reclaimed_bytes, run.files_deleted, run.dirs_deleted),
        (50, 5, 6)
    );
    assert_eq!((run.skipped, run.errors, run.duration_ms), (7, 8, 9));
    assert_eq!(run.status, "completed");
    assert_eq!((run.started_at, run.disk_total, run.free_before), (50, 1000, 300));
    let position = db.run_position(other).unwrap();
    assert_eq!(db.runs()[position].status, "running");
    db.finish_cleanup_at(61, 999, 1, 1, 1, 1, 1, 1, 1, "lost");
    assert_eq!(db.runs().len(), 2);
    assert_eq!(db.latest_cleanup().unwrap().status, "completed");
}

#[test]
fn entries_count_towards_their_category() {
    let mut db = HistoryDb::new();
    let other = db.begin_cleanup_at(1, 1, 1, 1, "max").unwrap();
    let id = db.begin_cleanup_at(50, 1000, 300, 70, "max").unwrap();
    db.add_cleanup_entry(&entry(other, "logs", "deleted", 1000)).unwrap();
    db.add_cleanup_entry(&entry(id, "logs", "deleted", 10)).unwrap();
    db.add_cleanup_entry(&entry(id, "logs", "error", 0)).unwrap();
    db.add_cleanup_entry(&entry(id, "caches", "deleted", 30)).unwrap();
    let totals = db.category_totals(id).unwrap();
    assert_eq!(totals.len(), 2);
    assert_eq!((totals[0].category.as_str(), totals[0].reclaimed_bytes), ("caches", 30));
    assert_eq!((totals[1].reclaimed_bytes, totals[1].files, totals[1].errors), (10, 1, 1));
}

#[test]
fn only_finished_runs_are_reported() {
    let mut db = HistoryDb::new();
    let day = 86_400;
    let id = db.begin_cleanup_at(100 * day, 1000, 300, 70, "max").unwrap();
    db.add_cleanup_entry(&entry(id, "logs", "error", 5)).unwrap();
    let at = 105 * day;
    assert_eq!(db.statistics_snapshot_at(at, Some(30)).unwrap().runs, 0);
    assert!(db.latest_errors().is_empty());
    db.finish_cleanup_at(100 * day + 5, id, 350, 50, 5, 6, 7, 1, 9, "completed");
    let week = db.statistics_snapshot_at(at, Some(7)).unwrap();
    assert_eq!((week.runs, week.reclaimed_bytes, week.errors), (1, 50, 1));
    assert_eq!((week.first_free_before, week.latest_free_after), (300, 350));
    assert_eq!(week.categories.len(), 1);
    assert_eq!(db.statistics_snapshot_at(at, Some(2)).unwrap().runs, 0);
    assert_eq!(db.statistics_snapshot_at(at, None).unwrap().runs, 1);
    let errors = db.latest_errors();
    assert_eq!(errors.len(), 1);
    assert_eq!((errors[0].0.as_str(), errors[0].1.as_str()), ("logs", "/p/logs"));
}

#[test]
fn details_read_back() {
    let mut db = HistoryDb::new();
    let id = db.begin_cleanup_at(100, 1000, 300, 70, "max").unwrap();
    let mut written = entry(id, "logs", "deleted", u64::MAX);
    written.error = Some(String::from("late"));
    db.add_cleanup_entry(&written).unwrap();
    db.finish_cleanup_at(105, id, 350, 50, 5, 6, 7, 1, 9, "completed");
    let details = db.statistics_details_at(200, None, 10);
    assert_eq!(details.len(), 1);
    assert_eq!(details[0].category, written.category);
    assert_eq!(details[0].path, written.path);
    assert_eq!(details[0].parent_path, written.parent_path);
    assert_eq!(details[0].bytes_reclaimed, i64::MAX as u64);
}

#[test]
fn unknown_runs_and_scans_are_refused() {
    let mut db = HistoryDb::new();
    assert_eq!(
        db.add_cleanup_entry(&entry(1, "logs", "deleted", 1)),
        Err(HistoryError::UnknownRun)
    );
    assert!(db.entries().is_empty());
    let measured = |snapshot_id| StorageEntry {
        snapshot_id,
        path: String::from("/p"),
        parent_path: None,
        kind: String::from("dir"),
        bytes: 5,
        file_count: 6,
        directory_count: 7,
    };
    assert_eq!(db.add_storage_entry(&measured(1)), Err(HistoryError::UnknownSnapshot));
    let scan = db.begin_snapshot_at(99, 1000, 400).unwrap();
    db.add_storage_entry(&measured(scan)).unwrap();
    db.finish_snapshot(scan, 12);
    db.finish_snapshot(scan + 1, 13);
    assert_eq!(db.snapshots().len(), 1);
    assert_eq!(db.snapshots()[0].duration_ms, 12);
    assert_eq!((db.snapshots()[0].scanned_at, db.snapshots()[0].disk_free), (99, 400));
    assert_eq!((db.storage()[0].bytes, db.storage()[0].directory_count), (5, 7));
    assert_eq!(db.snapshot_position(scan), Some(0));
}

#[test]
fn identifiers_run_out() {
    let last = LastIds { run: i64::MAX, entry: 0, snapshot: i64::MAX, storage: 0 };
    let mut db =
        HistoryDb::from_rows(Vec::new(), Vec::new(), Vec::new(), Vec::new(), last).unwrap();
    assert_eq!(db.begin_cleanup_at(1, 1, 1, 1, "max"), Err(HistoryError::OutOfIds));
    assert_eq!(db.begin_snapshot_at(1, 1, 1), Err(HistoryError::OutOfIds));
    assert!(db.runs().is_empty() && db.snapshots().is_empty());
}

#[test]
fn rows_must_stand_in_order() {
    let last = || LastIds { run: 5, entry: 5, snapshot: 5, storage: 5 };
    let made = |runs: Vec<RunRow>, entries: Vec<EntryRow>| {
        HistoryDb::from_rows(runs, entries, Vec::new(), Vec::new(), last()).map(|db| {
            (db.runs().len(), db.entries().len())
        })
    };
    assert_eq!(made(vec![run_row(1), run_row(3)], vec![entry_row(1, 3)]), Ok((2, 1)));
    assert_eq!(made(vec![run_row(3), run_row(1)], vec![]), Err(HistoryError::Malformed));
    assert_eq!(made(vec![run_row(1), run_row(1)], vec![]), Err(HistoryError::Malformed));
    assert_eq!(
        made(vec![run_row(1)], vec![entry_row(2, 1), entry_row(2, 1)]),
        Err(HistoryError::Malformed)
    );
}

#[test]
fn rows_that_belong_to_nothing_are_read() {
    let last = LastIds { run: 5, entry: 5, snapshot: 5, storage: 5 };
    let storage = StorageRow {
        id: 1,
        snapshot_id: 2,
        path: String::from("/p"),
        parent_path: None,
        kind: String::from("dir"),
        bytes: 0,
        file_count: 0,
        directory_count: 0,
    };
    let db = HistoryDb::from_rows(
        vec![run_row(1)],
        vec![entry_row(1, 2)],
        Vec::new(),
        vec![storage],
        last,
    )
    .unwrap();
    assert_eq!(db.latest_cleanup().unwrap().id, 1);
    assert_eq!(db.category_totals(2).unwrap().len(), 1);
    assert!(db.statistics_snapshot_at(0, None).unwrap().categories.is_empty());
}

#[test]
fn identifiers_are_never_given_twice() {
    let next = |runs: Vec<RunRow>, run: i64| {
        let last = LastIds { run, entry: 0, snapshot: 0, storage: 0 };
        let mut db = HistoryDb::from_rows(runs, Vec::new(), Vec::new(), Vec::new(), last).unwrap();
        db.begin_cleanup_at(1, 1, 1, 1, "max")
    };
    assert_eq!(next(vec![run_row(2)], 9), Ok(10));
    assert_eq!(next(vec![run_row(12)], 9), Ok(13));
    assert_eq!(next(vec![], 0), Ok(1));
    assert_eq!(next(vec![], -4), Ok(1));
    assert_eq!(next(vec![run_row(-8)], -4), Ok(-3));
    assert_eq!(next(vec![run_row(-8)], 0), Ok(1));
    assert_eq!(next(vec![run_row(i64::MAX)], 0), Err(HistoryError::OutOfIds));
}

#[test]
fn periods_start_in_the_past() {
    assert_eq!(cutoff_at(1_000_000, None), 0);
    assert_eq!(cutoff_at(i64::MIN, Some(u64::MAX)), i64::MIN);
    assert_eq!(cutoff_at(1_000_000, Some(1)), 1_000_000 - 86_400);
    assert!(cutoff_at(1_000_000, Some(7)) < cutoff_at(1_000_000, Some(1)));
}

#[test]
fn time_before_the_epoch_counts_as_the_epoch() {
    assert_eq!(timestamp_of(None), 0);
    assert_eq!(timestamp_of(Some(1_700_000_000)), 1_700_000_000);
    assert_eq!(timestamp_of(Some(u64::MAX)), -1);
}

#[test]
fn now_is_the_time_of_the_system() {
    let before = std::time::SystemTime::now().duration_since(std::time::UNIX_EPOCH).unwrap();
    let time = now();
    let after = std::time::SystemTime::now().duration_since(std::time::UNIX_EPOCH).unwrap();
    assert!(before.as_secs() as i64 <= time && time <= after.as_secs() as i64);
    let mut db = HistoryDb::new();
    let id = db.begin_cleanup(1, 2, 3, "max").unwrap();
    db.finish_cleanup(id, 1, 2, 3, 4, 5, 6, 7, "completed");
    let run = db.latest_cleanup().unwrap();
    assert!(run.started_at >= time && run.finished_at.unwrap() >= run.started_at);
    assert_eq!(db.statistics_snapshot(Some(1)).unwrap().runs, 1);
    db.add_cleanup_entry(&entry(id, "logs", "deleted", 4)).unwrap();
    assert_eq!(db.statistics_details(Some(1), 500).len(), 1);
    assert!(db.begin_snapshot(1, 2).is_ok());
    assert!(db.snapshots()[0].scanned_at >= time);
}
