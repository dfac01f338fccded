//! The rows of the history tables and the records that are exchanged with
//! callers.

use crate::convert::{column_of, counter_of, from_i64, to_i64};
use vstd::prelude::*;

verus! {

/// One cleanup run as callers see it.
#[derive(Debug, Clone)]
pub struct CleanupRun {
    pub id: i64,
    pub started_at: i64,
    pub finished_at: Option<i64>,
    pub disk_total: u64,
    pub free_before: u64,
    pub free_after: Option<u64>,
    pub discovered_bytes: u64,
    pub reclaimed_bytes: u64,
    pub files_deleted: u64,
    pub dirs_deleted: u64,
    pub skipped: u64,
    pub errors: u64,
    pub duration_ms: u64,
    pub status: String,
}

/// One object that a cleanup run handled. Paths are held as text.
#[derive(Debug, Clone)]
pub struct CleanupEntry {
    pub run_id: i64,
    pub category: String,
    pub path: String,
    pub parent_path: Option<String>,
    pub kind: String,
    pub bytes_before: u64,
    pub bytes_reclaimed: u64,
    pub action: String,
    pub rule: String,
    pub result: String,
    pub error: Option<String>,
}

/// What one category of a run amounts to.
#[derive(Debug, Clone)]
pub struct CategoryTotal {
    pub category: String,
    pub reclaimed_bytes: u64,
    pub files: u64,
    pub errors: u64,
}

/// One object that a storage scan measured. Paths are held as text.
#[derive(Debug, Clone)]
pub struct StorageEntry {
    pub snapshot_id: i64,
    pub path: String,
    pub parent_path: Option<String>,
    pub kind: String,
    pub bytes: u64,
    pub file_count: u64,
    pub directory_count: u64,
}

/// One run of a reporting period.
#[derive(Debug, Clone)]
pub struct StatisticsRun {
    pub started_at: i64,
    pub reclaimed_bytes: u64,
    pub free_before: u64,
    pub free_after: u64,
    pub errors: u64,
}

/// What one category of a reporting period amounts to.
#[derive(Debug, Clone)]
pub struct StatisticsCategory {
    pub category: String,
    pub reclaimed_bytes: u64,
    pub objects: u64,
}

/// The summary of a reporting period.
#[derive(Debug, Clone)]
pub struct StatisticsSnapshot {
    pub runs: u64,
    pub reclaimed_bytes: u64,
    pub files_deleted: u64,
    pub dirs_deleted: u64,
    pub skipped: u64,
    pub errors: u64,
    pub first_free_before: u64,
    pub latest_free_after: u64,
    pub recent_runs: Vec<StatisticsRun>,
    pub categories: Vec<StatisticsCategory>,
}

/// One handled object of a reporting period.
#[derive(Debug, Clone)]
pub struct StatisticsDetail {
    pub category: String,
    pub path: String,
    pub parent_path: Option<String>,
    pub kind: String,
    pub bytes_before: u64,
    pub bytes_reclaimed: u64,
    pub rule: String,
    pub result: String,
    pub error: Option<String>,
}

/// A row of the table of cleanup runs.
#[derive(Debug)]
pub struct RunRow {
    pub id: i64,
    pub started_at: i64,
    pub finished_at: Option<i64>,
    pub disk_total: i64,
    pub free_before: i64,
    pub free_after: Option<i64>,
    pub discovered_bytes: i64,
    pub reclaimed_bytes: i64,
    pub files_deleted: i64,
    pub dirs_deleted: i64,
    pub skipped: i64,
    pub errors: i64,
    pub duration_ms: i64,
    pub mode: String,
    pub status: String,
}

/// A row of the table of handled objects.
#[derive(Debug)]
pub struct EntryRow {
    pub id: i64,
    pub run_id: i64,
    pub category: String,
    pub path: String,
    pub parent_path: Option<String>,
    pub kind: String,
    pub bytes_before: i64,
    pub bytes_reclaimed: i64,
    pub action: String,
    pub rule: String,
    pub result: String,
    pub error: Option<String>,
}

/// A row of the table of storage scans.
#[derive(Debug)]
pub struct SnapshotRow {
    pub id: i64,
    pub scanned_at: i64,
    pub disk_total: i64,
    pub disk_free: i64,
    pub duration_ms: i64,
}

/// A row of the table of measured objects.
#[derive(Debug)]
pub struct StorageRow {
    pub id: i64,
    pub snapshot_id: i64,
    pub path: String,
    pub parent_path: Option<String>,
    pub kind: String,
    pub bytes: i64,
    pub file_count: i64,
    pub directory_count: i64,
}

/// The counter that an optional column stands for.
pub open spec fn optional_counter_of(value: Option<i64>) -> Option<u64> {
    match value {
        Some(value) => Some(counter_of(value)),
        None => None,
    }
}

impl RunRow {
    /// The row of a run that has just begun: nothing of its outcome is known.
    pub open spec fn is_begun(
        self,
        id: i64,
        started_at: i64,
        disk_total: u64,
        free_before: u64,
        discovered_bytes: u64,
        mode: Seq<char>,
    ) -> bool {
        &&& self.id == id
        &&& self.started_at == started_at
        &&& self.finished_at is None
        &&& self.disk_total == column_of(disk_total)
        &&& self.free_before == column_of(free_before)
        &&& self.free_after is None
        &&& self.discovered_bytes == column_of(discovered_bytes)
        &&& self.reclaimed_bytes == 0
        &&& self.files_deleted == 0
        &&& self.dirs_deleted == 0
        &&& self.skipped == 0
        &&& self.errors == 0
        &&& self.duration_ms == 0
        &&& self.mode@ == mode
        &&& self.status@ == "running"@
    }

    /// The row that a run has after its outcome was written over `before`.
    pub open spec fn is_finished_from(
        self,
        before: RunRow,
        finished_at: i64,
        outcome: RunOutcome,
        status: Seq<char>,
    ) -> bool {
        &&& self.id == before.id
        &&& self.started_at == before.started_at
        &&& self.finished_at == Some(finished_at)
        &&& self.disk_total == before.disk_total
        &&& self.free_before == before.free_before
        &&& self.free_after == Some(column_of(outcome.free_after))
        &&& self.discovered_bytes == before.discovered_bytes
        &&& self.reclaimed_bytes == column_of(outcome.reclaimed_bytes)
        &&& self.files_deleted == column_of(outcome.files_deleted)
        &&& self.dirs_deleted == column_of(outcome.dirs_deleted)
        &&& self.skipped == column_of(outcome.skipped)
        &&& self.errors == column_of(outcome.errors)
        &&& self.duration_ms == column_of(outcome.duration_ms)
        &&& self.mode == before.mode
        &&& self.status@ == status
    }

    /// Makes the row of a run that has just begun.
    pub fn begun(
        id: i64,
        started_at: i64,
        disk_total: u64,
        free_before: u64,
        discovered_bytes: u64,
        mode: &str,
    ) -> (row: RunRow)
        ensures
            row.is_begun(id, started_at, disk_total, free_before, discovered_bytes, mode@),
    {
        RunRow {
            id,
            started_at,
            finished_at: None,
            disk_total: to_i64(disk_total),
            free_before: to_i64(free_before),
            free_after: None,
            discovered_bytes: to_i64(discovered_bytes),
            reclaimed_bytes: 0,
            files_deleted: 0,
            dirs_deleted: 0,
            skipped: 0,
            errors: 0,
            duration_ms: 0,
            mode: mode.to_owned(),
            status: "running".to_owned(),
        }
    }

    /// Writes the outcome of the run into its row.
    pub fn finish(&mut self, finished_at: i64, outcome: &RunOutcome, status: &str)
        ensures
            final(self).is_finished_from(*old(self), finished_at, *outcome, status@),
    {
        self.finished_at = Some(finished_at);
        self.free_after = Some(to_i64(outcome.free_after));
        self.reclaimed_bytes = to_i64(outcome.reclaimed_bytes);
        self.files_deleted = to_i64(outcome.files_deleted);
        self.dirs_deleted = to_i64(outcome.dirs_deleted);
        self.skipped = to_i64(outcome.skipped);
        self.errors = to_i64(outcome.errors);
        self.duration_ms = to_i64(outcome.duration_ms);
        self.status = status.to_owned();
    }

    /// The run that callers see for this row.
    pub open spec fn as_run(self) -> CleanupRun {
        CleanupRun {
            id: self.id,
            started_at: self.started_at,
            finished_at: self.finished_at,
            disk_total: counter_of(self.disk_total),
            free_before: counter_of(self.free_before),
            free_after: optional_counter_of(self.free_after),
            discovered_bytes: counter_of(self.discovered_bytes),
            reclaimed_bytes: counter_of(self.reclaimed_bytes),
            files_deleted: counter_of(self.files_deleted),
            dirs_deleted: counter_of(self.dirs_deleted),
            skipped: counter_of(self.skipped),
            errors: counter_of(self.errors),
            duration_ms: counter_of(self.duration_ms),
            status: self.status,
        }
    }

    /// Reads the row as callers see it.
    pub fn to_run(&self) -> (run: CleanupRun)
        ensures
            run == self.as_run(),
    {
        CleanupRun {
            id: self.id,
            started_at: self.started_at,
            finished_at: self.finished_at,
            disk_total: from_i64(self.disk_total),
            free_before: from_i64(self.free_before),
            free_after: match self.free_after {
                Some(free_after) => Some(from_i64(free_after)),
                None => None,
            },
            discovered_bytes: from_i64(self.discovered_bytes),
            reclaimed_bytes: from_i64(self.reclaimed_bytes),
            files_deleted: from_i64(self.files_deleted),
            dirs_deleted: from_i64(self.dirs_deleted),
            skipped: from_i64(self.skipped),
            errors: from_i64(self.errors),
            duration_ms: from_i64(self.duration_ms),
            status: self.status.clone(),
        }
    }

    /// The free space after the run, or before it where the run left none.
    pub open spec fn settled_free(self) -> i64 {
        match self.free_after {
            Some(free_after) => free_after,
            None => self.free_before,
        }
    }

    /// Computes `settled_free`.
    pub fn free_at_end(&self) -> (free: i64)
        ensures
            free == self.settled_free(),
    {
        match self.free_after {
            Some(free_after) => free_after,
            None => self.free_before,
        }
    }

    /// The line that this row gives in the summary of a period.
    pub open spec fn as_statistics(self) -> StatisticsRun {
        StatisticsRun {
            started_at: self.started_at,
            reclaimed_bytes: counter_of(self.reclaimed_bytes),
            free_before: counter_of(self.free_before),
            free_after: counter_of(self.settled_free()),
            errors: counter_of(self.errors),
        }
    }

    /// Reads the row as a line of the summary of a period.
    pub fn to_statistics(&self) -> (run: StatisticsRun)
        ensures
            run == self.as_statistics(),
    {
        StatisticsRun {
            started_at: self.started_at,
            reclaimed_bytes: from_i64(self.reclaimed_bytes),
            free_before: from_i64(self.free_before),
            free_after: from_i64(self.free_at_end()),
            errors: from_i64(self.errors),
        }
    }
}

/// What a finished run reports.
#[derive(Debug, Clone, Copy)]
pub struct RunOutcome {
    pub free_after: u64,
    pub reclaimed_bytes: u64,
    pub files_deleted: u64,
    pub dirs_deleted: u64,
    pub skipped: u64,
    pub errors: u64,
    pub duration_ms: u64,
}

impl EntryRow {
    /// The row that stores `entry` under `id`.
    pub open spec fn stores(id: i64, entry: CleanupEntry) -> EntryRow {
        EntryRow {
            id,
            run_id: entry.run_id,
            category: entry.category,
            path: entry.path,
            parent_path: entry.parent_path,
            kind: entry.kind,
            bytes_before: column_of(entry.bytes_before),
            bytes_reclaimed: column_of(entry.bytes_reclaimed),
            action: entry.action,
            rule: entry.rule,
            result: entry.result,
            error: entry.error,
        }
    }

    /// Makes the row that stores `entry` under `id`.
    pub fn store(id: i64, entry: &CleanupEntry) -> (row: EntryRow)
        ensures
            row == EntryRow::stores(id, *entry),
    {
        EntryRow {
            id,
            run_id: entry.run_id,
            category: entry.category.clone(),
            path: entry.path.clone(),
            parent_path: copy_text(&entry.parent_path),
            kind: entry.kind.clone(),
            bytes_before: to_i64(entry.bytes_before),
            bytes_reclaimed: to_i64(entry.bytes_reclaimed),
            action: entry.action.clone(),
            rule: entry.rule.clone(),
            result: entry.result.clone(),
            error: copy_text(&entry.error),
        }
    }

    /// The line that this row gives in the details of a period.
    pub open spec fn as_detail(self) -> StatisticsDetail {
        StatisticsDetail {
            category: self.category,
            path: self.path,
            parent_path: self.parent_path,
            kind: self.kind,
            bytes_before: counter_of(self.bytes_before),
            bytes_reclaimed: counter_of(self.bytes_reclaimed),
            rule: self.rule,
            result: self.result,
            error: self.error,
        }
    }

    /// Reads the row as a line of the details of a period.
    pub fn to_detail(&self) -> (detail: StatisticsDetail)
        ensures
            detail == self.as_detail(),
    {
        StatisticsDetail {
            category: self.category.clone(),
            path: self.path.clone(),
            parent_path: copy_text(&self.parent_path),
            kind: self.kind.clone(),
            bytes_before: from_i64(self.bytes_before),
            bytes_reclaimed: from_i64(self.bytes_reclaimed),
            rule: self.rule.clone(),
            result: self.result.clone(),
            error: copy_text(&self.error),
        }
    }
}

impl SnapshotRow {
    /// The row of a scan that has just begun.
    pub open spec fn begins(id: i64, scanned_at: i64, disk_total: u64, disk_free: u64) -> SnapshotRow {
        SnapshotRow {
            id,
            scanned_at,
            disk_total: column_of(disk_total),
            disk_free: column_of(disk_free),
            duration_ms: 0,
        }
    }

    /// Makes the row of a scan that has just begun.
    pub fn begun(id: i64, scanned_at: i64, disk_total: u64, disk_free: u64) -> (row: SnapshotRow)
        ensures
            row == SnapshotRow::begins(id, scanned_at, disk_total, disk_free),
    {
        SnapshotRow {
            id,
            scanned_at,
            disk_total: to_i64(disk_total),
            disk_free: to_i64(disk_free),
            duration_ms: 0,
        }
    }
}

impl StorageRow {
    /// The row that stores `entry` under `id`.
    pub open spec fn stores(id: i64, entry: StorageEntry) -> StorageRow {
        StorageRow {
            id,
            snapshot_id: entry.snapshot_id,
            path: entry.path,
            parent_path: entry.parent_path,
            kind: entry.kind,
            bytes: column_of(entry.bytes),
            file_count: column_of(entry.file_count),
            directory_count: column_of(entry.directory_count),
        }
    }

    /// Makes the row that stores `entry` under `id`.
    pub fn store(id: i64, entry: &StorageEntry) -> (row: StorageRow)
        ensures
            row == StorageRow::stores(id, *entry),
    {
        StorageRow {
            id,
            snapshot_id: entry.snapshot_id,
            path: entry.path.clone(),
            parent_path: copy_text(&entry.parent_path),
            kind: entry.kind.clone(),
            bytes: to_i64(entry.bytes),
            file_count: to_i64(entry.file_count),
            directory_count: to_i64(entry.directory_count),
        }
    }
}

fn copy_text(text: &Option<String>) -> (copy: Option<String>)
    ensures
        copy == *text,
{
    match text {
        Some(text) => Some(text.clone()),
        None => None,
    }
}

} // verus!
