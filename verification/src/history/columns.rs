//! What each write puts into the columns of the history, and what each read takes out of them.

use crate::history::laws::kept;
use crate::history::rows::{
    CleanupEntry, EntryRow, RunOutcome, RunRow, StorageEntry,
};
use crate::history::store::{
    entry_ids, last_given, run_ids, snapshot_ids, storage_ids, HistoryView,
};
use vstd::prelude::*;

verus! {

/// A column as callers see it: itself, or zero where it is negative.
pub open spec fn shown(column: i64) -> int {
    if column < 0 {
        0
    } else {
        column as int
    }
}

/// A run that begins is one more row behind those that are there, with what it began with in
/// the columns that are named so, and nothing in those of its outcome. All else stays.
pub proof fn begun_run_fills_its_columns(
    before: HistoryView,
    after: HistoryView,
    started_at: i64,
    disk_total: u64,
    free_before: u64,
    discovered_bytes: u64,
    mode: Seq<char>,
)
    requires
        before.last_run < i64::MAX,
        after.begins_run(before, started_at, disk_total, free_before, discovered_bytes, mode),
    ensures
        after.runs.len() == before.runs.len() + 1,
        forall|i: int| 0 <= i < before.runs.len() ==> #[trigger] after.runs[i] == before.runs[i],
        ({
            let row = after.runs[before.runs.len() as int];
            &&& row.id == before.last_run + 1
            &&& row.started_at == started_at
            &&& row.finished_at is None
            &&& row.disk_total == kept(disk_total)
            &&& row.free_before == kept(free_before)
            &&& row.free_after is None
            &&& row.discovered_bytes == kept(discovered_bytes)
            &&& row.reclaimed_bytes == 0
            &&& row.files_deleted == 0
            &&& row.dirs_deleted == 0
            &&& row.skipped == 0
            &&& row.errors == 0
            &&& row.duration_ms == 0
            &&& row.mode@ == mode
            &&& row.status@ == "running"@
        }),
        after.entries == before.entries,
        after.snapshots == before.snapshots,
        after.storage == before.storage,
        after.last_run == before.last_run + 1,
        after.last_entry == before.last_entry,
        after.last_snapshot == before.last_snapshot,
        after.last_storage == before.last_storage,
{
}

/// A run that is finished, wherever its row stands, has its outcome in the columns that are
/// named so and keeps what it began with. All else stays, and where the run is not held,
/// everything does.
pub proof fn finished_run_fills_its_columns(
    before: HistoryView,
    after: HistoryView,
    id: i64,
    finished_at: i64,
    outcome: RunOutcome,
    status: Seq<char>,
    at: int,
)
    requires
        before.wf(),
        after.finishes_run(before, id, finished_at, outcome, status),
        0 <= at < before.runs.len(),
    ensures
        after.runs.len() == before.runs.len(),
        before.runs[at].id != id ==> after.runs[at] == before.runs[at],
        before.runs[at].id == id ==> {
            let row = after.runs[at];
            let begun = before.runs[at];
            &&& row.id == id
            &&& row.started_at == begun.started_at
            &&& row.finished_at == Some(finished_at)
            &&& row.disk_total == begun.disk_total
            &&& row.free_before == begun.free_before
            &&& row.free_after is Some && row.free_after->0 == kept(outcome.free_after)
            &&& row.discovered_bytes == begun.discovered_bytes
            &&& row.reclaimed_bytes == kept(outcome.reclaimed_bytes)
            &&& row.files_deleted == kept(outcome.files_deleted)
            &&& row.dirs_deleted == kept(outcome.dirs_deleted)
            &&& row.skipped == kept(outcome.skipped)
            &&& row.errors == kept(outcome.errors)
            &&& row.duration_ms == kept(outcome.duration_ms)
            &&& row.mode == begun.mode
            &&& row.status@ == status
        },
        (forall|i: int| 0 <= i < before.runs.len() ==> (#[trigger] before.runs[i]).id != id)
            ==> after == before,
        after.entries == before.entries,
        after.snapshots == before.snapshots,
        after.storage == before.storage,
        after.last_run == before.last_run,
        after.last_entry == before.last_entry,
        after.last_snapshot == before.last_snapshot,
        after.last_storage == before.last_storage,
{
    let ids = run_ids(before.runs);
    assert(ids[at] == before.runs[at].id);
    if before.has_run(id) {
        let place = ids.index_of(id);
        assert(ids[place] == id);
        assert(before.runs[place].id == id);
        if before.runs[at].id == id {
            assert(ids[at] == id);
            assert(place == at);
        }
    } else if before.runs[at].id == id {
        assert(ids.contains(ids[at]));
    }
}

/// A handled object that is added is one more row behind those that are there, with each of
/// its parts in the column that is named so. All else stays.
pub proof fn added_entry_fills_its_columns(before: HistoryView, entry: CleanupEntry)
    requires
        before.last_entry < i64::MAX,
    ensures
        ({
            let after = before.with_entry(entry);
            let row = after.entries[before.entries.len() as int];
            &&& after.entries.len() == before.entries.len() + 1
            &&& forall|i: int|
                0 <= i < before.entries.len() ==> #[trigger] after.entries[i] == before.entries[i]
            &&& row.id == before.last_entry + 1
            &&& row.run_id == entry.run_id
            &&& row.category == entry.category
            &&& row.path == entry.path
            &&& row.parent_path == entry.parent_path
            &&& row.kind == entry.kind
            &&& row.bytes_before == kept(entry.bytes_before)
            &&& row.bytes_reclaimed == kept(entry.bytes_reclaimed)
            &&& row.action == entry.action
            &&& row.rule == entry.rule
            &&& row.result == entry.result
            &&& row.error == entry.error
            &&& after.runs == before.runs
            &&& after.snapshots == before.snapshots
            &&& after.storage == before.storage
            &&& after.last_run == before.last_run
            &&& after.last_entry == before.last_entry + 1
            &&& after.last_snapshot == before.last_snapshot
            &&& after.last_storage == before.last_storage
        }),
{
}

/// A storage scan that begins is one more row behind those that are there, with what it began
/// with in the columns that are named so and no duration. All else stays.
pub proof fn begun_scan_fills_its_columns(
    before: HistoryView,
    scanned_at: i64,
    disk_total: u64,
    disk_free: u64,
)
    requires
        before.last_snapshot < i64::MAX,
    ensures
        ({
            let after = before.with_snapshot(scanned_at, disk_total, disk_free);
            let row = after.snapshots[before.snapshots.len() as int];
            &&& after.snapshots.len() == before.snapshots.len() + 1
            &&& forall|i: int|
                0 <= i < before.snapshots.len() ==> #[trigger] after.snapshots[i]
                    == before.snapshots[i]
            &&& row.id == before.last_snapshot + 1
            &&& row.scanned_at == scanned_at
            &&& row.disk_total == kept(disk_total)
            &&& row.disk_free == kept(disk_free)
            &&& row.duration_ms == 0
            &&& after.runs == before.runs
            &&& after.entries == before.entries
            &&& after.storage == before.storage
            &&& after.last_run == before.last_run
            &&& after.last_entry == before.last_entry
            &&& after.last_snapshot == before.last_snapshot + 1
            &&& after.last_storage == before.last_storage
        }),
{
}

/// A measured object that is added is one more row behind those that are there, with each of
/// its parts in the column that is named so. All else stays.
pub proof fn added_measure_fills_its_columns(before: HistoryView, entry: StorageEntry)
    requires
        before.last_storage < i64::MAX,
    ensures
        ({
            let after = before.with_storage(entry);
            let row = after.storage[before.storage.len() as int];
            &&& after.storage.len() == before.storage.len() + 1
            &&& forall|i: int|
                0 <= i < before.storage.len() ==> #[trigger] after.storage[i] == before.storage[i]
            &&& row.id == before.last_storage + 1
            &&& row.snapshot_id == entry.snapshot_id
            &&& row.path == entry.path
            &&& row.parent_path == entry.parent_path
            &&& row.kind == entry.kind
            &&& row.bytes == kept(entry.bytes)
            &&& row.file_count == kept(entry.file_count)
            &&& row.directory_count == kept(entry.directory_count)
            &&& after.runs == before.runs
            &&& after.entries == before.entries
            &&& after.snapshots == before.snapshots
            &&& after.last_run == before.last_run
            &&& after.last_entry == before.last_entry
            &&& after.last_snapshot == before.last_snapshot
            &&& after.last_storage == before.last_storage + 1
        }),
{
}

/// A storage scan that is finished, wherever its row stands, has its duration in the column
/// that is named so. All else stays, and where the scan is not held, everything does.
pub proof fn finished_scan_fills_its_column(
    before: HistoryView,
    id: i64,
    duration_ms: u64,
    at: int,
)
    requires
        before.wf(),
        0 <= at < before.snapshots.len(),
    ensures
        ({
            let after = before.with_scan_duration(id, duration_ms);
            let row = after.snapshots[at];
            let begun = before.snapshots[at];
            &&& after.snapshots.len() == before.snapshots.len()
            &&& begun.id != id ==> row == begun
            &&& begun.id == id ==> row.id == id && row.scanned_at == begun.scanned_at
                && row.disk_total == begun.disk_total && row.disk_free == begun.disk_free
                && row.duration_ms == kept(duration_ms)
            &&& after.runs == before.runs
            &&& after.entries == before.entries
            &&& after.storage == before.storage
            &&& after.last_run == before.last_run
            &&& after.last_entry == before.last_entry
            &&& after.last_snapshot == before.last_snapshot
            &&& after.last_storage == before.last_storage
        }),
{
    let ids = snapshot_ids(before.snapshots);
    assert(ids[at] == before.snapshots[at].id);
    if before.has_snapshot(id) {
        let place = ids.index_of(id);
        assert(ids[place] == id);
        assert(before.snapshots[place].id == id);
        if before.snapshots[at].id == id {
            assert(ids[at] == id);
            assert(place == at);
        }
    } else if before.snapshots[at].id == id {
        assert(ids.contains(ids[at]));
    }
}

/// A run is held exactly where a row has its identifier, and so is a storage scan.
pub proof fn held_is_what_has_a_row(history: HistoryView, id: i64)
    ensures
        history.has_run(id) <==> exists|i: int|
            0 <= i < history.runs.len() && (#[trigger] history.runs[i]).id == id,
        history.has_snapshot(id) <==> exists|i: int|
            0 <= i < history.snapshots.len() && (#[trigger] history.snapshots[i]).id == id,
{
    let ids = run_ids(history.runs);
    if history.has_run(id) {
        let i = ids.index_of(id);
        assert(history.runs[i].id == id);
    }
    if exists|i: int| 0 <= i < history.runs.len() && (#[trigger] history.runs[i]).id == id {
        let i = choose|i: int| 0 <= i < history.runs.len() && (#[trigger] history.runs[i]).id == id;
        assert(ids[i] == id);
    }
    let scans = snapshot_ids(history.snapshots);
    if history.has_snapshot(id) {
        let i = scans.index_of(id);
        assert(history.snapshots[i].id == id);
    }
    if exists|i: int|
        0 <= i < history.snapshots.len() && (#[trigger] history.snapshots[i]).id == id {
        let i = choose|i: int|
            0 <= i < history.snapshots.len() && (#[trigger] history.snapshots[i]).id == id;
        assert(scans[i] == id);
    }
}

/// The rows of every table stand in the order of their identifiers, none of which exceeds what
/// was given out; what meets that is well formed.
pub proof fn identifiers_rise(history: HistoryView)
    ensures
        history.wf() <==> {
            &&& forall|i: int, j: int|
                0 <= i < j < history.runs.len() ==> (#[trigger] history.runs[i]).id < (
                #[trigger] history.runs[j]).id
            &&& forall|i: int|
                0 <= i < history.runs.len() ==> (#[trigger] history.runs[i]).id <= history.last_run
            &&& forall|i: int, j: int|
                0 <= i < j < history.entries.len() ==> (#[trigger] history.entries[i]).id < (
                #[trigger] history.entries[j]).id
            &&& forall|i: int|
                0 <= i < history.entries.len() ==> (#[trigger] history.entries[i]).id
                    <= history.last_entry
            &&& forall|i: int, j: int|
                0 <= i < j < history.snapshots.len() ==> (#[trigger] history.snapshots[i]).id < (
                #[trigger] history.snapshots[j]).id
            &&& forall|i: int|
                0 <= i < history.snapshots.len() ==> (#[trigger] history.snapshots[i]).id
                    <= history.last_snapshot
            &&& forall|i: int, j: int|
                0 <= i < j < history.storage.len() ==> (#[trigger] history.storage[i]).id < (
                #[trigger] history.storage[j]).id
            &&& forall|i: int|
                0 <= i < history.storage.len() ==> (#[trigger] history.storage[i]).id
                    <= history.last_storage
        },
{
    let runs = run_ids(history.runs);
    let entries = entry_ids(history.entries);
    let scans = snapshot_ids(history.snapshots);
    let measures = storage_ids(history.storage);
    assert(runs.len() == history.runs.len());
    assert(entries.len() == history.entries.len());
    assert(scans.len() == history.snapshots.len());
    assert(measures.len() == history.storage.len());
    assert(forall|i: int| 0 <= i < runs.len() ==> #[trigger] runs[i] == history.runs[i].id);
    assert(forall|i: int| 0 <= i < entries.len() ==> #[trigger] entries[i] == history.entries[i].id);
    assert(forall|i: int| 0 <= i < scans.len() ==> #[trigger] scans[i] == history.snapshots[i].id);
    assert(forall|i: int|
        0 <= i < measures.len() ==> #[trigger] measures[i] == history.storage[i].id);
    assert(forall|i: int| 0 <= i < runs.len() ==> (#[trigger] history.runs[i]).id == runs[i]);
    assert(forall|i: int| 0 <= i < entries.len() ==> (#[trigger] history.entries[i]).id == entries[i]);
    assert(forall|i: int| 0 <= i < scans.len() ==> (#[trigger] history.snapshots[i]).id == scans[i]);
    assert(forall|i: int|
        0 <= i < measures.len() ==> (#[trigger] history.storage[i]).id == measures[i]);
}

/// The largest identifier that a table gave out is the recorded one, or that of its last row
/// where this is larger.
pub proof fn given_identifiers_are_kept(ids: Seq<i64>, recorded: i64)
    ensures
        last_given(ids, recorded) >= recorded,
        ids.len() > 0 ==> last_given(ids, recorded) >= ids.last(),
        ids.len() > 0 ==> last_given(ids, recorded) == recorded || last_given(ids, recorded)
            == ids.last(),
        ids.len() == 0 && recorded >= 0 ==> last_given(ids, recorded) == recorded,
        ids.len() == 0 && recorded < 0 ==> last_given(ids, recorded) == 0,
{
}

/// A run as callers see it has each of its parts from the column that is named so.
pub proof fn run_tells_its_columns(row: RunRow)
    ensures
        ({
            let run = row.as_run();
            &&& run.id == row.id
            &&& run.started_at == row.started_at
            &&& run.finished_at == row.finished_at
            &&& run.disk_total == shown(row.disk_total)
            &&& run.free_before == shown(row.free_before)
            &&& run.free_after is Some <==> row.free_after is Some
            &&& row.free_after matches Some(free) ==> run.free_after->0 == shown(free)
            &&& run.discovered_bytes == shown(row.discovered_bytes)
            &&& run.reclaimed_bytes == shown(row.reclaimed_bytes)
            &&& run.files_deleted == shown(row.files_deleted)
            &&& run.dirs_deleted == shown(row.dirs_deleted)
            &&& run.skipped == shown(row.skipped)
            &&& run.errors == shown(row.errors)
            &&& run.duration_ms == shown(row.duration_ms)
            &&& run.status == row.status
        }),
{
}

/// A run of a summary has each of its parts from the column that is named so, and the free
/// space before it for that after it where the run left none.
pub proof fn summary_line_tells_its_columns(row: RunRow)
    ensures
        ({
            let line = row.as_statistics();
            &&& line.started_at == row.started_at
            &&& line.reclaimed_bytes == shown(row.reclaimed_bytes)
            &&& line.free_before == shown(row.free_before)
            &&& row.free_after matches Some(free) ==> line.free_after == shown(free)
            &&& row.free_after is None ==> line.free_after == shown(row.free_before)
            &&& line.errors == shown(row.errors)
        }),
{
}

/// An object of the details has each of its parts from the column that is named so.
pub proof fn detail_tells_its_columns(row: EntryRow)
    ensures
        ({
            let line = row.as_detail();
            &&& line.category == row.category
            &&& line.path == row.path
            &&& line.parent_path == row.parent_path
            &&& line.kind == row.kind
            &&& line.bytes_before == shown(row.bytes_before)
            &&& line.bytes_reclaimed == shown(row.bytes_reclaimed)
            &&& line.rule == row.rule
            &&& line.result == row.result
            &&& line.error == row.error
        }),
{
}

/// The history without rows holds nothing and has given out no identifier.
pub proof fn empty_history_holds_nothing()
    ensures
        HistoryView::empty().runs.len() == 0,
        HistoryView::empty().entries.len() == 0,
        HistoryView::empty().snapshots.len() == 0,
        HistoryView::empty().storage.len() == 0,
        HistoryView::empty().last_run == 0,
        HistoryView::empty().last_entry == 0,
        HistoryView::empty().last_snapshot == 0,
        HistoryView::empty().last_storage == 0,
        HistoryView::empty().wf(),
{
}

} // verus!
