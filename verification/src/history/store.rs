//! The history tables and what is written to them.

use crate::clock::{is_reading, now};
use crate::convert::{column_of, to_i64};
use crate::history::rows::{
    CleanupEntry, EntryRow, RunOutcome, RunRow, SnapshotRow, StorageEntry, StorageRow,
};
use vstd::prelude::*;

verus! {

/// Why a request to the history fails.
#[derive(Debug, Clone, Copy, PartialEq, Eq, Structural)]
pub enum HistoryError {
    /// Every row identifier of the table has been given out.
    OutOfIds,
    /// The entry names a run that the history does not hold.
    UnknownRun,
    /// The entry names a storage scan that the history does not hold.
    UnknownSnapshot,
    /// A sum over a column does not fit the column type.
    SumOverflow,
    /// The rows handed in do not stand in the order of their identifiers.
    Malformed,
    /// The home directory cannot be determined.
    NoHome,
}

/// The contents of the history tables. The rows of each table stand in the order
/// of their identifiers, and `last_run` and its companions are the largest
/// identifiers that each table has ever given out.
#[verifier::ext_equal]
pub ghost struct HistoryView {
    pub runs: Seq<RunRow>,
    pub entries: Seq<EntryRow>,
    pub snapshots: Seq<SnapshotRow>,
    pub storage: Seq<StorageRow>,
    pub last_run: i64,
    pub last_entry: i64,
    pub last_snapshot: i64,
    pub last_storage: i64,
}

/// Whether identifiers rise strictly and none exceeds `last`.
pub open spec fn ids_rise(ids: Seq<i64>, last: i64) -> bool {
    &&& forall|i: int, j: int| 0 <= i < j < ids.len() ==> ids[i] < ids[j]
    &&& forall|i: int| 0 <= i < ids.len() ==> ids[i] <= last
}

/// The largest identifier that a table has given out, where it holds rows with the
/// identifiers `ids`, in their order, and `recorded` was set down as the largest.
pub open spec fn last_given(ids: Seq<i64>, recorded: i64) -> i64 {
    let held = if ids.len() == 0 {
        0
    } else {
        ids.last()
    };
    if held > recorded {
        held
    } else {
        recorded
    }
}

/// The identifiers of runs.
pub open spec fn run_ids(runs: Seq<RunRow>) -> Seq<i64> {
    runs.map_values(|row: RunRow| row.id)
}

/// The identifiers of handled objects.
pub open spec fn entry_ids(entries: Seq<EntryRow>) -> Seq<i64> {
    entries.map_values(|row: EntryRow| row.id)
}

/// The identifiers of storage scans.
pub open spec fn snapshot_ids(snapshots: Seq<SnapshotRow>) -> Seq<i64> {
    snapshots.map_values(|row: SnapshotRow| row.id)
}

/// The identifiers of measured objects.
pub open spec fn storage_ids(storage: Seq<StorageRow>) -> Seq<i64> {
    storage.map_values(|row: StorageRow| row.id)
}

impl HistoryView {
    /// The history without rows.
    pub open spec fn empty() -> HistoryView {
        HistoryView {
            runs: Seq::empty(),
            entries: Seq::empty(),
            snapshots: Seq::empty(),
            storage: Seq::empty(),
            last_run: 0,
            last_entry: 0,
            last_snapshot: 0,
            last_storage: 0,
        }
    }

    /// Whether the history holds the run `id`.
    pub open spec fn has_run(self, id: i64) -> bool {
        run_ids(self.runs).contains(id)
    }

    /// Whether the history holds the storage scan `id`.
    pub open spec fn has_snapshot(self, id: i64) -> bool {
        snapshot_ids(self.snapshots).contains(id)
    }

    /// The invariant of the tables: identifiers rise strictly within what was
    /// given out.
    pub open spec fn wf(self) -> bool {
        &&& ids_rise(run_ids(self.runs), self.last_run)
        &&& ids_rise(entry_ids(self.entries), self.last_entry)
        &&& ids_rise(snapshot_ids(self.snapshots), self.last_snapshot)
        &&& ids_rise(storage_ids(self.storage), self.last_storage)
    }

    /// Whether every entry belongs to a run or scan that is held.
    pub open spec fn entries_belong(self) -> bool {
        &&& forall|i: int|
            0 <= i < self.entries.len() ==> self.has_run((#[trigger] self.entries[i]).run_id)
        &&& forall|i: int|
            0 <= i < self.storage.len() ==> self.has_snapshot(
                (#[trigger] self.storage[i]).snapshot_id,
            )
    }

    /// Whether `self` is `before` with one more run, which has just begun.
    pub open spec fn begins_run(
        self,
        before: HistoryView,
        started_at: i64,
        disk_total: u64,
        free_before: u64,
        discovered_bytes: u64,
        mode: Seq<char>,
    ) -> bool {
        &&& self.runs.len() == before.runs.len() + 1
        &&& self == (HistoryView {
            runs: before.runs.push(self.runs.last()),
            last_run: (before.last_run + 1) as i64,
            ..before
        })
        &&& self.runs.last().is_begun(
            self.last_run,
            started_at,
            disk_total,
            free_before,
            discovered_bytes,
            mode,
        )
    }

    /// Whether `self` is `before` with the outcome of the run `id` written into
    /// its row. Nothing changes where the history does not hold that run.
    pub open spec fn finishes_run(
        self,
        before: HistoryView,
        id: i64,
        finished_at: i64,
        outcome: RunOutcome,
        status: Seq<char>,
    ) -> bool {
        if before.has_run(id) {
            let at = run_ids(before.runs).index_of(id);
            &&& self.runs.len() == before.runs.len()
            &&& self == (HistoryView { runs: before.runs.update(at, self.runs[at]), ..before })
            &&& self.runs[at].is_finished_from(before.runs[at], finished_at, outcome, status)
        } else {
            self == before
        }
    }

    /// The history with one more handled object.
    pub open spec fn with_entry(self, entry: CleanupEntry) -> HistoryView {
        HistoryView {
            entries: self.entries.push(EntryRow::stores((self.last_entry + 1) as i64, entry)),
            last_entry: (self.last_entry + 1) as i64,
            ..self
        }
    }

    /// The history with one more storage scan, which has just begun.
    pub open spec fn with_snapshot(
        self,
        scanned_at: i64,
        disk_total: u64,
        disk_free: u64,
    ) -> HistoryView {
        let id = (self.last_snapshot + 1) as i64;
        HistoryView {
            snapshots: self.snapshots.push(
                SnapshotRow::begins(id, scanned_at, disk_total, disk_free),
            ),
            last_snapshot: id,
            ..self
        }
    }

    /// The history with one more measured object.
    pub open spec fn with_storage(self, entry: StorageEntry) -> HistoryView {
        HistoryView {
            storage: self.storage.push(StorageRow::stores((self.last_storage + 1) as i64, entry)),
            last_storage: (self.last_storage + 1) as i64,
            ..self
        }
    }

    /// The history with the duration of the storage scan `id` written into its
    /// row. Nothing changes where the history does not hold that scan.
    pub open spec fn with_scan_duration(self, id: i64, duration_ms: u64) -> HistoryView {
        if self.has_snapshot(id) {
            let at = snapshot_ids(self.snapshots).index_of(id);
            HistoryView {
                snapshots: self.snapshots.update(
                    at,
                    SnapshotRow { duration_ms: column_of(duration_ms), ..self.snapshots[at] },
                ),
                ..self
            }
        } else {
            self
        }
    }
}

/// The history tables.
pub struct HistoryDb {
    runs: Vec<RunRow>,
    entries: Vec<EntryRow>,
    snapshots: Vec<SnapshotRow>,
    storage: Vec<StorageRow>,
    last_run: i64,
    last_entry: i64,
    last_snapshot: i64,
    last_storage: i64,
}

impl View for HistoryDb {
    type V = HistoryView;

    closed spec fn view(&self) -> HistoryView {
        HistoryView {
            runs: self.runs@,
            entries: self.entries@,
            snapshots: self.snapshots@,
            storage: self.storage@,
            last_run: self.last_run,
            last_entry: self.last_entry,
            last_snapshot: self.last_snapshot,
            last_storage: self.last_storage,
        }
    }
}

proof fn lemma_pushed_id_rises(ids: Seq<i64>, last: i64)
    requires
        ids_rise(ids, last),
        last < i64::MAX,
    ensures
        ids_rise(ids.push((last + 1) as i64), (last + 1) as i64),
{
}

/// Where the run `id` stands among rows in the order of their identifiers.
fn find_run(runs: &Vec<RunRow>, id: i64) -> (found: Option<usize>)
    requires
        exists|last: i64| ids_rise(run_ids(runs@), last),
    ensures
        found is Some <==> run_ids(runs@).contains(id),
        found matches Some(at) ==> at < runs.len() && runs[at as int].id == id && at == run_ids(
            runs@,
        ).index_of(id),
{
    let ghost ids = run_ids(runs@);
    let mut low: usize = 0;
    let mut high: usize = runs.len();
    while low < high
        invariant
            low <= high <= runs.len(),
            ids == run_ids(runs@),
            exists|last: i64| ids_rise(ids, last),
            forall|i: int| 0 <= i < low ==> ids[i] < id,
            forall|i: int| high <= i < ids.len() ==> ids[i] > id,
        decreases high - low,
    {
        let middle = low + (high - low) / 2;
        let found = runs[middle].id;
        assert(ids[middle as int] == found);
        if found == id {
            assert(ids.contains(id));
            return Some(middle);
        } else if found < id {
            low = middle + 1;
        } else {
            high = middle;
        }
    }
    None
}

/// Where the storage scan `id` stands among rows in the order of their identifiers.
fn find_snapshot(snapshots: &Vec<SnapshotRow>, id: i64) -> (found: Option<usize>)
    requires
        exists|last: i64| ids_rise(snapshot_ids(snapshots@), last),
    ensures
        found is Some <==> snapshot_ids(snapshots@).contains(id),
        found matches Some(at) ==> at < snapshots.len() && snapshots[at as int].id == id && at == snapshot_ids(
            snapshots@,
        ).index_of(id),
{
    let ghost ids = snapshot_ids(snapshots@);
    let mut low: usize = 0;
    let mut high: usize = snapshots.len();
    while low < high
        invariant
            low <= high <= snapshots.len(),
            ids == snapshot_ids(snapshots@),
            exists|last: i64| ids_rise(ids, last),
            forall|i: int| 0 <= i < low ==> ids[i] < id,
            forall|i: int| high <= i < ids.len() ==> ids[i] > id,
        decreases high - low,
    {
        let middle = low + (high - low) / 2;
        let found = snapshots[middle].id;
        assert(ids[middle as int] == found);
        if found == id {
            assert(ids.contains(id));
            return Some(middle);
        } else if found < id {
            low = middle + 1;
        } else {
            high = middle;
        }
    }
    None
}

/// Finds the largest identifier that a table has given out.
fn find_last_given(ids: &Vec<i64>, recorded: i64) -> (last: i64)
    ensures
        last == last_given(ids@, recorded),
{
    let held: i64 = if ids.len() == 0 {
        0
    } else {
        ids[ids.len() - 1]
    };
    if held > recorded {
        held
    } else {
        recorded
    }
}

/// Decides whether identifiers rise strictly within what was given out.
fn rise(ids: &Vec<i64>, last: i64) -> (rising: bool)
    ensures
        rising == ids_rise(ids@, last),
{
    let mut at: usize = 0;
    while at < ids.len()
        invariant
            at <= ids.len(),
            ids_rise(ids@.take(at as int), last),
        decreases ids.len() - at,
    {
        if ids[at] > last {
            return false;
        }
        if at > 0 && ids[at - 1] >= ids[at] {
            assert(!ids_rise(ids@, last));
            return false;
        }
        proof {
            let more = ids@.take(at + 1);
            assert forall|i: int, j: int| 0 <= i < j < more.len() implies more[i] < more[j] by {
                assert(at > 0 ==> ids@.take(at as int)[at - 1] == more[at - 1]);
                assert(i < at ==> ids@.take(at as int)[i] == more[i]);
                assert(j < at ==> ids@.take(at as int)[j] == more[j]);
            }
            assert forall|i: int| 0 <= i < more.len() implies more[i] <= last by {
                assert(i < at ==> ids@.take(at as int)[i] == more[i]);
            }
        }
        at = at + 1;
    }
    assert(ids@.take(ids@.len() as int) =~= ids@);
    true
}

/// The largest identifiers that were set down as given out by the tables.
#[derive(Debug, Clone, Copy)]
pub struct LastIds {
    pub run: i64,
    pub entry: i64,
    pub snapshot: i64,
    pub storage: i64,
}

impl HistoryDb {
    /// A history without rows.
    pub fn new() -> (db: HistoryDb)
        ensures
            db@ == HistoryView::empty(),
            db@.wf(),
    {
        HistoryDb {
            runs: Vec::new(),
            entries: Vec::new(),
            snapshots: Vec::new(),
            storage: Vec::new(),
            last_run: 0,
            last_entry: 0,
            last_snapshot: 0,
            last_storage: 0,
        }
    }

    /// The history that holds the given rows. They are refused where the identifiers in
    /// a table do not rise strictly.
    pub fn from_rows(
        runs: Vec<RunRow>,
        entries: Vec<EntryRow>,
        snapshots: Vec<SnapshotRow>,
        storage: Vec<StorageRow>,
        last: LastIds,
    ) -> (made: Result<HistoryDb, HistoryError>)
        ensures
            ({
                let view = HistoryView {
                    runs: runs@,
                    entries: entries@,
                    snapshots: snapshots@,
                    storage: storage@,
                    last_run: last_given(run_ids(runs@), last.run),
                    last_entry: last_given(entry_ids(entries@), last.entry),
                    last_snapshot: last_given(snapshot_ids(snapshots@), last.snapshot),
                    last_storage: last_given(storage_ids(storage@), last.storage),
                };
                match made {
                    Ok(db) => view.wf() && db@ == view,
                    Err(error) => !view.wf() && error == HistoryError::Malformed,
                }
            }),
    {
        let mut runs_ids: Vec<i64> = Vec::new();
        let mut at_runs: usize = 0;
        while at_runs < runs.len()
            invariant
                at_runs <= runs.len(),
                runs_ids@ == run_ids(runs@).take(at_runs as int),
            decreases runs.len() - at_runs,
        {
            runs_ids.push(runs[at_runs].id);
            assert(runs_ids@ =~= run_ids(runs@).take(at_runs + 1));
            at_runs = at_runs + 1;
        }
        assert(runs_ids@ =~= run_ids(runs@));
        let mut entries_ids: Vec<i64> = Vec::new();
        let mut at_entries: usize = 0;
        while at_entries < entries.len()
            invariant
                at_entries <= entries.len(),
                entries_ids@ == entry_ids(entries@).take(at_entries as int),
            decreases entries.len() - at_entries,
        {
            entries_ids.push(entries[at_entries].id);
            assert(entries_ids@ =~= entry_ids(entries@).take(at_entries + 1));
            at_entries = at_entries + 1;
        }
        assert(entries_ids@ =~= entry_ids(entries@));
        let mut snapshots_ids: Vec<i64> = Vec::new();
        let mut at_snapshots: usize = 0;
        while at_snapshots < snapshots.len()
            invariant
                at_snapshots <= snapshots.len(),
                snapshots_ids@ == snapshot_ids(snapshots@).take(at_snapshots as int),
            decreases snapshots.len() - at_snapshots,
        {
            snapshots_ids.push(snapshots[at_snapshots].id);
            assert(snapshots_ids@ =~= snapshot_ids(snapshots@).take(at_snapshots + 1));
            at_snapshots = at_snapshots + 1;
        }
        assert(snapshots_ids@ =~= snapshot_ids(snapshots@));
        let mut measured_ids: Vec<i64> = Vec::new();
        let mut at_storage: usize = 0;
        while at_storage < storage.len()
            invariant
                at_storage <= storage.len(),
                measured_ids@ == storage_ids(storage@).take(at_storage as int),
            decreases storage.len() - at_storage,
        {
            measured_ids.push(storage[at_storage].id);
            assert(measured_ids@ =~= storage_ids(storage@).take(at_storage + 1));
            at_storage = at_storage + 1;
        }
        assert(measured_ids@ =~= storage_ids(storage@));
        let last_run = find_last_given(&runs_ids, last.run);
        let last_entry = find_last_given(&entries_ids, last.entry);
        let last_snapshot = find_last_given(&snapshots_ids, last.snapshot);
        let last_storage = find_last_given(&measured_ids, last.storage);
        if !rise(&runs_ids, last_run) || !rise(&entries_ids, last_entry) || !rise(
            &snapshots_ids,
            last_snapshot,
        ) || !rise(&measured_ids, last_storage) {
            return Err(HistoryError::Malformed);
        }
        Ok(
            HistoryDb {
                runs,
                entries,
                snapshots,
                storage,
                last_run,
                last_entry,
                last_snapshot,
                last_storage,
            },
        )
    }

    /// The rows of the runs, in the order of their identifiers.
    pub fn runs(&self) -> (runs: &Vec<RunRow>)
        ensures
            runs@ == self@.runs,
    {
        &self.runs
    }

    /// The rows of the handled objects, in the order of their identifiers.
    pub fn entries(&self) -> (entries: &Vec<EntryRow>)
        ensures
            entries@ == self@.entries,
    {
        &self.entries
    }

    /// The rows of the storage scans, in the order of their identifiers.
    pub fn snapshots(&self) -> (snapshots: &Vec<SnapshotRow>)
        ensures
            snapshots@ == self@.snapshots,
    {
        &self.snapshots
    }

    /// The rows of the measured objects, in the order of their identifiers.
    pub fn storage(&self) -> (storage: &Vec<StorageRow>)
        ensures
            storage@ == self@.storage,
    {
        &self.storage
    }

    /// Where the run `id` stands among the rows, if it is held.
    pub fn run_position(&self, id: i64) -> (found: Option<usize>)
        requires
            self@.wf(),
        ensures
            found is Some <==> self@.has_run(id),
            found matches Some(at) ==> at < self@.runs.len() && self@.runs[at as int].id == id && at
                == run_ids(self@.runs).index_of(id),
    {
        find_run(&self.runs, id)
    }

    /// Where the storage scan `id` stands among the rows, if it is held.
    pub fn snapshot_position(&self, id: i64) -> (found: Option<usize>)
        requires
            self@.wf(),
        ensures
            found is Some <==> self@.has_snapshot(id),
            found matches Some(at) ==> at < self@.snapshots.len() && self@.snapshots[at as int].id
                == id && at == snapshot_ids(self@.snapshots).index_of(id),
    {
        find_snapshot(&self.snapshots, id)
    }

    /// Begins a run at the time `started_at` and returns its identifier.
    pub fn begin_cleanup_at(
        &mut self,
        started_at: i64,
        disk_total: u64,
        free_before: u64,
        discovered_bytes: u64,
        mode: &str,
    ) -> (begun: Result<i64, HistoryError>)
        requires
            old(self)@.wf(),
        ensures
            final(self)@.wf(),
            old(self)@.last_run == i64::MAX ==> begun == Err::<i64, HistoryError>(
                HistoryError::OutOfIds,
            ) && final(self)@ == old(self)@,
            old(self)@.last_run < i64::MAX ==> begun == Ok::<i64, HistoryError>(
                (old(self)@.last_run + 1) as i64,
            ) && final(self)@.begins_run(
                old(self)@,
                started_at,
                disk_total,
                free_before,
                discovered_bytes,
                mode@,
            ),
    {
        if self.last_run == i64::MAX {
            return Err(HistoryError::OutOfIds);
        }
        let id = self.last_run + 1;
        let row = RunRow::begun(id, started_at, disk_total, free_before, discovered_bytes, mode);
        let ghost added = row;
        self.runs.push(row);
        self.last_run = id;
        proof {
            let before = old(self)@;
            lemma_pushed_id_rises(run_ids(before.runs), before.last_run);
            assert(run_ids(self@.runs) =~= run_ids(before.runs).push(id));
            assert(self@.runs =~= before.runs.push(added));
        }
        Ok(id)
    }

    /// Begins a run now and returns its identifier.
    pub fn begin_cleanup(
        &mut self,
        disk_total: u64,
        free_before: u64,
        discovered_bytes: u64,
        mode: &str,
    ) -> (begun: Result<i64, HistoryError>)
        requires
            old(self)@.wf(),
        ensures
            final(self)@.wf(),
            old(self)@.last_run == i64::MAX ==> begun == Err::<i64, HistoryError>(
                HistoryError::OutOfIds,
            ) && final(self)@ == old(self)@,
            old(self)@.last_run < i64::MAX ==> begun == Ok::<i64, HistoryError>(
                (old(self)@.last_run + 1) as i64,
            ) && final(self)@.begins_run(
                old(self)@,
                final(self)@.runs.last().started_at,
                disk_total,
                free_before,
                discovered_bytes,
                mode@,
            ) && is_reading(final(self)@.runs.last().started_at),
    {
        let started_at = now();
        self.begin_cleanup_at(started_at, disk_total, free_before, discovered_bytes, mode)
    }

    /// Adds a handled object to its run.
    pub fn add_cleanup_entry(&mut self, entry: &CleanupEntry) -> (added: Result<(), HistoryError>)
        requires
            old(self)@.wf(),
        ensures
            final(self)@.wf(),
            old(self)@.last_entry == i64::MAX ==> added == Err::<(), HistoryError>(
                HistoryError::OutOfIds,
            ),
            old(self)@.last_entry < i64::MAX && !old(self)@.has_run(entry.run_id) ==> added
                == Err::<(), HistoryError>(HistoryError::UnknownRun),
            old(self)@.last_entry < i64::MAX && old(self)@.has_run(entry.run_id) ==> added == Ok::<
                (),
                HistoryError,
            >(()),
            final(self)@ == if added is Ok {
                old(self)@.with_entry(*entry)
            } else {
                old(self)@
            },
    {
        if self.last_entry == i64::MAX {
            return Err(HistoryError::OutOfIds);
        }
        if self.run_position(entry.run_id).is_none() {
            return Err(HistoryError::UnknownRun);
        }
        let id = self.last_entry + 1;
        self.entries.push(EntryRow::store(id, entry));
        self.last_entry = id;
        proof {
            let before = old(self)@;
            lemma_pushed_id_rises(entry_ids(before.entries), before.last_entry);
            assert(entry_ids(self@.entries) =~= entry_ids(before.entries).push(id));
            assert(self@.runs =~= before.runs);
            assert(self@ =~= before.with_entry(*entry));
        }
        Ok(())
    }

    /// Writes the outcome of the run `run_id` at the time `finished_at`. A run that
    /// is not held is left alone.
    #[allow(clippy::too_many_arguments)]
    pub fn finish_cleanup_at(
        &mut self,
        finished_at: i64,
        run_id: i64,
        free_after: u64,
        reclaimed_bytes: u64,
        files_deleted: u64,
        dirs_deleted: u64,
        skipped: u64,
        errors: u64,
        duration_ms: u64,
        status: &str,
    )
        requires
            old(self)@.wf(),
        ensures
            final(self)@.wf(),
            final(self)@.finishes_run(
                old(self)@,
                run_id,
                finished_at,
                (RunOutcome {
                    free_after,
                    reclaimed_bytes,
                    files_deleted,
                    dirs_deleted,
                    skipped,
                    errors,
                    duration_ms,
                }),
                status@,
            ),
    {
        let outcome = RunOutcome {
            free_after,
            reclaimed_bytes,
            files_deleted,
            dirs_deleted,
            skipped,
            errors,
            duration_ms,
        };
        if let Some(at) = self.run_position(run_id) {
            self.runs[at].finish(finished_at, &outcome, status);
            proof {
                let before = old(self)@;
                assert(self@.runs =~= before.runs.update(at as int, self@.runs[at as int]));
                assert(run_ids(self@.runs) =~= run_ids(before.runs));
            }
        }
    }

    /// Writes the outcome of the run `run_id` now. A run that is not held is left
    /// alone.
    #[allow(clippy::too_many_arguments)]
    pub fn finish_cleanup(
        &mut self,
        run_id: i64,
        free_after: u64,
        reclaimed_bytes: u64,
        files_deleted: u64,
        dirs_deleted: u64,
        skipped: u64,
        errors: u64,
        duration_ms: u64,
        status: &str,
    )
        requires
            old(self)@.wf(),
        ensures
            final(self)@.wf(),
            exists|finished_at: i64|
                is_reading(finished_at) && #[trigger] final(self)@.finishes_run(
                    old(self)@,
                    run_id,
                    finished_at,
                    (RunOutcome {
                        free_after,
                        reclaimed_bytes,
                        files_deleted,
                        dirs_deleted,
                        skipped,
                        errors,
                        duration_ms,
                    }),
                    status@,
                ),
    {
        let finished_at = now();
        self.finish_cleanup_at(
            finished_at,
            run_id,
            free_after,
            reclaimed_bytes,
            files_deleted,
            dirs_deleted,
            skipped,
            errors,
            duration_ms,
            status,
        )
    }

    /// Begins a storage scan at the time `scanned_at` and returns its identifier.
    pub fn begin_snapshot_at(
        &mut self,
        scanned_at: i64,
        disk_total: u64,
        disk_free: u64,
    ) -> (begun: Result<i64, HistoryError>)
        requires
            old(self)@.wf(),
        ensures
            final(self)@.wf(),
            old(self)@.last_snapshot == i64::MAX ==> begun == Err::<i64, HistoryError>(
                HistoryError::OutOfIds,
            ) && final(self)@ == old(self)@,
            old(self)@.last_snapshot < i64::MAX ==> begun == Ok::<i64, HistoryError>(
                (old(self)@.last_snapshot + 1) as i64,
            ) && final(self)@ == old(self)@.with_snapshot(scanned_at, disk_total, disk_free),
    {
        if self.last_snapshot == i64::MAX {
            return Err(HistoryError::OutOfIds);
        }
        let id = self.last_snapshot + 1;
        self.snapshots.push(SnapshotRow::begun(id, scanned_at, disk_total, disk_free));
        self.last_snapshot = id;
        proof {
            let before = old(self)@;
            lemma_pushed_id_rises(snapshot_ids(before.snapshots), before.last_snapshot);
            assert(snapshot_ids(self@.snapshots) =~= snapshot_ids(before.snapshots).push(id));
            assert(self@ =~= before.with_snapshot(scanned_at, disk_total, disk_free));
        }
        Ok(id)
    }

    /// Begins a storage scan now and returns its identifier.
    pub fn begin_snapshot(&mut self, disk_total: u64, disk_free: u64) -> (begun: Result<
        i64,
        HistoryError,
    >)
        requires
            old(self)@.wf(),
        ensures
            final(self)@.wf(),
            old(self)@.last_snapshot == i64::MAX ==> begun == Err::<i64, HistoryError>(
                HistoryError::OutOfIds,
            ) && final(self)@ == old(self)@,
            old(self)@.last_snapshot < i64::MAX ==> begun == Ok::<i64, HistoryError>(
                (old(self)@.last_snapshot + 1) as i64,
            ) && final(self)@ == old(self)@.with_snapshot(
                final(self)@.snapshots.last().scanned_at,
                disk_total,
                disk_free,
            ) && is_reading(final(self)@.snapshots.last().scanned_at),
    {
        let scanned_at = now();
        self.begin_snapshot_at(scanned_at, disk_total, disk_free)
    }

    /// Adds a measured object to its storage scan.
    pub fn add_storage_entry(&mut self, entry: &StorageEntry) -> (added: Result<(), HistoryError>)
        requires
            old(self)@.wf(),
        ensures
            final(self)@.wf(),
            old(self)@.last_storage == i64::MAX ==> added == Err::<(), HistoryError>(
                HistoryError::OutOfIds,
            ),
            old(self)@.last_storage < i64::MAX && !old(self)@.has_snapshot(entry.snapshot_id)
                ==> added == Err::<(), HistoryError>(HistoryError::UnknownSnapshot),
            old(self)@.last_storage < i64::MAX && old(self)@.has_snapshot(entry.snapshot_id)
                ==> added == Ok::<(), HistoryError>(()),
            final(self)@ == if added is Ok {
                old(self)@.with_storage(*entry)
            } else {
                old(self)@
            },
    {
        if self.last_storage == i64::MAX {
            return Err(HistoryError::OutOfIds);
        }
        if self.snapshot_position(entry.snapshot_id).is_none() {
            return Err(HistoryError::UnknownSnapshot);
        }
        let id = self.last_storage + 1;
        self.storage.push(StorageRow::store(id, entry));
        self.last_storage = id;
        proof {
            let before = old(self)@;
            lemma_pushed_id_rises(storage_ids(before.storage), before.last_storage);
            assert(storage_ids(self@.storage) =~= storage_ids(before.storage).push(id));
            assert(self@.snapshots =~= before.snapshots);
            assert(self@ =~= before.with_storage(*entry));
        }
        Ok(())
    }

    /// Writes the duration of the storage scan `snapshot_id`. A scan that is not held
    /// is left alone.
    pub fn finish_snapshot(&mut self, snapshot_id: i64, duration_ms: u64)
        requires
            old(self)@.wf(),
        ensures
            final(self)@.wf(),
            final(self)@ == old(self)@.with_scan_duration(snapshot_id, duration_ms),
    {
        if let Some(at) = self.snapshot_position(snapshot_id) {
            self.snapshots[at].duration_ms = to_i64(duration_ms);
            proof {
                let before = old(self)@;
                assert(snapshot_ids(self@.snapshots) =~= snapshot_ids(before.snapshots));
                assert(self@ =~= before.with_scan_duration(snapshot_id, duration_ms));
            }
        }
    }
}

} // verus!
