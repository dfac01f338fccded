//! What holds between the writes and the reads of the history.

use crate::clock::cutoff;
use crate::convert::counter_of;
use crate::history::query::{
    earliest, failed_in, is_over, is_reported, last_over, latest, latest_failures, of_reported_run,
    of_run, reported_entries, reported_runs,
};
use crate::history::rows::{CleanupEntry, EntryRow, RunOutcome, RunRow, StorageEntry};
use crate::history::store::{run_ids, snapshot_ids, HistoryView};
use crate::history::tally::{
    category_before, category_is, has_category, in_category, lists_categories, reclaimed_column,
    reclaimed_in,
};
use crate::text::{precedes_is_irreflexive, precedes_is_total, precedes_is_transitive};
use vstd::prelude::*;

verus! {

/// A counter as it comes back from its column: itself, capped at the largest
/// column value.
pub open spec fn kept(counter: u64) -> u64 {
    if counter <= i64::MAX {
        counter
    } else {
        i64::MAX as u64
    }
}

/// A run that has just begun is the latest run. It reads back with what it began
/// with and without an outcome.
pub proof fn begun_run_is_latest(
    before: HistoryView,
    after: HistoryView,
    started_at: i64,
    disk_total: u64,
    free_before: u64,
    discovered_bytes: u64,
    mode: Seq<char>,
)
    requires
        before.wf(),
        before.last_run < i64::MAX,
        after.begins_run(before, started_at, disk_total, free_before, discovered_bytes, mode),
    ensures
        ({
            let run = after.runs.last().as_run();
            &&& run.id == before.last_run + 1
            &&& run.started_at == started_at
            &&& run.finished_at is None
            &&& run.disk_total == kept(disk_total)
            &&& run.free_before == kept(free_before)
            &&& run.free_after is None
            &&& run.discovered_bytes == kept(discovered_bytes)
            &&& run.reclaimed_bytes == 0
            &&& run.files_deleted == 0
            &&& run.dirs_deleted == 0
            &&& run.skipped == 0
            &&& run.errors == 0
            &&& run.duration_ms == 0
            &&& run.status@ == "running"@
        }),
{
}

/// The identifier of a new run is larger than every identifier before it.
pub proof fn run_ids_are_fresh(
    before: HistoryView,
    after: HistoryView,
    started_at: i64,
    disk_total: u64,
    free_before: u64,
    discovered_bytes: u64,
    mode: Seq<char>,
)
    requires
        before.wf(),
        before.last_run < i64::MAX,
        after.begins_run(before, started_at, disk_total, free_before, discovered_bytes, mode),
    ensures
        !before.has_run(after.last_run),
        after.has_run(after.last_run),
        forall|i: int| 0 <= i < before.runs.len() ==> (#[trigger] before.runs[i]).id
            < after.last_run,
{
    assert forall|i: int| 0 <= i < before.runs.len() implies (#[trigger] before.runs[i]).id
        < after.last_run by {
        assert(run_ids(before.runs)[i] <= before.last_run);
    }
    assert(run_ids(after.runs)[before.runs.len() as int] == after.last_run);
}

/// What a run was finished with is what the latest run reads back, where it is the
/// latest: the outcome, capped at the largest column value, and everything that it
/// began with.
pub proof fn finished_run_reads_back(
    before: HistoryView,
    after: HistoryView,
    finished_at: i64,
    outcome: RunOutcome,
    status: Seq<char>,
)
    requires
        before.wf(),
        before.runs.len() > 0,
        after.finishes_run(before, before.runs.last().id, finished_at, outcome, status),
    ensures
        after.runs.len() == before.runs.len(),
        ({
            let run = after.runs.last().as_run();
            let begun = before.runs.last().as_run();
            &&& run.id == begun.id
            &&& run.started_at == begun.started_at
            &&& run.finished_at == Some(finished_at)
            &&& run.disk_total == begun.disk_total
            &&& run.free_before == begun.free_before
            &&& run.free_after == Some(kept(outcome.free_after))
            &&& run.discovered_bytes == begun.discovered_bytes
            &&& run.reclaimed_bytes == kept(outcome.reclaimed_bytes)
            &&& run.files_deleted == kept(outcome.files_deleted)
            &&& run.dirs_deleted == kept(outcome.dirs_deleted)
            &&& run.skipped == kept(outcome.skipped)
            &&& run.errors == kept(outcome.errors)
            &&& run.duration_ms == kept(outcome.duration_ms)
            &&& run.status@ == status
        }),
{
    let ids = run_ids(before.runs);
    let last = before.runs.len() - 1;
    assert(ids[last] == before.runs.last().id);
    assert(ids.contains(ids[last]));
    let at = ids.index_of(ids[last]);
    assert(at == last);
}

/// Finishing one run leaves every other row alone.
pub proof fn finishing_touches_one_run(
    before: HistoryView,
    after: HistoryView,
    id: i64,
    finished_at: i64,
    outcome: RunOutcome,
    status: Seq<char>,
)
    requires
        before.wf(),
        after.finishes_run(before, id, finished_at, outcome, status),
    ensures
        after.runs.len() == before.runs.len(),
        forall|i: int|
            0 <= i < before.runs.len() && (#[trigger] before.runs[i]).id != id ==> after.runs[i]
                == before.runs[i],
        after.entries == before.entries,
        after.snapshots == before.snapshots,
        after.storage == before.storage,
{
    if before.has_run(id) {
        let at = run_ids(before.runs).index_of(id);
        assert(run_ids(before.runs)[at] == id);
    }
}

/// The entries of a history in which each belongs to a run or scan go on to belong to
/// one where a run begins.
pub proof fn begun_run_keeps_entries(
    before: HistoryView,
    after: HistoryView,
    started_at: i64,
    disk_total: u64,
    free_before: u64,
    discovered_bytes: u64,
    mode: Seq<char>,
)
    requires
        before.entries_belong(),
        after.begins_run(before, started_at, disk_total, free_before, discovered_bytes, mode),
    ensures
        after.entries_belong(),
{
    lemma_held_runs_stay(before, after);
}

/// The same holds where a run is finished.
pub proof fn finished_run_keeps_entries(
    before: HistoryView,
    after: HistoryView,
    id: i64,
    finished_at: i64,
    outcome: RunOutcome,
    status: Seq<char>,
)
    requires
        before.entries_belong(),
        after.finishes_run(before, id, finished_at, outcome, status),
    ensures
        after.entries_belong(),
{
    if before.has_run(id) {
        let at = run_ids(before.runs).index_of(id);
        assert(run_ids(before.runs)[at] == id);
        lemma_held_runs_stay(before, after);
    }
}

/// The same holds where a storage scan begins.
pub proof fn begun_scan_keeps_entries(
    before: HistoryView,
    scanned_at: i64,
    disk_total: u64,
    disk_free: u64,
)
    requires
        before.entries_belong(),
    ensures
        before.with_snapshot(scanned_at, disk_total, disk_free).entries_belong(),
{
    lemma_held_scans_stay(before, before.with_snapshot(scanned_at, disk_total, disk_free));
}

/// The same holds where a storage scan is finished.
pub proof fn finished_scan_keeps_entries(before: HistoryView, id: i64, duration_ms: u64)
    requires
        before.entries_belong(),
    ensures
        before.with_scan_duration(id, duration_ms).entries_belong(),
{
    if before.has_snapshot(id) {
        let at = snapshot_ids(before.snapshots).index_of(id);
        assert(snapshot_ids(before.snapshots)[at] == id);
        lemma_held_scans_stay(before, before.with_scan_duration(id, duration_ms));
    }
}

/// The same holds where an entry is added, which is refused unless its run or scan is
/// held.
pub proof fn added_entry_belongs(
    before: HistoryView,
    entry: CleanupEntry,
    measured: StorageEntry,
)
    requires
        before.entries_belong(),
    ensures
        before.has_run(entry.run_id) ==> before.with_entry(entry).entries_belong(),
        before.has_snapshot(measured.snapshot_id) ==> before.with_storage(
            measured,
        ).entries_belong(),
{
    let after = before.with_entry(entry);
    assert forall|i: int| 0 <= i < after.entries.len() && before.has_run(
        entry.run_id,
    ) implies after.has_run((#[trigger] after.entries[i]).run_id) by {
        if i < before.entries.len() {
            assert(after.entries[i] == before.entries[i]);
        }
    }
    let after = before.with_storage(measured);
    assert forall|i: int| 0 <= i < after.storage.len() && before.has_snapshot(
        measured.snapshot_id,
    ) implies after.has_snapshot((#[trigger] after.storage[i]).snapshot_id) by {
        if i < before.storage.len() {
            assert(after.storage[i] == before.storage[i]);
        }
    }
}

proof fn lemma_held_runs_stay(before: HistoryView, after: HistoryView)
    requires
        before.entries_belong(),
        after.entries == before.entries,
        after.snapshots == before.snapshots,
        after.storage == before.storage,
        before.runs.len() <= after.runs.len(),
        forall|i: int| 0 <= i < before.runs.len() ==> (#[trigger] before.runs[i]).id
            == after.runs[i].id,
    ensures
        after.entries_belong(),
{
    assert forall|i: int| 0 <= i < after.entries.len() implies after.has_run(
        (#[trigger] after.entries[i]).run_id,
    ) by {
        let named = before.entries[i].run_id;
        let at = choose|at: int| 0 <= at < before.runs.len() && run_ids(before.runs)[at] == named;
        assert(before.runs[at].id == after.runs[at].id);
        assert(run_ids(after.runs)[at] == named);
    }
    assert forall|i: int| 0 <= i < after.storage.len() implies after.has_snapshot(
        (#[trigger] after.storage[i]).snapshot_id,
    ) by {
        assert(before.has_snapshot(before.storage[i].snapshot_id));
    }
}

proof fn lemma_held_scans_stay(before: HistoryView, after: HistoryView)
    requires
        before.entries_belong(),
        after.runs == before.runs,
        after.entries == before.entries,
        after.storage == before.storage,
        before.snapshots.len() <= after.snapshots.len(),
        forall|i: int| 0 <= i < before.snapshots.len() ==> (#[trigger] before.snapshots[i]).id
            == after.snapshots[i].id,
    ensures
        after.entries_belong(),
{
    assert forall|i: int| 0 <= i < after.storage.len() implies after.has_snapshot(
        (#[trigger] after.storage[i]).snapshot_id,
    ) by {
        let named = before.storage[i].snapshot_id;
        let at = choose|at: int|
            0 <= at < before.snapshots.len() && snapshot_ids(before.snapshots)[at] == named;
        assert(before.snapshots[at].id == after.snapshots[at].id);
        assert(snapshot_ids(after.snapshots)[at] == named);
    }
    assert forall|i: int| 0 <= i < after.entries.len() implies after.has_run(
        (#[trigger] after.entries[i]).run_id,
    ) by {
        assert(before.has_run(before.entries[i].run_id));
    }
}

/// A run that has just begun is reported by no period: it changes neither the runs
/// nor the objects of any summary.
pub proof fn begun_run_is_not_reported(
    before: HistoryView,
    after: HistoryView,
    started_at: i64,
    disk_total: u64,
    free_before: u64,
    discovered_bytes: u64,
    mode: Seq<char>,
    start: i64,
)
    requires
        before.wf(),
        before.last_run < i64::MAX,
        after.begins_run(before, started_at, disk_total, free_before, discovered_bytes, mode),
    ensures
        reported_runs(after.runs, start) == reported_runs(before.runs, start),
        reported_entries(after.runs, after.entries, start) == reported_entries(
            before.runs,
            before.entries,
            start,
        ),
        last_over(after.runs) == last_over(before.runs),
        latest_failures(after.runs, after.entries) == latest_failures(
            before.runs,
            before.entries,
        ),
{
    let row = after.runs.last();
    before.runs.lemma_filter_push(row, is_reported(start));
    before.runs.lemma_filter_push(row, is_over());
    let old_test = of_reported_run(before.runs, start);
    let new_test = of_reported_run(after.runs, start);
    assert forall|entry: EntryRow| #[trigger] old_test(entry) == new_test(entry) by {
        if old_test(entry) {
            let i = choose|i: int|
                0 <= i < before.runs.len() && (#[trigger] before.runs[i]).id == entry.run_id
                    && is_reported(start)(before.runs[i]);
            assert(after.runs[i].id == entry.run_id && is_reported(start)(after.runs[i]));
        }
        if new_test(entry) {
            let i = choose|i: int|
                0 <= i < after.runs.len() && (#[trigger] after.runs[i]).id == entry.run_id
                    && is_reported(start)(after.runs[i]);
            assert(i < before.runs.len());
            assert(before.runs[i].id == entry.run_id && is_reported(start)(before.runs[i]));
        }
    }
    assert(old_test =~= new_test);
}

/// A run that is finished with a final status is reported by every period that it
/// began in.
pub proof fn finished_run_is_reported(
    before: HistoryView,
    after: HistoryView,
    id: i64,
    finished_at: i64,
    outcome: RunOutcome,
    status: Seq<char>,
    start: i64,
)
    requires
        before.wf(),
        before.has_run(id),
        after.finishes_run(before, id, finished_at, outcome, status),
        status != "running"@,
        before.runs[run_ids(before.runs).index_of(id)].started_at >= start,
    ensures
        ({
            let row = after.runs[run_ids(before.runs).index_of(id)];
            row.id == id && reported_runs(after.runs, start).contains(row)
        }),
{
    let at = run_ids(before.runs).index_of(id);
    let row = after.runs[at];
    assert(run_ids(before.runs)[at] == id);
    assert(is_reported(start)(row));
    after.runs.lemma_filter_contains(is_reported(start), at);
}

/// A handled object counts towards its category: what the category of its run
/// reclaims grows by what the object reclaimed, and other categories of that run
/// stay as they are.
pub proof fn entry_adds_to_its_category(before: HistoryView, entry: CleanupEntry, name: Seq<char>)
    requires
        before.wf(),
        before.last_entry < i64::MAX,
    ensures
        ({
            let after = before.with_entry(entry);
            let old_rows = before.entries.filter(of_run(entry.run_id));
            let new_rows = after.entries.filter(of_run(entry.run_id));
            &&& new_rows.len() == old_rows.len() + 1
            &&& reclaimed_in(new_rows, name) == reclaimed_in(old_rows, name)
                + if entry.category@ == name {
                kept(entry.bytes_reclaimed) as int
            } else {
                0
            }
        }),
{
    let after = before.with_entry(entry);
    let row = EntryRow::stores((before.last_entry + 1) as i64, entry);
    let old_rows = before.entries.filter(of_run(entry.run_id));
    before.entries.lemma_filter_push(row, of_run(entry.run_id));
    old_rows.lemma_filter_push(row, category_is(name));
    let part = in_category(old_rows, name);
    assert(reclaimed_column(part.push(row)) =~= reclaimed_column(part).push(row.bytes_reclaimed));
    assert(reclaimed_column(part).push(row.bytes_reclaimed).drop_last() =~= reclaimed_column(part));
}

/// A handled object leaves the objects of every other run alone.
pub proof fn entry_leaves_other_runs(before: HistoryView, entry: CleanupEntry, run_id: i64)
    requires
        before.wf(),
        before.last_entry < i64::MAX,
        entry.run_id != run_id,
    ensures
        before.with_entry(entry).entries.filter(of_run(run_id)) == before.entries.filter(
            of_run(run_id),
        ),
{
    let row = EntryRow::stores((before.last_entry + 1) as i64, entry);
    before.entries.lemma_filter_push(row, of_run(run_id));
}

/// An object that failed in the last finished run is reported last among its
/// errors, with its reason.
pub proof fn failed_entry_is_reported(before: HistoryView, entry: CleanupEntry)
    requires
        before.wf(),
        before.last_entry < i64::MAX,
        last_over(before.runs) == Some(entry.run_id),
    ensures
        ({
            let after = before.with_entry(entry);
            let row = EntryRow::stores((before.last_entry + 1) as i64, entry);
            latest_failures(after.runs, after.entries) == if entry.result@ == "error"@ {
                latest_failures(before.runs, before.entries).push(row)
            } else {
                latest_failures(before.runs, before.entries)
            }
        }),
{
    let row = EntryRow::stores((before.last_entry + 1) as i64, entry);
    before.entries.lemma_filter_push(row, failed_in(entry.run_id));
}

/// A stored object reads back in the details as it was handed in, with its sizes
/// capped at the largest column value.
pub proof fn entry_reads_back(id: i64, entry: CleanupEntry)
    ensures
        ({
            let detail = EntryRow::stores(id, entry).as_detail();
            &&& detail.category == entry.category
            &&& detail.path == entry.path
            &&& detail.parent_path == entry.parent_path
            &&& detail.kind == entry.kind
            &&& detail.bytes_before == kept(entry.bytes_before)
            &&& detail.bytes_reclaimed == kept(entry.bytes_reclaimed)
            &&& detail.rule == entry.rule
            &&& detail.result == entry.result
            &&& detail.error == entry.error
        }),
{
}

/// A longer period reports every run that a shorter one reports.
pub proof fn longer_period_reports_more(
    runs: Seq<RunRow>,
    now: i64,
    short: u64,
    long: u64,
    row: RunRow,
)
    requires
        short <= long,
        reported_runs(runs, cutoff(now, Some(short)) as i64).contains(row),
    ensures
        reported_runs(runs, cutoff(now, Some(long)) as i64).contains(row),
{
    let near = cutoff(now, Some(short)) as i64;
    let far = cutoff(now, Some(long)) as i64;
    crate::clock::longer_period_starts_earlier(now, short, long);
    let found = reported_runs(runs, near);
    let k = choose|k: int| 0 <= k < found.len() && found[k] == row;
    runs.lemma_filter_pred(is_reported(near), k);
    runs.lemma_filter_contains_rev(is_reported(near), row);
    let i = choose|i: int| 0 <= i < runs.len() && runs[i] == row;
    runs.lemma_filter_contains(is_reported(far), i);
}

/// No run of a period began before the one whose free space opens the summary, nor
/// after the one whose free space closes it.
pub proof fn summary_spans_the_period(runs: Seq<RunRow>)
    requires
        runs.len() > 0,
    ensures
        0 <= earliest(runs) < runs.len(),
        0 <= latest(runs) < runs.len(),
        forall|i: int|
            0 <= i < runs.len() ==> runs[earliest(runs)].started_at <= (
            #[trigger] runs[i]).started_at <= runs[latest(runs)].started_at,
    decreases runs.len(),
{
    if runs.len() > 1 {
        let rest = runs.drop_last();
        summary_spans_the_period(rest);
        assert forall|i: int| 0 <= i < runs.len() implies runs[earliest(runs)].started_at <= (
        #[trigger] runs[i]).started_at <= runs[latest(runs)].started_at by {
            assert(runs[earliest(rest)] == rest[earliest(rest)]);
            assert(runs[latest(rest)] == rest[latest(rest)]);
            if i < rest.len() {
                assert(rest[i] == runs[i]);
            }
        }
    }
}

/// There is only one list of the first categories of given objects.
pub proof fn category_list_is_unique(
    rows: Seq<EntryRow>,
    limit: int,
    names_fall: bool,
    one: Seq<Seq<char>>,
    two: Seq<Seq<char>>,
)
    requires
        lists_categories(rows, limit, names_fall, one),
        lists_categories(rows, limit, names_fall, two),
    ensures
        one == two,
{
    if one.len() < two.len() {
        lemma_prefix_agrees(rows, limit, names_fall, one, two, one.len() as int);
        lemma_nothing_beyond(rows, limit, names_fall, one, two);
    } else if two.len() < one.len() {
        lemma_prefix_agrees(rows, limit, names_fall, two, one, two.len() as int);
        lemma_nothing_beyond(rows, limit, names_fall, two, one);
    } else {
        lemma_prefix_agrees(rows, limit, names_fall, one, two, one.len() as int);
        assert(one =~= two);
    }
}

proof fn lemma_category_order(
    rows: Seq<EntryRow>,
    names_fall: bool,
    left: Seq<char>,
    right: Seq<char>,
)
    ensures
        left == right || category_before(rows, names_fall, left, right) || category_before(
            rows,
            names_fall,
            right,
            left,
        ),
        !(category_before(rows, names_fall, left, right) && category_before(
            rows,
            names_fall,
            right,
            left,
        )),
        !category_before(rows, names_fall, left, left),
{
    precedes_is_total(left, right);
    precedes_is_irreflexive(left);
    if crate::text::precedes(left, right) && crate::text::precedes(right, left) {
        precedes_is_transitive(left, right, left);
    }
}

proof fn lemma_prefix_agrees(
    rows: Seq<EntryRow>,
    limit: int,
    names_fall: bool,
    one: Seq<Seq<char>>,
    two: Seq<Seq<char>>,
    upto: int,
)
    requires
        lists_categories(rows, limit, names_fall, one),
        lists_categories(rows, limit, names_fall, two),
        0 <= upto <= one.len(),
        upto <= two.len(),
    ensures
        forall|i: int| 0 <= i < upto ==> one[i] == #[trigger] two[i],
    decreases upto,
{
    if upto > 0 {
        let at = upto - 1;
        lemma_prefix_agrees(rows, limit, names_fall, one, two, at);
        let a = one[at];
        let b = two[at];
        lemma_category_order(rows, names_fall, a, b);
        if category_before(rows, names_fall, a, b) {
            lemma_not_passed(rows, limit, names_fall, one, two, at);
        } else if category_before(rows, names_fall, b, a) {
            lemma_not_passed(rows, limit, names_fall, two, one, at);
        }
    }
}

/// Where two lists agree up to a position, the first cannot hold an earlier
/// category there than the second.
proof fn lemma_not_passed(
    rows: Seq<EntryRow>,
    limit: int,
    names_fall: bool,
    one: Seq<Seq<char>>,
    two: Seq<Seq<char>>,
    at: int,
)
    requires
        lists_categories(rows, limit, names_fall, one),
        lists_categories(rows, limit, names_fall, two),
        0 <= at < one.len(),
        at < two.len(),
        forall|i: int| 0 <= i < at ==> #[trigger] one[i] == two[i],
    ensures
        !category_before(rows, names_fall, one[at], two[at]),
{
    let a = one[at];
    let b = two[at];
    lemma_category_order(rows, names_fall, a, b);
    assert(has_category(rows, a));
    if category_before(rows, names_fall, a, b) && two.contains(a) {
        let j = choose|j: int| 0 <= j < two.len() && two[j] == a;
        if j < at {
            assert(one[j] == a);
            assert(category_before(rows, names_fall, one[j], one[at]));
            lemma_category_order(rows, names_fall, a, a);
        } else if j == at {
            lemma_category_order(rows, names_fall, a, a);
        } else {
            assert(category_before(rows, names_fall, two[at], two[j]));
        }
    } else if category_before(rows, names_fall, a, b) {
        assert(category_before(rows, names_fall, two[at], a));
    }
}

/// A list that another one extends is the whole list.
proof fn lemma_nothing_beyond(
    rows: Seq<EntryRow>,
    limit: int,
    names_fall: bool,
    short: Seq<Seq<char>>,
    long: Seq<Seq<char>>,
)
    requires
        lists_categories(rows, limit, names_fall, short),
        lists_categories(rows, limit, names_fall, long),
        short.len() <= long.len(),
        forall|i: int| 0 <= i < short.len() ==> short[i] == #[trigger] long[i],
    ensures
        short.len() == long.len(),
{
    if short.len() < long.len() {
        let extra = long[short.len() as int];
        assert(has_category(rows, extra));
        assert(short.contains(extra));
        let j = choose|j: int| 0 <= j < short.len() && short[j] == extra;
        assert(long[j] == extra);
        assert(category_before(rows, names_fall, long[j], long[short.len() as int]));
        lemma_category_order(rows, names_fall, extra, extra);
    }
}

/// What a finished storage scan took is what its row holds, and nothing else of the
/// history changes.
pub proof fn scan_duration_reads_back(before: HistoryView, id: i64, duration_ms: u64)
    requires
        before.wf(),
        before.has_snapshot(id),
    ensures
        ({
            let after = before.with_scan_duration(id, duration_ms);
            let at = crate::history::store::snapshot_ids(before.snapshots).index_of(id);
            &&& after.snapshots[at].id == id
            &&& counter_of(after.snapshots[at].duration_ms) == kept(duration_ms)
            &&& forall|i: int|
                0 <= i < before.snapshots.len() && i != at ==> #[trigger] after.snapshots[i]
                    == before.snapshots[i]
            &&& after.runs == before.runs
            &&& after.entries == before.entries
            &&& after.storage == before.storage
        }),
{
    let ids = crate::history::store::snapshot_ids(before.snapshots);
    let at = ids.index_of(id);
    assert(ids[at] == id);
}

} // verus!
