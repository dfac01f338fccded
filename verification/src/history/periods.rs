//! What is read from the history of a period, told by the columns of its rows.

use crate::clock::{cutoff, period_starts_its_days_before_now};
use crate::history::columns::shown;
use crate::history::order::{
    newest_first, order_changes_no_category, reported_entries_come_run_by_run, run_by_run,
};
use crate::history::query::{
    are_totals, category_names, detail_lines, earliest, failed_in, is_over, is_reported, last_over,
    latest, latest_failures, lemma_same_sums, of_reported_run, of_run, reason_of, reported_entries,
    reported_runs, runs_dirs, runs_errors, runs_files, runs_reclaimed, runs_skipped,
    started_column, statistics_lines, summary_fits, total_names, MOST_DETAILS, RECENT_RUNS,
};
use crate::history::ranking::{ranks_before, top, top_is_found};
use crate::history::rows::{
    CategoryTotal, EntryRow, RunRow, StatisticsDetail, StatisticsSnapshot,
};
use crate::history::store::{ids_rise, run_ids};
use crate::history::tally::{
    adds_up, category_before, category_is, fits, has_category, in_category, reclaimed_column,
    reclaimed_in, result_is, results_in, sums_fit, total,
};
use crate::text::precedes;
use vstd::prelude::*;
use vstd::seq_lib::to_multiset_contains;

verus! {

proof fn lemma_kept<T>(rows: Seq<T>, test: spec_fn(T) -> bool, row: T)
    ensures
        rows.filter(test).contains(row) <==> rows.contains(row) && test(row),
{
    if rows.filter(test).contains(row) {
        let k = rows.filter(test).index_of(row);
        rows.lemma_filter_pred(test, k);
        rows.lemma_filter_contains_rev(test, row);
    }
    if rows.contains(row) && test(row) {
        let i = rows.index_of(row);
        rows.lemma_filter_contains(test, i);
    }
}

/// A period of some days reports exactly the runs that are no longer running and that began at
/// most that many days of 86 400 seconds ago, wherever that time can be written down. The
/// period without a length reports those since 1970.
pub proof fn period_reports_its_runs(runs: Seq<RunRow>, now: i64, days: u64, row: RunRow)
    ensures
        days * 86_400 <= i64::MAX && now - days * 86_400 >= i64::MIN ==> (reported_runs(
            runs,
            cutoff(now, Some(days)) as i64,
        ).contains(row) <==> runs.contains(row) && now - row.started_at <= days * 86_400
            && row.status@ != "running"@),
        reported_runs(runs, cutoff(now, None) as i64).contains(row) <==> runs.contains(row)
            && row.started_at >= 0 && row.status@ != "running"@,
{
    period_starts_its_days_before_now(now, days);
    lemma_kept(runs, is_reported(cutoff(now, Some(days)) as i64), row);
    lemma_kept(runs, is_reported(cutoff(now, None) as i64), row);
}

/// A period reports each of its runs as often as it is held, in the order in which they are
/// held: one more run is one more that is reported, behind the others, where it belongs to the
/// period, and none otherwise.
pub proof fn one_more_run_is_reported(runs: Seq<RunRow>, row: RunRow, start: i64)
    ensures
        reported_runs(Seq::empty(), start).len() == 0,
        row.started_at >= start && row.status@ != "running"@ ==> reported_runs(
            runs.push(row),
            start,
        ) == reported_runs(runs, start).push(row),
        row.started_at < start || row.status@ == "running"@ ==> reported_runs(
            runs.push(row),
            start,
        ) == reported_runs(runs, start),
{
    runs.lemma_filter_push(row, is_reported(start));
    reveal(Seq::filter);
}

/// A period reports exactly the objects that one of its runs handled, in the order in which
/// they are held.
pub proof fn period_reports_its_objects(
    runs: Seq<RunRow>,
    entries: Seq<EntryRow>,
    start: i64,
    entry: EntryRow,
)
    ensures
        reported_entries(runs, entries, start).contains(entry) <==> entries.contains(entry)
            && exists|i: int|
            0 <= i < runs.len() && (#[trigger] runs[i]).id == entry.run_id && runs[i].started_at
                >= start && runs[i].status@ != "running"@,
        (exists|i: int|
            0 <= i < runs.len() && (#[trigger] runs[i]).id == entry.run_id && runs[i].started_at
                >= start && runs[i].status@ != "running"@) ==> reported_entries(
            runs,
            entries.push(entry),
            start,
        ) == reported_entries(runs, entries, start).push(entry),
        !(exists|i: int|
            0 <= i < runs.len() && (#[trigger] runs[i]).id == entry.run_id && runs[i].started_at
                >= start && runs[i].status@ != "running"@) ==> reported_entries(
            runs,
            entries.push(entry),
            start,
        ) == reported_entries(runs, entries, start),
{
    let test = of_reported_run(runs, start);
    lemma_kept(entries, test, entry);
    entries.lemma_filter_push(entry, test);
    let found = exists|i: int|
        0 <= i < runs.len() && (#[trigger] runs[i]).id == entry.run_id && runs[i].started_at
            >= start && runs[i].status@ != "running"@;
    if found {
        let i = choose|i: int|
            0 <= i < runs.len() && (#[trigger] runs[i]).id == entry.run_id && runs[i].started_at
                >= start && runs[i].status@ != "running"@;
        assert(is_reported(start)(runs[i]));
        assert(test(entry));
    }
    if test(entry) {
        let i = choose|i: int|
            0 <= i < runs.len() && (#[trigger] runs[i]).id == entry.run_id && is_reported(start)(
                runs[i],
            );
        assert(runs[i].started_at >= start);
        assert(found);
    }
}

/// The sum of a column over rows.
pub open spec fn sum_over<T>(rows: Seq<T>, column: spec_fn(T) -> int) -> int {
    rows.fold_left(0, |sum: int, row: T| sum + column(row))
}

proof fn lemma_sum<T>(rows: Seq<T>, column: spec_fn(T) -> int, values: Seq<i64>)
    requires
        values.len() == rows.len(),
        forall|i: int| 0 <= i < rows.len() ==> values[i] == column(#[trigger] rows[i]),
    ensures
        total(values) == sum_over(rows, column),
    decreases rows.len(),
{
    if rows.len() > 0 {
        let less = rows.drop_last();
        assert forall|i: int| 0 <= i < less.len() implies values.drop_last()[i] == column(
            #[trigger] less[i],
        ) by {
            assert(less[i] == rows[i]);
        }
        lemma_sum(less, column, values.drop_last());
        assert(rows[rows.len() - 1] == rows.last());
    }
}

/// The totals of a summary are the number of its runs and the sums of the columns that they
/// are named after, where these fit a column. A sum below zero is shown as zero.
pub proof fn summary_adds_its_runs_up(
    summary: StatisticsSnapshot,
    runs: Seq<RunRow>,
    entries: Seq<EntryRow>,
)
    requires
        summary.summarises(runs, entries),
    ensures
        summary.runs == runs.len(),
        ({
            let sum = sum_over(runs, |run: RunRow| run.reclaimed_bytes as int);
            i64::MIN <= sum <= i64::MAX ==> summary.reclaimed_bytes == shown(sum as i64)
        }),
        ({
            let sum = sum_over(runs, |run: RunRow| run.files_deleted as int);
            i64::MIN <= sum <= i64::MAX ==> summary.files_deleted == shown(sum as i64)
        }),
        ({
            let sum = sum_over(runs, |run: RunRow| run.dirs_deleted as int);
            i64::MIN <= sum <= i64::MAX ==> summary.dirs_deleted == shown(sum as i64)
        }),
        ({
            let sum = sum_over(runs, |run: RunRow| run.skipped as int);
            i64::MIN <= sum <= i64::MAX ==> summary.skipped == shown(sum as i64)
        }),
        ({
            let sum = sum_over(runs, |run: RunRow| run.errors as int);
            i64::MIN <= sum <= i64::MAX ==> summary.errors == shown(sum as i64)
        }),
{
    lemma_sum(runs, |run: RunRow| run.reclaimed_bytes as int, runs_reclaimed(runs));
    lemma_sum(runs, |run: RunRow| run.files_deleted as int, runs_files(runs));
    lemma_sum(runs, |run: RunRow| run.dirs_deleted as int, runs_dirs(runs));
    lemma_sum(runs, |run: RunRow| run.skipped as int, runs_skipped(runs));
    lemma_sum(runs, |run: RunRow| run.errors as int, runs_errors(runs));
}

proof fn lemma_ends(runs: Seq<RunRow>)
    requires
        runs.len() > 0,
    ensures
        0 <= earliest(runs) < runs.len(),
        0 <= latest(runs) < runs.len(),
        forall|i: int| 0 <= i < runs.len() ==> {
            &&& runs[earliest(runs)].started_at <= (#[trigger] runs[i]).started_at
            &&& runs[earliest(runs)].started_at == runs[i].started_at ==> i <= earliest(runs)
            &&& runs[i].started_at <= runs[latest(runs)].started_at
            &&& runs[latest(runs)].started_at == runs[i].started_at ==> latest(runs) <= i
        },
    decreases runs.len(),
{
    if runs.len() > 1 {
        let rest = runs.drop_last();
        lemma_ends(rest);
        assert(runs[earliest(rest)] == rest[earliest(rest)]);
        assert(runs[latest(rest)] == rest[latest(rest)]);
        assert forall|i: int| 0 <= i < runs.len() implies {
            &&& runs[earliest(runs)].started_at <= (#[trigger] runs[i]).started_at
            &&& runs[earliest(runs)].started_at == runs[i].started_at ==> i <= earliest(runs)
            &&& runs[i].started_at <= runs[latest(runs)].started_at
            &&& runs[latest(runs)].started_at == runs[i].started_at ==> latest(runs) <= i
        } by {
            if i < rest.len() {
                assert(rest[i] == runs[i]);
            }
        }
    }
}

/// The free space of a summary reaches from what there was before the run that began first to
/// what there was after the one that began last, or before it where it left none. Of several
/// that began first together it is the last one, and of several that began last the first.
/// Without a run it is nothing.
pub proof fn summary_spans_its_runs(
    summary: StatisticsSnapshot,
    runs: Seq<RunRow>,
    entries: Seq<EntryRow>,
) -> (ends: (int, int))
    requires
        summary.summarises(runs, entries),
    ensures
        runs.len() == 0 ==> summary.first_free_before == 0 && summary.latest_free_after == 0,
        runs.len() > 0 ==> {
            let first = runs[ends.0];
            let last = runs[ends.1];
            &&& 0 <= ends.0 < runs.len() && 0 <= ends.1 < runs.len()
            &&& summary.first_free_before == shown(first.free_before)
            &&& last.free_after matches Some(free) ==> summary.latest_free_after == shown(free)
            &&& last.free_after is None ==> summary.latest_free_after == shown(last.free_before)
            &&& forall|i: int|
                0 <= i < runs.len() ==> first.started_at <= (#[trigger] runs[i]).started_at
                    <= last.started_at
            &&& forall|i: int|
                0 <= i < runs.len() && (#[trigger] runs[i]).started_at == first.started_at ==> i
                    <= ends.0
            &&& forall|i: int|
                0 <= i < runs.len() && (#[trigger] runs[i]).started_at == last.started_at ==> ends.1
                    <= i
        },
{
    if runs.len() > 0 {
        lemma_ends(runs);
    }
    (earliest(runs), latest(runs))
}

/// The runs that a summary lists are the twelve that began last, or all of them where there
/// are fewer, from the last on. Of runs that began together the one that is held first comes
/// first. Each is told by its columns.
pub proof fn summary_lists_the_newest_runs(
    summary: StatisticsSnapshot,
    runs: Seq<RunRow>,
    entries: Seq<EntryRow>,
) -> (order: Seq<usize>)
    requires
        summary.summarises(runs, entries),
        runs.len() <= usize::MAX,
    ensures
        order.len() == summary.recent_runs@.len(),
        runs.len() <= 12 ==> order.len() == runs.len(),
        runs.len() > 12 ==> order.len() == 12,
        forall|k: int| 0 <= k < order.len() ==> {
            let line = summary.recent_runs@[k];
            let row = runs[#[trigger] order[k] as int];
            &&& order[k] < runs.len()
            &&& line.started_at == row.started_at
            &&& line.reclaimed_bytes == shown(row.reclaimed_bytes)
            &&& line.free_before == shown(row.free_before)
            &&& row.free_after matches Some(free) ==> line.free_after == shown(free)
            &&& row.free_after is None ==> line.free_after == shown(row.free_before)
            &&& line.errors == shown(row.errors)
        },
        forall|k: int, l: int|
            #![trigger order[k], order[l]]
            0 <= k < l < order.len() ==> order[k] != order[l] && runs[order[k] as int].started_at
                >= runs[order[l] as int].started_at && (runs[order[k] as int].started_at
                == runs[order[l] as int].started_at ==> order[k] < order[l]),
        forall|k: int, other: usize|
            #![trigger order[k], order.contains(other)]
            0 <= k < order.len() && other < runs.len() && !order.contains(other)
                ==> runs[order[k] as int].started_at >= runs[other as int].started_at,
{
    let keys = started_column(runs);
    let order = top(keys, RECENT_RUNS as int, false);
    top_is_found(keys, RECENT_RUNS as int, false);
    assert(statistics_lines(runs, order).len() == order.len());
    assert forall|k: int| 0 <= k < order.len() implies #[trigger] statistics_lines(runs, order)[k]
        == runs[order[k] as int].as_statistics() by {}
    assert forall|k: int, l: int|
        #![trigger order[k], order[l]]
        0 <= k < l < order.len() implies order[k] != order[l] && runs[order[k] as int].started_at
        >= runs[order[l] as int].started_at && (runs[order[k] as int].started_at
        == runs[order[l] as int].started_at ==> order[k] < order[l]) by {
        assert(ranks_before(keys, false, order[k] as int, order[l] as int));
    }
    assert forall|k: int, other: usize|
        #![trigger order[k], order.contains(other)]
        0 <= k < order.len() && other < runs.len() && !order.contains(
            other,
        ) implies runs[order[k] as int].started_at >= runs[other as int].started_at by {
        assert(ranks_before(keys, false, order[k] as int, other as int));
    }
    order
}

/// The objects of one category.
pub open spec fn of_category(rows: Seq<EntryRow>, name: Seq<char>) -> Seq<EntryRow> {
    rows.filter(|row: EntryRow| row.category@ == name)
}

/// What the objects of one category reclaimed.
pub open spec fn category_sum(rows: Seq<EntryRow>, name: Seq<char>) -> int {
    sum_over(of_category(rows, name), |row: EntryRow| row.bytes_reclaimed as int)
}

proof fn lemma_reclaimed(rows: Seq<EntryRow>, name: Seq<char>)
    ensures
        in_category(rows, name) == of_category(rows, name),
        reclaimed_in(rows, name) == category_sum(rows, name),
{
    lemma_same_filter(rows, category_is(name), |row: EntryRow| row.category@ == name);
    let part = of_category(rows, name);
    assert(part == rows.filter(|row: EntryRow| row.category@ == name));
    let column = |row: EntryRow| row.bytes_reclaimed as int;
    lemma_sum(part, column, reclaimed_column(part));
    assert(category_sum(rows, name) == sum_over(part, column));
}

proof fn lemma_same_filter<T>(rows: Seq<T>, one: spec_fn(T) -> bool, two: spec_fn(T) -> bool)
    requires
        forall|row: T| #[trigger] one(row) == two(row),
    ensures
        rows.filter(one) == rows.filter(two),
    decreases rows.len(),
{
    reveal(Seq::filter);
    if rows.len() > 0 {
        lemma_same_filter(rows.drop_last(), one, two);
    }
}

/// A summary lists eight categories at most, those whose objects reclaimed most, from the most
/// on, with what these reclaimed and how many there are. Where two categories reclaimed the
/// same the later name comes first. A category is missing only where eight others come before
/// it.
pub proof fn summary_lists_the_top_categories(
    summary: StatisticsSnapshot,
    runs: Seq<RunRow>,
    entries: Seq<EntryRow>,
)
    requires
        summary.summarises(runs, entries),
    ensures
        summary.categories@.len() <= 8,
        forall|i: int| 0 <= i < summary.categories@.len() ==> {
            let line = #[trigger] summary.categories@[i];
            let sum = category_sum(entries, line.category@);
            &&& exists|k: int| 0 <= k < entries.len() && (#[trigger] entries[k]).category@
                == line.category@
            &&& i64::MIN <= sum <= i64::MAX ==> line.reclaimed_bytes == shown(sum as i64)
            &&& line.objects == of_category(entries, line.category@).len()
        },
        forall|i: int, j: int|
            #![trigger summary.categories@[i], summary.categories@[j]]
            0 <= i < j < summary.categories@.len() ==> {
                let left = summary.categories@[i].category@;
                let right = summary.categories@[j].category@;
                &&& category_sum(entries, left) >= category_sum(entries, right)
                &&& category_sum(entries, left) == category_sum(entries, right) ==> precedes(
                    right,
                    left,
                )
            },
        forall|k: int| 0 <= k < entries.len() ==> {
            let name = (#[trigger] entries[k]).category@;
            ||| exists|i: int|
                0 <= i < summary.categories@.len() && (
                #[trigger] summary.categories@[i]).category@ == name
            ||| summary.categories@.len() == 8 && forall|i: int|
                0 <= i < 8 ==> category_sum(
                    entries,
                    (#[trigger] summary.categories@[i]).category@,
                ) >= category_sum(entries, name)
        },
{
    let names = category_names(summary.categories@);
    let lines = summary.categories@;
    assert(names.len() == lines.len());
    assert forall|i: int| 0 <= i < lines.len() implies #[trigger] names[i]
        == lines[i].category@ by {}
    assert forall|i: int| 0 <= i < lines.len() implies {
        let line = #[trigger] lines[i];
        let sum = category_sum(entries, line.category@);
        &&& exists|k: int| 0 <= k < entries.len() && (#[trigger] entries[k]).category@
            == line.category@
        &&& i64::MIN <= sum <= i64::MAX ==> line.reclaimed_bytes == shown(sum as i64)
        &&& line.objects == of_category(entries, line.category@).len()
    } by {
        assert(summary.categories[i] == lines[i]);
        assert(has_category(entries, names[i]));
        lemma_reclaimed(entries, lines[i].category@);
    }
    assert forall|i: int, j: int|
        #![trigger lines[i], lines[j]]
        0 <= i < j < lines.len() implies {
        let left = lines[i].category@;
        let right = lines[j].category@;
        &&& category_sum(entries, left) >= category_sum(entries, right)
        &&& category_sum(entries, left) == category_sum(entries, right) ==> precedes(right, left)
    } by {
        assert(category_before(entries, true, names[i], names[j]));
        lemma_reclaimed(entries, names[i]);
        lemma_reclaimed(entries, names[j]);
    }
    assert forall|k: int| 0 <= k < entries.len() implies {
        let name = (#[trigger] entries[k]).category@;
        ||| exists|i: int| 0 <= i < lines.len() && (#[trigger] lines[i]).category@ == name
        ||| lines.len() == 8 && forall|i: int|
            0 <= i < 8 ==> category_sum(entries, (#[trigger] lines[i]).category@) >= category_sum(
                entries,
                name,
            )
    } by {
        let name = entries[k].category@;
        assert(has_category(entries, name));
        if names.contains(name) {
            let i = names.index_of(name);
            assert(lines[i].category@ == name);
        } else {
            assert forall|i: int| 0 <= i < 8 implies category_sum(
                entries,
                (#[trigger] lines[i]).category@,
            ) >= category_sum(entries, name) by {
                assert(category_before(entries, true, names[i], name));
                lemma_reclaimed(entries, names[i]);
                lemma_reclaimed(entries, name);
            }
        }
    }
}

/// The test for objects of one category that ended with `result`.
pub open spec fn is_ended(name: Seq<char>, result: Seq<char>) -> spec_fn(EntryRow) -> bool {
    |row: EntryRow| row.category@ == name && row.result@ == result
}

/// How many objects of one category ended with `result`.
pub open spec fn ended_with(rows: Seq<EntryRow>, name: Seq<char>, result: Seq<char>) -> nat {
    rows.filter(is_ended(name, result)).len()
}

proof fn lemma_results(rows: Seq<EntryRow>, name: Seq<char>, result: Seq<char>)
    ensures
        results_in(rows, name, result) == ended_with(rows, name, result),
{
    lemma_filter_twice(rows, category_is(name), result_is(result), is_ended(name, result));
}

proof fn lemma_filter_twice(
    rows: Seq<EntryRow>,
    first: spec_fn(EntryRow) -> bool,
    second: spec_fn(EntryRow) -> bool,
    both: spec_fn(EntryRow) -> bool,
)
    requires
        forall|row: EntryRow| #[trigger] both(row) == (first(row) && second(row)),
    ensures
        rows.filter(first).filter(second) == rows.filter(both),
    decreases rows.len(),
{
    reveal(Seq::filter);
    if rows.len() > 0 {
        let less = rows.drop_last();
        lemma_filter_twice(less, first, second, both);
        if first(rows.last()) {
            less.filter(first).lemma_filter_push(rows.last(), second);
        }
    }
}

/// Whether totals list a category.
pub open spec fn is_listed(totals: Seq<CategoryTotal>, name: Seq<char>) -> bool {
    exists|i: int| 0 <= i < totals.len() && (#[trigger] totals[i]).category@ == name
}

/// The totals of a run list each category of its objects once, from the one that reclaimed
/// most on, and where two reclaimed the same in the order of their names. Each says what its
/// objects reclaimed, how many of them were deleted and on how many the run failed.
pub proof fn totals_tell_their_categories(rows: Seq<EntryRow>, totals: Seq<CategoryTotal>)
    requires
        are_totals(rows, totals),
    ensures
        forall|i: int| 0 <= i < totals.len() ==> {
            let line = #[trigger] totals[i];
            let sum = category_sum(rows, line.category@);
            &&& exists|k: int| 0 <= k < rows.len() && (#[trigger] rows[k]).category@
                == line.category@
            &&& i64::MIN <= sum <= i64::MAX ==> line.reclaimed_bytes == shown(sum as i64)
            &&& line.files == ended_with(rows, line.category@, "deleted"@)
            &&& line.errors == ended_with(rows, line.category@, "error"@)
        },
        forall|i: int, j: int|
            #![trigger totals[i], totals[j]]
            0 <= i < j < totals.len() ==> {
                let left = totals[i].category@;
                let right = totals[j].category@;
                &&& category_sum(rows, left) >= category_sum(rows, right)
                &&& category_sum(rows, left) == category_sum(rows, right) ==> precedes(left, right)
            },
        forall|k: int| 0 <= k < rows.len() ==> is_listed(totals, (#[trigger] rows[k]).category@),
{
    let names = total_names(totals);
    assert(names.len() == totals.len());
    assert forall|i: int| 0 <= i < totals.len() implies #[trigger] names[i]
        == totals[i].category@ by {}
    assert forall|i: int| 0 <= i < totals.len() implies {
        let line = #[trigger] totals[i];
        let sum = category_sum(rows, line.category@);
        &&& exists|k: int| 0 <= k < rows.len() && (#[trigger] rows[k]).category@ == line.category@
        &&& i64::MIN <= sum <= i64::MAX ==> line.reclaimed_bytes == shown(sum as i64)
        &&& line.files == ended_with(rows, line.category@, "deleted"@)
        &&& line.errors == ended_with(rows, line.category@, "error"@)
    } by {
        assert(has_category(rows, names[i]));
        lemma_reclaimed(rows, totals[i].category@);
        lemma_results(rows, totals[i].category@, "deleted"@);
        lemma_results(rows, totals[i].category@, "error"@);
    }
    assert forall|i: int, j: int|
        #![trigger totals[i], totals[j]]
        0 <= i < j < totals.len() implies {
        let left = totals[i].category@;
        let right = totals[j].category@;
        &&& category_sum(rows, left) >= category_sum(rows, right)
        &&& category_sum(rows, left) == category_sum(rows, right) ==> precedes(left, right)
    } by {
        assert(category_before(rows, false, names[i], names[j]));
        lemma_reclaimed(rows, names[i]);
        lemma_reclaimed(rows, names[j]);
    }
    assert forall|k: int| 0 <= k < rows.len() implies is_listed(
        totals,
        (#[trigger] rows[k]).category@,
    ) by {
        assert(has_category(rows, rows[k].category@));
        let i = names.index_of(rows[k].category@);
        assert(totals[i].category@ == rows[k].category@);
    }
}

/// The objects of a run are those that name it, in the order in which they are held.
pub proof fn run_has_its_objects(entries: Seq<EntryRow>, entry: EntryRow, run_id: i64)
    ensures
        entries.filter(of_run(run_id)).contains(entry) <==> entries.contains(entry) && entry.run_id
            == run_id,
        entry.run_id == run_id ==> entries.push(entry).filter(of_run(run_id)) == entries.filter(
            of_run(run_id),
        ).push(entry),
        entry.run_id != run_id ==> entries.push(entry).filter(of_run(run_id)) == entries.filter(
            of_run(run_id),
        ),
{
    lemma_kept(entries, of_run(run_id), entry);
    entries.lemma_filter_push(entry, of_run(run_id));
}

/// The details of a period list the objects that reclaimed most, from the most on, as many as
/// are asked for but 500 at most, and all of them where there are fewer. Of objects that
/// reclaimed the same the one that is held later comes first. Each is told by its columns.
pub proof fn details_list_the_largest(
    rows: Seq<EntryRow>,
    limit: usize,
    details: Seq<StatisticsDetail>,
) -> (order: Seq<usize>)
    requires
        rows.len() <= usize::MAX,
        details == detail_lines(
            rows,
            top(
                reclaimed_column(rows),
                if limit <= MOST_DETAILS {
                    limit as int
                } else {
                    MOST_DETAILS as int
                },
                true,
            ),
        ),
    ensures
        order.len() == details.len(),
        details.len() <= 500,
        details.len() <= limit,
        details.len() <= rows.len(),
        details.len() == 500 || details.len() == limit || details.len() == rows.len(),
        forall|k: int| 0 <= k < order.len() ==> {
            let line = details[k];
            let row = rows[#[trigger] order[k] as int];
            &&& order[k] < rows.len()
            &&& line.category == row.category
            &&& line.path == row.path
            &&& line.parent_path == row.parent_path
            &&& line.kind == row.kind
            &&& line.bytes_before == shown(row.bytes_before)
            &&& line.bytes_reclaimed == shown(row.bytes_reclaimed)
            &&& line.rule == row.rule
            &&& line.result == row.result
            &&& line.error == row.error
        },
        forall|k: int, l: int|
            #![trigger order[k], order[l]]
            0 <= k < l < order.len() ==> order[k] != order[l] && rows[order[k] as int].bytes_reclaimed
                >= rows[order[l] as int].bytes_reclaimed && (rows[order[k] as int].bytes_reclaimed
                == rows[order[l] as int].bytes_reclaimed ==> order[k] > order[l]),
        forall|k: int, other: usize|
            #![trigger order[k], order.contains(other)]
            0 <= k < order.len() && other < rows.len() && !order.contains(other)
                ==> rows[order[k] as int].bytes_reclaimed >= rows[other as int].bytes_reclaimed,
{
    let keys = reclaimed_column(rows);
    let most = if limit <= MOST_DETAILS {
        limit as int
    } else {
        MOST_DETAILS as int
    };
    let order = top(keys, most, true);
    top_is_found(keys, most, true);
    assert(details.len() == order.len());
    assert forall|k: int| 0 <= k < order.len() implies #[trigger] details[k]
        == rows[order[k] as int].as_detail() by {}
    assert forall|k: int, l: int|
        #![trigger order[k], order[l]]
        0 <= k < l < order.len() implies order[k] != order[l] && rows[order[k] as int].bytes_reclaimed
        >= rows[order[l] as int].bytes_reclaimed && (rows[order[k] as int].bytes_reclaimed
        == rows[order[l] as int].bytes_reclaimed ==> order[k] > order[l]) by {
        assert(ranks_before(keys, true, order[k] as int, order[l] as int));
    }
    assert forall|k: int, other: usize|
        #![trigger order[k], order.contains(other)]
        0 <= k < order.len() && other < rows.len() && !order.contains(
            other,
        ) implies rows[order[k] as int].bytes_reclaimed >= rows[other as int].bytes_reclaimed by {
        assert(ranks_before(keys, true, order[k] as int, other as int));
    }
    order
}

/// The last run that is over is the one that is held behind all others that are no longer
/// running, and there is none where all are.
pub proof fn last_finished_run_counts(runs: Seq<RunRow>) -> (at: int)
    ensures
        last_over(runs) is None <==> forall|i: int|
            0 <= i < runs.len() ==> (#[trigger] runs[i]).status@ == "running"@,
        last_over(runs) matches Some(id) ==> {
            &&& 0 <= at < runs.len()
            &&& runs[at].id == id
            &&& runs[at].status@ != "running"@
            &&& forall|i: int| at < i < runs.len() ==> (#[trigger] runs[i]).status@ == "running"@
        },
    decreases runs.len(),
{
    reveal(Seq::filter);
    if runs.len() == 0 {
        0
    } else {
        let less = runs.drop_last();
        let before = last_finished_run_counts(less);
        assert(runs[runs.len() - 1] == runs.last());
        assert forall|i: int| 0 <= i < less.len() implies #[trigger] less[i] == runs[i] by {}
        if is_over()(runs.last()) {
            assert(runs.filter(is_over()).last() == runs.last());
            runs.len() - 1
        } else {
            assert(runs.filter(is_over()) == less.filter(is_over()));
            assert(last_over(runs) == last_over(less));
            if last_over(less) is None {
                assert forall|i: int| 0 <= i < runs.len() implies (#[trigger] runs[i]).status@
                    == "running"@ by {
                    if i < less.len() {
                        assert(less[i].status@ == "running"@);
                    }
                }
            } else {
                assert(runs[before] == less[before]);
                assert forall|i: int| before < i < runs.len() implies (#[trigger] runs[i]).status@
                    == "running"@ by {
                    if i < less.len() {
                        assert(less[i].status@ == "running"@);
                    }
                }
            }
            before
        }
    }
}

/// The errors of the latest run are the objects that the last run which is over failed on, and
/// none where no run is over. Each is reported with its reason, or as one that has none.
pub proof fn errors_are_those_of_the_last_run(
    runs: Seq<RunRow>,
    entries: Seq<EntryRow>,
    entry: EntryRow,
)
    ensures
        last_over(runs) is None ==> latest_failures(runs, entries).len() == 0,
        last_over(runs) matches Some(id) ==> (latest_failures(runs, entries).contains(entry)
            <==> entries.contains(entry) && entry.run_id == id && entry.result@ == "error"@),
        last_over(runs) matches Some(id) && entry.run_id == id && entry.result@ == "error"@
            ==> latest_failures(runs, entries.push(entry)) == latest_failures(runs, entries).push(
            entry,
        ),
        last_over(runs) matches Some(id) && (entry.run_id != id || entry.result@ != "error"@)
            ==> latest_failures(runs, entries.push(entry)) == latest_failures(runs, entries),
        entry.error matches Some(reason) ==> reason_of(entry) == reason@,
        entry.error is None ==> reason_of(entry) == "Причина не указана"@,
{
    if let Some(id) = last_over(runs) {
        lemma_kept(entries, failed_in(id), entry);
        entries.lemma_filter_push(entry, failed_in(id));
    }
}

proof fn lemma_total_grows(values: Seq<i64>, count: int)
    requires
        0 <= count <= values.len(),
        forall|i: int| 0 <= i < values.len() ==> #[trigger] values[i] >= 0,
    ensures
        0 <= total(values.take(count)) <= total(values),
    decreases values.len(),
{
    if count == values.len() {
        assert(values.take(count) =~= values);
        if values.len() > 0 {
            let less = values.drop_last();
            assert forall|i: int| 0 <= i < less.len() implies #[trigger] less[i] >= 0 by {
                assert(less[i] == values[i]);
            }
            lemma_total_grows(less, less.len() as int);
            assert(less.take(less.len() as int) =~= less);
            assert(values[values.len() - 1] >= 0);
        }
    } else {
        let less = values.drop_last();
        assert forall|i: int| 0 <= i < less.len() implies #[trigger] less[i] >= 0 by {
            assert(less[i] == values[i]);
        }
        lemma_total_grows(less, count);
        assert(less.take(count) =~= values.take(count));
        assert(values[values.len() - 1] >= 0);
    }
}

/// A column without negative values can be added up exactly where its sum fits a column.
pub proof fn sums_fail_only_beyond_the_column(values: Seq<i64>)
    requires
        forall|i: int| 0 <= i < values.len() ==> #[trigger] values[i] >= 0,
    ensures
        adds_up(values) <==> total(values) <= i64::MAX,
{
    assert forall|count: int| 0 <= count <= values.len() implies 0 <= total(
        #[trigger] values.take(count),
    ) <= total(values) by {
        lemma_total_grows(values, count);
    }
    assert(values.take(values.len() as int) =~= values);
    if adds_up(values) {
        assert(fits(total(values.take(values.len() as int))));
    }
}

/// The totals of a run can be had wherever no object reclaimed less than nothing and what each
/// category reclaimed fits a column.
pub proof fn totals_can_be_had(rows: Seq<EntryRow>)
    requires
        forall|i: int| 0 <= i < rows.len() ==> (#[trigger] rows[i]).bytes_reclaimed >= 0,
    ensures
        sums_fit(rows) <==> forall|i: int|
            0 <= i < rows.len() ==> category_sum(rows, (#[trigger] rows[i]).category@) <= i64::MAX,
{
    assert forall|name: Seq<char>| #[trigger] has_category(rows, name) implies (adds_up(
        reclaimed_column(in_category(rows, name)),
    ) <==> category_sum(rows, name) <= i64::MAX) by {
        lemma_reclaimed(rows, name);
        let part = in_category(rows, name);
        let values = reclaimed_column(part);
        assert forall|i: int| 0 <= i < values.len() implies #[trigger] values[i] >= 0 by {
            rows.lemma_filter_contains_rev(category_is(name), part[i]);
            let at = rows.index_of(part[i]);
            assert(rows[at].bytes_reclaimed >= 0);
        }
        sums_fail_only_beyond_the_column(values);
    }
    if sums_fit(rows) {
        assert forall|i: int| 0 <= i < rows.len() implies category_sum(
            rows,
            (#[trigger] rows[i]).category@,
        ) <= i64::MAX by {
            assert(has_category(rows, rows[i].category@));
        }
    }
    if forall|i: int|
        0 <= i < rows.len() ==> category_sum(rows, (#[trigger] rows[i]).category@) <= i64::MAX {
        assert forall|name: Seq<char>| #[trigger] has_category(rows, name) implies adds_up(
            reclaimed_column(in_category(rows, name)),
        ) by {
            let i = choose|i: int| 0 <= i < rows.len() && (#[trigger] rows[i]).category@ == name;
            assert(category_sum(rows, rows[i].category@) <= i64::MAX);
        }
    }
}

proof fn lemma_newest_column(runs: Seq<RunRow>, column: spec_fn(RunRow) -> i64, values: Seq<i64>)
    requires
        runs.len() <= usize::MAX,
        forall|i: int| 0 <= i < runs.len() ==> column(#[trigger] runs[i]) >= 0,
        values.len() == newest_first(runs).len(),
        forall|i: int| 0 <= i < values.len() ==> #[trigger] values[i] == column(newest_first(runs)[i]),
    ensures
        adds_up(values) <==> total(values) <= i64::MAX,
{
    let keys = started_column(runs);
    let order = top(keys, runs.len() as int, false);
    top_is_found(keys, runs.len() as int, false);
    assert forall|i: int| 0 <= i < values.len() implies #[trigger] values[i] >= 0 by {
        assert(newest_first(runs)[i] == runs[order[i] as int]);
        assert(column(runs[order[i] as int]) >= 0);
    }
    sums_fail_only_beyond_the_column(values);
}

/// The summary of a period can be had exactly where its sums fit their columns, as long as no
/// row holds less than nothing.
pub proof fn summary_can_be_had(
    all: Seq<RunRow>,
    entries: Seq<EntryRow>,
    start: i64,
    last: i64,
)
    requires
        ids_rise(run_ids(all), last),
        all.len() <= usize::MAX,
        forall|i: int|
            0 <= i < all.len() ==> {
                let run = #[trigger] all[i];
                run.reclaimed_bytes >= 0 && run.files_deleted >= 0 && run.dirs_deleted >= 0
                    && run.skipped >= 0 && run.errors >= 0
            },
        forall|i: int| 0 <= i < entries.len() ==> (#[trigger] entries[i]).bytes_reclaimed >= 0,
    ensures
        ({
            let runs = reported_runs(all, start);
            let rows = reported_entries(all, entries, start);
            summary_fits(runs, entries) <==> {
                &&& sum_over(runs, |run: RunRow| run.reclaimed_bytes as int) <= i64::MAX
                &&& sum_over(runs, |run: RunRow| run.files_deleted as int) <= i64::MAX
                &&& sum_over(runs, |run: RunRow| run.dirs_deleted as int) <= i64::MAX
                &&& sum_over(runs, |run: RunRow| run.skipped as int) <= i64::MAX
                &&& sum_over(runs, |run: RunRow| run.errors as int) <= i64::MAX
                &&& forall|i: int|
                    0 <= i < rows.len() ==> category_sum(rows, (#[trigger] rows[i]).category@)
                        <= i64::MAX
            }
        }),
{
    let runs = reported_runs(all, start);
    let rows = reported_entries(all, entries, start);
    let newest = newest_first(runs);
    all.lemma_filter_len(is_reported(start));
    assert forall|i: int| 0 <= i < runs.len() implies {
        let run = #[trigger] runs[i];
        run.reclaimed_bytes >= 0 && run.files_deleted >= 0 && run.dirs_deleted >= 0 && run.skipped
            >= 0 && run.errors >= 0
    } by {
        all.lemma_filter_contains_rev(is_reported(start), runs[i]);
        let at = all.index_of(runs[i]);
        assert(all[at].reclaimed_bytes >= 0);
    }
    lemma_same_sums(runs);
    lemma_sum(runs, |run: RunRow| run.reclaimed_bytes as int, runs_reclaimed(runs));
    lemma_sum(runs, |run: RunRow| run.files_deleted as int, runs_files(runs));
    lemma_sum(runs, |run: RunRow| run.dirs_deleted as int, runs_dirs(runs));
    lemma_sum(runs, |run: RunRow| run.skipped as int, runs_skipped(runs));
    lemma_sum(runs, |run: RunRow| run.errors as int, runs_errors(runs));
    lemma_newest_column(runs, |run: RunRow| run.reclaimed_bytes, runs_reclaimed(newest));
    lemma_newest_column(runs, |run: RunRow| run.files_deleted, runs_files(newest));
    lemma_newest_column(runs, |run: RunRow| run.dirs_deleted, runs_dirs(newest));
    lemma_newest_column(runs, |run: RunRow| run.skipped, runs_skipped(newest));
    lemma_newest_column(runs, |run: RunRow| run.errors, runs_errors(newest));
    let listed = run_by_run(newest, entries);
    reported_entries_come_run_by_run(all, entries, start, last);
    assert forall|i: int| 0 <= i < rows.len() implies (#[trigger] rows[i]).bytes_reclaimed >= 0 by {
        entries.lemma_filter_contains_rev(of_reported_run(all, start), rows[i]);
        let at = entries.index_of(rows[i]);
        assert(entries[at].bytes_reclaimed >= 0);
    }
    lemma_same_rows(listed, rows);
    totals_can_be_had(rows);
    totals_can_be_had(listed);
    assert forall|name: Seq<char>| #[trigger] category_sum(listed, name) == category_sum(
        rows,
        name,
    ) by {
        order_changes_no_category(listed, rows, name);
        lemma_reclaimed(listed, name);
        lemma_reclaimed(rows, name);
    }
    let fit = forall|i: int|
        0 <= i < rows.len() ==> category_sum(rows, (#[trigger] rows[i]).category@) <= i64::MAX;
    let listed_fit = forall|i: int|
        0 <= i < listed.len() ==> category_sum(listed, (#[trigger] listed[i]).category@)
            <= i64::MAX;
    if fit {
        assert forall|i: int| 0 <= i < listed.len() implies category_sum(
            listed,
            (#[trigger] listed[i]).category@,
        ) <= i64::MAX by {
            assert(rows.contains(listed[i]));
            let at = rows.index_of(listed[i]);
            assert(category_sum(rows, rows[at].category@) <= i64::MAX);
        }
    }
    if listed_fit {
        assert forall|i: int| 0 <= i < rows.len() implies category_sum(
            rows,
            (#[trigger] rows[i]).category@,
        ) <= i64::MAX by {
            assert(listed.contains(rows[i]));
            let at = listed.index_of(rows[i]);
            assert(category_sum(listed, listed[at].category@) <= i64::MAX);
        }
    }
}

proof fn lemma_same_rows(one: Seq<EntryRow>, two: Seq<EntryRow>)
    requires
        one.to_multiset() == two.to_multiset(),
        forall|i: int| 0 <= i < two.len() ==> (#[trigger] two[i]).bytes_reclaimed >= 0,
    ensures
        forall|i: int| 0 <= i < one.len() ==> two.contains(#[trigger] one[i]),
        forall|i: int| 0 <= i < two.len() ==> one.contains(#[trigger] two[i]),
        forall|i: int| 0 <= i < one.len() ==> (#[trigger] one[i]).bytes_reclaimed >= 0,
{
    assert forall|i: int| 0 <= i < one.len() implies two.contains(#[trigger] one[i]) by {
        to_multiset_contains(one, one[i]);
        to_multiset_contains(two, one[i]);
    }
    assert forall|i: int| 0 <= i < two.len() implies one.contains(#[trigger] two[i]) by {
        to_multiset_contains(one, two[i]);
        to_multiset_contains(two, two[i]);
    }
    assert forall|i: int| 0 <= i < one.len() implies (#[trigger] one[i]).bytes_reclaimed >= 0 by {
        assert(two.contains(one[i]));
        let at = two.index_of(one[i]);
        assert(two[at].bytes_reclaimed >= 0);
    }
}

/// A column is added up value by value: it can be where every sum on the way fits a column.
pub proof fn sums_are_taken_in_order(values: Seq<i64>, value: i64)
    ensures
        adds_up(Seq::empty()),
        total(Seq::empty()) == 0,
        total(values.push(value)) == total(values) + value,
        adds_up(values.push(value)) <==> adds_up(values) && i64::MIN <= total(values) + value
            <= i64::MAX,
{
    let more = values.push(value);
    assert(more.drop_last() =~= values);
    assert(more.take(more.len() as int) =~= more);
    assert forall|count: int| 0 <= count <= values.len() implies values.take(count) == more.take(
        count,
    ) by {
        assert(values.take(count) =~= more.take(count));
    }
    if adds_up(more) {
        assert(fits(total(more.take(more.len() as int))));
        assert forall|count: int| 0 <= count <= values.len() implies fits(
            total(#[trigger] values.take(count)),
        ) by {
            assert(fits(total(more.take(count))));
        }
    }
    if adds_up(values) && i64::MIN <= total(values) + value <= i64::MAX {
        assert forall|count: int| 0 <= count <= more.len() implies fits(
            total(#[trigger] more.take(count)),
        ) by {
            if count < more.len() {
                assert(fits(total(values.take(count))));
            }
        }
    }
    assert(Seq::<i64>::empty().take(0) =~= Seq::<i64>::empty());
}

} // verus!
