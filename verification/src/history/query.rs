//! What is read from the history: the latest run, its categories and errors, and
//! the summary and details of a reporting period.

use crate::clock::{cutoff, cutoff_at, is_reading, now};
use crate::convert::{counter_of, from_i64};
use crate::history::order::{
    distinct_rows_are_all, newest_first, order_changes_no_category, order_changes_no_list,
    order_changes_no_sum, reported_entries_come_run_by_run, run_by_run,
};
use crate::history::ranking::{order_holds_none_twice, top, top_is_found, top_positions};
use crate::history::rows::{
    CategoryTotal, CleanupRun, EntryRow, RunRow, StatisticsCategory, StatisticsDetail,
    StatisticsRun, StatisticsSnapshot,
};
use crate::history::store::{run_ids, HistoryDb, HistoryError};
use crate::history::tally::{
    adds_up, fits, has_category, in_category, lemma_whole_fits, lists_all_categories,
    lists_categories, reclaimed_column, reclaimed_in, results_in, sums_fit, total, Tally,
};
use vstd::prelude::*;

verus! {

/// The most runs that the summary of a period lists.
pub const RECENT_RUNS: usize = 12;

/// The most categories that the summary of a period lists.
pub const TOP_CATEGORIES: usize = 8;

/// The most objects that the details of a period list.
pub const MOST_DETAILS: usize = 500;

/// The rows at the given positions.
pub open spec fn selected<T>(rows: Seq<T>, picked: Seq<usize>) -> Seq<T> {
    picked.map_values(|at: usize| rows[at as int])
}

/// The test for runs that are no longer running.
pub open spec fn is_over() -> spec_fn(RunRow) -> bool {
    |run: RunRow| run.status@ != "running"@
}

/// The test for runs that a period starting at `start` reports: those that began
/// in it and are no longer running.
pub open spec fn is_reported(start: i64) -> spec_fn(RunRow) -> bool {
    |run: RunRow| run.started_at >= start && run.status@ != "running"@
}

/// The runs that a period reports.
pub open spec fn reported_runs(runs: Seq<RunRow>, start: i64) -> Seq<RunRow> {
    runs.filter(is_reported(start))
}

/// The test for objects that a reported run handled.
pub open spec fn of_reported_run(runs: Seq<RunRow>, start: i64) -> spec_fn(EntryRow) -> bool {
    |entry: EntryRow|
        exists|i: int|
            0 <= i < runs.len() && (#[trigger] runs[i]).id == entry.run_id && is_reported(start)(
                runs[i],
            )
}

/// The objects that the reported runs of a period handled.
pub open spec fn reported_entries(
    runs: Seq<RunRow>,
    entries: Seq<EntryRow>,
    start: i64,
) -> Seq<EntryRow> {
    entries.filter(of_reported_run(runs, start))
}

/// The test for objects that one run handled.
pub open spec fn of_run(run_id: i64) -> spec_fn(EntryRow) -> bool {
    |entry: EntryRow| entry.run_id == run_id
}

/// The test for objects that one run failed on.
pub open spec fn failed_in(run_id: i64) -> spec_fn(EntryRow) -> bool {
    |entry: EntryRow| entry.run_id == run_id && entry.result@ == "error"@
}

/// The identifier of the last run that is no longer running.
pub open spec fn last_over(runs: Seq<RunRow>) -> Option<i64> {
    let over = runs.filter(is_over());
    if over.len() == 0 {
        None
    } else {
        Some(over.last().id)
    }
}

/// The objects that the last finished run failed on.
pub open spec fn latest_failures(runs: Seq<RunRow>, entries: Seq<EntryRow>) -> Seq<EntryRow> {
    match last_over(runs) {
        Some(id) => entries.filter(failed_in(id)),
        None => Seq::empty(),
    }
}

/// What stands for a missing reason.
pub open spec fn unknown_reason() -> Seq<char> {
    "Причина не указана"@
}

/// The reason that a failed object is reported with.
pub open spec fn reason_of(entry: EntryRow) -> Seq<char> {
    match entry.error {
        Some(error) => error@,
        None => unknown_reason(),
    }
}

/// The position of the run that began first. Of several that began together it is
/// the last one.
pub open spec fn earliest(runs: Seq<RunRow>) -> int
    decreases runs.len(),
{
    if runs.len() <= 1 {
        0
    } else {
        let rest = runs.drop_last();
        if runs.last().started_at <= rest[earliest(rest)].started_at {
            runs.len() - 1
        } else {
            earliest(rest)
        }
    }
}

/// The position of the run that began last. Of several that began together it is
/// the first one.
pub open spec fn latest(runs: Seq<RunRow>) -> int
    decreases runs.len(),
{
    if runs.len() <= 1 {
        0
    } else {
        let rest = runs.drop_last();
        if runs.last().started_at > rest[latest(rest)].started_at {
            runs.len() - 1
        } else {
            latest(rest)
        }
    }
}

/// When each run began.
pub open spec fn started_column(runs: Seq<RunRow>) -> Seq<i64> {
    runs.map_values(|run: RunRow| run.started_at)
}

/// The lines of the runs at the given positions.
pub open spec fn statistics_lines(runs: Seq<RunRow>, order: Seq<usize>) -> Seq<StatisticsRun> {
    order.map_values(|at: usize| runs[at as int].as_statistics())
}

/// The lines of the objects at the given positions.
pub open spec fn detail_lines(entries: Seq<EntryRow>, order: Seq<usize>) -> Seq<StatisticsDetail> {
    order.map_values(|at: usize| entries[at as int].as_detail())
}

/// The column of reclaimed bytes of runs.
pub open spec fn runs_reclaimed(runs: Seq<RunRow>) -> Seq<i64> {
    runs.map_values(|run: RunRow| run.reclaimed_bytes)
}

/// The column of deleted files of runs.
pub open spec fn runs_files(runs: Seq<RunRow>) -> Seq<i64> {
    runs.map_values(|run: RunRow| run.files_deleted)
}

/// The column of deleted directories of runs.
pub open spec fn runs_dirs(runs: Seq<RunRow>) -> Seq<i64> {
    runs.map_values(|run: RunRow| run.dirs_deleted)
}

/// The column of skipped objects of runs.
pub open spec fn runs_skipped(runs: Seq<RunRow>) -> Seq<i64> {
    runs.map_values(|run: RunRow| run.skipped)
}

/// The column of errors of runs.
pub open spec fn runs_errors(runs: Seq<RunRow>) -> Seq<i64> {
    runs.map_values(|run: RunRow| run.errors)
}

/// Whether everything in a summary of `runs` can be added up: the columns of the runs from
/// the newest on, and what their objects reclaimed, run by run.
pub open spec fn summary_fits(runs: Seq<RunRow>, entries: Seq<EntryRow>) -> bool {
    let newest = newest_first(runs);
    &&& adds_up(runs_reclaimed(newest))
    &&& adds_up(runs_files(newest))
    &&& adds_up(runs_dirs(newest))
    &&& adds_up(runs_skipped(newest))
    &&& adds_up(runs_errors(newest))
    &&& sums_fit(run_by_run(newest, entries))
}

/// The names of listed categories.
pub open spec fn category_names(categories: Seq<StatisticsCategory>) -> Seq<Seq<char>> {
    categories.map_values(|category: StatisticsCategory| category.category@)
}

/// The names of listed category totals.
pub open spec fn total_names(totals: Seq<CategoryTotal>) -> Seq<Seq<char>> {
    totals.map_values(|category: CategoryTotal| category.category@)
}

impl StatisticsSnapshot {
    /// Whether this is the summary of the reported runs and their objects.
    pub open spec fn summarises(self, runs: Seq<RunRow>, entries: Seq<EntryRow>) -> bool {
        &&& self.runs == runs.len()
        &&& self.reclaimed_bytes == counter_of(total(runs_reclaimed(runs)) as i64)
        &&& self.files_deleted == counter_of(total(runs_files(runs)) as i64)
        &&& self.dirs_deleted == counter_of(total(runs_dirs(runs)) as i64)
        &&& self.skipped == counter_of(total(runs_skipped(runs)) as i64)
        &&& self.errors == counter_of(total(runs_errors(runs)) as i64)
        &&& self.first_free_before == if runs.len() == 0 {
            0
        } else {
            counter_of(runs[earliest(runs)].free_before)
        }
        &&& self.latest_free_after == if runs.len() == 0 {
            0
        } else {
            counter_of(runs[latest(runs)].settled_free())
        }
        &&& self.recent_runs@ == statistics_lines(
            runs,
            top(started_column(runs), RECENT_RUNS as int, false),
        )
        &&& lists_categories(
            entries,
            TOP_CATEGORIES as int,
            true,
            category_names(self.categories@),
        )
        &&& forall|i: int|
            0 <= i < self.categories.len() ==> {
                let category = #[trigger] self.categories[i];
                &&& category.reclaimed_bytes == counter_of(
                    reclaimed_in(entries, category.category@) as i64,
                )
                &&& category.objects == in_category(entries, category.category@).len()
            }
    }
}

proof fn lemma_filter_step<T>(rows: Seq<T>, at: int, test: spec_fn(T) -> bool)
    requires
        0 <= at < rows.len(),
    ensures
        rows.take(at + 1).filter(test) == if test(rows[at]) {
            rows.take(at).filter(test).push(rows[at])
        } else {
            rows.take(at).filter(test)
        },
{
    reveal(Seq::filter);
    assert(rows.take(at + 1).drop_last() =~= rows.take(at));
}

proof fn lemma_select_step<T>(rows: Seq<T>, picked: Seq<usize>, at: usize)
    requires
        at < rows.len(),
    ensures
        selected(rows, picked.push(at)) == selected(rows, picked).push(rows[at as int]),
{
    assert(selected(rows, picked.push(at)) =~= selected(rows, picked).push(rows[at as int]));
}

/// The positions of the runs that a period reports.
fn pick_runs(runs: &Vec<RunRow>, start: i64) -> (picked: Vec<usize>)
    ensures
        selected(runs@, picked@) == reported_runs(runs@, start),
        forall|i: int| 0 <= i < picked.len() ==> #[trigger] picked[i] < runs.len(),
{
    let running = "running".to_owned();
    let mut picked: Vec<usize> = Vec::new();
    let mut at: usize = 0;
    assert(selected(runs@, picked@) =~= runs@.take(0).filter(is_reported(start))) by {
        reveal(Seq::filter);
    }
    while at < runs.len()
        invariant
            at <= runs.len(),
            running@ == "running"@,
            selected(runs@, picked@) == runs@.take(at as int).filter(is_reported(start)),
            forall|i: int| 0 <= i < picked.len() ==> #[trigger] picked[i] < runs.len(),
        decreases runs.len() - at,
    {
        proof {
            lemma_filter_step(runs@, at as int, is_reported(start));
            lemma_select_step(runs@, picked@, at);
        }
        if runs[at].started_at >= start && !(runs[at].status == running) {
            picked.push(at);
        }
        at = at + 1;
    }
    assert(runs@.take(runs@.len() as int) =~= runs@);
    picked
}

/// A column of the runs that a summary adds up.
#[derive(Clone, Copy, PartialEq, Eq, Structural)]
enum Column {
    Reclaimed,
    Files,
    Dirs,
    Skipped,
    Errors,
}

spec fn column_of_runs(column: Column, runs: Seq<RunRow>) -> Seq<i64> {
    match column {
        Column::Reclaimed => runs_reclaimed(runs),
        Column::Files => runs_files(runs),
        Column::Dirs => runs_dirs(runs),
        Column::Skipped => runs_skipped(runs),
        Column::Errors => runs_errors(runs),
    }
}

/// The sum of one column of the picked runs, or none where it cannot be added up.
fn sum_runs(runs: &Vec<RunRow>, picked: &Vec<usize>, column: Column) -> (sum: Option<i64>)
    requires
        forall|i: int| 0 <= i < picked.len() ==> #[trigger] picked[i] < runs.len(),
    ensures
        ({
            let values = column_of_runs(column, selected(runs@, picked@));
            match sum {
                Some(sum) => adds_up(values) && sum == total(values),
                None => !adds_up(values),
            }
        }),
{
    let ghost values = column_of_runs(column, selected(runs@, picked@));
    let mut sum: i64 = 0;
    let mut at: usize = 0;
    assert(values.take(0) =~= Seq::<i64>::empty());
    while at < picked.len()
        invariant
            at <= picked.len(),
            values == column_of_runs(column, selected(runs@, picked@)),
            values.len() == picked.len(),
            sum == total(values.take(at as int)),
            forall|count: int|
                0 <= count <= at ==> fits(total(#[trigger] values.take(count))),
            forall|i: int| 0 <= i < picked.len() ==> #[trigger] picked[i] < runs.len(),
        decreases picked.len() - at,
    {
        let run = &runs[picked[at]];
        let value = match column {
            Column::Reclaimed => run.reclaimed_bytes,
            Column::Files => run.files_deleted,
            Column::Dirs => run.dirs_deleted,
            Column::Skipped => run.skipped,
            Column::Errors => run.errors,
        };
        assert(values[at as int] == value);
        assert(values.take(at + 1).drop_last() =~= values.take(at as int));
        assert(total(values.take(at + 1)) == sum + value);
        sum = match sum.checked_add(value) {
            Some(next) => next,
            None => return None,
        };
        at = at + 1;
    }
    assert(values.take(values.len() as int) =~= values);
    Some(sum)
}

/// When each of the picked runs began.
fn started_keys(runs: &Vec<RunRow>, picked: &Vec<usize>) -> (keys: Vec<i64>)
    requires
        forall|i: int| 0 <= i < picked.len() ==> #[trigger] picked[i] < runs.len(),
    ensures
        keys@ == started_column(selected(runs@, picked@)),
{
    let ghost rows = selected(runs@, picked@);
    let mut keys: Vec<i64> = Vec::new();
    let mut at: usize = 0;
    while at < picked.len()
        invariant
            at <= picked.len(),
            rows == selected(runs@, picked@),
            keys@ == started_column(rows).take(at as int),
            forall|i: int| 0 <= i < picked.len() ==> #[trigger] picked[i] < runs.len(),
        decreases picked.len() - at,
    {
        keys.push(runs[picked[at]].started_at);
        assert(keys@ =~= started_column(rows).take(at + 1));
        at = at + 1;
    }
    assert(keys@ =~= started_column(rows));
    keys
}

/// The positions of the picked runs, from the newest on.
fn newest_positions(runs: &Vec<RunRow>, picked: &Vec<usize>) -> (newest: Vec<usize>)
    requires
        forall|i: int| 0 <= i < picked.len() ==> #[trigger] picked[i] < runs.len(),
    ensures
        selected(runs@, newest@) == newest_first(selected(runs@, picked@)),
        forall|i: int| 0 <= i < newest.len() ==> #[trigger] newest[i] < runs.len(),
{
    let ghost rows = selected(runs@, picked@);
    let keys = started_keys(runs, picked);
    let order = top_positions(&keys, picked.len(), false);
    let mut newest: Vec<usize> = Vec::new();
    let mut at: usize = 0;
    while at < order.len()
        invariant
            at <= order.len(),
            rows == selected(runs@, picked@),
            newest.len() == at,
            forall|i: int| 0 <= i < at ==> #[trigger] newest[i] == picked[order[i] as int],
            forall|i: int| 0 <= i < order.len() ==> #[trigger] order[i] < picked.len(),
        decreases order.len() - at,
    {
        newest.push(picked[order[at]]);
        at = at + 1;
    }
    assert(selected(runs@, newest@) =~= selected(rows, order@));
    newest
}

/// The positions, among the picked ones, of the runs that began first and last.
fn ends_of_period(runs: &Vec<RunRow>, picked: &Vec<usize>) -> (ends: (usize, usize))
    requires
        forall|i: int| 0 <= i < picked.len() ==> #[trigger] picked[i] < runs.len(),
        picked.len() > 0,
    ensures
        ends.0 == earliest(selected(runs@, picked@)),
        ends.1 == latest(selected(runs@, picked@)),
        ends.0 < picked.len(),
        ends.1 < picked.len(),
{
    let ghost rows = selected(runs@, picked@);
    let mut first: usize = 0;
    let mut last: usize = 0;
    let mut at: usize = 1;
    while at < picked.len()
        invariant
            1 <= at <= picked.len(),
            first < at,
            last < at,
            rows == selected(runs@, picked@),
            first == earliest(rows.take(at as int)),
            last == latest(rows.take(at as int)),
            forall|i: int| 0 <= i < picked.len() ==> #[trigger] picked[i] < runs.len(),
        decreases picked.len() - at,
    {
        assert(rows.take(at + 1).drop_last() =~= rows.take(at as int));
        let started_at = runs[picked[at]].started_at;
        if started_at <= runs[picked[first]].started_at {
            first = at;
        }
        if started_at > runs[picked[last]].started_at {
            last = at;
        }
        at = at + 1;
    }
    assert(rows.take(rows.len() as int) =~= rows);
    (first, last)
}

/// The lines of the most recent of the picked runs.
fn recent_lines(runs: &Vec<RunRow>, picked: &Vec<usize>) -> (lines: Vec<StatisticsRun>)
    requires
        forall|i: int| 0 <= i < picked.len() ==> #[trigger] picked[i] < runs.len(),
    ensures
        ({
            let rows = selected(runs@, picked@);
            lines@ == statistics_lines(rows, top(started_column(rows), RECENT_RUNS as int, false))
        }),
{
    let ghost rows = selected(runs@, picked@);
    let keys = started_keys(runs, picked);
    let order = top_positions(&keys, RECENT_RUNS, false);
    let mut lines: Vec<StatisticsRun> = Vec::new();
    let mut line: usize = 0;
    while line < order.len()
        invariant
            line <= order.len(),
            rows == selected(runs@, picked@),
            lines@ == statistics_lines(rows, order@.take(line as int)),
            forall|i: int| 0 <= i < order.len() ==> #[trigger] order[i] < picked.len(),
            forall|i: int| 0 <= i < picked.len() ==> #[trigger] picked[i] < runs.len(),
        decreases order.len() - line,
    {
        lines.push(runs[picked[order[line]]].to_statistics());
        assert(lines@ =~= statistics_lines(rows, order@.take(line + 1)));
        line = line + 1;
    }
    assert(order@.take(order@.len() as int) =~= order@);
    lines
}

/// Whether `totals` lists every category of `rows` once, with what it reclaimed and how many
/// of its objects were deleted and failed, the category that reclaimed most first.
pub open spec fn are_totals(rows: Seq<EntryRow>, totals: Seq<CategoryTotal>) -> bool {
    &&& lists_all_categories(rows, false, total_names(totals))
    &&& forall|i: int|
        0 <= i < totals.len() ==> {
            let line = #[trigger] totals[i];
            &&& line.reclaimed_bytes == counter_of(reclaimed_in(rows, line.category@) as i64)
            &&& line.files == results_in(rows, line.category@, "deleted"@)
            &&& line.errors == results_in(rows, line.category@, "error"@)
        }
}

impl HistoryDb {
    /// The run that began last.
    pub fn latest_cleanup(&self) -> (run: Option<CleanupRun>)
        ensures
            run == if self@.runs.len() == 0 {
                None
            } else {
                Some(self@.runs.last().as_run())
            },
    {
        let runs = self.runs();
        if runs.len() == 0 {
            None
        } else {
            Some(runs[runs.len() - 1].to_run())
        }
    }

    /// What the categories of the run `run_id` amount to, the one that reclaimed most
    /// first. Equal ones stand in the order of their names.
    pub fn category_totals(&self, run_id: i64) -> (totals: Result<
        Vec<CategoryTotal>,
        HistoryError,
    >)
        ensures
            ({
                let rows = self@.entries.filter(of_run(run_id));
                match totals {
                    Ok(totals) => sums_fit(rows) && are_totals(rows, totals@),
                    Err(error) => error == HistoryError::SumOverflow && !sums_fit(rows),
                }
            }),
    {
        let entries = self.entries();
        let ghost rows = entries@.filter(of_run(run_id));
        let mut tally = Tally::new();
        let mut at: usize = 0;
        assert(entries@.take(0).filter(of_run(run_id)) =~= Seq::<EntryRow>::empty()) by {
            reveal(Seq::filter);
        }
        while at < entries.len()
            invariant
                at <= entries.len(),
                tally.counts(entries@.take(at as int).filter(of_run(run_id))),
            decreases entries.len() - at,
        {
            proof {
                lemma_filter_step(entries@, at as int, of_run(run_id));
                entries@.take(at as int).lemma_filter_len(of_run(run_id));
            }
            if entries[at].run_id == run_id {
                tally.add_row(&entries[at]);
            }
            at = at + 1;
        }
        assert(entries@.take(entries@.len() as int) =~= entries@);
        if !tally.fits() {
            return Err(HistoryError::SumOverflow);
        }
        proof {
            lemma_groups_fit(tally, rows);
        }
        let order = tally.ranked(usize::MAX, false);
        let mut totals: Vec<CategoryTotal> = Vec::new();
        let mut line: usize = 0;
        while line < order.len()
            invariant
                line <= order.len(),
                tally.counts(rows),
                sums_fit(rows),
                forall|i: int| 0 <= i < order.len() ==> #[trigger] order[i] < tally.groups.len(),
                forall|i: int|
                    0 <= i < tally.groups.len() ==> i64::MIN <= (
                    #[trigger] tally.groups[i]).reclaimed <= i64::MAX,
                totals.len() == line,
                forall|i: int|
                    0 <= i < line ==> {
                        let done = #[trigger] totals[i];
                        &&& done.category@ == tally.groups[order[i] as int].name@
                        &&& done.reclaimed_bytes == counter_of(
                            reclaimed_in(rows, done.category@) as i64,
                        )
                        &&& done.files == results_in(rows, done.category@, "deleted"@)
                        &&& done.errors == results_in(rows, done.category@, "error"@)
                    },
            decreases order.len() - line,
        {
            let group = &tally.groups[order[line]];
            assert(tally.groups[order[line as int] as int].counts(rows));
            totals.push(
                CategoryTotal {
                    category: group.name.clone(),
                    reclaimed_bytes: from_i64(group.reclaimed as i64),
                    files: group.deleted,
                    errors: group.failed,
                },
            );
            line = line + 1;
        }
        assert(total_names(totals@) =~= tally.names_at(order@));
        Ok(totals)
    }

    /// Whether the run of an entry is reported by a period.
    fn entry_is_reported(&self, run_id: i64, start: i64, running: &String) -> (reported: bool)
        requires
            self@.wf(),
            running@ == "running"@,
        ensures
            forall|entry: EntryRow|
                entry.run_id == run_id ==> reported == #[trigger] of_reported_run(
                    self@.runs,
                    start,
                )(entry),
    {
        match self.run_position(run_id) {
            Some(at) => {
                let run = &self.runs()[at];
                let reported = run.started_at >= start && !(run.status == *running);
                proof {
                    let runs = self@.runs;
                    assert forall|entry: EntryRow| entry.run_id == run_id implies reported
                        == #[trigger] of_reported_run(runs, start)(entry) by {
                        if of_reported_run(runs, start)(entry) {
                            let i = choose|i: int|
                                0 <= i < runs.len() && (#[trigger] runs[i]).id == entry.run_id
                                    && is_reported(start)(runs[i]);
                            assert(run_ids(runs)[i] == run_ids(runs)[at as int]);
                        }
                        if reported {
                            assert(runs[at as int].id == entry.run_id);
                        }
                    }
                }
                reported
            },
            None => {
                proof {
                    let runs = self@.runs;
                    assert forall|entry: EntryRow| entry.run_id == run_id implies !(
                    #[trigger] of_reported_run(runs, start)(entry)) by {
                        if of_reported_run(runs, start)(entry) {
                            let i = choose|i: int|
                                0 <= i < runs.len() && (#[trigger] runs[i]).id == entry.run_id
                                    && is_reported(start)(runs[i]);
                            assert(run_ids(runs)[i] == run_id);
                        }
                    }
                }
                false
            },
        }
    }

    /// The positions of the objects that the reported runs of a period handled.
    fn pick_entries(&self, start: i64) -> (picked: Vec<usize>)
        requires
            self@.wf(),
        ensures
            selected(self@.entries, picked@) == reported_entries(
                self@.runs,
                self@.entries,
                start,
            ),
            forall|i: int| 0 <= i < picked.len() ==> #[trigger] picked[i] < self@.entries.len(),
    {
        let running = "running".to_owned();
        let entries = self.entries();
        let ghost test = of_reported_run(self@.runs, start);
        let mut picked: Vec<usize> = Vec::new();
        let mut at: usize = 0;
        assert(selected(entries@, picked@) =~= entries@.take(0).filter(test)) by {
            reveal(Seq::filter);
        }
        while at < entries.len()
            invariant
                self@.wf(),
                entries@ == self@.entries,
                at <= entries.len(),
                running@ == "running"@,
                test == of_reported_run(self@.runs, start),
                selected(entries@, picked@) == entries@.take(at as int).filter(test),
                forall|i: int| 0 <= i < picked.len() ==> #[trigger] picked[i] < entries.len(),
            decreases entries.len() - at,
        {
            proof {
                lemma_filter_step(entries@, at as int, test);
                lemma_select_step(entries@, picked@, at);
            }
            if self.entry_is_reported(entries[at].run_id, start, &running) {
                picked.push(at);
            }
            at = at + 1;
        }
        assert(entries@.take(entries@.len() as int) =~= entries@);
        picked
    }

    /// The positions of the objects that the picked runs handled, run by run.
    fn handled_positions(&self, runs: &Vec<usize>) -> (picked: Vec<usize>)
        requires
            forall|i: int| 0 <= i < runs.len() ==> #[trigger] runs[i] < self@.runs.len(),
        ensures
            selected(self@.entries, picked@) == run_by_run(
                selected(self@.runs, runs@),
                self@.entries,
            ),
            forall|i: int| 0 <= i < picked.len() ==> #[trigger] picked[i] < self@.entries.len(),
    {
        let entries = self.entries();
        let ghost rows = selected(self@.runs, runs@);
        let mut picked: Vec<usize> = Vec::new();
        let mut turn: usize = 0;
        assert(selected(entries@, picked@) =~= run_by_run(rows.take(0), entries@));
        while turn < runs.len()
            invariant
                turn <= runs.len(),
                entries@ == self@.entries,
                rows == selected(self@.runs, runs@),
                forall|i: int| 0 <= i < runs.len() ==> #[trigger] runs[i] < self@.runs.len(),
                selected(entries@, picked@) == run_by_run(rows.take(turn as int), entries@),
                forall|i: int| 0 <= i < picked.len() ==> #[trigger] picked[i] < entries.len(),
            decreases runs.len() - turn,
        {
            let run_id = self.runs()[runs[turn]].id;
            let ghost done = selected(entries@, picked@);
            let ghost test = of_run(run_id);
            let mut at: usize = 0;
            assert(selected(entries@, picked@) =~= done + entries@.take(0).filter(test)) by {
                reveal(Seq::filter);
            }
            while at < entries.len()
                invariant
                    at <= entries.len(),
                    test == of_run(run_id),
                    selected(entries@, picked@) == done + entries@.take(at as int).filter(test),
                    forall|i: int| 0 <= i < picked.len() ==> #[trigger] picked[i] < entries.len(),
                decreases entries.len() - at,
            {
                proof {
                    lemma_filter_step(entries@, at as int, test);
                    lemma_select_step(entries@, picked@, at);
                }
                let ghost before = entries@.take(at as int).filter(test);
                if entries[at].run_id == run_id {
                    picked.push(at);
                    assert((done + before).push(entries@[at as int]) =~= done + before.push(
                        entries@[at as int],
                    ));
                }
                at = at + 1;
            }
            assert(entries@.take(entries@.len() as int) =~= entries@);
            assert(rows.take(turn + 1).drop_last() =~= rows.take(turn as int));
            assert(rows.take(turn + 1).last().id == run_id);
            turn = turn + 1;
        }
        assert(rows.take(rows.len() as int) =~= rows);
        picked
    }

    /// The categories that a summary lists, or none where they cannot be added up.
    fn period_categories(&self, picked: &Vec<usize>) -> (listed: Option<Vec<StatisticsCategory>>)
        requires
            forall|i: int| 0 <= i < picked.len() ==> #[trigger] picked[i] < self@.entries.len(),
        ensures
            ({
                let rows = selected(self@.entries, picked@);
                match listed {
                    Some(listed) => {
                        &&& sums_fit(rows)
                        &&& lists_categories(
                            rows,
                            TOP_CATEGORIES as int,
                            true,
                            category_names(listed@),
                        )
                        &&& forall|i: int|
                            0 <= i < listed.len() ==> {
                                let category = #[trigger] listed[i];
                                &&& category.reclaimed_bytes == counter_of(
                                    reclaimed_in(rows, category.category@) as i64,
                                )
                                &&& category.objects == in_category(rows, category.category@).len()
                            }
                    },
                    None => !sums_fit(rows),
                }
            }),
    {
        let entries = self.entries();
        let ghost rows = selected(entries@, picked@);
        let mut tally = Tally::new();
        let mut at: usize = 0;
        assert(rows.take(0) =~= Seq::<EntryRow>::empty());
        while at < picked.len()
            invariant
                at <= picked.len(),
                rows == selected(entries@, picked@),
                forall|i: int| 0 <= i < picked.len() ==> #[trigger] picked[i] < entries.len(),
                tally.counts(rows.take(at as int)),
            decreases picked.len() - at,
        {
            tally.add_row(&entries[picked[at]]);
            assert(rows.take(at + 1) =~= rows.take(at as int).push(
                entries@[picked@[at as int] as int],
            ));
            at = at + 1;
        }
        assert(rows.take(rows.len() as int) =~= rows);
        if !tally.fits() {
            return None;
        }
        proof {
            lemma_groups_fit(tally, rows);
        }
        let order = tally.ranked(TOP_CATEGORIES, true);
        let mut listed: Vec<StatisticsCategory> = Vec::new();
        let mut line: usize = 0;
        while line < order.len()
            invariant
                line <= order.len(),
                tally.counts(rows),
                sums_fit(rows),
                forall|i: int| 0 <= i < order.len() ==> #[trigger] order[i] < tally.groups.len(),
                forall|i: int|
                    0 <= i < tally.groups.len() ==> i64::MIN <= (
                    #[trigger] tally.groups[i]).reclaimed <= i64::MAX,
                listed.len() == line,
                forall|i: int|
                    0 <= i < line ==> {
                        let done = #[trigger] listed[i];
                        &&& done.category@ == tally.groups[order[i] as int].name@
                        &&& done.reclaimed_bytes == counter_of(
                            reclaimed_in(rows, done.category@) as i64,
                        )
                        &&& done.objects == in_category(rows, done.category@).len()
                    },
            decreases order.len() - line,
        {
            let group = &tally.groups[order[line]];
            assert(tally.groups[order[line as int] as int].counts(rows));
            listed.push(
                StatisticsCategory {
                    category: group.name.clone(),
                    reclaimed_bytes: from_i64(group.reclaimed as i64),
                    objects: group.objects,
                },
            );
            line = line + 1;
        }
        assert(category_names(listed@) =~= tally.names_at(order@));
        Some(listed)
    }

    /// The summary of the last `days` days before `now`, or of the whole history.
    pub fn statistics_snapshot_at(&self, now: i64, days: Option<u64>) -> (summary: Result<
        StatisticsSnapshot,
        HistoryError,
    >)
        requires
            self@.wf(),
        ensures
            ({
                let start = cutoff(now, days) as i64;
                let runs = reported_runs(self@.runs, start);
                let entries = reported_entries(self@.runs, self@.entries, start);
                match summary {
                    Ok(summary) => summary_fits(runs, self@.entries) && summary.summarises(
                        runs,
                        entries,
                    ),
                    Err(error) => error == HistoryError::SumOverflow && !summary_fits(
                        runs,
                        self@.entries,
                    ),
                }
            }),
    {
        let start = cutoff_at(now, days);
        let runs = self.runs();
        let picked = pick_runs(runs, start);
        let newest = newest_positions(runs, &picked);
        let ghost rows = selected(runs@, picked@);
        proof {
            lemma_same_sums(rows);
        }
        let reclaimed = match sum_runs(runs, &newest, Column::Reclaimed) {
            Some(sum) => sum,
            None => return Err(HistoryError::SumOverflow),
        };
        let files = match sum_runs(runs, &newest, Column::Files) {
            Some(sum) => sum,
            None => return Err(HistoryError::SumOverflow),
        };
        let dirs = match sum_runs(runs, &newest, Column::Dirs) {
            Some(sum) => sum,
            None => return Err(HistoryError::SumOverflow),
        };
        let skipped = match sum_runs(runs, &newest, Column::Skipped) {
            Some(sum) => sum,
            None => return Err(HistoryError::SumOverflow),
        };
        let errors = match sum_runs(runs, &newest, Column::Errors) {
            Some(sum) => sum,
            None => return Err(HistoryError::SumOverflow),
        };
        let handled = self.handled_positions(&newest);
        let categories = match self.period_categories(&handled) {
            Some(categories) => categories,
            None => return Err(HistoryError::SumOverflow),
        };
        proof {
            let visited = selected(self@.entries, handled@);
            let reported = reported_entries(self@.runs, self@.entries, start);
            reported_entries_come_run_by_run(self@.runs, self@.entries, start, self@.last_run);
            order_changes_no_list(
                visited,
                reported,
                TOP_CATEGORIES as int,
                true,
                category_names(categories@),
            );
            assert forall|i: int| 0 <= i < categories.len() implies ({
                let category = #[trigger] categories[i];
                &&& category.reclaimed_bytes == counter_of(
                    reclaimed_in(reported, category.category@) as i64,
                )
                &&& category.objects == in_category(reported, category.category@).len()
            }) by {
                order_changes_no_category(visited, reported, categories[i].category@);
            }
        }
        let (first_free_before, latest_free_after) = if picked.len() == 0 {
            (0, 0)
        } else {
            let ends = ends_of_period(runs, &picked);
            (
                from_i64(runs[picked[ends.0]].free_before),
                from_i64(runs[picked[ends.1]].free_at_end()),
            )
        };
        let recent_runs = recent_lines(runs, &picked);
        Ok(
            StatisticsSnapshot {
                runs: picked.len() as u64,
                reclaimed_bytes: from_i64(reclaimed),
                files_deleted: from_i64(files),
                dirs_deleted: from_i64(dirs),
                skipped: from_i64(skipped),
                errors: from_i64(errors),
                first_free_before,
                latest_free_after,
                recent_runs,
                categories,
            },
        )
    }

    /// The summary of the last `days` days, or of the whole history.
    pub fn statistics_snapshot(&self, days: Option<u64>) -> (summary: Result<
        StatisticsSnapshot,
        HistoryError,
    >)
        requires
            self@.wf(),
        ensures
            exists|now: i64|
                is_reading(now) && {
                    let start = #[trigger] cutoff(now, days) as i64;
                    let runs = reported_runs(self@.runs, start);
                    let entries = reported_entries(self@.runs, self@.entries, start);
                    match summary {
                        Ok(summary) => summary_fits(runs, self@.entries) && summary.summarises(
                            runs,
                            entries,
                        ),
                        Err(error) => error == HistoryError::SumOverflow && !summary_fits(
                            runs,
                            self@.entries,
                        ),
                    }
                },
    {
        let at = now();
        self.statistics_snapshot_at(at, days)
    }

    /// What the last finished run failed on: category, path and reason of each object.
    pub fn latest_errors(&self) -> (errors: Vec<(String, String, String)>)
        ensures
            ({
                let rows = latest_failures(self@.runs, self@.entries);
                &&& errors.len() == rows.len()
                &&& forall|i: int|
                    0 <= i < errors.len() ==> {
                        &&& (#[trigger] errors[i]).0 == rows[i].category
                        &&& errors[i].1 == rows[i].path
                        &&& errors[i].2@ == reason_of(rows[i])
                    }
            }),
    {
        let running = "running".to_owned();
        let runs = self.runs();
        let mut last: Option<i64> = None;
        let mut at: usize = 0;
        assert(runs@.take(0).filter(is_over()) =~= Seq::<RunRow>::empty()) by {
            reveal(Seq::filter);
        }
        while at < runs.len()
            invariant
                at <= runs.len(),
                running@ == "running"@,
                last == last_over(runs@.take(at as int)),
            decreases runs.len() - at,
        {
            proof {
                lemma_filter_step(runs@, at as int, is_over());
            }
            if !(runs[at].status == running) {
                last = Some(runs[at].id);
            }
            at = at + 1;
        }
        assert(runs@.take(runs@.len() as int) =~= runs@);
        let mut errors: Vec<(String, String, String)> = Vec::new();
        let run_id = match last {
            Some(id) => id,
            None => return errors,
        };
        let bad = "error".to_owned();
        let entries = self.entries();
        let ghost test = failed_in(run_id);
        let mut entry: usize = 0;
        assert(entries@.take(0).filter(test) =~= Seq::<EntryRow>::empty()) by {
            reveal(Seq::filter);
        }
        while entry < entries.len()
            invariant
                entry <= entries.len(),
                bad@ == "error"@,
                test == failed_in(run_id),
                errors.len() == entries@.take(entry as int).filter(test).len(),
                forall|i: int|
                    0 <= i < errors.len() ==> {
                        let row = entries@.take(entry as int).filter(test)[i];
                        &&& (#[trigger] errors[i]).0 == row.category
                        &&& errors[i].1 == row.path
                        &&& errors[i].2@ == reason_of(row)
                    },
            decreases entries.len() - entry,
        {
            proof {
                lemma_filter_step(entries@, entry as int, test);
            }
            let row = &entries[entry];
            if row.run_id == run_id && row.result == bad {
                let reason = match &row.error {
                    Some(error) => error.clone(),
                    None => "Причина не указана".to_owned(),
                };
                errors.push((row.category.clone(), row.path.clone(), reason));
            }
            entry = entry + 1;
        }
        assert(entries@.take(entries@.len() as int) =~= entries@);
        errors
    }

    /// The objects of the last `days` days before `now` that reclaimed most, at most
    /// `limit` of them and never more than a fixed number.
    pub fn statistics_details_at(&self, now: i64, days: Option<u64>, limit: usize) -> (details: Vec<
        StatisticsDetail,
    >)
        requires
            self@.wf(),
        ensures
            ({
                let start = cutoff(now, days) as i64;
                let rows = reported_entries(self@.runs, self@.entries, start);
                let most = if limit <= MOST_DETAILS {
                    limit as int
                } else {
                    MOST_DETAILS as int
                };
                details@ == detail_lines(rows, top(reclaimed_column(rows), most, true))
            }),
    {
        let start = cutoff_at(now, days);
        let most = if limit <= MOST_DETAILS {
            limit
        } else {
            MOST_DETAILS
        };
        let entries = self.entries();
        let picked = self.pick_entries(start);
        let ghost rows = selected(entries@, picked@);
        let mut keys: Vec<i64> = Vec::new();
        let mut at: usize = 0;
        while at < picked.len()
            invariant
                at <= picked.len(),
                rows == selected(entries@, picked@),
                keys@ == reclaimed_column(rows).take(at as int),
                forall|i: int| 0 <= i < picked.len() ==> #[trigger] picked[i] < entries.len(),
            decreases picked.len() - at,
        {
            keys.push(entries[picked[at]].bytes_reclaimed);
            assert(keys@ =~= reclaimed_column(rows).take(at + 1));
            at = at + 1;
        }
        assert(keys@ =~= reclaimed_column(rows));
        let order = top_positions(&keys, most, true);
        let mut details: Vec<StatisticsDetail> = Vec::new();
        let mut line: usize = 0;
        while line < order.len()
            invariant
                line <= order.len(),
                rows == selected(entries@, picked@),
                details@ == detail_lines(rows, order@.take(line as int)),
                forall|i: int| 0 <= i < order.len() ==> #[trigger] order[i] < picked.len(),
                forall|i: int| 0 <= i < picked.len() ==> #[trigger] picked[i] < entries.len(),
            decreases order.len() - line,
        {
            details.push(entries[picked[order[line]]].to_detail());
            assert(details@ =~= detail_lines(rows, order@.take(line + 1)));
            line = line + 1;
        }
        assert(order@.take(order@.len() as int) =~= order@);
        details
    }

    /// The objects of the last `days` days that reclaimed most.
    pub fn statistics_details(&self, days: Option<u64>, limit: usize) -> (details: Vec<
        StatisticsDetail,
    >)
        requires
            self@.wf(),
        ensures
            exists|now: i64|
                is_reading(now) && {
                    let start = #[trigger] cutoff(now, days) as i64;
                    let rows = reported_entries(self@.runs, self@.entries, start);
                    let most = if limit <= MOST_DETAILS {
                        limit as int
                    } else {
                        MOST_DETAILS as int
                    };
                    details@ == detail_lines(rows, top(reclaimed_column(rows), most, true))
                },
    {
        let at = now();
        self.statistics_details_at(at, days, limit)
    }
}

/// The order of the runs changes none of their sums.
pub proof fn lemma_same_sums(runs: Seq<RunRow>)
    requires
        runs.len() <= usize::MAX,
    ensures
        total(runs_reclaimed(newest_first(runs))) == total(runs_reclaimed(runs)),
        total(runs_files(newest_first(runs))) == total(runs_files(runs)),
        total(runs_dirs(newest_first(runs))) == total(runs_dirs(runs)),
        total(runs_skipped(newest_first(runs))) == total(runs_skipped(runs)),
        total(runs_errors(newest_first(runs))) == total(runs_errors(runs)),
{
    lemma_same_sum(runs, Column::Reclaimed);
    lemma_same_sum(runs, Column::Files);
    lemma_same_sum(runs, Column::Dirs);
    lemma_same_sum(runs, Column::Skipped);
    lemma_same_sum(runs, Column::Errors);
}

proof fn lemma_same_sum(runs: Seq<RunRow>, column: Column)
    requires
        runs.len() <= usize::MAX,
    ensures
        total(column_of_runs(column, newest_first(runs))) == total(column_of_runs(column, runs)),
{
    let keys = started_column(runs);
    let order = top(keys, runs.len() as int, false);
    let values = column_of_runs(column, runs);
    top_is_found(keys, runs.len() as int, false);
    order_holds_none_twice(keys, runs.len() as int, false, order);
    distinct_rows_are_all(values, order);
    assert(column_of_runs(column, newest_first(runs)) =~= selected(values, order));
    order_changes_no_sum(selected(values, order), values);
}

proof fn lemma_groups_fit(tally: Tally, rows: Seq<EntryRow>)
    requires
        tally.counts(rows),
        sums_fit(rows),
    ensures
        forall|i: int|
            0 <= i < tally.groups.len() ==> i64::MIN <= (#[trigger] tally.groups[i]).reclaimed
                <= i64::MAX,
{
    assert forall|i: int| 0 <= i < tally.groups.len() implies i64::MIN <= (
    #[trigger] tally.groups[i]).reclaimed <= i64::MAX by {
        assert(tally.groups[i].counts(rows));
        assert(has_category(rows, tally.groups[i].name@));
        lemma_whole_fits(reclaimed_column(in_category(rows, tally.groups[i].name@)));
    }
}

} // verus!
