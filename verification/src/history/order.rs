//! The order in which the rows of a period are added up.

use crate::history::query::{
    is_reported, of_reported_run, of_run, reported_entries, reported_runs, selected,
    started_column,
};
use crate::history::ranking::{
    distinct_positions_are_all, order_holds_none_twice, top, top_is_found,
};
use crate::history::rows::{EntryRow, RunRow};
use crate::history::store::{ids_rise, run_ids};
use crate::history::tally::{
    category_before, category_is, has_category, in_category, lists_categories, reclaimed_column,
    reclaimed_in, total,
};
use vstd::prelude::*;
use vstd::seq_lib::{
    lemma_multiset_commutative, to_multiset_build, to_multiset_contains, to_multiset_len,
    to_multiset_remove,
};

verus! {

/// The runs from the one that began last to the one that began first. Runs that began
/// together stay in their order.
pub open spec fn newest_first(runs: Seq<RunRow>) -> Seq<RunRow> {
    selected(runs, top(started_column(runs), runs.len() as int, false))
}

/// The objects that `runs` handled, run by run, those of each run in their order.
pub open spec fn run_by_run(runs: Seq<RunRow>, entries: Seq<EntryRow>) -> Seq<EntryRow>
    decreases runs.len(),
{
    if runs.len() == 0 {
        Seq::empty()
    } else {
        run_by_run(runs.drop_last(), entries) + entries.filter(of_run(runs.last().id))
    }
}

/// Rows at distinct positions are all rows where there are as many of them.
pub proof fn distinct_rows_are_all<T>(rows: Seq<T>, order: Seq<usize>)
    requires
        order.no_duplicates(),
        order.len() == rows.len() <= usize::MAX,
        forall|i: int| 0 <= i < order.len() ==> #[trigger] order[i] < rows.len(),
    ensures
        selected(rows, order).to_multiset() == rows.to_multiset(),
    decreases rows.len(),
{
    let chosen = selected(rows, order);
    if rows.len() == 0 {
        assert(chosen =~= rows);
    } else {
        let last = (rows.len() - 1) as usize;
        distinct_positions_are_all(order, last);
        let k = choose|k: int| 0 <= k < order.len() && order[k] == last;
        let rest = order.remove(k);
        let fewer = rows.drop_last();
        assert forall|i: int| 0 <= i < rest.len() implies #[trigger] rest[i] < fewer.len() by {
            assert(rest[i] == order[if i < k {
                i
            } else {
                i + 1
            }]);
        }
        assert(rest.no_duplicates()) by {
            assert forall|i: int, j: int| 0 <= i < j < rest.len() implies rest[i] != rest[j] by {
                let a = if i < k {
                    i
                } else {
                    i + 1
                };
                let b = if j < k {
                    j
                } else {
                    j + 1
                };
                assert(order[a] != order[b]);
            }
        }
        distinct_rows_are_all(fewer, rest);
        assert(chosen.remove(k) =~= selected(fewer, rest));
        assert(chosen[k] == rows.last());
        to_multiset_remove(chosen, k);
        to_multiset_contains(chosen, rows.last());
        to_multiset_build(fewer, rows.last());
        assert(fewer.push(rows.last()) =~= rows);
        assert(chosen.to_multiset() =~= rows.to_multiset());
    }
}

/// From the newest on come the same runs.
pub proof fn newest_first_holds_the_runs(runs: Seq<RunRow>)
    requires
        runs.len() <= usize::MAX,
    ensures
        newest_first(runs).to_multiset() == runs.to_multiset(),
{
    let order = top(started_column(runs), runs.len() as int, false);
    top_is_found(started_column(runs), runs.len() as int, false);
    order_holds_none_twice(started_column(runs), runs.len() as int, false, order);
    distinct_rows_are_all(runs, order);
}

/// The test for objects that one of `runs` handled.
pub open spec fn of_one_of(runs: Seq<RunRow>) -> spec_fn(EntryRow) -> bool {
    |entry: EntryRow|
        exists|i: int| 0 <= i < runs.len() && (#[trigger] runs[i]).id == entry.run_id
}

/// Run by run come the objects that one of the runs handled, where no two runs have the
/// same identifier.
pub proof fn run_by_run_holds_the_entries(runs: Seq<RunRow>, entries: Seq<EntryRow>)
    requires
        run_ids(runs).no_duplicates(),
    ensures
        run_by_run(runs, entries).to_multiset() == entries.filter(of_one_of(runs)).to_multiset(),
    decreases entries.len(),
{
    if entries.len() == 0 {
        lemma_no_entries(runs, entries);
        reveal(Seq::filter);
        assert(run_by_run(runs, entries) =~= entries.filter(of_one_of(runs)));
    } else {
        let rest = entries.drop_last();
        let entry = entries.last();
        assert(rest.push(entry) =~= entries);
        run_by_run_holds_the_entries(runs, rest);
        lemma_one_more(runs, rest, entry);
        rest.lemma_filter_push(entry, of_one_of(runs));
        to_multiset_build(rest.filter(of_one_of(runs)), entry);
    }
}

proof fn lemma_no_entries(runs: Seq<RunRow>, entries: Seq<EntryRow>)
    requires
        entries.len() == 0,
    ensures
        run_by_run(runs, entries).len() == 0,
    decreases runs.len(),
{
    if runs.len() > 0 {
        reveal(Seq::filter);
        lemma_no_entries(runs.drop_last(), entries);
    }
}

proof fn lemma_one_more(runs: Seq<RunRow>, entries: Seq<EntryRow>, entry: EntryRow)
    requires
        run_ids(runs).no_duplicates(),
    ensures
        run_by_run(runs, entries.push(entry)).to_multiset() == if of_one_of(runs)(entry) {
            run_by_run(runs, entries).to_multiset().insert(entry)
        } else {
            run_by_run(runs, entries).to_multiset()
        },
    decreases runs.len(),
{
    if runs.len() > 0 {
        let rest = runs.drop_last();
        let test = of_run(runs.last().id);
        assert(run_ids(rest) =~= run_ids(runs).drop_last());
        lemma_one_more(rest, entries, entry);
        entries.lemma_filter_push(entry, test);
        to_multiset_build(entries.filter(test), entry);
        lemma_multiset_commutative(run_by_run(rest, entries), entries.filter(test));
        lemma_multiset_commutative(
            run_by_run(rest, entries.push(entry)),
            entries.push(entry).filter(test),
        );
        if of_one_of(rest)(entry) {
            let i = choose|i: int| 0 <= i < rest.len() && (#[trigger] rest[i]).id == entry.run_id;
            assert(runs[i].id == entry.run_id);
            assert(run_ids(runs)[i] != run_ids(runs)[runs.len() - 1]);
        } else if of_one_of(runs)(entry) {
            let i = choose|i: int| 0 <= i < runs.len() && (#[trigger] runs[i]).id == entry.run_id;
            if i < rest.len() {
                assert(rest[i].id == entry.run_id);
            }
        }
        if test(entry) {
            assert(runs[runs.len() - 1].id == entry.run_id);
        }
        assert(run_by_run(runs, entries.push(entry)).to_multiset() =~= if of_one_of(runs)(entry) {
            run_by_run(runs, entries).to_multiset().insert(entry)
        } else {
            run_by_run(runs, entries).to_multiset()
        });
    }
}

/// The reported runs from the newest on bring the objects of the period, each as often as
/// it is reported.
pub proof fn reported_entries_come_run_by_run(
    runs: Seq<RunRow>,
    entries: Seq<EntryRow>,
    start: i64,
    last: i64,
)
    requires
        ids_rise(run_ids(runs), last),
        runs.len() <= usize::MAX,
    ensures
        run_by_run(newest_first(reported_runs(runs, start)), entries).to_multiset()
            == reported_entries(runs, entries, start).to_multiset(),
{
    let reported = reported_runs(runs, start);
    let order = top(started_column(reported), reported.len() as int, false);
    let newest = newest_first(reported);
    lemma_reported_rise(runs, start, last);
    runs.lemma_filter_len(is_reported(start));
    top_is_found(started_column(reported), reported.len() as int, false);
    order_holds_none_twice(started_column(reported), reported.len() as int, false, order);
    assert(run_ids(newest).no_duplicates()) by {
        assert forall|i: int, j: int| 0 <= i < j < newest.len() implies run_ids(newest)[i]
            != run_ids(newest)[j] by {
            let a = order[i] as int;
            let b = order[j] as int;
            assert(a != b);
            assert(run_ids(reported)[a] != run_ids(reported)[b]);
        }
    }
    run_by_run_holds_the_entries(newest, entries);
    assert forall|entry: EntryRow| #[trigger]
        of_one_of(newest)(entry) == of_reported_run(runs, start)(entry) by {
        if of_one_of(newest)(entry) {
            let i = choose|i: int| 0 <= i < newest.len() && (#[trigger] newest[i]).id
                == entry.run_id;
            let row = reported[order[i] as int];
            runs.lemma_filter_pred(is_reported(start), order[i] as int);
            runs.lemma_filter_contains_rev(is_reported(start), row);
            let k = choose|k: int| 0 <= k < runs.len() && runs[k] == row;
            assert(runs[k].id == entry.run_id && is_reported(start)(runs[k]));
        }
        if of_reported_run(runs, start)(entry) {
            let k = choose|k: int|
                0 <= k < runs.len() && (#[trigger] runs[k]).id == entry.run_id && is_reported(
                    start,
                )(runs[k]);
            runs.lemma_filter_contains(is_reported(start), k);
            let at = choose|at: int| 0 <= at < reported.len() && reported[at] == runs[k];
            distinct_positions_are_all(order, at as usize);
            let i = choose|i: int| 0 <= i < order.len() && order[i] == at as usize;
            assert(newest[i].id == entry.run_id);
        }
    }
    assert(of_one_of(newest) =~= of_reported_run(runs, start));
}

proof fn lemma_reported_rise(runs: Seq<RunRow>, start: i64, last: i64)
    requires
        ids_rise(run_ids(runs), last),
    ensures
        ids_rise(run_ids(reported_runs(runs, start)), last),
    decreases runs.len(),
{
    reveal(Seq::filter);
    if runs.len() > 0 {
        let rest = runs.drop_last();
        let reported = reported_runs(rest, start);
        let ids = run_ids(runs);
        assert(run_ids(rest) =~= ids.drop_last());
        assert(ids_rise(run_ids(rest), last));
        lemma_reported_rise(rest, start, last);
        assert forall|i: int| 0 <= i < reported.len() implies (#[trigger] reported[i]).id
            < runs.last().id by {
            rest.lemma_filter_pred(is_reported(start), i);
            rest.lemma_filter_contains_rev(is_reported(start), reported[i]);
            let k = choose|k: int| 0 <= k < rest.len() && rest[k] == reported[i];
            assert(ids[k] < ids[runs.len() - 1]);
        }
        let all = run_ids(reported_runs(runs, start));
        if is_reported(start)(runs.last()) {
            assert(all =~= run_ids(reported).push(runs.last().id));
            assert(ids[runs.len() - 1] <= last);
            assert forall|i: int, j: int| 0 <= i < j < all.len() implies all[i] < all[j] by {
                assert(run_ids(reported)[i] == reported[i].id);
                if j < reported.len() {
                    assert(run_ids(reported)[i] < run_ids(reported)[j]);
                }
            }
            assert forall|i: int| 0 <= i < all.len() implies all[i] <= last by {
                if i < reported.len() {
                    assert(run_ids(reported)[i] <= last);
                }
            }
        }
    }
}

/// Columns that hold the same values have the same sum, whatever their order.
pub proof fn order_changes_no_sum(one: Seq<i64>, two: Seq<i64>)
    requires
        one.to_multiset() == two.to_multiset(),
    ensures
        total(one) == total(two),
    decreases one.len(),
{
    to_multiset_len(one);
    to_multiset_len(two);
    if one.len() > 0 {
        let value = one.last();
        to_multiset_contains(one, value);
        to_multiset_contains(two, value);
        assert(one[one.len() - 1] == value);
        let k = choose|k: int| 0 <= k < two.len() && two[k] == value;
        to_multiset_remove(one, one.len() - 1);
        to_multiset_remove(two, k);
        assert(one.remove(one.len() - 1) =~= one.drop_last());
        order_changes_no_sum(one.drop_last(), two.remove(k));
        lemma_total_without(two, k);
    }
}

proof fn lemma_total_without(values: Seq<i64>, at: int)
    requires
        0 <= at < values.len(),
    ensures
        total(values) == total(values.remove(at)) + values[at],
    decreases values.len(),
{
    if at == values.len() - 1 {
        assert(values.remove(at) =~= values.drop_last());
    } else {
        lemma_total_without(values.drop_last(), at);
        assert(values.remove(at).drop_last() =~= values.drop_last().remove(at));
        assert(values.remove(at).last() == values.last());
    }
}

/// The same objects amount to the same in every category, whatever their order.
pub proof fn order_changes_no_category(
    one: Seq<EntryRow>,
    two: Seq<EntryRow>,
    name: Seq<char>,
)
    requires
        one.to_multiset() == two.to_multiset(),
    ensures
        has_category(one, name) == has_category(two, name),
        reclaimed_in(one, name) == reclaimed_in(two, name),
        in_category(one, name).len() == in_category(two, name).len(),
{
    let left = in_category(one, name);
    let right = in_category(two, name);
    assert forall|row: EntryRow| left.to_multiset().count(row) == right.to_multiset().count(
        row,
    ) by {
        lemma_filtered_count(one, category_is(name), row);
        lemma_filtered_count(two, category_is(name), row);
    }
    assert(left.to_multiset() =~= right.to_multiset());
    to_multiset_len(left);
    to_multiset_len(right);
    lemma_same_column(left, right);
    order_changes_no_sum(reclaimed_column(left), reclaimed_column(right));
    lemma_has_category(one, two, name);
    lemma_has_category(two, one, name);
}

proof fn lemma_has_category(one: Seq<EntryRow>, two: Seq<EntryRow>, name: Seq<char>)
    requires
        one.to_multiset() == two.to_multiset(),
    ensures
        has_category(one, name) ==> has_category(two, name),
{
    if has_category(one, name) {
        let i = choose|i: int| 0 <= i < one.len() && (#[trigger] one[i]).category@ == name;
        to_multiset_contains(one, one[i]);
        to_multiset_contains(two, one[i]);
        let k = choose|k: int| 0 <= k < two.len() && two[k] == one[i];
        assert(two[k].category@ == name);
    }
}

proof fn lemma_filtered_count(rows: Seq<EntryRow>, test: spec_fn(EntryRow) -> bool, row: EntryRow)
    ensures
        rows.filter(test).to_multiset().count(row) == if test(row) {
            rows.to_multiset().count(row)
        } else {
            0
        },
    decreases rows.len(),
{
    if rows.len() == 0 {
        reveal(Seq::filter);
        assert(rows.filter(test) =~= rows);
        to_multiset_contains(rows, row);
    } else {
        let rest = rows.drop_last();
        assert(rest.push(rows.last()) =~= rows);
        lemma_filtered_count(rest, test, row);
        rest.lemma_filter_push(rows.last(), test);
        to_multiset_build(rest, rows.last());
        to_multiset_build(rest.filter(test), rows.last());
    }
}

proof fn lemma_same_column(one: Seq<EntryRow>, two: Seq<EntryRow>)
    requires
        one.to_multiset() == two.to_multiset(),
    ensures
        reclaimed_column(one).to_multiset() == reclaimed_column(two).to_multiset(),
    decreases one.len(),
{
    to_multiset_len(one);
    to_multiset_len(two);
    if one.len() == 0 {
        assert(reclaimed_column(one) =~= reclaimed_column(two));
    } else {
        let row = one.last();
        assert(one[one.len() - 1] == row);
        to_multiset_contains(one, row);
        to_multiset_contains(two, row);
        let k = choose|k: int| 0 <= k < two.len() && two[k] == row;
        to_multiset_remove(one, one.len() - 1);
        to_multiset_remove(two, k);
        assert(one.remove(one.len() - 1) =~= one.drop_last());
        lemma_same_column(one.drop_last(), two.remove(k));
        let left = reclaimed_column(one);
        let right = reclaimed_column(two);
        assert(left.remove(one.len() - 1) =~= reclaimed_column(one.drop_last()));
        assert(right.remove(k) =~= reclaimed_column(two.remove(k)));
        to_multiset_remove(left, one.len() - 1);
        to_multiset_remove(right, k);
        to_multiset_contains(left, row.bytes_reclaimed);
        to_multiset_contains(right, row.bytes_reclaimed);
        let value = row.bytes_reclaimed;
        assert(left[one.len() - 1] == value && right[k] == value);
        assert(left.to_multiset() =~= left.to_multiset().remove(value).insert(value));
        assert(right.to_multiset() =~= right.to_multiset().remove(value).insert(value));
    }
}

/// A list of the first categories is one of the same objects in any order.
pub proof fn order_changes_no_list(
    one: Seq<EntryRow>,
    two: Seq<EntryRow>,
    limit: int,
    names_fall: bool,
    names: Seq<Seq<char>>,
)
    requires
        one.to_multiset() == two.to_multiset(),
        lists_categories(one, limit, names_fall, names),
    ensures
        lists_categories(two, limit, names_fall, names),
{
    assert forall|left: Seq<char>, right: Seq<char>| #[trigger]
        category_before(two, names_fall, left, right) == category_before(
            one,
            names_fall,
            left,
            right,
        ) by {
        order_changes_no_category(one, two, left);
        order_changes_no_category(one, two, right);
    }
    assert forall|name: Seq<char>| #[trigger]
        has_category(two, name) == has_category(one, name) by {
        order_changes_no_category(one, two, name);
    }
    assert forall|i: int| 0 <= i < names.len() implies has_category(two, #[trigger] names[i]) by {
        assert(has_category(one, names[i]));
    }
}

} // verus!
