//! Sums of handled objects by category.

use crate::history::ranking::{is_top, ranks_before, top_positions};
use crate::history::rows::EntryRow;
use crate::text::{
    precedes, precedes_is_irreflexive, precedes_is_total, precedes_is_transitive, text_precedes,
};
use vstd::prelude::*;

verus! {

/// The sum of a column.
pub open spec fn total(values: Seq<i64>) -> int
    decreases values.len(),
{
    if values.len() == 0 {
        0
    } else {
        total(values.drop_last()) + values.last()
    }
}

/// Whether a sum fits a column.
pub open spec fn fits(sum: int) -> bool {
    i64::MIN <= sum <= i64::MAX
}

/// Whether a column can be added up in its order: every sum on the way fits a column.
pub open spec fn adds_up(values: Seq<i64>) -> bool {
    forall|count: int| 0 <= count <= values.len() ==> fits(total(#[trigger] values.take(count)))
}

/// The test for rows of one category.
pub open spec fn category_is(name: Seq<char>) -> spec_fn(EntryRow) -> bool {
    |row: EntryRow| row.category@ == name
}

/// The test for rows that ended with `result`.
pub open spec fn result_is(result: Seq<char>) -> spec_fn(EntryRow) -> bool {
    |row: EntryRow| row.result@ == result
}

/// The bytes that each row reclaimed.
pub open spec fn reclaimed_column(rows: Seq<EntryRow>) -> Seq<i64> {
    rows.map_values(|row: EntryRow| row.bytes_reclaimed)
}

/// The rows of one category.
pub open spec fn in_category(rows: Seq<EntryRow>, name: Seq<char>) -> Seq<EntryRow> {
    rows.filter(category_is(name))
}

/// Whether some row belongs to the category.
pub open spec fn has_category(rows: Seq<EntryRow>, name: Seq<char>) -> bool {
    exists|i: int| 0 <= i < rows.len() && (#[trigger] rows[i]).category@ == name
}

/// The bytes that the rows of one category reclaimed.
pub open spec fn reclaimed_in(rows: Seq<EntryRow>, name: Seq<char>) -> int {
    total(reclaimed_column(in_category(rows, name)))
}

/// How many rows of one category ended with `result`.
pub open spec fn results_in(rows: Seq<EntryRow>, name: Seq<char>, result: Seq<char>) -> nat {
    in_category(rows, name).filter(result_is(result)).len()
}

/// Whether one category is listed before another: the one that reclaimed more.
/// Between equals the names decide, and `names_fall` says whether the later name
/// comes first.
pub open spec fn category_before(
    rows: Seq<EntryRow>,
    names_fall: bool,
    left: Seq<char>,
    right: Seq<char>,
) -> bool {
    ||| reclaimed_in(rows, left) > reclaimed_in(rows, right)
    ||| reclaimed_in(rows, left) == reclaimed_in(rows, right) && if names_fall {
        precedes(right, left)
    } else {
        precedes(left, right)
    }
}

/// Whether `names` lists the categories of `rows` in their order, each once. A
/// category is missing only where `limit` others come before it.
pub open spec fn lists_categories(
    rows: Seq<EntryRow>,
    limit: int,
    names_fall: bool,
    names: Seq<Seq<char>>,
) -> bool {
    &&& names.len() <= limit
    &&& forall|i: int| 0 <= i < names.len() ==> has_category(rows, #[trigger] names[i])
    &&& forall|i: int, j: int|
        #![trigger names[i], names[j]]
        0 <= i < j < names.len() ==> category_before(rows, names_fall, names[i], names[j])
    &&& forall|name: Seq<char>| #[trigger]
        has_category(rows, name) ==> {
            ||| names.contains(name)
            ||| names.len() == limit && forall|i: int|
                0 <= i < names.len() ==> category_before(rows, names_fall, #[trigger] names[i], name)
        }
}

/// Whether `names` lists every category of `rows` in their order, each once.
pub open spec fn lists_all_categories(
    rows: Seq<EntryRow>,
    names_fall: bool,
    names: Seq<Seq<char>>,
) -> bool {
    &&& forall|i: int| 0 <= i < names.len() ==> has_category(rows, #[trigger] names[i])
    &&& forall|i: int, j: int|
        #![trigger names[i], names[j]]
        0 <= i < j < names.len() ==> category_before(rows, names_fall, names[i], names[j])
    &&& forall|name: Seq<char>| #[trigger] has_category(rows, name) ==> names.contains(name)
}

/// Whether the rows of every category can be added up in their order.
pub open spec fn sums_fit(rows: Seq<EntryRow>) -> bool {
    forall|name: Seq<char>| #[trigger]
        has_category(rows, name) ==> adds_up(reclaimed_column(in_category(rows, name)))
}

/// What one category amounts to.
pub struct Group {
    pub name: String,
    pub reclaimed: i128,
    pub fit: bool,
    pub objects: u64,
    pub deleted: u64,
    pub failed: u64,
}

impl Group {
    /// Whether the group holds what the rows of its category amount to.
    pub open spec fn counts(self, rows: Seq<EntryRow>) -> bool {
        &&& self.reclaimed == reclaimed_in(rows, self.name@)
        &&& self.fit == adds_up(reclaimed_column(in_category(rows, self.name@)))
        &&& self.objects == in_category(rows, self.name@).len()
        &&& self.deleted == results_in(rows, self.name@, "deleted"@)
        &&& self.failed == results_in(rows, self.name@, "error"@)
    }
}

/// The groups of the rows seen so far, in the order of their names.
pub struct Tally {
    pub groups: Vec<Group>,
    pub seen: u64,
}

impl Tally {
    /// Whether the tally is that of `rows`.
    pub open spec fn counts(self, rows: Seq<EntryRow>) -> bool {
        &&& self.seen == rows.len()
        &&& forall|i: int| 0 <= i < self.groups.len() ==> (#[trigger] self.groups[i]).counts(rows)
        &&& forall|i: int, j: int|
            #![trigger self.groups[i], self.groups[j]]
            0 <= i < j < self.groups.len() ==> precedes(self.groups[i].name@, self.groups[j].name@)
        &&& forall|i: int|
            0 <= i < self.groups.len() ==> has_category(rows, (#[trigger] self.groups[i]).name@)
        &&& forall|name: Seq<char>| #[trigger] has_category(rows, name) ==> self.has(name)
    }

    /// Whether the tally has a group of that name.
    pub open spec fn has(self, name: Seq<char>) -> bool {
        exists|i: int| 0 <= i < self.groups.len() && (#[trigger] self.groups[i]).name@ == name
    }

    /// A tally of no rows.
    pub fn new() -> (tally: Tally)
        ensures
            tally.counts(Seq::empty()),
    {
        Tally { groups: Vec::new(), seen: 0 }
    }

    /// Adds a row to the tally.
    pub fn add_row(&mut self, row: &EntryRow)
        requires
            exists|rows: Seq<EntryRow>| old(self).counts(rows),
            old(self).seen < u64::MAX,
        ensures
            forall|rows: Seq<EntryRow>| #[trigger]
                old(self).counts(rows) ==> final(self).counts(rows.push(*row)),
    {
        let mut at: usize = 0;
        while at < self.groups.len() && text_precedes(
            self.groups[at].name.as_str(),
            row.category.as_str(),
        )
            invariant
                *self == *old(self),
                at <= self.groups.len(),
                forall|i: int|
                    0 <= i < at ==> precedes((#[trigger] self.groups[i]).name@, row.category@),
            decreases self.groups.len() - at,
        {
            at = at + 1;
        }
        let ghost witness = choose|rows: Seq<EntryRow>| old(self).counts(rows);
        let gone = "deleted".to_owned();
        let bad = "error".to_owned();
        let was_deleted: u64 = if row.result == gone {
            1
        } else {
            0
        };
        let was_failed: u64 = if row.result == bad {
            1
        } else {
            0
        };
        if at < self.groups.len() && self.groups[at].name == row.category {
            proof {
                lemma_group_bounds(witness, row.category@);
                assert(self.groups[at as int].counts(witness));
            }
            let sum = self.groups[at].reclaimed + row.bytes_reclaimed as i128;
            self.groups[at].reclaimed = sum;
            self.groups[at].fit = self.groups[at].fit && i64::MIN as i128 <= sum && sum
                <= i64::MAX as i128;
            self.groups[at].objects = self.groups[at].objects + 1;
            self.groups[at].deleted = self.groups[at].deleted + was_deleted;
            self.groups[at].failed = self.groups[at].failed + was_failed;
            assert(self.groups@ =~= old(self).groups@.update(at as int, self.groups[at as int]));
        } else {
            let group = Group {
                name: row.category.clone(),
                reclaimed: row.bytes_reclaimed as i128,
                fit: true,
                objects: 1,
                deleted: was_deleted,
                failed: was_failed,
            };
            self.groups.insert(at, group);
        }
        self.seen = self.seen + 1;
        proof {
            assert forall|rows: Seq<EntryRow>| #[trigger] old(self).counts(rows) implies self.counts(
                rows.push(*row),
            ) by {
                lemma_added(*old(self), *self, rows, *row, at as int);
            }
        }
    }

    /// Whether the rows of every group could be added up.
    pub fn fits(&self) -> (fit: bool)
        ensures
            forall|rows: Seq<EntryRow>| #[trigger] self.counts(rows) ==> fit == sums_fit(rows),
    {
        let mut at: usize = 0;
        while at < self.groups.len()
            invariant
                at <= self.groups.len(),
                forall|i: int| 0 <= i < at ==> (#[trigger] self.groups[i]).fit,
            decreases self.groups.len() - at,
        {
            if !self.groups[at].fit {
                assert forall|rows: Seq<EntryRow>| #[trigger] self.counts(rows) implies !sums_fit(
                    rows,
                ) by {
                    assert(self.groups[at as int].counts(rows));
                    assert(has_category(rows, self.groups[at as int].name@));
                }
                return false;
            }
            at = at + 1;
        }
        assert forall|rows: Seq<EntryRow>| #[trigger] self.counts(rows) implies sums_fit(rows) by {
            assert forall|name: Seq<char>| #[trigger] has_category(rows, name) implies adds_up(
                reclaimed_column(in_category(rows, name)),
            ) by {
                assert(self.has(name));
                let i = choose|i: int|
                    0 <= i < self.groups.len() && (#[trigger] self.groups[i]).name@ == name;
                assert(self.groups[i].counts(rows));
            }
        }
        true
    }

    /// The names of the groups at the given positions.
    pub open spec fn names_at(self, order: Seq<usize>) -> Seq<Seq<char>> {
        order.map_values(|at: usize| self.groups[at as int].name@)
    }

    /// The positions of the first `limit` groups in the order of the categories.
    pub fn ranked(&self, limit: usize, names_fall: bool) -> (order: Vec<usize>)
        requires
            forall|i: int|
                0 <= i < self.groups.len() ==> i64::MIN <= (#[trigger] self.groups[i]).reclaimed
                    <= i64::MAX,
        ensures
            forall|i: int| 0 <= i < order.len() ==> #[trigger] order[i] < self.groups.len(),
            forall|rows: Seq<EntryRow>| #[trigger]
                self.counts(rows) ==> lists_categories(
                    rows,
                    limit as int,
                    names_fall,
                    self.names_at(order@),
                ),
            limit >= self.groups.len() ==> forall|rows: Seq<EntryRow>| #[trigger]
                self.counts(rows) ==> lists_all_categories(
                    rows,
                    names_fall,
                    self.names_at(order@),
                ),
    {
        let mut keys: Vec<i64> = Vec::new();
        let mut at: usize = 0;
        while at < self.groups.len()
            invariant
                at <= self.groups.len(),
                keys.len() == at,
                forall|i: int| 0 <= i < at ==> keys[i] == (#[trigger] self.groups[i]).reclaimed,
                forall|i: int|
                    0 <= i < self.groups.len() ==> i64::MIN <= (#[trigger] self.groups[i]).reclaimed
                        <= i64::MAX,
            decreases self.groups.len() - at,
        {
            keys.push(self.groups[at].reclaimed as i64);
            at = at + 1;
        }
        let order = top_positions(&keys, limit, names_fall);
        proof {
            assert forall|rows: Seq<EntryRow>| #[trigger] self.counts(rows) implies lists_categories(
                rows,
                limit as int,
                names_fall,
                self.names_at(order@),
            ) && (limit >= self.groups.len() ==> lists_all_categories(
                rows,
                names_fall,
                self.names_at(order@),
            )) by {
                lemma_ranked(*self, rows, keys@, limit as int, names_fall, order@);
            }
        }
        order
    }
}

/// A column without negative values can be added up, in whatever order, where its sum fits.
pub proof fn counters_add_up_where_their_sum_fits(values: Seq<i64>)
    requires
        forall|i: int| 0 <= i < values.len() ==> #[trigger] values[i] >= 0,
    ensures
        adds_up(values) <==> fits(total(values)),
        total(values) >= 0,
    decreases values.len(),
{
    if values.len() == 0 {
        assert(forall|count: int|
            0 <= count <= values.len() ==> #[trigger] values.take(count) =~= values);
    } else {
        let rest = values.drop_last();
        assert forall|i: int| 0 <= i < rest.len() implies #[trigger] rest[i] >= 0 by {
            assert(rest[i] == values[i]);
        }
        counters_add_up_where_their_sum_fits(rest);
        lemma_adds_up_on(rest, values.last());
        assert(rest.push(values.last()) =~= values);
        assert(values[values.len() - 1] >= 0);
    }
}

/// A column that can be added up to its last value can be added up on where the next sum
/// fits too.
proof fn lemma_adds_up_on(values: Seq<i64>, value: i64)
    ensures
        total(values.push(value)) == total(values) + value,
        adds_up(values.push(value)) <==> adds_up(values) && fits(total(values) + value),
{
    let more = values.push(value);
    assert(more.drop_last() =~= values);
    assert forall|count: int| 0 <= count <= values.len() implies values.take(count) == more.take(
        count,
    ) by {
        assert(values.take(count) =~= more.take(count));
    }
    assert(more.take(more.len() as int) =~= more);
    if adds_up(more) {
        assert(fits(total(more.take(more.len() as int))));
        assert forall|count: int| 0 <= count <= values.len() implies fits(
            total(#[trigger] values.take(count)),
        ) by {
            assert(fits(total(more.take(count))));
        }
    }
    if adds_up(values) && fits(total(values) + value) {
        assert forall|count: int| 0 <= count <= more.len() implies fits(
            total(#[trigger] more.take(count)),
        ) by {
            if count <= values.len() {
                assert(fits(total(values.take(count))));
            }
        }
    }
}

/// The sum of a column that can be added up fits.
pub proof fn lemma_whole_fits(values: Seq<i64>)
    requires
        adds_up(values),
    ensures
        fits(total(values)),
{
    assert(values.take(values.len() as int) =~= values);
}

/// The sum of a category lies within what its rows can add up to.
proof fn lemma_total_bounds(values: Seq<i64>)
    ensures
        -0x8000_0000_0000_0000 * values.len() <= total(values) <= 0x8000_0000_0000_0000
            * values.len(),
    decreases values.len(),
{
    if values.len() > 0 {
        lemma_total_bounds(values.drop_last());
    }
}

proof fn lemma_group_bounds(rows: Seq<EntryRow>, name: Seq<char>)
    ensures
        in_category(rows, name).len() <= rows.len(),
        results_in(rows, name, "deleted"@) <= rows.len(),
        results_in(rows, name, "error"@) <= rows.len(),
        -0x8000_0000_0000_0000 * rows.len() <= reclaimed_in(rows, name) <= 0x8000_0000_0000_0000
            * rows.len(),
{
    let part = in_category(rows, name);
    rows.lemma_filter_len(category_is(name));
    part.lemma_filter_len(result_is("deleted"@));
    part.lemma_filter_len(result_is("error"@));
    lemma_total_bounds(reclaimed_column(part));
}

proof fn lemma_pushed(rows: Seq<EntryRow>, row: EntryRow, name: Seq<char>)
    ensures
        row.category@ != name ==> {
            &&& in_category(rows.push(row), name) == in_category(rows, name)
        },
        row.category@ == name ==> {
            &&& in_category(rows.push(row), name) == in_category(rows, name).push(row)
            &&& reclaimed_in(rows.push(row), name) == reclaimed_in(rows, name)
                + row.bytes_reclaimed
            &&& adds_up(reclaimed_column(in_category(rows.push(row), name))) <==> adds_up(
                reclaimed_column(in_category(rows, name)),
            ) && fits(reclaimed_in(rows, name) + row.bytes_reclaimed)
            &&& forall|result: Seq<char>| #[trigger]
                results_in(rows.push(row), name, result) == results_in(rows, name, result) + if row.result@ == result {
                    1int
                } else {
                    0int
                }
        },
        has_category(rows.push(row), name) <==> has_category(rows, name) || row.category@ == name,
{
    let part = in_category(rows, name);
    rows.lemma_filter_push(row, category_is(name));
    if row.category@ == name {
        assert(reclaimed_column(part.push(row)) =~= reclaimed_column(part).push(
            row.bytes_reclaimed,
        ));
        lemma_adds_up_on(reclaimed_column(part), row.bytes_reclaimed);
        assert forall|result: Seq<char>| #[trigger]
            results_in(rows.push(row), name, result) == results_in(rows, name, result)
                + if row.result@ == result {
                1int
            } else {
                0int
            } by {
            part.lemma_filter_push(row, result_is(result));
        }
        assert(rows.push(row)[rows.len() as int] == row);
    }
    if has_category(rows, name) {
        let i = choose|i: int| 0 <= i < rows.len() && (#[trigger] rows[i]).category@ == name;
        assert(rows.push(row)[i].category@ == name);
    }
    if has_category(rows.push(row), name) {
        let i = choose|i: int|
            0 <= i < rows.push(row).len() && (#[trigger] rows.push(row)[i]).category@ == name;
        if i < rows.len() {
            assert(rows[i].category@ == name);
        }
    }
}

/// A category without rows amounts to nothing.
proof fn lemma_absent(rows: Seq<EntryRow>, name: Seq<char>)
    requires
        !has_category(rows, name),
    ensures
        in_category(rows, name) == Seq::<EntryRow>::empty(),
    decreases rows.len(),
{
    reveal(Seq::filter);
    if rows.len() > 0 {
        let rest = rows.drop_last();
        if has_category(rest, name) {
            let i = choose|i: int| 0 <= i < rest.len() && (#[trigger] rest[i]).category@ == name;
            assert(rows[i].category@ == name);
        }
        lemma_absent(rest, name);
        assert(rows[rows.len() - 1].category@ != name);
    }
}

proof fn lemma_added(
    before: Tally,
    after: Tally,
    rows: Seq<EntryRow>,
    row: EntryRow,
    at: int,
)
    requires
        before.counts(rows),
        after.seen == before.seen + 1,
        0 <= at <= before.groups.len(),
        forall|i: int| 0 <= i < at ==> precedes((#[trigger] before.groups[i]).name@, row.category@),
        at < before.groups.len() ==> !precedes(before.groups[at].name@, row.category@),
        ({
            let deleted = if row.result@ == "deleted"@ {
                1int
            } else {
                0int
            };
            let failed = if row.result@ == "error"@ {
                1int
            } else {
                0int
            };
            if at < before.groups.len() && before.groups[at].name@ == row.category@ {
                &&& after.groups@ == before.groups@.update(at, after.groups[at])
                &&& after.groups[at].name == before.groups[at].name
                &&& after.groups[at].reclaimed == before.groups[at].reclaimed + row.bytes_reclaimed
                &&& after.groups[at].fit == (before.groups[at].fit && fits(
                    before.groups[at].reclaimed + row.bytes_reclaimed,
                ))
                &&& after.groups[at].objects == before.groups[at].objects + 1
                &&& after.groups[at].deleted == before.groups[at].deleted + deleted
                &&& after.groups[at].failed == before.groups[at].failed + failed
            } else {
                &&& after.groups@ == before.groups@.insert(at, after.groups[at])
                &&& after.groups[at].name == row.category
                &&& after.groups[at].reclaimed == row.bytes_reclaimed
                &&& after.groups[at].fit
                &&& after.groups[at].objects == 1
                &&& after.groups[at].deleted == deleted
                &&& after.groups[at].failed == failed
            }
        }),
    ensures
        after.counts(rows.push(row)),
{
    let more = rows.push(row);
    let known = at < before.groups.len() && before.groups[at].name@ == row.category@;
    assert forall|i: int|
        #![trigger after.groups[i]]
        0 <= i < after.groups.len() && i != at implies {
        let source = if known || i < at {
            i
        } else {
            i - 1
        };
        after.groups[i] == before.groups[source] && before.groups[source].name@ != row.category@
    } by {
        let source = if known || i < at {
            i
        } else {
            i - 1
        };
        precedes_is_irreflexive(row.category@);
        if i > at {
            lemma_after(before, rows, row.category@, at, source);
        }
    }
    if !known {
        if has_category(rows, row.category@) {
            assert(before.has(row.category@));
            let i = choose|i: int|
                0 <= i < before.groups.len() && (#[trigger] before.groups[i]).name@
                    == row.category@;
            precedes_is_irreflexive(row.category@);
            if i > at {
                lemma_after(before, rows, row.category@, at, i);
            }
        }
        lemma_absent(rows, row.category@);
        lemma_nothing(row.category@, rows);
    }
    assert forall|i: int| 0 <= i < after.groups.len() implies (#[trigger] after.groups[i]).counts(
        more,
    ) && has_category(more, after.groups[i].name@) by {
        lemma_pushed(rows, row, after.groups[i].name@);
        let source = if known || i < at {
            i
        } else {
            i - 1
        };
        if i != at {
            assert(after.groups[i] == before.groups[source]);
            assert(before.groups[source].counts(rows));
            assert(has_category(rows, before.groups[source].name@));
        } else if known {
            assert(before.groups[at].counts(rows));
        }
    }
    assert forall|i: int, j: int|
        #![trigger after.groups[i], after.groups[j]]
        0 <= i < j < after.groups.len() implies precedes(
        after.groups[i].name@,
        after.groups[j].name@,
    ) by {
        let a = if known || i < at {
            i
        } else {
            i - 1
        };
        let b = if known || j < at {
            j
        } else {
            j - 1
        };
        if i != at {
            assert(after.groups[i] == before.groups[a]);
        }
        if j != at {
            assert(after.groups[j] == before.groups[b]);
        }
        if !known && i == at {
            lemma_after(before, rows, row.category@, at, b);
        }
    }
    assert forall|name: Seq<char>| #[trigger] has_category(more, name) implies after.has(name) by {
        lemma_pushed(rows, row, name);
        if name == row.category@ {
            assert(after.groups[at].name@ == name);
        } else {
            assert(before.has(name));
            let i = choose|i: int|
                0 <= i < before.groups.len() && (#[trigger] before.groups[i]).name@ == name;
            let target = if known || i < at {
                i
            } else {
                i + 1
            };
            assert(after.groups[target] == before.groups[i]);
            assert(after.groups[target].name@ == name);
        }
    }
}

proof fn lemma_nothing(name: Seq<char>, rows: Seq<EntryRow>)
    requires
        in_category(rows, name) == Seq::<EntryRow>::empty(),
    ensures
        reclaimed_in(rows, name) == 0,
        adds_up(reclaimed_column(in_category(rows, name))),
        results_in(rows, name, "deleted"@) == 0,
        results_in(rows, name, "error"@) == 0,
{
    let none = Seq::<EntryRow>::empty();
    none.lemma_filter_len(result_is("deleted"@));
    none.lemma_filter_len(result_is("error"@));
}

/// Every group from the insertion point on follows the name, unless it has it.
proof fn lemma_after(tally: Tally, rows: Seq<EntryRow>, name: Seq<char>, at: int, i: int)
    requires
        tally.counts(rows),
        0 <= at <= i < tally.groups.len(),
        !precedes(tally.groups[at].name@, name),
    ensures
        i > at ==> precedes(name, tally.groups[i].name@),
        tally.groups[at].name@ != name ==> precedes(name, tally.groups[i].name@),
        i > at ==> tally.groups[i].name@ != name,
{
    precedes_is_total(name, tally.groups[at].name@);
    if i > at {
        assert(precedes(tally.groups[at].name@, tally.groups[i].name@));
        if tally.groups[at].name@ != name {
            precedes_is_transitive(name, tally.groups[at].name@, tally.groups[i].name@);
        }
        precedes_is_irreflexive(name);
    }
}

proof fn lemma_ranked(
    tally: Tally,
    rows: Seq<EntryRow>,
    keys: Seq<i64>,
    limit: int,
    names_fall: bool,
    order: Seq<usize>,
)
    requires
        tally.counts(rows),
        keys.len() == tally.groups.len() <= usize::MAX,
        forall|i: int| 0 <= i < keys.len() ==> keys[i] == (#[trigger] tally.groups[i]).reclaimed,
        is_top(keys, limit, names_fall, order),
        limit >= 0,
    ensures
        lists_categories(rows, limit, names_fall, tally.names_at(order)),
        limit >= keys.len() ==> lists_all_categories(rows, names_fall, tally.names_at(order)),
{
    let names = tally.names_at(order);
    assert forall|i: int| 0 <= i < names.len() implies has_category(rows, #[trigger] names[i]) by {
        assert(order[i] < keys.len());
        assert(has_category(rows, tally.groups[order[i] as int].name@));
    }
    assert forall|a: int, b: int|
        0 <= a < keys.len() && 0 <= b < keys.len() && #[trigger] ranks_before(
            keys,
            names_fall,
            a,
            b,
        ) implies category_before(
        rows,
        names_fall,
        tally.groups[a].name@,
        tally.groups[b].name@,
    ) by {
        assert(tally.groups[a].counts(rows));
        assert(tally.groups[b].counts(rows));
    }
    assert forall|i: int, j: int|
        #![trigger names[i], names[j]]
        0 <= i < j < names.len() implies category_before(rows, names_fall, names[i], names[j]) by {
        assert(order[i] < keys.len() && order[j] < keys.len());
        assert(ranks_before(keys, names_fall, order[i] as int, order[j] as int));
    }
    assert forall|name: Seq<char>| #[trigger] has_category(rows, name) implies {
        &&& {
            ||| names.contains(name)
            ||| names.len() == limit && forall|i: int|
                0 <= i < names.len() ==> category_before(rows, names_fall, #[trigger] names[i], name)
        }
        &&& limit >= keys.len() ==> names.contains(name)
    } by {
        assert(tally.has(name));
        let g = choose|g: int|
            0 <= g < tally.groups.len() && (#[trigger] tally.groups[g]).name@ == name;
        if order.contains(g as usize) {
            let i = choose|i: int| 0 <= i < order.len() && order[i] == g as usize;
            assert(names[i] == name);
        } else {
            if order.len() == keys.len() {
                crate::history::ranking::full_order_lists_all(
                    keys,
                    limit,
                    names_fall,
                    order,
                    g as usize,
                );
            }
            assert forall|i: int| 0 <= i < names.len() implies category_before(
                rows,
                names_fall,
                #[trigger] names[i],
                name,
            ) by {
                assert(order[i] < keys.len());
                assert(ranks_before(keys, names_fall, order[i] as int, g));
            }
        }
    }
}

} // verus!
