//! The latest result as a JSON document.

use super::query::{are_totals, of_run};
use super::rows::{CategoryTotal, CleanupRun};
use super::store::{HistoryDb, HistoryError};
use super::tally::sums_fit;
use crate::json::{
    array_text, array_value, count_value, field_texts, json_text, object_text, object_value,
    optional_value, quoted, text_value, value_text, value_texts, whole_value,
};
use crate::text::{decimal, precedes, precedes_at, signed_decimal};
use crate::unambiguous::{
    arrays_are_told_apart, decimals_are_digits, decimals_are_told_apart, decimals_are_unambiguous,
    objects_are_told_apart, signed_decimals_are_told_apart, strings_are_told_apart, told_apart,
};
use vstd::prelude::*;

verus! {

/// How many categories the document names.
pub const NAMED_CATEGORIES: usize = 5;

/// The fields of a category in the document.
pub open spec fn category_fields(total: CategoryTotal) -> Seq<(Seq<char>, Seq<char>)> {
    seq![
        ("bytes"@, decimal(total.reclaimed_bytes as nat)),
        ("category"@, quoted(total.category@)),
        ("errors"@, decimal(total.errors as nat)),
        ("files"@, decimal(total.files as nat)),
    ]
}

/// A category in the document.
pub open spec fn category_text(total: CategoryTotal) -> Seq<char> {
    object_text(category_fields(total))
}

/// The first categories, as many as the document names.
pub open spec fn named(totals: Seq<CategoryTotal>) -> Seq<CategoryTotal> {
    if totals.len() <= NAMED_CATEGORIES {
        totals
    } else {
        totals.take(NAMED_CATEGORIES as int)
    }
}

/// The time of the end of a run, or null.
pub open spec fn end_text(finished_at: Option<i64>) -> Seq<char> {
    match finished_at {
        Some(time) => signed_decimal(time as int),
        None => seq!['n', 'u', 'l', 'l'],
    }
}

/// The space that is free after a run, or before it where that is not known.
pub open spec fn free_then(run: CleanupRun) -> u64 {
    match run.free_after {
        Some(free) => free,
        None => run.free_before,
    }
}

/// The texts of some categories.
pub open spec fn category_texts(totals: Seq<CategoryTotal>) -> Seq<Seq<char>> {
    totals.map_values(|total: CategoryTotal| category_text(total))
}

/// The fields of the document for a run and its categories.
pub open spec fn result_fields(run: CleanupRun, totals: Seq<CategoryTotal>) -> Seq<
    (Seq<char>, Seq<char>),
> {
    seq![
        ("categories"@, array_text(category_texts(named(totals)))),
        ("dirs_deleted"@, decimal(run.dirs_deleted as nat)),
        ("discovered_bytes"@, decimal(run.discovered_bytes as nat)),
        ("disk_total"@, decimal(run.disk_total as nat)),
        ("duration_ms"@, decimal(run.duration_ms as nat)),
        ("errors"@, decimal(run.errors as nat)),
        ("files_deleted"@, decimal(run.files_deleted as nat)),
        ("finished_at"@, end_text(run.finished_at)),
        ("free_after"@, decimal(free_then(run) as nat)),
        ("free_before"@, decimal(run.free_before as nat)),
        ("id"@, signed_decimal(run.id as int)),
        ("reclaimed_bytes"@, decimal(run.reclaimed_bytes as nat)),
        ("skipped"@, decimal(run.skipped as nat)),
        ("started_at"@, signed_decimal(run.started_at as int)),
        ("status"@, quoted(run.status@)),
    ]
}

/// The document for a run and its categories.
pub open spec fn result_text(run: CleanupRun, totals: Seq<CategoryTotal>) -> Seq<char> {
    object_text(result_fields(run, totals))
}

/// The keys of a category stand in alphabetical order.
proof fn category_keys_ascend()
    ensures
        precedes("bytes"@, "category"@),
        precedes("category"@, "errors"@),
        precedes("errors"@, "files"@),
{
    reveal_strlit("bytes");
    reveal_strlit("category");
    reveal_strlit("errors");
    reveal_strlit("files");
    precedes_at("bytes"@, "category"@, 0);
    precedes_at("category"@, "errors"@, 0);
    precedes_at("errors"@, "files"@, 0);
}

/// The keys of the document stand in alphabetical order.
proof fn result_keys_ascend()
    ensures
        precedes("categories"@, "dirs_deleted"@),
        precedes("dirs_deleted"@, "discovered_bytes"@),
        precedes("discovered_bytes"@, "disk_total"@),
        precedes("disk_total"@, "duration_ms"@),
        precedes("duration_ms"@, "errors"@),
        precedes("errors"@, "files_deleted"@),
        precedes("files_deleted"@, "finished_at"@),
        precedes("finished_at"@, "free_after"@),
        precedes("free_after"@, "free_before"@),
        precedes("free_before"@, "id"@),
        precedes("id"@, "reclaimed_bytes"@),
        precedes("reclaimed_bytes"@, "skipped"@),
        precedes("skipped"@, "started_at"@),
        precedes("started_at"@, "status"@),
{
    reveal_strlit("categories");
    reveal_strlit("dirs_deleted");
    reveal_strlit("discovered_bytes");
    reveal_strlit("disk_total");
    reveal_strlit("duration_ms");
    reveal_strlit("errors");
    reveal_strlit("files_deleted");
    reveal_strlit("finished_at");
    reveal_strlit("free_after");
    reveal_strlit("free_before");
    reveal_strlit("id");
    reveal_strlit("reclaimed_bytes");
    reveal_strlit("skipped");
    reveal_strlit("started_at");
    reveal_strlit("status");
    precedes_at("categories"@, "dirs_deleted"@, 0);
    precedes_at("dirs_deleted"@, "discovered_bytes"@, 2);
    precedes_at("discovered_bytes"@, "disk_total"@, 3);
    precedes_at("disk_total"@, "duration_ms"@, 1);
    precedes_at("duration_ms"@, "errors"@, 0);
    precedes_at("errors"@, "files_deleted"@, 0);
    precedes_at("files_deleted"@, "finished_at"@, 2);
    precedes_at("finished_at"@, "free_after"@, 1);
    precedes_at("free_after"@, "free_before"@, 5);
    precedes_at("free_before"@, "id"@, 0);
    precedes_at("id"@, "reclaimed_bytes"@, 0);
    precedes_at("reclaimed_bytes"@, "skipped"@, 0);
    precedes_at("skipped"@, "started_at"@, 1);
    precedes_at("started_at"@, "status"@, 3);
}

/// Builds a category of the document.
fn category_value(total: &CategoryTotal) -> (value: serde_json::Value)
    ensures
        json_text(value) == category_text(*total),
{
    let mut fields: Vec<(String, serde_json::Value)> = Vec::new();
    fields.push(("bytes".to_owned(), count_value(total.reclaimed_bytes)));
    fields.push(("category".to_owned(), text_value(total.category.clone())));
    fields.push(("errors".to_owned(), count_value(total.errors)));
    fields.push(("files".to_owned(), count_value(total.files)));
    proof {
        category_keys_ascend();
        assert(field_texts(fields@) =~= category_fields(*total));
    }
    object_value(fields)
}

/// Writes the document for a run and its categories.
pub fn result_json(run: &CleanupRun, totals: &Vec<CategoryTotal>) -> (text: String)
    ensures
        text@ == result_text(*run, totals@),
{
    let mut categories: Vec<serde_json::Value> = Vec::new();
    let mut at: usize = 0;
    while at < totals.len() && at < NAMED_CATEGORIES
        invariant
            at <= totals.len(),
            at <= NAMED_CATEGORIES,
            value_texts(categories@) == category_texts(totals@.take(at as int)),
        decreases totals.len() - at,
    {
        let value = category_value(&totals[at]);
        assert(value_texts(categories@.push(value)) =~= value_texts(categories@).push(
            json_text(value),
        ));
        assert(category_texts(totals@.take(at + 1)) =~= category_texts(
            totals@.take(at as int),
        ).push(category_text(totals@[at as int])));
        categories.push(value);
        at = at + 1;
    }
    assert(totals@.take(at as int) =~= named(totals@));
    let free_after: u64 = match run.free_after {
        Some(free) => free,
        None => run.free_before,
    };
    let mut fields: Vec<(String, serde_json::Value)> = Vec::new();
    fields.push(("categories".to_owned(), array_value(categories)));
    fields.push(("dirs_deleted".to_owned(), count_value(run.dirs_deleted)));
    fields.push(("discovered_bytes".to_owned(), count_value(run.discovered_bytes)));
    fields.push(("disk_total".to_owned(), count_value(run.disk_total)));
    fields.push(("duration_ms".to_owned(), count_value(run.duration_ms)));
    fields.push(("errors".to_owned(), count_value(run.errors)));
    fields.push(("files_deleted".to_owned(), count_value(run.files_deleted)));
    fields.push(("finished_at".to_owned(), optional_value(run.finished_at)));
    fields.push(("free_after".to_owned(), count_value(free_after)));
    fields.push(("free_before".to_owned(), count_value(run.free_before)));
    fields.push(("id".to_owned(), whole_value(run.id)));
    fields.push(("reclaimed_bytes".to_owned(), count_value(run.reclaimed_bytes)));
    fields.push(("skipped".to_owned(), count_value(run.skipped)));
    fields.push(("started_at".to_owned(), whole_value(run.started_at)));
    fields.push(("status".to_owned(), text_value(run.status.clone())));
    proof {
        result_keys_ascend();
        assert(field_texts(fields@) =~= result_fields(*run, totals@));
    }
    let value = object_value(fields);
    value_text(&value)
}

/// Writes the document for the latest run, or an empty one where there was none.
pub fn latest_result_json(db: &HistoryDb) -> (text: Result<String, HistoryError>)
    ensures
        db@.runs.len() == 0 ==> (text matches Ok(text) && text@ == "{}"@),
        db@.runs.len() > 0 ==> ({
            let run = db@.runs.last().as_run();
            let rows = db@.entries.filter(of_run(run.id));
            match text {
                Ok(text) => sums_fit(rows) && exists|totals: Seq<CategoryTotal>| #[trigger]
                    are_totals(rows, totals) && text@ == result_text(run, totals),
                Err(error) => error == HistoryError::SumOverflow && !sums_fit(rows),
            }
        }),
{
    match db.latest_cleanup() {
        Some(run) => match db.category_totals(run.id) {
            Ok(totals) => Ok(result_json(&run, &totals)),
            Err(error) => Err(error),
        },
        None => Ok("{}".to_owned()),
    }
}

/// The texts of the end of a run are told apart.
proof fn ends_are_told_apart(left: Option<i64>, right: Option<i64>)
    ensures
        told_apart(end_text(left), end_text(right)),
        end_text(left) == end_text(right) ==> left == right,
{
    let a = end_text(left);
    let b = end_text(right);
    match (left, right) {
        (Some(time), Some(other)) => signed_decimals_are_told_apart(time as int, other as int),
        (None, None) => {
            assert forall|after: Seq<char>, other: Seq<char>| #[trigger] (a + after)
                == #[trigger] (b + other) implies after == other by {
                assert((a + after).skip(4) =~= after);
                assert((b + other).skip(4) =~= other);
            }
        },
        (Some(time), None) => number_is_not_null(time as int, a, b),
        (None, Some(time)) => number_is_not_null(time as int, b, a),
    }
}

proof fn number_is_not_null(time: int, number: Seq<char>, null: Seq<char>)
    requires
        number == signed_decimal(time),
        null == seq!['n', 'u', 'l', 'l'],
    ensures
        number.len() > 0,
        number[0] != null[0],
        told_apart(number, null),
        told_apart(null, number),
{
    decimals_are_digits(
        if time < 0 {
            (-time) as nat
        } else {
            time as nat
        },
    );
    assert forall|after: Seq<char>, other: Seq<char>| #[trigger] (number + after) != #[trigger] (
    null + other) by {
        assert((number + after)[0] == number[0]);
        assert((null + other)[0] == null[0]);
    }
}

/// Categories are told apart in the document.
proof fn categories_are_told_apart(left: CategoryTotal, right: CategoryTotal)
    ensures
        told_apart(category_text(left), category_text(right)),
        category_text(left) == category_text(right) ==> same_category(left, right),
{
    decimals_are_told_apart(left.reclaimed_bytes as nat, right.reclaimed_bytes as nat);
    strings_are_told_apart(left.category@, right.category@);
    decimals_are_told_apart(left.errors as nat, right.errors as nat);
    decimals_are_told_apart(left.files as nat, right.files as nat);
    objects_are_told_apart(category_fields(left), category_fields(right));
    if category_text(left) == category_text(right) {
        let a = category_fields(left);
        let b = category_fields(right);
        assert(a[0] == b[0] && a[1] == b[1] && a[2] == b[2] && a[3] == b[3]);
        decimals_are_unambiguous(left.reclaimed_bytes as nat, right.reclaimed_bytes as nat);
        decimals_are_unambiguous(left.errors as nat, right.errors as nat);
        decimals_are_unambiguous(left.files as nat, right.files as nat);
    }
}

/// Whether two categories amount to the same.
pub open spec fn same_category(left: CategoryTotal, right: CategoryTotal) -> bool {
    &&& left.category@ == right.category@
    &&& left.reclaimed_bytes == right.reclaimed_bytes
    &&& left.files == right.files
    &&& left.errors == right.errors
}

proof fn category_lists_are_told_apart(left: Seq<CategoryTotal>, right: Seq<CategoryTotal>)
    ensures
        told_apart(array_text(category_texts(left)), array_text(category_texts(right))),
        array_text(category_texts(left)) == array_text(category_texts(right)) ==> left.len()
            == right.len() && forall|i: int|
            0 <= i < left.len() ==> same_category(#[trigger] left[i], right[i]),
{
    let a = category_texts(left);
    let b = category_texts(right);
    assert forall|i: int|
        #![trigger a[i], b[i]]
        0 <= i < a.len() && i < b.len() implies told_apart(a[i], b[i]) by {
        categories_are_told_apart(left[i], right[i]);
    }
    arrays_are_told_apart(a, b);
    if array_text(a) == array_text(b) {
        assert(a.len() == b.len());
        assert forall|i: int| 0 <= i < left.len() implies same_category(
            #[trigger] left[i],
            right[i],
        ) by {
            assert(a[i] == b[i]);
            categories_are_told_apart(left[i], right[i]);
        }
    }
}

/// Whether two runs and their categories are the same as far as a document tells.
pub open spec fn same_result(
    run: CleanupRun,
    totals: Seq<CategoryTotal>,
    other: CleanupRun,
    others: Seq<CategoryTotal>,
) -> bool {
    &&& run.id == other.id
    &&& run.started_at == other.started_at
    &&& run.finished_at == other.finished_at
    &&& run.disk_total == other.disk_total
    &&& run.free_before == other.free_before
    &&& free_then(run) == free_then(other)
    &&& run.discovered_bytes == other.discovered_bytes
    &&& run.reclaimed_bytes == other.reclaimed_bytes
    &&& run.files_deleted == other.files_deleted
    &&& run.dirs_deleted == other.dirs_deleted
    &&& run.skipped == other.skipped
    &&& run.errors == other.errors
    &&& run.duration_ms == other.duration_ms
    &&& run.status@ == other.status@
    &&& named(totals).len() == named(others).len()
    &&& forall|i: int|
        0 <= i < named(totals).len() ==> same_category(#[trigger] named(totals)[i], named(others)[i])
}

/// The values of the fields of two documents are told apart.
proof fn result_values_are_told_apart(
    run: CleanupRun,
    totals: Seq<CategoryTotal>,
    other: CleanupRun,
    others: Seq<CategoryTotal>,
)
    ensures
        forall|i: int|
            #![trigger result_fields(run, totals)[i], result_fields(other, others)[i]]
            0 <= i < result_fields(run, totals).len() ==> result_fields(run, totals)[i].0
                == result_fields(other, others)[i].0 && told_apart(
                result_fields(run, totals)[i].1,
                result_fields(other, others)[i].1,
            ),
{
    category_lists_are_told_apart(named(totals), named(others));
    decimals_are_told_apart(run.dirs_deleted as nat, other.dirs_deleted as nat);
    decimals_are_told_apart(run.discovered_bytes as nat, other.discovered_bytes as nat);
    decimals_are_told_apart(run.disk_total as nat, other.disk_total as nat);
    decimals_are_told_apart(run.duration_ms as nat, other.duration_ms as nat);
    decimals_are_told_apart(run.errors as nat, other.errors as nat);
    decimals_are_told_apart(run.files_deleted as nat, other.files_deleted as nat);
    ends_are_told_apart(run.finished_at, other.finished_at);
    decimals_are_told_apart(free_then(run) as nat, free_then(other) as nat);
    decimals_are_told_apart(run.free_before as nat, other.free_before as nat);
    signed_decimals_are_told_apart(run.id as int, other.id as int);
    decimals_are_told_apart(run.reclaimed_bytes as nat, other.reclaimed_bytes as nat);
    decimals_are_told_apart(run.skipped as nat, other.skipped as nat);
    signed_decimals_are_told_apart(run.started_at as int, other.started_at as int);
    strings_are_told_apart(run.status@, other.status@);
}

/// A document can be read back: it tells the run and the categories that it names.
pub proof fn document_tells_the_result(
    run: CleanupRun,
    totals: Seq<CategoryTotal>,
    other: CleanupRun,
    others: Seq<CategoryTotal>,
)
    requires
        result_text(run, totals) == result_text(other, others),
    ensures
        same_result(run, totals, other, others),
{
    let a = result_fields(run, totals);
    let b = result_fields(other, others);
    result_values_are_told_apart(run, totals, other, others);
    objects_are_told_apart(a, b);
    assert(a == b);
    assert(a[0].1 == b[0].1);
    category_lists_are_told_apart(named(totals), named(others));
    assert(a[1].1 == b[1].1);
    decimals_are_unambiguous(run.dirs_deleted as nat, other.dirs_deleted as nat);
    assert(a[2].1 == b[2].1);
    decimals_are_unambiguous(run.discovered_bytes as nat, other.discovered_bytes as nat);
    assert(a[3].1 == b[3].1);
    decimals_are_unambiguous(run.disk_total as nat, other.disk_total as nat);
    assert(a[4].1 == b[4].1);
    decimals_are_unambiguous(run.duration_ms as nat, other.duration_ms as nat);
    assert(a[5].1 == b[5].1);
    decimals_are_unambiguous(run.errors as nat, other.errors as nat);
    assert(a[6].1 == b[6].1);
    decimals_are_unambiguous(run.files_deleted as nat, other.files_deleted as nat);
    assert(a[7].1 == b[7].1);
    ends_are_told_apart(run.finished_at, other.finished_at);
    assert(a[8].1 == b[8].1);
    decimals_are_unambiguous(free_then(run) as nat, free_then(other) as nat);
    assert(a[9].1 == b[9].1);
    decimals_are_unambiguous(run.free_before as nat, other.free_before as nat);
    assert(a[10].1 == b[10].1);
    signed_decimals_are_told_apart(run.id as int, other.id as int);
    assert(a[11].1 == b[11].1);
    decimals_are_unambiguous(run.reclaimed_bytes as nat, other.reclaimed_bytes as nat);
    assert(a[12].1 == b[12].1);
    decimals_are_unambiguous(run.skipped as nat, other.skipped as nat);
    assert(a[13].1 == b[13].1);
    signed_decimals_are_told_apart(run.started_at as int, other.started_at as int);
    assert(a[14].1 == b[14].1);
    strings_are_told_apart(run.status@, other.status@);
}

/// The document has each part of the run under the key that names it: the counters and times as
/// numbers, the end as null where there is none, the free space before the run where that after
/// it is not known, and the status as text.
pub proof fn document_names_its_values(run: CleanupRun, totals: Seq<CategoryTotal>)
    ensures
        ({
            let fields = result_fields(run, totals);
            &&& result_text(run, totals) == object_text(fields)
            &&& fields.len() == 15
            &&& fields.contains(("id"@, signed_decimal(run.id as int)))
            &&& fields.contains(("started_at"@, signed_decimal(run.started_at as int)))
            &&& run.finished_at matches Some(time) ==> fields.contains(
                ("finished_at"@, signed_decimal(time as int)),
            )
            &&& run.finished_at is None ==> fields.contains(
                ("finished_at"@, seq!['n', 'u', 'l', 'l']),
            )
            &&& fields.contains(("disk_total"@, decimal(run.disk_total as nat)))
            &&& fields.contains(("free_before"@, decimal(run.free_before as nat)))
            &&& run.free_after matches Some(free) ==> fields.contains(
                ("free_after"@, decimal(free as nat)),
            )
            &&& run.free_after is None ==> fields.contains(
                ("free_after"@, decimal(run.free_before as nat)),
            )
            &&& fields.contains(("discovered_bytes"@, decimal(run.discovered_bytes as nat)))
            &&& fields.contains(("reclaimed_bytes"@, decimal(run.reclaimed_bytes as nat)))
            &&& fields.contains(("files_deleted"@, decimal(run.files_deleted as nat)))
            &&& fields.contains(("dirs_deleted"@, decimal(run.dirs_deleted as nat)))
            &&& fields.contains(("skipped"@, decimal(run.skipped as nat)))
            &&& fields.contains(("errors"@, decimal(run.errors as nat)))
            &&& fields.contains(("duration_ms"@, decimal(run.duration_ms as nat)))
            &&& fields.contains(("status"@, quoted(run.status@)))
            &&& fields[0].0 == "categories"@
        }),
{
    let fields = result_fields(run, totals);
    assert(fields[1] == ("dirs_deleted"@, decimal(run.dirs_deleted as nat)));
    assert(fields[2] == ("discovered_bytes"@, decimal(run.discovered_bytes as nat)));
    assert(fields[3] == ("disk_total"@, decimal(run.disk_total as nat)));
    assert(fields[4] == ("duration_ms"@, decimal(run.duration_ms as nat)));
    assert(fields[5] == ("errors"@, decimal(run.errors as nat)));
    assert(fields[6] == ("files_deleted"@, decimal(run.files_deleted as nat)));
    assert(fields[7] == ("finished_at"@, end_text(run.finished_at)));
    assert(fields[8] == ("free_after"@, decimal(free_then(run) as nat)));
    assert(fields[9] == ("free_before"@, decimal(run.free_before as nat)));
    assert(fields[10] == ("id"@, signed_decimal(run.id as int)));
    assert(fields[11] == ("reclaimed_bytes"@, decimal(run.reclaimed_bytes as nat)));
    assert(fields[12] == ("skipped"@, decimal(run.skipped as nat)));
    assert(fields[13] == ("started_at"@, signed_decimal(run.started_at as int)));
    assert(fields[14] == ("status"@, quoted(run.status@)));
}

/// The document names the first five categories of a run, or all of them where there are
/// fewer, in their order, each with its name, what it reclaimed, how many of its objects were
/// deleted and on how many the run failed.
pub proof fn document_names_the_first_categories(
    run: CleanupRun,
    totals: Seq<CategoryTotal>,
    at: int,
) -> (listed: Seq<Seq<char>>)
    ensures
        result_fields(run, totals)[0] == ("categories"@, array_text(listed)),
        totals.len() <= 5 ==> listed.len() == totals.len(),
        totals.len() > 5 ==> listed.len() == 5,
        0 <= at < listed.len() ==> {
            let fields = category_fields(totals[at]);
            &&& listed[at] == object_text(fields)
            &&& fields.len() == 4
            &&& fields.contains(("category"@, quoted(totals[at].category@)))
            &&& fields.contains(("bytes"@, decimal(totals[at].reclaimed_bytes as nat)))
            &&& fields.contains(("files"@, decimal(totals[at].files as nat)))
            &&& fields.contains(("errors"@, decimal(totals[at].errors as nat)))
        },
{
    let listed = category_texts(named(totals));
    if 0 <= at < listed.len() {
        let fields = category_fields(totals[at]);
        assert(named(totals)[at] == totals[at]);
        assert(fields[0] == ("bytes"@, decimal(totals[at].reclaimed_bytes as nat)));
        assert(fields[1] == ("category"@, quoted(totals[at].category@)));
        assert(fields[2] == ("errors"@, decimal(totals[at].errors as nat)));
        assert(fields[3] == ("files"@, decimal(totals[at].files as nat)));
    }
    listed
}

} // verus!
