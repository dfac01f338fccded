//! The largest of a sequence of keys, in a fixed order.

use vstd::prelude::*;

verus! {

/// Whether position `left` comes before position `right` in a descending order
/// of the keys. Between equal keys the later position comes first where
/// `later_first` holds, and the earlier one otherwise.
pub open spec fn ranks_before(keys: Seq<i64>, later_first: bool, left: int, right: int) -> bool {
    ||| keys[left] > keys[right]
    ||| keys[left] == keys[right] && if later_first {
        left > right
    } else {
        left < right
    }
}

/// Whether `order` lists the first `limit` positions of the descending order.
pub open spec fn is_top(
    keys: Seq<i64>,
    limit: int,
    later_first: bool,
    order: Seq<usize>,
) -> bool {
    &&& order.len() == if limit <= keys.len() {
        limit
    } else {
        keys.len() as int
    }
    &&& forall|i: int| 0 <= i < order.len() ==> 0 <= #[trigger] order[i] < keys.len()
    &&& forall|i: int, j: int|
        #![trigger order[i], order[j]]
        0 <= i < j < order.len() ==> ranks_before(
            keys,
            later_first,
            order[i] as int,
            order[j] as int,
        )
    &&& forall|i: int, other: usize|
        #![trigger order[i], order.contains(other)]
        0 <= i < order.len() && other < keys.len() && !order.contains(other) ==> ranks_before(
            keys,
            later_first,
            order[i] as int,
            other as int,
        )
}

/// The first `limit` positions of the descending order.
pub open spec fn top(keys: Seq<i64>, limit: int, later_first: bool) -> Seq<usize> {
    choose|order: Seq<usize>| is_top(keys, limit, later_first, order)
}

/// No other list of positions meets `is_top`, so that it is `top`.
pub proof fn top_is(keys: Seq<i64>, limit: int, later_first: bool, order: Seq<usize>)
    requires
        is_top(keys, limit, later_first, order),
    ensures
        top(keys, limit, later_first) == order,
{
    let found = top(keys, limit, later_first);
    assert(is_top(keys, limit, later_first, found));
    assert forall|at: int| 0 <= at < order.len() implies found[at] == order[at] by {
        lemma_same_position(keys, limit, later_first, found, order, at);
    }
    assert(found =~= order);
}

/// There is a list of positions that meets `is_top`, so that `top` meets it.
pub proof fn top_is_found(keys: Seq<i64>, limit: int, later_first: bool)
    requires
        keys.len() <= usize::MAX,
        limit >= 0,
    ensures
        is_top(keys, limit, later_first, top(keys, limit, later_first)),
{
    let order = lemma_listed(keys, limit, later_first, keys.len() as int);
    assert(keys.take(keys.len() as int) =~= keys);
    assert(is_top(keys, limit, later_first, order));
}

proof fn lemma_listed(keys: Seq<i64>, limit: int, later_first: bool, seen: int) -> (order: Seq<
    usize,
>)
    requires
        keys.len() <= usize::MAX,
        0 <= seen <= keys.len(),
        limit >= 0,
    ensures
        is_top(keys.take(seen), limit, later_first, order),
    decreases seen,
{
    if seen == 0 {
        Seq::empty()
    } else {
        let before = lemma_listed(keys, limit, later_first, seen - 1);
        let at = lemma_place(keys, later_first, before, seen - 1, before.len() as int);
        if at < limit {
            lemma_inserted(keys, limit, later_first, before, seen - 1, at);
            let longer = before.insert(at, (seen - 1) as usize);
            if longer.len() > limit {
                longer.take(limit)
            } else {
                longer
            }
        } else {
            lemma_passed_over(keys, limit, later_first, before, seen - 1);
            before
        }
    }
}

proof fn lemma_place(
    keys: Seq<i64>,
    later_first: bool,
    before: Seq<usize>,
    seen: int,
    from: int,
) -> (at: int)
    requires
        0 <= from <= before.len(),
        forall|i: int|
            from <= i < before.len() ==> ranks_before(
                keys,
                later_first,
                seen,
                #[trigger] before[i] as int,
            ),
    ensures
        0 <= at <= from,
        at > 0 ==> !ranks_before(keys, later_first, seen, before[at - 1] as int),
        forall|i: int|
            at <= i < before.len() ==> ranks_before(
                keys,
                later_first,
                seen,
                #[trigger] before[i] as int,
            ),
    decreases from,
{
    if from > 0 && ranks_before(keys, later_first, seen, before[from - 1] as int) {
        lemma_place(keys, later_first, before, seen, from - 1)
    } else {
        from
    }
}

proof fn lemma_same_position(
    keys: Seq<i64>,
    limit: int,
    later_first: bool,
    one: Seq<usize>,
    two: Seq<usize>,
    at: int,
)
    requires
        is_top(keys, limit, later_first, one),
        is_top(keys, limit, later_first, two),
        0 <= at < one.len(),
    ensures
        one[at] == two[at],
    decreases at,
{
    assert forall|before: int| 0 <= before < at implies one[before] == two[before] by {
        lemma_same_position(keys, limit, later_first, one, two, before);
    }
    let a = one[at];
    let b = two[at];
    if ranks_before(keys, later_first, a as int, b as int) {
        if two.contains(a) {
            let j = choose|j: int| 0 <= j < two.len() && two[j] == a;
            assert(j != at);
            if j < at {
                assert(one[j] == a);
            }
        }
    } else if a != b {
        if one.contains(b) {
            let j = choose|j: int| 0 <= j < one.len() && one[j] == b;
            if j < at {
                assert(two[j] == b);
            }
        }
    }
}

fn comes_first(keys: &Vec<i64>, later_first: bool, left: usize, right: usize) -> (first: bool)
    requires
        left < keys.len(),
        right < keys.len(),
    ensures
        first == ranks_before(keys@, later_first, left as int, right as int),
{
    keys[left] > keys[right] || (keys[left] == keys[right] && if later_first {
        left > right
    } else {
        left < right
    })
}

/// Lists the first `limit` positions of the descending order of `keys`.
pub fn top_positions(keys: &Vec<i64>, limit: usize, later_first: bool) -> (order: Vec<usize>)
    ensures
        is_top(keys@, limit as int, later_first, order@),
        order@ == top(keys@, limit as int, later_first),
{
    let mut order: Vec<usize> = Vec::new();
    let mut seen: usize = 0;
    while seen < keys.len()
        invariant
            seen <= keys.len(),
            is_top(keys@.take(seen as int), limit as int, later_first, order@),
        decreases keys.len() - seen,
    {
        let ghost before = order@;
        let ghost part = keys@.take(seen as int);
        let ghost more = keys@.take(seen + 1);
        let mut at: usize = order.len();
        while at > 0 && comes_first(keys, later_first, seen, order[at - 1])
            invariant
                seen < keys.len(),
                order@ == before,
                part == keys@.take(seen as int),
                is_top(part, limit as int, later_first, before),
                at <= order.len(),
                forall|i: int|
                    at <= i < before.len() ==> ranks_before(
                        keys@,
                        later_first,
                        seen as int,
                        #[trigger] before[i] as int,
                    ),
            decreases at,
        {
            at = at - 1;
        }
        if at < limit {
            order.insert(at, seen);
            let ghost longer = order@;
            proof {
                lemma_inserted(keys@, limit as int, later_first, before, seen as int, at as int);
            }
            if order.len() > limit {
                order.truncate(limit);
            }
        } else {
            proof {
                lemma_passed_over(keys@, limit as int, later_first, before, seen as int);
            }
        }
        seen = seen + 1;
    }
    assert(keys@.take(keys@.len() as int) =~= keys@);
    proof {
        top_is(keys@, limit as int, later_first, order@);
    }
    order
}

proof fn lemma_inserted(
    keys: Seq<i64>,
    limit: int,
    later_first: bool,
    before: Seq<usize>,
    seen: int,
    at: int,
)
    requires
        0 <= seen < keys.len() <= usize::MAX,
        is_top(keys.take(seen), limit, later_first, before),
        0 <= at <= before.len(),
        at < limit,
        at > 0 ==> !ranks_before(keys, later_first, seen, before[at - 1] as int),
        forall|i: int|
            at <= i < before.len() ==> ranks_before(
                keys,
                later_first,
                seen,
                #[trigger] before[i] as int,
            ),
    ensures
        ({
            let longer = before.insert(at, seen as usize);
            let kept = if longer.len() > limit {
                longer.take(limit)
            } else {
                longer
            };
            is_top(keys.take(seen + 1), limit, later_first, kept)
        }),
{
    let part = keys.take(seen);
    let more = keys.take(seen + 1);
    let longer = before.insert(at, seen as usize);
    let kept = if longer.len() > limit {
        longer.take(limit)
    } else {
        longer
    };
    assert forall|i: int| 0 <= i < at implies ranks_before(
        more,
        later_first,
        #[trigger] before[i] as int,
        seen,
    ) by {
        assert(before[at - 1] < part.len());
        if i < at - 1 {
            assert(ranks_before(part, later_first, before[i] as int, before[at - 1] as int));
        }
    }
    assert forall|i: int, j: int|
        #![trigger kept[i], kept[j]]
        0 <= i < j < kept.len() implies ranks_before(
        more,
        later_first,
        kept[i] as int,
        kept[j] as int,
    ) by {
        let a = if i < at {
            i
        } else {
            i - 1
        };
        let b = if j < at {
            j
        } else {
            j - 1
        };
        if i != at && j != at {
            assert(ranks_before(part, later_first, before[a] as int, before[b] as int));
        } else if i == at {
            assert(ranks_before(keys, later_first, seen, before[b] as int));
        }
    }
    assert forall|i: int, other: usize|
        #![trigger kept[i], kept.contains(other)]
        0 <= i < kept.len() && other < more.len() && !kept.contains(other) implies ranks_before(
        more,
        later_first,
        kept[i] as int,
        other as int,
    ) by {
        assert(kept[at] == seen);
        assert(other != seen);
        let a = if i < at {
            i
        } else {
            i - 1
        };
        if before.contains(other) {
            let k = choose|k: int| 0 <= k < before.len() && before[k] == other;
            if k < at {
                assert(kept[k] == other);
            } else if k + 1 < kept.len() {
                assert(kept[k + 1] == other);
            } else {
                assert(k + 1 == longer.len() - 1);
                if i == at {
                    assert(ranks_before(keys, later_first, seen, before[k] as int));
                } else {
                    assert(ranks_before(part, later_first, before[a] as int, before[k] as int));
                }
            }
        } else {
            if i == at {
                if at < before.len() {
                    assert(ranks_before(keys, later_first, seen, before[at] as int));
                    assert(ranks_before(part, later_first, before[at] as int, other as int));
                } else {
                    assert(before.len() == part.len());
                    full_order_lists_all(part, limit, later_first, before, other);
                }
            } else {
                assert(ranks_before(part, later_first, before[a] as int, other as int));
            }
        }
    }
}

/// A list of as many positions as there are keys holds every position.
pub proof fn full_order_lists_all(
    keys: Seq<i64>,
    limit: int,
    later_first: bool,
    order: Seq<usize>,
    position: usize,
)
    requires
        is_top(keys, limit, later_first, order),
        order.len() == keys.len(),
        position < keys.len(),
    ensures
        order.contains(position),
{
    order_holds_none_twice(keys, limit, later_first, order);
    distinct_positions_are_all(order, position);
}

/// An order lists no position twice.
pub proof fn order_holds_none_twice(
    keys: Seq<i64>,
    limit: int,
    later_first: bool,
    order: Seq<usize>,
)
    requires
        is_top(keys, limit, later_first, order),
    ensures
        order.no_duplicates(),
{
    assert forall|i: int, j: int| 0 <= i < j < order.len() implies order[i] != order[j] by {
        assert(ranks_before(keys, later_first, order[i] as int, order[j] as int));
    }
}

/// As many distinct positions as there are places take every place.
pub proof fn distinct_positions_are_all(order: Seq<usize>, position: usize)
    requires
        order.no_duplicates(),
        forall|i: int| 0 <= i < order.len() ==> #[trigger] order[i] < order.len(),
        position < order.len(),
    ensures
        order.contains(position),
{
    let listed = order.map_values(|p: usize| p as int);
    assert(listed.no_duplicates());
    listed.unique_seq_to_set();
    let all = vstd::set_lib::set_int_range(0, order.len() as int);
    vstd::set_lib::lemma_int_range(0, order.len() as int);
    assert(listed.to_set().subset_of(all)) by {
        assert forall|x: int| listed.to_set().contains(x) implies all.contains(x) by {
            let i = choose|i: int| 0 <= i < listed.len() && listed[i] == x;
            assert(order[i] < order.len());
        }
    }
    vstd::set_lib::lemma_subset_equality(listed.to_set(), all);
    assert(all.contains(position as int));
    let i = choose|i: int| 0 <= i < listed.len() && listed[i] == position as int;
    assert(order[i] == position);
}

proof fn lemma_passed_over(
    keys: Seq<i64>,
    limit: int,
    later_first: bool,
    before: Seq<usize>,
    seen: int,
)
    requires
        0 <= seen < keys.len() <= usize::MAX,
        is_top(keys.take(seen), limit, later_first, before),
        before.len() >= limit >= 0,
        before.len() > 0 ==> !ranks_before(
            keys,
            later_first,
            seen,
            before[before.len() - 1] as int,
        ),
    ensures
        is_top(keys.take(seen + 1), limit, later_first, before),
{
    let part = keys.take(seen);
    let more = keys.take(seen + 1);
    assert forall|i: int, other: usize|
        #![trigger before[i], before.contains(other)]
        0 <= i < before.len() && other < more.len() && !before.contains(other) implies ranks_before(
        more,
        later_first,
        before[i] as int,
        other as int,
    ) by {
        let last = before.len() - 1;
        if other == seen {
            assert(before[last] < part.len());
            if i < last {
                assert(ranks_before(part, later_first, before[i] as int, before[last] as int));
            }
        } else {
            assert(ranks_before(part, later_first, before[i] as int, other as int));
        }
    }
    assert forall|i: int, j: int|
        #![trigger before[i], before[j]]
        0 <= i < j < before.len() implies ranks_before(
        more,
        later_first,
        before[i] as int,
        before[j] as int,
    ) by {
        assert(ranks_before(part, later_first, before[i] as int, before[j] as int));
    }
}

} // verus!
