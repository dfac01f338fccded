//! What is written as JSON can be read back: no two values are written alike, nor does one
//! that is written run over into what follows it.

use crate::json::{array_text, escaped, escaped_text, object_text, quoted};
use crate::text::{decimal, digit, joined_by, signed_decimal};
use vstd::prelude::*;

verus! {

/// Whether `c` is a decimal digit.
pub open spec fn is_digit(c: char) -> bool {
    '0' <= c <= '9'
}

/// Whether `rest` starts with what can follow a value within a document.
pub open spec fn follows_value(rest: Seq<char>) -> bool {
    rest.len() > 0 && (rest[0] == ',' || rest[0] == ']' || rest[0] == '}')
}

/// Whether two values are told apart wherever they stand: what starts with both is the same
/// value, followed by the same.
pub open spec fn told_apart(left: Seq<char>, right: Seq<char>) -> bool {
    forall|after: Seq<char>, other: Seq<char>|
        follows_value(after) && follows_value(other) && #[trigger] (left + after) == #[trigger] (
        right + other) ==> left == right && after == other
}

/// What starts alike goes on alike.
proof fn same_start(start: Seq<char>, left: Seq<char>, right: Seq<char>)
    requires
        start + left == start + right,
    ensures
        left == right,
{
    assert((start + left).skip(start.len() as int) =~= left);
    assert((start + right).skip(start.len() as int) =~= right);
}

/// A decimal form is made of digits.
pub proof fn decimals_are_digits(value: nat)
    ensures
        decimal(value).len() > 0,
        forall|i: int| 0 <= i < decimal(value).len() ==> is_digit(#[trigger] decimal(value)[i]),
    decreases value,
{
    if value >= 10 {
        decimals_are_digits(value / 10);
    }
}

/// A row of digits ends where something else begins.
pub proof fn digits_end_where_others_begin(left: Seq<char>, right: Seq<char>, rest: Seq<char>, more: Seq<char>)
    requires
        forall|i: int| 0 <= i < left.len() ==> is_digit(#[trigger] left[i]),
        forall|i: int| 0 <= i < right.len() ==> is_digit(#[trigger] right[i]),
        rest.len() > 0 && !is_digit(rest[0]),
        more.len() > 0 && !is_digit(more[0]),
        left + rest == right + more,
    ensures
        left == right,
        rest == more,
{
    let whole = left + rest;
    if left.len() < right.len() {
        assert(whole[left.len() as int] == rest[0]);
        assert(whole[left.len() as int] == right[left.len() as int]);
    } else if right.len() < left.len() {
        assert(whole[right.len() as int] == more[0]);
        assert(whole[right.len() as int] == left[right.len() as int]);
    }
    assert(left =~= whole.take(left.len() as int));
    assert(right =~= whole.take(left.len() as int));
    assert(rest =~= whole.skip(left.len() as int));
    assert(more =~= whole.skip(left.len() as int));
}

proof fn digits_differ(left: nat, right: nat)
    requires
        left < 10,
        right < 10,
        digit(left) == digit(right),
    ensures
        left == right,
{
    assert(digit(left) as int == 0x30 + left);
    assert(digit(right) as int == 0x30 + right);
}

/// No two numbers have the same decimal form.
pub proof fn decimals_are_unambiguous(left: nat, right: nat)
    requires
        decimal(left) == decimal(right),
    ensures
        left == right,
    decreases left,
{
    decimals_are_digits(left / 10);
    decimals_are_digits(right / 10);
    if left < 10 || right < 10 {
        assert(decimal(left).len() == decimal(right).len());
        assert(left < 10 && right < 10);
        assert(decimal(left)[0] == digit(left));
        assert(decimal(right)[0] == digit(right));
        digits_differ(left, right);
    } else {
        assert(decimal(left).drop_last() =~= decimal(left / 10));
        assert(decimal(right).drop_last() =~= decimal(right / 10));
        decimals_are_unambiguous(left / 10, right / 10);
        assert(decimal(left).last() == digit(left % 10));
        assert(decimal(right).last() == digit(right % 10));
        digits_differ(left % 10, right % 10);
    }
}

/// Decimal numbers are told apart wherever they stand.
pub proof fn decimals_are_told_apart(left: nat, right: nat)
    ensures
        told_apart(decimal(left), decimal(right)),
{
    let a = decimal(left);
    let b = decimal(right);
    decimals_are_digits(left);
    decimals_are_digits(right);
    assert forall|after: Seq<char>, other: Seq<char>|
        follows_value(after) && follows_value(other) && #[trigger] (a + after) == #[trigger] (b
            + other) implies a == b && after == other by {
        if a.len() < b.len() {
            assert((a + after)[a.len() as int] == after[0]);
            assert((b + other)[a.len() as int] == b[a.len() as int]);
        } else if b.len() < a.len() {
            assert((b + other)[b.len() as int] == other[0]);
            assert((a + after)[b.len() as int] == a[b.len() as int]);
        }
        assert((a + after).take(a.len() as int) =~= a);
        assert((b + other).take(a.len() as int) =~= b);
        same_start(a, after, other);
    }
}

/// Signed numbers are told apart wherever they stand.
pub proof fn signed_decimals_are_told_apart(left: int, right: int)
    ensures
        told_apart(signed_decimal(left), signed_decimal(right)),
        signed_decimal(left) == signed_decimal(right) ==> left == right,
{
    let a = signed_decimal(left);
    let b = signed_decimal(right);
    let large = if left < 0 {
        (-left) as nat
    } else {
        left as nat
    };
    let other_large = if right < 0 {
        (-right) as nat
    } else {
        right as nat
    };
    decimals_are_digits(large);
    decimals_are_digits(other_large);
    decimals_are_told_apart(large, other_large);
    assert forall|after: Seq<char>, other: Seq<char>|
        follows_value(after) && follows_value(other) && #[trigger] (a + after) == #[trigger] (b
            + other) implies a == b && after == other by {
        assert((a + after)[0] == a[0]);
        assert((b + other)[0] == b[0]);
        if left < 0 {
            assert(a + after =~= seq!['-'] + (decimal(large) + after));
            assert(b + other =~= seq!['-'] + (decimal(other_large) + other));
            same_start(seq!['-'], decimal(large) + after, decimal(other_large) + other);
        }
    }
    if a == b {
        assert(a[0] == b[0]);
        if left < 0 {
            same_start(seq!['-'], decimal(large), decimal(other_large));
        }
        decimals_are_unambiguous(large, other_large);
    }
}

/// A character within a JSON string is told by how it is written.
proof fn escapes_are_told_apart(left: char, right: char, after: Seq<char>, other: Seq<char>)
    requires
        escaped(left) + after == escaped(right) + other,
    ensures
        left == right,
        after == other,
{
    let text = escaped(left) + after;
    assert(text[0] == escaped(left)[0]);
    assert(text[0] == escaped(right)[0]);
    if escaped(left).len() > 1 {
        assert(text[1] == escaped(left)[1]);
    }
    if escaped(right).len() > 1 {
        assert(text[1] == escaped(right)[1]);
    }
    if escaped(left).len() == 6 && escaped(right).len() == 6 {
        assert(text[4] == escaped(left)[4]);
        assert(text[4] == escaped(right)[4]);
        assert(text[5] == escaped(left)[5]);
        assert(text[5] == escaped(right)[5]);
    }
    assert(left == right);
    same_start(escaped(left), after, other);
}

/// The characters of a JSON string end where its quotation mark stands.
proof fn closed_texts_are_told_apart(
    left: Seq<char>,
    right: Seq<char>,
    after: Seq<char>,
    other: Seq<char>,
)
    requires
        escaped_text(left) + (seq!['"'] + after) == escaped_text(right) + (seq!['"'] + other),
    ensures
        left == right,
        after == other,
    decreases left.len(),
{
    let close = seq!['"'] + after;
    let other_close = seq!['"'] + other;
    let text = escaped_text(left) + close;
    if left.len() == 0 && right.len() == 0 {
        assert(text =~= close);
        assert(escaped_text(right) + other_close =~= other_close);
        same_start(seq!['"'], after, other);
        assert(left =~= right);
    } else if left.len() == 0 {
        assert(text[0] == '"');
        assert((escaped_text(right) + other_close)[0] == escaped(right[0])[0]);
        assert(escaped(right[0])[0] != '"');
        assert(left == right && after == other);
    } else if right.len() == 0 {
        assert((escaped_text(right) + other_close)[0] == '"');
        assert(text[0] == escaped(left[0])[0]);
        assert(escaped(left[0])[0] != '"');
        assert(left == right && after == other);
    } else {
        let rest = escaped_text(left.drop_first()) + close;
        let other_rest = escaped_text(right.drop_first()) + other_close;
        assert(text =~= escaped(left[0]) + rest);
        assert(escaped_text(right) + other_close =~= escaped(right[0]) + other_rest);
        escapes_are_told_apart(left[0], right[0], rest, other_rest);
        closed_texts_are_told_apart(left.drop_first(), right.drop_first(), after, other);
        assert(left =~= seq![left[0]] + left.drop_first());
        assert(right =~= seq![right[0]] + right.drop_first());
    }
}

/// JSON strings are told apart wherever they stand, and no two texts are written alike.
pub proof fn strings_are_told_apart(left: Seq<char>, right: Seq<char>)
    ensures
        told_apart(quoted(left), quoted(right)),
        quoted(left) == quoted(right) ==> left == right,
{
    let a = quoted(left);
    let b = quoted(right);
    assert forall|after: Seq<char>, other: Seq<char>| #[trigger] (a + after) == #[trigger] (b
        + other) implies left == right && after == other by {
        let rest = escaped_text(left) + (seq!['"'] + after);
        let other_rest = escaped_text(right) + (seq!['"'] + other);
        assert(a + after =~= seq!['"'] + rest);
        assert(b + other =~= seq!['"'] + other_rest);
        same_start(seq!['"'], rest, other_rest);
        closed_texts_are_told_apart(left, right, after, other);
    }
    if a == b {
        let nothing = Seq::<char>::empty();
        assert(a + nothing == b + nothing);
    }
}

/// A list with a separator starts with its first part.
proof fn joined_from_the_front(list: Seq<Seq<char>>, between: Seq<char>)
    requires
        list.len() > 1,
    ensures
        joined_by(list, between) == list[0] + between + joined_by(list.drop_first(), between),
    decreases list.len(),
{
    if list.len() == 2 {
        assert(list.drop_last().len() == 1);
        assert(list.drop_first().len() == 1);
        assert(list.drop_last()[0] == list[0]);
        assert(list.drop_first()[0] == list.last());
        assert(joined_by(list.drop_last(), between) == list[0]);
        assert(joined_by(list.drop_first(), between) == list.last());
        assert(joined_by(list, between) == joined_by(list.drop_last(), between) + between
            + list.last());
    } else {
        joined_from_the_front(list.drop_last(), between);
        assert(list.drop_last().drop_first() =~= list.drop_first().drop_last());
        assert(joined_by(list, between) =~= list[0] + between + joined_by(
            list.drop_first(),
            between,
        ));
    }
}

/// Whether the parts of two lists are told apart, as far as both lists go.
pub open spec fn parts_told_apart(left: Seq<Seq<char>>, right: Seq<Seq<char>>) -> bool {
    forall|i: int|
        #![trigger left[i], right[i]]
        0 <= i < left.len() && i < right.len() ==> told_apart(left[i], right[i])
}

/// Whether `rest` starts with what can close a list.
pub open spec fn closes_list(rest: Seq<char>) -> bool {
    rest.len() > 0 && (rest[0] == ']' || rest[0] == '}')
}

/// Lists that are not empty are told apart where they are closed.
proof fn lists_are_told_apart(
    left: Seq<Seq<char>>,
    right: Seq<Seq<char>>,
    after: Seq<char>,
    other: Seq<char>,
)
    requires
        left.len() > 0,
        right.len() > 0,
        parts_told_apart(left, right),
        closes_list(after),
        closes_list(other),
        joined_by(left, seq![',']) + after == joined_by(right, seq![',']) + other,
    ensures
        left == right,
        after == other,
    decreases left.len(),
{
    let comma = seq![','];
    let rest = if left.len() == 1 {
        after
    } else {
        comma + (joined_by(left.drop_first(), comma) + after)
    };
    let other_rest = if right.len() == 1 {
        other
    } else {
        comma + (joined_by(right.drop_first(), comma) + other)
    };
    if left.len() > 1 {
        joined_from_the_front(left, comma);
    }
    if right.len() > 1 {
        joined_from_the_front(right, comma);
    }
    assert(joined_by(left, comma) + after =~= left[0] + rest);
    assert(joined_by(right, comma) + other =~= right[0] + other_rest);
    assert(told_apart(left[0], right[0]));
    assert(left[0] + rest == right[0] + other_rest);
    assert(left[0] == right[0] && rest == other_rest);
    if left.len() == 1 || right.len() == 1 {
        assert(rest[0] == other_rest[0]);
        assert(left.len() == 1 && right.len() == 1);
        assert(left =~= right);
    } else {
        same_start(
            comma,
            joined_by(left.drop_first(), comma) + after,
            joined_by(right.drop_first(), comma) + other,
        );
        assert forall|i: int|
            #![trigger left.drop_first()[i], right.drop_first()[i]]
            0 <= i < left.drop_first().len() && i < right.drop_first().len() implies told_apart(
            left.drop_first()[i],
            right.drop_first()[i],
        ) by {
            assert(told_apart(left[i + 1], right[i + 1]));
        }
        lists_are_told_apart(left.drop_first(), right.drop_first(), after, other);
        assert(left =~= seq![left[0]] + left.drop_first());
        assert(right =~= seq![right[0]] + right.drop_first());
    }
}

/// JSON arrays whose items are told apart, and start with a brace, are told apart.
pub proof fn arrays_are_told_apart(left: Seq<Seq<char>>, right: Seq<Seq<char>>)
    requires
        parts_told_apart(left, right),
        forall|i: int|
            0 <= i < left.len() ==> (#[trigger] left[i]).len() > 0 && left[i][0] == '{',
        forall|i: int|
            0 <= i < right.len() ==> (#[trigger] right[i]).len() > 0 && right[i][0] == '{',
    ensures
        told_apart(array_text(left), array_text(right)),
        array_text(left) == array_text(right) ==> left == right,
{
    let a = array_text(left);
    let b = array_text(right);
    let comma = seq![','];
    assert forall|after: Seq<char>, other: Seq<char>| #[trigger] (a + after) == #[trigger] (b
        + other) implies left == right && after == other by {
        let close = seq![']'] + after;
        let other_close = seq![']'] + other;
        let rest = joined_by(left, comma) + close;
        let other_rest = joined_by(right, comma) + other_close;
        assert(a + after =~= seq!['['] + rest);
        assert(b + other =~= seq!['['] + other_rest);
        same_start(seq!['['], rest, other_rest);
        if left.len() > 0 && right.len() > 0 {
            lists_are_told_apart(left, right, close, other_close);
        } else {
            if left.len() > 0 {
                list_starts_with_part(left, comma);
                assert(rest[0] == '{');
                assert(other_rest[0] == ']');
            } else if right.len() > 0 {
                list_starts_with_part(right, comma);
                assert(other_rest[0] == '{');
                assert(rest[0] == ']');
            }
            assert(left =~= right);
            assert(rest =~= close);
            assert(other_rest =~= other_close);
        }
        same_start(seq![']'], after, other);
    }
    if a == b {
        let nothing = Seq::<char>::empty();
        assert(a + nothing == b + nothing);
    }
}

proof fn list_starts_with_part(list: Seq<Seq<char>>, between: Seq<char>)
    requires
        list.len() > 0,
        list[0].len() > 0,
    ensures
        joined_by(list, between).len() > 0,
        joined_by(list, between)[0] == list[0][0],
{
    if list.len() > 1 {
        joined_from_the_front(list, between);
    }
}

/// The fields of an object as they are written.
pub open spec fn written_fields(fields: Seq<(Seq<char>, Seq<char>)>) -> Seq<Seq<char>> {
    fields.map_values(|field: (Seq<char>, Seq<char>)| quoted(field.0) + seq![':'] + field.1)
}

/// JSON objects with the same keys are told apart where their values are.
pub proof fn objects_are_told_apart(
    left: Seq<(Seq<char>, Seq<char>)>,
    right: Seq<(Seq<char>, Seq<char>)>,
)
    requires
        left.len() == right.len(),
        left.len() > 0,
        forall|i: int|
            #![trigger left[i], right[i]]
            0 <= i < left.len() ==> left[i].0 == right[i].0 && told_apart(left[i].1, right[i].1),
    ensures
        told_apart(object_text(left), object_text(right)),
        object_text(left) == object_text(right) ==> left == right,
{
    let a = object_text(left);
    let b = object_text(right);
    let parts = written_fields(left);
    let other_parts = written_fields(right);
    let comma = seq![','];
    assert forall|i: int|
        #![trigger parts[i], other_parts[i]]
        0 <= i < parts.len() && i < other_parts.len() implies told_apart(
        parts[i],
        other_parts[i],
    ) by {
        let start = quoted(left[i].0) + seq![':'];
        let value = left[i].1;
        let other_value = right[i].1;
        assert(left[i].0 == right[i].0 && told_apart(value, other_value));
        assert forall|after: Seq<char>, other: Seq<char>|
            follows_value(after) && follows_value(other) && #[trigger] (parts[i] + after)
                == #[trigger] (other_parts[i] + other) implies parts[i] == other_parts[i] && after
            == other by {
            assert(parts[i] + after =~= start + (value + after));
            assert(other_parts[i] + other =~= start + (other_value + other));
            same_start(start, value + after, other_value + other);
        }
    }
    assert forall|after: Seq<char>, other: Seq<char>| #[trigger] (a + after) == #[trigger] (b
        + other) implies left == right && after == other by {
        let close = seq!['}'] + after;
        let other_close = seq!['}'] + other;
        let rest = joined_by(parts, comma) + close;
        let other_rest = joined_by(other_parts, comma) + other_close;
        assert(a + after =~= seq!['{'] + rest);
        assert(b + other =~= seq!['{'] + other_rest);
        same_start(seq!['{'], rest, other_rest);
        lists_are_told_apart(parts, other_parts, close, other_close);
        same_start(seq!['}'], after, other);
        assert forall|i: int| 0 <= i < left.len() implies #[trigger] left[i] == right[i] by {
            let start = quoted(left[i].0) + seq![':'];
            assert(left[i].0 == right[i].0);
            assert(parts[i] == start + left[i].1);
            assert(other_parts[i] == start + right[i].1);
            same_start(start, left[i].1, right[i].1);
        }
        assert(left =~= right);
    }
    if a == b {
        let nothing = Seq::<char>::empty();
        assert(a + nothing == b + nothing);
    }
}

} // verus!
