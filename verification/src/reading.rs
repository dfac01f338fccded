//! What texts say once they are read again: numbers, lists, lines, amounts and reports.

use crate::amounts::{coarse, duration_text, grain, rounded, size_text};
use crate::lines::{behind, is_space, lines, longest, trimmed};
use crate::report::{error_text, loaded_text, Page};
use crate::text::{decimal, digit, joined_by, precedes, signed_decimal, texts};
use vstd::prelude::*;
use vstd::utf8::encode_utf8;

verus! {

/// The number that a row of decimal digits stands for.
pub open spec fn number_of(digits: Seq<char>) -> int
    decreases digits.len(),
{
    if digits.len() == 0 {
        0
    } else {
        number_of(digits.drop_last()) * 10 + (digits.last() as int - '0' as int)
    }
}

/// A number that is written in decimal reads as that number, without a zero in front but for
/// zero itself.
pub proof fn decimals_read_back(value: nat)
    ensures
        number_of(decimal(value)) == value,
        decimal(value).len() > 0,
        forall|i: int| 0 <= i < decimal(value).len() ==> '0' <= #[trigger] decimal(value)[i] <= '9',
        value > 0 ==> decimal(value)[0] != '0',
    decreases value,
{
    reveal_with_fuel(number_of, 2);
    if value >= 10 {
        decimals_read_back(value / 10);
        assert(decimal(value).drop_last() =~= decimal(value / 10));
        assert(decimal(value)[0] == decimal(value / 10)[0]);
    } else {
        assert(decimal(value).drop_last() =~= Seq::<char>::empty());
    }
    assert(digit(value % 10) as int == '0' as int + value % 10);
}

/// A signed number that is written in decimal reads as that number: its digits stand for its
/// magnitude, behind a sign exactly where it is negative.
pub proof fn signed_decimals_read_back(value: int)
    ensures
        value >= 0 ==> number_of(signed_decimal(value)) == value && signed_decimal(value)[0] != '-',
        value < 0 ==> signed_decimal(value)[0] == '-' && number_of(signed_decimal(value).skip(1))
            == -value,
{
    if value >= 0 {
        decimals_read_back(value as nat);
        assert('0' <= decimal(value as nat)[0] <= '9');
    } else {
        decimals_read_back((-value) as nat);
        assert(signed_decimal(value).skip(1) =~= decimal((-value) as nat));
    }
}

/// The parts of a text between the places where `mark` stands.
pub open spec fn parts(text: Seq<char>, mark: char) -> Seq<Seq<char>>
    decreases text.len(),
{
    if text.len() == 0 {
        seq![seq![]]
    } else {
        let before = parts(text.drop_last(), mark);
        if text.last() == mark {
            before.push(seq![])
        } else {
            before.drop_last().push(before.last().push(text.last()))
        }
    }
}

proof fn lemma_parts_go_on(text: Seq<char>, mark: char, more: Seq<char>)
    requires
        !more.contains(mark),
    ensures
        parts(text, mark).len() > 0,
        parts(text + more, mark) == parts(text, mark).drop_last().push(
            parts(text, mark).last() + more,
        ),
    decreases more.len(),
{
    if more.len() == 0 {
        assert(text + more =~= text);
        lemma_parts_are_some(text, mark);
        let list = parts(text, mark);
        assert(list.last() + more =~= list.last());
        assert(list.drop_last().push(list.last()) =~= list);
    } else {
        let less = more.drop_last();
        assert(more[more.len() - 1] == more.last());
        assert forall|i: int| 0 <= i < less.len() implies #[trigger] less[i] != mark by {
            assert(more[i] == less[i]);
            assert(more.contains(more[i]));
        }
        lemma_parts_go_on(text, mark, less);
        assert((text + more).drop_last() =~= text + less);
        assert((text + more).last() == more.last());
        assert(more.contains(more.last()));
        let list = parts(text, mark);
        let longer = list.drop_last().push(list.last() + less);
        assert(longer.drop_last() =~= list.drop_last());
        assert((list.last() + less).push(more.last()) =~= list.last() + more);
    }
}

proof fn lemma_parts_are_some(text: Seq<char>, mark: char)
    ensures
        parts(text, mark).len() > 0,
    decreases text.len(),
{
    if text.len() > 0 {
        lemma_parts_are_some(text.drop_last(), mark);
    }
}

/// A list that is written with a mark between its entries splits at the marks into exactly
/// these entries, where none of them holds the mark.
pub proof fn joined_lists_split_again(list: Seq<Seq<char>>, mark: char)
    requires
        list.len() > 0,
        forall|i: int| 0 <= i < list.len() ==> !(#[trigger] list[i]).contains(mark),
    ensures
        parts(joined_by(list, seq![mark]), mark) == list,
    decreases list.len(),
{
    if list.len() == 1 {
        let empty: Seq<char> = seq![];
        lemma_parts_go_on(empty, mark, list[0]);
        assert(empty + list[0] =~= list[0]);
        assert(parts(empty, mark) =~= seq![empty]);
        assert(parts(list[0], mark) =~= list);
    } else {
        let less = list.drop_last();
        assert forall|i: int| 0 <= i < less.len() implies !(#[trigger] less[i]).contains(mark) by {
            assert(less[i] == list[i]);
        }
        joined_lists_split_again(less, mark);
        let start = joined_by(less, seq![mark]);
        let marked = start + seq![mark];
        assert(marked.drop_last() =~= start);
        assert(parts(marked, mark) == less.push(seq![]));
        assert(list[list.len() - 1] == list.last());
        lemma_parts_go_on(marked, mark, list.last());
        let empty: Seq<char> = seq![];
        assert(less.push(empty).drop_last() =~= less);
        assert(empty + list.last() =~= list.last());
        assert(less.push(list.last()) =~= list);
    }
}

/// Texts are ordered by the first place where they differ, and a text comes before what it is
/// the start of.
pub proof fn order_is_by_first_difference(left: Seq<char>, right: Seq<char>, place: int)
    requires
        0 <= place <= left.len(),
        place <= right.len(),
        forall|i: int| 0 <= i < place ==> left[i] == right[i],
    ensures
        place == left.len() && place < right.len() ==> precedes(left, right),
        place == right.len() ==> !precedes(left, right),
        place < left.len() && place < right.len() && left[place] != right[place] ==> (precedes(
            left,
            right,
        ) <==> left[place] < right[place]),
    decreases place,
{
    if place > 0 {
        assert forall|i: int| 0 <= i < place - 1 implies left.drop_first()[i]
            == right.drop_first()[i] by {
            assert(left[i + 1] == right[i + 1]);
        }
        order_is_by_first_difference(left.drop_first(), right.drop_first(), place - 1);
    }
}

/// A text without a line feed is one line, or none where it is empty. A text with one is the
/// line before the first, without a carriage return at its end, and then the lines of what
/// follows.
pub proof fn lines_end_with_line_feeds(line: Seq<char>, rest: Seq<char>)
    requires
        !line.contains('\n'),
    ensures
        line.len() == 0 ==> lines(line) == Seq::<Seq<char>>::empty(),
        line.len() > 0 ==> lines(line) == seq![line],
        line.len() > 0 && line.last() == '\r' ==> lines(line.push('\n') + rest) == seq![
            line.drop_last(),
        ] + lines(rest),
        line.len() == 0 || line.last() != '\r' ==> lines(line.push('\n') + rest) == seq![line]
            + lines(rest),
{
    line.index_of_first_ensures('\n');
    let text = line.push('\n') + rest;
    let end = line.len() as int;
    text.index_of_first_ensures('\n');
    assert(text[end] == '\n');
    let first = text.index_of_first('\n')->0;
    if first < end {
        assert(line[first] == '\n');
    }
    assert(text.take(end) =~= line);
    assert(text.skip(end + 1) =~= rest);
}

/// What stands behind a heading is what follows it in the first line that starts with it, and
/// is not to be had where no line does.
pub proof fn first_heading_counts(list: Seq<Seq<char>>, heading: Seq<char>, at: int, rest: Seq<char>)
    requires
        0 <= at <= list.len(),
        forall|i: int| 0 <= i < at ==> !heading.is_prefix_of(#[trigger] list[i]),
    ensures
        at < list.len() && list[at] == heading + rest ==> behind(list, heading) == Some(rest),
        at == list.len() ==> behind(list, heading) is None,
    decreases at,
{
    if at == 0 {
        if list.len() > 0 && list[0] == heading + rest {
            assert(heading.is_prefix_of(list[0]));
            assert(list[0].skip(heading.len() as int) =~= rest);
        }
    } else {
        assert(!heading.is_prefix_of(list[0]));
        assert forall|i: int| 0 <= i < at - 1 implies !heading.is_prefix_of(
            #[trigger] list.drop_first()[i],
        ) by {
            assert(list.drop_first()[i] == list[i + 1]);
        }
        first_heading_counts(list.drop_first(), heading, at - 1, rest);
    }
}

/// White space is the tabulator, the line feed, the vertical tabulator, the form feed, the
/// carriage return, the space, and the other spaces and separators of Unicode.
pub proof fn white_space_is_listed(c: char)
    ensures
        is_space(c) <==> seq![
            '\t',
            '\n',
            '\u{b}',
            '\u{c}',
            '\r',
            ' ',
            '\u{85}',
            '\u{a0}',
            '\u{1680}',
            '\u{2000}',
            '\u{2001}',
            '\u{2002}',
            '\u{2003}',
            '\u{2004}',
            '\u{2005}',
            '\u{2006}',
            '\u{2007}',
            '\u{2008}',
            '\u{2009}',
            '\u{200a}',
            '\u{2028}',
            '\u{2029}',
            '\u{202f}',
            '\u{205f}',
            '\u{3000}',
        ].contains(c),
{
}

/// To trim a text is to cut off white space at its ends and nothing else, as long as there is
/// any.
pub proof fn trimming_cuts_white_space(text: Seq<char>) -> (ends: (Seq<char>, Seq<char>))
    ensures
        text == ends.0 + trimmed(text) + ends.1,
        forall|i: int| 0 <= i < ends.0.len() ==> is_space(#[trigger] ends.0[i]),
        forall|i: int| 0 <= i < ends.1.len() ==> is_space(#[trigger] ends.1[i]),
        trimmed(text).len() > 0 ==> !is_space(trimmed(text)[0]) && !is_space(trimmed(text).last()),
    decreases text.len(),
{
    let none: Seq<char> = seq![];
    if text.len() == 0 {
        assert(text =~= none + text + none);
        (none, none)
    } else if is_space(text[0]) {
        let ends = trimming_cuts_white_space(text.drop_first());
        let first = seq![text[0]] + ends.0;
        assert(text =~= seq![text[0]] + text.drop_first());
        assert(text =~= first + trimmed(text) + ends.1);
        (first, ends.1)
    } else if is_space(text.last()) {
        let ends = trimming_cuts_white_space(text.drop_last());
        let last = ends.1.push(text.last());
        assert(text =~= text.drop_last().push(text.last()));
        assert(text =~= ends.0 + trimmed(text) + last);
        (ends.0, last)
    } else {
        assert(text =~= none + text + none);
        (none, none)
    }
}

/// The longest of a list is as long as one of its entries, and no entry is longer.
pub proof fn longest_is_reached(list: Seq<Seq<char>>)
    ensures
        forall|i: int| 0 <= i < list.len() ==> encode_utf8(#[trigger] list[i]).len() <= longest(list),
        list.len() > 0 ==> exists|i: int|
            0 <= i < list.len() && encode_utf8(#[trigger] list[i]).len() == longest(list),
        list.len() == 0 ==> longest(list) == 0,
    decreases list.len(),
{
    if list.len() > 0 {
        let less = list.drop_last();
        longest_is_reached(less);
        let last = list.len() - 1;
        assert forall|i: int| 0 <= i < list.len() implies encode_utf8(#[trigger] list[i]).len()
            <= longest(list) by {
            if i < last {
                assert(less[i] == list[i]);
            }
        }
        if encode_utf8(list[last]).len() != longest(list) {
            if less.len() > 0 {
                let at = choose|at: int|
                    0 <= at < less.len() && encode_utf8(#[trigger] less[at]).len() == longest(less);
                assert(list[at] == less[at]);
            }
        }
    }
}

/// A page has seven and a half points for each byte of its longest line and eighteen for each
/// line, and a margin of twenty-four on either axis. It is at least 740 and at most 6000
/// points wide, and as high as it has to be at least.
pub proof fn page_grows_with_its_report(page: Page, report: Seq<char>, least: int)
    requires
        page.holds(report, least),
    ensures
        ({
            let wide = longest(lines(report)) * 75 + 240;
            &&& 7400 <= wide <= 60000 ==> page.width == wide
            &&& wide < 7400 ==> page.width == 7400
            &&& wide > 60000 ==> page.width == 60000
        }),
        ({
            let high = lines(report).len() * 180 + 240;
            &&& high >= least ==> page.height == high
            &&& high < least ==> page.height == least
        }),
{
}

/// The report on the errors grows by a paragraph with each error: its number, its category and
/// its path, then its reason, with an empty line between two of them. Without an error it says
/// so.
pub proof fn each_error_is_reported(
    errors: Seq<(String, String, String)>,
    error: (String, String, String),
)
    ensures
        error_text(Seq::empty()) == "Ошибок в последней очистке нет."@,
        errors.len() == 0 ==> error_text(errors.push(error)) == "1. "@ + error.0@ + "\n"@ + error.1@
            + "\nПричина: "@ + error.2@ + "\n"@,
        errors.len() > 0 ==> error_text(errors.push(error)) == error_text(errors) + "\n"@ + decimal(
            (errors.len() + 1) as nat,
        ) + ". "@ + error.0@ + "\n"@ + error.1@ + "\nПричина: "@ + error.2@ + "\n"@,
{
    let more = errors.push(error);
    let before = Seq::new(
        errors.len(),
        |i: int| crate::report::error_paragraph((i + 1) as nat, errors[i]),
    );
    let after = Seq::new(
        more.len(),
        |i: int| crate::report::error_paragraph((i + 1) as nat, more[i]),
    );
    assert(after.drop_last() =~= before);
    let last = crate::report::error_paragraph(more.len(), error);
    assert(after.last() == last);
    if errors.len() == 0 {
        reveal_strlit("1. ");
        reveal_strlit(". ");
        assert(decimal(1) =~= seq!['1']);
        assert(decimal(1) + ". "@ =~= "1. "@);
        assert(joined_by(after, "\n"@) == after[0]);
    } else {
        assert(joined_by(after, "\n"@) == joined_by(before, "\n"@) + "\n"@ + last);
        assert(error_text(more) =~= error_text(errors) + "\n"@ + decimal(
            (errors.len() + 1) as nat,
        ) + ". "@ + error.0@ + "\n"@ + error.1@ + "\nПричина: "@ + error.2@ + "\n"@);
    }
}

/// Where the errors could be loaded the window reports them, and otherwise why not.
pub proof fn loading_is_reported(errors: Vec<(String, String, String)>, error: String)
    ensures
        loaded_text(Ok(errors)) == error_text(errors@),
        loaded_text(Err(error)) == "Не удалось загрузить ошибки: "@ + error@,
{
}

/// Whether a text shows `number`, with `places` of its digits behind the point, in a unit.
pub open spec fn shows(text: Seq<char>, number: int, places: int, unit: Seq<char>) -> bool {
    exists|whole: Seq<char>, fraction: Seq<char>|
        text == whole + "."@ + fraction + unit && fraction.len() == places && #[trigger] number_of(
            whole + fraction,
        ) == number && is_number(whole) && all_digits(fraction)
}

/// Whether all of a text are decimal digits.
pub open spec fn all_digits(text: Seq<char>) -> bool {
    forall|i: int| 0 <= i < text.len() ==> '0' <= #[trigger] text[i] <= '9'
}

/// Whether a text is a whole number, without a zero in front but for zero itself.
pub open spec fn is_number(text: Seq<char>) -> bool {
    all_digits(text) && text.len() > 0 && (text.len() > 1 ==> text[0] != '0')
}

/// Whether `shown` is the whole number nearest to `number / unit`, and the even one of two
/// that are equally near.
pub open spec fn is_nearest(shown: int, number: int, unit: int) -> bool {
    let off = 2 * (shown * unit - number);
    &&& -unit <= off <= unit
    &&& off == unit || off == -unit ==> shown % 2 == 0
}

proof fn lemma_rounded_is_nearest(number: int, unit: int)
    requires
        unit > 0,
    ensures
        is_nearest(rounded(number, unit), number, unit),
{
    let whole = number / unit;
    let rest = number % unit;
    vstd::arithmetic::div_mod::lemma_fundamental_div_mod(number, unit);
    vstd::arithmetic::div_mod::lemma_mod_bound(number, unit);
    assert(unit * whole == whole * unit) by (nonlinear_arith);
    assert((whole + 1) * unit == whole * unit + unit) by (nonlinear_arith);
}

proof fn lemma_decimal_is_number(value: nat)
    ensures
        is_number(decimal(value)),
{
    decimals_read_back(value);
    if value == 0 {
        assert(decimal(0).len() == 1);
    }
}

proof fn lemma_one_decimal(number: int, unit: int, label: Seq<char>)
    requires
        number >= 0,
        unit > 0,
    ensures
        shows(
            crate::amounts::with_one_decimal(number, unit) + label,
            rounded(number * 10, unit),
            1,
            label,
        ),
{
    let tenths = rounded(number * 10, unit);
    lemma_rounded_is_nearest(number * 10, unit);
    assert(tenths >= 0) by {
        vstd::arithmetic::div_mod::lemma_div_pos_is_pos(number * 10, unit);
    }
    let whole = decimal((tenths / 10) as nat);
    let fraction = seq![digit((tenths % 10) as nat)];
    decimals_read_back((tenths / 10) as nat);
    lemma_decimal_is_number((tenths / 10) as nat);
    assert((whole + fraction).drop_last() =~= whole);
    assert(digit((tenths % 10) as nat) as int == '0' as int + tenths % 10);
    assert(number_of(whole + fraction) == tenths);
    reveal_strlit(".");
    assert(crate::amounts::with_one_decimal(number, unit) + label =~= whole + "."@ + fraction
        + label);
}

proof fn lemma_two_decimals(number: int, unit: int, label: Seq<char>)
    requires
        number >= 0,
        unit > 0,
    ensures
        shows(
            crate::amounts::with_two_decimals(number, unit) + label,
            rounded(number * 100, unit),
            2,
            label,
        ),
{
    let hundredths = rounded(number * 100, unit);
    lemma_rounded_is_nearest(number * 100, unit);
    assert(hundredths >= 0) by {
        vstd::arithmetic::div_mod::lemma_div_pos_is_pos(number * 100, unit);
    }
    let whole = decimal((hundredths / 100) as nat);
    let first = digit((hundredths / 10 % 10) as nat);
    let second = digit((hundredths % 10) as nat);
    let fraction = seq![first, second];
    decimals_read_back((hundredths / 100) as nat);
    lemma_decimal_is_number((hundredths / 100) as nat);
    assert((whole + fraction).drop_last() =~= whole.push(first));
    assert(whole.push(first).drop_last() =~= whole);
    assert(first as int == '0' as int + hundredths / 10 % 10);
    assert(second as int == '0' as int + hundredths % 10);
    assert(number_of(whole.push(first)) == hundredths / 10);
    assert(number_of(whole + fraction) == hundredths);
    reveal_strlit(".");
    assert(crate::amounts::with_two_decimals(number, unit) + label =~= whole + "."@ + fraction
        + label);
}

proof fn lemma_grain_is_fine(value: int)
    requires
        value >= 0x20_0000_0000_0000,
    ensures
        grain(value) * 0x10_0000_0000_0000 <= value,
        grain(value) >= 2,
    decreases value,
{
    if value / 2 >= 0x20_0000_0000_0000 {
        lemma_grain_is_fine(value / 2);
    } else {
        assert(grain(value / 2) == 1);
    }
    assert(grain(value) == 2 * grain(value / 2));
}

proof fn lemma_coarse_is_near(value: int)
    requires
        value >= 0,
    ensures
        value < 0x20_0000_0000_0000 ==> coarse(value) == value,
        -value <= (coarse(value) - value) * 0x20_0000_0000_0000 <= value,
{
    if value < 0x20_0000_0000_0000 {
        assert(grain(value) == 1);
        assert(rounded(value, 1) == value);
    } else {
        lemma_grain_is_fine(value);
        lemma_rounded_is_nearest(value, grain(value));
    }
}

/// A size is shown in the largest unit that it fills, in bytes exactly, in kibibytes and
/// mebibytes to the nearest tenth and in gibibytes and tebibytes to the nearest hundredth of
/// the unit. Only from 2 to the 53rd on the size itself is first rounded, by no more than one
/// part of that number.
pub proof fn sizes_are_shown_to_the_nearest(value: u64) -> (shown: (int, int))
    ensures
        value < 0x400 ==> size_text(value) == decimal(value as nat) + " B"@,
        0x400 <= value < 0x10_0000 ==> shows(size_text(value), shown.0, 1, " KB"@) && is_nearest(
            shown.0,
            value * 10,
            0x400,
        ),
        0x10_0000 <= value < 0x4000_0000 ==> shows(size_text(value), shown.0, 1, " MB"@)
            && is_nearest(shown.0, value * 10, 0x10_0000),
        0x4000_0000 <= value < 0x100_0000_0000 ==> shows(size_text(value), shown.0, 2, " GB"@)
            && is_nearest(shown.0, value * 100, 0x4000_0000),
        0x100_0000_0000 <= value ==> shows(size_text(value), shown.0, 2, " TB"@) && is_nearest(
            shown.0,
            shown.1 * 100,
            0x100_0000_0000,
        ),
        value < 0x20_0000_0000_0000 ==> shown.1 == value,
        -value <= (shown.1 - value) * 0x20_0000_0000_0000 <= value,
{
    lemma_coarse_is_near(value as int);
    let near = coarse(value as int);
    assert(value >= 0x100_0000_0000 ==> near >= 0x100_0000_0000);
    if value >= 0x100_0000_0000 {
        lemma_two_decimals(near, 0x100_0000_0000, " TB"@);
        lemma_rounded_is_nearest(near * 100, 0x100_0000_0000);
        (rounded(near * 100, 0x100_0000_0000), near)
    } else if value >= 0x4000_0000 {
        lemma_two_decimals(near, 0x4000_0000, " GB"@);
        lemma_rounded_is_nearest(near * 100, 0x4000_0000);
        (rounded(near * 100, 0x4000_0000), near)
    } else if value >= 0x10_0000 {
        lemma_one_decimal(near, 0x10_0000, " MB"@);
        lemma_rounded_is_nearest(near * 10, 0x10_0000);
        (rounded(near * 10, 0x10_0000), near)
    } else if value >= 0x400 {
        lemma_one_decimal(near, 0x400, " KB"@);
        lemma_rounded_is_nearest(near * 10, 0x400);
        (rounded(near * 10, 0x400), near)
    } else {
        (value as int, near)
    }
}

/// A duration is shown in whole minutes and the seconds beyond them, or in seconds alone where
/// it is less than a minute. What it has beyond its last whole second is left out.
pub proof fn durations_are_shown_in_seconds(ms: u64) -> (shown: (nat, nat))
    ensures
        shown.1 < 60,
        (shown.0 * 60 + shown.1) * 1000 <= ms < (shown.0 * 60 + shown.1 + 1) * 1000,
        shown.0 == 0 ==> duration_text(ms) == decimal(shown.1) + " сек"@,
        shown.0 > 0 ==> duration_text(ms) == decimal(shown.0) + " мин "@ + decimal(shown.1)
            + " сек"@,
{
    let seconds = ms / 1000;
    ((seconds / 60) as nat, (seconds % 60) as nat)
}

/// A list is written entry by entry: an empty one as nothing, one entry as itself, and one more
/// entry behind the others and what stands between.
pub proof fn lists_are_written_entry_by_entry(
    list: Seq<Seq<char>>,
    entry: Seq<char>,
    between: Seq<char>,
)
    ensures
        joined_by(Seq::empty(), between) == Seq::<char>::empty(),
        list.len() == 0 ==> joined_by(list.push(entry), between) == entry,
        list.len() > 0 ==> joined_by(list.push(entry), between) == joined_by(list, between) + between
            + entry,
{
    assert(list.push(entry).drop_last() =~= list);
}

/// The texts of a list are those of its entries, in their order.
pub proof fn texts_are_those_of_the_list(list: Seq<String>, at: int)
    ensures
        texts(list).len() == list.len(),
        0 <= at < list.len() ==> texts(list)[at] == list[at]@,
{
}

} // verus!
