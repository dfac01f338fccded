//! Amounts as the windows show them: sizes and durations.

use crate::text::{decimal, decimal_text, digit};
use vstd::prelude::*;

verus! {

/// `number / unit` rounded to the nearest whole number, and to the even one of two
/// that are equally near.
pub open spec fn rounded(number: int, unit: int) -> int {
    let whole = number / unit;
    let rest = number % unit;
    if 2 * rest > unit || (2 * rest == unit && whole % 2 == 1) {
        whole + 1
    } else {
        whole
    }
}

/// The distance between neighbouring numbers of 53 binary digits around `value`.
pub open spec fn grain(value: int) -> int
    decreases value,
{
    if value < 0x20_0000_0000_0000 {
        1
    } else {
        2 * grain(value / 2)
    }
}

/// The number of at most 53 binary digits that is nearest to `value`.
pub open spec fn coarse(value: int) -> int {
    rounded(value, grain(value)) * grain(value)
}

/// One kibibyte.
pub const KIB: u64 = 0x400;

/// One mebibyte.
pub const MIB: u64 = 0x10_0000;

/// One gibibyte.
pub const GIB: u64 = 0x4000_0000;

/// One tebibyte.
pub const TIB: u64 = 0x100_0000_0000;

/// `number / unit` with one decimal.
pub open spec fn with_one_decimal(number: int, unit: int) -> Seq<char> {
    let tenths = rounded(number * 10, unit);
    decimal((tenths / 10) as nat) + seq!['.', digit((tenths % 10) as nat)]
}

/// `number / unit` with two decimals.
pub open spec fn with_two_decimals(number: int, unit: int) -> Seq<char> {
    let hundredths = rounded(number * 100, unit);
    decimal((hundredths / 100) as nat) + seq![
        '.',
        digit((hundredths / 10 % 10) as nat),
        digit((hundredths % 10) as nat),
    ]
}

/// A size as the windows show it. The size is first rounded to 53 binary digits.
pub open spec fn size_text(value: u64) -> Seq<char> {
    let near = coarse(value as int);
    if near >= TIB {
        with_two_decimals(near, TIB as int) + " TB"@
    } else if near >= GIB {
        with_two_decimals(near, GIB as int) + " GB"@
    } else if near >= MIB {
        with_one_decimal(near, MIB as int) + " MB"@
    } else if near >= KIB {
        with_one_decimal(near, KIB as int) + " KB"@
    } else {
        decimal(value as nat) + " B"@
    }
}

fn round_to(number: u128, unit: u128) -> (nearest: u128)
    requires
        0 < unit <= TIB,
        number <= 0x1_0000_0000_0000_0000 * 100,
    ensures
        nearest == rounded(number as int, unit as int),
        nearest <= number + 1,
{
    let whole = number / unit;
    let rest = number % unit;
    assert(whole <= number) by (nonlinear_arith)
        requires
            whole == number / unit,
            unit > 0,
    ;
    if 2 * rest > unit || (2 * rest == unit && whole % 2 == 1) {
        whole + 1
    } else {
        whole
    }
}

/// Whether a number is a power of two of at most 2048.
spec fn is_small_power(unit: int) -> bool {
    ||| unit == 1
    ||| unit == 2
    ||| unit == 4
    ||| unit == 8
    ||| unit == 16
    ||| unit == 32
    ||| unit == 64
    ||| unit == 128
    ||| unit == 256
    ||| unit == 512
    ||| unit == 1024
    ||| unit == 2048
}

/// How many numbers there are below 2 to the 64th for each step of `unit`.
spec fn steps(unit: int) -> int {
    if unit == 1 {
        0x10000000000000000
    } else if unit == 2 {
        0x8000000000000000
    } else if unit == 4 {
        0x4000000000000000
    } else if unit == 8 {
        0x2000000000000000
    } else if unit == 16 {
        0x1000000000000000
    } else if unit == 32 {
        0x800000000000000
    } else if unit == 64 {
        0x400000000000000
    } else if unit == 128 {
        0x200000000000000
    } else if unit == 256 {
        0x100000000000000
    } else if unit == 512 {
        0x80000000000000
    } else if unit == 1024 {
        0x40000000000000
    } else {
        0x20_0000_0000_0000
    }
}

proof fn lemma_grain(value: int, unit: int)
    requires
        0 <= value < steps(unit),
        is_small_power(unit),
    ensures
        is_small_power(unit * grain(value)),
    decreases value,
{
    if value >= 0x20_0000_0000_0000 {
        lemma_grain(value / 2, unit * 2);
        assert(unit * (2 * grain(value / 2)) == (unit * 2) * grain(value / 2))
            by (nonlinear_arith);
    }
}

fn grain_of(value: u64) -> (unit: u64)
    ensures
        unit == grain(value as int),
        is_small_power(unit as int),
    decreases value,
{
    proof {
        lemma_grain(value as int, 1);
    }
    if value < 0x20_0000_0000_0000 {
        1
    } else {
        2 * grain_of(value / 2)
    }
}

fn coarse_of(value: u64) -> (near: u128)
    ensures
        near == coarse(value as int),
        near <= 0x1_0000_0000_0000_0000,
{
    let unit = grain_of(value) as u128;
    let nearest = round_to(value as u128, unit);
    proof {
        let whole = value as int / unit as int;
        assert(nearest <= whole + 1);
        assert(whole + 1 <= steps(unit as int));
        assert(steps(unit as int) * unit == 0x1_0000_0000_0000_0000);
        assert((whole + 1) * unit <= steps(unit as int) * unit) by (nonlinear_arith)
            requires
                whole + 1 <= steps(unit as int),
                unit >= 1,
        ;
        assert(nearest * unit <= (whole + 1) * unit) by (nonlinear_arith)
            requires
                nearest <= whole + 1,
                unit >= 1,
        ;
    }
    nearest * unit
}

/// A size as the windows show it, in the largest unit that it fills.
pub fn format_bytes(value: u64) -> (text: String)
    ensures
        text@ == size_text(value),
{
    let near = coarse_of(value);
    if near >= TIB as u128 {
        let mut text = two_decimals(near, TIB as u128);
        text.append(" TB");
        text
    } else if near >= GIB as u128 {
        let mut text = two_decimals(near, GIB as u128);
        text.append(" GB");
        text
    } else if near >= MIB as u128 {
        let mut text = one_decimal(near, MIB as u128);
        text.append(" MB");
        text
    } else if near >= KIB as u128 {
        let mut text = one_decimal(near, KIB as u128);
        text.append(" KB");
        text
    } else {
        let mut text = decimal_text(value);
        text.append(" B");
        text
    }
}

fn one_decimal(number: u128, unit: u128) -> (text: String)
    requires
        KIB <= unit <= TIB,
        number <= 0x1_0000_0000_0000_0000,
    ensures
        text@ == with_one_decimal(number as int, unit as int),
{
    let tenths = round_to(number * 10, unit);
    proof {
        lemma_small(number as int * 10, unit as int);
    }
    let mut text = decimal_text((tenths / 10) as u64);
    let ghost whole = text@;
    text.append(".");
    let last = decimal_text((tenths % 10) as u64);
    text.append(last.as_str());
    proof {
        reveal_strlit(".");
        assert(text@ =~= whole + seq!['.', digit((tenths % 10) as nat)]);
    }
    text
}

fn two_decimals(number: u128, unit: u128) -> (text: String)
    requires
        KIB <= unit <= TIB,
        number <= 0x1_0000_0000_0000_0000,
    ensures
        text@ == with_two_decimals(number as int, unit as int),
{
    let hundredths = round_to(number * 100, unit);
    proof {
        lemma_small(number as int * 100, unit as int);
    }
    let mut text = decimal_text((hundredths / 100) as u64);
    let ghost whole = text@;
    text.append(".");
    let first = decimal_text((hundredths / 10 % 10) as u64);
    text.append(first.as_str());
    let last = decimal_text((hundredths % 10) as u64);
    text.append(last.as_str());
    proof {
        reveal_strlit(".");
        assert(text@ =~= whole + seq![
            '.',
            digit((hundredths / 10 % 10) as nat),
            digit((hundredths % 10) as nat),
        ]);
    }
    text
}

proof fn lemma_small(number: int, unit: int)
    requires
        KIB <= unit,
        0 <= number <= 0x1_0000_0000_0000_0000 * 100,
    ensures
        0 <= rounded(number, unit) <= 0xffff_ffff_ffff_ffff,
{
    assert(0 <= number / unit <= number / 0x400) by (nonlinear_arith)
        requires
            0x400 <= unit,
            0 <= number,
    ;
}

/// A duration as the windows show it: whole seconds, and minutes where there are any.
pub open spec fn duration_text(ms: u64) -> Seq<char> {
    let seconds = ms / 1000;
    if seconds < 60 {
        decimal(seconds as nat) + " сек"@
    } else {
        decimal((seconds / 60) as nat) + " мин "@ + decimal((seconds % 60) as nat) + " сек"@
    }
}

/// A duration as the windows show it.
pub fn format_duration(ms: u64) -> (text: String)
    ensures
        text@ == duration_text(ms),
{
    let seconds = ms / 1000;
    if seconds < 60 {
        let mut text = decimal_text(seconds);
        text.append(" сек");
        text
    } else {
        let mut text = decimal_text(seconds / 60);
        text.append(" мин ");
        let rest = decimal_text(seconds % 60);
        text.append(rest.as_str());
        text.append(" сек");
        text
    }
}

/// A size below one kibibyte is shown exactly.
pub proof fn small_size_is_exact(value: u64)
    requires
        value < KIB,
    ensures
        size_text(value) == decimal(value as nat) + " B"@,
{
    assert(grain(value as int) == 1);
    assert(rounded(value as int, 1) == value);
}

/// A whole number of a unit that the unit is shown in has only zero decimals.
pub proof fn whole_size_has_zero_decimals(count: u64)
    requires
        1 <= count < 1024,
    ensures
        size_text((count * KIB) as u64) == decimal(count as nat) + seq!['.', '0'] + " KB"@,
{
    let value = count * KIB;
    assert(grain(value) == 1);
    assert(rounded(value, 1) == value);
    assert(value * 10 / 1024 == count * 10);
    assert(value * 10 % 1024 == 0);
    assert(digit(0) == '0');
}

} // verus!
