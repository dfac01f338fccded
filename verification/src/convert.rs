//! Saturating conversions between the unsigned counters of the program and
//! the signed integer columns of its database.

use vstd::prelude::*;

verus! {

/// The column value that stores `value`: itself, or the largest column value.
pub open spec fn column_of(value: u64) -> i64 {
    if value <= i64::MAX {
        value as i64
    } else {
        i64::MAX
    }
}

/// The counter that a column value stands for: itself, or zero where it is
/// negative.
pub open spec fn counter_of(value: i64) -> u64 {
    if value >= 0 {
        value as u64
    } else {
        0
    }
}

/// Stores a counter in a signed column, capped at the largest column value.
pub fn to_i64(value: u64) -> (column: i64)
    ensures
        column == column_of(value),
{
    if value <= i64::MAX as u64 {
        value as i64
    } else {
        i64::MAX
    }
}

/// Reads a counter back from a signed column, with negatives read as zero.
pub fn from_i64(value: i64) -> (counter: u64)
    ensures
        counter == counter_of(value),
{
    if value >= 0 {
        value as u64
    } else {
        0
    }
}

/// A counter that fits a column comes back unchanged, and a larger one comes
/// back as the largest column value.
pub proof fn counter_survives_column(value: u64)
    ensures
        value <= i64::MAX ==> counter_of(column_of(value)) == value,
        value > i64::MAX ==> counter_of(column_of(value)) == i64::MAX,
        column_of(value) >= 0,
{
}

/// A column value that a counter produced is produced again by the counter
/// read from it.
pub proof fn column_survives_counter(value: i64)
    ensures
        value >= 0 ==> column_of(counter_of(value)) == value,
        value < 0 ==> column_of(counter_of(value)) == 0,
{
}

/// Storing keeps the order of counters, and so does reading back.
pub proof fn conversions_are_monotone(small: u64, large: u64, low: i64, high: i64)
    requires
        small <= large,
        low <= high,
    ensures
        column_of(small) <= column_of(large),
        counter_of(low) <= counter_of(high),
{
}

} // verus!
