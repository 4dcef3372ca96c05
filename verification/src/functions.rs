//! Free-function demonstrations: a value-returning addition.

use vstd::prelude::*;

verus! {

/// Adds two 32-bit signed integers and returns the sum explicitly.
pub fn add_with_return(x: i32, y: i32) -> (r: i32)
    requires
        i32::MIN <= x + y <= i32::MAX,
    ensures
        r == x + y,
{
    x + y
}

/// Adds two 64-bit signed integers, reporting `None` instead of overflowing.
pub fn checked_add_i64(x: i64, y: i64) -> (r: Option<i64>)
    ensures
        i64::MIN <= x + y <= i64::MAX ==> r == Some((x + y) as i64),
        !(i64::MIN <= x + y <= i64::MAX) ==> r is None,
{
    x.checked_add(y)
}

} // verus!
