use lang_basics::casting::{truncate_add, try_to_i8, wrap_to_i32};

#[test]
fn try_to_i8_in_range_round_trips() {
    assert_eq!(try_to_i8(0), Some(0i8));
    assert_eq!(try_to_i8(101), Some(101i8));
    assert_eq!(try_to_i8(127), Some(127i8));
}

#[test]
fn try_to_i8_out_of_range_fails() {
    assert_eq!(try_to_i8(128), None);
    assert_eq!(try_to_i8(255), None);
}

#[test]
fn wrap_to_i32_keeps_small_values() {
    assert_eq!(wrap_to_i32(5), 5);
    assert_eq!(wrap_to_i32(-5), -5);
    assert_eq!(wrap_to_i32(2147483647), 2147483647);
    assert_eq!(wrap_to_i32(-2147483648), -2147483648);
}

#[test]
fn wrap_to_i32_wraps_large_values() {
    assert_eq!(wrap_to_i32(2147483648), -2147483648);
    assert_eq!(wrap_to_i32(4294967296), 0);
    assert_eq!(wrap_to_i32(-4294967297), -1);
    assert_eq!(wrap_to_i32(-2147483649), 2147483647);
}

#[test]
fn overflow_demo_gives_wrapped_sum() {
    // One past the 32-bit signed maximum, narrowed back to 32 bits before the
    // add, lands next to the minimum instead of the true sum.
    let x: i64 = (i32::MAX as i64) + 1;
    let z = truncate_add(x, 1000);
    assert_eq!(z, -2147482648);
    assert_ne!(z as i64, x + 1000);
}
