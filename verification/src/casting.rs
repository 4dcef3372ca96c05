//! Integer casting demonstrations: fallible narrowing that reports an
//! out-of-range value instead of truncating, and the truncating narrowing
//! cast whose wrap-around the overflow demo exhibits on purpose.

use vstd::arithmetic::div_mod::{
    lemma_fundamental_div_mod,
    lemma_mod_multiples_vanish,
    lemma_small_mod,
};
use vstd::prelude::*;

verus! {

/// The value of truncating an integer to 32 signed bits: the unique value in
/// the 32-bit signed range congruent to `x` modulo 2^32.
pub open spec fn wrap32(x: int) -> int {
    let m = x % 0x1_0000_0000;
    if m >= 0x8000_0000 {
        m - 0x1_0000_0000
    } else {
        m
    }
}

/// Fallible narrowing conversion: succeeds with the same value exactly when
/// the input fits in the target type, and signals failure otherwise.
pub fn try_to_i8(x: u8) -> (r: Option<i8>)
    ensures
        x <= i8::MAX ==> (r matches Some(v) && v as int == x as int),
        x > i8::MAX ==> r is None,
{
    if x <= 127 {
        Some(x as i8)
    } else {
        None
    }
}

/// Narrowing cast from 64 to 32 signed bits with wrap-around: keeps the low
/// 32 bits and reinterprets them as a signed value.
pub fn wrap_to_i32(x: i64) -> (r: i32)
    ensures
        r as int == wrap32(x as int),
{
    if x >= 0 {
        let m: i64 = x % 4294967296;
        if m >= 2147483648 {
            (m - 4294967296) as i32
        } else {
            m as i32
        }
    } else {
        let y: i64 = -(x + 1);
        let my: i64 = y % 4294967296;
        let m: i64 = 4294967295 - my;
        proof {
            let b: int = 0x1_0000_0000;
            let q = (y as int) / b;
            lemma_fundamental_div_mod(y as int, b);
            assert(x as int == b * (-q - 1) + (b - 1 - my));
            lemma_mod_multiples_vanish(-q - 1, b - 1 - my, b);
            lemma_small_mod((b - 1 - my) as nat, b as nat);
            assert((x as int) % b == m);
        }
        if m >= 2147483648 {
            (m - 4294967296) as i32
        } else {
            m as i32
        }
    }
}

/// The overflow demo's addition: the 64-bit value is first narrowed to 32
/// bits with wrap-around, so a value above the 32-bit maximum contributes its
/// wrapped value to the sum, not its true one.
pub fn truncate_add(x: i64, y: i32) -> (r: i32)
    requires
        i32::MIN <= wrap32(x as int) + y <= i32::MAX,
    ensures
        r as int == wrap32(x as int) + y,
{
    let w: i32 = wrap_to_i32(x);
    w + y
}

} // verus!
