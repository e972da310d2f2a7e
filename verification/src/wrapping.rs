//! Two's-complement arithmetic on matrix entries.
//!
//! Entries are `i32`. Sums, differences and products that leave the range of
//! `i32` wrap around, as the `wrapping_*` operations of the standard library
//! do. The contracts of the matrix operations are stated with [`wrap_i32`],
//! which maps the exact mathematical result to the entry that is stored.

use vstd::prelude::*;

verus! {

/// The `i32` that is congruent to `x` modulo 2^32.
pub open spec fn wrap_i32(x: int) -> i32 {
    let r = x % 0x1_0000_0000;
    if r > i32::MAX {
        (r - 0x1_0000_0000) as i32
    } else {
        r as i32
    }
}

/// Wrapping the terms of a sum first does not change the wrapped sum.
pub proof fn lemma_wrap_sum(x: int, y: int)
    ensures
        wrap_i32(wrap_i32(x) + wrap_i32(y)) == wrap_i32(x + y),
{
}

/// `a + b`, wrapped into `i32`.
pub fn wrapping_sum(a: i32, b: i32) -> (r: i32)
    ensures
        r == wrap_i32(a + b),
        i32::MIN <= a + b <= i32::MAX ==> r == a + b,
{
    a.wrapping_add(b)
}

/// `a - b`, wrapped into `i32`.
pub fn wrapping_difference(a: i32, b: i32) -> (r: i32)
    ensures
        r == wrap_i32(a - b),
        i32::MIN <= a - b <= i32::MAX ==> r == a - b,
{
    a.wrapping_sub(b)
}

/// `a * b`, wrapped into `i32`.
pub fn wrapping_product(a: i32, b: i32) -> (r: i32)
    ensures
        r == wrap_i32(a * b),
        i32::MIN <= a * b <= i32::MAX ==> r == a * b,
{
    a.wrapping_mul(b)
}

} // verus!
