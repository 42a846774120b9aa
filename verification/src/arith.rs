//! Integer helpers: narrowing and rounding division.
use vstd::prelude::*;

verus! {

/// The unsigned 64-bit number with the low 64 bits of `x`.
pub open spec fn wrap_u64(x: int) -> int {
    x % 0x1_0000_0000_0000_0000
}

/// The unsigned 32-bit number with the low 32 bits of `x`.
pub open spec fn wrap_u32(x: int) -> int {
    x % 0x1_0000_0000
}

/// `x / y`, rounded up.
pub open spec fn ceil_div(x: int, y: int) -> int {
    (x + y - 1) / y
}

/// The larger of two integers.
pub open spec fn larger(x: int, y: int) -> int {
    if x >= y {
        x
    } else {
        y
    }
}

/// The smaller of two integers.
pub open spec fn smaller(x: int, y: int) -> int {
    if x <= y {
        x
    } else {
        y
    }
}

/// `x - y`, or zero where that is negative.
pub open spec fn monus(x: int, y: int) -> int {
    if x >= y {
        x - y
    } else {
        0
    }
}

pub fn low_u64(x: u128) -> (r: u64)
    ensures
        r == wrap_u64(x as int),
{
    (x % 0x1_0000_0000_0000_0000u128) as u64
}

pub fn max_u64(x: u64, y: u64) -> (r: u64)
    ensures
        r == larger(x as int, y as int),
{
    if x >= y {
        x
    } else {
        y
    }
}

pub fn min_u64(x: u64, y: u64) -> (r: u64)
    ensures
        r == smaller(x as int, y as int),
{
    if x <= y {
        x
    } else {
        y
    }
}

pub fn low_u32(x: usize) -> (r: u32)
    ensures
        r == wrap_u32(x as int),
{
    (x as u64 % 0x1_0000_0000) as u32
}

/// Rounding up gives the least number of parts that holds all, and the low bits differ from the
/// number by whole wraps.
pub proof fn law_rounding_and_wrapping(x: int, y: int, n: int)
    requires
        y > 0,
        n >= 0,
    ensures
        ceil_div(x, y) * y >= x,
        (ceil_div(x, y) - 1) * y < x,
        x >= y ==> monus(x, y) + y == x,
        x <= y ==> monus(x, y) == 0,
        n < 0x1_0000_0000 ==> wrap_u32(n) == n,
        wrap_u32(n + 0x1_0000_0000) == wrap_u32(n) < 0x1_0000_0000,
        n < 0x1_0000_0000_0000_0000 ==> wrap_u64(n) == n,
        wrap_u64(n + 0x1_0000_0000_0000_0000) == wrap_u64(n) < 0x1_0000_0000_0000_0000,
        x <= larger(x, y) && y <= larger(x, y) && (larger(x, y) == x || larger(x, y) == y),
        x >= smaller(x, y) && y >= smaller(x, y) && (smaller(x, y) == x || smaller(x, y) == y),
{
    let q = ceil_div(x, y);
    assert(q * y >= x && (q - 1) * y < x) by (nonlinear_arith)
        requires
            q == (x + y - 1) / y,
            y > 0,
    ;
}

} // verus!
