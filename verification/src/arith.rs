//! Integer helpers shared by the battle rules.

use vstd::prelude::*;

verus! {

/// The value of `x` moved into the range of `i32`.
pub open spec fn sat_i32(x: int) -> int {
    if x > i32::MAX {
        i32::MAX as int
    } else if x < i32::MIN {
        i32::MIN as int
    } else {
        x
    }
}

/// The sum of two counters, held at the ends of the `i32` range.
pub fn saturating_sum(a: i32, b: i32) -> (r: i32)
    ensures
        r == sat_i32(a + b),
{
    let s: i64 = a as i64 + b as i64;
    if s > i32::MAX as i64 {
        i32::MAX
    } else if s < i32::MIN as i64 {
        i32::MIN
    } else {
        s as i32
    }
}

/// The difference of two counters, held at the ends of the `i32` range.
pub fn saturating_difference(a: i32, b: i32) -> (r: i32)
    ensures
        r == sat_i32(a - b),
{
    let s: i64 = a as i64 - b as i64;
    if s > i32::MAX as i64 {
        i32::MAX
    } else if s < i32::MIN as i64 {
        i32::MIN
    } else {
        s as i32
    }
}

/// The product of two counters, held at the ends of the `i32` range.
pub fn saturating_product(a: i32, b: i32) -> (r: i32)
    ensures
        r == sat_i32(a * b),
{
    assert(-0x4000_0000_0000_0000 <= a * b <= 0x4000_0000_0000_0000) by (nonlinear_arith)
        requires
            -0x8000_0000 <= a <= 0x7fff_ffff,
            -0x8000_0000 <= b <= 0x7fff_ffff,
    ;
    let s: i64 = (a as i64) * (b as i64);
    if s > i32::MAX as i64 {
        i32::MAX
    } else if s < i32::MIN as i64 {
        i32::MIN
    } else {
        s as i32
    }
}

/// The number in an optional field; zero if it is not set.
pub open spec fn or_zero64(x: Option<i64>) -> i64 {
    match x {
        Some(v) => v,
        None => 0,
    }
}

/// The number in an optional field; zero if it is not set.
pub open spec fn or_zero(x: Option<i32>) -> i32 {
    match x {
        Some(v) => v,
        None => 0,
    }
}

/// Reads an optional field.
pub fn value64(x: Option<i64>) -> (r: i64)
    ensures
        r == or_zero64(x),
{
    match x {
        Some(v) => v,
        None => 0,
    }
}

/// Reads an optional field.
pub fn value(x: Option<i32>) -> (r: i32)
    ensures
        r == or_zero(x),
{
    match x {
        Some(v) => v,
        None => 0,
    }
}

/// Division rounded toward zero.
pub open spec fn div_toward_zero(a: int, b: int) -> int {
    if a >= 0 {
        a / b
    } else {
        -((-a) / b)
    }
}

/// A division rounded toward zero.
pub fn divide(a: i32, b: i32) -> (r: i32)
    requires
        b > 0,
    ensures
        r == div_toward_zero(a as int, b as int),
{
    a / b
}

/// Whether a number is in the range of `i32`.
pub open spec fn fits(x: int) -> bool {
    i32::MIN <= x <= i32::MAX
}

/// A share of a number, in parts of a unit, rounded toward zero.
pub open spec fn share(a: int, parts: int, unit: int) -> int {
    div_toward_zero(a * parts, unit)
}

/// Takes a share of a number.
pub fn take_share(a: i32, parts: i32, unit: i32) -> (r: i32)
    requires
        unit > 0,
        fits(a * parts),
    ensures
        r == share(a as int, parts as int, unit as int),
{
    divide(a * parts, unit)
}

} // verus!
