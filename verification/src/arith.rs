//! Integer helpers with the semantics of std's `Ord::max`, `Ord::min` and
//! `i32::saturating_sub`.

use vstd::prelude::*;

verus! {

pub open spec fn max_int(a: int, b: int) -> int {
    if a >= b { a } else { b }
}

pub open spec fn min_int(a: int, b: int) -> int {
    if a <= b { a } else { b }
}

pub fn max_i32(a: i32, b: i32) -> (r: i32)
    ensures
        r == max_int(a as int, b as int),
{
    if a >= b { a } else { b }
}

pub fn min_i32(a: i32, b: i32) -> (r: i32)
    ensures
        r == min_int(a as int, b as int),
{
    if a <= b { a } else { b }
}

/// `i32::saturating_sub`: the difference, held at `i32::MIN`/`i32::MAX`.
pub fn saturating_sub_i32(a: i32, b: i32) -> (r: i32)
    ensures
        r == if a - b < i32::MIN { i32::MIN as int } else if a - b > i32::MAX { i32::MAX as int } else { a - b },
{
    let d: i64 = a as i64 - b as i64;
    if d < i32::MIN as i64 {
        i32::MIN
    } else if d > i32::MAX as i64 {
        i32::MAX
    } else {
        d as i32
    }
}

} // verus!
