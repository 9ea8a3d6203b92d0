//! Generic numeric helpers.

use vstd::prelude::*;
use core::cmp::Ordering;
use vstd::std_specs::cmp::PartialOrdSpec;

verus! {

/// What `clamp` returns under the order that `partial_cmp` describes.
pub open spec fn clamp_result<T: PartialOrd>(value: T, min: T, max: T) -> T {
    if value.partial_cmp_spec(&min) == Some(Ordering::Less) {
        min
    } else if value.partial_cmp_spec(&max) == Some(Ordering::Greater) {
        max
    } else {
        value
    }
}

/// Clamps a value between a minimum and a maximum: below `min` gives `min`,
/// above `max` gives `max`, anything else is returned unchanged.
pub fn clamp<T: PartialOrd>(value: T, min: T, max: T) -> (r: T)
    ensures
        T::obeys_partial_cmp_spec() ==> r == clamp_result(value, min, max),
        r == value || r == min || r == max,
{
    if value < min {
        min
    } else if value > max {
        max
    } else {
        value
    }
}

/// Whether a number is a power of two.
pub open spec fn is_power_of_two(v: u32) -> bool {
    v != 0 && v & ((v - 1) as u32) == 0
}

/// The smallest power of two that is at least `value`.
///
/// A value above 2^31 has no such power in `u32` (the final addition would
/// overflow), so it is excluded.
pub fn next_power_of_two(value: u32) -> (r: u32)
    requires
        value <= 0x8000_0000,
    ensures
        is_power_of_two(r),
        value <= r,
        r == 1 || r < 2 * value,
{
    if value == 0 {
        assert(is_power_of_two(1u32)) by (bit_vector);
        return 1;
    }
    let v0 = value - 1;
    let v1 = v0 | (v0 >> 1);
    let v2 = v1 | (v1 >> 2);
    let v3 = v2 | (v2 >> 4);
    let v4 = v3 | (v3 >> 8);
    let v5 = v4 | (v4 >> 16);
    assert(v5 < 0xFFFF_FFFF && v5 + 1 != 0 && ((v5 + 1) as u32) & (v5 as u32) == 0
        && value <= v5 + 1 && (v5 + 1 == 1 || v5 + 1 < 2 * value)) by (bit_vector)
        requires
            1 <= value <= 0x8000_0000,
            v0 == value - 1,
            v1 == v0 | (v0 >> 1),
            v2 == v1 | (v1 >> 2),
            v3 == v2 | (v2 >> 4),
            v4 == v3 | (v3 >> 8),
            v5 == v4 | (v4 >> 16),
    ;
    v5 + 1
}

} // verus!
