//! Integer division that rounds toward negative infinity.

use vstd::prelude::*;

verus! {

/// Division rounded toward negative infinity.
pub open spec fn floor_div(a: int, b: int) -> int
    recommends
        b != 0,
{
    if b > 0 {
        a / b
    } else {
        (-a) / (-b)
    }
}

/// Floor division in terms of the quotient and remainder of the magnitudes.
proof fn lemma_floor_div_by_magnitudes(a: int, b: int)
    requires
        b != 0,
    ensures
        ({
            let n = if a >= 0 { a } else { -a };
            let d = if b > 0 { b } else { -b };
            floor_div(a, b) == if (a < 0) != (b < 0) && a != 0 {
                if n % d != 0 { -(n / d) - 1 } else { -(n / d) }
            } else {
                n / d
            }
        }),
{
    let d = if b > 0 { b } else { -b };
    let n = if a >= 0 { a } else { -a };
    vstd::arithmetic::div_mod::lemma_fundamental_div_mod(n, d);
    vstd::arithmetic::div_mod::lemma_mod_pos_bound(n, d);
    let q0 = n / d;
    let r0 = n % d;
    assert(n == q0 * d + r0) by (nonlinear_arith)
        requires
            n == d * q0 + r0,
    ;
    // the numerator that floor_div divides by the positive divisor d
    let m = if b > 0 { a } else { -a };
    if m >= 0 {
        assert(m == n);
    } else {
        assert(m == -n);
        if r0 == 0 {
            assert(m == (-q0) * d + 0) by (nonlinear_arith)
                requires
                    m == -n,
                    n == q0 * d + r0,
                    r0 == 0,
            ;
            vstd::arithmetic::div_mod::lemma_fundamental_div_mod_converse(m, d, -q0, 0);
        } else {
            assert(m == (-q0 - 1) * d + (d - r0)) by (nonlinear_arith)
                requires
                    m == -n,
                    n == q0 * d + r0,
            ;
            vstd::arithmetic::div_mod::lemma_fundamental_div_mod_converse(m, d, -q0 - 1, d - r0);
        }
    }
}

/// Integer division that rounds toward negative infinity.
///
/// A zero divisor is a caller error (the division panics), so it is
/// excluded, as is the single quotient that does not fit an `i32`.
pub fn safe_int_div(dividend: i32, divisor: i32) -> (q: i32)
    requires
        divisor != 0,
        !(dividend == i32::MIN && divisor == -1),
    ensures
        q == floor_div(dividend as int, divisor as int),
{
    proof {
        let x = dividend as int;
        let d = divisor as int;
        let n = if x >= 0 { x } else { -x };
        let e = if d > 0 { d } else { -d };
        assert(x * -1 == -x);
        assert(d * -1 == -d);
        vstd::arithmetic::div_mod::lemma_div_pos_is_pos(n, e);
        vstd::arithmetic::div_mod::lemma_div_is_ordered_by_denominator(n, 1, e);
        vstd::arithmetic::div_mod::lemma_mod_pos_bound(n, e);
        assert(n / 1 == n);
        if e >= 2 {
            vstd::arithmetic::div_mod::lemma_div_is_ordered_by_denominator(n, 2, e);
            assert(n / 2 <= 1073741824);
        }
        assert(n / e <= 2147483647 || (e == 1 && x == i32::MIN));
        assert(0 <= n / e <= n);
        assert(e == 1 && x < 0 && d < 0 ==> x != i32::MIN);
        assert(0 <= n % e < e);
    }
    // truncating quotient and remainder, as `/` and `%` compute them
    let qo = dividend.checked_div(divisor);
    assert(qo is Some);
    let result = qo.unwrap();
    let rem = dividend.checked_rem(divisor).unwrap();
    proof {
        lemma_floor_div_by_magnitudes(dividend as int, divisor as int);
        assert(((dividend ^ divisor) < 0) == ((dividend < 0) != (divisor < 0))) by (bit_vector);
    }
    if (dividend ^ divisor) < 0 && rem != 0 {
        result - 1
    } else {
        result
    }
}

} // verus!
