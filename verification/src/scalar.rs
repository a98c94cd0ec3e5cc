use vstd::prelude::*;

verus! {

/// Whether a single precision bit pattern holds a finite value that is at
/// least zero: positive zero through the largest finite value, or negative
/// zero.
pub open spec fn nonneg_finite_bits(b: u32) -> bool {
    b < 0x7F80_0000 || b == 0x8000_0000
}

/// The smaller of two integers.
pub fn min_int(a: i32, b: i32) -> (r: i32)
    ensures
        r == if a < b { a } else { b },
        r <= a && r <= b,
        r == a || r == b,
{
    if a < b {
        a
    } else {
        b
    }
}

/// The larger of two integers.
pub fn max_int(a: i32, b: i32) -> (r: i32)
    ensures
        r == if a > b { a } else { b },
        r >= a && r >= b,
        r == a || r == b,
{
    if a > b {
        a
    } else {
        b
    }
}

/// The absolute value of an integer. `i32::MIN` has no positive
/// counterpart in `i32`, so it is not accepted.
pub fn abs_int(a: i32) -> (r: i32)
    requires
        a != i32::MIN,
    ensures
        r == if a < 0 { -a } else { a as int },
        r >= 0,
{
    if a < 0 {
        -a
    } else {
        a
    }
}

/// `a` clamped between a lower and an upper bound; the lower bound is
/// tested first.
pub fn clamp_int(a: i32, lower: i32, upper: i32) -> (r: i32)
    ensures
        r == if a < lower {
            lower
        } else if a > upper {
            upper
        } else {
            a
        },
        lower <= upper ==> lower <= r <= upper,
        lower <= a <= upper ==> r == a,
{
    if a < lower {
        lower
    } else if a > upper {
        upper
    } else {
        a
    }
}

/// Integer division rounded up, for a non-negative numerator and a
/// positive denominator.
pub fn ceiling_int(numerator: i32, denominator: i32) -> (r: i32)
    requires
        denominator > 0,
        numerator >= 0,
        numerator + denominator <= i32::MAX,
    ensures
        r == (numerator + denominator - 1) / (denominator as int),
        r * denominator >= numerator,
        (r - 1) * denominator < numerator,
{
    let r = (numerator + denominator - 1) / denominator;
    proof {
        let n = numerator as int;
        let d = denominator as int;
        let q = (n + d - 1) / d;
        assert(q * d <= n + d - 1 < q * d + d) by (nonlinear_arith)
            requires
                d > 0,
                q == (n + d - 1) / d,
        ;
        assert(q * d >= n) by (nonlinear_arith)
            requires
                q * d + d > n + d - 1,
        ;
        assert((q - 1) * d < n) by (nonlinear_arith)
            requires
                q * d <= n + d - 1,
        ;
    }
    r
}

} // verus!
