//! Exact integer building blocks for the fixed-point arithmetic of the
//! engine: truncating division by a positive divisor, Euclidean remainder
//! (used for toroidal wraparound), saturation, and the integer square root.

use vstd::prelude::*;

verus! {

/// Truncating (round-toward-zero) division of `a` by a positive `b`:
/// the semantics of Rust's `/` on signed integers.
pub open spec fn div_tz(a: int, b: int) -> int
    recommends
        b >= 1,
{
    if a >= 0 {
        a / b
    } else {
        -((-a) / b)
    }
}

/// `v` saturated into `[-lim, lim]`.
pub open spec fn sat_spec(v: int, lim: int) -> int
    recommends
        lim >= 0,
{
    if v > lim {
        lim
    } else if v < -lim {
        -lim
    } else {
        v
    }
}

/// `r` is the integer square root of `n` rounded down.
pub open spec fn is_sqrt_floor(n: int, r: int) -> bool {
    0 <= r && r * r <= n && n < (r + 1) * (r + 1)
}

/// The integer square root of `n` rounded down (meaningful for `n >= 0`).
pub open spec fn sqrt_floor(n: int) -> int {
    choose|r: int| is_sqrt_floor(n, r)
}

/// At most one integer satisfies `is_sqrt_floor(n, _)`, so `sqrt_floor`
/// returns exactly the witness.
pub proof fn lemma_sqrt_floor_unique(n: int, r: int)
    requires
        is_sqrt_floor(n, r),
    ensures
        sqrt_floor(n) == r,
{
    let s = sqrt_floor(n);
    assert(is_sqrt_floor(n, s));
    assert(s == r) by (nonlinear_arith)
        requires
            is_sqrt_floor(n, s) && is_sqrt_floor(n, r);
}

/// Every nonnegative integer has an integer square root, so `sqrt_floor`
/// satisfies its characterization.
pub proof fn lemma_sqrt_floor_exists(n: int)
    requires
        n >= 0,
    ensures
        is_sqrt_floor(n, sqrt_floor(n)),
    decreases n,
{
    if n == 0 {
        assert(is_sqrt_floor(0, 0));
    } else {
        lemma_sqrt_floor_exists(n - 1);
        let r = sqrt_floor(n - 1);
        if n < (r + 1) * (r + 1) {
            assert(is_sqrt_floor(n, r));
        } else {
            assert(is_sqrt_floor(n, r + 1)) by (nonlinear_arith)
                requires
                    n == (r + 1) * (r + 1) && r >= 0;
        }
        assert(exists|s: int| is_sqrt_floor(n, s));
    }
}

/// Truncating division, computed through unsigned division.
pub fn div_fix(a: i64, b: i64) -> (r: i64)
    requires
        b >= 1,
        a > i64::MIN,
    ensures
        r == div_tz(a as int, b as int),
{
    if a >= 0 {
        ((a as u64) / (b as u64)) as i64
    } else {
        proof {
            vstd::arithmetic::div_mod::lemma_div_nonincreasing((-a) as int, b as int);
            vstd::arithmetic::div_mod::lemma_div_pos_is_pos((-a) as int, b as int);
        }
        -((((-a) as u64) / (b as u64)) as i64)
    }
}

/// Euclidean remainder of `a` modulo a positive `m`: always in `[0, m)`.
/// This is the wraparound operation of the toroidal universe.
pub fn emod_fix(a: i64, m: i64) -> (r: i64)
    requires
        m >= 1,
        a > i64::MIN,
    ensures
        r == a as int % m as int,
        0 <= r < m,
{
    proof {
        vstd::arithmetic::div_mod::lemma_mod_division_less_than_divisor(a as int, m as int);
    }
    if a >= 0 {
        ((a as u64) % (m as u64)) as i64
    } else {
        let r: u64 = ((-a) as u64) % (m as u64);
        proof {
            let x = (-a) as int;
            let mi = m as int;
            vstd::arithmetic::div_mod::lemma_fundamental_div_mod(x, mi);
            vstd::arithmetic::div_mod::lemma_mod_division_less_than_divisor(x, mi);
            if r == 0 {
                assert(a as int == (-(x / mi)) * mi + 0) by (nonlinear_arith)
                    requires
                        x == (x / mi) * mi + x % mi && x % mi == 0 && a as int == -x;
                vstd::arithmetic::div_mod::lemma_fundamental_div_mod_converse_mod(
                    a as int,
                    mi,
                    -(x / mi),
                    0,
                );
            } else {
                assert(a as int == (-(x / mi) - 1) * mi + (mi - x % mi)) by (nonlinear_arith)
                    requires
                        x == (x / mi) * mi + x % mi && a as int == -x;
                vstd::arithmetic::div_mod::lemma_fundamental_div_mod_converse_mod(
                    a as int,
                    mi,
                    -(x / mi) - 1,
                    mi - x % mi,
                );
            }
        }
        if r == 0 {
            0
        } else {
            m - (r as i64)
        }
    }
}

/// Saturation of `v` into `[-lim, lim]`.
pub fn sat_fix(v: i64, lim: i64) -> (r: i64)
    requires
        lim >= 0,
    ensures
        r == sat_spec(v as int, lim as int),
        -lim <= r <= lim,
{
    if v > lim {
        lim
    } else if v < -lim {
        -lim
    } else {
        v
    }
}

/// Integer square root by binary search.
pub fn isqrt_fix(n: u64) -> (r: u64)
    ensures
        is_sqrt_floor(n as int, r as int),
        r == sqrt_floor(n as int),
{
    let mut lo: u64 = 0;
    let mut hi: u64 = 4294967296;
    proof {
        assert((4294967296int) * (4294967296int) > n as int) by (nonlinear_arith)
            requires
                n < 18446744073709551616int;
    }
    while lo + 1 < hi
        invariant
            lo < hi <= 4294967296,
            lo * lo <= n as int,
            (n as int) < hi * hi,
        decreases hi - lo,
    {
        let mid: u64 = lo + (hi - lo) / 2;
        assert(lo < mid < hi);
        proof {
            assert((mid as int) * (mid as int) < 18446744073709551616int) by (nonlinear_arith)
                requires
                    mid < 4294967296int;
        }
        if mid * mid <= n {
            lo = mid;
        } else {
            hi = mid;
        }
    }
    proof {
        lemma_sqrt_floor_unique(n as int, lo as int);
    }
    lo
}

} // verus!
