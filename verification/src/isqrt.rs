//! Integer square root by Newton's iteration, proved to return the floor of
//! the square root.
use vstd::prelude::*;

verus! {

/// `r` is the floor of the square root of `n`.
pub open spec fn is_floor_sqrt(n: int, r: int) -> bool {
    0 <= r && r * r <= n && n < (r + 1) * (r + 1)
}

/// The floor of the square root of a non-negative integer.
pub open spec fn floor_sqrt(n: int) -> int {
    choose|r: int| is_floor_sqrt(n, r)
}

/// `floor_sqrt` is the floor square root.
pub proof fn lemma_floor_sqrt_is(n: int, r: int)
    requires
        n >= 0,
        is_floor_sqrt(n, r),
    ensures
        floor_sqrt(n) == r,
{
    let s = lemma_floor_sqrt_exists(n);
    assert(is_floor_sqrt(n, floor_sqrt(n)));
    lemma_floor_sqrt_unique(n, floor_sqrt(n), r);
}

/// The floor square root is unique.
pub proof fn lemma_floor_sqrt_unique(n: int, r1: int, r2: int)
    requires
        is_floor_sqrt(n, r1),
        is_floor_sqrt(n, r2),
    ensures
        r1 == r2,
{
    if r1 < r2 {
        assert((r1 + 1) * (r1 + 1) <= r2 * r2) by (nonlinear_arith)
            requires 0 <= r1, r1 + 1 <= r2;
    } else if r2 < r1 {
        assert((r2 + 1) * (r2 + 1) <= r1 * r1) by (nonlinear_arith)
            requires 0 <= r2, r2 + 1 <= r1;
    }
}

/// A Newton step never goes below any `s` with `s * s <= n`.
pub proof fn lemma_newton_step_above(n: int, x: int, s: int)
    requires
        x >= 1,
        s >= 0,
        s * s <= n,
    ensures
        (x + n / x) / 2 >= s,
{
    let q = n / x;
    assert(n < x * (q + 1)) by (nonlinear_arith)
        requires x >= 1, q == n / x;
    if x + q <= 2 * s - 1 {
        assert(x * (q + 1) <= x * (2 * s - x)) by (nonlinear_arith)
            requires x >= 1, q + 1 <= 2 * s - x;
        assert(x * (2 * s - x) <= s * s) by (nonlinear_arith);
    }
}

/// When a Newton step does not decrease `x`, then `x * x <= n`.
pub proof fn lemma_newton_stop(n: int, x: int)
    requires
        x >= 1,
        n >= 0,
        (x + n / x) / 2 >= x,
    ensures
        x * x <= n,
{
    let q = n / x;
    assert(q >= x);
    assert(x * q <= n) by (nonlinear_arith)
        requires x >= 1, q == n / x, n >= 0;
    assert(x * x <= x * q) by (nonlinear_arith)
        requires x >= 1, q >= x;
}

/// A Newton step from `1 <= x <= n` stays within `n + 1` before halving.
pub proof fn lemma_newton_no_overflow(n: int, x: int)
    requires
        1 <= x <= n,
    ensures
        x + n / x <= n + 1,
        n / x >= 0,
{
    let q = n / x;
    assert(x * q <= n) by (nonlinear_arith)
        requires x >= 1, q == n / x, n >= 0;
    assert(q >= 0) by (nonlinear_arith)
        requires x >= 1, q == n / x, n >= 0;
    if x + q > n + 1 {
        assert(x * q >= x + q - 1) by (nonlinear_arith)
            requires x >= 1, q >= 1;
    }
}

/// Some `s` with `s * s <= n < (s + 1) * (s + 1)` exists below `n + 1`.
pub proof fn lemma_floor_sqrt_exists(n: int) -> (s: int)
    requires
        n >= 0,
    ensures
        is_floor_sqrt(n, s),
        s <= n,
    decreases n,
{
    if n == 0 {
        0
    } else {
        let t = lemma_floor_sqrt_exists(n - 1);
        assert(t * t <= n - 1 && n - 1 < (t + 1) * (t + 1) && t >= 0);
        if (t + 1) * (t + 1) <= n {
            assert((t + 1) * (t + 1) == n) by (nonlinear_arith)
                requires (t + 1) * (t + 1) <= n, n - 1 < (t + 1) * (t + 1);
            assert(n < (t + 2) * (t + 2)) by (nonlinear_arith)
                requires (t + 1) * (t + 1) == n, t >= 0;
            assert(t + 1 <= n) by (nonlinear_arith)
                requires (t + 1) * (t + 1) == n, t >= 0;
            let r = t + 1;
            assert(r * r <= n);
            assert(n < (r + 1) * (r + 1)) by (nonlinear_arith)
                requires r * r == n, r >= 1;
            r
        } else {
            assert(t * t <= n);
            assert(t <= n) by (nonlinear_arith)
                requires t * t <= n, t >= 0;
            t
        }
    }
}

/// Floor square root of a 64-bit value (the value must be below the maximum,
/// where the first Newton step would overflow).
pub fn integer_sqrt_u64(n: u64) -> (r: u64)
    requires
        n < u64::MAX,
    ensures
        is_floor_sqrt(n as int, r as int),
{
    if n == 0 {
        return 0;
    }
    let ghost s: int = lemma_floor_sqrt_exists(n as int);
    let mut x: u64 = n;
    let x1: u64 = x + 1;
    let mut y: u64 = x1 >> 1;
    proof {
        assert(x1 >> 1 == x1 / 2) by (bit_vector);
        lemma_newton_step_above(n as int, x as int, s);
    }
    proof {
        if s == 0 {
            assert((s + 1) * (s + 1) == 1) by (nonlinear_arith)
                requires s == 0;
            assert(false);
        }
    }
    while y < x
        invariant
            1 <= x <= n,
            y as int == (x as int + n as int / x as int) / 2,
            x >= s,
            y >= s,
            is_floor_sqrt(n as int, s),
            s >= 1,
            n < u64::MAX,
        decreases x,
    {
        x = y;
        proof {
            lemma_newton_no_overflow(n as int, x as int);
            lemma_newton_step_above(n as int, x as int, s);
            assert(x as int + n as int / x as int <= n as int + 1);
        }
        let q: u64 = n / x;
        assert(q as int == n as int / x as int);
        let t: u64 = x + q;
        y = t >> 1;
        proof {
            assert(t >> 1 == t / 2) by (bit_vector);
        }
    }
    proof {
        lemma_newton_stop(n as int, x as int);
        assert(x as int * x as int <= n);
        if x > s {
            assert((s + 1) * (s + 1) <= x as int * x as int) by (nonlinear_arith)
                requires s + 1 <= x, s >= 0;
        }
    }
    x
}

/// Floor square root of a 128-bit value (Babylonian method), by the same
/// iteration.
pub fn integer_sqrt(n: u128) -> (r: u128)
    requires
        n < u128::MAX,
    ensures
        is_floor_sqrt(n as int, r as int),
{
    if n == 0 {
        return 0;
    }
    let ghost s: int = lemma_floor_sqrt_exists(n as int);
    let mut x: u128 = n;
    let mut y: u128 = (x + 1) / 2;
    proof {
        lemma_newton_step_above(n as int, x as int, s);
    }
    proof {
        if s == 0 {
            assert((s + 1) * (s + 1) == 1) by (nonlinear_arith)
                requires s == 0;
            assert(false);
        }
    }
    while y < x
        invariant
            1 <= x <= n,
            y as int == (x as int + n as int / x as int) / 2,
            x >= s,
            y >= s,
            is_floor_sqrt(n as int, s),
            s >= 1,
            n < u128::MAX,
        decreases x,
    {
        x = y;
        proof {
            lemma_newton_no_overflow(n as int, x as int);
            lemma_newton_step_above(n as int, x as int, s);
            assert(x as int + n as int / x as int <= n as int + 1);
        }
        let q: u128 = n / x;
        assert(q as int == n as int / x as int);
        y = (x + q) / 2;
    }
    proof {
        lemma_newton_stop(n as int, x as int);
        if x > s {
            assert((s + 1) * (s + 1) <= x as int * x as int) by (nonlinear_arith)
                requires s + 1 <= x, s >= 0;
        }
    }
    x
}

} // verus!
