use vstd::prelude::*;

use crate::engine::StakingContract;

verus! {

/// Smallest amount one stake may add; also the unit in which boost is measured.
pub const MIN_STAKE: i128 = 1_000_0000;

/// Largest boost, in percentage points.
pub const MAX_BOOST: u32 = 200;

/// `r` is the integer square root of `n`: the largest integer whose square is at most `n`.
pub open spec fn is_floor_sqrt(n: int, r: int) -> bool {
    0 <= r && r * r <= n && n < (r + 1) * (r + 1)
}

/// The integer square root of `n` (0 for `n <= 0`).
pub open spec fn floor_sqrt(n: int) -> int
    decreases n,
{
    if n <= 0 {
        0
    } else {
        let r = floor_sqrt(n - 1);
        if (r + 1) * (r + 1) <= n {
            r + 1
        } else {
            r
        }
    }
}

/// `floor_sqrt` is the integer square root.
pub proof fn lemma_floor_sqrt(n: int)
    requires
        n >= 0,
    ensures
        is_floor_sqrt(n, floor_sqrt(n)),
    decreases n,
{
    if n > 0 {
        lemma_floor_sqrt(n - 1);
        let r = floor_sqrt(n - 1);
        assert((r + 1) * (r + 1) < (r + 2) * (r + 2)) by (nonlinear_arith)
            requires
                r >= 0,
        ;
    }
}

/// Only one integer is the integer square root of `n`.
pub proof fn lemma_floor_sqrt_unique(n: int, r: int)
    requires
        is_floor_sqrt(n, r),
    ensures
        r == floor_sqrt(n),
{
    lemma_floor_sqrt(n);
    let s = floor_sqrt(n);
    if r < s {
        assert((r + 1) * (r + 1) <= s * s) by (nonlinear_arith)
            requires
                0 <= r + 1 <= s,
        ;
    } else if s < r {
        assert((s + 1) * (s + 1) <= r * r) by (nonlinear_arith)
            requires
                0 <= s + 1 <= r,
        ;
    }
}

/// The integer square root of a number at least `k * k` is at least `k`.
pub proof fn lemma_floor_sqrt_at_least(n: int, k: int)
    requires
        k >= 0,
        k * k <= n,
    ensures
        floor_sqrt(n) >= k,
{
    lemma_floor_sqrt(n);
    let s = floor_sqrt(n);
    if s < k {
        assert((s + 1) * (s + 1) <= k * k) by (nonlinear_arith)
            requires
                0 <= s + 1 <= k,
        ;
    }
}

/// One Newton step from any positive guess never falls below the integer square root.
proof fn lemma_newton_step(n: int, x: int)
    requires
        n >= 1,
        x >= 1,
    ensures
        (x + n / x) / 2 >= floor_sqrt(n),
{
    lemma_floor_sqrt(n);
    let s = floor_sqrt(n);
    let q = n / x;
    vstd::arithmetic::div_mod::lemma_fundamental_div_mod(n, x);
    let m = n % x;
    assert(0 <= m < x);
    assert(x * (2 * s - x) <= n) by (nonlinear_arith)
        requires
            s * s <= n,
    ;
    assert(n < x * (q + 1)) by (nonlinear_arith)
        requires
            n == x * q + m,
            m < x,
    ;
    assert(2 * s - x < q + 1) by (nonlinear_arith)
        requires
            x * (2 * s - x) < x * (q + 1),
            x >= 1,
    ;
}

/// A guess whose Newton step does not go lower has a square at most `n`.
proof fn lemma_newton_stops(n: int, x: int)
    requires
        n >= 1,
        x >= 1,
        (x + n / x) / 2 >= x,
    ensures
        x * x <= n,
{
    if x * x > n {
        vstd::arithmetic::div_mod::lemma_div_is_ordered(n, x * x - 1, x);
        assert((x * x - 1) / x == x - 1) by {
            assert(x * x - 1 == (x - 1) * x + (x - 1)) by (nonlinear_arith);
            vstd::arithmetic::div_mod::lemma_fundamental_div_mod_converse(x * x - 1, x, x - 1, x - 1);
        }
    }
}

impl StakingContract {
    /// Integer square root by Newton's method: the largest `r` with `r * r <= n`.
    pub fn isqrt(n: u64) -> (r: u64)
        ensures
            r as int == floor_sqrt(n as int),
    {
        if n == 0 {
            return 0;
        }
        let mut x: u64 = n;
        let mut y: u64 = ((n as u128 + 1) / 2) as u64;
        proof {
            vstd::arithmetic::div_mod::lemma_div_basics(n as int);
            lemma_floor_sqrt(n as int);
            assert(floor_sqrt(n as int) <= n) by (nonlinear_arith)
                requires
                    floor_sqrt(n as int) * floor_sqrt(n as int) <= n,
                    floor_sqrt(n as int) >= 0,
            ;
        }
        while y < x
            invariant
                1 <= x <= n,
                floor_sqrt(n as int) <= x,
                y as int == (x + n as int / x as int) / 2,
            decreases x,
        {
            proof {
                lemma_newton_step(n as int, x as int);
                lemma_floor_sqrt(n as int);
                assert(floor_sqrt(n as int) >= 1) by {
                    lemma_floor_sqrt_at_least(n as int, 1);
                }
            }
            x = y;
            let q: u64 = n / x;
            y = ((x as u128 + q as u128) / 2) as u64;
        }
        proof {
            lemma_newton_stops(n as int, x as int);
            lemma_floor_sqrt(n as int);
            let s = floor_sqrt(n as int);
            if x as int > s {
                assert((s + 1) * (s + 1) <= x * x) by (nonlinear_arith)
                    requires
                        0 <= s + 1 <= x,
                ;
            }
            lemma_floor_sqrt_unique(n as int, x as int);
        }
        x
    }
}

/// Boost earned by a principal: ten points per unit of the integer square root of how
/// many minimum stakes it holds, capped at `MAX_BOOST`; none for an empty stake.
pub open spec fn boost_of(principal: int) -> int {
    if principal <= 0 {
        0
    } else {
        let points = floor_sqrt(principal / (MIN_STAKE as int)) * 10;
        if points < MAX_BOOST {
            points
        } else {
            MAX_BOOST as int
        }
    }
}

/// Boost, in percentage points, that an unslashed stake of `principal` earns.
pub fn boost_for_principal(principal: i128) -> (r: u32)
    ensures
        r as int == boost_of(principal as int),
{
    if principal <= 0 {
        return 0;
    }
    let ratio: i128 = principal / MIN_STAKE;
    let clamped: u64 = if ratio > u64::MAX as i128 {
        u64::MAX
    } else {
        ratio as u64
    };
    let root = StakingContract::isqrt(clamped);
    proof {
        if ratio > u64::MAX as i128 {
            lemma_floor_sqrt_at_least(ratio as int, 20);
            lemma_floor_sqrt_at_least(clamped as int, 20);
        }
    }
    match root.checked_mul(10) {
        Some(points) => {
            if points < MAX_BOOST as u64 {
                points as u32
            } else {
                MAX_BOOST
            }
        },
        None => MAX_BOOST,
    }
}

} // verus!
