//! The integer square root of a 256-bit value, by Newton's iteration.

use vstd::prelude::*;
use vstd::arithmetic::div_mod::{lemma_fundamental_div_mod, lemma_mod_bound, lemma_div_is_ordered_by_denominator};
use crate::uint256::{U256, max_value};

verus! {

/// `root` is the square root of `n` rounded down: the largest number whose
/// square is at most `n`.
pub open spec fn is_floor_sqrt(n: nat, root: nat) -> bool {
    root * root <= n && n < (root + 1) * (root + 1)
}

/// The square root of `n`, rounded down.
pub open spec fn floor_sqrt(n: nat) -> nat {
    choose|root: nat| is_floor_sqrt(n, root)
}

/// A number has at most one rounded-down square root.
pub proof fn lemma_floor_sqrt_unique(n: nat, a: nat, b: nat)
    by (nonlinear_arith)
    requires
        is_floor_sqrt(n, a),
        is_floor_sqrt(n, b),
    ensures
        a == b,
{
    if a < b {
        assert((a + 1) * (a + 1) <= b * b);
    } else if b < a {
        assert((b + 1) * (b + 1) <= a * a);
    }
}

/// Every number has a rounded-down square root, and `floor_sqrt` names it:
/// `floor_sqrt(n)^2 <= n < (floor_sqrt(n) + 1)^2`, and `floor_sqrt(0)` is 0.
pub proof fn lemma_floor_sqrt_exists(n: nat)
    ensures
        is_floor_sqrt(n, floor_sqrt(n)),
        n == 0 ==> floor_sqrt(n) == 0,
    decreases n,
{
    if n == 0 {
        assert(is_floor_sqrt(0, 0)) by (nonlinear_arith);
        lemma_floor_sqrt_unique(0, floor_sqrt(0), 0);
    } else {
        lemma_floor_sqrt_exists((n - 1) as nat);
        let below = floor_sqrt((n - 1) as nat);
        if (below + 1) * (below + 1) <= n {
            assert(is_floor_sqrt(n, below + 1)) by (nonlinear_arith)
                requires
                    (below + 1) * (below + 1) <= n,
                    n - 1 < (below + 1) * (below + 1),
            ;
        } else {
            assert(is_floor_sqrt(n, below));
        }
    }
}

/// A rounded-down square root of `n` is the one that `floor_sqrt` names.
pub proof fn lemma_floor_sqrt_is(n: nat, root: nat)
    requires
        is_floor_sqrt(n, root),
    ensures
        floor_sqrt(n) == root,
{
    lemma_floor_sqrt_unique(n, floor_sqrt(n), root);
}

/// The mean of `x` and `n / x`, rounded down, is never below the root of `n`.
proof fn lemma_newton_step_stays_above(n: nat, x: nat, q: nat, y: nat)
    by (nonlinear_arith)
    requires
        x >= 1,
        n < x * (q + 1),
        2 * y <= x + q,
        x + q <= 2 * y + 1,
    ensures
        n < (y + 1) * (y + 1),
{
    assert((x + q + 1) * (x + q + 1) >= 4 * (x * (q + 1))) by {
        assert((x - (q + 1)) * (x - (q + 1)) >= 0);
    }
    assert(4 * ((y + 1) * (y + 1)) >= (x + q + 1) * (x + q + 1)) by {
        assert(2 * (y + 1) >= x + q + 1);
    }
}

/// Where the mean of `x` and `n / x` is not below `x`, the square of `x` is at most `n`.
proof fn lemma_newton_fixpoint(n: nat, x: nat, q: nat, y: nat)
    by (nonlinear_arith)
    requires
        x * q <= n,
        x + q <= 2 * y + 1,
        2 * y <= x + q,
        y >= x,
    ensures
        x * x <= n,
{
    assert(q >= x);
    assert(x * q >= x * x);
}

/// `n / x` as a quotient: `x * (n / x) <= n < x * (n / x + 1)`.
proof fn lemma_quotient_bounds(n: nat, x: nat)
    requires
        x >= 1,
    ensures
        x * (n / x) <= n,
        n < x * (n / x + 1),
{
    lemma_fundamental_div_mod(n as int, x as int);
    lemma_mod_bound(n as int, x as int);
    assert(x * (n / x + 1) == x * (n / x) + x) by (nonlinear_arith);
}

/// The sum that Newton's step forms fits in 256 bits.
proof fn lemma_newton_sum_fits(n: nat, x: nat)
    requires
        n <= max_value(),
        x >= 1,
        2 * x <= max_value() + 1,
        n < (x + 1) * (x + 1),
    ensures
        x + n / x <= max_value(),
{
    if x == 1 {
        assert((x + 1) * (x + 1) == 4) by (nonlinear_arith)
            requires
                x == 1,
        ;
        assert(n / x == n) by (nonlinear_arith)
            requires
                x == 1,
        ;
    } else {
        lemma_div_is_ordered_by_denominator(n as int, 2, x as int);
    }
}

/// The square root of `value`, rounded down.
///
/// Newton's iteration from `value` itself: each step replaces the estimate
/// by the mean of the estimate and `value` divided by it, and the first
/// estimate that does not shrink is the root.
pub fn isqrt(value: U256) -> (root: U256)
    ensures
        is_floor_sqrt(value@, root@),
        root@ == floor_sqrt(value@),
        value@ == 0 ==> root@ == 0,
{
    if value.is_zero() {
        proof {
            assert(is_floor_sqrt(0, 0)) by (nonlinear_arith);
            lemma_floor_sqrt_is(0, 0);
        }
        return U256::zero();
    }
    let mut x = value;
    let (first, _carry): (U256, bool) = value.halve().carrying_add(U256::zero(), value.is_odd());
    let mut y = first;
    proof {
        assert(value@ / value@ == 1) by (nonlinear_arith)
            requires
                value@ >= 1,
        ;
        assert((value@ + 1) * (value@ + 1) > value@) by (nonlinear_arith);
    }
    while y < x
        invariant
            value@ >= 1,
            x@ >= 1,
            value@ < (x@ + 1) * (x@ + 1),
            y@ == (x@ + value@ / x@) / 2,
            2 * y@ <= max_value() + 1,
        decreases x@,
    {
        proof {
            lemma_quotient_bounds(value@, x@);
            lemma_newton_step_stays_above(value@, x@, value@ / x@, y@);
            if x@ == 1 {
                assert(value@ / x@ == value@) by (nonlinear_arith)
                    requires
                        x@ == 1,
                ;
            }
            lemma_newton_sum_fits(value@, y@);
        }
        x = y;
        let (quotient, _remainder): (U256, U256) = value.div_rem(x);
        let (sum, _overflow): (U256, bool) = x.overflowing_add(quotient);
        y = sum.halve();
    }
    proof {
        lemma_quotient_bounds(value@, x@);
        lemma_newton_fixpoint(value@, x@, value@ / x@, y@);
        lemma_floor_sqrt_is(value@, x@);
    }
    x
}

} // verus!
