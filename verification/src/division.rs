//! Division of 256-bit values.

use vstd::prelude::*;
use vstd::arithmetic::div_mod::lemma_fundamental_div_mod_converse;
use vstd::arithmetic::power2::{pow2, lemma2_to64, lemma_pow2_adds, lemma_pow2_unfold, lemma_pow2_strictly_increases};
use crate::error::ArithmeticError;
use crate::outcome::outcome_value;
use crate::uint256::{U256, limb_base, limb_base_2, limb_base_3, modulus};

verus! {

const LIMB_BASE: u128 = 0x1_0000_0000_0000_0000;

/// The product of two numbers whose values are known.
proof fn lemma_mul_known(a: nat, b: nat, x: nat, y: nat)
    by (nonlinear_arith)
    requires
        a == x,
        b == y,
    ensures
        a * b == x * y,
{
}

/// 2^256 is the modulus, and twice 2^255.
proof fn lemma_pow2_modulus()
    ensures
        pow2(256) == modulus(),
        2 * pow2(255) == modulus(),
{
    lemma2_to64();
    lemma_pow2_adds(64, 64);
    lemma_mul_known(pow2(64), pow2(64), limb_base(), limb_base());
    assert(pow2(128) == limb_base_2());
    lemma_pow2_adds(128, 64);
    lemma_mul_known(pow2(128), pow2(64), limb_base_2(), limb_base());
    assert(pow2(192) == limb_base_3());
    lemma_pow2_adds(192, 64);
    lemma_mul_known(pow2(192), pow2(64), limb_base_3(), limb_base());
    lemma_pow2_unfold(256);
}

/// One step of long division in base two: the next bit of the dividend is
/// brought down, and the quotient gets the next bit.
proof fn lemma_division_step(
    dividend: nat,
    weight: nat,
    top: nat,
    rest: nat,
    rest2: nat,
    bit: nat,
    quotient: nat,
    remainder: nat,
    divisor: nat,
    taken: nat,
)
    by (nonlinear_arith)
    requires
        dividend * weight == top * modulus() + rest,
        2 * rest == bit * modulus() + rest2,
        top == quotient * divisor + remainder,
        taken <= 1,
    ensures
        dividend * (2 * weight) == (2 * top + bit) * modulus() + rest2,
        2 * top + bit == (2 * quotient + taken) * divisor + ((2 * remainder + bit) - taken
            * divisor),
        divisor >= 1 ==> quotient <= top,
{
}

/// The quotient, rounded down, or the fault where the divisor is zero.
pub open spec fn checked_quotient(a: nat, b: nat) -> Result<nat, ArithmeticError> {
    if b == 0 {
        Err(ArithmeticError::DivisionByZero)
    } else {
        Ok(a / b)
    }
}

impl U256 {
    /// The quotient and the remainder of a division by a divisor that is not zero.
    pub(crate) fn div_rem(self, divisor: U256) -> (r: (U256, U256))
        requires
            divisor@ != 0,
        ensures
            r.0@ == self@ / divisor@,
            r.1@ == self@ % divisor@,
    {
        if self.0[2] == 0 && self.0[3] == 0 && divisor.0[2] == 0 && divisor.0[3] == 0 {
            let n: u128 = self.0[0] as u128 + self.0[1] as u128 * LIMB_BASE;
            let d: u128 = divisor.0[0] as u128 + divisor.0[1] as u128 * LIMB_BASE;
            let q: u128 = n / d;
            let m: u128 = n % d;
            return (
                U256([(q % LIMB_BASE) as u64, (q / LIMB_BASE) as u64, 0, 0]),
                U256([(m % LIMB_BASE) as u64, (m / LIMB_BASE) as u64, 0, 0]),
            );
        }
        let mut quotient = U256::zero();
        let mut remainder = U256::zero();
        let mut rest = self;
        let ghost mut top: nat = 0;
        let mut i: u32 = 0;
        proof {
            lemma2_to64();
            lemma_pow2_modulus();
        }
        while i < 256
            invariant
                i <= 256,
                divisor@ != 0,
                self@ * pow2(i as nat) == top * modulus() + rest@,
                top == quotient@ * divisor@ + remainder@,
                remainder@ < divisor@,
                top < pow2(i as nat),
                pow2(256) == modulus(),
                2 * pow2(255) == modulus(),
            decreases 256 - i,
        {
            let (rest2, bit): (U256, bool) = rest.overflowing_add(rest);
            let (doubled, carry): (U256, bool) = remainder.carrying_add(remainder, bit);
            let (reduced, borrow): (U256, bool) = doubled.overflowing_sub(divisor);
            let fits = carry || !borrow;
            proof {
                let b: nat = if bit { 1 } else { 0 };
                let t: nat = if fits { 1 } else { 0 };
                lemma_division_step(
                    self@,
                    pow2(i as nat),
                    top,
                    rest@,
                    rest2@,
                    b,
                    quotient@,
                    remainder@,
                    divisor@,
                    t,
                );
                lemma_pow2_unfold((i + 1) as nat);
                if i < 255 {
                    lemma_pow2_strictly_increases(i as nat, 255);
                }
                assert(2 * quotient@ + 1 < modulus());
            }
            let (quotient2, _quotient_carry): (U256, bool) = quotient.carrying_add(quotient, fits);
            quotient = quotient2;
            if fits {
                remainder = reduced;
            } else {
                remainder = doubled;
            }
            rest = rest2;
            proof {
                top = 2 * top + (if bit { 1nat } else { 0 });
            }
            i = i + 1;
        }
        proof {
            assert(self@ * modulus() == top * modulus() + rest@);
            assert(top == self@) by (nonlinear_arith)
                requires
                    self@ * modulus() == top * modulus() + rest@,
                    rest@ < modulus(),
                    modulus() > 0,
            ;
            lemma_fundamental_div_mod_converse(
                self@ as int,
                divisor@ as int,
                quotient@ as int,
                remainder@ as int,
            );
        }
        (quotient, remainder)
    }

    /// The quotient, rounded down, or `DivisionByZero` where the divisor is zero.
    pub fn div(self, rhs: U256) -> (r: Result<U256, ArithmeticError>)
        ensures
            outcome_value(r) == checked_quotient(self@, rhs@),
    {
        if rhs.is_zero() {
            Err(ArithmeticError::DivisionByZero)
        } else {
            Ok(self.div_rem(rhs).0)
        }
    }
}

} // verus!
