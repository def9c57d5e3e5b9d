//! Addition, subtraction and multiplication of 256-bit values, limb by limb.

use vstd::prelude::*;
use vstd::arithmetic::mul::{lemma_mul_is_commutative, lemma_mul_nonnegative};
use crate::error::ArithmeticError;
use crate::outcome::outcome_value;
use crate::uint256::{U256, limb_base, limb_base_2, limb_base_3, modulus, max_value};

verus! {

const LIMB_BASE: u128 = 0x1_0000_0000_0000_0000;

const TOP_BIT: u64 = 0x8000_0000_0000_0000;

/// Adds two limbs and a carry; gives the low limb of the sum and the carry out.
fn add_limbs(a: u64, b: u64, carry: u64) -> (r: (u64, u64))
    requires
        carry <= 1,
    ensures
        r.0 + r.1 * limb_base() == a + b + carry,
        r.1 <= 1,
{
    let wide: u128 = a as u128 + b as u128 + carry as u128;
    ((wide % LIMB_BASE) as u64, (wide / LIMB_BASE) as u64)
}

/// Subtracts a limb and a borrow from a limb; gives the low limb of the
/// difference and the borrow out.
fn sub_limbs(a: u64, b: u64, borrow: u64) -> (r: (u64, u64))
    requires
        borrow <= 1,
    ensures
        r.0 - r.1 * limb_base() == a - b - borrow,
        r.1 <= 1,
{
    let wide: u128 = LIMB_BASE + a as u128 - b as u128 - borrow as u128;
    ((wide % LIMB_BASE) as u64, 1 - (wide / LIMB_BASE) as u64)
}

/// Multiplies two limbs and adds a carry; gives the low and the high limb.
fn mul_limbs(a: u64, b: u64, carry: u64) -> (r: (u64, u64))
    ensures
        r.0 + r.1 * limb_base() == a * b + carry,
{
    assert(a * b <= 0xffff_ffff_ffff_ffff * 0xffff_ffff_ffff_ffff) by (nonlinear_arith)
        requires
            a <= 0xffff_ffff_ffff_ffff,
            b <= 0xffff_ffff_ffff_ffff,
    ;
    let wide: u128 = a as u128 * b as u128 + carry as u128;
    ((wide % LIMB_BASE) as u64, (wide / LIMB_BASE) as u64)
}

/// `(a * b) * m` is `(a * m) * b`.
proof fn lemma_mul_swap(a: int, b: int, m: int)
    by (nonlinear_arith)
    ensures
        (a * b) * m == (a * m) * b,
{
}

/// A product distributes over a sum of four terms.
proof fn lemma_mul_distributes4(t0: int, t1: int, t2: int, t3: int, m: int)
    by (nonlinear_arith)
    ensures
        (t0 + t1 + t2 + t3) * m == t0 * m + t1 * m + t2 * m + t3 * m,
{
}

/// A product distributes over the digits of a number.
proof fn lemma_scale_digits(a0: int, a1: int, a2: int, a3: int, b1: int, b2: int, b3: int, m: int)
    ensures
        (a0 + a1 * b1 + a2 * b2 + a3 * b3) * m == a0 * m + (a1 * m) * b1 + (a2 * m) * b2 + (a3 * m)
            * b3,
{
    lemma_mul_distributes4(a0, a1 * b1, a2 * b2, a3 * b3, m);
    lemma_mul_swap(a1, b1, m);
    lemma_mul_swap(a2, b2, m);
    lemma_mul_swap(a3, b3, m);
}

/// The sum, or the overflow where it does not fit in 256 bits.
pub open spec fn checked_sum(a: nat, b: nat) -> Result<nat, ArithmeticError> {
    if a + b > max_value() {
        Err(ArithmeticError::ArithmeticOverflow)
    } else {
        Ok(a + b)
    }
}

/// The product, or the overflow where it does not fit in 256 bits.
pub open spec fn checked_product(a: nat, b: nat) -> Result<nat, ArithmeticError> {
    if a * b > max_value() {
        Err(ArithmeticError::ArithmeticOverflow)
    } else {
        Ok(a * b)
    }
}

/// What is left of `a - b` where it is not negative, and zero where it is.
pub open spec fn saturating_difference(a: nat, b: nat) -> nat {
    if a >= b {
        (a - b) as nat
    } else {
        0
    }
}

impl U256 {
    /// The sum with a carry in, modulo 2^256, and whether a carry left the top limb.
    pub fn carrying_add(self, rhs: U256, carry: bool) -> (r: (U256, bool))
        ensures
            r.0@ + (if r.1 { modulus() } else { 0 }) == self@ + rhs@ + (if carry { 1nat } else { 0 }),
    {
        let c: u64 = if carry { 1 } else { 0 };
        let (s0, c0): (u64, u64) = add_limbs(self.0[0], rhs.0[0], c);
        let (s1, c1): (u64, u64) = add_limbs(self.0[1], rhs.0[1], c0);
        let (s2, c2): (u64, u64) = add_limbs(self.0[2], rhs.0[2], c1);
        let (s3, c3): (u64, u64) = add_limbs(self.0[3], rhs.0[3], c2);
        (U256([s0, s1, s2, s3]), c3 == 1)
    }

    /// The sum modulo 2^256, and whether a carry left the top limb.
    pub fn overflowing_add(self, rhs: U256) -> (r: (U256, bool))
        ensures
            r.0@ + (if r.1 { modulus() } else { 0 }) == self@ + rhs@,
            r.1 == (self@ + rhs@ > max_value()),
    {
        self.carrying_add(rhs, false)
    }

    /// The difference modulo 2^256, and whether the top limb had to borrow.
    pub fn overflowing_sub(self, rhs: U256) -> (r: (U256, bool))
        ensures
            r.0@ - (if r.1 { modulus() } else { 0 }) == self@ - rhs@,
            r.1 == (self@ < rhs@),
    {
        let (d0, b0): (u64, u64) = sub_limbs(self.0[0], rhs.0[0], 0);
        let (d1, b1): (u64, u64) = sub_limbs(self.0[1], rhs.0[1], b0);
        let (d2, b2): (u64, u64) = sub_limbs(self.0[2], rhs.0[2], b1);
        let (d3, b3): (u64, u64) = sub_limbs(self.0[3], rhs.0[3], b2);
        (U256([d0, d1, d2, d3]), b3 == 1)
    }

    /// The sum, or `ArithmeticOverflow` where it does not fit in 256 bits.
    pub fn add(self, rhs: U256) -> (r: Result<U256, ArithmeticError>)
        ensures
            outcome_value(r) == checked_sum(self@, rhs@),
    {
        let (sum, carry): (U256, bool) = self.overflowing_add(rhs);
        if carry {
            Err(ArithmeticError::ArithmeticOverflow)
        } else {
            Ok(sum)
        }
    }

    /// The difference where it is not negative, and zero where it is.
    pub fn sub(self, rhs: U256) -> (r: U256)
        ensures
            r@ == saturating_difference(self@, rhs@),
    {
        let (difference, borrow): (U256, bool) = self.overflowing_sub(rhs);
        if borrow {
            U256::zero()
        } else {
            difference
        }
    }

    /// Half the value, rounded down.
    pub fn halve(self) -> (r: U256)
        ensures
            r@ == self@ / 2,
    {
        U256(
            [
                self.0[0] / 2 + (self.0[1] % 2) * TOP_BIT,
                self.0[1] / 2 + (self.0[2] % 2) * TOP_BIT,
                self.0[2] / 2 + (self.0[3] % 2) * TOP_BIT,
                self.0[3] / 2,
            ],
        )
    }

    /// Whether the value is odd.
    pub fn is_odd(&self) -> (r: bool)
        ensures
            r == (self@ % 2 == 1),
    {
        self.0[0] % 2 == 1
    }

    /// The product by one limb, modulo 2^256, and the limb that left the top.
    pub fn widening_mul_limb(self, limb: u64) -> (r: (U256, u64))
        ensures
            r.0@ + r.1 * modulus() == self@ * limb,
    {
        let (w0, c0): (u64, u64) = mul_limbs(self.0[0], limb, 0);
        let (w1, c1): (u64, u64) = mul_limbs(self.0[1], limb, c0);
        let (w2, c2): (u64, u64) = mul_limbs(self.0[2], limb, c1);
        let (w3, c3): (u64, u64) = mul_limbs(self.0[3], limb, c2);
        proof {
            let a0 = self.0[0] as int;
            let a1 = self.0[1] as int;
            let a2 = self.0[2] as int;
            let a3 = self.0[3] as int;
            let m = limb as int;
            let b1 = limb_base() as int;
            let b2 = limb_base_2() as int;
            let b3 = limb_base_3() as int;
            lemma_scale_digits(a0, a1, a2, a3, b1, b2, b3, m);
        }
        (U256([w0, w1, w2, w3]), c3)
    }

    /// `self * 2^64 + factor * limb`, or `None` where that does not fit in 256 bits.
    fn shift_and_add_product(self, factor: U256, limb: u64) -> (r: Option<U256>)
        ensures
            match r {
                Some(v) => v@ == self@ * limb_base() + factor@ * limb,
                None => self@ * limb_base() + factor@ * limb > max_value(),
            },
    {
        proof {
            lemma_mul_nonnegative(factor@ as int, limb as int);
        }
        if self.0[3] != 0 {
            assert(self@ * limb_base() >= limb_base_3() * limb_base());
            return None;
        }
        let shifted = U256([0, self.0[0], self.0[1], self.0[2]]);
        assert(shifted@ == self@ * limb_base());
        let (product, high): (U256, u64) = factor.widening_mul_limb(limb);
        if high != 0 {
            assert(high * modulus() >= modulus()) by (nonlinear_arith)
                requires
                    high >= 1,
            ;
            return None;
        }
        assert(high * modulus() == 0) by (nonlinear_arith)
            requires
                high == 0,
        ;
        let (sum, carry): (U256, bool) = shifted.overflowing_add(product);
        if carry {
            None
        } else {
            Some(sum)
        }
    }

    /// The product, or `ArithmeticOverflow` where it does not fit in 256 bits.
    pub fn mul(self, rhs: U256) -> (r: Result<U256, ArithmeticError>)
        ensures
            outcome_value(r) == checked_product(self@, rhs@),
    {
        let ghost x0 = self@ * rhs.0[0];
        let ghost x1 = self@ * rhs.0[1];
        let ghost x2 = self@ * rhs.0[2];
        let ghost x3 = self@ * rhs.0[3];
        proof {
            let a = self@ as int;
            lemma_mul_nonnegative(a, rhs.0[0] as int);
            lemma_mul_nonnegative(a, rhs.0[1] as int);
            lemma_mul_nonnegative(a, rhs.0[2] as int);
            lemma_mul_nonnegative(a, rhs.0[3] as int);
            lemma_scale_digits(
                rhs.0[0] as int,
                rhs.0[1] as int,
                rhs.0[2] as int,
                rhs.0[3] as int,
                limb_base() as int,
                limb_base_2() as int,
                limb_base_3() as int,
                a,
            );
            lemma_mul_is_commutative(a, rhs@ as int);
            lemma_mul_is_commutative(a, rhs.0[0] as int);
            lemma_mul_is_commutative(a, rhs.0[1] as int);
            lemma_mul_is_commutative(a, rhs.0[2] as int);
            lemma_mul_is_commutative(a, rhs.0[3] as int);
            assert(self@ * rhs@ == x0 + x1 * limb_base() + x2 * limb_base_2() + x3 * limb_base_3());
        }
        let top = match U256::zero().shift_and_add_product(self, rhs.0[3]) {
            Some(v) => v,
            None => { return Err(ArithmeticError::ArithmeticOverflow); },
        };
        let upper = match top.shift_and_add_product(self, rhs.0[2]) {
            Some(v) => v,
            None => { return Err(ArithmeticError::ArithmeticOverflow); },
        };
        let middle = match upper.shift_and_add_product(self, rhs.0[1]) {
            Some(v) => v,
            None => { return Err(ArithmeticError::ArithmeticOverflow); },
        };
        match middle.shift_and_add_product(self, rhs.0[0]) {
            Some(v) => Ok(v),
            None => Err(ArithmeticError::ArithmeticOverflow),
        }
    }
}

} // verus!
