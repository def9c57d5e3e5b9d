//! A 256-bit unsigned integer held as four 64-bit limbs, least significant first.

use vstd::prelude::*;
use vstd::arithmetic::div_mod::lemma_fundamental_div_mod_converse;

verus! {

/// 2^64, the weight of the second limb.
pub open spec fn limb_base() -> nat {
    0x1_0000_0000_0000_0000nat
}

/// 2^128, the weight of the third limb.
pub open spec fn limb_base_2() -> nat {
    0x1_0000_0000_0000_0000_0000_0000_0000_0000nat
}

/// 2^192, the weight of the fourth limb.
pub open spec fn limb_base_3() -> nat {
    0x1_0000_0000_0000_0000_0000_0000_0000_0000_0000_0000_0000_0000nat
}

/// 2^256, one more than the largest value a `U256` holds.
pub open spec fn modulus() -> nat {
    0x1_0000_0000_0000_0000_0000_0000_0000_0000_0000_0000_0000_0000_0000_0000_0000_0000nat
}

/// The largest value a `U256` holds, 2^256 - 1.
pub open spec fn max_value() -> nat {
    0xffff_ffff_ffff_ffff_ffff_ffff_ffff_ffff_ffff_ffff_ffff_ffff_ffff_ffff_ffff_ffffnat
}

/// The number that four limbs stand for.
pub open spec fn limbs_value(l0: u64, l1: u64, l2: u64, l3: u64) -> nat {
    l0 as nat + l1 as nat * limb_base() + l2 as nat * limb_base_2() + l3 as nat * limb_base_3()
}

/// The number that the first `n` of `bytes` spell, most significant byte first.
pub open spec fn be_prefix_value(bytes: Seq<u8>, n: nat) -> nat
    decreases n,
{
    if n == 0 {
        0
    } else {
        be_prefix_value(bytes, (n - 1) as nat) * 256 + bytes[n - 1] as nat
    }
}

/// The number that `bytes` spell, most significant byte first.
pub open spec fn be_bytes_value(bytes: Seq<u8>) -> nat {
    be_prefix_value(bytes, bytes.len())
}

/// The eight bytes from `start` on as one limb, most significant byte first.
fn be_limb(bytes: &[u8; 32], start: usize) -> (r: u64)
    requires
        start + 8 <= 32,
    ensures
        r == bytes[start as int] * 0x100_0000_0000_0000 + bytes[start + 1] * 0x1_0000_0000_0000
            + bytes[start + 2] * 0x100_0000_0000 + bytes[start + 3] * 0x1_0000_0000 + bytes[start
            + 4] * 0x100_0000 + bytes[start + 5] * 0x1_0000 + bytes[start + 6] * 0x100
            + bytes[start + 7],
{
    bytes[start] as u64 * 0x100_0000_0000_0000 + bytes[start + 1] as u64 * 0x1_0000_0000_0000
        + bytes[start + 2] as u64 * 0x100_0000_0000 + bytes[start + 3] as u64 * 0x1_0000_0000
        + bytes[start + 4] as u64 * 0x100_0000 + bytes[start + 5] as u64 * 0x1_0000 + bytes[start
        + 6] as u64 * 0x100 + bytes[start + 7] as u64
}

/// A 256-bit unsigned integer. Every array of four limbs is a value, and
/// two arrays that stand for the same number are the same array.
#[derive(Clone, Copy, Debug)]
pub struct U256(pub [u64; 4]);

impl View for U256 {
    type V = nat;

    open spec fn view(&self) -> nat {
        limbs_value(self.0[0], self.0[1], self.0[2], self.0[3])
    }
}

impl U256 {
    /// Zero.
    pub fn zero() -> (r: U256)
        ensures
            r@ == 0,
    {
        U256([0, 0, 0, 0])
    }

    /// The value of a 64-bit counter.
    pub fn from(value: u64) -> (r: U256)
        ensures
            r@ == value,
    {
        U256([value, 0, 0, 0])
    }

    /// Whether the value is zero.
    pub fn is_zero(&self) -> (r: bool)
        ensures
            r == (self@ == 0),
    {
        self.0[0] == 0 && self.0[1] == 0 && self.0[2] == 0 && self.0[3] == 0
    }

    /// The value that 32 bytes spell, most significant byte first.
    pub fn from_be_bytes(bytes: [u8; 32]) -> (r: U256)
        ensures
            r@ == be_bytes_value(bytes@),
    {
        let l3: u64 = be_limb(&bytes, 0);
        let l2: u64 = be_limb(&bytes, 8);
        let l1: u64 = be_limb(&bytes, 16);
        let l0: u64 = be_limb(&bytes, 24);
        proof {
            reveal_with_fuel(be_prefix_value, 33);
        }
        U256([l0, l1, l2, l3])
    }

    /// The low 64 bits of the value: the value itself where it is below 2^64.
    pub fn as_u64(&self) -> (r: u64)
        ensures
            r == self@ % limb_base(),
    {
        proof {
            let base = limb_base();
            let rest: nat = self.0[1] as nat + (self.0[2] as nat + self.0[3] as nat * base) * base;
            assert(self@ == rest * base + self.0[0] as nat);
            lemma_fundamental_div_mod_converse(
                self@ as int,
                base as int,
                rest as int,
                self.0[0] as int,
            );
        }
        self.0[0]
    }
}

/// A number has one way to split into a digit below the base and the rest.
proof fn lemma_digit_unique(low1: nat, high1: nat, low2: nat, high2: nat, base: nat)
    by (nonlinear_arith)
    requires
        low1 < base,
        low2 < base,
        low1 + high1 * base == low2 + high2 * base,
    ensures
        low1 == low2,
        high1 == high2,
{
    if high1 > high2 {
        assert(high1 * base >= (high2 + 1) * base);
    } else if high2 > high1 {
        assert(high2 * base >= (high1 + 1) * base);
    }
}

/// A value is its limbs: equal numbers are equal values.
pub proof fn lemma_view_injective(a: U256, b: U256)
    requires
        a@ == b@,
    ensures
        a == b,
{
    let base = limb_base();
    let a_rest1: nat = a.0[1] as nat + (a.0[2] as nat + a.0[3] as nat * base) * base;
    let b_rest1: nat = b.0[1] as nat + (b.0[2] as nat + b.0[3] as nat * base) * base;
    assert(a@ == a.0[0] as nat + a_rest1 * base);
    assert(b@ == b.0[0] as nat + b_rest1 * base);
    lemma_digit_unique(a.0[0] as nat, a_rest1, b.0[0] as nat, b_rest1, base);
    let a_rest2: nat = a.0[2] as nat + a.0[3] as nat * base;
    let b_rest2: nat = b.0[2] as nat + b.0[3] as nat * base;
    lemma_digit_unique(a.0[1] as nat, a_rest2, b.0[1] as nat, b_rest2, base);
    lemma_digit_unique(a.0[2] as nat, a.0[3] as nat, b.0[2] as nat, b.0[3] as nat, base);
    assert(a.0 =~= b.0);
}

} // verus!
