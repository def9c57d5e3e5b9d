//! The impermanent loss of a liquidity position.

use vstd::prelude::*;
use crate::arith::saturating_difference;
use crate::compute::ConfidentialInsuranceCompute;
use crate::error::ArithmeticError;
use crate::outcome::outcome_pair;
use crate::payout::BP_SCALE;
use crate::sqrt::{floor_sqrt, is_floor_sqrt, isqrt};
use crate::uint256::{U256, limb_base_2, max_value};

verus! {

/// How far the price of token A has moved against that of token B since
/// entry, rounded down.
pub open spec fn price_ratio(
    current_a_price: nat,
    current_b_price: nat,
    initial_a_price: nat,
    initial_b_price: nat,
) -> nat {
    (current_a_price * initial_b_price) / (initial_a_price * current_b_price)
}

/// What the two amounts are worth at the two prices.
pub open spec fn position_value(a_amount: nat, b_amount: nat, a_price: nat, b_price: nat) -> nat {
    a_amount * a_price + b_amount * b_price
}

/// The share of its value that a constant-product pool keeps against
/// holding, at integer precision.
pub open spec fn lp_multiplier(ratio: nat) -> nat {
    (2 * floor_sqrt(ratio)) / (1 + ratio)
}

/// The fees that the position has earned.
pub open spec fn fees_earned(initial_value: nat, pool_fee_rate: nat) -> nat {
    initial_value * pool_fee_rate / (BP_SCALE as nat)
}

/// What the position in the pool is worth, fees included.
pub open spec fn total_lp_value(initial_value: nat, ratio: nat, pool_fee_rate: nat) -> nat {
    initial_value * lp_multiplier(ratio) + fees_earned(initial_value, pool_fee_rate)
}

/// Whether a product that the price ratio is made of leaves 256 bits.
pub open spec fn ratio_overflows(
    current_a_price: nat,
    current_b_price: nat,
    initial_a_price: nat,
    initial_b_price: nat,
) -> bool {
    current_a_price * initial_b_price > max_value() || initial_a_price * current_b_price
        > max_value()
}

/// Whether a sum or a product that the values are made of leaves 256 bits.
pub open spec fn value_overflows(
    a_amount: nat,
    b_amount: nat,
    current_a_price: nat,
    current_b_price: nat,
    initial_a_price: nat,
    initial_b_price: nat,
    pool_fee_rate: nat,
) -> bool {
    let ratio = price_ratio(current_a_price, current_b_price, initial_a_price, initial_b_price);
    let initial_value = position_value(a_amount, b_amount, initial_a_price, initial_b_price);
    ||| a_amount * initial_a_price > max_value()
    ||| b_amount * initial_b_price > max_value()
    ||| initial_value > max_value()
    ||| a_amount * current_a_price > max_value()
    ||| b_amount * current_b_price > max_value()
    ||| position_value(a_amount, b_amount, current_a_price, current_b_price) > max_value()
    ||| 1 + ratio > max_value()
    ||| initial_value * lp_multiplier(ratio) > max_value()
    ||| initial_value * pool_fee_rate > max_value()
    ||| total_lp_value(initial_value, ratio, pool_fee_rate) > max_value()
}

/// The impermanent loss and whether there is one.
///
/// With an entry price of zero there is no ratio and the answer is no loss.
/// Else the loss is what holding the entry amounts would be worth now, less
/// what the pool position is worth with its fees, and zero where the pool
/// did better. The computation fails where the ratio's divisor is zero or
/// where one of its sums or products does not fit in 256 bits; the ratio is
/// formed first, so its faults come first.
pub open spec fn impermanent_loss_model(
    a_amount: nat,
    b_amount: nat,
    current_a_price: nat,
    current_b_price: nat,
    initial_a_price: nat,
    initial_b_price: nat,
    pool_fee_rate: nat,
) -> Result<(nat, bool), ArithmeticError> {
    if initial_a_price == 0 || initial_b_price == 0 {
        Ok((0, false))
    } else if ratio_overflows(current_a_price, current_b_price, initial_a_price, initial_b_price) {
        Err(ArithmeticError::ArithmeticOverflow)
    } else if current_b_price == 0 {
        Err(ArithmeticError::DivisionByZero)
    } else if value_overflows(
        a_amount,
        b_amount,
        current_a_price,
        current_b_price,
        initial_a_price,
        initial_b_price,
        pool_fee_rate,
    ) {
        Err(ArithmeticError::ArithmeticOverflow)
    } else {
        let ratio = price_ratio(current_a_price, current_b_price, initial_a_price, initial_b_price);
        let initial_value = position_value(a_amount, b_amount, initial_a_price, initial_b_price);
        let hold_value = position_value(a_amount, b_amount, current_a_price, current_b_price);
        let loss = saturating_difference(
            hold_value,
            total_lp_value(initial_value, ratio, pool_fee_rate),
        );
        Ok((loss, loss > 0))
    }
}

/// Twice a rounded-down square root of a 256-bit value fits in 256 bits.
proof fn lemma_double_root_fits(n: nat, root: nat)
    requires
        n <= max_value(),
        is_floor_sqrt(n, root),
    ensures
        2 * root <= max_value(),
{
    if root >= limb_base_2() {
        assert(root * root >= limb_base_2() * limb_base_2()) by (nonlinear_arith)
            requires
                root >= limb_base_2(),
        ;
    }
}

/// A product of a number that is not zero is zero only where the other is.
proof fn lemma_product_zero(a: nat, b: nat)
    by (nonlinear_arith)
    requires
        a != 0,
    ensures
        (a * b == 0) == (b == 0),
{
}

impl ConfidentialInsuranceCompute {
    /// The impermanent loss of a position that entered the pool with the
    /// given amounts at the initial prices, and whether there is a loss.
    pub fn calculate_impermanent_loss(
        &self,
        initial_token_a_amount: U256,
        initial_token_b_amount: U256,
        current_token_a_price: U256,
        current_token_b_price: U256,
        initial_token_a_price: U256,
        initial_token_b_price: U256,
        pool_fee_rate: U256,
    ) -> (r: Result<(U256, bool), ArithmeticError>)
        ensures
            outcome_pair(r) == impermanent_loss_model(
                initial_token_a_amount@,
                initial_token_b_amount@,
                current_token_a_price@,
                current_token_b_price@,
                initial_token_a_price@,
                initial_token_b_price@,
                pool_fee_rate@,
            ),
    {
        if initial_token_a_price.is_zero() || initial_token_b_price.is_zero() {
            return Ok((U256::zero(), false));
        }
        let numerator = match current_token_a_price.mul(initial_token_b_price) {
            Ok(v) => v,
            Err(e) => { return Err(e); },
        };
        let denominator = match initial_token_a_price.mul(current_token_b_price) {
            Ok(v) => v,
            Err(e) => { return Err(e); },
        };
        proof {
            lemma_product_zero(initial_token_a_price@, current_token_b_price@);
        }
        let ratio = match numerator.div(denominator) {
            Ok(v) => v,
            Err(e) => { return Err(e); },
        };

        let initial_a_value = match initial_token_a_amount.mul(initial_token_a_price) {
            Ok(v) => v,
            Err(e) => { return Err(e); },
        };
        let initial_b_value = match initial_token_b_amount.mul(initial_token_b_price) {
            Ok(v) => v,
            Err(e) => { return Err(e); },
        };
        let initial_value = match initial_a_value.add(initial_b_value) {
            Ok(v) => v,
            Err(e) => { return Err(e); },
        };

        let hold_a_value = match initial_token_a_amount.mul(current_token_a_price) {
            Ok(v) => v,
            Err(e) => { return Err(e); },
        };
        let hold_b_value = match initial_token_b_amount.mul(current_token_b_price) {
            Ok(v) => v,
            Err(e) => { return Err(e); },
        };
        let hold_value = match hold_a_value.add(hold_b_value) {
            Ok(v) => v,
            Err(e) => { return Err(e); },
        };

        let sqrt_ratio = isqrt(ratio);
        proof {
            lemma_double_root_fits(ratio@, sqrt_ratio@);
        }
        let (doubled_root, _carry): (U256, bool) = sqrt_ratio.overflowing_add(sqrt_ratio);
        let ratio_plus_one = match U256::from(1).add(ratio) {
            Ok(v) => v,
            Err(e) => { return Err(e); },
        };
        let multiplier = match doubled_root.div(ratio_plus_one) {
            Ok(v) => v,
            Err(e) => { return Err(e); },
        };
        let lp_value = match initial_value.mul(multiplier) {
            Ok(v) => v,
            Err(e) => { return Err(e); },
        };

        let scaled_fees = match initial_value.mul(pool_fee_rate) {
            Ok(v) => v,
            Err(e) => { return Err(e); },
        };
        let fees = match scaled_fees.div(U256::from(BP_SCALE)) {
            Ok(v) => v,
            Err(e) => { return Err(e); },
        };
        let total = match lp_value.add(fees) {
            Ok(v) => v,
            Err(e) => { return Err(e); },
        };

        let loss = hold_value.sub(total);
        let has_loss = !loss.is_zero();
        Ok((loss, has_loss))
    }
}

} // verus!
