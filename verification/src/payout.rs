//! The payout of a policy for a given loss.

use vstd::prelude::*;
use crate::compute::ConfidentialInsuranceCompute;
use crate::error::ArithmeticError;
use crate::outcome::outcome_value;
use crate::uint256::{U256, max_value};

verus! {

/// Basis points in one whole.
pub const BP_SCALE: u64 = 10000;

/// The part of the loss above the deductible.
pub open spec fn covered_loss(impermanent_loss: nat, deductible: nat) -> nat {
    if impermanent_loss <= deductible {
        0
    } else {
        (impermanent_loss - deductible) as nat
    }
}

/// The covered loss scaled by the coverage ratio, before the cap.
pub open spec fn payout_before_cap(impermanent_loss: nat, deductible: nat, coverage_ratio: nat) -> nat {
    covered_loss(impermanent_loss, deductible) * coverage_ratio / (BP_SCALE as nat)
}

/// What the policy pays: nothing for a loss within the deductible, else the
/// covered loss scaled by the coverage ratio and capped by the coverage
/// amount. The scaling fails where its product does not fit in 256 bits.
pub open spec fn payout_model(
    impermanent_loss: nat,
    coverage_amount: nat,
    deductible: nat,
    coverage_ratio: nat,
) -> Result<nat, ArithmeticError> {
    if impermanent_loss <= deductible {
        Ok(0)
    } else if covered_loss(impermanent_loss, deductible) * coverage_ratio > max_value() {
        Err(ArithmeticError::ArithmeticOverflow)
    } else {
        let scaled = payout_before_cap(impermanent_loss, deductible, coverage_ratio);
        Ok(if scaled > coverage_amount { coverage_amount } else { scaled })
    }
}

impl ConfidentialInsuranceCompute {
    /// The payout for `impermanent_loss` under a policy. `_policy_id` is
    /// carried for the record and changes nothing.
    pub fn calculate_payout(
        &self,
        _policy_id: U256,
        impermanent_loss: U256,
        coverage_amount: U256,
        deductible: U256,
        coverage_ratio: U256,
    ) -> (r: Result<U256, ArithmeticError>)
        ensures
            outcome_value(r) == payout_model(
                impermanent_loss@,
                coverage_amount@,
                deductible@,
                coverage_ratio@,
            ),
    {
        if impermanent_loss <= deductible {
            return Ok(U256::zero());
        }
        let covered = impermanent_loss.sub(deductible);
        let scaled = match covered.mul(coverage_ratio) {
            Ok(v) => v,
            Err(e) => { return Err(e); },
        };
        let before_cap = match scaled.div(U256::from(BP_SCALE)) {
            Ok(v) => v,
            Err(e) => { return Err(e); },
        };
        if before_cap > coverage_amount {
            Ok(coverage_amount)
        } else {
            Ok(before_cap)
        }
    }
}

} // verus!
