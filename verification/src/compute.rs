//! The compute service and the claim it evaluates.

use vstd::prelude::*;
use crate::error::ArithmeticError;
use crate::loss::impermanent_loss_model;
use crate::payout::payout_model;
use crate::uint256::U256;

verus! {

/// One claim to evaluate: the pool position at entry and now, and the policy.
#[derive(Debug)]
pub struct AttestationRequest {
    pub policy_id: U256,
    pub initial_token_a_amount: U256,
    pub initial_token_b_amount: U256,
    pub current_token_a_price: U256,
    pub current_token_b_price: U256,
    pub initial_token_a_price: U256,
    pub initial_token_b_price: U256,
    pub pool_fee_rate: U256,
    pub coverage_amount: U256,
    pub deductible: U256,
    pub coverage_ratio: U256,
}

/// The outcome of a claim.
#[derive(Debug)]
pub struct AttestationResponse {
    pub impermanent_loss: U256,
    pub has_loss: bool,
    pub payout: U256,
    pub is_valid: bool,
}

impl View for AttestationResponse {
    type V = (nat, bool, nat, bool);

    /// The loss, whether there is one, the payout, and the validity flag.
    open spec fn view(&self) -> (nat, bool, nat, bool) {
        (self.impermanent_loss@, self.has_loss, self.payout@, self.is_valid)
    }
}

/// The outcome of a claim: the impermanent loss of the position, then the
/// payout of the policy for that loss. A claim that is evaluated is
/// marked valid; a fault of either step is the fault of the claim.
pub open spec fn claim_model(request: AttestationRequest) -> Result<
    (nat, bool, nat, bool),
    ArithmeticError,
> {
    match impermanent_loss_model(
        request.initial_token_a_amount@,
        request.initial_token_b_amount@,
        request.current_token_a_price@,
        request.current_token_b_price@,
        request.initial_token_a_price@,
        request.initial_token_b_price@,
        request.pool_fee_rate@,
    ) {
        Err(e) => Err(e),
        Ok((loss, has_loss)) => match payout_model(
            loss,
            request.coverage_amount@,
            request.deductible@,
            request.coverage_ratio@,
        ) {
            Err(e) => Err(e),
            Ok(payout) => Ok((loss, has_loss, payout, true)),
        },
    }
}

/// The outcome of a claim, as numbers.
pub open spec fn outcome_claim(outcome: Result<AttestationResponse, ArithmeticError>) -> Result<
    (nat, bool, nat, bool),
    ArithmeticError,
> {
    match outcome {
        Ok(response) => Ok(response@),
        Err(e) => Err(e),
    }
}

/// The compute service. It holds no state: every operation is a function
/// of its arguments.
pub struct ConfidentialInsuranceCompute;

impl ConfidentialInsuranceCompute {
    /// The service.
    pub fn new() -> Self {
        ConfidentialInsuranceCompute
    }

    /// Evaluates a claim: the impermanent loss of the position, then the
    /// payout of the policy for it. Whether the oracle's prices and the
    /// operators' attestations behind the request are good is for the
    /// caller to settle first.
    pub fn process_attestation_request(&self, request: AttestationRequest) -> (r: Result<
        AttestationResponse,
        ArithmeticError,
    >)
        ensures
            outcome_claim(r) == claim_model(request),
    {
        let (impermanent_loss, has_loss): (U256, bool) = match self.calculate_impermanent_loss(
            request.initial_token_a_amount,
            request.initial_token_b_amount,
            request.current_token_a_price,
            request.current_token_b_price,
            request.initial_token_a_price,
            request.initial_token_b_price,
            request.pool_fee_rate,
        ) {
            Ok(v) => v,
            Err(e) => { return Err(e); },
        };
        let payout = match self.calculate_payout(
            request.policy_id,
            impermanent_loss,
            request.coverage_amount,
            request.deductible,
            request.coverage_ratio,
        ) {
            Ok(v) => v,
            Err(e) => { return Err(e); },
        };
        Ok(AttestationResponse { impermanent_loss, has_loss, payout, is_valid: true })
    }
}

} // verus!
