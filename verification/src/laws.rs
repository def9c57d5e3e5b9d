//! Laws of the operations, over the models that their contracts are stated in.

use vstd::prelude::*;
use crate::arith::{checked_sum, saturating_difference};
use crate::attestation::{aggregation_model, attestation_verification_model};
use crate::bytes::Bytes;
use crate::compute::{AttestationRequest, AttestationResponse, claim_model, outcome_claim};
use crate::error::ArithmeticError;
use crate::hash::keccak256_digest;
use crate::loss::impermanent_loss_model;
use crate::oracle::oracle_validation_model;
use crate::outcome::{
    outcome_pair,
    outcome_screening,
    outcome_value,
    lemma_outcome_pair_injective,
    lemma_outcome_value_injective,
};
use crate::payout::payout_model;
use crate::sqrt::floor_sqrt;
use crate::uint256::{U256, be_bytes_value, lemma_view_injective, max_value};

verus! {

/// Where a sum fits in 256 bits, taking one term away from it gives the
/// other term back; where it does not, the addition is an overflow.
pub proof fn lemma_add_then_sub(a: U256, b: U256)
    ensures
        a@ + b@ <= max_value() ==> checked_sum(a@, b@) == Ok::<nat, ArithmeticError>(a@ + b@)
            && saturating_difference(a@ + b@, b@) == a@,
        a@ + b@ > max_value() ==> checked_sum(a@, b@) == Err::<nat, ArithmeticError>(
            ArithmeticError::ArithmeticOverflow,
        ),
{
}

/// Price and timestamp series of different lengths, and empty ones, are
/// invalid, with no price accepted.
pub proof fn lemma_oracle_fails_closed(prices: Seq<U256>, timestamps: Seq<U256>, threshold: U256)
    requires
        prices.len() != timestamps.len() || prices.len() == 0,
    ensures
        oracle_validation_model(prices, timestamps, threshold@) == Ok::<
            (bool, Seq<U256>),
            ArithmeticError,
        >((false, Seq::empty())),
{
}

/// A loss that does not exceed the deductible pays nothing.
pub proof fn lemma_payout_zero_within_deductible(
    impermanent_loss: U256,
    coverage_amount: U256,
    deductible: U256,
    coverage_ratio: U256,
)
    requires
        impermanent_loss@ <= deductible@,
    ensures
        payout_model(impermanent_loss@, coverage_amount@, deductible@, coverage_ratio@) == Ok::<
            nat,
            ArithmeticError,
        >(0),
{
}

/// No payout exceeds the coverage amount.
pub proof fn lemma_payout_capped(
    impermanent_loss: U256,
    coverage_amount: U256,
    deductible: U256,
    coverage_ratio: U256,
)
    ensures
        match payout_model(impermanent_loss@, coverage_amount@, deductible@, coverage_ratio@) {
            Ok(payout) => payout <= coverage_amount@,
            Err(e) => e == ArithmeticError::ArithmeticOverflow,
        },
{
}

/// Submissions whose sequences differ in length, or that are fewer than
/// the threshold, aggregate to zero without a quorum.
pub proof fn lemma_aggregation_fails_closed(
    values: Seq<U256>,
    signatures: Seq<Bytes>,
    operator_keys: Seq<Bytes>,
    verdicts: Seq<bool>,
    threshold: U256,
)
    requires
        signatures.len() != values.len() || operator_keys.len() != values.len() || verdicts.len()
            != values.len() || values.len() < threshold@,
    ensures
        aggregation_model(values, signatures, operator_keys, verdicts, threshold@) == Ok::<
            (nat, bool),
            ArithmeticError,
        >((0, false)),
{
}

/// An empty proof, or an empty payload, is rejected with the value zero,
/// whatever the other inputs are.
pub proof fn lemma_empty_attestation_rejected(
    encrypted_attestation: Seq<u8>,
    proof_bytes: Seq<u8>,
    public_inputs: Seq<U256>,
    proof_accepted: bool,
)
    requires
        encrypted_attestation.len() == 0 || proof_bytes.len() == 0,
    ensures
        attestation_verification_model(
            encrypted_attestation,
            proof_bytes,
            public_inputs,
            proof_accepted,
        ) == (false, 0nat),
{
}

/// A payload and a proof that are not empty and whose digests are not
/// zero, with a public input and an accepted proof, are valid, and the
/// computed value is the first public input. A proof that was not
/// accepted is never valid.
pub proof fn lemma_attestation_follows_proof_check(
    encrypted_attestation: Seq<u8>,
    proof_bytes: Seq<u8>,
    public_inputs: Seq<U256>,
    proof_accepted: bool,
)
    ensures
        encrypted_attestation.len() > 0 && proof_bytes.len() > 0 && be_bytes_value(
            keccak256_digest(encrypted_attestation),
        ) != 0 && be_bytes_value(keccak256_digest(proof_bytes)) != 0 && public_inputs.len() > 0
            && proof_accepted ==> attestation_verification_model(
            encrypted_attestation,
            proof_bytes,
            public_inputs,
            proof_accepted,
        ) == (true, public_inputs[0]@),
        !proof_accepted ==> attestation_verification_model(
            encrypted_attestation,
            proof_bytes,
            public_inputs,
            proof_accepted,
        ) == (false, 0nat),
{
}

/// Two runs of `isqrt` on one value give one root.
pub proof fn lemma_isqrt_repeatable(value: U256, first: U256, second: U256)
    requires
        first@ == floor_sqrt(value@),
        second@ == floor_sqrt(value@),
    ensures
        first == second,
{
    lemma_view_injective(first, second);
}

/// Two runs of `validate_oracle_prices` on one series end alike: in the
/// same fault, or in the same verdict with the same prices accepted.
pub proof fn lemma_oracle_validation_repeatable(
    prices: Seq<U256>,
    timestamps: Seq<U256>,
    threshold: U256,
    first: Result<(bool, Vec<U256>), ArithmeticError>,
    second: Result<(bool, Vec<U256>), ArithmeticError>,
)
    requires
        outcome_screening(first) == oracle_validation_model(prices, timestamps, threshold@),
        outcome_screening(second) == oracle_validation_model(prices, timestamps, threshold@),
    ensures
        outcome_screening(first) == outcome_screening(second),
        first is Ok <==> second is Ok,
        first is Ok ==> first->Ok_0.0 == second->Ok_0.0 && first->Ok_0.1@ == second->Ok_0.1@,
        first is Err ==> first->Err_0 == second->Err_0,
{
}

/// Two runs of `calculate_impermanent_loss` on one position end alike.
pub proof fn lemma_impermanent_loss_repeatable(
    a_amount: U256,
    b_amount: U256,
    current_a_price: U256,
    current_b_price: U256,
    initial_a_price: U256,
    initial_b_price: U256,
    pool_fee_rate: U256,
    first: Result<(U256, bool), ArithmeticError>,
    second: Result<(U256, bool), ArithmeticError>,
)
    requires
        outcome_pair(first) == impermanent_loss_model(
            a_amount@,
            b_amount@,
            current_a_price@,
            current_b_price@,
            initial_a_price@,
            initial_b_price@,
            pool_fee_rate@,
        ),
        outcome_pair(second) == impermanent_loss_model(
            a_amount@,
            b_amount@,
            current_a_price@,
            current_b_price@,
            initial_a_price@,
            initial_b_price@,
            pool_fee_rate@,
        ),
    ensures
        first == second,
{
    lemma_outcome_pair_injective(first, second);
}

/// Two runs of `calculate_payout` on one loss and policy end alike.
pub proof fn lemma_payout_repeatable(
    impermanent_loss: U256,
    coverage_amount: U256,
    deductible: U256,
    coverage_ratio: U256,
    first: Result<U256, ArithmeticError>,
    second: Result<U256, ArithmeticError>,
)
    requires
        outcome_value(first) == payout_model(
            impermanent_loss@,
            coverage_amount@,
            deductible@,
            coverage_ratio@,
        ),
        outcome_value(second) == payout_model(
            impermanent_loss@,
            coverage_amount@,
            deductible@,
            coverage_ratio@,
        ),
    ensures
        first == second,
{
    lemma_outcome_value_injective(first, second);
}

/// Two runs of `aggregate_attestations` on one set of submissions end alike.
pub proof fn lemma_aggregation_repeatable(
    values: Seq<U256>,
    signatures: Seq<Bytes>,
    operator_keys: Seq<Bytes>,
    verdicts: Seq<bool>,
    threshold: U256,
    first: Result<(U256, bool), ArithmeticError>,
    second: Result<(U256, bool), ArithmeticError>,
)
    requires
        outcome_pair(first) == aggregation_model(
            values,
            signatures,
            operator_keys,
            verdicts,
            threshold@,
        ),
        outcome_pair(second) == aggregation_model(
            values,
            signatures,
            operator_keys,
            verdicts,
            threshold@,
        ),
    ensures
        first == second,
{
    lemma_outcome_pair_injective(first, second);
}

/// Two runs of `verify_encrypted_attestation` on one attestation, with one
/// answer of the proof check, give one verdict and one value.
pub proof fn lemma_attestation_verification_repeatable(
    encrypted_attestation: Seq<u8>,
    proof_bytes: Seq<u8>,
    public_inputs: Seq<U256>,
    proof_accepted: bool,
    first: (bool, U256),
    second: (bool, U256),
)
    requires
        (first.0, first.1@) == attestation_verification_model(
            encrypted_attestation,
            proof_bytes,
            public_inputs,
            proof_accepted,
        ),
        (second.0, second.1@) == attestation_verification_model(
            encrypted_attestation,
            proof_bytes,
            public_inputs,
            proof_accepted,
        ),
    ensures
        first == second,
{
    lemma_view_injective(first.1, second.1);
}

/// Two evaluations of one claim end alike.
pub proof fn lemma_claim_repeatable(
    request: AttestationRequest,
    first: Result<AttestationResponse, ArithmeticError>,
    second: Result<AttestationResponse, ArithmeticError>,
)
    requires
        outcome_claim(first) == claim_model(request),
        outcome_claim(second) == claim_model(request),
    ensures
        first == second,
{
    if let Ok(a) = first {
        if let Ok(b) = second {
            lemma_view_injective(a.impermanent_loss, b.impermanent_loss);
            lemma_view_injective(a.payout, b.payout);
        }
    }
}

} // verus!
