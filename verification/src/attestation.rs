//! Aggregation of operator attestations, and the check of an encrypted
//! attestation against its proof.
//!
//! The library does no cryptography. Whether a signature or a proof is
//! good is decided outside it, and the verdicts come in as arguments.

use vstd::prelude::*;
use crate::bytes::Bytes;
use crate::compute::ConfidentialInsuranceCompute;
use crate::error::ArithmeticError;
use crate::outcome::outcome_pair;
use crate::hash::{keccak256, keccak256_digest};
use crate::uint256::{U256, be_bytes_value, max_value};

verus! {

/// Whether the submission at `i` counts: its value is not zero, its
/// signature and its operator key are not empty, and the signature check
/// accepted it.
pub open spec fn attestation_counts(
    values: Seq<U256>,
    signatures: Seq<Bytes>,
    operator_keys: Seq<Bytes>,
    verdicts: Seq<bool>,
    i: int,
) -> bool {
    values[i]@ != 0 && signatures[i]@.len() > 0 && operator_keys[i]@.len() > 0 && verdicts[i]
}

/// How many of the first `n` submissions count.
pub open spec fn counted(
    values: Seq<U256>,
    signatures: Seq<Bytes>,
    operator_keys: Seq<Bytes>,
    verdicts: Seq<bool>,
    n: nat,
) -> nat
    decreases n,
{
    if n == 0 {
        0
    } else {
        counted(values, signatures, operator_keys, verdicts, (n - 1) as nat) + (
        if attestation_counts(values, signatures, operator_keys, verdicts, n - 1) {
            1nat
        } else {
            0
        })
    }
}

/// The sum of the values of those of the first `n` submissions that count.
pub open spec fn counted_sum(
    values: Seq<U256>,
    signatures: Seq<Bytes>,
    operator_keys: Seq<Bytes>,
    verdicts: Seq<bool>,
    n: nat,
) -> nat
    decreases n,
{
    if n == 0 {
        0
    } else {
        counted_sum(values, signatures, operator_keys, verdicts, (n - 1) as nat) + (
        if attestation_counts(values, signatures, operator_keys, verdicts, n - 1) {
            values[n - 1]@
        } else {
            0
        })
    }
}

/// The aggregated value and whether the quorum is met.
///
/// Sequences of different lengths, or fewer submissions than the
/// threshold, give zero and no quorum. Else the quorum is met where the
/// submissions that count are at least the threshold, and the value is
/// then their mean, rounded down (zero where none counts). The
/// aggregation fails where the sum of the values that count does not fit
/// in 256 bits.
pub open spec fn aggregation_model(
    values: Seq<U256>,
    signatures: Seq<Bytes>,
    operator_keys: Seq<Bytes>,
    verdicts: Seq<bool>,
    threshold: nat,
) -> Result<(nat, bool), ArithmeticError> {
    let n = values.len();
    if signatures.len() != n || operator_keys.len() != n || verdicts.len() != n || n < threshold {
        Ok((0, false))
    } else if counted_sum(values, signatures, operator_keys, verdicts, n) > max_value() {
        Err(ArithmeticError::ArithmeticOverflow)
    } else {
        let count = counted(values, signatures, operator_keys, verdicts, n);
        let sum = counted_sum(values, signatures, operator_keys, verdicts, n);
        if count >= threshold && count > 0 {
            Ok((sum / count, true))
        } else {
            Ok((0, count >= threshold))
        }
    }
}

/// The sum over a prefix is at most the sum over a longer one, and at
/// most as many submissions count as there are.
proof fn lemma_counted_grows(
    values: Seq<U256>,
    signatures: Seq<Bytes>,
    operator_keys: Seq<Bytes>,
    verdicts: Seq<bool>,
    m: nat,
    n: nat,
)
    requires
        m <= n,
    ensures
        counted_sum(values, signatures, operator_keys, verdicts, m) <= counted_sum(
            values,
            signatures,
            operator_keys,
            verdicts,
            n,
        ),
        counted(values, signatures, operator_keys, verdicts, m) <= m,
    decreases n,
{
    if m < n {
        lemma_counted_grows(values, signatures, operator_keys, verdicts, m, (n - 1) as nat);
    } else if m > 0 {
        lemma_counted_grows(
            values,
            signatures,
            operator_keys,
            verdicts,
            (m - 1) as nat,
            (m - 1) as nat,
        );
    }
}

/// The verdict on an encrypted attestation, from the digests of the
/// payload and of the proof, the public inputs and what the proof check
/// said: valid where neither digest is zero, there is a public input and
/// the proof was accepted; the computed value is then the first public
/// input, and zero otherwise.
pub open spec fn attestation_verdict_model(
    attestation_digest: nat,
    proof_digest: nat,
    public_inputs: Seq<U256>,
    proof_accepted: bool,
) -> (bool, nat) {
    let is_valid = attestation_digest != 0 && proof_digest != 0 && public_inputs.len() > 0
        && proof_accepted;
    (
        is_valid,
        if is_valid {
            public_inputs[0]@
        } else {
            0
        },
    )
}

/// The verdict on an encrypted attestation: `(false, 0)` where the payload
/// or the proof is empty, else what the digests of the two, the public
/// inputs and the proof check give.
pub open spec fn attestation_verification_model(
    encrypted_attestation: Seq<u8>,
    proof_bytes: Seq<u8>,
    public_inputs: Seq<U256>,
    proof_accepted: bool,
) -> (bool, nat) {
    if encrypted_attestation.len() == 0 || proof_bytes.len() == 0 {
        (false, 0)
    } else {
        attestation_verdict_model(
            be_bytes_value(keccak256_digest(encrypted_attestation)),
            be_bytes_value(keccak256_digest(proof_bytes)),
            public_inputs,
            proof_accepted,
        )
    }
}

/// The verdict on an encrypted attestation whose payload and proof are not
/// empty, from their digests.
pub fn attestation_verdict(
    attestation_digest: U256,
    proof_digest: U256,
    public_inputs: &Vec<U256>,
    proof_accepted: bool,
) -> (r: (bool, U256))
    ensures
        (r.0, r.1@) == attestation_verdict_model(
            attestation_digest@,
            proof_digest@,
            public_inputs@,
            proof_accepted,
        ),
{
    let is_valid = !attestation_digest.is_zero() && !proof_digest.is_zero() && public_inputs.len()
        > 0 && proof_accepted;
    if is_valid {
        (true, public_inputs[0])
    } else {
        (false, U256::zero())
    }
}

impl ConfidentialInsuranceCompute {
    /// Aggregates the operators' values into their mean, under a quorum.
    ///
    /// `verdicts` holds, for each submission, what the signature check
    /// outside the library said of its value, signature and operator key.
    pub fn aggregate_attestations(
        &self,
        attestations: Vec<U256>,
        signatures: Vec<Bytes>,
        operator_public_keys: Vec<Bytes>,
        verdicts: Vec<bool>,
        threshold: U256,
    ) -> (r: Result<(U256, bool), ArithmeticError>)
        ensures
            outcome_pair(r) == aggregation_model(
                attestations@,
                signatures@,
                operator_public_keys@,
                verdicts@,
                threshold@,
            ),
    {
        let n: usize = attestations.len();
        if n != signatures.len() || n != operator_public_keys.len() || n != verdicts.len() {
            return Ok((U256::zero(), false));
        }
        if U256::from(n as u64) < threshold {
            return Ok((U256::zero(), false));
        }
        let mut sum = U256::zero();
        let mut count: u64 = 0;
        let mut i: usize = 0;
        while i < n
            invariant
                i <= n,
                n == attestations.len(),
                n == signatures.len(),
                n == operator_public_keys.len(),
                n == verdicts.len(),
                n >= threshold@,
                count <= i,
                count == counted(
                    attestations@,
                    signatures@,
                    operator_public_keys@,
                    verdicts@,
                    i as nat,
                ),
                sum@ == counted_sum(
                    attestations@,
                    signatures@,
                    operator_public_keys@,
                    verdicts@,
                    i as nat,
                ),
            decreases n - i,
        {
            let value = attestations[i];
            if !value.is_zero() && !signatures[i].is_empty() && !operator_public_keys[i].is_empty()
                && verdicts[i] {
                sum = match sum.add(value) {
                    Ok(v) => v,
                    Err(e) => {
                        proof {
                            lemma_counted_grows(
                                attestations@,
                                signatures@,
                                operator_public_keys@,
                                verdicts@,
                                (i + 1) as nat,
                                n as nat,
                            );
                        }
                        return Err(e);
                    },
                };
                count = count + 1;
            }
            i = i + 1;
        }
        let quorum_met = U256::from(count) >= threshold;
        if quorum_met && count > 0 {
            match sum.div(U256::from(count)) {
                Ok(mean) => Ok((mean, true)),
                Err(e) => Err(e),
            }
        } else {
            Ok((U256::zero(), quorum_met))
        }
    }

    /// Checks an encrypted attestation against its proof.
    ///
    /// `proof_accepted` is what the proof check outside the library said of
    /// the payload, the proof and the public inputs. The digests of the
    /// payload and of the proof only screen out degenerate inputs.
    pub fn verify_encrypted_attestation(
        &self,
        encrypted_attestation: Bytes,
        proof_bytes: Bytes,
        public_inputs: Vec<U256>,
        proof_accepted: bool,
    ) -> (r: (bool, U256))
        ensures
            (r.0, r.1@) == attestation_verification_model(
                encrypted_attestation@,
                proof_bytes@,
                public_inputs@,
                proof_accepted,
            ),
    {
        if encrypted_attestation.is_empty() || proof_bytes.is_empty() {
            return (false, U256::zero());
        }
        let attestation_digest = keccak256(encrypted_attestation.0.as_slice());
        let proof_digest = keccak256(proof_bytes.0.as_slice());
        attestation_verdict(attestation_digest, proof_digest, &public_inputs, proof_accepted)
    }
}

} // verus!
