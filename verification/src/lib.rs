//! Deterministic computation core of a liquidity-pool insurance compute node:
//! 256-bit unsigned arithmetic, an integer square root, and the computations
//! that turn operator attestations and pool state into a claim result.

pub mod error;
pub mod uint256;
pub mod outcome;
pub mod arith;
pub mod order;
pub mod division;
pub mod sqrt;
pub mod bytes;
pub mod hash;
pub mod compute;
pub mod payout;
pub mod loss;
pub mod oracle;
pub mod attestation;
pub mod laws;

pub use attestation::attestation_verdict;
pub use bytes::Bytes;
pub use compute::{AttestationRequest, AttestationResponse, ConfidentialInsuranceCompute};
pub use error::ArithmeticError;
pub use hash::keccak256;
pub use sqrt::isqrt;
pub use uint256::U256;
