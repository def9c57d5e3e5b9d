//! What a fallible computation on 256-bit values comes to, as numbers.

use vstd::prelude::*;
use crate::error::ArithmeticError;
use crate::uint256::{U256, lemma_view_injective};

verus! {

/// The outcome of a computation that gives a value: the number, or the fault.
pub open spec fn outcome_value(outcome: Result<U256, ArithmeticError>) -> Result<
    nat,
    ArithmeticError,
> {
    match outcome {
        Ok(value) => Ok(value@),
        Err(e) => Err(e),
    }
}

/// The outcome of a computation that gives a value and a flag: the number
/// and the flag, or the fault.
pub open spec fn outcome_pair(outcome: Result<(U256, bool), ArithmeticError>) -> Result<
    (nat, bool),
    ArithmeticError,
> {
    match outcome {
        Ok((value, flag)) => Ok((value@, flag)),
        Err(e) => Err(e),
    }
}

/// The outcome of a screening: the verdict and the values that passed, or
/// the fault.
pub open spec fn outcome_screening(outcome: Result<(bool, Vec<U256>), ArithmeticError>) -> Result<
    (bool, Seq<U256>),
    ArithmeticError,
> {
    match outcome {
        Ok((verdict, passed)) => Ok((verdict, passed@)),
        Err(e) => Err(e),
    }
}

/// Two outcomes that come to the same number or fault are the same outcome.
pub proof fn lemma_outcome_value_injective(
    first: Result<U256, ArithmeticError>,
    second: Result<U256, ArithmeticError>,
)
    requires
        outcome_value(first) == outcome_value(second),
    ensures
        first == second,
{
    if let Ok(a) = first {
        if let Ok(b) = second {
            lemma_view_injective(a, b);
        }
    }
}

/// Two outcomes that come to the same number and flag, or to the same
/// fault, are the same outcome.
pub proof fn lemma_outcome_pair_injective(
    first: Result<(U256, bool), ArithmeticError>,
    second: Result<(U256, bool), ArithmeticError>,
)
    requires
        outcome_pair(first) == outcome_pair(second),
    ensures
        first == second,
{
    if let Ok((a, _)) = first {
        if let Ok((b, _)) = second {
            lemma_view_injective(a, b);
        }
    }
}

} // verus!
