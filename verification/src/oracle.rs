//! Screening of an oracle's price series.

use vstd::prelude::*;
use crate::compute::ConfidentialInsuranceCompute;
use crate::error::ArithmeticError;
use crate::outcome::outcome_screening;
use crate::payout::BP_SCALE;
use crate::uint256::{U256, max_value};

verus! {

/// The distance between two prices, in ten-thousandths.
pub open spec fn scaled_move(previous: nat, current: nat) -> nat {
    (if current > previous {
        current - previous
    } else {
        previous - current
    }) as nat * (BP_SCALE as nat)
}

/// The move from `previous` to `current` in basis points of `previous`, rounded down.
pub open spec fn deviation(previous: nat, current: nat) -> nat {
    scaled_move(previous, current) / previous
}

/// Whether the price at `i` passes the screening against the one before it:
/// that one is not zero, and the move is within the threshold.
pub open spec fn price_accepted(prices: Seq<U256>, i: int, threshold: nat) -> bool {
    prices[i - 1]@ != 0 && deviation(prices[i - 1]@, prices[i]@) <= threshold
}

/// Whether the move to the price at `i` is too large to scale in 256 bits.
pub open spec fn deviation_overflows(prices: Seq<U256>, i: int) -> bool {
    prices[i - 1]@ != 0 && scaled_move(prices[i - 1]@, prices[i]@) > max_value()
}

/// The prices among the first `n` that pass the screening, in their order.
/// The first price has none before it and is never among them.
pub open spec fn accepted_prices(prices: Seq<U256>, threshold: nat, n: nat) -> Seq<U256>
    decreases n,
{
    if n <= 1 {
        Seq::empty()
    } else {
        let earlier = accepted_prices(prices, threshold, (n - 1) as nat);
        if price_accepted(prices, n - 1, threshold) {
            earlier.push(prices[n - 1])
        } else {
            earlier
        }
    }
}

/// Whether every price but the first passes the screening.
pub open spec fn all_prices_accepted(prices: Seq<U256>, threshold: nat) -> bool {
    forall|i: int| 1 <= i < prices.len() ==> price_accepted(prices, i, threshold)
}

/// Whether some move is too large to scale in 256 bits.
pub open spec fn some_deviation_overflows(prices: Seq<U256>) -> bool {
    exists|i: int| 1 <= i < prices.len() && deviation_overflows(prices, i)
}

/// Whether each timestamp is later than the one before it.
pub open spec fn timestamps_increase(timestamps: Seq<U256>) -> bool {
    forall|i: int| 1 <= i < timestamps.len() ==> timestamps[i - 1]@ < (#[trigger] timestamps[i])@
}

/// The verdict on a price series, and the prices that pass the screening.
///
/// Series of different lengths, or empty ones, are invalid with nothing
/// accepted. Else the series is valid where every price but the first
/// passes the screening and the timestamps increase; the accepted prices
/// are listed whatever the verdict. The screening fails where a move
/// cannot be scaled in 256 bits.
pub open spec fn oracle_validation_model(
    prices: Seq<U256>,
    timestamps: Seq<U256>,
    threshold: nat,
) -> Result<(bool, Seq<U256>), ArithmeticError> {
    if prices.len() != timestamps.len() || prices.len() == 0 {
        Ok((false, Seq::empty()))
    } else if some_deviation_overflows(prices) {
        Err(ArithmeticError::ArithmeticOverflow)
    } else {
        Ok(
            (
                all_prices_accepted(prices, threshold) && timestamps_increase(timestamps),
                accepted_prices(prices, threshold, prices.len()),
            ),
        )
    }
}

impl ConfidentialInsuranceCompute {
    /// Screens a price series: each price against the one before it for its
    /// deviation, and the timestamps for their order.
    pub fn validate_oracle_prices(
        &self,
        price_data: Vec<U256>,
        timestamps: Vec<U256>,
        deviation_threshold: U256,
    ) -> (r: Result<(bool, Vec<U256>), ArithmeticError>)
        ensures
            outcome_screening(r) == oracle_validation_model(
                price_data@,
                timestamps@,
                deviation_threshold@,
            ),
    {
        let n: usize = price_data.len();
        if n != timestamps.len() || n == 0 {
            return Ok((false, Vec::new()));
        }
        let scale = U256::from(BP_SCALE);
        let mut accepted: Vec<U256> = Vec::new();
        let mut is_valid = true;
        let mut i: usize = 1;
        while i < n
            invariant
                1 <= i <= n,
                n == price_data.len(),
                n == timestamps.len(),
                scale@ == BP_SCALE,
                forall|j: int| 1 <= j < i ==> !deviation_overflows(price_data@, j),
                is_valid == (forall|j: int|
                    1 <= j < i ==> price_accepted(price_data@, j, deviation_threshold@)),
                accepted@ == accepted_prices(price_data@, deviation_threshold@, i as nat),
            decreases n - i,
        {
            let previous = price_data[i - 1];
            let current = price_data[i];
            if previous.is_zero() {
                is_valid = false;
            } else {
                let moved = if current > previous {
                    current.sub(previous)
                } else {
                    previous.sub(current)
                };
                let scaled = match moved.mul(scale) {
                    Ok(v) => v,
                    Err(e) => {
                        assert(deviation_overflows(price_data@, i as int));
                        return Err(e);
                    },
                };
                let moved_bp = match scaled.div(previous) {
                    Ok(v) => v,
                    Err(e) => { return Err(e); },
                };
                if moved_bp > deviation_threshold {
                    is_valid = false;
                } else {
                    accepted.push(current);
                }
            }
            assert(!price_accepted(price_data@, i as int, deviation_threshold@) ==> !(forall|j: int|
                1 <= j < i + 1 ==> price_accepted(price_data@, j, deviation_threshold@)));
            i = i + 1;
        }
        let mut increasing = true;
        let mut k: usize = 1;
        while k < n && increasing
            invariant
                1 <= k <= n,
                n == timestamps.len(),
                increasing ==> forall|j: int|
                    1 <= j < k ==> timestamps@[j - 1]@ < (#[trigger] timestamps@[j])@,
                !increasing ==> !timestamps_increase(timestamps@),
            decreases n - k + (if increasing { 1nat } else { 0 }),
        {
            if timestamps[k] <= timestamps[k - 1] {
                increasing = false;
            } else {
                k = k + 1;
            }
        }
        Ok((is_valid && increasing, accepted))
    }
}

} // verus!
