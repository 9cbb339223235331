//! The price-change computation: the relative change `current/historic - 1`,
//! kept as an exact ratio so that nothing is rounded inside the core.

use vstd::prelude::*;
use crate::PriceError;

verus! {

/// The relative price change `current/historic - 1`, held exactly as the
/// ratio `numerator / denominator` with `denominator > 0`. The numerator is
/// `current - historic`, so the ratio may be negative.
#[derive(Clone, Copy, Debug, PartialEq, Eq)]
pub struct PriceChange {
    pub numerator: i128,
    pub denominator: u64,
}

/// Derives the relative change from a historic and a current price.
///
/// A zero historic price admits no finite ratio and almost certainly marks
/// absent provider data, so it is rejected as `InvalidHistoricPrice` rather
/// than divided through; every positive historic price yields a result.
pub fn compute_price_change(current_price: u64, historic_price: u64) -> (r: Result<
    PriceChange,
    PriceError,
>)
    ensures
        historic_price == 0 <==> r == Err::<PriceChange, PriceError>(
            PriceError::InvalidHistoricPrice,
        ),
        historic_price > 0 ==> (r matches Ok(change) && change.numerator == current_price
            - historic_price && change.denominator == historic_price),
{
    if historic_price == 0 {
        Err(PriceError::InvalidHistoricPrice)
    } else {
        Ok(
            PriceChange {
                numerator: current_price as i128 - historic_price as i128,
                denominator: historic_price,
            },
        )
    }
}

} // verus!
