//! The price ranges over which the two token amounts of a liquidity position
//! are taken.

use vstd::prelude::*;

verus! {

/// A range of square-root prices, in 64.64 fixed point.
#[derive(Clone, Copy, Debug, PartialEq, Eq, Structural)]
pub struct PriceRange {
    pub lower: u128,
    pub upper: u128,
}

/// For each token of a position, the range over which its amount is
/// taken; no range where the position holds nothing of the token.
#[derive(Clone, Copy, Debug, PartialEq, Eq, Structural)]
pub struct AmountRanges {
    pub token_0: Option<PriceRange>,
    pub token_1: Option<PriceRange>,
}

/// The ranges for a position between the prices `a` and `b`, given in
/// either order, at the price `current`: below the position's range it is
/// all in the first token, above it all in the second, and within the range
/// the first token covers the part above the price and the second the part
/// below it.
pub open spec fn ranges_at(current: u128, a: u128, b: u128) -> AmountRanges {
    let lower = if a > b {
        b
    } else {
        a
    };
    let upper = if a > b {
        a
    } else {
        b
    };
    if current <= lower {
        AmountRanges { token_0: Some(PriceRange { lower, upper }), token_1: None }
    } else if current < upper {
        AmountRanges {
            token_0: Some(PriceRange { lower: current, upper }),
            token_1: Some(PriceRange { lower, upper: current }),
        }
    } else {
        AmountRanges { token_0: None, token_1: Some(PriceRange { lower, upper }) }
    }
}

/// Finds the ranges over which the amounts of a position are taken.
pub fn amounts_from_liquidity(
    sqrt_ratio_current_x64: u128,
    sqrt_ratio_a_x64: u128,
    sqrt_ratio_b_x64: u128,
) -> (ranges: AmountRanges)
    ensures
        ranges == ranges_at(sqrt_ratio_current_x64, sqrt_ratio_a_x64, sqrt_ratio_b_x64),
{
    let mut lower = sqrt_ratio_a_x64;
    let mut upper = sqrt_ratio_b_x64;
    if lower > upper {
        lower = sqrt_ratio_b_x64;
        upper = sqrt_ratio_a_x64;
    }
    if sqrt_ratio_current_x64 <= lower {
        AmountRanges { token_0: Some(PriceRange { lower, upper }), token_1: None }
    } else if sqrt_ratio_current_x64 < upper {
        AmountRanges {
            token_0: Some(PriceRange { lower: sqrt_ratio_current_x64, upper }),
            token_1: Some(PriceRange { lower, upper: sqrt_ratio_current_x64 }),
        }
    } else {
        AmountRanges { token_0: None, token_1: Some(PriceRange { lower, upper }) }
    }
}

} // verus!
