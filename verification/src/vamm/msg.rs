//! What the curve is asked to do.

use vstd::prelude::*;

verus! {

/// Which way a trade moves the reserve whose amount the trade states.
#[derive(Clone, Copy, Debug, PartialEq, Eq, Structural)]
pub enum Direction {
    /// The stated amount is added to its reserve.
    AddToAmm,
    /// The stated amount is taken out of its reserve.
    RemoveFromAmm,
}

/// A trade against the curve.
#[derive(Clone, Copy, Debug, PartialEq, Eq, Structural)]
pub enum ExecuteMsg {
    /// Trade a stated amount of the quote asset.
    SwapInput { direction: Direction, quote_asset_amount: u128 },
    /// Trade a stated amount of the base asset.
    SwapOutput { direction: Direction, base_asset_amount: u128 },
}

} // verus!
