//! How the sides of an order relate to the directions of a trade.

use vstd::prelude::*;
use crate::engine::msg::Side;
use crate::vamm::msg::Direction;

verus! {

/// Buying adds to the curve, selling removes from it.
pub open spec fn spec_side_to_direction(side: Side) -> Direction {
    match side {
        Side::BUY => Direction::AddToAmm,
        Side::SELL => Direction::RemoveFromAmm,
    }
}

/// The side whose trades go in `direction`.
pub open spec fn spec_direction_to_side(direction: Direction) -> Side {
    match direction {
        Direction::AddToAmm => Side::BUY,
        Direction::RemoveFromAmm => Side::SELL,
    }
}

/// The other direction.
pub open spec fn spec_switch_direction(direction: Direction) -> Direction {
    match direction {
        Direction::AddToAmm => Direction::RemoveFromAmm,
        Direction::RemoveFromAmm => Direction::AddToAmm,
    }
}

/// The direction of the trades of `side`.
#[verifier::when_used_as_spec(spec_side_to_direction)]
pub fn side_to_direction(side: Side) -> (direction: Direction)
    ensures
        direction == spec_side_to_direction(side),
{
    match side {
        Side::BUY => Direction::AddToAmm,
        Side::SELL => Direction::RemoveFromAmm,
    }
}

/// The side whose trades go in `direction`.
#[verifier::when_used_as_spec(spec_direction_to_side)]
pub fn direction_to_side(direction: Direction) -> (side: Side)
    ensures
        side == spec_direction_to_side(direction),
{
    match direction {
        Direction::AddToAmm => Side::BUY,
        Direction::RemoveFromAmm => Side::SELL,
    }
}

/// The other direction.
#[verifier::when_used_as_spec(spec_switch_direction)]
pub fn switch_direction(direction: Direction) -> (other: Direction)
    ensures
        other == spec_switch_direction(direction),
{
    match direction {
        Direction::AddToAmm => Direction::RemoveFromAmm,
        Direction::RemoveFromAmm => Direction::AddToAmm,
    }
}

} // verus!
