//! The pricing curve: two reserves, of a quote asset and of a base asset,
//! whose product, scaled down by a decimal factor, is the invariant of the
//! curve.
//!
//! A trade states an amount of one asset and is priced in the other, so that
//! the invariant is kept; integer division is always rounded against the
//! trader, so the invariant can only grow. [`curve`] holds the arithmetic and
//! the laws it obeys, [`handle`] the operations on a stored curve.

pub mod msg;
pub mod state;
pub mod curve;
pub mod handle;
