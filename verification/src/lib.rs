//! Accounting core of a leveraged perpetual-swap venue.
//!
//! Two cooperating parts are modelled as plain state machines over in-memory
//! stores: a constant-product pricing curve ([`vamm`]) and a margin-position
//! ledger ([`engine`]) that opens and closes positions against that curve. A
//! trade crosses between the two as a request message one way and a list of
//! response events the other way; the host that carries them, keeps the
//! stores and validates identities is not part of this crate, and [`host`]
//! holds what it exchanges with the two machines.
//!
//! Amounts are unsigned 128-bit integers scaled by a decimal factor. [`math`]
//! has their scaled arithmetic, [`amount`] their decimal text, in which the
//! curve reports a trade and the engine reads it.
//!
//! Every operation states what it returns and what it leaves in its store,
//! for every input, and every failure leaves the store as it was. The laws
//! that relate several operations are proved beside them: trades never lower
//! the curve invariant, a round trip never pays the trader, increasing orders
//! add up, and the engine reads exactly what the curve reports.

pub mod error;
pub mod math;
pub mod amount;
pub mod host;
pub mod hash;
pub mod vamm;
pub mod engine;
