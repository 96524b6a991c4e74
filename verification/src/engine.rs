//! The margin engine: a ledger of leveraged positions, opened and closed by
//! trades that it asks a pricing curve to make.
//!
//! Every order takes two steps. In the first the engine weighs the order
//! against the position it meets, records it as the one pending operation of
//! the store, and hands the host a request for a trade, tagged with a
//! continuation id. In the second the host delivers the outcome of that trade
//! under the same id, and the engine resumes the pending operation, brings
//! the ledger up to date and clears the record. At most one operation is
//! pending in a store at any time; a further order is refused until the
//! pending one has been resumed.
//!
//! A failure in either step leaves the store untouched. A host that learns
//! of a failed trade discards whatever the first step had written, so that a
//! transaction is either carried through or leaves no trace; [`state::Storage`]
//! can be cloned for that purpose.
//!
//! Only an increasing order changes the ledger when it is resumed. Orders
//! that decrease or reverse a position, and the closing of a position, are
//! carried through the same two steps and leave the ledger as they find it
//! when they are resumed. No operation moves collateral.

pub mod msg;
pub mod state;
pub mod utils;
pub mod handle;
pub mod contract;
