//! What the engine is asked to do, and what it answers.

use vstd::prelude::*;
use vstd::string::*;
use crate::engine::state::{Config, Position};

verus! {

/// The side of an order, as a trader names it.
#[allow(non_camel_case_types)]
#[derive(Clone, Copy, Debug, PartialEq, Eq, Structural)]
pub enum Side {
    BUY,
    SELL,
}

/// The settings an engine starts with.
#[derive(Debug, PartialEq, Eq)]
pub struct InstantiateMsg {
    /// Number of decimal places of every amount; the scale factor is ten to
    /// this power.
    pub decimals: u8,
    /// Identity of the asset that is accepted as collateral.
    pub eligible_collateral: String,
    pub initial_margin_ratio: u128,
    pub maintenance_margin_ratio: u128,
    pub liquidation_fee: u128,
}

/// The request that a deposit of collateral may carry.
#[derive(Debug, PartialEq, Eq)]
pub enum Cw20HookMsg {
    OpenPosition { vamm: String, side: Side, leverage: u128 },
}

/// Notification that `sender` has deposited `amount` of an asset, sent by the
/// asset itself.
#[derive(Debug, PartialEq, Eq)]
pub struct Cw20ReceiveMsg {
    pub sender: String,
    pub amount: u128,
    /// The request that came with the deposit, where it could be read.
    pub msg: Option<Cw20HookMsg>,
}

/// An operation of the engine.
#[derive(Debug, PartialEq, Eq)]
pub enum ExecuteMsg {
    Receive(Cw20ReceiveMsg),
    UpdateConfig { owner: String },
    OpenPosition { vamm: String, side: Side, quote_asset_amount: u128, leverage: u128 },
    ClosePosition { vamm: String },
}

/// A question to the engine.
#[derive(Debug, PartialEq, Eq)]
pub enum QueryMsg {
    Config {  },
    Position { vamm: String, trader: String },
}

/// The answer to a question.
#[derive(Debug, PartialEq, Eq)]
pub enum QueryResponse {
    Config(Config),
    Position(Position),
}

/// A swap result together with the order that led to it, all read from the
/// events of one call.
#[derive(Debug, PartialEq, Eq)]
pub struct SwapResponse {
    pub vamm: String,
    pub trader: String,
    pub side: String,
    pub quote_asset_amount: u128,
    pub leverage: u128,
    pub open_notional: u128,
    pub input: u128,
    pub output: u128,
}

} // verus!
