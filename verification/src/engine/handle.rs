//! The life of a position: an order is weighed against the position it
//! meets, a trade is asked of the curve, and the ledger is brought up to date
//! when the result of the trade comes back.

use vstd::prelude::*;
use vstd::string::*;
use crate::engine::contract::{
    SWAP_DECREASE_REPLY_ID,
    SWAP_INCREASE_REPLY_ID,
    SWAP_REVERSE_REPLY_ID,
};
use crate::engine::msg::Side;
use crate::engine::state::{
    read_config,
    read_position,
    read_tmp_swap,
    remove_tmp_swap,
    store_config,
    store_position,
    store_tmp_swap,
    Config,
    PendingSwap,
    Position,
    Storage,
    StorageView,
    Swap,
};
use crate::engine::utils::{direction_to_side, side_to_direction, switch_direction};
use crate::error::ContractError;
use crate::host::{
    spec_call_response,
    spec_empty_response,
    CallMsg,
    Env,
    MessageInfo,
    ReplyOn,
    Response,
    SubMsg,
};
use crate::math::{mul_div, spec_mul_div};
use crate::vamm::msg::{Direction, ExecuteMsg};

verus! {

/// The store after its owner has handed the engine to `owner`. Anyone else is
/// refused.
pub open spec fn spec_update_config(
    storage: StorageView,
    sender: String,
    owner: String,
) -> Result<StorageView, ContractError> {
    match storage.config {
        None => Err(ContractError::NotFound),
        Some(config) => if sender@ != config.owner@ {
            Err(ContractError::Unauthorized)
        } else {
            Ok(StorageView { config: Some(Config { owner, ..config }), ..storage })
        },
    }
}

/// Hands the engine to a new owner. Only the present owner may.
pub fn update_config(
    storage: &mut Storage,
    info: MessageInfo,
    owner: String,
) -> (result: Result<Response, ContractError>)
    ensures
        match spec_update_config(old(storage)@, info.sender, owner) {
            Ok(after) => {
                &&& result is Ok
                &&& result->Ok_0@ == spec_empty_response()
                &&& final(storage)@ == after
            },
            Err(e) => {
                &&& result == Err::<Response, ContractError>(e)
                &&& final(storage)@ == old(storage)@
            },
        },
{
    let config = match read_config(storage) {
        Ok(config) => config,
        Err(e) => {
            return Err(e);
        },
    };
    if !(info.sender == config.owner) {
        return Err(ContractError::Unauthorized);
    }
    let new_config = Config {
        owner,
        eligible_collateral: config.eligible_collateral,
        decimals: config.decimals,
        initial_margin_ratio: config.initial_margin_ratio,
        maintenance_margin_ratio: config.maintenance_margin_ratio,
        liquidation_fee: config.liquidation_fee,
    };
    let _ = store_config(storage, &new_config);
    Ok(Response::new())
}

/// The position that an order meets: the stored one, or, for a trader who has
/// none in the market, an empty one in the direction of the order, dated now.
pub open spec fn spec_get_position(
    time: u64,
    positions: Map<(Seq<char>, Seq<char>), Position>,
    vamm: String,
    trader: String,
    side: Side,
) -> Position {
    if positions.dom().contains((vamm@, trader@)) {
        positions[(vamm@, trader@)]
    } else {
        Position {
            vamm,
            trader,
            direction: side_to_direction(side),
            size: 0,
            margin: 0,
            notional: 0,
            premium_fraction: 0,
            liquidity_history_index: 0,
            timestamp: time,
        }
    }
}

/// Whether an order of `side` adds to a position in `direction`.
pub open spec fn spec_is_increase(direction: Direction, side: Side) -> bool {
    ||| direction == Direction::AddToAmm && side == Side::BUY
    ||| direction == Direction::RemoveFromAmm && side == Side::SELL
}

/// The request to trade a stated quote amount on the curve `vamm`, in the
/// direction of `side`, under the continuation `id`.
pub open spec fn spec_swap_input(vamm: String, side: Side, open_notional: u128, id: u64) -> SubMsg {
    SubMsg {
        id,
        contract_addr: vamm,
        msg: CallMsg::Swap(
            ExecuteMsg::SwapInput {
                direction: side_to_direction(side),
                quote_asset_amount: open_notional,
            },
        ),
        gas_limit: None,
        reply_on: ReplyOn::Always,
    }
}

/// The request to trade a stated base amount on the curve `vamm`, in
/// `direction`, under the continuation `id`.
pub open spec fn spec_swap_output(
    vamm: String,
    direction: Direction,
    amount: u128,
    id: u64,
) -> SubMsg {
    SubMsg {
        id,
        contract_addr: vamm,
        msg: CallMsg::Swap(ExecuteMsg::SwapOutput { direction, base_asset_amount: amount }),
        gas_limit: None,
        reply_on: ReplyOn::Always,
    }
}

/// What opening a position leaves in the store, and the trade it asks for.
///
/// The order is sized as margin times leverage, scaled down by the decimal
/// factor, and weighed against the position it meets:
/// - an order on the side of the position is an increase: a trade of the
///   order's size, stated in the quote asset;
/// - an order against a position of larger notional is a decrease: the same
///   trade, and the stored notional is lowered by the order's size at once;
/// - any other order against the position is a reverse: a trade of the whole
///   size of the position, stated in the base asset, in the direction of the
///   position.
///
/// The order waits in the store, under its kind, for the result of the trade.
pub open spec fn spec_open_position(
    storage: StorageView,
    time: u64,
    vamm: String,
    trader: String,
    side: Side,
    quote_asset_amount: u128,
    leverage: u128,
) -> Result<(StorageView, SubMsg), ContractError> {
    match storage.config {
        None => Err(ContractError::NotFound),
        Some(config) => if storage.tmp_swap is Some {
            Err(ContractError::SwapPending)
        } else {
            match spec_mul_div(quote_asset_amount, leverage, config.decimals) {
                Err(e) => Err(e),
                Ok(open_notional) => {
                    let position = spec_get_position(time, storage.positions, vamm, trader, side);
                    let swap = Swap {
                        vamm,
                        trader,
                        side,
                        quote_asset_amount,
                        leverage,
                        open_notional,
                    };
                    if spec_is_increase(position.direction, side) {
                        Ok(
                            (
                                StorageView {
                                    tmp_swap: Some(PendingSwap::Increase(swap)),
                                    ..storage
                                },
                                spec_swap_input(vamm, side, open_notional, SWAP_INCREASE_REPLY_ID),
                            ),
                        )
                    } else if position.notional > open_notional {
                        Ok(
                            (
                                StorageView {
                                    positions: storage.positions.insert(
                                        (vamm@, trader@),
                                        Position {
                                            notional: (position.notional - open_notional) as u128,
                                            ..position
                                        },
                                    ),
                                    tmp_swap: Some(PendingSwap::Decrease(swap)),
                                    ..storage
                                },
                                spec_swap_input(vamm, side, open_notional, SWAP_DECREASE_REPLY_ID),
                            ),
                        )
                    } else {
                        Ok(
                            (
                                StorageView {
                                    tmp_swap: Some(PendingSwap::Reverse(swap)),
                                    ..storage
                                },
                                spec_swap_output(
                                    vamm,
                                    position.direction,
                                    position.size,
                                    SWAP_REVERSE_REPLY_ID,
                                ),
                            ),
                        )
                    }
                },
            }
        },
    }
}

/// An order against a position is a decrease exactly when the notional of the
/// position exceeds the size of the order, and a reverse otherwise; an order
/// whose size equals the notional is a reverse.
pub proof fn lemma_opposing_order_routes(
    storage: StorageView,
    time: u64,
    vamm: String,
    trader: String,
    side: Side,
    quote_asset_amount: u128,
    leverage: u128,
)
    requires
        spec_open_position(storage, time, vamm, trader, side, quote_asset_amount, leverage) is Ok,
        !spec_is_increase(
            spec_get_position(time, storage.positions, vamm, trader, side).direction,
            side,
        ),
    ensures
        ({
            let (after, msg) = spec_open_position(
                storage,
                time,
                vamm,
                trader,
                side,
                quote_asset_amount,
                leverage,
            )->Ok_0;
            let position = spec_get_position(time, storage.positions, vamm, trader, side);
            let open_notional = spec_mul_div(
                quote_asset_amount,
                leverage,
                storage.config->Some_0.decimals,
            )->Ok_0;
            &&& position.notional > open_notional ==> msg.id == SWAP_DECREASE_REPLY_ID
                && after.tmp_swap->Some_0 is Decrease
            &&& position.notional <= open_notional ==> msg.id == SWAP_REVERSE_REPLY_ID
                && after.tmp_swap->Some_0 is Reverse
        }),
{
}

/// Opens a position for `trader` in the market `vamm`, or adds an order to
/// the one the trader has there. The response carries the one trade that the
/// order needs; a refused order leaves the store as it was.
pub fn open_position(
    storage: &mut Storage,
    env: Env,
    _info: MessageInfo,
    vamm: String,
    trader: String,
    side: Side,
    quote_asset_amount: u128,
    leverage: u128,
) -> (result: Result<Response, ContractError>)
    ensures
        match spec_open_position(
            old(storage)@,
            env.time,
            vamm,
            trader,
            side,
            quote_asset_amount,
            leverage,
        ) {
            Ok((after, msg)) => {
                &&& result is Ok
                &&& result->Ok_0@ == spec_call_response("open_position"@, msg)
                &&& final(storage)@ == after
            },
            Err(e) => {
                &&& result == Err::<Response, ContractError>(e)
                &&& final(storage)@ == old(storage)@
            },
        },
        result is Ok ==> old(storage)@.tmp_swap is None && final(storage)@.tmp_swap is Some,
{
    let config = match read_config(storage) {
        Ok(config) => config,
        Err(e) => {
            return Err(e);
        },
    };
    if storage.tmp_swap.is_some() {
        return Err(ContractError::SwapPending);
    }
    let open_notional = match mul_div(quote_asset_amount, leverage, config.decimals) {
        Ok(open_notional) => open_notional,
        Err(e) => {
            return Err(e);
        },
    };
    let position = get_position(&env, storage, &vamm, &trader, side);
    let swap = Swap {
        vamm: vamm.clone(),
        trader: trader.clone(),
        side,
        quote_asset_amount,
        leverage,
        open_notional,
    };
    let is_increase = match (position.direction, side) {
        (Direction::AddToAmm, Side::BUY) => true,
        (Direction::RemoveFromAmm, Side::SELL) => true,
        _ => false,
    };
    let (msg, pending) = if is_increase {
        (internal_increase_position(vamm, side, open_notional), PendingSwap::Increase(swap))
    } else if position.notional > open_notional {
        let msg = swap_input(&vamm, side, open_notional, SWAP_DECREASE_REPLY_ID);
        let mut lowered = position;
        lowered.notional = lowered.notional - open_notional;
        let _ = store_position(storage, &lowered);
        (msg, PendingSwap::Decrease(swap))
    } else {
        let msg = swap_output(
            &vamm,
            direction_to_side(position.direction),
            position.size,
            SWAP_REVERSE_REPLY_ID,
        );
        (msg, PendingSwap::Reverse(swap))
    };
    let _ = store_tmp_swap(storage, &pending);
    let response = Response::new().add_submessage(msg).add_attribute("action", "open_position");
    assert(response@.messages =~= seq![msg]);
    assert(response@.attributes =~= seq![("action"@, "open_position"@)]);
    Ok(response)
}

/// What closing a position leaves in the store, and the trade it asks for: a
/// trade of the whole size of the position, stated in the base asset, in the
/// direction opposite to that of the position, under the continuation `id`.
/// The closing waits in the store for the result of the trade.
pub open spec fn spec_close_position(
    storage: StorageView,
    vamm: String,
    trader: String,
    id: u64,
) -> Result<(StorageView, SubMsg), ContractError> {
    if !storage.positions.dom().contains((vamm@, trader@)) {
        Err(ContractError::PositionNotFound)
    } else if storage.tmp_swap is Some {
        Err(ContractError::SwapPending)
    } else {
        let position = storage.positions[(vamm@, trader@)];
        Ok(
            (
                StorageView { tmp_swap: Some(PendingSwap::Close { vamm, trader }), ..storage },
                spec_swap_output(vamm, switch_direction(position.direction), position.size, id),
            ),
        )
    }
}

/// Closes the position of `trader` in the market `vamm`.
///
/// Where the trader has no position there, the call fails with
/// `PositionNotFound`, a failure of a precondition. Every failure leaves the
/// store as it was.
pub fn close_position(
    storage: &mut Storage,
    _env: Env,
    _info: MessageInfo,
    vamm: String,
    trader: String,
    id: u64,
) -> (result: Result<Response, ContractError>)
    ensures
        match spec_close_position(old(storage)@, vamm, trader, id) {
            Ok((after, msg)) => {
                &&& result is Ok
                &&& result->Ok_0@ == spec_call_response("close_position"@, msg)
                &&& final(storage)@ == after
            },
            Err(e) => {
                &&& result == Err::<Response, ContractError>(e)
                &&& final(storage)@ == old(storage)@
            },
        },
        !old(storage)@.positions.dom().contains((vamm@, trader@)) ==> result == Err::<
            Response,
            ContractError,
        >(ContractError::PositionNotFound),
        result is Ok ==> old(storage)@.tmp_swap is None && final(storage)@.tmp_swap is Some,
{
    let position = match read_position(storage, &vamm, &trader) {
        Ok(Some(position)) => position,
        Ok(None) => {
            return Err(ContractError::PositionNotFound);
        },
        Err(e) => {
            return Err(e);
        },
    };
    if storage.tmp_swap.is_some() {
        return Err(ContractError::SwapPending);
    }
    let direction = switch_direction(position.direction);
    let amount = position.size;
    let msg = SubMsg {
        id,
        contract_addr: vamm.clone(),
        msg: CallMsg::Swap(ExecuteMsg::SwapOutput { direction, base_asset_amount: amount }),
        gas_limit: None,
        reply_on: ReplyOn::Always,
    };
    let _ = store_tmp_swap(storage, &PendingSwap::Close { vamm, trader });
    let response = Response::new().add_attribute("action", "close_position").add_submessage(msg);
    assert(response@.messages =~= seq![msg]);
    assert(response@.attributes =~= seq![("action"@, "close_position"@)]);
    Ok(response)
}

/// The store after the result of a closing trade has come back: the closing
/// no longer waits. The ledger is as before.
pub open spec fn spec_finalize_close_position(
    storage: StorageView,
) -> Result<StorageView, ContractError> {
    match storage.tmp_swap {
        Some(PendingSwap::Close { .. }) => Ok(StorageView { tmp_swap: None, ..storage }),
        _ => Err(ContractError::NoPendingSwap),
    }
}

/// Resumes the closing of a position with the result of its trade.
pub fn finalize_close_position(
    storage: &mut Storage,
    _env: Env,
    _input: u128,
    _output: u128,
) -> (result: Result<Response, ContractError>)
    ensures
        match spec_finalize_close_position(old(storage)@) {
            Ok(after) => {
                &&& result is Ok
                &&& result->Ok_0@ == spec_empty_response()
                &&& final(storage)@ == after
            },
            Err(e) => {
                &&& result == Err::<Response, ContractError>(e)
                &&& final(storage)@ == old(storage)@
            },
        },
{
    match read_tmp_swap(storage) {
        Ok(Some(PendingSwap::Close { .. })) => {},
        _ => {
            return Err(ContractError::NoPendingSwap);
        },
    }
    remove_tmp_swap(storage);
    Ok(Response::new())
}

/// A position after an order of `swap` has bought `output` of the base asset:
/// size, margin and notional each grow by what the order brought, and the
/// direction is that of the order. Fails where a sum does not fit.
pub open spec fn spec_increased(
    position: Position,
    swap: Swap,
    output: u128,
) -> Result<Position, ContractError> {
    if position.size + output > u128::MAX || position.margin + swap.quote_asset_amount > u128::MAX
        || position.notional + swap.open_notional > u128::MAX {
        Err(ContractError::Overflow)
    } else {
        Ok(
            Position {
                direction: side_to_direction(swap.side),
                size: (position.size + output) as u128,
                margin: (position.margin + swap.quote_asset_amount) as u128,
                notional: (position.notional + swap.open_notional) as u128,
                ..position
            },
        )
    }
}

/// The store after the result of an increasing trade has come back: the
/// position that the order meets, grown by the order, is in the ledger, and
/// the order no longer waits.
pub open spec fn spec_increase_position_reply(
    storage: StorageView,
    time: u64,
    output: u128,
) -> Result<StorageView, ContractError> {
    match storage.tmp_swap {
        Some(PendingSwap::Increase(swap)) => {
            let position = spec_get_position(
                time,
                storage.positions,
                swap.vamm,
                swap.trader,
                swap.side,
            );
            match spec_increased(position, swap, output) {
                Err(e) => Err(e),
                Ok(increased) => Ok(
                    StorageView {
                        positions: storage.positions.insert(
                            (swap.vamm@, swap.trader@),
                            increased,
                        ),
                        tmp_swap: None,
                        ..storage
                    },
                ),
            }
        },
        _ => Err(ContractError::NoPendingSwap),
    }
}

/// Resumes an increasing order with the result of its trade: `output` is the
/// base amount that the trade bought. The margin is entered in the ledger;
/// the collateral itself is not moved, and the response asks for nothing.
pub fn increase_position_reply(
    storage: &mut Storage,
    env: Env,
    _input: u128,
    output: u128,
) -> (result: Result<Response, ContractError>)
    ensures
        match spec_increase_position_reply(old(storage)@, env.time, output) {
            Ok(after) => {
                &&& result is Ok
                &&& result->Ok_0@ == spec_empty_response()
                &&& final(storage)@ == after
            },
            Err(e) => {
                &&& result == Err::<Response, ContractError>(e)
                &&& final(storage)@ == old(storage)@
            },
        },
{
    let swap = match read_tmp_swap(storage) {
        Ok(Some(PendingSwap::Increase(swap))) => swap,
        _ => {
            return Err(ContractError::NoPendingSwap);
        },
    };
    let mut position = get_position(&env, storage, &swap.vamm, &swap.trader, swap.side);
    position.size = match position.size.checked_add(output) {
        Some(sum) => sum,
        None => {
            return Err(ContractError::Overflow);
        },
    };
    position.margin = match position.margin.checked_add(swap.quote_asset_amount) {
        Some(sum) => sum,
        None => {
            return Err(ContractError::Overflow);
        },
    };
    position.notional = match position.notional.checked_add(swap.open_notional) {
        Some(sum) => sum,
        None => {
            return Err(ContractError::Overflow);
        },
    };
    position.direction = side_to_direction(swap.side);
    let _ = store_position(storage, &position);
    remove_tmp_swap(storage);
    Ok(Response::new())
}

/// The store after an order has been placed at `open_time` and the result of
/// its trade, `output` of the base asset, has come back at `reply_time` to
/// the continuation of an increasing order.
pub open spec fn spec_increase(
    storage: StorageView,
    open_time: u64,
    reply_time: u64,
    vamm: String,
    trader: String,
    side: Side,
    quote_asset_amount: u128,
    leverage: u128,
    output: u128,
) -> Result<StorageView, ContractError> {
    match spec_open_position(storage, open_time, vamm, trader, side, quote_asset_amount, leverage) {
        Err(e) => Err(e),
        Ok((waiting, _)) => spec_increase_position_reply(waiting, reply_time, output),
    }
}

/// Two increasing orders on one side, each carried through to the result of
/// its trade, add up: the size of the position grows by the two base amounts
/// bought, its margin by the two amounts posted, its notional by the sizes of
/// the two orders. The direction of the position stays what it was, and no
/// order is left waiting. A position that the first order creates is dated by
/// the time at which the result of its trade came back.
pub proof fn lemma_increases_accumulate(
    storage: StorageView,
    vamm: String,
    trader: String,
    side: Side,
    first_times: (u64, u64),
    first_amount: u128,
    first_leverage: u128,
    first_output: u128,
    second_times: (u64, u64),
    second_amount: u128,
    second_leverage: u128,
    second_output: u128,
)
    requires
        spec_increase(
            storage,
            first_times.0,
            first_times.1,
            vamm,
            trader,
            side,
            first_amount,
            first_leverage,
            first_output,
        ) is Ok,
        spec_increase(
            spec_increase(
                storage,
                first_times.0,
                first_times.1,
                vamm,
                trader,
                side,
                first_amount,
                first_leverage,
                first_output,
            )->Ok_0,
            second_times.0,
            second_times.1,
            vamm,
            trader,
            side,
            second_amount,
            second_leverage,
            second_output,
        ) is Ok,
    ensures
        ({
            let before = spec_get_position(first_times.1, storage.positions, vamm, trader, side);
            let decimals = storage.config->Some_0.decimals;
            let first_notional = spec_mul_div(first_amount, first_leverage, decimals)->Ok_0;
            let second_notional = spec_mul_div(second_amount, second_leverage, decimals)->Ok_0;
            let after = spec_increase(
                spec_increase(
                    storage,
                    first_times.0,
                    first_times.1,
                    vamm,
                    trader,
                    side,
                    first_amount,
                    first_leverage,
                    first_output,
                )->Ok_0,
                second_times.0,
                second_times.1,
                vamm,
                trader,
                side,
                second_amount,
                second_leverage,
                second_output,
            )->Ok_0;
            &&& after.tmp_swap is None
            &&& after.positions.dom().contains((vamm@, trader@))
            &&& after.positions[(vamm@, trader@)] == (Position {
                size: (before.size + first_output + second_output) as u128,
                margin: (before.margin + first_amount + second_amount) as u128,
                notional: (before.notional + first_notional + second_notional) as u128,
                ..before
            })
            &&& before.size + first_output + second_output <= u128::MAX
            &&& before.margin + first_amount + second_amount <= u128::MAX
            &&& before.notional + first_notional + second_notional <= u128::MAX
        }),
{
    let before = spec_get_position(first_times.1, storage.positions, vamm, trader, side);
    let (waiting, _) = spec_open_position(
        storage,
        first_times.0,
        vamm,
        trader,
        side,
        first_amount,
        first_leverage,
    )->Ok_0;
    let once = spec_increase_position_reply(waiting, first_times.1, first_output)->Ok_0;
    assert(waiting.positions == storage.positions);
    assert(once.positions.dom().contains((vamm@, trader@)));
    let between = spec_get_position(second_times.0, once.positions, vamm, trader, side);
    assert(between == once.positions[(vamm@, trader@)]);
    assert(between.direction == side_to_direction(side));
    assert(spec_is_increase(between.direction, side));
    let (rewaiting, _) = spec_open_position(
        once,
        second_times.0,
        vamm,
        trader,
        side,
        second_amount,
        second_leverage,
    )->Ok_0;
    assert(rewaiting.positions == once.positions);
    let twice = spec_increase_position_reply(rewaiting, second_times.1, second_output)->Ok_0;
    assert(twice.positions.dom().contains((vamm@, trader@)));
}

/// The store after the result of a decreasing trade has come back: the order
/// no longer waits. The ledger is as the order left it when it was placed.
pub open spec fn spec_decrease_position(
    storage: StorageView,
) -> Result<StorageView, ContractError> {
    match storage.tmp_swap {
        Some(PendingSwap::Decrease(_)) => Ok(StorageView { tmp_swap: None, ..storage }),
        _ => Err(ContractError::NoPendingSwap),
    }
}

/// Resumes a decreasing order with the result of its trade.
pub fn decrease_position(
    storage: &mut Storage,
    _env: Env,
    _input: u128,
    _output: u128,
) -> (result: Result<Response, ContractError>)
    ensures
        match spec_decrease_position(old(storage)@) {
            Ok(after) => {
                &&& result is Ok
                &&& result->Ok_0@ == spec_empty_response()
                &&& final(storage)@ == after
            },
            Err(e) => {
                &&& result == Err::<Response, ContractError>(e)
                &&& final(storage)@ == old(storage)@
            },
        },
{
    match read_tmp_swap(storage) {
        Ok(Some(PendingSwap::Decrease(_))) => {},
        _ => {
            return Err(ContractError::NoPendingSwap);
        },
    }
    remove_tmp_swap(storage);
    Ok(Response::new())
}

/// The store after the result of a reversing trade has come back: the order
/// no longer waits. The ledger is as before.
pub open spec fn spec_reverse_position(storage: StorageView) -> Result<StorageView, ContractError> {
    match storage.tmp_swap {
        Some(PendingSwap::Reverse(_)) => Ok(StorageView { tmp_swap: None, ..storage }),
        _ => Err(ContractError::NoPendingSwap),
    }
}

/// Resumes a reversing order with the result of its trade.
pub fn reverse_position(
    storage: &mut Storage,
    _env: Env,
    _input: u128,
    _output: u128,
) -> (result: Result<Response, ContractError>)
    ensures
        match spec_reverse_position(old(storage)@) {
            Ok(after) => {
                &&& result is Ok
                &&& result->Ok_0@ == spec_empty_response()
                &&& final(storage)@ == after
            },
            Err(e) => {
                &&& result == Err::<Response, ContractError>(e)
                &&& final(storage)@ == old(storage)@
            },
        },
{
    match read_tmp_swap(storage) {
        Ok(Some(PendingSwap::Reverse(_))) => {},
        _ => {
            return Err(ContractError::NoPendingSwap);
        },
    }
    remove_tmp_swap(storage);
    Ok(Response::new())
}

/// The trade that an increasing order asks for.
fn internal_increase_position(vamm: String, side: Side, open_notional: u128) -> (msg: SubMsg)
    ensures
        msg == spec_swap_input(vamm, side, open_notional, SWAP_INCREASE_REPLY_ID),
{
    swap_input(&vamm, side, open_notional, SWAP_INCREASE_REPLY_ID)
}

/// A position with its size, margin and notional set to zero, dated now.
pub fn clear_position(env: &Env, position: Position) -> (cleared: Position)
    ensures
        cleared == (Position { size: 0, margin: 0, notional: 0, timestamp: env.time, ..position }),
{
    let mut position = position;
    position.size = 0;
    position.margin = 0;
    position.notional = 0;
    position.timestamp = env.time;
    position
}

/// Builds the request for a trade that states a quote amount.
pub fn swap_input(vamm: &String, side: Side, open_notional: u128, id: u64) -> (msg: SubMsg)
    ensures
        msg == spec_swap_input(*vamm, side, open_notional, id),
{
    let direction = side_to_direction(side);
    SubMsg {
        id,
        contract_addr: vamm.clone(),
        msg: CallMsg::Swap(ExecuteMsg::SwapInput { direction, quote_asset_amount: open_notional }),
        gas_limit: None,
        reply_on: ReplyOn::Always,
    }
}

/// Builds the request for a trade that states a base amount.
pub fn swap_output(vamm: &String, side: Side, open_notional: u128, id: u64) -> (msg: SubMsg)
    ensures
        msg == spec_swap_output(*vamm, side_to_direction(side), open_notional, id),
{
    let direction = side_to_direction(side);
    SubMsg {
        id,
        contract_addr: vamm.clone(),
        msg: CallMsg::Swap(ExecuteMsg::SwapOutput { direction, base_asset_amount: open_notional }),
        gas_limit: None,
        reply_on: ReplyOn::Always,
    }
}

/// Builds the request to move `amount` of the collateral asset from `sender`
/// to `receiver`. No continuation is asked for.
pub fn execute_transfer_from(
    storage: &Storage,
    sender: &String,
    receiver: &String,
    amount: u128,
) -> (result: Result<SubMsg, ContractError>)
    ensures
        match storage@.config {
            None => result == Err::<SubMsg, ContractError>(ContractError::NotFound),
            Some(config) => result == Ok::<SubMsg, ContractError>(
                SubMsg {
                    id: 0,
                    contract_addr: config.eligible_collateral,
                    msg: CallMsg::TransferFrom { owner: *sender, recipient: *receiver, amount },
                    gas_limit: None,
                    reply_on: ReplyOn::Never,
                },
            ),
        },
{
    let config = match read_config(storage) {
        Ok(config) => config,
        Err(e) => {
            return Err(e);
        },
    };
    Ok(
        SubMsg {
            id: 0,
            contract_addr: config.eligible_collateral,
            msg: CallMsg::TransferFrom {
                owner: sender.clone(),
                recipient: receiver.clone(),
                amount,
            },
            gas_limit: None,
            reply_on: ReplyOn::Never,
        },
    )
}

/// The position that an order of `side` by `trader` in `vamm` meets.
pub fn get_position(
    env: &Env,
    storage: &Storage,
    vamm: &String,
    trader: &String,
    side: Side,
) -> (position: Position)
    ensures
        position == spec_get_position(env.time, storage@.positions, *vamm, *trader, side),
        position.key() == (vamm@, trader@),
{
    match read_position(storage, vamm, trader) {
        Ok(Some(position)) => position,
        _ => Position {
            vamm: vamm.clone(),
            trader: trader.clone(),
            direction: side_to_direction(side),
            size: 0,
            margin: 0,
            notional: 0,
            premium_fraction: 0,
            liquidity_history_index: 0,
            timestamp: env.time,
        },
    }
}

} // verus!
