use margined::engine::contract::{
    execute, instantiate, on_swap_result, parse_increase_swap, parse_swap, query, read_event,
    receive_cw20, reply, CLOSE_POSITION_REPLY_ID, SWAP_DECREASE_REPLY_ID, SWAP_INCREASE_REPLY_ID,
    SWAP_REVERSE_REPLY_ID,
};
use margined::engine::handle::{
    clear_position, close_position, decrease_position, execute_transfer_from,
    finalize_close_position, get_position, increase_position_reply, open_position,
    reverse_position, swap_input, swap_output, update_config,
};
use margined::engine::msg::{
    Cw20HookMsg, Cw20ReceiveMsg, ExecuteMsg, InstantiateMsg, QueryMsg, QueryResponse, Side,
    SwapResponse,
};
use margined::engine::state::{
    read_config, read_position, read_tmp_swap, read_vamm, remove_tmp_swap, store_config,
    store_position, store_tmp_swap, store_vamm, Config, PendingSwap, Position, Storage, Swap, Vamm,
};
use margined::engine::utils::{direction_to_side, side_to_direction, switch_direction};
use margined::error::{ContractError, ErrorKind};
use margined::host::{
    Attribute, CallMsg, Env, Event, MessageInfo, Reply, ReplyOn, Response, SubMsg,
    SubMsgExecutionResponse,
};
use margined::vamm::msg::{Direction, ExecuteMsg as VammExecuteMsg};

const UNIT: u128 = 1_000_000_000;

fn env_at(time: u64) -> Env {
    Env { time, contract: "engine".to_string() }
}

fn info(sender: &str) -> MessageInfo {
    MessageInfo { sender: sender.to_string() }
}

fn engine() -> Storage {
    let mut storage = Storage::new();
    let msg = InstantiateMsg {
        decimals: 9,
        eligible_collateral: "usd".to_string(),
        initial_margin_ratio: 50_000_000,
        maintenance_margin_ratio: 30_000_000,
        liquidation_fee: 10_000_000,
    };
    instantiate(&mut storage, env_at(0), info("owner"), msg).unwrap();
    storage
}

fn attribute(key: &str, value: &str) -> Attribute {
    Attribute { key: key.to_string(), value: value.to_string() }
}

fn wasm_event(input: &str, output: &str) -> Event {
    Event {
        ty: "wasm".to_string(),
        attributes: vec![
            attribute("_contract_address", "vamm"),
            attribute("action", "swap_input"),
            attribute("input", input),
            attribute("output", output),
        ],
    }
}

fn swap_result(id: u64, input: u128, output: u128) -> Reply {
    Reply {
        id,
        result: Ok(SubMsgExecutionResponse {
            events: vec![wasm_event(&input.to_string(), &output.to_string())],
        }),
    }
}

fn order(side: Side, margin: u128, leverage: u128, open_notional: u128) -> Swap {
    Swap {
        vamm: "vamm".to_string(),
        trader: "alice".to_string(),
        side,
        quote_asset_amount: margin,
        leverage,
        open_notional,
    }
}

fn swap_message(id: u64, msg: VammExecuteMsg) -> SubMsg {
    SubMsg {
        id,
        contract_addr: "vamm".to_string(),
        msg: CallMsg::Swap(msg),
        gas_limit: None,
        reply_on: ReplyOn::Always,
    }
}

fn open(
    storage: &mut Storage,
    time: u64,
    side: Side,
    margin: u128,
    leverage: u128,
) -> Result<Response, ContractError> {
    open_position(
        storage,
        env_at(time),
        info("alice"),
        "vamm".to_string(),
        "alice".to_string(),
        side,
        margin,
        leverage,
    )
}

fn position_of(storage: &Storage, trader: &str) -> Option<Position> {
    read_position(storage, &"vamm".to_string(), &trader.to_string()).unwrap()
}

/// An engine in which alice is long: margin 60, leverage 10, bought 5 base.
fn engine_with_long() -> Storage {
    let mut storage = engine();
    open(&mut storage, 10, Side::BUY, 60 * UNIT, 10 * UNIT).unwrap();
    reply(&mut storage, env_at(11), swap_result(SWAP_INCREASE_REPLY_ID, 600 * UNIT, 5 * UNIT))
        .unwrap();
    storage
}

#[test]
fn instantiate_stores_the_settings() {
    let storage = engine();
    assert_eq!(
        read_config(&storage),
        Ok(Config {
            owner: "owner".to_string(),
            eligible_collateral: "usd".to_string(),
            decimals: 1_000_000_000,
            initial_margin_ratio: 50_000_000,
            maintenance_margin_ratio: 30_000_000,
            liquidation_fee: 10_000_000,
        })
    );
    assert_eq!(read_vamm(&storage), Ok(Vamm {}));
    assert_eq!(read_tmp_swap(&storage), Ok(None));
    assert_eq!(position_of(&storage, "alice"), None);
}

#[test]
fn instantiate_refuses_a_scale_that_does_not_fit() {
    let msg = |decimals: u8| InstantiateMsg {
        decimals,
        eligible_collateral: "usd".to_string(),
        initial_margin_ratio: 1,
        maintenance_margin_ratio: 1,
        liquidation_fee: 1,
    };
    let mut storage = Storage::new();
    assert_eq!(
        instantiate(&mut storage, env_at(0), info("owner"), msg(39)),
        Err(ContractError::Overflow)
    );
    assert_eq!(storage, Storage::new());
    instantiate(&mut storage, env_at(0), info("owner"), msg(38)).unwrap();
    assert_eq!(
        read_config(&storage).unwrap().decimals,
        100_000_000_000_000_000_000_000_000_000_000_000_000
    );
    instantiate(&mut storage, env_at(0), info("owner"), msg(0)).unwrap();
    assert_eq!(read_config(&storage).unwrap().decimals, 1);
}

#[test]
fn first_order_is_an_increase() {
    let mut storage = engine();
    let response = open(&mut storage, 10, Side::BUY, 60 * UNIT, 10 * UNIT).unwrap();
    assert_eq!(
        response,
        Response {
            messages: vec![swap_message(
                SWAP_INCREASE_REPLY_ID,
                VammExecuteMsg::SwapInput {
                    direction: Direction::AddToAmm,
                    quote_asset_amount: 600 * UNIT,
                },
            )],
            attributes: vec![attribute("action", "open_position")],
        }
    );
    assert_eq!(
        read_tmp_swap(&storage),
        Ok(Some(PendingSwap::Increase(order(Side::BUY, 60 * UNIT, 10 * UNIT, 600 * UNIT))))
    );
    assert_eq!(position_of(&storage, "alice"), None);
}

#[test]
fn first_sell_order_is_an_increase_of_a_short() {
    let mut storage = engine();
    let response = open(&mut storage, 10, Side::SELL, 60 * UNIT, 10 * UNIT).unwrap();
    assert_eq!(
        response.messages,
        vec![swap_message(
            SWAP_INCREASE_REPLY_ID,
            VammExecuteMsg::SwapInput {
                direction: Direction::RemoveFromAmm,
                quote_asset_amount: 600 * UNIT,
            },
        )]
    );
    reply(&mut storage, env_at(11), swap_result(SWAP_INCREASE_REPLY_ID, 600 * UNIT, 7 * UNIT))
        .unwrap();
    let position = position_of(&storage, "alice").unwrap();
    assert_eq!(position.direction, Direction::RemoveFromAmm);
    assert_eq!(position.size, 7 * UNIT);
}

#[test]
fn open_notional_is_margin_times_leverage_scaled_down() {
    let mut storage = engine();
    open(&mut storage, 10, Side::BUY, 1_234_567_891, 2_500_000_000).unwrap();
    // 1_234_567_891 * 2_500_000_000 / 1_000_000_000 = 3_086_419_727.5, truncated
    assert_eq!(
        read_tmp_swap(&storage),
        Ok(Some(PendingSwap::Increase(order(
            Side::BUY,
            1_234_567_891,
            2_500_000_000,
            3_086_419_727
        ))))
    );
}

#[test]
fn increase_result_creates_the_position() {
    let storage = engine_with_long();
    assert_eq!(
        position_of(&storage, "alice"),
        Some(Position {
            vamm: "vamm".to_string(),
            trader: "alice".to_string(),
            direction: Direction::AddToAmm,
            size: 5 * UNIT,
            margin: 60 * UNIT,
            notional: 600 * UNIT,
            premium_fraction: 0,
            liquidity_history_index: 0,
            timestamp: 11,
        })
    );
    assert_eq!(read_tmp_swap(&storage), Ok(None));
}

#[test]
fn two_increases_accumulate() {
    let mut storage = engine_with_long();
    let response = open(&mut storage, 20, Side::BUY, 40 * UNIT, 5 * UNIT).unwrap();
    assert_eq!(response.messages[0].id, SWAP_INCREASE_REPLY_ID);
    let answer =
        reply(&mut storage, env_at(21), swap_result(SWAP_INCREASE_REPLY_ID, 200 * UNIT, 3 * UNIT))
            .unwrap();
    assert_eq!(answer, Response { messages: vec![], attributes: vec![] });
    assert_eq!(
        position_of(&storage, "alice"),
        Some(Position {
            vamm: "vamm".to_string(),
            trader: "alice".to_string(),
            direction: Direction::AddToAmm,
            size: 8 * UNIT,
            margin: 100 * UNIT,
            notional: 800 * UNIT,
            premium_fraction: 0,
            liquidity_history_index: 0,
            timestamp: 11,
        })
    );
    assert_eq!(read_tmp_swap(&storage), Ok(None));
}

#[test]
fn smaller_opposing_order_is_a_decrease() {
    let mut storage = engine_with_long();
    let response = open(&mut storage, 20, Side::SELL, 30 * UNIT, 10 * UNIT).unwrap();
    assert_eq!(
        response.messages,
        vec![swap_message(
            SWAP_DECREASE_REPLY_ID,
            VammExecuteMsg::SwapInput {
                direction: Direction::RemoveFromAmm,
                quote_asset_amount: 300 * UNIT,
            },
        )]
    );
    assert_eq!(
        read_tmp_swap(&storage),
        Ok(Some(PendingSwap::Decrease(order(Side::SELL, 30 * UNIT, 10 * UNIT, 300 * UNIT))))
    );
    let position = position_of(&storage, "alice").unwrap();
    assert_eq!(position.notional, 300 * UNIT);
    assert_eq!(position.size, 5 * UNIT);
    assert_eq!(position.margin, 60 * UNIT);
    assert_eq!(position.direction, Direction::AddToAmm);
}

#[test]
fn opposing_order_one_unit_below_the_notional_is_a_decrease() {
    let mut storage = engine_with_long();
    let response = open(&mut storage, 20, Side::SELL, 600 * UNIT - 1, UNIT).unwrap();
    assert_eq!(response.messages[0].id, SWAP_DECREASE_REPLY_ID);
    assert_eq!(position_of(&storage, "alice").unwrap().notional, 1);
}

#[test]
fn opposing_order_equal_to_the_notional_is_a_reverse() {
    let mut storage = engine_with_long();
    let response = open(&mut storage, 20, Side::SELL, 60 * UNIT, 10 * UNIT).unwrap();
    assert_eq!(
        response.messages,
        vec![swap_message(
            SWAP_REVERSE_REPLY_ID,
            VammExecuteMsg::SwapOutput {
                direction: Direction::AddToAmm,
                base_asset_amount: 5 * UNIT,
            },
        )]
    );
    assert_eq!(
        read_tmp_swap(&storage),
        Ok(Some(PendingSwap::Reverse(order(Side::SELL, 60 * UNIT, 10 * UNIT, 600 * UNIT))))
    );
    assert_eq!(position_of(&storage, "alice").unwrap().notional, 600 * UNIT);
}

#[test]
fn larger_opposing_order_is_a_reverse() {
    let mut storage = engine_with_long();
    let response = open(&mut storage, 20, Side::SELL, 61 * UNIT, 10 * UNIT).unwrap();
    assert_eq!(response.messages[0].id, SWAP_REVERSE_REPLY_ID);
    assert_eq!(position_of(&storage, "alice").unwrap().notional, 600 * UNIT);
}

#[test]
fn decrease_result_clears_the_pending_order() {
    let mut storage = engine_with_long();
    open(&mut storage, 20, Side::SELL, 30 * UNIT, 10 * UNIT).unwrap();
    let before = position_of(&storage, "alice");
    reply(&mut storage, env_at(21), swap_result(SWAP_DECREASE_REPLY_ID, 300 * UNIT, 2 * UNIT))
        .unwrap();
    assert_eq!(read_tmp_swap(&storage), Ok(None));
    assert_eq!(position_of(&storage, "alice"), before);
}

#[test]
fn reverse_result_clears_the_pending_order() {
    let mut storage = engine_with_long();
    open(&mut storage, 20, Side::SELL, 60 * UNIT, 10 * UNIT).unwrap();
    let before = position_of(&storage, "alice");
    reply(&mut storage, env_at(21), swap_result(SWAP_REVERSE_REPLY_ID, 5 * UNIT, 600 * UNIT))
        .unwrap();
    assert_eq!(read_tmp_swap(&storage), Ok(None));
    assert_eq!(position_of(&storage, "alice"), before);
}

#[test]
fn close_asks_for_the_whole_size_in_the_opposite_direction() {
    let mut storage = engine_with_long();
    let response = close_position(
        &mut storage,
        env_at(30),
        info("alice"),
        "vamm".to_string(),
        "alice".to_string(),
        CLOSE_POSITION_REPLY_ID,
    )
    .unwrap();
    assert_eq!(
        response,
        Response {
            messages: vec![swap_message(
                CLOSE_POSITION_REPLY_ID,
                VammExecuteMsg::SwapOutput {
                    direction: Direction::RemoveFromAmm,
                    base_asset_amount: 5 * UNIT,
                },
            )],
            attributes: vec![attribute("action", "close_position")],
        }
    );
    assert_eq!(
        read_tmp_swap(&storage),
        Ok(Some(PendingSwap::Close { vamm: "vamm".to_string(), trader: "alice".to_string() }))
    );
    let before = position_of(&storage, "alice");
    reply(&mut storage, env_at(31), swap_result(CLOSE_POSITION_REPLY_ID, 5 * UNIT, 600 * UNIT))
        .unwrap();
    assert_eq!(read_tmp_swap(&storage), Ok(None));
    assert_eq!(position_of(&storage, "alice"), before);
}

#[test]
fn closing_a_position_that_does_not_exist_fails_and_changes_nothing() {
    let mut storage = engine_with_long();
    let before = storage.clone();
    let result = close_position(
        &mut storage,
        env_at(30),
        info("bob"),
        "vamm".to_string(),
        "bob".to_string(),
        CLOSE_POSITION_REPLY_ID,
    );
    assert_eq!(result, Err(ContractError::PositionNotFound));
    assert_eq!(result.unwrap_err().kind(), ErrorKind::Precondition);
    assert_eq!(storage, before);
    let result = execute(
        &mut storage,
        env_at(30),
        info("alice"),
        ExecuteMsg::ClosePosition { vamm: "other".to_string() },
    );
    assert_eq!(result, Err(ContractError::PositionNotFound));
    assert_eq!(storage, before);
}

#[test]
fn a_second_order_is_refused_while_one_is_pending() {
    let mut storage = engine();
    open(&mut storage, 10, Side::BUY, 60 * UNIT, 10 * UNIT).unwrap();
    let before = storage.clone();
    assert_eq!(open(&mut storage, 11, Side::BUY, 1, UNIT), Err(ContractError::SwapPending));
    assert_eq!(storage, before);
    let mut storage = engine_with_long();
    open(&mut storage, 20, Side::BUY, 60 * UNIT, 10 * UNIT).unwrap();
    let before = storage.clone();
    assert_eq!(
        close_position(
            &mut storage,
            env_at(21),
            info("alice"),
            "vamm".to_string(),
            "alice".to_string(),
            CLOSE_POSITION_REPLY_ID
        ),
        Err(ContractError::SwapPending)
    );
    assert_eq!(storage, before);
}

#[test]
fn order_arithmetic_failures() {
    let mut storage = engine();
    let before = storage.clone();
    assert_eq!(
        open(&mut storage, 10, Side::BUY, u128::MAX, 2 * UNIT),
        Err(ContractError::Overflow)
    );
    assert_eq!(storage, before);
    // the product is beyond an amount, the order is not
    open(&mut storage, 10, Side::BUY, u128::MAX, UNIT / 2).unwrap();
    assert_eq!(
        read_tmp_swap(&storage),
        Ok(Some(PendingSwap::Increase(order(Side::BUY, u128::MAX, UNIT / 2, u128::MAX / 2))))
    );
    let mut unscaled = Storage::new();
    let config = Config {
        owner: "owner".to_string(),
        eligible_collateral: "usd".to_string(),
        decimals: 0,
        initial_margin_ratio: 0,
        maintenance_margin_ratio: 0,
        liquidation_fee: 0,
    };
    store_config(&mut unscaled, &config).unwrap();
    assert_eq!(open(&mut unscaled, 10, Side::BUY, 5, 2), Err(ContractError::DivideByZero));
    assert_eq!(open(&mut Storage::new(), 10, Side::BUY, 5, 2), Err(ContractError::NotFound));
}

#[test]
fn increase_that_does_not_fit_is_refused() {
    let mut storage = engine_with_long();
    open(&mut storage, 20, Side::BUY, 40 * UNIT, 5 * UNIT).unwrap();
    let before = storage.clone();
    assert_eq!(
        reply(&mut storage, env_at(21), swap_result(SWAP_INCREASE_REPLY_ID, 1, u128::MAX)),
        Err(ContractError::Overflow)
    );
    assert_eq!(storage, before);
}

#[test]
fn result_without_a_pending_operation_is_refused() {
    for id in [
        SWAP_INCREASE_REPLY_ID,
        SWAP_DECREASE_REPLY_ID,
        SWAP_REVERSE_REPLY_ID,
        CLOSE_POSITION_REPLY_ID,
    ] {
        let mut storage = engine_with_long();
        let before = storage.clone();
        assert_eq!(
            reply(&mut storage, env_at(40), swap_result(id, 1, 1)),
            Err(ContractError::NoPendingSwap)
        );
        assert_eq!(storage, before);
    }
    assert_eq!(
        increase_position_reply(&mut engine(), env_at(1), 1, 1),
        Err(ContractError::NoPendingSwap)
    );
    assert_eq!(
        decrease_position(&mut engine(), env_at(1), 1, 1),
        Err(ContractError::NoPendingSwap)
    );
    assert_eq!(reverse_position(&mut engine(), env_at(1), 1, 1), Err(ContractError::NoPendingSwap));
    assert_eq!(
        finalize_close_position(&mut engine(), env_at(1), 1, 1),
        Err(ContractError::NoPendingSwap)
    );
}

#[test]
fn result_of_another_kind_than_the_pending_operation_is_refused() {
    let mut storage = engine_with_long();
    open(&mut storage, 20, Side::BUY, 40 * UNIT, 5 * UNIT).unwrap();
    let before = storage.clone();
    for id in [SWAP_DECREASE_REPLY_ID, SWAP_REVERSE_REPLY_ID, CLOSE_POSITION_REPLY_ID] {
        assert_eq!(
            reply(&mut storage, env_at(21), swap_result(id, 1, 1)),
            Err(ContractError::NoPendingSwap)
        );
        assert_eq!(storage, before);
    }
}

#[test]
fn unknown_continuation_is_refused() {
    let mut storage = engine();
    open(&mut storage, 10, Side::BUY, 60 * UNIT, 10 * UNIT).unwrap();
    let before = storage.clone();
    assert_eq!(
        reply(&mut storage, env_at(11), swap_result(5, 1, 1)),
        Err(ContractError::UnknownReplyId { id: 5 })
    );
    assert_eq!(
        reply(&mut storage, env_at(11), swap_result(0, 1, 1)),
        Err(ContractError::UnknownReplyId { id: 0 })
    );
    let no_events = Reply { id: 77, result: Ok(SubMsgExecutionResponse { events: vec![] }) };
    assert_eq!(
        reply(&mut storage, env_at(11), no_events),
        Err(ContractError::UnknownReplyId { id: 77 })
    );
    assert_eq!(storage, before);
}

#[test]
fn failed_swap_is_reported() {
    let mut storage = engine();
    open(&mut storage, 10, Side::BUY, 60 * UNIT, 10 * UNIT).unwrap();
    let before = storage.clone();
    let failed = Reply { id: SWAP_INCREASE_REPLY_ID, result: Err("out of gas".to_string()) };
    assert_eq!(
        reply(&mut storage, env_at(11), failed),
        Err(ContractError::SwapFailed { id: SWAP_INCREASE_REPLY_ID })
    );
    let failed = Reply { id: 99, result: Err("out of gas".to_string()) };
    assert_eq!(reply(&mut storage, env_at(11), failed), Err(ContractError::SwapFailed { id: 99 }));
    assert_eq!(storage, before);
}

#[test]
fn malformed_swap_result_is_refused() {
    let mut storage = engine();
    open(&mut storage, 10, Side::BUY, 60 * UNIT, 10 * UNIT).unwrap();
    let before = storage.clone();
    let results = vec![
        SubMsgExecutionResponse { events: vec![] },
        SubMsgExecutionResponse {
            events: vec![Event {
                ty: "execute".to_string(),
                attributes: vec![attribute("input", "1"), attribute("output", "1")],
            }],
        },
        SubMsgExecutionResponse {
            events: vec![Event {
                ty: "wasm".to_string(),
                attributes: vec![attribute("input", "1")],
            }],
        },
        SubMsgExecutionResponse {
            events: vec![Event {
                ty: "wasm".to_string(),
                attributes: vec![attribute("output", "1")],
            }],
        },
        SubMsgExecutionResponse { events: vec![wasm_event("one", "1")] },
        SubMsgExecutionResponse { events: vec![wasm_event("1", "")] },
        SubMsgExecutionResponse { events: vec![wasm_event("1", "-1")] },
    ];
    for result in results {
        assert_eq!(
            reply(
                &mut storage,
                env_at(11),
                Reply { id: SWAP_INCREASE_REPLY_ID, result: Ok(result) }
            ),
            Err(ContractError::MalformedReply)
        );
        assert_eq!(storage, before);
    }
}

#[test]
fn swap_amounts_are_read_from_the_first_wasm_event() {
    let response = SubMsgExecutionResponse {
        events: vec![
            Event { ty: "execute".to_string(), attributes: vec![attribute("input", "9")] },
            Event {
                ty: "wasm".to_string(),
                attributes: vec![
                    attribute("action", "swap_input"),
                    attribute("input", "100000000"),
                    attribute("output", "99990000"),
                    attribute("input", "5"),
                ],
            },
            wasm_event("1", "2"),
        ],
    };
    assert_eq!(parse_swap(response), Ok((100_000_000, 99_990_000)));
    assert_eq!(
        parse_swap(SubMsgExecutionResponse { events: vec![] }),
        Err(ContractError::MalformedReply)
    );
}

#[test]
fn attributes_are_found_by_key() {
    let event = wasm_event("3", "4");
    assert_eq!(read_event("input".to_string(), &event), Some(attribute("input", "3")));
    assert_eq!(read_event("action".to_string(), &event), Some(attribute("action", "swap_input")));
    assert_eq!(read_event("inputs".to_string(), &event), None);
}

#[test]
fn an_order_and_its_swap_are_read_from_the_events() {
    let execute_event = Event {
        ty: "execute".to_string(),
        attributes: vec![
            attribute("vamm", "vamm"),
            attribute("trader", "alice"),
            attribute("side", "BUY"),
            attribute("quote_asset_amount", "60"),
            attribute("leverage", "10"),
            attribute("open_notional", "600"),
        ],
    };
    let response = SubMsgExecutionResponse { events: vec![execute_event, wasm_event("600", "5")] };
    assert_eq!(
        parse_increase_swap(response),
        Ok(SwapResponse {
            vamm: "vamm".to_string(),
            trader: "alice".to_string(),
            side: "BUY".to_string(),
            quote_asset_amount: 60,
            leverage: 10,
            open_notional: 600,
            input: 600,
            output: 5,
        })
    );
    let missing = SubMsgExecutionResponse { events: vec![wasm_event("600", "5")] };
    assert_eq!(parse_increase_swap(missing), Err(ContractError::MalformedReply));
    let partial = SubMsgExecutionResponse {
        events: vec![
            Event { ty: "execute".to_string(), attributes: vec![attribute("vamm", "vamm")] },
            wasm_event("600", "5"),
        ],
    };
    assert_eq!(parse_increase_swap(partial), Err(ContractError::MalformedReply));
}

#[test]
fn deposit_opens_a_position_for_the_depositor() {
    let mut storage = engine();
    let deposit = Cw20ReceiveMsg {
        sender: "alice".to_string(),
        amount: 60 * UNIT,
        msg: Some(Cw20HookMsg::OpenPosition {
            vamm: "vamm".to_string(),
            side: Side::BUY,
            leverage: 10 * UNIT,
        }),
    };
    let response = receive_cw20(&mut storage, env_at(10), info("usd"), deposit).unwrap();
    assert_eq!(
        response.messages,
        vec![swap_message(
            SWAP_INCREASE_REPLY_ID,
            VammExecuteMsg::SwapInput {
                direction: Direction::AddToAmm,
                quote_asset_amount: 600 * UNIT,
            },
        )]
    );
    assert_eq!(
        read_tmp_swap(&storage),
        Ok(Some(PendingSwap::Increase(order(Side::BUY, 60 * UNIT, 10 * UNIT, 600 * UNIT))))
    );
}

#[test]
fn deposit_from_another_asset_is_refused() {
    let mut storage = engine();
    let before = storage.clone();
    let deposit = Cw20ReceiveMsg {
        sender: "alice".to_string(),
        amount: 60 * UNIT,
        msg: Some(Cw20HookMsg::OpenPosition {
            vamm: "vamm".to_string(),
            side: Side::BUY,
            leverage: 10 * UNIT,
        }),
    };
    assert_eq!(
        receive_cw20(&mut storage, env_at(10), info("alice"), deposit),
        Err(ContractError::Unauthorized)
    );
    assert_eq!(storage, before);
}

#[test]
fn deposit_without_a_request_is_refused() {
    let mut storage = engine();
    let before = storage.clone();
    let deposit = Cw20ReceiveMsg { sender: "alice".to_string(), amount: 60 * UNIT, msg: None };
    assert_eq!(
        execute(&mut storage, env_at(10), info("usd"), ExecuteMsg::Receive(deposit)),
        Err(ContractError::InvalidHookMessage)
    );
    assert_eq!(storage, before);
}

#[test]
fn execute_opens_and_closes_for_the_sender() {
    let mut storage = engine();
    let response = execute(
        &mut storage,
        env_at(10),
        info("alice"),
        ExecuteMsg::OpenPosition {
            vamm: "vamm".to_string(),
            side: Side::BUY,
            quote_asset_amount: 60 * UNIT,
            leverage: 10 * UNIT,
        },
    )
    .unwrap();
    assert_eq!(response.messages[0].id, SWAP_INCREASE_REPLY_ID);
    assert_eq!(
        read_tmp_swap(&storage),
        Ok(Some(PendingSwap::Increase(order(Side::BUY, 60 * UNIT, 10 * UNIT, 600 * UNIT))))
    );
    reply(&mut storage, env_at(11), swap_result(SWAP_INCREASE_REPLY_ID, 600 * UNIT, 5 * UNIT))
        .unwrap();
    let response = execute(
        &mut storage,
        env_at(12),
        info("alice"),
        ExecuteMsg::ClosePosition { vamm: "vamm".to_string() },
    )
    .unwrap();
    assert_eq!(response.messages[0].id, CLOSE_POSITION_REPLY_ID);
    assert_eq!(response.attributes, vec![attribute("action", "close_position")]);
}

#[test]
fn owner_hands_the_engine_over() {
    let mut storage = engine();
    let response = execute(
        &mut storage,
        env_at(1),
        info("owner"),
        ExecuteMsg::UpdateConfig { owner: "heir".to_string() },
    )
    .unwrap();
    assert_eq!(response, Response { messages: vec![], attributes: vec![] });
    let config = read_config(&storage).unwrap();
    assert_eq!(config.owner, "heir");
    assert_eq!(config.eligible_collateral, "usd");
    assert_eq!(config.decimals, UNIT);
    update_config(&mut storage, info("heir"), "owner".to_string()).unwrap();
    assert_eq!(read_config(&storage).unwrap().owner, "owner");
}

#[test]
fn stranger_may_not_hand_the_engine_over() {
    let mut storage = engine();
    let before = storage.clone();
    assert_eq!(
        update_config(&mut storage, info("stranger"), "stranger".to_string()),
        Err(ContractError::Unauthorized)
    );
    assert_eq!(storage, before);
    assert_eq!(
        update_config(&mut Storage::new(), info("owner"), "heir".to_string()),
        Err(ContractError::NotFound)
    );
}

#[test]
fn queries_answer_from_the_store() {
    let storage = engine_with_long();
    assert_eq!(
        query(&storage, env_at(50), QueryMsg::Config {}),
        Ok(QueryResponse::Config(read_config(&storage).unwrap()))
    );
    assert_eq!(
        query(
            &storage,
            env_at(50),
            QueryMsg::Position { vamm: "vamm".to_string(), trader: "alice".to_string() }
        ),
        Ok(QueryResponse::Position(position_of(&storage, "alice").unwrap()))
    );
    assert_eq!(
        query(
            &storage,
            env_at(50),
            QueryMsg::Position { vamm: "vamm".to_string(), trader: "bob".to_string() }
        ),
        Err(ContractError::PositionNotFound)
    );
    assert_eq!(
        query(&Storage::new(), env_at(50), QueryMsg::Config {}),
        Err(ContractError::NotFound)
    );
}

#[test]
fn ledger_keeps_one_position_for_each_market_and_trader() {
    let mut storage = engine();
    let mut position =
        get_position(&env_at(5), &storage, &"vamm".to_string(), &"alice".to_string(), Side::SELL);
    assert_eq!(
        position,
        Position {
            vamm: "vamm".to_string(),
            trader: "alice".to_string(),
            direction: Direction::RemoveFromAmm,
            size: 0,
            margin: 0,
            notional: 0,
            premium_fraction: 0,
            liquidity_history_index: 0,
            timestamp: 5,
        }
    );
    position.size = 3;
    store_position(&mut storage, &position).unwrap();
    let mut other = position.clone();
    other.trader = "bob".to_string();
    other.size = 4;
    store_position(&mut storage, &other).unwrap();
    let mut elsewhere = position.clone();
    elsewhere.vamm = "vamm2".to_string();
    elsewhere.size = 5;
    store_position(&mut storage, &elsewhere).unwrap();
    position.size = 9;
    store_position(&mut storage, &position).unwrap();
    assert_eq!(position_of(&storage, "alice").unwrap().size, 9);
    assert_eq!(position_of(&storage, "bob").unwrap().size, 4);
    assert_eq!(
        read_position(&storage, &"vamm2".to_string(), &"alice".to_string()).unwrap().unwrap().size,
        5
    );
    assert_eq!(read_position(&storage, &"vamm2".to_string(), &"bob".to_string()), Ok(None));
    // identities are kept apart even where their texts run together alike
    assert_eq!(read_position(&storage, &"vam".to_string(), &"malice".to_string()), Ok(None));
    let found =
        get_position(&env_at(6), &storage, &"vamm".to_string(), &"alice".to_string(), Side::BUY);
    assert_eq!(found, position);
}

#[test]
fn pending_slot_holds_one_operation() {
    let mut storage = engine();
    assert_eq!(read_tmp_swap(&storage), Ok(None));
    let first = PendingSwap::Decrease(order(Side::SELL, 1, 2, 3));
    store_tmp_swap(&mut storage, &first).unwrap();
    assert_eq!(read_tmp_swap(&storage), Ok(Some(first)));
    let second = PendingSwap::Close { vamm: "vamm".to_string(), trader: "bob".to_string() };
    store_tmp_swap(&mut storage, &second).unwrap();
    assert_eq!(read_tmp_swap(&storage), Ok(Some(second)));
    remove_tmp_swap(&mut storage);
    assert_eq!(read_tmp_swap(&storage), Ok(None));
}

#[test]
fn market_record_is_stored_and_read() {
    let mut storage = Storage::new();
    assert_eq!(read_vamm(&storage), Err(ContractError::NotFound));
    store_vamm(&mut storage, &Vamm {}).unwrap();
    assert_eq!(read_vamm(&storage), Ok(Vamm {}));
    assert_eq!(read_config(&storage), Err(ContractError::NotFound));
}

#[test]
fn swap_requests_are_built_from_side_and_amount() {
    let vamm = "vamm".to_string();
    assert_eq!(
        swap_input(&vamm, Side::SELL, 7, 2),
        swap_message(
            2,
            VammExecuteMsg::SwapInput {
                direction: Direction::RemoveFromAmm,
                quote_asset_amount: 7
            }
        )
    );
    assert_eq!(
        swap_output(&vamm, Side::BUY, 8, 3),
        swap_message(
            3,
            VammExecuteMsg::SwapOutput { direction: Direction::AddToAmm, base_asset_amount: 8 }
        )
    );
}

#[test]
fn transfer_request_names_the_collateral_asset() {
    let storage = engine();
    assert_eq!(
        execute_transfer_from(&storage, &"alice".to_string(), &"engine".to_string(), 60),
        Ok(SubMsg {
            id: 0,
            contract_addr: "usd".to_string(),
            msg: CallMsg::TransferFrom {
                owner: "alice".to_string(),
                recipient: "engine".to_string(),
                amount: 60,
            },
            gas_limit: None,
            reply_on: ReplyOn::Never,
        })
    );
    assert_eq!(
        execute_transfer_from(&Storage::new(), &"alice".to_string(), &"engine".to_string(), 60),
        Err(ContractError::NotFound)
    );
}

#[test]
fn cleared_position_keeps_its_identity() {
    let position = position_of(&engine_with_long(), "alice").unwrap();
    let cleared = clear_position(&env_at(99), position);
    assert_eq!(
        cleared,
        Position {
            vamm: "vamm".to_string(),
            trader: "alice".to_string(),
            direction: Direction::AddToAmm,
            size: 0,
            margin: 0,
            notional: 0,
            premium_fraction: 0,
            liquidity_history_index: 0,
            timestamp: 99,
        }
    );
}

#[test]
fn sides_and_directions_correspond() {
    assert_eq!(side_to_direction(Side::BUY), Direction::AddToAmm);
    assert_eq!(side_to_direction(Side::SELL), Direction::RemoveFromAmm);
    assert_eq!(direction_to_side(Direction::AddToAmm), Side::BUY);
    assert_eq!(direction_to_side(Direction::RemoveFromAmm), Side::SELL);
    assert_eq!(switch_direction(Direction::AddToAmm), Direction::RemoveFromAmm);
    assert_eq!(switch_direction(Direction::RemoveFromAmm), Direction::AddToAmm);
}

#[test]
fn amounts_of_a_trade_resume_the_pending_operation() {
    let mut storage = engine();
    open(&mut storage, 10, Side::SELL, 60 * UNIT, 10 * UNIT).unwrap();
    let before = storage.clone();
    assert_eq!(
        on_swap_result(&mut storage, env_at(11), SWAP_DECREASE_REPLY_ID, 600 * UNIT, 7 * UNIT),
        Err(ContractError::NoPendingSwap)
    );
    assert_eq!(
        on_swap_result(&mut storage, env_at(11), 12, 600 * UNIT, 7 * UNIT),
        Err(ContractError::UnknownReplyId { id: 12 })
    );
    assert_eq!(storage, before);
    let response =
        on_swap_result(&mut storage, env_at(11), SWAP_INCREASE_REPLY_ID, 600 * UNIT, 7 * UNIT)
            .unwrap();
    assert_eq!(response, Response { messages: vec![], attributes: vec![] });
    let position = position_of(&storage, "alice").unwrap();
    assert_eq!(position.direction, Direction::RemoveFromAmm);
    assert_eq!(position.size, 7 * UNIT);
    assert_eq!(position.margin, 60 * UNIT);
    assert_eq!(position.notional, 600 * UNIT);
    assert_eq!(read_tmp_swap(&storage), Ok(None));
}
