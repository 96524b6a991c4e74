use margined::engine::contract::{instantiate, reply};
use margined::engine::handle::open_position;
use margined::engine::msg::{InstantiateMsg, Side};
use margined::engine::state::{position_key, read_position, read_tmp_swap, Position};
use margined::host::{
    Attribute, CallMsg, Env, Event, MessageInfo, Reply, Response, SubMsgExecutionResponse,
};
use margined::vamm::handle::{swap_input, swap_output};
use margined::vamm::msg::{Direction, ExecuteMsg};
use margined::vamm::state::{read_state, store_config, store_state, Config, State};
use sha3::{Digest, Sha3_256};

fn env_at(time: u64) -> Env {
    Env { time, contract: "host".to_string() }
}

fn info(sender: &str) -> MessageInfo {
    MessageInfo { sender: sender.to_string() }
}

/// What a host does with a request for a trade: it runs the curve and hands
/// the attributes of the response back under the label `wasm`.
fn carry(curve: &mut margined::vamm::state::Storage, response: &Response) -> Reply {
    let request = &response.messages[0];
    let outcome = match &request.msg {
        CallMsg::Swap(ExecuteMsg::SwapInput { direction, quote_asset_amount }) => {
            swap_input(curve, env_at(0), info("engine"), *direction, *quote_asset_amount)
        }
        CallMsg::Swap(ExecuteMsg::SwapOutput { direction, base_asset_amount }) => {
            swap_output(curve, env_at(0), info("engine"), *direction, *base_asset_amount)
        }
        CallMsg::TransferFrom { .. } => unreachable!(),
    };
    let mut attributes = vec![Attribute {
        key: "_contract_address".to_string(),
        value: request.contract_addr.clone(),
    }];
    attributes.extend(outcome.unwrap().attributes);
    Reply {
        id: request.id,
        result: Ok(SubMsgExecutionResponse {
            events: vec![Event { ty: "wasm".to_string(), attributes }],
        }),
    }
}

#[test]
fn order_travels_through_the_curve_and_back() {
    let mut curve = margined::vamm::state::Storage::new();
    store_config(
        &mut curve,
        &Config {
            owner: "owner".to_string(),
            decimals: 1_000_000_000,
            toll_ratio: 0,
            spread_ratio: 0,
        },
    )
    .unwrap();
    store_state(
        &mut curve,
        &State { quote_asset_reserve: 1_000_000_000_000, base_asset_reserve: 1_000_000_000_000 },
    )
    .unwrap();
    let mut engine = margined::engine::state::Storage::new();
    instantiate(
        &mut engine,
        env_at(0),
        info("owner"),
        InstantiateMsg {
            decimals: 9,
            eligible_collateral: "usd".to_string(),
            initial_margin_ratio: 0,
            maintenance_margin_ratio: 0,
            liquidation_fee: 0,
        },
    )
    .unwrap();

    // margin 0.01 at leverage 10: an order of 0.1 quote
    let response = open_position(
        &mut engine,
        env_at(1),
        info("alice"),
        "vamm".to_string(),
        "alice".to_string(),
        Side::BUY,
        10_000_000,
        10_000_000_000,
    )
    .unwrap();
    let result = carry(&mut curve, &response);
    reply(&mut engine, env_at(2), result).unwrap();
    assert_eq!(
        read_state(&curve),
        Ok(State { quote_asset_reserve: 1_000_100_000_000, base_asset_reserve: 999_900_010_000 })
    );
    assert_eq!(
        read_position(&engine, &"vamm".to_string(), &"alice".to_string()),
        Ok(Some(Position {
            vamm: "vamm".to_string(),
            trader: "alice".to_string(),
            direction: Direction::AddToAmm,
            size: 99_990_000,
            margin: 10_000_000,
            notional: 100_000_000,
            premium_fraction: 0,
            liquidity_history_index: 0,
            timestamp: 2,
        }))
    );
    assert_eq!(read_tmp_swap(&engine), Ok(None));

    // a second order on the same side adds to the position
    let response = open_position(
        &mut engine,
        env_at(3),
        info("alice"),
        "vamm".to_string(),
        "alice".to_string(),
        Side::BUY,
        10_000_000,
        10_000_000_000,
    )
    .unwrap();
    let result = carry(&mut curve, &response);
    reply(&mut engine, env_at(4), result).unwrap();
    let position =
        read_position(&engine, &"vamm".to_string(), &"alice".to_string()).unwrap().unwrap();
    let base_out = 999_900_010_000 - read_state(&curve).unwrap().base_asset_reserve;
    assert_eq!(position.size, 99_990_000 + base_out);
    assert_eq!(position.margin, 20_000_000);
    assert_eq!(position.notional, 200_000_000);
    assert_eq!(position.direction, Direction::AddToAmm);
    assert_eq!(position.timestamp, 2);
}

#[test]
fn position_key_is_the_digest_of_both_identities() {
    let key = position_key(&"vamm1".to_string(), &"trader1".to_string());
    assert_eq!(
        key,
        vec![
            181, 107, 118, 86, 7, 204, 121, 155, 129, 104, 96, 244, 240, 25, 8, 47, 229, 171, 15,
            137, 13, 154, 35, 16, 104, 255, 73, 64, 232, 22, 4, 89
        ]
    );
    let mut hasher = Sha3_256::new();
    hasher.update("vamm1".as_bytes());
    hasher.update("trader1".as_bytes());
    assert_eq!(key, hasher.finalize().to_vec());
}

#[test]
fn position_key_of_a_known_message() {
    // SHA3-256 of "abc"
    let expected: Vec<u8> = vec![
        0x3a, 0x98, 0x5d, 0xa7, 0x4f, 0xe2, 0x25, 0xb2, 0x04, 0x5c, 0x17, 0x2d, 0x6b, 0xd3, 0x90,
        0xbd, 0x85, 0x5f, 0x08, 0x6e, 0x3e, 0x9d, 0x52, 0x5b, 0x46, 0xbf, 0xe2, 0x45, 0x11, 0x43,
        0x15, 0x32,
    ];
    assert_eq!(position_key(&"a".to_string(), &"bc".to_string()), expected);
    assert_eq!(position_key(&"abc".to_string(), &"".to_string()), expected);
    assert_ne!(position_key(&"abc".to_string(), &"d".to_string()), expected);
    assert_eq!(position_key(&"".to_string(), &"".to_string()).len(), 32);
}
