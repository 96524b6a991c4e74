//! The entry points of the engine, and the reading of the events in which
//! the curve reports a trade.

use vstd::prelude::*;
use vstd::string::*;
use vstd::arithmetic::power::{lemma_pow_increases, pow};
use crate::amount::{from_str, lemma_from_str_inverts_to_string, spec_from_str, spec_to_string};
use crate::vamm::handle::spec_swap_attributes;
use crate::engine::handle::{
    close_position,
    decrease_position,
    finalize_close_position,
    increase_position_reply,
    open_position,
    reverse_position,
    spec_close_position,
    spec_decrease_position,
    spec_finalize_close_position,
    spec_increase_position_reply,
    spec_open_position,
    spec_reverse_position,
    spec_update_config,
    update_config,
};
use crate::engine::msg::{
    Cw20HookMsg,
    Cw20ReceiveMsg,
    ExecuteMsg,
    InstantiateMsg,
    QueryMsg,
    QueryResponse,
    SwapResponse,
};
use crate::engine::state::{
    read_config,
    read_position,
    store_config,
    store_vamm,
    Config,
    Storage,
    StorageView,
    Vamm,
};
use crate::error::ContractError;
use crate::host::{
    spec_call_response,
    spec_empty_response,
    Attribute,
    Env,
    Event,
    MessageInfo,
    Reply,
    Response,
    ResponseView,
    SubMsg,
    SubMsgExecutionResponse,
};

verus! {

/// Continuation of an increasing order.
pub const SWAP_INCREASE_REPLY_ID: u64 = 1;

/// Continuation of a decreasing order.
pub const SWAP_DECREASE_REPLY_ID: u64 = 2;

/// Continuation of a reversing order.
pub const SWAP_REVERSE_REPLY_ID: u64 = 3;

/// Continuation of the closing of a position.
pub const CLOSE_POSITION_REPLY_ID: u64 = 4;

/// Ten to the power of `places`, where that fits in an amount.
fn scale_factor(places: u8) -> (factor: Option<u128>)
    ensures
        factor == if pow(10, places as nat) <= u128::MAX {
            Some(pow(10, places as nat) as u128)
        } else {
            None
        },
{
    let mut factor: u128 = 1;
    let mut done: u8 = 0;
    proof {
        reveal(pow);
    }
    while done < places
        invariant
            done <= places,
            factor == pow(10, done as nat),
        decreases places - done,
    {
        proof {
            reveal(pow);
            assert(pow(10, (done + 1) as nat) == 10 * pow(10, done as nat));
            lemma_pow_increases(10, (done + 1) as nat, places as nat);
        }
        factor = match factor.checked_mul(10) {
            Some(product) => product,
            None => {
                return None;
            },
        };
        done += 1;
    }
    Some(factor)
}

/// The store of an engine that has been set up by `sender` with `msg`, or
/// `Overflow` where the scale factor does not fit in an amount.
pub open spec fn spec_instantiate(
    storage: StorageView,
    sender: String,
    msg: InstantiateMsg,
) -> Result<StorageView, ContractError> {
    if pow(10, msg.decimals as nat) > u128::MAX {
        Err(ContractError::Overflow)
    } else {
        Ok(
            StorageView {
                config: Some(
                    Config {
                        owner: sender,
                        eligible_collateral: msg.eligible_collateral,
                        decimals: pow(10, msg.decimals as nat) as u128,
                        initial_margin_ratio: msg.initial_margin_ratio,
                        maintenance_margin_ratio: msg.maintenance_margin_ratio,
                        liquidation_fee: msg.liquidation_fee,
                    },
                ),
                vamm: Some(Vamm {  }),
                ..storage
            },
        )
    }
}

/// Sets an engine up. The sender becomes its owner.
pub fn instantiate(
    storage: &mut Storage,
    _env: Env,
    info: MessageInfo,
    msg: InstantiateMsg,
) -> (result: Result<Response, ContractError>)
    ensures
        match spec_instantiate(old(storage)@, info.sender, msg) {
            Ok(after) => {
                &&& result is Ok
                &&& result->Ok_0@ == spec_empty_response()
                &&& final(storage)@ == after
            },
            Err(e) => {
                &&& result == Err::<Response, ContractError>(e)
                &&& final(storage)@ == old(storage)@
            },
        },
{
    let decimals = match scale_factor(msg.decimals) {
        Some(decimals) => decimals,
        None => {
            return Err(ContractError::Overflow);
        },
    };
    let config = Config {
        owner: info.sender,
        eligible_collateral: msg.eligible_collateral,
        decimals,
        initial_margin_ratio: msg.initial_margin_ratio,
        maintenance_margin_ratio: msg.maintenance_margin_ratio,
        liquidation_fee: msg.liquidation_fee,
    };
    let _ = store_config(storage, &config);
    let _ = store_vamm(storage, &Vamm {  });
    Ok(Response::new())
}

/// What a deposit of collateral leaves in the store, and the trade it asks
/// for. Only the collateral asset may announce a deposit, and the deposit
/// must carry a request to open a position; the position is then opened for
/// the depositor, with the deposit as margin.
pub open spec fn spec_receive_cw20(
    storage: StorageView,
    time: u64,
    sender: String,
    cw20_msg: Cw20ReceiveMsg,
) -> Result<(StorageView, SubMsg), ContractError> {
    match storage.config {
        None => Err(ContractError::NotFound),
        Some(config) => if config.eligible_collateral@ != sender@ {
            Err(ContractError::Unauthorized)
        } else {
            match cw20_msg.msg {
                None => Err(ContractError::InvalidHookMessage),
                Some(Cw20HookMsg::OpenPosition { vamm, side, leverage }) => spec_open_position(
                    storage,
                    time,
                    vamm,
                    cw20_msg.sender,
                    side,
                    cw20_msg.amount,
                    leverage,
                ),
            }
        },
    }
}

/// Handles the notification of a deposit of collateral.
pub fn receive_cw20(
    storage: &mut Storage,
    env: Env,
    info: MessageInfo,
    cw20_msg: Cw20ReceiveMsg,
) -> (result: Result<Response, ContractError>)
    ensures
        match spec_receive_cw20(old(storage)@, env.time, info.sender, cw20_msg) {
            Ok((after, msg)) => {
                &&& result is Ok
                &&& result->Ok_0@ == spec_call_response("open_position"@, msg)
                &&& final(storage)@ == after
            },
            Err(e) => {
                &&& result == Err::<Response, ContractError>(e)
                &&& final(storage)@ == old(storage)@
            },
        },
{
    let config = match read_config(storage) {
        Ok(config) => config,
        Err(e) => {
            return Err(e);
        },
    };
    if !(config.eligible_collateral == info.sender) {
        return Err(ContractError::Unauthorized);
    }
    match cw20_msg.msg {
        Some(Cw20HookMsg::OpenPosition { vamm, side, leverage }) => open_position(
            storage,
            env,
            info,
            vamm,
            cw20_msg.sender,
            side,
            cw20_msg.amount,
            leverage,
        ),
        None => Err(ContractError::InvalidHookMessage),
    }
}

/// What an operation leaves in the store, and what it hands to the host. A
/// position is opened or closed for the sender.
pub open spec fn spec_execute(
    storage: StorageView,
    time: u64,
    sender: String,
    msg: ExecuteMsg,
) -> Result<(StorageView, ResponseView), ContractError> {
    match msg {
        ExecuteMsg::Receive(cw20_msg) => match spec_receive_cw20(storage, time, sender, cw20_msg) {
            Ok((after, call)) => Ok((after, spec_call_response("open_position"@, call))),
            Err(e) => Err(e),
        },
        ExecuteMsg::UpdateConfig { owner } => match spec_update_config(storage, sender, owner) {
            Ok(after) => Ok((after, spec_empty_response())),
            Err(e) => Err(e),
        },
        ExecuteMsg::OpenPosition {
            vamm,
            side,
            quote_asset_amount,
            leverage,
        } => match spec_open_position(
            storage,
            time,
            vamm,
            sender,
            side,
            quote_asset_amount,
            leverage,
        ) {
            Ok((after, call)) => Ok((after, spec_call_response("open_position"@, call))),
            Err(e) => Err(e),
        },
        ExecuteMsg::ClosePosition { vamm } => match spec_close_position(
            storage,
            vamm,
            sender,
            CLOSE_POSITION_REPLY_ID,
        ) {
            Ok((after, call)) => Ok((after, spec_call_response("close_position"@, call))),
            Err(e) => Err(e),
        },
    }
}

/// Performs one operation of the engine. A failure leaves the store as it
/// was.
pub fn execute(
    storage: &mut Storage,
    env: Env,
    info: MessageInfo,
    msg: ExecuteMsg,
) -> (result: Result<Response, ContractError>)
    ensures
        match spec_execute(old(storage)@, env.time, info.sender, msg) {
            Ok((after, response)) => {
                &&& result is Ok
                &&& result->Ok_0@ == response
                &&& final(storage)@ == after
            },
            Err(e) => {
                &&& result == Err::<Response, ContractError>(e)
                &&& final(storage)@ == old(storage)@
            },
        },
{
    match msg {
        ExecuteMsg::Receive(cw20_msg) => receive_cw20(storage, env, info, cw20_msg),
        ExecuteMsg::UpdateConfig { owner } => update_config(storage, info, owner),
        ExecuteMsg::OpenPosition { vamm, side, quote_asset_amount, leverage } => {
            let trader = info.sender.clone();
            open_position(storage, env, info, vamm, trader, side, quote_asset_amount, leverage)
        },
        ExecuteMsg::ClosePosition { vamm } => {
            let trader = info.sender.clone();
            close_position(storage, env, info, vamm, trader, CLOSE_POSITION_REPLY_ID)
        },
    }
}

/// The answer to a question: the stored settings, or the stored position of
/// a trader in a market.
pub open spec fn spec_query(
    storage: StorageView,
    msg: QueryMsg,
) -> Result<QueryResponse, ContractError> {
    match msg {
        QueryMsg::Config {  } => match storage.config {
            Some(config) => Ok(QueryResponse::Config(config)),
            None => Err(ContractError::NotFound),
        },
        QueryMsg::Position { vamm, trader } => if storage.positions.dom().contains(
            (vamm@, trader@),
        ) {
            Ok(QueryResponse::Position(storage.positions[(vamm@, trader@)]))
        } else {
            Err(ContractError::PositionNotFound)
        },
    }
}

/// Answers a question about the store.
pub fn query(
    storage: &Storage,
    _env: Env,
    msg: QueryMsg,
) -> (result: Result<QueryResponse, ContractError>)
    ensures
        result == spec_query(storage@, msg),
{
    match msg {
        QueryMsg::Config {  } => match read_config(storage) {
            Ok(config) => Ok(QueryResponse::Config(config)),
            Err(e) => Err(e),
        },
        QueryMsg::Position { vamm, trader } => match read_position(storage, &vamm, &trader) {
            Ok(Some(position)) => Ok(QueryResponse::Position(position)),
            _ => Err(ContractError::PositionNotFound),
        },
    }
}

/// The first of `events`, from `start` on, that bears the label `ty`.
pub open spec fn spec_find_event(ty: Seq<char>, events: Seq<Event>, start: int) -> Option<Event>
    decreases events.len() - start,
{
    if start < 0 || start >= events.len() {
        None
    } else if events[start].ty@ == ty {
        Some(events[start])
    } else {
        spec_find_event(ty, events, start + 1)
    }
}

/// The first of `attributes`, from `start` on, whose key is `key`.
pub open spec fn spec_find_attribute(
    key: Seq<char>,
    attributes: Seq<Attribute>,
    start: int,
) -> Option<Attribute>
    decreases attributes.len() - start,
{
    if start < 0 || start >= attributes.len() {
        None
    } else if attributes[start].key@ == key {
        Some(attributes[start])
    } else {
        spec_find_attribute(key, attributes, start + 1)
    }
}

/// The first attribute of `event` whose key is `key`.
pub open spec fn spec_read_event(key: Seq<char>, event: Event) -> Option<Attribute> {
    spec_find_attribute(key, event.attributes@, 0)
}

/// The text under `key` in `event`.
pub open spec fn spec_read_text(key: Seq<char>, event: Event) -> Option<String> {
    match spec_read_event(key, event) {
        Some(attribute) => Some(attribute.value),
        None => None,
    }
}

/// The amount under `key` in `event`, where there is one in decimal text.
pub open spec fn spec_read_amount(key: Seq<char>, event: Event) -> Option<u128> {
    match spec_read_event(key, event) {
        Some(attribute) => spec_from_str(attribute.value@),
        None => None,
    }
}

/// The two amounts of a trade, as the curve reports them: the first event
/// labelled `wasm` holds the stated amount under `input` and the priced
/// amount under `output`, each in decimal text.
pub open spec fn spec_parse_swap(
    response: SubMsgExecutionResponse,
) -> Result<(u128, u128), ContractError> {
    match spec_find_event("wasm"@, response.events@, 0) {
        None => Err(ContractError::MalformedReply),
        Some(wasm) => match (
            spec_read_amount("input"@, wasm),
            spec_read_amount("output"@, wasm),
        ) {
            (Some(input), Some(output)) => Ok((input, output)),
            _ => Err(ContractError::MalformedReply),
        },
    }
}

/// The first attribute under `key` is the one at `target` where none before
/// it, from `start` on, has that key.
proof fn lemma_find_attribute_at(
    key: Seq<char>,
    attributes: Seq<Attribute>,
    start: int,
    target: int,
)
    requires
        0 <= start <= target < attributes.len(),
        attributes[target].key@ == key,
        forall|i: int| start <= i < target ==> (#[trigger] attributes[i]).key@ != key,
    ensures
        spec_find_attribute(key, attributes, start) == Some(attributes[target]),
    decreases target - start,
{
    if start < target {
        lemma_find_attribute_at(key, attributes, start + 1, target);
    }
}

/// The engine reads what the curve reports. Where the first event labelled
/// `wasm` ends in the three attributes of a trade report, and nothing before
/// them in that event is named `input` or `output`, the amounts read are the
/// amounts of the trade.
pub proof fn lemma_swap_report_reads_back(
    response: SubMsgExecutionResponse,
    event: Event,
    action: Seq<char>,
    input: u128,
    output: u128,
)
    requires
        spec_find_event("wasm"@, response.events@, 0) == Some(event),
        event.attributes@.len() >= 3,
        forall|i: int|
            0 <= i < event.attributes@.len() - 3 ==> (#[trigger] event.attributes@[i]).key@
                != "input"@ && event.attributes@[i].key@ != "output"@,
        event.attributes@.subrange(
            event.attributes@.len() - 3,
            event.attributes@.len() as int,
        ).map_values(|a: Attribute| a@) == spec_swap_attributes(action, input, output),
    ensures
        spec_parse_swap(response) == Ok::<(u128, u128), ContractError>((input, output)),
{
    let attributes = event.attributes@;
    let first = attributes.len() - 3;
    let report = attributes.subrange(first, attributes.len() as int).map_values(
        |a: Attribute| a@,
    );
    let expected = spec_swap_attributes(action, input, output);
    assert(report[0] == expected[0]);
    assert(report[1] == expected[1]);
    assert(report[2] == expected[2]);
    assert(attributes[first].key@ == "action"@);
    assert(attributes[first + 1]@ == ("input"@, spec_to_string(input as nat)));
    assert(attributes[first + 2]@ == ("output"@, spec_to_string(output as nat)));
    reveal_strlit("action");
    reveal_strlit("input");
    reveal_strlit("output");
    assert("action"@.len() != "input"@.len());
    assert("action"@[0] != "output"@[0]);
    assert("input"@.len() != "output"@.len());
    lemma_find_attribute_at("input"@, attributes, 0, first + 1);
    lemma_find_attribute_at("output"@, attributes, 0, first + 2);
    lemma_from_str_inverts_to_string(input);
    lemma_from_str_inverts_to_string(output);
}

/// Whether `id` is one of the continuations that the engine issues.
pub open spec fn spec_known_reply_id(id: u64) -> bool {
    ||| id == SWAP_INCREASE_REPLY_ID
    ||| id == SWAP_DECREASE_REPLY_ID
    ||| id == SWAP_REVERSE_REPLY_ID
    ||| id == CLOSE_POSITION_REPLY_ID
}

/// What the two amounts of a trade leave in the store when they come back
/// under the continuation `id`: the operation of the kind that `id` names,
/// which must be the one that waits in the store, is resumed and waits no
/// longer.
pub open spec fn spec_on_swap_result(
    storage: StorageView,
    time: u64,
    id: u64,
    input: u128,
    output: u128,
) -> Result<StorageView, ContractError> {
    if id == SWAP_INCREASE_REPLY_ID {
        spec_increase_position_reply(storage, time, output)
    } else if id == SWAP_DECREASE_REPLY_ID {
        spec_decrease_position(storage)
    } else if id == SWAP_REVERSE_REPLY_ID {
        spec_reverse_position(storage)
    } else if id == CLOSE_POSITION_REPLY_ID {
        spec_finalize_close_position(storage)
    } else {
        Err(ContractError::UnknownReplyId { id })
    }
}

/// Resumes the operation that waits for a trade, with the two amounts of the
/// trade: `input` is the amount that the trade stated, `output` the amount it
/// was priced at. A failure leaves the store as it was.
pub fn on_swap_result(
    storage: &mut Storage,
    env: Env,
    id: u64,
    input: u128,
    output: u128,
) -> (result: Result<Response, ContractError>)
    ensures
        match spec_on_swap_result(old(storage)@, env.time, id, input, output) {
            Ok(after) => {
                &&& result is Ok
                &&& result->Ok_0@ == spec_empty_response()
                &&& final(storage)@ == after
            },
            Err(e) => {
                &&& result == Err::<Response, ContractError>(e)
                &&& final(storage)@ == old(storage)@
            },
        },
        result is Ok ==> old(storage)@.tmp_swap is Some && final(storage)@.tmp_swap is None,
{
    if id == SWAP_INCREASE_REPLY_ID {
        increase_position_reply(storage, env, input, output)
    } else if id == SWAP_DECREASE_REPLY_ID {
        decrease_position(storage, env, input, output)
    } else if id == SWAP_REVERSE_REPLY_ID {
        reverse_position(storage, env, input, output)
    } else if id == CLOSE_POSITION_REPLY_ID {
        finalize_close_position(storage, env, input, output)
    } else {
        Err(ContractError::UnknownReplyId { id })
    }
}

/// What the outcome of a call leaves in the store.
///
/// A failed trade is reported as `SwapFailed`, and a continuation that the
/// engine does not issue as `UnknownReplyId`. Otherwise the amounts of the
/// trade are read from the events of the call, and the pending operation is
/// resumed with them.
pub open spec fn spec_reply(
    storage: StorageView,
    time: u64,
    msg: Reply,
) -> Result<StorageView, ContractError> {
    match msg.result {
        Err(_) => Err(ContractError::SwapFailed { id: msg.id }),
        Ok(response) => if !spec_known_reply_id(msg.id) {
            Err(ContractError::UnknownReplyId { id: msg.id })
        } else {
            match spec_parse_swap(response) {
                Err(e) => Err(e),
                Ok((input, output)) => spec_on_swap_result(storage, time, msg.id, input, output),
            }
        },
    }
}

/// Resumes the operation that asked for a trade, with the outcome of the
/// call that made the trade. A failure leaves the store as it was.
pub fn reply(
    storage: &mut Storage,
    env: Env,
    msg: Reply,
) -> (result: Result<Response, ContractError>)
    ensures
        match spec_reply(old(storage)@, env.time, msg) {
            Ok(after) => {
                &&& result is Ok
                &&& result->Ok_0@ == spec_empty_response()
                &&& final(storage)@ == after
            },
            Err(e) => {
                &&& result == Err::<Response, ContractError>(e)
                &&& final(storage)@ == old(storage)@
            },
        },
        result is Ok ==> old(storage)@.tmp_swap is Some && final(storage)@.tmp_swap is None,
{
    let id = msg.id;
    match msg.result {
        Ok(response) => {
            if id != SWAP_INCREASE_REPLY_ID && id != SWAP_DECREASE_REPLY_ID && id
                != SWAP_REVERSE_REPLY_ID && id != CLOSE_POSITION_REPLY_ID {
                return Err(ContractError::UnknownReplyId { id });
            }
            match parse_swap(response) {
                Ok((input, output)) => on_swap_result(storage, env, id, input, output),
                Err(e) => Err(e),
            }
        },
        Err(_) => Err(ContractError::SwapFailed { id }),
    }
}

/// The order and the amounts of its trade, read from the events of one call:
/// the first event labelled `execute` holds the order, the first labelled
/// `wasm` the amounts of the trade.
pub open spec fn spec_parse_increase_swap(
    response: SubMsgExecutionResponse,
) -> Result<SwapResponse, ContractError> {
    match (
        spec_find_event("execute"@, response.events@, 0),
        spec_find_event("wasm"@, response.events@, 0),
    ) {
        (Some(execute), Some(wasm)) => match (
            spec_read_text("vamm"@, execute),
            spec_read_text("trader"@, execute),
            spec_read_text("side"@, execute),
            spec_read_amount("quote_asset_amount"@, execute),
            spec_read_amount("leverage"@, execute),
            spec_read_amount("open_notional"@, execute),
            spec_read_amount("input"@, wasm),
            spec_read_amount("output"@, wasm),
        ) {
            (
                Some(vamm),
                Some(trader),
                Some(side),
                Some(quote_asset_amount),
                Some(leverage),
                Some(open_notional),
                Some(input),
                Some(output),
            ) => Ok(
                SwapResponse {
                    vamm,
                    trader,
                    side,
                    quote_asset_amount,
                    leverage,
                    open_notional,
                    input,
                    output,
                },
            ),
            _ => Err(ContractError::MalformedReply),
        },
        _ => Err(ContractError::MalformedReply),
    }
}

/// Reads an order and the amounts of its trade from the events of one call.
pub fn parse_increase_swap(
    response: SubMsgExecutionResponse,
) -> (result: Result<SwapResponse, ContractError>)
    ensures
        result == spec_parse_increase_swap(response),
{
    let execute = match find_event("execute", &response.events) {
        Some(at) => &response.events[at],
        None => {
            return Err(ContractError::MalformedReply);
        },
    };
    let wasm = match find_event("wasm", &response.events) {
        Some(at) => &response.events[at],
        None => {
            return Err(ContractError::MalformedReply);
        },
    };
    let vamm = read_text("vamm", execute);
    let trader = read_text("trader", execute);
    let side = read_text("side", execute);
    let quote_asset_amount = read_amount("quote_asset_amount", execute);
    let leverage = read_amount("leverage", execute);
    let open_notional = read_amount("open_notional", execute);
    let input = read_amount("input", wasm);
    let output = read_amount("output", wasm);
    match (vamm, trader, side, quote_asset_amount, leverage, open_notional, input, output) {
        (
            Some(vamm),
            Some(trader),
            Some(side),
            Some(quote_asset_amount),
            Some(leverage),
            Some(open_notional),
            Some(input),
            Some(output),
        ) => Ok(
            SwapResponse {
                vamm,
                trader,
                side,
                quote_asset_amount,
                leverage,
                open_notional,
                input,
                output,
            },
        ),
        _ => Err(ContractError::MalformedReply),
    }
}

/// Reads the two amounts of a trade from the events of the call that made
/// it.
pub fn parse_swap(
    response: SubMsgExecutionResponse,
) -> (result: Result<(u128, u128), ContractError>)
    ensures
        result == spec_parse_swap(response),
{
    let wasm = match find_event("wasm", &response.events) {
        Some(at) => &response.events[at],
        None => {
            return Err(ContractError::MalformedReply);
        },
    };
    let input = read_amount("input", wasm);
    let output = read_amount("output", wasm);
    match (input, output) {
        (Some(input), Some(output)) => Ok((input, output)),
        _ => Err(ContractError::MalformedReply),
    }
}

/// The place of the first event labelled `ty`.
fn find_event(ty: &str, events: &Vec<Event>) -> (at: Option<usize>)
    ensures
        match at {
            Some(at) => at < events@.len() && spec_find_event(ty@, events@, 0) == Some(
                events@[at as int],
            ),
            None => spec_find_event(ty@, events@, 0) is None,
        },
{
    let label = String::from_str(ty);
    let mut at: usize = 0;
    while at < events.len()
        invariant
            at <= events@.len(),
            label@ == ty@,
            spec_find_event(ty@, events@, 0) == spec_find_event(ty@, events@, at as int),
        decreases events@.len() - at,
    {
        if events[at].ty == label {
            return Some(at);
        }
        at += 1;
    }
    None
}

/// The first attribute of `event` under `key`.
pub fn read_event(key: String, event: &Event) -> (attribute: Option<Attribute>)
    ensures
        attribute == spec_read_event(key@, *event),
{
    let mut at: usize = 0;
    while at < event.attributes.len()
        invariant
            at <= event.attributes@.len(),
            spec_find_attribute(key@, event.attributes@, 0) == spec_find_attribute(
                key@,
                event.attributes@,
                at as int,
            ),
        decreases event.attributes@.len() - at,
    {
        if event.attributes[at].key == key {
            return Some(event.attributes[at].clone());
        }
        at += 1;
    }
    None
}

/// The text under `key` in `event`.
fn read_text(key: &str, event: &Event) -> (text: Option<String>)
    ensures
        text == spec_read_text(key@, *event),
{
    match read_event(String::from_str(key), event) {
        Some(attribute) => Some(attribute.value),
        None => None,
    }
}

/// The amount under `key` in `event`.
fn read_amount(key: &str, event: &Event) -> (amount: Option<u128>)
    ensures
        amount == spec_read_amount(key@, *event),
{
    match read_event(String::from_str(key), event) {
        Some(attribute) => from_str(attribute.value.as_str()),
        None => None,
    }
}

} // verus!
