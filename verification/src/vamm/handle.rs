//! The operations of the curve: pricing, trading, and changing its settings.

use vstd::prelude::*;
use vstd::string::*;
use crate::amount::{spec_to_string, to_string};
use crate::error::ContractError;
use crate::host::{spec_empty_response, Env, MessageInfo, Response, ResponseView};
use crate::vamm::curve::{
    apply_trade,
    distance,
    invariant_k,
    lemma_round_trip,
    lemma_trade_fits,
    lemma_trade_keeps_invariant,
    price_for_input,
    price_for_output,
    spec_apply_trade,
    spec_price_for_input,
    spec_price_for_output,
    spec_surplus,
    spec_trade,
};
use crate::vamm::msg::Direction;
use crate::vamm::state::{
    read_config,
    read_state,
    store_config,
    store_state,
    Config,
    State,
    Storage,
};

verus! {

/// The settings after a change by their owner: each given value replaces the
/// stored one.
pub open spec fn spec_updated_config(
    config: Config,
    owner: Option<String>,
    toll_ratio: Option<u128>,
    spread_ratio: Option<u128>,
) -> Config {
    Config {
        owner: match owner {
            Some(owner) => owner,
            None => config.owner,
        },
        decimals: config.decimals,
        toll_ratio: match toll_ratio {
            Some(ratio) => ratio,
            None => config.toll_ratio,
        },
        spread_ratio: match spread_ratio {
            Some(ratio) => ratio,
            None => config.spread_ratio,
        },
    }
}

/// The store after `sender` has changed the settings. Anyone but their owner
/// is refused.
pub open spec fn spec_update_config(
    storage: Storage,
    sender: String,
    owner: Option<String>,
    toll_ratio: Option<u128>,
    spread_ratio: Option<u128>,
) -> Result<Storage, ContractError> {
    match storage.config {
        None => Err(ContractError::NotFound),
        Some(config) => if sender@ != config.owner@ {
            Err(ContractError::Unauthorized)
        } else {
            Ok(
                Storage {
                    config: Some(spec_updated_config(config, owner, toll_ratio, spread_ratio)),
                    state: storage.state,
                },
            )
        },
    }
}

/// Changes the settings. Only their owner may.
pub fn update_config(
    storage: &mut Storage,
    info: MessageInfo,
    owner: Option<String>,
    toll_ratio: Option<u128>,
    spread_ratio: Option<u128>,
) -> (result: Result<Response, ContractError>)
    ensures
        match spec_update_config(*old(storage), info.sender, owner, toll_ratio, spread_ratio) {
            Ok(after) => {
                &&& result is Ok
                &&& result->Ok_0@ == spec_empty_response()
                &&& *final(storage) == after
            },
            Err(e) => {
                &&& result == Err::<Response, ContractError>(e)
                &&& *final(storage) == *old(storage)
            },
        },
{
    let mut config = match read_config(storage) {
        Ok(config) => config,
        Err(e) => {
            return Err(e);
        },
    };
    if !(info.sender == config.owner) {
        return Err(ContractError::Unauthorized);
    }
    if let Some(owner) = owner {
        config.owner = owner;
    }
    if let Some(toll_ratio) = toll_ratio {
        config.toll_ratio = toll_ratio;
    }
    if let Some(spread_ratio) = spread_ratio {
        config.spread_ratio = spread_ratio;
    }
    let _ = store_config(storage, &config);
    Ok(Response::new())
}

/// The price of a trade that states an amount of the quote asset, in the base
/// asset, on the stored reserves.
pub open spec fn spec_input_price(
    storage: Storage,
    direction: Direction,
    amount: u128,
) -> Result<u128, ContractError> {
    match (storage.state, storage.config) {
        (Some(state), Some(config)) => spec_price_for_input(
            state,
            config.decimals,
            direction,
            amount,
        ),
        _ => Err(ContractError::NotFound),
    }
}

/// The price of a trade that states an amount of the base asset, in the quote
/// asset, on the stored reserves.
pub open spec fn spec_output_price(
    storage: Storage,
    direction: Direction,
    amount: u128,
) -> Result<u128, ContractError> {
    match (storage.state, storage.config) {
        (Some(state), Some(config)) => spec_price_for_output(
            state,
            config.decimals,
            direction,
            amount,
        ),
        _ => Err(ContractError::NotFound),
    }
}

/// How much of the base asset a trade of `quote_asset_amount` buys or costs.
/// Reads the reserves and changes nothing; a zero amount is priced at zero.
pub fn get_input_price_with_reserves(
    storage: &Storage,
    direction: &Direction,
    quote_asset_amount: u128,
) -> (result: Result<u128, ContractError>)
    ensures
        result == spec_input_price(*storage, *direction, quote_asset_amount),
        storage.state is Some && storage.config is Some && quote_asset_amount == 0 ==> result
            == Ok::<u128, ContractError>(0),
{
    let state = match read_state(storage) {
        Ok(state) => state,
        Err(e) => {
            return Err(e);
        },
    };
    let config = match read_config(storage) {
        Ok(config) => config,
        Err(e) => {
            return Err(e);
        },
    };
    price_for_input(&state, config.decimals, *direction, quote_asset_amount)
}

/// How much of the quote asset a trade of `base_asset_amount` yields or
/// costs. Reads the reserves and changes nothing; a zero amount is priced at
/// zero.
pub fn get_output_price_with_reserves(
    storage: &Storage,
    direction: &Direction,
    base_asset_amount: u128,
) -> (result: Result<u128, ContractError>)
    ensures
        result == spec_output_price(*storage, *direction, base_asset_amount),
        storage.state is Some && storage.config is Some && base_asset_amount == 0 ==> result
            == Ok::<u128, ContractError>(0),
{
    let state = match read_state(storage) {
        Ok(state) => state,
        Err(e) => {
            return Err(e);
        },
    };
    let config = match read_config(storage) {
        Ok(config) => config,
        Err(e) => {
            return Err(e);
        },
    };
    price_for_output(&state, config.decimals, *direction, base_asset_amount)
}

/// The store after a trade of the two given amounts.
pub open spec fn spec_update_reserve(
    storage: Storage,
    direction: Direction,
    quote_asset_amount: u128,
    base_asset_amount: u128,
) -> Result<Storage, ContractError> {
    match storage.state {
        None => Err(ContractError::NotFound),
        Some(state) => match spec_apply_trade(
            state,
            direction,
            quote_asset_amount,
            base_asset_amount,
        ) {
            Ok(updated) => Ok(Storage { config: storage.config, state: Some(updated) }),
            Err(e) => Err(e),
        },
    }
}

/// Applies a trade to the stored reserves. A trade that a reserve cannot
/// carry is refused and leaves the store as it was.
pub fn update_reserve(
    storage: &mut Storage,
    direction: Direction,
    quote_asset_amount: u128,
    base_asset_amount: u128,
) -> (result: Result<Response, ContractError>)
    ensures
        match spec_update_reserve(*old(storage), direction, quote_asset_amount, base_asset_amount) {
            Ok(after) => {
                &&& result is Ok
                &&& result->Ok_0@ == (ResponseView {
                    messages: Seq::empty(),
                    attributes: seq![("action"@, "update_reserve"@)],
                })
                &&& *final(storage) == after
            },
            Err(e) => {
                &&& result == Err::<Response, ContractError>(e)
                &&& *final(storage) == *old(storage)
            },
        },
{
    let state = match read_state(storage) {
        Ok(state) => state,
        Err(e) => {
            return Err(e);
        },
    };
    let update_state = match apply_trade(state, direction, quote_asset_amount, base_asset_amount) {
        Ok(updated) => updated,
        Err(e) => {
            return Err(e);
        },
    };
    let _ = store_state(storage, &update_state);
    let response = Response::new().add_attribute("action", "update_reserve");
    assert(response@.attributes =~= seq![("action"@, "update_reserve"@)]);
    Ok(response)
}

/// The reserves that a trade of a stated quote amount leaves, and the base
/// amount it was priced at.
pub open spec fn spec_swap_input(
    storage: Storage,
    direction: Direction,
    amount: u128,
) -> Result<(State, u128), ContractError> {
    match (storage.state, storage.config) {
        (Some(state), Some(config)) => match spec_trade(
            state.quote_asset_reserve,
            state.base_asset_reserve,
            config.decimals,
            direction,
            amount,
        ) {
            Ok((quote, base, cost)) => Ok(
                (State { quote_asset_reserve: quote, base_asset_reserve: base }, cost),
            ),
            Err(e) => Err(e),
        },
        _ => Err(ContractError::NotFound),
    }
}

/// The reserves that a trade of a stated base amount leaves, and the quote
/// amount it was priced at. The stated amount moves the base reserve in the
/// direction of the trade, so the quote reserve moves the other way.
pub open spec fn spec_swap_output(
    storage: Storage,
    direction: Direction,
    amount: u128,
) -> Result<(State, u128), ContractError> {
    match (storage.state, storage.config) {
        (Some(state), Some(config)) => match spec_trade(
            state.base_asset_reserve,
            state.quote_asset_reserve,
            config.decimals,
            direction,
            amount,
        ) {
            Ok((base, quote, cost)) => Ok(
                (State { quote_asset_reserve: quote, base_asset_reserve: base }, cost),
            ),
            Err(e) => Err(e),
        },
        _ => Err(ContractError::NotFound),
    }
}

/// The curve invariant of the stored reserves.
pub open spec fn spec_invariant(storage: Storage) -> int
    recommends
        storage.state is Some,
        storage.config is Some,
{
    invariant_k(
        storage.state->Some_0.quote_asset_reserve as int,
        storage.state->Some_0.base_asset_reserve as int,
        storage.config->Some_0.decimals as int,
    )
}

/// Whether the stored reserves are those of a working curve: the decimal
/// factor is not zero and the curve invariant is positive.
pub open spec fn spec_solvent(storage: Storage) -> bool {
    &&& storage.state is Some
    &&& storage.config is Some
    &&& 0 < storage.config->Some_0.decimals
    &&& 0 < spec_invariant(storage)
}

/// What a trade reports: its kind, the amount it stated and the amount it was
/// priced at, each amount as decimal text.
pub open spec fn spec_swap_attributes(
    action: Seq<char>,
    input: u128,
    output: u128,
) -> Seq<(Seq<char>, Seq<char>)> {
    seq![
        ("action"@, action),
        ("input"@, spec_to_string(input as nat)),
        ("output"@, spec_to_string(output as nat)),
    ]
}

/// The report of a trade.
fn swap_response(action: &str, input: u128, output: u128) -> (response: Response)
    ensures
        response@ == (ResponseView {
            messages: Seq::empty(),
            attributes: spec_swap_attributes(action@, input, output),
        }),
{
    let input_text = to_string(input);
    let output_text = to_string(output);
    let response = Response::new().add_attribute("action", action).add_attribute(
        "input",
        input_text.as_str(),
    ).add_attribute("output", output_text.as_str());
    assert(response@.attributes =~= spec_swap_attributes(action@, input, output));
    response
}

/// Trades a stated amount of the quote asset against the curve and reports
/// the base amount it was priced at.
///
/// The curve invariant after the trade is never below the one before. A
/// refused trade, and a trade of zero, leave the reserves as they were.
pub fn swap_input(
    storage: &mut Storage,
    _env: Env,
    _info: MessageInfo,
    direction: Direction,
    quote_asset_amount: u128,
) -> (result: Result<Response, ContractError>)
    ensures
        final(storage).config == old(storage).config,
        match spec_swap_input(*old(storage), direction, quote_asset_amount) {
            Ok((state, base_asset_amount)) => {
                &&& result is Ok
                &&& result->Ok_0@ == (ResponseView {
                    messages: Seq::empty(),
                    attributes: spec_swap_attributes(
                        "swap_input"@,
                        quote_asset_amount,
                        base_asset_amount,
                    ),
                })
                &&& final(storage).state == Some(state)
                &&& spec_invariant(*old(storage)) <= spec_invariant(*final(storage))
                &&& quote_asset_amount == 0 ==> {
                    &&& base_asset_amount == 0
                    &&& *final(storage) == *old(storage)
                }
            },
            Err(e) => {
                &&& result == Err::<Response, ContractError>(e)
                &&& *final(storage) == *old(storage)
            },
        },
{
    let base_asset_amount = match get_input_price_with_reserves(
        storage,
        &direction,
        quote_asset_amount,
    ) {
        Ok(amount) => amount,
        Err(e) => {
            return Err(e);
        },
    };
    proof {
        let state = storage.state->Some_0;
        lemma_trade_fits(
            state.quote_asset_reserve,
            state.base_asset_reserve,
            storage.config->Some_0.decimals,
            direction,
            quote_asset_amount,
        );
    }
    match update_reserve(storage, direction, quote_asset_amount, base_asset_amount) {
        Ok(_) => {},
        Err(e) => {
            return Err(e);
        },
    }
    proof {
        let state = old(storage).state->Some_0;
        lemma_trade_keeps_invariant(
            state.quote_asset_reserve,
            state.base_asset_reserve,
            old(storage).config->Some_0.decimals,
            direction,
            quote_asset_amount,
        );
    }
    Ok(swap_response("swap_input", quote_asset_amount, base_asset_amount))
}

/// Trades a stated amount of the base asset against the curve and reports the
/// quote amount it was priced at.
///
/// The reserves are updated in the direction opposite to that of the trade:
/// base that is taken out of the curve is paid for with quote that goes in.
/// The curve invariant after the trade is never below the one before. A
/// refused trade, and a trade of zero, leave the reserves as they were.
pub fn swap_output(
    storage: &mut Storage,
    _env: Env,
    _info: MessageInfo,
    direction: Direction,
    base_asset_amount: u128,
) -> (result: Result<Response, ContractError>)
    ensures
        final(storage).config == old(storage).config,
        match spec_swap_output(*old(storage), direction, base_asset_amount) {
            Ok((state, quote_asset_amount)) => {
                &&& result is Ok
                &&& result->Ok_0@ == (ResponseView {
                    messages: Seq::empty(),
                    attributes: spec_swap_attributes(
                        "swap_output"@,
                        base_asset_amount,
                        quote_asset_amount,
                    ),
                })
                &&& final(storage).state == Some(state)
                &&& spec_invariant(*old(storage)) <= spec_invariant(*final(storage))
                &&& base_asset_amount == 0 ==> {
                    &&& quote_asset_amount == 0
                    &&& *final(storage) == *old(storage)
                }
            },
            Err(e) => {
                &&& result == Err::<Response, ContractError>(e)
                &&& *final(storage) == *old(storage)
            },
        },
{
    let quote_asset_amount = match get_output_price_with_reserves(
        storage,
        &direction,
        base_asset_amount,
    ) {
        Ok(amount) => amount,
        Err(e) => {
            return Err(e);
        },
    };
    let update_direction = match direction {
        Direction::AddToAmm => Direction::RemoveFromAmm,
        Direction::RemoveFromAmm => Direction::AddToAmm,
    };
    proof {
        let state = storage.state->Some_0;
        lemma_trade_fits(
            state.base_asset_reserve,
            state.quote_asset_reserve,
            storage.config->Some_0.decimals,
            direction,
            base_asset_amount,
        );
    }
    match update_reserve(storage, update_direction, quote_asset_amount, base_asset_amount) {
        Ok(_) => {},
        Err(e) => {
            return Err(e);
        },
    }
    proof {
        let state = old(storage).state->Some_0;
        lemma_trade_keeps_invariant(
            state.base_asset_reserve,
            state.quote_asset_reserve,
            old(storage).config->Some_0.decimals,
            direction,
            base_asset_amount,
        );
    }
    Ok(swap_response("swap_output", base_asset_amount, quote_asset_amount))
}

/// The quote amount that comes back when a trade of a stated quote amount is
/// made and the base amount it was priced at is then priced, in the same
/// direction, on the reserves that the trade left. The second trade would
/// move the reserves back: the direction of a trade that states a base amount
/// is that of its base, which is opposite to that of its quote.
pub open spec fn spec_round_trip(
    storage: Storage,
    direction: Direction,
    quote_asset_amount: u128,
) -> Result<u128, ContractError> {
    match spec_swap_input(storage, direction, quote_asset_amount) {
        Err(e) => Err(e),
        Ok((state, base_asset_amount)) => spec_output_price(
            Storage { state: Some(state), config: storage.config },
            direction,
            base_asset_amount,
        ),
    }
}

/// Round trip through the curve. Where the base reserve holds at least one
/// whole unit, trading a quote amount and trading back the base amount it was
/// priced at never leaves the trader better off: what comes back is no more
/// than what went in when quote is added, and no less than what went out when
/// quote is removed. Where, besides, the surplus that rounding left in the
/// curve after the first trade is no more than the base reserve before it,
/// the two amounts differ by at most one unit. That surplus is always less
/// than the quote reserve after the first trade.
pub proof fn lemma_swap_round_trip(storage: Storage, direction: Direction, quote_asset_amount: u128)
    requires
        storage.state is Some,
        storage.config is Some,
        0 < storage.config->Some_0.decimals <= storage.state->Some_0.base_asset_reserve,
        spec_round_trip(storage, direction, quote_asset_amount) is Ok,
    ensures
        ({
            let before = storage.state->Some_0;
            let after = spec_swap_input(storage, direction, quote_asset_amount)->Ok_0.0;
            let back = spec_round_trip(storage, direction, quote_asset_amount)->Ok_0;
            let surplus = spec_surplus(
                before.quote_asset_reserve,
                before.base_asset_reserve,
                storage.config->Some_0.decimals,
                after.quote_asset_reserve,
                after.base_asset_reserve,
            );
            &&& 0 <= surplus
            &&& 0 < quote_asset_amount ==> surplus < after.quote_asset_reserve
            &&& direction == Direction::AddToAmm ==> back <= quote_asset_amount
            &&& direction == Direction::RemoveFromAmm ==> quote_asset_amount <= back
            &&& surplus <= before.base_asset_reserve ==> distance(
                quote_asset_amount as int,
                back as int,
            ) <= 1
        }),
{
    let before = storage.state->Some_0;
    lemma_round_trip(
        before.quote_asset_reserve,
        before.base_asset_reserve,
        storage.config->Some_0.decimals,
        direction,
        quote_asset_amount,
    );
}

} // verus!
