//! The arithmetic of the constant-product curve, on plain amounts.
//!
//! A trade states an amount for one reserve (the stated side) and is priced in
//! the other (the priced side). The curve invariant is the product of the two
//! reserves divided by the decimal factor; the priced side is whatever keeps
//! that invariant, rounded against the trader.

use vstd::prelude::*;
use crate::error::ContractError;
use crate::math::{mul_div, scaled_remainder};
use crate::vamm::msg::Direction;
use crate::vamm::state::State;

verus! {

/// The curve invariant `K` of a pair of reserves.
pub open spec fn invariant_k(quote: int, base: int, decimals: int) -> int {
    quote * base / decimals
}

/// The distance between two amounts.
pub open spec fn distance(a: int, b: int) -> int {
    if a > b {
        a - b
    } else {
        b - a
    }
}

/// The stated reserve once `amount` has moved in `direction`.
pub open spec fn spec_moved(stated: u128, direction: Direction, amount: u128) -> int {
    match direction {
        Direction::AddToAmm => stated + amount,
        Direction::RemoveFromAmm => stated - amount,
    }
}

/// What a trade of `amount` on the stated side costs or yields on the priced
/// side, where `stated` and `priced` are the two reserves before the trade.
///
/// A zero amount is priced at zero. Otherwise the invariant is taken from the
/// reserves, the stated reserve is moved by `amount`, and the priced reserve
/// that the invariant then asks for is compared with the present one. Where
/// the division that yields it is inexact, the difference is corrected by one
/// unit: downwards when the stated amount is added, upwards when it is
/// removed. The correction itself never fails.
///
/// The trade is refused where the decimal factor or the moved reserve is
/// zero, where more is removed than the reserve holds, and where the
/// invariant, the moved reserve or the priced reserve asked for does not fit
/// in an amount.
pub open spec fn spec_price(
    stated: u128,
    priced: u128,
    decimals: u128,
    direction: Direction,
    amount: u128,
) -> Result<u128, ContractError> {
    let after = spec_moved(stated, direction, amount);
    let k = invariant_k(stated as int, priced as int, decimals as int);
    let scaled = k * decimals;
    if amount == 0 {
        Ok(0)
    } else if decimals == 0 {
        Err(ContractError::DivideByZero)
    } else if k > u128::MAX {
        Err(ContractError::Overflow)
    } else if after > u128::MAX {
        Err(ContractError::Overflow)
    } else if after < 0 {
        Err(ContractError::Underflow)
    } else if after == 0 {
        Err(ContractError::DivideByZero)
    } else if scaled / after > u128::MAX {
        Err(ContractError::Overflow)
    } else if scaled % after == 0 {
        Ok(distance(scaled / after, priced as int) as u128)
    } else {
        match direction {
            Direction::AddToAmm => Ok((distance(scaled / after, priced as int) - 1) as u128),
            Direction::RemoveFromAmm => Ok((distance(scaled / after, priced as int) + 1) as u128),
        }
    }
}

/// The invariant, scaled back up, never exceeds the product it came from.
pub proof fn lemma_scaled_invariant_bounded(stated: int, priced: int, decimals: int)
    requires
        0 <= stated,
        0 <= priced,
        0 < decimals,
    ensures
        0 <= invariant_k(stated, priced, decimals) * decimals <= stated * priced,
        0 <= invariant_k(stated, priced, decimals) <= stated * priced,
{
    let product = stated * priced;
    assert(0 <= product) by (nonlinear_arith)
        requires
            0 <= stated,
            0 <= priced,
            product == stated * priced,
    ;
    assert(0 <= (product / decimals) * decimals <= product && 0 <= product / decimals <= product)
        by (nonlinear_arith)
        requires
            0 <= product,
            0 < decimals,
    ;
}

/// The correction of an inexact price stays within the amounts: where the
/// stated amount is added, the difference to correct is at least one unit,
/// and where it is removed, the corrected difference still fits.
proof fn lemma_correction_fits(
    stated: u128,
    priced: u128,
    decimals: u128,
    direction: Direction,
    amount: u128,
)
    requires
        0 < amount,
        0 < decimals,
        0 < spec_moved(stated, direction, amount) <= u128::MAX,
        (invariant_k(stated as int, priced as int, decimals as int) * decimals) / spec_moved(
            stated,
            direction,
            amount,
        ) <= u128::MAX,
        (invariant_k(stated as int, priced as int, decimals as int) * decimals) % spec_moved(
            stated,
            direction,
            amount,
        ) != 0,
    ensures
        ({
            let after = spec_moved(stated, direction, amount);
            let scaled = invariant_k(stated as int, priced as int, decimals as int) * decimals;
            let difference = distance(scaled / after, priced as int);
            &&& direction == Direction::AddToAmm ==> 1 <= difference
            &&& direction == Direction::RemoveFromAmm ==> difference + 1 <= u128::MAX
        }),
{
    let after = spec_moved(stated, direction, amount);
    let product = stated as int * priced as int;
    let scaled = invariant_k(stated as int, priced as int, decimals as int) * decimals;
    let quotient = scaled / after;
    let remainder = scaled % after;
    lemma_scaled_invariant_bounded(stated as int, priced as int, decimals as int);
    vstd::arithmetic::div_mod::lemma_fundamental_div_mod(scaled, after);
    vstd::arithmetic::div_mod::lemma_mod_bound(scaled, after);
    vstd::arithmetic::div_mod::lemma_div_pos_is_pos(scaled, after);
    match direction {
        Direction::AddToAmm => {
            assert(quotient < priced) by (nonlinear_arith)
                requires
                    scaled == after * quotient + remainder,
                    0 < remainder,
                    scaled <= stated * priced,
                    after == stated + amount,
                    0 <= stated,
                    0 <= amount,
                    0 <= priced,
                    0 <= quotient,
            ;
        },
        Direction::RemoveFromAmm => {
            if priced == u128::MAX && quotient == 0 {
                // the scaled invariant is less than the moved reserve, yet
                // within the decimal factor of a product that is far larger
                vstd::arithmetic::div_mod::lemma_fundamental_div_mod(product, decimals as int);
                vstd::arithmetic::div_mod::lemma_mod_bound(product, decimals as int);
                assert(decimals as int * (product / (decimals as int)) == scaled)
                    by (nonlinear_arith)
                    requires
                        scaled == (product / (decimals as int)) * decimals,
                ;
                assert(product >= 2 * priced) by (nonlinear_arith)
                    requires
                        product == stated as int * priced as int,
                        2 <= stated,
                        0 <= priced,
                ;
                assert(after * quotient == 0) by (nonlinear_arith)
                    requires
                        quotient == 0,
                ;
                assert(scaled > u128::MAX);
                assert(scaled < after);
                assert(false);
            }
        },
    }
}

/// The price of a trade of a positive amount, as a number: the difference
/// between the priced reserve and the one the invariant asks for, less one
/// where the division is inexact and the stated amount is added, plus one
/// where it is inexact and the stated amount is removed.
proof fn lemma_price_value(
    stated: u128,
    priced: u128,
    decimals: u128,
    direction: Direction,
    amount: u128,
)
    requires
        0 < amount,
        spec_price(stated, priced, decimals, direction, amount) is Ok,
    ensures
        ({
            let after = spec_moved(stated, direction, amount);
            let scaled = invariant_k(stated as int, priced as int, decimals as int) * decimals;
            let difference = distance(scaled / after, priced as int);
            let cost = spec_price(stated, priced, decimals, direction, amount)->Ok_0;
            &&& 0 < decimals
            &&& 0 < after <= u128::MAX
            &&& 0 <= scaled / after <= u128::MAX
            &&& cost == if scaled % after == 0 {
                difference
            } else if direction == Direction::AddToAmm {
                difference - 1
            } else {
                difference + 1
            }
        }),
{
    let after = spec_moved(stated, direction, amount);
    let scaled = invariant_k(stated as int, priced as int, decimals as int) * decimals;
    lemma_scaled_invariant_bounded(stated as int, priced as int, decimals as int);
    vstd::arithmetic::div_mod::lemma_div_pos_is_pos(scaled, after);
    if scaled % after != 0 {
        lemma_correction_fits(stated, priced, decimals, direction, amount);
    }
}

/// Prices a trade of `amount` on the stated side in the priced side.
pub fn price(
    stated: u128,
    priced: u128,
    decimals: u128,
    direction: Direction,
    amount: u128,
) -> (result: Result<u128, ContractError>)
    ensures
        result == spec_price(stated, priced, decimals, direction, amount),
{
    if amount == 0 {
        return Ok(0);
    }
    let k = match mul_div(stated, priced, decimals) {
        Ok(quotient) => quotient,
        Err(e) => {
            return Err(e);
        },
    };
    let after = match direction {
        Direction::AddToAmm => match stated.checked_add(amount) {
            Some(sum) => sum,
            None => {
                return Err(ContractError::Overflow);
            },
        },
        Direction::RemoveFromAmm => match stated.checked_sub(amount) {
            Some(difference) => difference,
            None => {
                return Err(ContractError::Underflow);
            },
        },
    };
    let priced_after = match mul_div(k, decimals, after) {
        Ok(quotient) => quotient,
        Err(e) => {
            return Err(e);
        },
    };
    let difference = if priced_after > priced {
        priced_after - priced
    } else {
        priced - priced_after
    };
    let remainder = match scaled_remainder(k, decimals, after) {
        Ok(remainder) => remainder,
        Err(e) => {
            return Err(e);
        },
    };
    if remainder == 0 {
        Ok(difference)
    } else {
        proof {
            lemma_correction_fits(stated, priced, decimals, direction, amount);
        }
        match direction {
            Direction::AddToAmm => Ok(difference - 1),
            Direction::RemoveFromAmm => Ok(difference + 1),
        }
    }
}

/// How much of the base asset a trade of `quote_asset_amount` buys or costs
/// on the reserves `state`.
pub open spec fn spec_price_for_input(
    state: State,
    decimals: u128,
    direction: Direction,
    quote_asset_amount: u128,
) -> Result<u128, ContractError> {
    spec_price(
        state.quote_asset_reserve,
        state.base_asset_reserve,
        decimals,
        direction,
        quote_asset_amount,
    )
}

/// How much of the quote asset a trade of `base_asset_amount` yields or
/// costs on the reserves `state`: the mirror of the price of an input.
pub open spec fn spec_price_for_output(
    state: State,
    decimals: u128,
    direction: Direction,
    base_asset_amount: u128,
) -> Result<u128, ContractError> {
    spec_price(
        state.base_asset_reserve,
        state.quote_asset_reserve,
        decimals,
        direction,
        base_asset_amount,
    )
}

/// Prices a trade that states an amount of the quote asset, in the base
/// asset. A zero amount is priced at zero.
pub fn price_for_input(
    state: &State,
    decimals: u128,
    direction: Direction,
    quote_asset_amount: u128,
) -> (result: Result<u128, ContractError>)
    ensures
        result == spec_price_for_input(*state, decimals, direction, quote_asset_amount),
        quote_asset_amount == 0 ==> result == Ok::<u128, ContractError>(0),
{
    price(
        state.quote_asset_reserve,
        state.base_asset_reserve,
        decimals,
        direction,
        quote_asset_amount,
    )
}

/// Prices a trade that states an amount of the base asset, in the quote
/// asset. A zero amount is priced at zero.
pub fn price_for_output(
    state: &State,
    decimals: u128,
    direction: Direction,
    base_asset_amount: u128,
) -> (result: Result<u128, ContractError>)
    ensures
        result == spec_price_for_output(*state, decimals, direction, base_asset_amount),
        base_asset_amount == 0 ==> result == Ok::<u128, ContractError>(0),
{
    price(
        state.base_asset_reserve,
        state.quote_asset_reserve,
        decimals,
        direction,
        base_asset_amount,
    )
}

/// The reserves after a trade of the two given amounts: adding to the curve
/// puts the quote amount in and takes the base amount out, removing does the
/// reverse. The reserve that grows is computed first, so its overflow is
/// reported before the underflow of the other.
pub open spec fn spec_apply_trade(
    state: State,
    direction: Direction,
    quote_asset_amount: u128,
    base_asset_amount: u128,
) -> Result<State, ContractError> {
    match direction {
        Direction::AddToAmm => if state.quote_asset_reserve + quote_asset_amount > u128::MAX {
            Err(ContractError::Overflow)
        } else if base_asset_amount > state.base_asset_reserve {
            Err(ContractError::Underflow)
        } else {
            Ok(
                State {
                    quote_asset_reserve: (state.quote_asset_reserve + quote_asset_amount) as u128,
                    base_asset_reserve: (state.base_asset_reserve - base_asset_amount) as u128,
                },
            )
        },
        Direction::RemoveFromAmm => if state.base_asset_reserve + base_asset_amount > u128::MAX {
            Err(ContractError::Overflow)
        } else if quote_asset_amount > state.quote_asset_reserve {
            Err(ContractError::Underflow)
        } else {
            Ok(
                State {
                    quote_asset_reserve: (state.quote_asset_reserve - quote_asset_amount) as u128,
                    base_asset_reserve: (state.base_asset_reserve + base_asset_amount) as u128,
                },
            )
        },
    }
}

/// Applies a trade of the two given amounts to a pair of reserves.
pub fn apply_trade(
    state: State,
    direction: Direction,
    quote_asset_amount: u128,
    base_asset_amount: u128,
) -> (result: Result<State, ContractError>)
    ensures
        result == spec_apply_trade(state, direction, quote_asset_amount, base_asset_amount),
{
    match direction {
        Direction::AddToAmm => {
            let quote = match state.quote_asset_reserve.checked_add(quote_asset_amount) {
                Some(sum) => sum,
                None => {
                    return Err(ContractError::Overflow);
                },
            };
            let base = match state.base_asset_reserve.checked_sub(base_asset_amount) {
                Some(difference) => difference,
                None => {
                    return Err(ContractError::Underflow);
                },
            };
            Ok(State { quote_asset_reserve: quote, base_asset_reserve: base })
        },
        Direction::RemoveFromAmm => {
            let base = match state.base_asset_reserve.checked_add(base_asset_amount) {
                Some(sum) => sum,
                None => {
                    return Err(ContractError::Overflow);
                },
            };
            let quote = match state.quote_asset_reserve.checked_sub(quote_asset_amount) {
                Some(difference) => difference,
                None => {
                    return Err(ContractError::Underflow);
                },
            };
            Ok(State { quote_asset_reserve: quote, base_asset_reserve: base })
        },
    }
}

/// The reserves that a trade leaves, stated side first, and its price.
///
/// The stated reserve moves by `amount` in `direction` and the priced reserve
/// moves by the price the other way. A priced reserve that grows must still
/// fit in an amount; nothing else can stand in the way of a trade that has a
/// price.
pub open spec fn spec_trade(
    stated: u128,
    priced: u128,
    decimals: u128,
    direction: Direction,
    amount: u128,
) -> Result<(u128, u128, u128), ContractError> {
    match spec_price(stated, priced, decimals, direction, amount) {
        Err(e) => Err(e),
        Ok(cost) => match direction {
            Direction::AddToAmm => Ok(((stated + amount) as u128, (priced - cost) as u128, cost)),
            Direction::RemoveFromAmm => if priced + cost > u128::MAX {
                Err(ContractError::Overflow)
            } else {
                Ok(((stated - amount) as u128, (priced + cost) as u128, cost))
            },
        },
    }
}

/// A reserve holds whatever a trade that has a price takes from it, and a
/// stated reserve that grows fits in an amount.
pub proof fn lemma_trade_fits(
    stated: u128,
    priced: u128,
    decimals: u128,
    direction: Direction,
    amount: u128,
)
    requires
        spec_price(stated, priced, decimals, direction, amount) is Ok,
    ensures
        ({
            let cost = spec_price(stated, priced, decimals, direction, amount)->Ok_0;
            &&& direction == Direction::AddToAmm ==> stated + amount <= u128::MAX && cost <= priced
            &&& direction == Direction::RemoveFromAmm ==> amount <= stated
        }),
{
    if amount > 0 {
        lemma_price_value(stated, priced, decimals, direction, amount);
        let after = spec_moved(stated, direction, amount);
        let scaled = invariant_k(stated as int, priced as int, decimals as int) * decimals;
        let quotient = scaled / after;
        let remainder = scaled % after;
        lemma_scaled_invariant_bounded(stated as int, priced as int, decimals as int);
        vstd::arithmetic::div_mod::lemma_fundamental_div_mod(scaled, after);
        vstd::arithmetic::div_mod::lemma_mod_bound(scaled, after);
        if direction == Direction::AddToAmm {
            assert(quotient <= priced) by (nonlinear_arith)
                requires
                    scaled == after * quotient + remainder,
                    0 <= remainder,
                    scaled <= stated * priced,
                    after == stated + amount,
                    0 <= stated,
                    0 < amount,
                    0 <= priced,
                    0 <= quotient,
            ;
        }
    }
}

/// Dividing by the decimal factor keeps the order of two products.
proof fn lemma_invariant_monotonic(low: int, high: int, decimals: int)
    requires
        low <= high,
        0 < decimals,
    ensures
        low / decimals <= high / decimals,
{
    vstd::arithmetic::div_mod::lemma_div_is_ordered(low, high, decimals);
}

/// A reserve that covers the scaled invariant keeps the invariant: if
/// `after * priced_after` is at least `k * decimals`, the invariant of the new
/// pair is at least `k`.
proof fn lemma_cover_keeps_invariant(after: int, priced_after: int, k: int, decimals: int)
    requires
        0 < decimals,
        k * decimals <= after * priced_after,
    ensures
        k <= invariant_k(after, priced_after, decimals),
        k <= invariant_k(priced_after, after, decimals),
{
    lemma_invariant_monotonic(k * decimals, after * priced_after, decimals);
    vstd::arithmetic::div_mod::lemma_div_multiples_vanish(k, decimals);
    assert(k * decimals == decimals * k) by (nonlinear_arith);
    assert(after * priced_after == priced_after * after) by (nonlinear_arith);
}

/// Reserves with a positive invariant are both positive.
proof fn lemma_positive_invariant(stated: int, priced: int, decimals: int)
    requires
        0 <= stated,
        0 <= priced,
        0 < decimals,
        0 < invariant_k(stated, priced, decimals),
    ensures
        0 < stated,
        0 < priced,
{
    if stated == 0 || priced == 0 {
        assert(stated * priced == 0) by (nonlinear_arith)
            requires
                stated == 0 || priced == 0,
        ;
        vstd::arithmetic::div_mod::lemma_div_basics(decimals);
        assert(0int / decimals == 0);
    }
}

/// Solvency: a trade never lowers the curve invariant, and so never empties a
/// reserve of a curve whose invariant is positive. The rounding of the
/// price always leaves the priced reserve at or above what the invariant asks
/// for.
pub proof fn lemma_trade_keeps_invariant(
    stated: u128,
    priced: u128,
    decimals: u128,
    direction: Direction,
    amount: u128,
)
    requires
        spec_trade(stated, priced, decimals, direction, amount) is Ok,
    ensures
        ({
            let (stated_after, priced_after, cost) = spec_trade(
                stated,
                priced,
                decimals,
                direction,
                amount,
            )->Ok_0;
            &&& invariant_k(stated as int, priced as int, decimals as int) <= invariant_k(
                stated_after as int,
                priced_after as int,
                decimals as int,
            )
            &&& invariant_k(priced as int, stated as int, decimals as int) <= invariant_k(
                priced_after as int,
                stated_after as int,
                decimals as int,
            )
            &&& amount == 0 ==> stated_after == stated && priced_after == priced && cost == 0
            &&& 0 < decimals && 0 < invariant_k(stated as int, priced as int, decimals as int)
                ==> 0 < stated_after && 0 < priced_after
        }),
{
    let (stated_after, priced_after, cost) = spec_trade(
        stated,
        priced,
        decimals,
        direction,
        amount,
    )->Ok_0;
    if amount == 0 {
        assert(stated_after == stated && priced_after == priced);
        if 0 < decimals && 0 < invariant_k(stated as int, priced as int, decimals as int) {
            lemma_positive_invariant(stated as int, priced as int, decimals as int);
        }
    } else {
        let k = invariant_k(stated as int, priced as int, decimals as int);
        let scaled = k * decimals;
        lemma_price_value(stated, priced, decimals, direction, amount);
        lemma_trade_fits(stated, priced, decimals, direction, amount);
        lemma_scaled_invariant_bounded(stated as int, priced as int, decimals as int);
        let after = stated_after as int;
        assert(after > 0);
        let quotient = scaled / after;
        let remainder = scaled % after;
        vstd::arithmetic::div_mod::lemma_fundamental_div_mod(scaled, after);
        vstd::arithmetic::div_mod::lemma_mod_bound(scaled, after);
        assert(scaled == after * quotient + remainder);
        assert(0 <= quotient) by {
            vstd::arithmetic::div_mod::lemma_div_pos_is_pos(scaled, after);
        }
        // the priced reserve after the trade is at least the rounded-up quotient
        let needed = if remainder == 0 {
            quotient
        } else {
            quotient + 1
        };
        assert(scaled <= after * needed) by (nonlinear_arith)
            requires
                scaled == after * quotient + remainder,
                0 <= remainder < after,
                needed == if remainder == 0 {
                    quotient
                } else {
                    quotient + 1
                },
        ;
        match direction {
            Direction::AddToAmm => {
                // the quotient cannot exceed the present priced reserve
                assert(quotient <= priced) by {
                    assert(scaled <= after * priced) by (nonlinear_arith)
                        requires
                            scaled <= stated * priced,
                            after == stated + amount,
                            0 <= priced,
                            0 <= amount,
                            0 <= stated,
                    ;
                    vstd::arithmetic::div_mod::lemma_div_is_ordered(scaled, after * priced, after);
                    vstd::arithmetic::div_mod::lemma_div_by_multiple(priced as int, after);
                    assert(after * priced == priced * after) by (nonlinear_arith);
                }
                assert(priced_after == needed);
            },
            Direction::RemoveFromAmm => {
                assert(priced_after >= needed);
            },
        }
        assert(scaled <= after * priced_after) by (nonlinear_arith)
            requires
                scaled <= after * needed,
                needed <= priced_after,
                0 < after,
        ;
        lemma_cover_keeps_invariant(after, priced_after as int, k, decimals as int);
        assert(stated as int * priced as int == priced as int * stated as int) by (nonlinear_arith);
        if 0 < k {
            lemma_positive_invariant(after, priced_after as int, decimals as int);
        }
    }
}

/// The quotient of `n` by `m`, rounded up, is the least multiple count that
/// covers `n`.
proof fn lemma_div_rounded_up(n: int, m: int)
    requires
        0 <= n,
        0 < m,
    ensures
        ({
            let rounded = if n % m == 0 {
                n / m
            } else {
                n / m + 1
            };
            n <= rounded * m < n + m
        }),
{
    vstd::arithmetic::div_mod::lemma_fundamental_div_mod(n, m);
    vstd::arithmetic::div_mod::lemma_mod_bound(n, m);
    let quotient = n / m;
    let remainder = n % m;
    assert(n == m * quotient + remainder);
    assert(m * quotient == quotient * m) by (nonlinear_arith);
    assert((quotient + 1) * m == quotient * m + m) by (nonlinear_arith);
}

/// Cancelling a positive factor from a strict inequality of products.
proof fn lemma_cancel_factor(low: int, high: int, factor: int)
    requires
        0 < factor,
        low * factor < high * factor,
    ensures
        low < high,
{
    assert(low < high) by (nonlinear_arith)
        requires
            0 < factor,
            low * factor < high * factor,
    ;
}

/// What rounding has left in the curve after a trade: the product of the new
/// reserves less the scaled invariant of the old ones.
pub open spec fn spec_surplus(
    stated: u128,
    priced: u128,
    decimals: u128,
    stated_after: u128,
    priced_after: u128,
) -> int {
    priced_after * stated_after - invariant_k(stated as int, priced as int, decimals as int)
        * decimals
}

/// The reserves after a trade of a positive amount, where the priced reserve
/// holds at least one whole unit: the priced reserve is exactly the one that
/// the invariant asks for, rounded up.
proof fn lemma_first_leg(
    stated: u128,
    priced: u128,
    decimals: u128,
    direction: Direction,
    amount: u128,
)
    requires
        0 < amount,
        0 < decimals <= priced,
        spec_trade(stated, priced, decimals, direction, amount) is Ok,
    ensures
        ({
            let (stated_after, priced_after, cost) = spec_trade(
                stated,
                priced,
                decimals,
                direction,
                amount,
            )->Ok_0;
            let scaled = invariant_k(stated as int, priced as int, decimals as int) * decimals;
            &&& stated * priced - decimals < scaled <= stated * priced
            &&& scaled <= priced_after * stated_after < scaled + stated_after
            &&& 0 < stated_after
            &&& direction == Direction::AddToAmm ==> stated_after == stated + amount && priced_after
                + cost == priced
            &&& direction == Direction::RemoveFromAmm ==> stated_after + amount == stated
                && priced_after == priced + cost
        }),
{
    let (stated_after, priced_after, cost) = spec_trade(
        stated,
        priced,
        decimals,
        direction,
        amount,
    )->Ok_0;
    let product = stated as int * priced as int;
    let k = invariant_k(stated as int, priced as int, decimals as int);
    let scaled = k * decimals;
    lemma_price_value(stated, priced, decimals, direction, amount);
    lemma_trade_fits(stated, priced, decimals, direction, amount);
    lemma_scaled_invariant_bounded(stated as int, priced as int, decimals as int);
    vstd::arithmetic::div_mod::lemma_fundamental_div_mod(product, decimals as int);
    vstd::arithmetic::div_mod::lemma_mod_bound(product, decimals as int);
    assert(decimals as int * k == k * decimals) by (nonlinear_arith);
    assert(product - decimals < scaled);
    let after = stated_after as int;
    let quotient = scaled / after;
    let remainder = scaled % after;
    lemma_div_rounded_up(scaled, after);
    let needed = if remainder == 0 {
        quotient
    } else {
        quotient + 1
    };
    match direction {
        Direction::AddToAmm => {
            assert(quotient <= priced) by {
                assert(scaled <= after * priced) by (nonlinear_arith)
                    requires
                        scaled <= stated * priced,
                        after == stated + amount,
                        0 <= priced,
                        0 <= amount,
                        0 <= stated,
                ;
                vstd::arithmetic::div_mod::lemma_div_is_ordered(scaled, after * priced, after);
                vstd::arithmetic::div_mod::lemma_div_multiples_vanish(priced as int, after);
            }
            assert(priced_after == needed);
        },
        Direction::RemoveFromAmm => {
            assert(priced <= quotient) by {
                assert(after * priced <= scaled) by (nonlinear_arith)
                    requires
                        stated * priced - decimals < scaled,
                        after + amount == stated,
                        0 < amount,
                        decimals <= priced,
                        0 <= after,
                ;
                vstd::arithmetic::div_mod::lemma_div_is_ordered(after * priced, scaled, after);
                vstd::arithmetic::div_mod::lemma_div_multiples_vanish(priced as int, after);
            }
            assert(priced_after == needed);
        },
    }
    assert(priced_after * stated_after == needed * after);
}

/// Round trip. A trade followed by the trade that gives back what the first
/// one brought (the amount it was priced at, stated on the other reserve, in
/// the same direction, so that the reserves move back) never leaves the
/// trader better off, and what it costs the trader is bounded by the surplus
/// that rounding left in the curve: less than one unit more than the number
/// of times the priced reserve fits in that surplus. Where the surplus is no
/// more than the priced reserve, the amount that comes back is within one
/// unit of the amount that went in.
///
/// The priced reserve must hold at least one whole unit.
pub proof fn lemma_round_trip(
    stated: u128,
    priced: u128,
    decimals: u128,
    direction: Direction,
    amount: u128,
)
    requires
        0 < decimals <= priced,
        spec_trade(stated, priced, decimals, direction, amount) is Ok,
        ({
            let (stated_after, priced_after, cost) = spec_trade(
                stated,
                priced,
                decimals,
                direction,
                amount,
            )->Ok_0;
            spec_price(priced_after, stated_after, decimals, direction, cost) is Ok
        }),
    ensures
        ({
            let (stated_after, priced_after, cost) = spec_trade(
                stated,
                priced,
                decimals,
                direction,
                amount,
            )->Ok_0;
            let back = spec_price(priced_after, stated_after, decimals, direction, cost)->Ok_0;
            let surplus = spec_surplus(stated, priced, decimals, stated_after, priced_after);
            &&& 0 <= surplus
            &&& 0 < amount ==> surplus < stated_after
            &&& direction == Direction::AddToAmm ==> back <= amount && (amount - back) * priced
                < surplus + priced
            &&& direction == Direction::RemoveFromAmm ==> amount <= back && (back - amount) * priced
                < surplus + priced
            &&& surplus <= priced ==> distance(amount as int, back as int) <= 1
        }),
{
    let (stated_after, priced_after, cost) = spec_trade(
        stated,
        priced,
        decimals,
        direction,
        amount,
    )->Ok_0;
    let back = spec_price(priced_after, stated_after, decimals, direction, cost)->Ok_0;
    let surplus = spec_surplus(stated, priced, decimals, stated_after, priced_after);
    let product = stated as int * priced as int;
    let scaled = invariant_k(stated as int, priced as int, decimals as int) * decimals;
    if amount == 0 {
        lemma_scaled_invariant_bounded(stated as int, priced as int, decimals as int);
        assert(priced as int * stated as int == product) by (nonlinear_arith)
            requires
                product == stated as int * priced as int,
        ;
        assert((amount - back) * priced == 0);
        assert((back - amount) * priced == 0);
    } else {
        lemma_first_leg(stated, priced, decimals, direction, amount);
        let after_product = priced_after as int * stated_after as int;
        assert(surplus == after_product - scaled);
        if cost == 0 {
            // the first trade bought nothing, so nothing comes back
            assert(priced_after == priced);
            assert(after_product == priced * stated_after);
            match direction {
                Direction::AddToAmm => {
                    assert(after_product == product + amount * priced) by (nonlinear_arith)
                        requires
                            after_product == priced * stated_after,
                            stated_after == stated + amount,
                            product == stated as int * priced as int,
                    ;
                    assert((amount - back) * priced == amount * priced);
                    if surplus <= priced {
                        assert(amount <= 1) by (nonlinear_arith)
                            requires
                                amount * priced <= priced,
                                0 < priced,
                        ;
                    }
                },
                Direction::RemoveFromAmm => {
                    assert(after_product == product - amount * priced) by (nonlinear_arith)
                        requires
                            after_product == priced * stated_after,
                            stated_after + amount == stated,
                            product == stated as int * priced as int,
                    ;
                    assert(amount * priced >= priced) by (nonlinear_arith)
                        requires
                            0 < amount,
                            0 <= priced,
                    ;
                    assert(false);
                },
            }
        } else {
            let second_k = invariant_k(priced_after as int, stated_after as int, decimals as int);
            let second_scaled = second_k * decimals;
            lemma_price_value(priced_after, stated_after, decimals, direction, cost);
            lemma_scaled_invariant_bounded(
                priced_after as int,
                stated_after as int,
                decimals as int,
            );
            assert(scaled <= second_scaled) by {
                lemma_cover_keeps_invariant(
                    stated_after as int,
                    priced_after as int,
                    invariant_k(stated as int, priced as int, decimals as int),
                    decimals as int,
                );
                assert(scaled <= second_scaled) by (nonlinear_arith)
                    requires
                        invariant_k(stated as int, priced as int, decimals as int) <= second_k,
                        scaled == invariant_k(stated as int, priced as int, decimals as int)
                            * decimals,
                        second_scaled == second_k * decimals,
                        0 < decimals,
                ;
            }
            assert(second_scaled <= after_product);
            // the stated reserve of the second trade comes back to where the
            // priced reserve of the first began
            let quotient = second_scaled / (priced as int);
            let remainder = second_scaled % (priced as int);
            lemma_div_rounded_up(second_scaled, priced as int);
            let rounded = if remainder == 0 {
                quotient
            } else {
                quotient + 1
            };
            assert(stated <= rounded) by {
                assert((stated - 1) * priced < rounded * priced) by (nonlinear_arith)
                    requires
                        product - decimals < scaled,
                        scaled <= second_scaled,
                        second_scaled <= rounded * priced,
                        decimals <= priced,
                        product == stated as int * priced as int,
                ;
                lemma_cancel_factor(stated - 1, rounded, priced as int);
            }
            assert((rounded - stated) * priced < surplus + priced) by (nonlinear_arith)
                requires
                    rounded * priced < second_scaled + priced,
                    second_scaled <= after_product,
                    surplus == after_product - scaled,
                    scaled <= product,
                    product == stated as int * priced as int,
            ;
            match direction {
                Direction::AddToAmm => {
                    assert(priced_after + cost == priced);
                    assert(quotient <= stated_after) by {
                        assert(second_scaled <= stated_after * priced) by (nonlinear_arith)
                            requires
                                second_scaled <= after_product,
                                after_product == priced_after as int * stated_after as int,
                                priced_after <= priced,
                                0 <= stated_after,
                        ;
                        vstd::arithmetic::div_mod::lemma_div_is_ordered(
                            second_scaled,
                            stated_after * priced,
                            priced as int,
                        );
                        vstd::arithmetic::div_mod::lemma_div_by_multiple(
                            stated_after as int,
                            priced as int,
                        );
                    }
                    assert(back == stated_after - rounded);
                    assert(amount - back == rounded - stated);
                },
                Direction::RemoveFromAmm => {
                    assert(priced_after - cost == priced);
                    assert(stated_after <= quotient) by {
                        assert(stated_after * priced <= second_scaled) by (nonlinear_arith)
                            requires
                                product - decimals < scaled,
                                scaled <= second_scaled,
                                decimals <= priced,
                                product == stated as int * priced as int,
                                stated_after + amount == stated,
                                0 < amount,
                                0 <= priced,
                        ;
                        vstd::arithmetic::div_mod::lemma_div_is_ordered(
                            stated_after * priced,
                            second_scaled,
                            priced as int,
                        );
                        vstd::arithmetic::div_mod::lemma_div_by_multiple(
                            stated_after as int,
                            priced as int,
                        );
                    }
                    assert(back == rounded - stated_after);
                    assert(back - amount == rounded - stated);
                },
            }
            if surplus <= priced {
                assert(rounded - stated < 2) by (nonlinear_arith)
                    requires
                        (rounded - stated) * priced < surplus + priced,
                        surplus <= priced,
                        0 < priced,
                ;
            }
        }
    }
}

} // verus!
