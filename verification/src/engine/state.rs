//! What the engine keeps between calls: its settings, the ledger of
//! positions, and the one swap that may be in flight.

use vstd::prelude::*;
use vstd::string::*;
use vstd::slice::*;
use vstd::utf8::encode_utf8;
use crate::engine::msg::Side;
use crate::error::ContractError;
use crate::hash::{sha3_256, sha3_256_digest};
use crate::vamm::msg::Direction;

verus! {

/// Settings of an engine.
#[derive(Debug, PartialEq, Eq)]
pub struct Config {
    /// Who may change the settings.
    pub owner: String,
    /// The asset that is accepted as collateral.
    pub eligible_collateral: String,
    /// The factor by which all amounts are scaled.
    pub decimals: u128,
    pub initial_margin_ratio: u128,
    pub maintenance_margin_ratio: u128,
    pub liquidation_fee: u128,
}

impl Clone for Config {
    fn clone(&self) -> (copy: Config)
        ensures
            copy == *self,
    {
        Config {
            owner: self.owner.clone(),
            eligible_collateral: self.eligible_collateral.clone(),
            decimals: self.decimals,
            initial_margin_ratio: self.initial_margin_ratio,
            maintenance_margin_ratio: self.maintenance_margin_ratio,
            liquidation_fee: self.liquidation_fee,
        }
    }
}

/// The record that an engine has been set up with its markets.
#[derive(Clone, Copy, Debug, PartialEq, Eq, Structural)]
pub struct Vamm {}

/// The position of one trader in one market.
#[derive(Debug, PartialEq, Eq)]
pub struct Position {
    pub vamm: String,
    pub trader: String,
    /// Long or short, as the direction of the trades that built the position.
    pub direction: Direction,
    /// Exposure in the base asset.
    pub size: u128,
    /// Collateral posted.
    pub margin: u128,
    /// Value in the quote asset at entry.
    pub notional: u128,
    pub premium_fraction: u128,
    pub liquidity_history_index: u128,
    /// Block time at which the position was first opened.
    pub timestamp: u64,
}

impl Clone for Position {
    fn clone(&self) -> (copy: Position)
        ensures
            copy == *self,
    {
        Position {
            vamm: self.vamm.clone(),
            trader: self.trader.clone(),
            direction: self.direction,
            size: self.size,
            margin: self.margin,
            notional: self.notional,
            premium_fraction: self.premium_fraction,
            liquidity_history_index: self.liquidity_history_index,
            timestamp: self.timestamp,
        }
    }
}

impl Position {
    /// The market and the trader that a position belongs to, as text.
    pub open spec fn key(self) -> (Seq<char>, Seq<char>) {
        (self.vamm@, self.trader@)
    }
}

/// An order whose trade has been asked of the curve.
#[derive(Debug, PartialEq, Eq)]
pub struct Swap {
    pub vamm: String,
    pub trader: String,
    pub side: Side,
    /// The collateral posted with the order.
    pub quote_asset_amount: u128,
    pub leverage: u128,
    /// The size of the order in the quote asset.
    pub open_notional: u128,
}

impl Clone for Swap {
    fn clone(&self) -> (copy: Swap)
        ensures
            copy == *self,
    {
        Swap {
            vamm: self.vamm.clone(),
            trader: self.trader.clone(),
            side: self.side,
            quote_asset_amount: self.quote_asset_amount,
            leverage: self.leverage,
            open_notional: self.open_notional,
        }
    }
}

/// The operation that waits for the result of a trade. Its kind says which
/// continuation may consume it.
#[derive(Debug, PartialEq, Eq)]
pub enum PendingSwap {
    /// An order that adds to the trader's position.
    Increase(Swap),
    /// An order against a larger position.
    Decrease(Swap),
    /// An order against a position that is no larger than the order.
    Reverse(Swap),
    /// The closing of a position.
    Close { vamm: String, trader: String },
}

impl Clone for PendingSwap {
    fn clone(&self) -> (copy: PendingSwap)
        ensures
            copy == *self,
    {
        match self {
            PendingSwap::Increase(swap) => PendingSwap::Increase(swap.clone()),
            PendingSwap::Decrease(swap) => PendingSwap::Decrease(swap.clone()),
            PendingSwap::Reverse(swap) => PendingSwap::Reverse(swap.clone()),
            PendingSwap::Close { vamm, trader } => PendingSwap::Close {
                vamm: vamm.clone(),
                trader: trader.clone(),
            },
        }
    }
}

/// The positions of all traders in all markets, at most one for each pair of
/// market and trader.
#[derive(Debug, PartialEq, Eq)]
pub struct Ledger {
    entries: Vec<Position>,
}

impl View for Ledger {
    type V = Map<(Seq<char>, Seq<char>), Position>;

    /// The position of each pair of market and trader that has one.
    closed spec fn view(&self) -> Map<(Seq<char>, Seq<char>), Position> {
        Map::new(
            |key: (Seq<char>, Seq<char>)| self.index_of(key) is Some,
            |key: (Seq<char>, Seq<char>)| self.entries@[self.index_of(key)->Some_0],
        )
    }
}

impl Clone for Ledger {
    fn clone(&self) -> (copy: Ledger)
        ensures
            copy@ == self@,
    {
        proof {
            use_type_invariant(self);
        }
        let mut entries: Vec<Position> = Vec::new();
        let mut at: usize = 0;
        while at < self.entries.len()
            invariant
                at <= self.entries@.len(),
                entries@ == self.entries@.subrange(0, at as int),
            decreases self.entries@.len() - at,
        {
            entries.push(self.entries[at].clone());
            assert(entries@ =~= self.entries@.subrange(0, at + 1));
            at += 1;
        }
        assert(entries@ =~= self.entries@);
        let copy = Ledger { entries };
        assert(copy@ =~= self@);
        copy
    }
}

impl Ledger {
    /// No two entries belong to the same market and trader.
    #[verifier::type_invariant]
    closed spec fn distinct(&self) -> bool {
        forall|i: int, j: int|
            0 <= i < j < self.entries@.len() ==> (#[trigger] self.entries@[i]).key() != (
            #[trigger] self.entries@[j]).key()
    }

    /// Where the position under `key` is kept, if there is one.
    closed spec fn index_of(&self, key: (Seq<char>, Seq<char>)) -> Option<int> {
        if exists|i: int|
            0 <= i < self.entries@.len() && (#[trigger] self.entries@[i]).key() == key {
            Some(
                choose|i: int|
                    0 <= i < self.entries@.len() && (#[trigger] self.entries@[i]).key() == key,
            )
        } else {
            None
        }
    }

    /// A ledger without positions.
    pub fn new() -> (ledger: Ledger)
        ensures
            ledger@ == Map::<(Seq<char>, Seq<char>), Position>::empty(),
    {
        let ledger = Ledger { entries: Vec::new() };
        assert(ledger@ =~= Map::empty());
        ledger
    }

    /// Every position is kept under its own market and trader.
    pub proof fn lemma_keyed(&self, key: (Seq<char>, Seq<char>))
        requires
            self@.dom().contains(key),
        ensures
            self@[key].key() == key,
    {
    }

    /// The place of the position of `trader` in `vamm`, or the number of
    /// entries where there is none.
    fn find(&self, vamm: &String, trader: &String) -> (at: usize)
        ensures
            at <= self.entries@.len(),
            at < self.entries@.len() ==> self.entries@[at as int].key() == (vamm@, trader@),
            at == self.entries@.len() ==> forall|i: int|
                0 <= i < self.entries@.len() ==> (#[trigger] self.entries@[i]).key() != (
                    vamm@,
                    trader@,
                ),
    {
        let mut at: usize = 0;
        while at < self.entries.len()
            invariant
                at <= self.entries@.len(),
                forall|i: int|
                    0 <= i < at ==> (#[trigger] self.entries@[i]).key() != (vamm@, trader@),
            decreases self.entries@.len() - at,
        {
            if self.entries[at].vamm == *vamm && self.entries[at].trader == *trader {
                return at;
            }
            at += 1;
        }
        at
    }

    /// The position of `trader` in `vamm`, if the ledger has one.
    pub fn get(&self, vamm: &String, trader: &String) -> (position: Option<Position>)
        ensures
            position == if self@.dom().contains((vamm@, trader@)) {
                Some(self@[(vamm@, trader@)])
            } else {
                None
            },
            position matches Some(found) ==> found.key() == (vamm@, trader@),
    {
        proof {
            use_type_invariant(self);
        }
        let at = self.find(vamm, trader);
        if at < self.entries.len() {
            proof {
                let key = (vamm@, trader@);
                let chosen = self.index_of(key)->Some_0;
                assert(self.entries@[at as int].key() == key);
                assert(self.entries@[chosen].key() == key);
                assert(chosen == at);
            }
            Some(self.entries[at].clone())
        } else {
            None
        }
    }

    /// Puts `position` in the ledger, in place of the one that its market and
    /// trader had before, if any.
    pub fn insert(&mut self, position: Position)
        ensures
            final(self)@ == old(self)@.insert(position.key(), position),
    {
        proof {
            use_type_invariant(&*self);
        }
        let at = self.find(&position.vamm, &position.trader);
        let ghost before = self.entries@;
        let ghost key = position.key();
        let mut entries: Vec<Position> = Vec::new();
        std::mem::swap(&mut self.entries, &mut entries);
        if at < entries.len() {
            entries.set(at, position);
        } else {
            entries.push(position);
        }
        proof {
            assert forall|i: int| 0 <= i < entries@.len() implies (#[trigger] entries@[i]).key()
                == (if i < before.len() {
                before[i].key()
            } else {
                key
            }) by {}
        }
        self.entries = entries;
        proof {
            let after = self.entries@;
            assert forall|i: int| 0 <= i < after.len() implies (#[trigger] after[i]).key() == (if i
                < before.len() {
                before[i].key()
            } else {
                key
            }) by {}
            assert forall|other: (Seq<char>, Seq<char>)| #[trigger]
                final(self)@.dom().contains(other) <==> old(self)@.insert(
                    key,
                    position,
                ).dom().contains(other) by {
                if other == key {
                    assert(after[at as int].key() == key);
                } else {
                    if old(self).index_of(other) is Some {
                        let i = old(self).index_of(other)->Some_0;
                        assert(after[i].key() == other);
                    }
                    if final(self).index_of(other) is Some {
                        let i = final(self).index_of(other)->Some_0;
                        assert(before[i].key() == other);
                    }
                }
            }
            assert forall|other: (Seq<char>, Seq<char>)| #[trigger]
                final(self)@.dom().contains(other) implies final(self)@[other] == old(self)@.insert(
                key,
                position,
            )[other] by {
                let i = final(self).index_of(other)->Some_0;
                assert(after[i].key() == other);
                if other == key {
                    assert(after[at as int].key() == key);
                    assert(i == at);
                } else {
                    assert(before[i].key() == other);
                    let j = old(self).index_of(other)->Some_0;
                    assert(before[j].key() == other);
                    assert(i == j);
                }
            }
            assert(final(self)@ =~= old(self)@.insert(key, position));
        }
    }
}

/// The store of one engine. A record that was never stored is absent.
#[derive(Debug, PartialEq, Eq)]
pub struct Storage {
    pub config: Option<Config>,
    pub vamm: Option<Vamm>,
    pub positions: Ledger,
    /// The operation that waits for its trade, if one does.
    pub tmp_swap: Option<PendingSwap>,
}

/// A store as plain values: the ledger as a map from market and trader to
/// position.
#[verifier::ext_equal]
pub struct StorageView {
    pub config: Option<Config>,
    pub vamm: Option<Vamm>,
    pub positions: Map<(Seq<char>, Seq<char>), Position>,
    pub tmp_swap: Option<PendingSwap>,
}

impl View for Storage {
    type V = StorageView;

    open spec fn view(&self) -> StorageView {
        StorageView {
            config: self.config,
            vamm: self.vamm,
            positions: self.positions@,
            tmp_swap: self.tmp_swap,
        }
    }
}

impl Clone for Storage {
    fn clone(&self) -> (copy: Storage)
        ensures
            copy@ == self@,
    {
        Storage {
            config: match &self.config {
                Some(config) => Some(config.clone()),
                None => None,
            },
            vamm: self.vamm,
            positions: self.positions.clone(),
            tmp_swap: match &self.tmp_swap {
                Some(swap) => Some(swap.clone()),
                None => None,
            },
        }
    }
}

impl Storage {
    /// A store that holds nothing yet.
    pub fn new() -> (storage: Storage)
        ensures
            storage@ == (StorageView {
                config: None,
                vamm: None,
                positions: Map::empty(),
                tmp_swap: None,
            }),
    {
        Storage { config: None, vamm: None, positions: Ledger::new(), tmp_swap: None }
    }
}

/// Stores the settings, in place of any stored before.
pub fn store_config(storage: &mut Storage, config: &Config) -> (result: Result<(), ContractError>)
    ensures
        result is Ok,
        final(storage)@ == (StorageView { config: Some(*config), ..old(storage)@ }),
{
    storage.config = Some(config.clone());
    Ok(())
}

/// The stored settings, or `NotFound` where none were stored.
pub fn read_config(storage: &Storage) -> (result: Result<Config, ContractError>)
    ensures
        match storage.config {
            Some(config) => result == Ok::<Config, ContractError>(config),
            None => result == Err::<Config, ContractError>(ContractError::NotFound),
        },
{
    match &storage.config {
        Some(config) => Ok(config.clone()),
        None => Err(ContractError::NotFound),
    }
}

/// Stores the market record, in place of any stored before.
pub fn store_vamm(storage: &mut Storage, vamm: &Vamm) -> (result: Result<(), ContractError>)
    ensures
        result is Ok,
        final(storage)@ == (StorageView { vamm: Some(*vamm), ..old(storage)@ }),
{
    storage.vamm = Some(*vamm);
    Ok(())
}

/// The stored market record, or `NotFound` where none was stored.
pub fn read_vamm(storage: &Storage) -> (result: Result<Vamm, ContractError>)
    ensures
        match storage.vamm {
            Some(vamm) => result == Ok::<Vamm, ContractError>(vamm),
            None => result == Err::<Vamm, ContractError>(ContractError::NotFound),
        },
{
    match storage.vamm {
        Some(vamm) => Ok(vamm),
        None => Err(ContractError::NotFound),
    }
}

/// Stores a position under its market and trader, in place of the one stored
/// there before, if any.
pub fn store_position(
    storage: &mut Storage,
    position: &Position,
) -> (result: Result<(), ContractError>)
    ensures
        result is Ok,
        final(storage)@ == (StorageView {
            positions: old(storage)@.positions.insert(position.key(), *position),
            ..old(storage)@
        }),
{
    storage.positions.insert(position.clone());
    Ok(())
}

/// The position of `trader` in `vamm`, if one is stored.
pub fn read_position(
    storage: &Storage,
    vamm: &String,
    trader: &String,
) -> (result: Result<Option<Position>, ContractError>)
    ensures
        result == Ok::<Option<Position>, ContractError>(
            if storage@.positions.dom().contains((vamm@, trader@)) {
                Some(storage@.positions[(vamm@, trader@)])
            } else {
                None
            },
        ),
        result matches Ok(Some(found)) ==> found.key() == (vamm@, trader@),
{
    Ok(storage.positions.get(vamm, trader))
}

/// Records the operation that waits for its trade, in place of any recorded
/// before.
pub fn store_tmp_swap(
    storage: &mut Storage,
    swap: &PendingSwap,
) -> (result: Result<(), ContractError>)
    ensures
        result is Ok,
        final(storage)@ == (StorageView { tmp_swap: Some(*swap), ..old(storage)@ }),
{
    storage.tmp_swap = Some(swap.clone());
    Ok(())
}

/// The operation that waits for its trade, if one does.
pub fn read_tmp_swap(storage: &Storage) -> (result: Result<Option<PendingSwap>, ContractError>)
    ensures
        result == Ok::<Option<PendingSwap>, ContractError>(storage.tmp_swap),
{
    match &storage.tmp_swap {
        Some(swap) => Ok(Some(swap.clone())),
        None => Ok(None),
    }
}

/// Forgets the operation that waited for its trade.
pub fn remove_tmp_swap(storage: &mut Storage)
    ensures
        final(storage)@ == (StorageView { tmp_swap: None, ..old(storage)@ }),
{
    storage.tmp_swap = None;
}

/// The key under which a host that stores positions one by one keeps the
/// position of `trader` in `vamm`: the SHA3-256 digest of the bytes of the
/// market's identity followed by those of the trader's.
pub open spec fn spec_position_key(vamm: Seq<char>, trader: Seq<char>) -> Seq<u8> {
    sha3_256(encode_utf8(vamm) + encode_utf8(trader))
}

/// Computes the storage key of a position.
pub fn position_key(vamm: &String, trader: &String) -> (key: Vec<u8>)
    ensures
        key@ == spec_position_key(vamm@, trader@),
        key@.len() == 32,
{
    let mut data = slice_to_vec(vamm.as_str().as_bytes());
    let mut tail = slice_to_vec(trader.as_str().as_bytes());
    data.append(&mut tail);
    sha3_256_digest(data.as_slice())
}

} // verus!
