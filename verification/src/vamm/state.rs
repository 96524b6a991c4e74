//! What the curve keeps between calls.

use vstd::prelude::*;
use vstd::string::*;
use crate::error::ContractError;

verus! {

/// Settings of a curve.
#[derive(Debug, PartialEq, Eq)]
pub struct Config {
    /// Who may change the settings.
    pub owner: String,
    /// The factor by which all amounts are scaled.
    pub decimals: u128,
    pub toll_ratio: u128,
    pub spread_ratio: u128,
}

impl Clone for Config {
    fn clone(&self) -> (copy: Config)
        ensures
            copy == *self,
    {
        Config {
            owner: self.owner.clone(),
            decimals: self.decimals,
            toll_ratio: self.toll_ratio,
            spread_ratio: self.spread_ratio,
        }
    }
}

/// The two reserves of a curve.
#[derive(Clone, Copy, Debug, PartialEq, Eq, Structural)]
pub struct State {
    pub quote_asset_reserve: u128,
    pub base_asset_reserve: u128,
}

/// The store of one curve. A record that was never stored is absent.
#[derive(Debug, PartialEq, Eq)]
pub struct Storage {
    pub config: Option<Config>,
    pub state: Option<State>,
}

impl Clone for Storage {
    fn clone(&self) -> (copy: Storage)
        ensures
            copy == *self,
    {
        Storage {
            config: match &self.config {
                Some(config) => Some(config.clone()),
                None => None,
            },
            state: self.state,
        }
    }
}

impl Storage {
    /// A store that holds nothing yet.
    pub fn new() -> (storage: Storage)
        ensures
            storage == (Storage { config: None, state: None }),
    {
        Storage { config: None, state: None }
    }
}

/// Stores the settings, in place of any stored before.
pub fn store_config(storage: &mut Storage, config: &Config) -> (result: Result<(), ContractError>)
    ensures
        result is Ok,
        final(storage).config == Some(*config),
        final(storage).state == old(storage).state,
{
    storage.config = Some(config.clone());
    Ok(())
}

/// The stored settings, or `NotFound` where none were stored.
pub fn read_config(storage: &Storage) -> (result: Result<Config, ContractError>)
    ensures
        match storage.config {
            Some(config) => result == Ok::<Config, ContractError>(config),
            None => result == Err::<Config, ContractError>(ContractError::NotFound),
        },
{
    match &storage.config {
        Some(config) => Ok(config.clone()),
        None => Err(ContractError::NotFound),
    }
}

/// Stores the reserves, in place of any stored before.
pub fn store_state(storage: &mut Storage, state: &State) -> (result: Result<(), ContractError>)
    ensures
        result is Ok,
        final(storage).state == Some(*state),
        final(storage).config == old(storage).config,
{
    storage.state = Some(*state);
    Ok(())
}

/// The stored reserves, or `NotFound` where none were stored.
pub fn read_state(storage: &Storage) -> (result: Result<State, ContractError>)
    ensures
        match storage.state {
            Some(state) => result == Ok::<State, ContractError>(state),
            None => result == Err::<State, ContractError>(ContractError::NotFound),
        },
{
    match storage.state {
        Some(state) => Ok(state),
        None => Err(ContractError::NotFound),
    }
}

} // verus!
