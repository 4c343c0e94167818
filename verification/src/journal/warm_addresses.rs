//! The addresses and storage slots that a transaction does not pay for as cold.

use crate::journal::keyed_map::KeyedMap;
use crate::primitives::{Address, U256};
use vstd::prelude::*;

verus! {

/// The addresses that are warm from the start: precompiles, the beneficiary of the block, and
/// the access list of the transaction, which also has storage slots.
#[derive(Debug)]
pub struct WarmAddresses {
    precompiles: Vec<Address>,
    coinbase: Option<Address>,
    access_list: KeyedMap<Address, Vec<U256>>,
}

/// What a [`WarmAddresses`] holds.
#[verifier::ext_equal]
pub struct WarmState {
    /// The precompiles.
    pub precompiles: Seq<Address>,
    /// The beneficiary.
    pub coinbase: Option<Address>,
    /// The access list.
    pub access_list: Map<Address, Seq<U256>>,
}

impl WarmState {
    /// Whether an address is warm.
    pub open spec fn warm(self, address: Address) -> bool {
        self.coinbase == Some(address) || self.precompiles.contains(address)
            || self.access_list.contains_key(address)
    }

    /// Whether a storage slot is warm.
    pub open spec fn slot_warm(self, address: Address, key: U256) -> bool {
        self.access_list.contains_key(address) && self.access_list[address].contains(key)
    }

    /// What is left for the next transaction.
    pub open spec fn cleared(self) -> WarmState {
        WarmState { coinbase: None, access_list: Map::empty(), ..self }
    }

    /// Nothing is warm.
    pub open spec fn none() -> WarmState {
        WarmState { precompiles: Seq::empty(), coinbase: None, access_list: Map::empty() }
    }
}

/// The keys of an access list, by what they say.
pub open spec fn key_lists(m: Map<Address, Vec<U256>>) -> Map<Address, Seq<U256>> {
    Map::new(|a: Address| m.contains_key(a), |a: Address| m[a]@)
}

impl View for WarmAddresses {
    type V = WarmState;

    closed spec fn view(&self) -> WarmState {
        WarmState {
            precompiles: self.precompiles@,
            coinbase: self.coinbase,
            access_list: key_lists(self.access_list@),
        }
    }
}

impl Default for WarmAddresses {
    fn default() -> (r: WarmAddresses)
        ensures
            r@ == WarmState::none(),
    {
        WarmAddresses::new()
    }
}

impl WarmAddresses {
    /// Nothing is warm.
    pub fn new() -> (r: WarmAddresses)
        ensures
            r@ == WarmState::none(),
    {
        let r = WarmAddresses {
            precompiles: Vec::new(),
            coinbase: None,
            access_list: KeyedMap::new(),
        };
        assert(r@.access_list =~= Map::empty());
        r
    }

    /// Sets the precompiles.
    pub fn set_precompile_addresses(&mut self, addresses: Vec<Address>)
        ensures
            final(self)@ == (WarmState { precompiles: addresses@, ..old(self)@ }),
    {
        self.precompiles = addresses;
    }

    /// Sets the beneficiary.
    pub fn set_coinbase(&mut self, address: Address)
        ensures
            final(self)@ == (WarmState { coinbase: Some(address), ..old(self)@ }),
    {
        self.coinbase = Some(address);
    }

    /// Sets the access list.
    pub fn set_access_list(&mut self, access_list: KeyedMap<Address, Vec<U256>>)
        ensures
            final(self)@ == (WarmState { access_list: key_lists(access_list@), ..old(self)@ }),
    {
        self.access_list = access_list;
    }

    /// Forgets the beneficiary and the access list.
    pub fn clear_coinbase_and_access_list(&mut self)
        ensures
            final(self)@ == old(self)@.cleared(),
    {
        self.coinbase = None;
        self.access_list.clear();
        assert(self@.access_list =~= Map::empty());
    }

    /// Whether an address is warm.
    pub fn is_warm(&self, address: &Address) -> (r: bool)
        ensures
            r == self@.warm(*address),
    {
        if let Some(coinbase) = self.coinbase {
            if coinbase.same(address) {
                return true;
            }
        }
        if self.access_list.contains_key(address) {
            return true;
        }
        let mut i: usize = 0;
        while i < self.precompiles.len()
            invariant
                i <= self.precompiles@.len(),
                forall|j: int| 0 <= j < i ==> self.precompiles@[j] != *address,
            decreases self.precompiles@.len() - i,
        {
            if self.precompiles[i].same(address) {
                return true;
            }
            i = i + 1;
        }
        false
    }

    /// Whether an address is cold.
    pub fn is_cold(&self, address: &Address) -> (r: bool)
        ensures
            r == !self@.warm(*address),
    {
        !self.is_warm(address)
    }

    /// Whether a storage slot is warm.
    pub fn is_storage_warm(&self, address: &Address, key: &U256) -> (r: bool)
        ensures
            r == self@.slot_warm(*address, *key),
    {
        let keys = match self.access_list.get(address) {
            Some(keys) => keys,
            None => {
                return false;
            },
        };
        let mut i: usize = 0;
        while i < keys.len()
            invariant
                i <= keys@.len(),
                self.access_list@.contains_key(*address),
                *keys == self.access_list@[*address],
                forall|j: int| 0 <= j < i ==> keys@[j] != *key,
            decreases keys@.len() - i,
        {
            if keys[i].same(key) {
                return true;
            }
            i = i + 1;
        }
        false
    }
}

} // verus!
