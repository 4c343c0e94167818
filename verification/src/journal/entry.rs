//! Entries of the journal, and how each is undone.

use crate::journal::account;
use crate::journal::account::{AccountState, AccountStatus, EvmState, TransientStorage};
use crate::primitives::keccak;
use crate::primitives::keccak::keccak_empty;
use crate::primitives::u256;
use crate::primitives::{Address, U256};
use vstd::prelude::*;

verus! {

/// What a destruction found, so that undoing it knows what to take back.
#[derive(Clone, Copy, Debug, PartialEq, Eq, Structural)]
pub enum SelfdestructionRevertStatus {
    /// The account had never been destroyed.
    GloballySelfdestroyed,
    /// The account had been destroyed, but not in this transaction.
    LocallySelfdestroyed,
    /// The account had been destroyed in this transaction.
    RepeatedSelfdestruction,
}

/// A change of the state.
#[derive(Clone, Copy, Debug, PartialEq, Eq, Structural)]
pub enum JournalEntry {
    /// A cold account was loaded.
    AccountWarmed { address: Address },
    /// An account was destroyed, and its balance went to another.
    AccountDestroyed {
        address: Address,
        target: Address,
        destroyed_status: SelfdestructionRevertStatus,
        had_balance: U256,
    },
    /// An account was touched.
    AccountTouched { address: Address },
    /// A balance was set.
    BalanceChange { address: Address, old_balance: U256 },
    /// Balance went from one account to another.
    BalanceTransfer { from: Address, to: Address, balance: U256 },
    /// A nonce went up.
    NonceChange { address: Address },
    /// An account was created.
    AccountCreated { address: Address, is_created_globally: bool },
    /// A storage slot was written.
    StorageChanged { address: Address, key: U256, had_value: U256 },
    /// A cold storage slot was loaded.
    StorageWarmed { address: Address, key: U256 },
    /// A slot of the transient storage was written.
    TransientStorageChange { address: Address, key: U256, had_value: U256 },
    /// Code was set.
    CodeChange { address: Address },
}

/// The precompile at address 3, whose touch is not undone.
pub open spec fn spec_precompile3() -> Address {
    Address { hi: 0, mid: 0, lo: 3 }
}

/// The balance that is left after a subtraction that wraps around.
#[verifier::opaque]
pub open spec fn less(x: U256, y: U256) -> U256 {
    u256::word(x.val() - y.val())
}

/// The balance after an addition that wraps around.
#[verifier::opaque]
pub open spec fn more(x: U256, y: U256) -> U256 {
    u256::word(x.val() + y.val())
}

impl JournalEntry {
    /// The accounts have what undoing the entry needs.
    pub open spec fn grounded(self, m: Map<Address, AccountState>) -> bool {
        match self {
            JournalEntry::AccountWarmed { address } => m.contains_key(address),
            JournalEntry::AccountDestroyed { address, target, .. } => m.contains_key(address)
                && m.contains_key(target),
            JournalEntry::AccountTouched { address } => m.contains_key(address),
            JournalEntry::BalanceChange { address, .. } => m.contains_key(address),
            JournalEntry::BalanceTransfer { from, to, .. } => m.contains_key(from)
                && m.contains_key(to),
            JournalEntry::NonceChange { address } => m.contains_key(address)
                && m[address].info.nonce > 0,
            JournalEntry::AccountCreated { address, .. } => m.contains_key(address),
            JournalEntry::StorageChanged { address, key, .. } => m.contains_key(address)
                && m[address].storage.contains_key(key),
            JournalEntry::StorageWarmed { address, key } => m.contains_key(address)
                && m[address].storage.contains_key(key),
            JournalEntry::TransientStorageChange { .. } => true,
            JournalEntry::CodeChange { address } => m.contains_key(address),
        }
    }

    /// The accounts after the entry is undone.
    pub open spec fn undone(self, m: Map<Address, AccountState>, spurious_dragon: bool) -> Map<
        Address,
        AccountState,
    > {
        match self {
            JournalEntry::AccountWarmed { address } => m.insert(
                address,
                m[address].with_status(AccountStatus { cold: true, ..m[address].status }),
            ),
            JournalEntry::AccountDestroyed { address, target, destroyed_status, had_balance } => {
                let status = m[address].status;
                let back = m[address].with_status(
                    match destroyed_status {
                        SelfdestructionRevertStatus::GloballySelfdestroyed => AccountStatus {
                            selfdestructed: false,
                            selfdestructed_local: false,
                            ..status
                        },
                        SelfdestructionRevertStatus::LocallySelfdestroyed => AccountStatus {
                            selfdestructed_local: false,
                            ..status
                        },
                        SelfdestructionRevertStatus::RepeatedSelfdestruction => status,
                    },
                ).with_balance(more(m[address].info.balance, had_balance));
                let m2 = m.insert(address, back);
                if address == target {
                    m2
                } else {
                    m2.insert(
                        target,
                        m2[target].with_balance(less(m2[target].info.balance, had_balance)),
                    )
                }
            },
            JournalEntry::AccountTouched { address } => {
                if spurious_dragon && address == spec_precompile3() {
                    m
                } else {
                    m.insert(
                        address,
                        m[address].with_status(
                            AccountStatus { touched: false, ..m[address].status },
                        ),
                    )
                }
            },
            JournalEntry::BalanceChange { address, old_balance } => m.insert(
                address,
                m[address].with_balance(old_balance),
            ),
            JournalEntry::BalanceTransfer { from, to, balance } => {
                let m2 = m.insert(
                    from,
                    m[from].with_balance(more(m[from].info.balance, balance)),
                );
                m2.insert(to, m2[to].with_balance(less(m2[to].info.balance, balance)))
            },
            JournalEntry::NonceChange { address } => m.insert(
                address,
                m[address].with_nonce((m[address].info.nonce - 1) as u64),
            ),
            JournalEntry::AccountCreated { address, is_created_globally } => {
                let status = m[address].status;
                m.insert(
                    address,
                    m[address].with_status(
                        AccountStatus {
                            created_local: false,
                            created: status.created && !is_created_globally,
                            ..status
                        },
                    ).with_nonce(0),
                )
            },
            JournalEntry::StorageChanged { address, key, had_value } => m.insert(
                address,
                m[address].with_slot(key, m[address].storage[key].holding(had_value)),
            ),
            JournalEntry::StorageWarmed { address, key } => m.insert(
                address,
                m[address].with_slot(key, m[address].storage[key].cooled()),
            ),
            JournalEntry::TransientStorageChange { .. } => m,
            JournalEntry::CodeChange { address } => m.insert(
                address,
                m[address].with_code_hash(keccak::spec_keccak_empty()).with_code(None),
            ),
        }
    }

    /// The transient storage after the entry is undone.
    pub open spec fn undone_transient(self, t: Map<(Address, U256), U256>) -> Map<
        (Address, U256),
        U256,
    > {
        match self {
            JournalEntry::TransientStorageChange { address, key, had_value } => {
                if had_value.val() == 0 {
                    t.remove((address, key))
                } else {
                    t.insert((address, key), had_value)
                }
            },
            _ => t,
        }
    }

    /// Undoes a change of the transient storage.
    pub fn revert_transient(self, transient_storage: &mut TransientStorage)
        ensures
            final(transient_storage)@ == self.undone_transient(old(transient_storage)@),
    {
        if let JournalEntry::TransientStorageChange { address, key, had_value } = self {
            if had_value.is_zero() {
                let _ = transient_storage.remove(&(address, key));
            } else {
                let _ = transient_storage.insert((address, key), had_value);
            }
        }
    }

    /// Undoes a change of the accounts.
    pub fn revert(self, state: &mut EvmState, is_spurious_dragon_enabled: bool)
        requires
            self.grounded(account::accounts(old(state)@)),
        ensures
            account::accounts(final(state)@) == self.undone(
                account::accounts(old(state)@),
                is_spurious_dragon_enabled,
            ),
    {
        let ghost before = state@;
        reveal(more);
        reveal(less);
        match self {
            JournalEntry::AccountWarmed { address } => {
                let acc = state.get_mut(&address).unwrap();
                acc.mark_cold();
                proof {
                    account::lemma_accounts_insert(before, address, *acc);
                }
            },
            JournalEntry::AccountDestroyed { address, target, destroyed_status, had_balance } => {
                let acc = state.get_mut(&address).unwrap();
                match destroyed_status {
                    SelfdestructionRevertStatus::GloballySelfdestroyed => {
                        acc.unmark_selfdestruct();
                        acc.unmark_selfdestructed_locally();
                    },
                    SelfdestructionRevertStatus::LocallySelfdestroyed => {
                        acc.unmark_selfdestructed_locally();
                    },
                    SelfdestructionRevertStatus::RepeatedSelfdestruction => {},
                }
                acc.info.balance = acc.info.balance.wrapping_add(had_balance);
                proof {
                    account::lemma_accounts_insert(before, address, *acc);
                }
                if !address.same(&target) {
                    let ghost middle = state@;
                    let other = state.get_mut(&target).unwrap();
                    other.info.balance = other.info.balance.wrapping_sub(had_balance);
                    proof {
                        account::lemma_accounts_insert(middle, target, *other);
                    }
                }
            },
            JournalEntry::AccountTouched { address } => {
                if is_spurious_dragon_enabled && address.same(&(Address { hi: 0, mid: 0, lo: 3 })) {
                    return ;
                }
                let acc = state.get_mut(&address).unwrap();
                acc.unmark_touch();
                proof {
                    account::lemma_accounts_insert(before, address, *acc);
                }
            },
            JournalEntry::BalanceChange { address, old_balance } => {
                let acc = state.get_mut(&address).unwrap();
                acc.info.balance = old_balance;
                proof {
                    account::lemma_accounts_insert(before, address, *acc);
                }
            },
            JournalEntry::BalanceTransfer { from, to, balance } => {
                let acc = state.get_mut(&from).unwrap();
                acc.info.balance = acc.info.balance.wrapping_add(balance);
                proof {
                    account::lemma_accounts_insert(before, from, *acc);
                }
                let ghost middle = state@;
                let other = state.get_mut(&to).unwrap();
                other.info.balance = other.info.balance.wrapping_sub(balance);
                proof {
                    account::lemma_accounts_insert(middle, to, *other);
                }
            },
            JournalEntry::NonceChange { address } => {
                let acc = state.get_mut(&address).unwrap();
                acc.info.nonce = acc.info.nonce - 1;
                proof {
                    account::lemma_accounts_insert(before, address, *acc);
                }
            },
            JournalEntry::AccountCreated { address, is_created_globally } => {
                let acc = state.get_mut(&address).unwrap();
                acc.unmark_created_locally();
                if is_created_globally {
                    acc.unmark_created();
                }
                acc.info.nonce = 0;
                proof {
                    account::lemma_accounts_insert(before, address, *acc);
                }
            },
            JournalEntry::StorageChanged { address, key, had_value } => {
                let acc = state.get_mut(&address).unwrap();
                let slot = acc.storage.get_mut(&key).unwrap();
                slot.present_value = had_value;
                proof {
                    account::lemma_accounts_insert(before, address, *acc);
                }
            },
            JournalEntry::StorageWarmed { address, key } => {
                let acc = state.get_mut(&address).unwrap();
                let slot = acc.storage.get_mut(&key).unwrap();
                slot.mark_cold();
                proof {
                    account::lemma_accounts_insert(before, address, *acc);
                }
            },
            JournalEntry::TransientStorageChange { .. } => {},
            JournalEntry::CodeChange { address } => {
                let acc = state.get_mut(&address).unwrap();
                acc.info.code_hash = keccak_empty();
                acc.info.code = None;
                proof {
                    account::lemma_accounts_insert(before, address, *acc);
                }
            },
        }
    }
}

} // verus!
