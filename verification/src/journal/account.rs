//! Accounts and their storage.

use crate::bytecode::code::CodeState;
use crate::bytecode::Bytecode;
use crate::journal::keyed_map::KeyedMap;
use crate::primitives::keccak;
use crate::primitives::keccak::keccak_empty;
use crate::primitives::u256;
use crate::primitives::{Address, SpecId, B256, U256};
use vstd::prelude::*;

verus! {

/// The accounts that a transaction has met.
pub type EvmState = KeyedMap<Address, Account>;

/// The storage slots of an account that a transaction has met.
pub type EvmStorage = KeyedMap<U256, EvmStorageSlot>;

/// Storage that lives as long as the transaction.
pub type TransientStorage = KeyedMap<(Address, U256), U256>;

/// A storage slot.
#[derive(Clone, Copy, Debug, PartialEq, Eq, Structural)]
pub struct EvmStorageSlot {
    /// The value at the start.
    pub original_value: U256,
    /// The value now.
    pub present_value: U256,
    /// The transaction that used the slot last.
    pub transaction_id: usize,
    /// Whether the slot was set back to cold.
    pub is_cold: bool,
}

impl EvmStorageSlot {
    /// A slot that was just loaded.
    pub open spec fn loaded(value: U256, transaction_id: usize) -> EvmStorageSlot {
        EvmStorageSlot { original_value: value, present_value: value, transaction_id, is_cold: false }
    }

    /// Whether the slot is cold for a transaction.
    pub open spec fn cold_in(self, transaction_id: usize) -> bool {
        self.transaction_id != transaction_id || self.is_cold
    }

    /// The slot after an access by a transaction.
    pub open spec fn warmed(self, transaction_id: usize) -> EvmStorageSlot {
        EvmStorageSlot { transaction_id, is_cold: false, ..self }
    }

    /// The slot with another value.
    pub open spec fn holding(self, value: U256) -> EvmStorageSlot {
        EvmStorageSlot { present_value: value, ..self }
    }

    /// The slot, set back to cold.
    pub open spec fn cooled(self) -> EvmStorageSlot {
        EvmStorageSlot { is_cold: true, ..self }
    }

    /// A slot that was just loaded.
    pub fn new(value: U256, transaction_id: usize) -> (r: EvmStorageSlot)
        ensures
            r == EvmStorageSlot::loaded(value, transaction_id),
    {
        EvmStorageSlot { original_value: value, present_value: value, transaction_id, is_cold: false }
    }

    /// The value at the start.
    pub fn original_value(&self) -> (r: U256)
        ensures
            r == self.original_value,
    {
        self.original_value
    }

    /// Whether the slot is cold for a transaction.
    pub fn is_cold_transaction_id(&self, transaction_id: usize) -> (r: bool)
        ensures
            r == self.cold_in(transaction_id),
    {
        self.transaction_id != transaction_id || self.is_cold
    }

    /// Sets the slot back to cold.
    pub fn mark_cold(&mut self)
        ensures
            *final(self) == old(self).cooled(),
    {
        self.is_cold = true;
    }
}

/// Balance, nonce and code of an account.
#[derive(Debug)]
pub struct AccountInfo {
    /// The balance.
    pub balance: U256,
    /// The nonce.
    pub nonce: u64,
    /// The hash of the code.
    pub code_hash: B256,
    /// The code, if it is loaded.
    pub code: Option<Bytecode>,
}

/// What an [`AccountInfo`] says.
#[verifier::ext_equal]
pub struct InfoState {
    /// The balance.
    pub balance: U256,
    /// The nonce.
    pub nonce: u64,
    /// The hash of the code.
    pub code_hash: B256,
    /// The code, if it is loaded.
    pub code: Option<CodeState>,
}

impl InfoState {
    /// An account without code, balance or transactions; its code is loaded.
    pub open spec fn fresh() -> InfoState {
        InfoState {
            balance: u256::word(0),
            nonce: 0,
            code_hash: keccak::spec_keccak_empty(),
            code: Some(CodeState::from_raw(Seq::empty())),
        }
    }

    /// Whether the account is empty: no code, no balance, no transactions.
    pub open spec fn empty(self) -> bool {
        (self.code_hash == keccak::spec_keccak_empty() || self.code_hash.word.val() == 0)
            && self.balance.val() == 0 && self.nonce == 0
    }
}

/// The code that is loaded, by what it says.
pub open spec fn code_view(code: Option<Bytecode>) -> Option<CodeState> {
    match code {
        Some(c) => Some(c@),
        None => None,
    }
}

impl View for AccountInfo {
    type V = InfoState;

    open spec fn view(&self) -> InfoState {
        InfoState {
            balance: self.balance,
            nonce: self.nonce,
            code_hash: self.code_hash,
            code: code_view(self.code),
        }
    }
}

impl Default for AccountInfo {
    fn default() -> (r: AccountInfo)
        ensures
            r@ == InfoState::fresh(),
    {
        AccountInfo {
            balance: U256::zero(),
            nonce: 0,
            code_hash: keccak_empty(),
            code: Some(Bytecode::default()),
        }
    }
}

impl AccountInfo {
    /// Whether the account is empty.
    pub fn is_empty(&self) -> (r: bool)
        ensures
            r == self@.empty(),
    {
        (self.code_hash.same(&keccak_empty()) || self.code_hash.word.is_zero())
            && self.balance.is_zero() && self.nonce == 0
    }
}

/// What happened to an account. What is marked as local happened in the transaction that used
/// the account last.
#[derive(Clone, Copy, Debug, PartialEq, Eq, Structural)]
pub struct AccountStatus {
    /// It was created.
    pub created: bool,
    /// It was created in this transaction.
    pub created_local: bool,
    /// It was destroyed.
    pub selfdestructed: bool,
    /// It was destroyed in this transaction.
    pub selfdestructed_local: bool,
    /// It was touched, so that it belongs to the outcome.
    pub touched: bool,
    /// The database did not know it.
    pub loaded_as_not_existing: bool,
    /// It was set back to cold.
    pub cold: bool,
}

impl AccountStatus {
    /// Nothing happened.
    pub open spec fn none() -> AccountStatus {
        AccountStatus {
            created: false,
            created_local: false,
            selfdestructed: false,
            selfdestructed_local: false,
            touched: false,
            loaded_as_not_existing: false,
            cold: false,
        }
    }

    /// Nothing happened.
    pub fn empty() -> (r: AccountStatus)
        ensures
            r == AccountStatus::none(),
    {
        AccountStatus {
            created: false,
            created_local: false,
            selfdestructed: false,
            selfdestructed_local: false,
            touched: false,
            loaded_as_not_existing: false,
            cold: false,
        }
    }
}

/// An account.
#[derive(Debug)]
pub struct Account {
    /// Balance, nonce and code.
    pub info: AccountInfo,
    /// The transaction that used the account last.
    pub transaction_id: usize,
    /// The storage slots that are loaded.
    pub storage: EvmStorage,
    /// What happened to the account.
    pub status: AccountStatus,
}

/// What an [`Account`] holds.
#[verifier::ext_equal]
pub struct AccountState {
    /// Balance, nonce and code.
    pub info: InfoState,
    /// The transaction that used the account last.
    pub transaction_id: usize,
    /// The storage slots that are loaded.
    pub storage: Map<U256, EvmStorageSlot>,
    /// What happened to the account.
    pub status: AccountStatus,
}

impl View for Account {
    type V = AccountState;

    open spec fn view(&self) -> AccountState {
        AccountState {
            info: self.info@,
            transaction_id: self.transaction_id,
            storage: self.storage@,
            status: self.status,
        }
    }
}

impl AccountState {
    /// An account that was loaded from a database.
    pub open spec fn from_info(info: InfoState) -> AccountState {
        AccountState {
            info,
            transaction_id: 0,
            storage: Map::empty(),
            status: AccountStatus::none(),
        }
    }

    /// An account that the database does not know.
    pub open spec fn not_existing(transaction_id: usize) -> AccountState {
        AccountState {
            info: InfoState::fresh(),
            transaction_id,
            storage: Map::empty(),
            status: AccountStatus { loaded_as_not_existing: true, ..AccountStatus::none() },
        }
    }

    /// Whether the account is cold for a transaction.
    pub open spec fn cold_in(self, transaction_id: usize) -> bool {
        self.transaction_id != transaction_id || self.status.cold
    }

    /// The account as a transaction finds it: an account that is cold for the transaction and
    /// was destroyed before is empty, and no earlier creation is local.
    pub open spec fn opened(self, transaction_id: usize) -> AccountState {
        let destroyed = self.status.selfdestructed_local;
        AccountState {
            info: if destroyed {
                InfoState::fresh()
            } else {
                self.info
            },
            transaction_id,
            storage: if destroyed {
                Map::empty()
            } else {
                self.storage
            },
            status: AccountStatus {
                created_local: false,
                selfdestructed_local: false,
                cold: false,
                ..self.status
            },
        }
    }

    /// The account with another status.
    pub open spec fn with_status(self, status: AccountStatus) -> AccountState {
        AccountState { status, ..self }
    }

    /// The account with another balance.
    pub open spec fn with_balance(self, balance: U256) -> AccountState {
        AccountState { info: InfoState { balance, ..self.info }, ..self }
    }

    /// The account with another nonce.
    pub open spec fn with_nonce(self, nonce: u64) -> AccountState {
        AccountState { info: InfoState { nonce, ..self.info }, ..self }
    }

    /// The account with loaded or unloaded code.
    pub open spec fn with_code(self, code: Option<CodeState>) -> AccountState {
        AccountState { info: InfoState { code, ..self.info }, ..self }
    }

    /// The account with another code hash.
    pub open spec fn with_code_hash(self, code_hash: B256) -> AccountState {
        AccountState { info: InfoState { code_hash, ..self.info }, ..self }
    }

    /// The account with a slot.
    pub open spec fn with_slot(self, key: U256, slot: EvmStorageSlot) -> AccountState {
        AccountState { storage: self.storage.insert(key, slot), ..self }
    }

    /// The account, touched.
    pub open spec fn touched(self) -> AccountState {
        self.with_status(AccountStatus { touched: true, ..self.status })
    }

    /// Whether the account counts as empty in a fork: before EIP-161, whether it does not
    /// exist.
    pub open spec fn clear_aware_empty(self, spec: SpecId) -> bool {
        if spec.enabled(SpecId::SPURIOUS_DRAGON) {
            self.info.empty()
        } else {
            self.status.loaded_as_not_existing && !self.status.touched
        }
    }
}

impl Account {
    /// An account that was loaded from a database.
    pub fn from_info(info: AccountInfo) -> (r: Account)
        ensures
            r@ == AccountState::from_info(info@),
    {
        Account { info, transaction_id: 0, storage: KeyedMap::new(), status: AccountStatus::empty() }
    }

    /// An account that the database does not know.
    pub fn new_not_existing(transaction_id: usize) -> (r: Account)
        ensures
            r@ == AccountState::not_existing(transaction_id),
    {
        let mut status = AccountStatus::empty();
        status.loaded_as_not_existing = true;
        Account { info: AccountInfo::default(), transaction_id, storage: KeyedMap::new(), status }
    }

    /// Whether the account is touched.
    pub fn is_touched(&self) -> (r: bool)
        ensures
            r == self.status.touched,
    {
        self.status.touched
    }

    /// Touches the account.
    pub fn mark_touch(&mut self)
        ensures
            final(self)@ == old(self)@.touched(),
    {
        self.status.touched = true;
    }

    /// Undoes a touch.
    pub fn unmark_touch(&mut self)
        ensures
            final(self)@ == old(self)@.with_status(
                AccountStatus { touched: false, ..old(self).status },
            ),
    {
        self.status.touched = false;
    }

    /// Whether the account was created.
    pub fn is_created(&self) -> (r: bool)
        ensures
            r == self.status.created,
    {
        self.status.created
    }

    /// Whether the account was created in this transaction.
    pub fn is_created_locally(&self) -> (r: bool)
        ensures
            r == self.status.created_local,
    {
        self.status.created_local
    }

    /// Marks the account as created in this transaction; tells whether it was not created
    /// before.
    pub fn mark_created_locally(&mut self) -> (r: bool)
        ensures
            r == !old(self).status.created,
            final(self)@ == old(self)@.with_status(
                AccountStatus { created: true, created_local: true, ..old(self).status },
            ),
    {
        let first: bool = !self.status.created;
        self.status.created_local = true;
        self.status.created = true;
        first
    }

    /// Undoes the mark of creation in this transaction.
    pub fn unmark_created_locally(&mut self)
        ensures
            final(self)@ == old(self)@.with_status(
                AccountStatus { created_local: false, ..old(self).status },
            ),
    {
        self.status.created_local = false;
    }

    /// Undoes the mark of creation.
    pub fn unmark_created(&mut self)
        ensures
            final(self)@ == old(self)@.with_status(
                AccountStatus { created: false, ..old(self).status },
            ),
    {
        self.status.created = false;
    }

    /// Whether the account was destroyed.
    pub fn is_selfdestructed(&self) -> (r: bool)
        ensures
            r == self.status.selfdestructed,
    {
        self.status.selfdestructed
    }

    /// Whether the account was destroyed in this transaction.
    pub fn is_selfdestructed_locally(&self) -> (r: bool)
        ensures
            r == self.status.selfdestructed_local,
    {
        self.status.selfdestructed_local
    }

    /// Marks the account as destroyed in this transaction; tells whether it was not destroyed
    /// before.
    pub fn mark_selfdestructed_locally(&mut self) -> (r: bool)
        ensures
            r == !old(self).status.selfdestructed,
            final(self)@ == old(self)@.with_status(
                AccountStatus {
                    selfdestructed: true,
                    selfdestructed_local: true,
                    ..old(self).status
                },
            ),
    {
        let first: bool = !self.status.selfdestructed;
        self.status.selfdestructed_local = true;
        self.status.selfdestructed = true;
        first
    }

    /// Undoes the mark of destruction in this transaction.
    pub fn unmark_selfdestructed_locally(&mut self)
        ensures
            final(self)@ == old(self)@.with_status(
                AccountStatus { selfdestructed_local: false, ..old(self).status },
            ),
    {
        self.status.selfdestructed_local = false;
    }

    /// Undoes the mark of destruction.
    pub fn unmark_selfdestruct(&mut self)
        ensures
            final(self)@ == old(self)@.with_status(
                AccountStatus { selfdestructed: false, ..old(self).status },
            ),
    {
        self.status.selfdestructed = false;
    }

    /// Empties the account.
    pub fn selfdestruct(&mut self)
        ensures
            final(self)@ == (AccountState {
                info: InfoState::fresh(),
                storage: Map::empty(),
                ..old(self)@
            }),
    {
        self.storage.clear();
        self.info = AccountInfo::default();
    }

    /// Sets the account back to cold.
    pub fn mark_cold(&mut self)
        ensures
            final(self)@ == old(self)@.with_status(AccountStatus { cold: true, ..old(self).status }),
    {
        self.status.cold = true;
    }

    /// Whether the account is cold for a transaction.
    pub fn is_cold_transaction_id(&self, transaction_id: usize) -> (r: bool)
        ensures
            r == self@.cold_in(transaction_id),
    {
        self.transaction_id != transaction_id || self.status.cold
    }

    /// Marks the account as used by a transaction; tells whether it was cold.
    pub fn mark_warm_with_transaction_id(&mut self, transaction_id: usize) -> (r: bool)
        ensures
            r == old(self)@.cold_in(transaction_id),
            final(self)@ == (AccountState {
                transaction_id,
                status: AccountStatus { cold: false, ..old(self).status },
                ..old(self)@
            }),
    {
        let is_cold: bool = self.is_cold_transaction_id(transaction_id);
        self.status.cold = false;
        self.transaction_id = transaction_id;
        is_cold
    }

    /// Whether the account is empty.
    pub fn is_empty(&self) -> (r: bool)
        ensures
            r == self@.info.empty(),
    {
        self.info.is_empty()
    }

    /// Whether the account does not exist and was not touched.
    pub fn is_loaded_as_not_existing_not_touched(&self) -> (r: bool)
        ensures
            r == (self.status.loaded_as_not_existing && !self.status.touched),
    {
        self.status.loaded_as_not_existing && !self.status.touched
    }

    /// Whether the account counts as empty in a fork.
    pub fn state_clear_aware_is_empty(&self, spec: SpecId) -> (r: bool)
        ensures
            r == self@.clear_aware_empty(spec),
    {
        if spec.is_enabled_in(SpecId::SPURIOUS_DRAGON) {
            self.is_empty()
        } else {
            self.is_loaded_as_not_existing_not_touched()
        }
    }
}

/// The accounts of a map, by what they hold.
pub open spec fn accounts(m: Map<Address, Account>) -> Map<Address, AccountState> {
    Map::new(|a: Address| m.contains_key(a), |a: Address| m[a]@)
}

/// An account of the map is replaced or added.
pub proof fn lemma_accounts_insert(m: Map<Address, Account>, address: Address, account: Account)
    ensures
        accounts(m.insert(address, account)) == accounts(m).insert(address, account@),
{
    assert(accounts(m.insert(address, account)) =~= accounts(m).insert(address, account@));
}

} // verus!
