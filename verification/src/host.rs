//! What the interpreter asks of its environment.

use crate::bytecode::code::CodeState;
use crate::bytecode::Bytecode;
use crate::primitives::keccak::keccak_empty;
use crate::primitives::keccak;
use crate::primitives::u256;
use crate::primitives::{Address, B256, U256};
use vstd::prelude::*;

verus! {

/// A value loaded from the state, and whether this was its first access.
#[derive(Clone, Copy, Debug, PartialEq, Eq, Structural)]
pub struct StateLoad<T> {
    /// The value.
    pub data: T,
    /// Whether it was cold.
    pub is_cold: bool,
}

/// The three values that meet in a storage write.
#[derive(Clone, Copy, Debug, PartialEq, Eq, Structural)]
pub struct SStoreResult {
    /// The value at the start of the transaction.
    pub original_value: U256,
    /// The value before the write.
    pub present_value: U256,
    /// The value after the write.
    pub new_value: U256,
}

/// What a self-destruction met.
#[derive(Clone, Copy, Debug, PartialEq, Eq, Structural)]
pub struct SelfDestructResult {
    /// Whether the account had a balance.
    pub had_value: bool,
    /// Whether the target account exists.
    pub target_exists: bool,
    /// Whether the account had been destroyed before.
    pub previously_destroyed: bool,
}

/// Why a load failed.
#[derive(Clone, Copy, Debug, PartialEq, Eq, Structural)]
pub enum LoadError {
    /// The value is cold and was not to be loaded.
    ColdLoadSkipped,
    /// The database failed.
    DBError,
}

/// A log record.
#[derive(Debug)]
pub struct Log {
    /// The account that emitted it.
    pub address: Address,
    /// Its topics, at most four.
    pub topics: Vec<B256>,
    /// Its data.
    pub data: Vec<u8>,
}

/// What a [`Log`] says.
#[verifier::ext_equal]
pub struct LogState {
    /// The account that emitted it.
    pub address: Address,
    /// Its topics.
    pub topics: Seq<B256>,
    /// Its data.
    pub data: Seq<u8>,
}

impl View for Log {
    type V = LogState;

    open spec fn view(&self) -> LogState {
        LogState { address: self.address, topics: self.topics@, data: self.data@ }
    }
}

/// An account that was loaded.
#[derive(Debug)]
pub struct AccountInfoLoad {
    /// The balance.
    pub balance: U256,
    /// The nonce.
    pub nonce: u64,
    /// The hash of the code.
    pub code_hash: B256,
    /// The code, if it was to be loaded.
    pub code: Option<Bytecode>,
    /// Whether this was the first access to the account.
    pub is_cold: bool,
}

/// What an [`AccountInfoLoad`] says.
#[verifier::ext_equal]
pub struct AccountLoadState {
    /// The balance.
    pub balance: U256,
    /// The nonce.
    pub nonce: u64,
    /// The hash of the code.
    pub code_hash: B256,
    /// The code.
    pub code: Option<CodeState>,
    /// Whether this was the first access to the account.
    pub is_cold: bool,
}

impl View for AccountInfoLoad {
    type V = AccountLoadState;

    open spec fn view(&self) -> AccountLoadState {
        AccountLoadState {
            balance: self.balance,
            nonce: self.nonce,
            code_hash: self.code_hash,
            code: match self.code {
                Some(c) => Some(c@),
                None => None,
            },
            is_cold: self.is_cold,
        }
    }
}

impl AccountLoadState {
    /// Whether the account is empty: no code, no balance, no transactions.
    pub open spec fn empty(self) -> bool {
        (self.code_hash == keccak::spec_keccak_empty() || self.code_hash.word.val() == 0)
            && self.balance.val() == 0 && self.nonce == 0
    }
}

impl AccountInfoLoad {
    /// Whether the account is empty.
    pub fn is_empty(&self) -> (r: bool)
        ensures
            r == self@.empty(),
    {
        (self.code_hash.same(&keccak_empty()) || self.code_hash.word.is_zero())
            && self.balance.is_zero() && self.nonce == 0
    }
}

/// The block and the transaction, as far as instructions can see them.
#[verifier::ext_equal]
pub struct EnvState {
    /// The base fee of the block.
    pub basefee: U256,
    /// The price of blob gas.
    pub blob_gasprice: U256,
    /// The gas limit of the block.
    pub gas_limit: U256,
    /// The difficulty of the block.
    pub difficulty: U256,
    /// The randomness of the block, from the merge on.
    pub prevrandao: Option<U256>,
    /// The number of the block.
    pub block_number: U256,
    /// The time of the block.
    pub timestamp: U256,
    /// The account that the fees go to.
    pub beneficiary: Address,
    /// The chain.
    pub chain_id: U256,
    /// The gas price that the transaction pays.
    pub effective_gas_price: U256,
    /// The sender of the transaction.
    pub caller: Address,
    /// The hashes of the transaction's blobs.
    pub blob_hashes: Seq<U256>,
}

/// A question to the state.
#[verifier::ext_equal]
pub enum HostCall {
    /// An account; whether its code is wanted; whether a cold account is to be skipped.
    LoadAccount(Address, bool, bool),
    /// The balance of an account.
    Balance(Address),
    /// The code of an account.
    Code(Address),
    /// The hash of a block.
    BlockHash(u64),
    /// A storage slot; whether a cold slot is to be skipped.
    SLoadSkipCold(Address, U256, bool),
    /// A storage slot.
    SLoad(Address, U256),
    /// A write to a storage slot; whether a cold slot is to be skipped.
    SStoreSkipCold(Address, U256, U256, bool),
    /// A write to a storage slot.
    SStore(Address, U256, U256),
    /// A transient slot.
    TLoad(Address, U256),
    /// A write to a transient slot.
    TStore(Address, U256, U256),
    /// A log record.
    Log(LogState),
    /// A self-destruction: the account and the account that gets its balance.
    SelfDestruct(Address, Address),
}

/// The answer to a question.
#[verifier::ext_equal]
pub enum HostReply {
    /// An account.
    Account(Result<AccountLoadState, LoadError>),
    /// A balance.
    Balance(Option<StateLoad<U256>>),
    /// A code.
    Code(Option<Seq<u8>>),
    /// A hash.
    Hash(Option<B256>),
    /// A slot, unless it was skipped or the database failed.
    Slot(Result<StateLoad<U256>, LoadError>),
    /// A slot, unless the database failed.
    SlotOr(Option<StateLoad<U256>>),
    /// A write, unless it was skipped or the database failed.
    Write(Result<StateLoad<SStoreResult>, LoadError>),
    /// A write, unless the database failed.
    WriteOr(Option<StateLoad<SStoreResult>>),
    /// A transient slot.
    Word(U256),
    /// Nothing.
    Done,
    /// A self-destruction, unless the database failed.
    SelfDestruct(Option<StateLoad<SelfDestructResult>>),
}

/// The environment of the interpreter: the block and the transaction, which stay the same,
/// and the state.
pub trait Host: Sized {
    /// The block and the transaction.
    spec fn env(&self) -> EnvState;

    /// Whether a host can answer a question in this way and be this host afterwards.
    spec fn replies(pre: &Self, call: HostCall, reply: HostReply, post: &Self) -> bool;

    /// The base fee of the block.
    fn basefee(&self) -> (r: U256)
        ensures
            r == self.env().basefee,
    ;

    /// The price of blob gas.
    fn blob_gasprice(&self) -> (r: U256)
        ensures
            r == self.env().blob_gasprice,
    ;

    /// The gas limit of the block.
    fn gas_limit(&self) -> (r: U256)
        ensures
            r == self.env().gas_limit,
    ;

    /// The difficulty of the block.
    fn difficulty(&self) -> (r: U256)
        ensures
            r == self.env().difficulty,
    ;

    /// The randomness of the block.
    fn prevrandao(&self) -> (r: Option<U256>)
        ensures
            r == self.env().prevrandao,
    ;

    /// The number of the block.
    fn block_number(&self) -> (r: U256)
        ensures
            r == self.env().block_number,
    ;

    /// The time of the block.
    fn timestamp(&self) -> (r: U256)
        ensures
            r == self.env().timestamp,
    ;

    /// The account that the fees go to.
    fn beneficiary(&self) -> (r: Address)
        ensures
            r == self.env().beneficiary,
    ;

    /// The chain.
    fn chain_id(&self) -> (r: U256)
        ensures
            r == self.env().chain_id,
    ;

    /// The gas price that the transaction pays.
    fn effective_gas_price(&self) -> (r: U256)
        ensures
            r == self.env().effective_gas_price,
    ;

    /// The sender of the transaction.
    fn caller(&self) -> (r: Address)
        ensures
            r == self.env().caller,
    ;

    /// The hash of one of the transaction's blobs.
    fn blob_hash(&self, number: usize) -> (r: Option<U256>)
        ensures
            r == (if number < self.env().blob_hashes.len() {
                Some(self.env().blob_hashes[number as int])
            } else {
                None
            }),
    ;

    /// Loads an account. Its code comes with it if it is asked for.
    fn load_account_info_skip_cold_load(
        &mut self,
        address: Address,
        load_code: bool,
        skip_cold_load: bool,
    ) -> (r: Result<AccountInfoLoad, LoadError>)
        ensures
            final(self).env() == old(self).env(),
            r is Ok && load_code ==> r->Ok_0@.code is Some && r->Ok_0@.code->0.wf(),
            Self::replies(
                old(self),
                HostCall::LoadAccount(address, load_code, skip_cold_load),
                HostReply::Account(
                    match r {
                        Ok(a) => Ok(a@),
                        Err(e) => Err(e),
                    },
                ),
                final(self),
            ),
    ;

    /// The balance of an account.
    fn balance(&mut self, address: Address) -> (r: Option<StateLoad<U256>>)
        ensures
            final(self).env() == old(self).env(),
            Self::replies(old(self), HostCall::Balance(address), HostReply::Balance(r), final(self)),
    ;

    /// The code of an account.
    fn load_account_code(&mut self, address: Address) -> (r: Option<Vec<u8>>)
        ensures
            final(self).env() == old(self).env(),
            Self::replies(
                old(self),
                HostCall::Code(address),
                HostReply::Code(
                    match r {
                        Some(c) => Some(c@),
                        None => None,
                    },
                ),
                final(self),
            ),
    ;

    /// The hash of a block.
    fn block_hash(&mut self, number: u64) -> (r: Option<B256>)
        ensures
            final(self).env() == old(self).env(),
            Self::replies(old(self), HostCall::BlockHash(number), HostReply::Hash(r), final(self)),
    ;

    /// Reads a storage slot; a cold one is skipped if asked.
    fn sload_skip_cold_load(&mut self, address: Address, key: U256, skip_cold_load: bool) -> (r:
        Result<StateLoad<U256>, LoadError>)
        ensures
            final(self).env() == old(self).env(),
            Self::replies(
                old(self),
                HostCall::SLoadSkipCold(address, key, skip_cold_load),
                HostReply::Slot(r),
                final(self),
            ),
    ;

    /// Reads a storage slot.
    fn sload(&mut self, address: Address, key: U256) -> (r: Option<StateLoad<U256>>)
        ensures
            final(self).env() == old(self).env(),
            Self::replies(
                old(self),
                HostCall::SLoad(address, key),
                HostReply::SlotOr(r),
                final(self),
            ),
    ;

    /// Writes a storage slot; a cold one is skipped if asked.
    fn sstore_skip_cold_load(
        &mut self,
        address: Address,
        key: U256,
        value: U256,
        skip_cold_load: bool,
    ) -> (r: Result<StateLoad<SStoreResult>, LoadError>)
        ensures
            final(self).env() == old(self).env(),
            Self::replies(
                old(self),
                HostCall::SStoreSkipCold(address, key, value, skip_cold_load),
                HostReply::Write(r),
                final(self),
            ),
    ;

    /// Writes a storage slot.
    fn sstore(&mut self, address: Address, key: U256, value: U256) -> (r: Option<
        StateLoad<SStoreResult>,
    >)
        ensures
            final(self).env() == old(self).env(),
            Self::replies(
                old(self),
                HostCall::SStore(address, key, value),
                HostReply::WriteOr(r),
                final(self),
            ),
    ;

    /// Reads a transient slot.
    fn tload(&mut self, address: Address, key: U256) -> (r: U256)
        ensures
            final(self).env() == old(self).env(),
            Self::replies(old(self), HostCall::TLoad(address, key), HostReply::Word(r), final(self)),
    ;

    /// Writes a transient slot.
    fn tstore(&mut self, address: Address, key: U256, value: U256)
        ensures
            final(self).env() == old(self).env(),
            Self::replies(
                old(self),
                HostCall::TStore(address, key, value),
                HostReply::Done,
                final(self),
            ),
    ;

    /// Records a log.
    fn log(&mut self, log: Log)
        ensures
            final(self).env() == old(self).env(),
            Self::replies(old(self), HostCall::Log(log@), HostReply::Done, final(self)),
    ;

    /// Destroys an account; its balance goes to another.
    fn selfdestruct(&mut self, address: Address, target: Address) -> (r: Option<
        StateLoad<SelfDestructResult>,
    >)
        ensures
            final(self).env() == old(self).env(),
            Self::replies(
                old(self),
                HostCall::SelfDestruct(address, target),
                HostReply::SelfDestruct(r),
                final(self),
            ),
    ;
}

/// A host without a state: everything in the environment is zero, every load fails, and what
/// is written is forgotten.
#[derive(Clone, Copy, Debug, PartialEq, Eq, Structural)]
pub struct DummyHost;

/// The environment of a [`DummyHost`].
pub open spec fn dummy_env() -> EnvState {
    EnvState {
        basefee: u256::word(0),
        blob_gasprice: u256::word(0),
        gas_limit: u256::word(0),
        difficulty: u256::word(0),
        prevrandao: Some(u256::word(0)),
        block_number: u256::word(0),
        timestamp: u256::word(0),
        beneficiary: Address { hi: 0, mid: 0, lo: 0 },
        chain_id: u256::word(0),
        effective_gas_price: u256::word(0),
        caller: Address { hi: 0, mid: 0, lo: 0 },
        blob_hashes: Seq::empty(),
    }
}

/// How a [`DummyHost`] answers.
pub open spec fn dummy_reply(call: HostCall) -> HostReply {
    match call {
        HostCall::LoadAccount(_, _, _) => HostReply::Account(Err(LoadError::DBError)),
        HostCall::Balance(_) => HostReply::Balance(None),
        HostCall::Code(_) => HostReply::Code(None),
        HostCall::BlockHash(_) => HostReply::Hash(None),
        HostCall::SLoadSkipCold(_, _, _) => HostReply::Slot(Err(LoadError::DBError)),
        HostCall::SLoad(_, _) => HostReply::SlotOr(None),
        HostCall::SStoreSkipCold(_, _, _, _) => HostReply::Write(Err(LoadError::DBError)),
        HostCall::SStore(_, _, _) => HostReply::WriteOr(None),
        HostCall::TLoad(_, _) => HostReply::Word(u256::word(0)),
        HostCall::TStore(_, _, _) => HostReply::Done,
        HostCall::Log(_) => HostReply::Done,
        HostCall::SelfDestruct(_, _) => HostReply::SelfDestruct(None),
    }
}

impl Host for DummyHost {
    open spec fn env(&self) -> EnvState {
        dummy_env()
    }

    open spec fn replies(pre: &DummyHost, call: HostCall, reply: HostReply, post: &DummyHost) -> bool {
        reply == dummy_reply(call)
    }

    fn basefee(&self) -> (r: U256) {
        U256::zero()
    }

    fn blob_gasprice(&self) -> (r: U256) {
        U256::zero()
    }

    fn gas_limit(&self) -> (r: U256) {
        U256::zero()
    }

    fn difficulty(&self) -> (r: U256) {
        U256::zero()
    }

    fn prevrandao(&self) -> (r: Option<U256>) {
        Some(U256::zero())
    }

    fn block_number(&self) -> (r: U256) {
        U256::zero()
    }

    fn timestamp(&self) -> (r: U256) {
        U256::zero()
    }

    fn beneficiary(&self) -> (r: Address) {
        Address::zero()
    }

    fn chain_id(&self) -> (r: U256) {
        U256::zero()
    }

    fn effective_gas_price(&self) -> (r: U256) {
        U256::zero()
    }

    fn caller(&self) -> (r: Address) {
        Address::zero()
    }

    fn blob_hash(&self, number: usize) -> (r: Option<U256>) {
        None
    }

    fn load_account_info_skip_cold_load(
        &mut self,
        address: Address,
        load_code: bool,
        skip_cold_load: bool,
    ) -> (r: Result<AccountInfoLoad, LoadError>) {
        Err(LoadError::DBError)
    }

    fn balance(&mut self, address: Address) -> (r: Option<StateLoad<U256>>) {
        None
    }

    fn load_account_code(&mut self, address: Address) -> (r: Option<Vec<u8>>) {
        None
    }

    fn block_hash(&mut self, number: u64) -> (r: Option<B256>) {
        None
    }

    fn sload_skip_cold_load(&mut self, address: Address, key: U256, skip_cold_load: bool) -> (r:
        Result<StateLoad<U256>, LoadError>) {
        Err(LoadError::DBError)
    }

    fn sload(&mut self, address: Address, key: U256) -> (r: Option<StateLoad<U256>>) {
        None
    }

    fn sstore_skip_cold_load(
        &mut self,
        address: Address,
        key: U256,
        value: U256,
        skip_cold_load: bool,
    ) -> (r: Result<StateLoad<SStoreResult>, LoadError>) {
        Err(LoadError::DBError)
    }

    fn sstore(&mut self, address: Address, key: U256, value: U256) -> (r: Option<
        StateLoad<SStoreResult>,
    >) {
        None
    }

    fn tload(&mut self, address: Address, key: U256) -> (r: U256) {
        U256::zero()
    }

    fn tstore(&mut self, address: Address, key: U256, value: U256) {
    }

    fn log(&mut self, log: Log) {
    }

    fn selfdestruct(&mut self, address: Address, target: Address) -> (r: Option<
        StateLoad<SelfDestructResult>,
    >) {
        None
    }
}

} // verus!
