//! What frames of the main network run in.

use crate::bytecode::Bytecode;
use crate::host::{
    AccountInfoLoad, AccountLoadState, EnvState, Host, HostCall, HostReply, LoadError, Log,
    SStoreResult, SelfDestructResult, StateLoad,
};
use crate::journal::database::{Database, DbCall, DbReply};
use crate::journal::inner::JournalInner;
use crate::journal::model;
use crate::journal::model::{JournalLoadError, JournalState};
use crate::primitives::u256;
use crate::primitives::{Address, SpecId, B256, U256};
use vstd::prelude::*;
use vstd::slice::slice_to_vec;

verus! {

/// The block and the transaction.
#[derive(Debug)]
pub struct Env {
    /// The base fee of the block.
    pub basefee: U256,
    /// The price of blob gas.
    pub blob_gasprice: U256,
    /// The gas limit of the block.
    pub gas_limit: U256,
    /// The difficulty of the block.
    pub difficulty: U256,
    /// The randomness of the block, from the merge on.
    pub prevrandao: Option<U256>,
    /// The number of the block.
    pub block_number: U256,
    /// The time of the block.
    pub timestamp: U256,
    /// The account that the fees go to.
    pub beneficiary: Address,
    /// The chain.
    pub chain_id: U256,
    /// The gas price that the transaction pays.
    pub effective_gas_price: U256,
    /// The sender of the transaction.
    pub caller: Address,
    /// The hashes of the transaction's blobs.
    pub blob_hashes: Vec<U256>,
}

impl View for Env {
    type V = EnvState;

    open spec fn view(&self) -> EnvState {
        EnvState {
            basefee: self.basefee,
            blob_gasprice: self.blob_gasprice,
            gas_limit: self.gas_limit,
            difficulty: self.difficulty,
            prevrandao: self.prevrandao,
            block_number: self.block_number,
            timestamp: self.timestamp,
            beneficiary: self.beneficiary,
            chain_id: self.chain_id,
            effective_gas_price: self.effective_gas_price,
            caller: self.caller,
            blob_hashes: self.blob_hashes@,
        }
    }
}

/// A block and a transaction of the main network of which nothing else is known.
pub open spec fn blank_env() -> EnvState {
    EnvState {
        basefee: u256::word(0),
        blob_gasprice: u256::word(0),
        gas_limit: u256::word(0),
        difficulty: u256::word(0),
        prevrandao: Some(u256::word(0)),
        block_number: u256::word(0),
        timestamp: u256::word(0),
        beneficiary: Address { hi: 0, mid: 0, lo: 0 },
        chain_id: u256::word(1),
        effective_gas_price: u256::word(0),
        caller: Address { hi: 0, mid: 0, lo: 0 },
        blob_hashes: Seq::empty(),
    }
}

impl Default for Env {
    fn default() -> (r: Env)
        ensures
            r@ == blank_env(),
    {
        Env {
            basefee: U256::zero(),
            blob_gasprice: U256::zero(),
            gas_limit: U256::zero(),
            difficulty: U256::zero(),
            prevrandao: Some(U256::zero()),
            block_number: U256::zero(),
            timestamp: U256::zero(),
            beneficiary: Address::zero(),
            chain_id: U256::one(),
            effective_gas_price: U256::zero(),
            caller: Address::zero(),
            blob_hashes: Vec::new(),
        }
    }
}

/// A journal that is well formed between the calls.
#[derive(Debug)]
pub struct Journal {
    inner: JournalInner,
}

impl View for Journal {
    type V = JournalState;

    closed spec fn view(&self) -> JournalState {
        self.inner@
    }
}

impl Journal {
    #[verifier::type_invariant]
    closed spec fn inv(self) -> bool {
        self.inner.wf()
    }

    /// A journal to be kept.
    pub fn new(inner: JournalInner) -> (r: Journal)
        requires
            inner.wf(),
        ensures
            r@ == inner@,
    {
        Journal { inner }
    }

    /// The journal.
    pub fn inner(&self) -> (r: &JournalInner)
        ensures
            r.wf(),
            r@ == self@,
    {
        proof {
            use_type_invariant(self);
        }
        &self.inner
    }

    /// Takes the journal out; one of nothing is left.
    pub fn take(&mut self) -> (r: JournalInner)
        ensures
            r.wf(),
            r@ == old(self)@,
            final(self)@ == JournalState::fresh(),
    {
        proof {
            use_type_invariant(&*self);
        }
        let mut inner = JournalInner::new();
        std::mem::swap(&mut self.inner, &mut inner);
        inner
    }

    /// Puts a journal back.
    pub fn put(&mut self, inner: JournalInner)
        requires
            inner.wf(),
        ensures
            final(self)@ == inner@,
    {
        self.inner = inner;
    }
}

/// What frames of the main network run in: the database, the journal over it, and the block
/// and the transaction.
#[derive(Debug)]
pub struct Context<DB> {
    /// The database.
    pub db: DB,
    /// The journal.
    pub journaled_state: Journal,
    /// The block and the transaction.
    pub env: Env,
}

impl<DB: Database> Context<DB> {
    /// A context over a database, in a fork.
    pub fn new(db: DB, spec: SpecId) -> (r: Context<DB>)
        ensures
            r.db == db,
            r.journaled_state@ == (JournalState { spec, ..JournalState::fresh() }),
            r.env@ == blank_env(),
    {
        let mut inner = JournalInner::new();
        inner.set_spec_id(spec);
        Context { db, journaled_state: Journal::new(inner), env: Env::default() }
    }
}

/// Why a load failed, as instructions see it.
pub open spec fn spec_load_error<E>(e: JournalLoadError<E>) -> LoadError {
    match e {
        JournalLoadError::DBError(_) => LoadError::DBError,
        JournalLoadError::ColdLoadSkipped => LoadError::ColdLoadSkipped,
    }
}

/// Why a load failed, as instructions see it.
fn load_error<E>(e: JournalLoadError<E>) -> (r: LoadError)
    ensures
        r == spec_load_error(e),
{
    match e {
        JournalLoadError::DBError(_) => LoadError::DBError,
        JournalLoadError::ColdLoadSkipped => LoadError::ColdLoadSkipped,
    }
}

/// A load with the error that instructions see.
pub open spec fn seen<T, E>(r: Result<T, JournalLoadError<E>>) -> Result<T, LoadError> {
    match r {
        Ok(t) => Ok(t),
        Err(e) => Err(spec_load_error(e)),
    }
}

/// A load without its error.
pub open spec fn known<T, E>(r: Result<T, E>) -> Option<T> {
    match r {
        Ok(t) => Some(t),
        Err(_) => None,
    }
}

/// An account that was loaded, as instructions see it.
pub open spec fn account_seen(s: JournalState, address: Address, load_code: bool, is_cold: bool) ->
    AccountLoadState {
    let info = s.state[address].info;
    AccountLoadState {
        balance: info.balance,
        nonce: info.nonce,
        code_hash: info.code_hash,
        code: if load_code {
            info.code
        } else {
            None
        },
        is_cold,
    }
}

/// An account is loaded for an instruction.
pub open spec fn account_given<DB: Database>(
    s: JournalState,
    pre: &DB,
    address: Address,
    load_code: bool,
    skip_cold_load: bool,
    reply: Result<AccountLoadState, LoadError>,
    end: JournalState,
    post: &DB,
) -> bool {
    exists|r: Result<bool, JournalLoadError<DB::Error>>| #[trigger]
        model::account_loaded(s, address, load_code, skip_cold_load, pre, r, end, post) && reply
            == (match r {
            Ok(is_cold) => Ok(account_seen(end, address, load_code, is_cold)),
            Err(e) => Err(spec_load_error(e)),
        })
}

/// A slot is read for an instruction. The account has to be there: if it is not, the load
/// fails.
pub open spec fn slot_given<DB: Database>(
    s: JournalState,
    pre: &DB,
    address: Address,
    key: U256,
    skip_cold_load: bool,
    reply: Result<StateLoad<U256>, LoadError>,
    end: JournalState,
    post: &DB,
) -> bool {
    if s.state.contains_key(address) {
        exists|r: Result<StateLoad<U256>, JournalLoadError<DB::Error>>| #[trigger]
            model::slot_read(s, address, key, skip_cold_load, pre, r, end, post) && reply == seen(r)
    } else {
        reply == Err::<StateLoad<U256>, _>(LoadError::DBError) && end == s && *post == *pre
    }
}

/// A slot is written for an instruction. The account has to be there: if it is not, the write
/// fails.
pub open spec fn slot_taken<DB: Database>(
    s: JournalState,
    pre: &DB,
    address: Address,
    key: U256,
    value: U256,
    skip_cold_load: bool,
    reply: Result<StateLoad<SStoreResult>, LoadError>,
    end: JournalState,
    post: &DB,
) -> bool {
    if s.state.contains_key(address) {
        exists|r: Result<StateLoad<SStoreResult>, JournalLoadError<DB::Error>>| #[trigger]
            model::slot_written(s, address, key, value, skip_cold_load, pre, r, end, post) && reply
                == seen(r)
    } else {
        reply == Err::<StateLoad<SStoreResult>, _>(LoadError::DBError) && end == s && *post == *pre
    }
}

/// An account is destroyed for an instruction. It has to be there: if it is not, the
/// destruction fails.
pub open spec fn destruction_given<DB: Database>(
    s: JournalState,
    pre: &DB,
    address: Address,
    target: Address,
    reply: Option<StateLoad<SelfDestructResult>>,
    end: JournalState,
    post: &DB,
) -> bool {
    if s.state.contains_key(address) {
        exists|r: Result<StateLoad<SelfDestructResult>, DB::Error>| #[trigger]
            model::destruction_made(s, address, target, pre, r, end, post) && reply == known(r)
    } else {
        reply is None && end == s && *post == *pre
    }
}

/// A block hash is asked for by an instruction.
pub open spec fn hash_given<DB: Database>(
    pre: &DB,
    number: u64,
    reply: Option<B256>,
    post: &DB,
) -> bool {
    exists|r: Result<B256, DB::Error>| #[trigger]
        DB::replies(pre, DbCall::BlockHash(number), DbReply::BlockHash(r), post) && reply
            == known(r)
}

/// The balance of an account that was loaded.
pub open spec fn balance_seen(r: Result<AccountLoadState, LoadError>) -> Option<StateLoad<U256>> {
    match r {
        Ok(a) => Some(StateLoad { data: a.balance, is_cold: a.is_cold }),
        Err(_) => None,
    }
}

/// The code of an account that was loaded with it.
pub open spec fn code_seen(r: Result<AccountLoadState, LoadError>) -> Option<Seq<u8>> {
    match r {
        Ok(a) => Some(a.code->0.original()),
        Err(_) => None,
    }
}

/// The balance of an account is asked for by an instruction.
pub open spec fn balance_given<DB: Database>(
    s: JournalState,
    pre: &DB,
    address: Address,
    reply: Option<StateLoad<U256>>,
    end: JournalState,
    post: &DB,
) -> bool {
    exists|r: Result<AccountLoadState, LoadError>| #[trigger] 
        account_given(s, pre, address, false, false, r, end, post) && reply == balance_seen(r)
}

/// The code of an account is asked for by an instruction.
pub open spec fn code_given<DB: Database>(
    s: JournalState,
    pre: &DB,
    address: Address,
    reply: Option<Seq<u8>>,
    end: JournalState,
    post: &DB,
) -> bool {
    exists|r: Result<AccountLoadState, LoadError>| #[trigger] 
        account_given(s, pre, address, true, false, r, end, post) && reply == code_seen(r)
}

/// A slot is read for an instruction, whether it is cold or not.
pub open spec fn any_slot_given<DB: Database>(
    s: JournalState,
    pre: &DB,
    address: Address,
    key: U256,
    reply: Option<StateLoad<U256>>,
    end: JournalState,
    post: &DB,
) -> bool {
    exists|r: Result<StateLoad<U256>, LoadError>| #[trigger] 
        slot_given(s, pre, address, key, false, r, end, post) && reply == known(r)
}

/// A slot is written for an instruction, whether it is cold or not.
pub open spec fn any_slot_taken<DB: Database>(
    s: JournalState,
    pre: &DB,
    address: Address,
    key: U256,
    value: U256,
    reply: Option<StateLoad<SStoreResult>>,
    end: JournalState,
    post: &DB,
) -> bool {
    exists|r: Result<StateLoad<SStoreResult>, LoadError>| #[trigger] 
        slot_taken(s, pre, address, key, value, false, r, end, post) && reply == known(r)
}

/// How a journal over a database answers the questions of instructions.
pub open spec fn journal_replies<DB: Database>(
    s: JournalState,
    pre: &DB,
    call: HostCall,
    reply: HostReply,
    end: JournalState,
    post: &DB,
) -> bool {
    match call {
        HostCall::LoadAccount(address, load_code, skip) => reply is Account && account_given(
            s,
            pre,
            address,
            load_code,
            skip,
            reply->Account_0,
            end,
            post,
        ),
        HostCall::Balance(address) => reply is Balance && balance_given(
            s,
            pre,
            address,
            reply->Balance_0,
            end,
            post,
        ),
        HostCall::Code(address) => reply is Code && code_given(
            s,
            pre,
            address,
            reply->Code_0,
            end,
            post,
        ),
        HostCall::BlockHash(number) => reply is Hash && hash_given(pre, number, reply->Hash_0, post)
            && end == s,
        HostCall::SLoadSkipCold(address, key, skip) => reply is Slot && slot_given(
            s,
            pre,
            address,
            key,
            skip,
            reply->Slot_0,
            end,
            post,
        ),
        HostCall::SLoad(address, key) => reply is SlotOr && any_slot_given(
            s,
            pre,
            address,
            key,
            reply->SlotOr_0,
            end,
            post,
        ),
        HostCall::SStoreSkipCold(address, key, value, skip) => reply is Write && slot_taken(
            s,
            pre,
            address,
            key,
            value,
            skip,
            reply->Write_0,
            end,
            post,
        ),
        HostCall::SStore(address, key, value) => reply is WriteOr && any_slot_taken(
            s,
            pre,
            address,
            key,
            value,
            reply->WriteOr_0,
            end,
            post,
        ),
        HostCall::TLoad(address, key) => reply == HostReply::Word(s.transient_value(address, key))
            && end == s && *post == *pre,
        HostCall::TStore(address, key, value) => reply is Done && end == s.tstored(
            address,
            key,
            value,
        ) && *post == *pre,
        HostCall::Log(log) => reply is Done && end == (JournalState {
            logs: s.logs.push(log),
            ..s
        }) && *post == *pre,
        HostCall::SelfDestruct(address, target) => reply is SelfDestruct && destruction_given(
            s,
            pre,
            address,
            target,
            reply->SelfDestruct_0,
            end,
            post,
        ),
    }
}

impl<DB: Database> Host for Context<DB> {
    open spec fn env(&self) -> EnvState {
        self.env@
    }

    open spec fn replies(
        pre: &Context<DB>,
        call: HostCall,
        reply: HostReply,
        post: &Context<DB>,
    ) -> bool {
        post.env == pre.env && journal_replies(
            pre.journaled_state@,
            &pre.db,
            call,
            reply,
            post.journaled_state@,
            &post.db,
        )
    }

    fn basefee(&self) -> (r: U256) {
        self.env.basefee
    }

    fn blob_gasprice(&self) -> (r: U256) {
        self.env.blob_gasprice
    }

    fn gas_limit(&self) -> (r: U256) {
        self.env.gas_limit
    }

    fn difficulty(&self) -> (r: U256) {
        self.env.difficulty
    }

    fn prevrandao(&self) -> (r: Option<U256>) {
        self.env.prevrandao
    }

    fn block_number(&self) -> (r: U256) {
        self.env.block_number
    }

    fn timestamp(&self) -> (r: U256) {
        self.env.timestamp
    }

    fn beneficiary(&self) -> (r: Address) {
        self.env.beneficiary
    }

    fn chain_id(&self) -> (r: U256) {
        self.env.chain_id
    }

    fn effective_gas_price(&self) -> (r: U256) {
        self.env.effective_gas_price
    }

    fn caller(&self) -> (r: Address) {
        self.env.caller
    }

    fn blob_hash(&self, number: usize) -> (r: Option<U256>) {
        if number < self.env.blob_hashes.len() {
            Some(self.env.blob_hashes[number])
        } else {
            None
        }
    }

    fn load_account_info_skip_cold_load(
        &mut self,
        address: Address,
        load_code: bool,
        skip_cold_load: bool,
    ) -> (r: Result<AccountInfoLoad, LoadError>) {
        let mut journal = self.journaled_state.take();
        let load = journal.load_account_optional(&mut self.db, address, load_code, skip_cold_load);
        let ghost cold = model::coldness(load);
        let r = match load {
            Ok(load) => {
                let info = &load.data.info;
                let code: Option<Bytecode> = match &info.code {
                    Some(code) if load_code => Some(code.clone()),
                    _ => None,
                };
                Ok(
                    AccountInfoLoad {
                        balance: info.balance,
                        nonce: info.nonce,
                        code_hash: info.code_hash,
                        code,
                        is_cold: load.is_cold,
                    },
                )
            },
            Err(e) => Err(load_error(e)),
        };
        assert(model::account_loaded(
            old(self).journaled_state@,
            address,
            load_code,
            skip_cold_load,
            &old(self).db,
            cold,
            journal@,
            &self.db,
        ));
        self.journaled_state.put(journal);
        r
    }

    fn balance(&mut self, address: Address) -> (r: Option<StateLoad<U256>>) {
        let load = self.load_account_info_skip_cold_load(address, false, false);
        assert(account_given(
            old(self).journaled_state@,
            &old(self).db,
            address,
            false,
            false,
            match load {
                Ok(a) => Ok(a@),
                Err(e) => Err(e),
            },
            self.journaled_state@,
            &self.db,
        ));
        match load {
            Ok(load) => Some(StateLoad { data: load.balance, is_cold: load.is_cold }),
            Err(_) => None,
        }
    }

    fn load_account_code(&mut self, address: Address) -> (r: Option<Vec<u8>>) {
        let load = self.load_account_info_skip_cold_load(address, true, false);
        assert(account_given(
            old(self).journaled_state@,
            &old(self).db,
            address,
            true,
            false,
            match load {
                Ok(a) => Ok(a@),
                Err(e) => Err(e),
            },
            self.journaled_state@,
            &self.db,
        ));
        match load {
            Ok(load) => {
                let code = load.code.unwrap();
                Some(slice_to_vec(code.original_byte_slice()))
            },
            Err(_) => None,
        }
    }

    fn block_hash(&mut self, number: u64) -> (r: Option<B256>) {
        let hash = self.db.block_hash(number);
        assert(DB::replies(
            &old(self).db,
            DbCall::BlockHash(number),
            DbReply::BlockHash(hash),
            &self.db,
        ));
        match hash {
            Ok(hash) => Some(hash),
            Err(_) => None,
        }
    }

    fn sload_skip_cold_load(&mut self, address: Address, key: U256, skip_cold_load: bool) -> (r:
        Result<StateLoad<U256>, LoadError>) {
        if self.journaled_state.inner().state_ref().get(&address).is_none() {
            return Err(LoadError::DBError);
        }
        let mut journal = self.journaled_state.take();
        let r = match journal.sload(&mut self.db, address, key, skip_cold_load) {
            Ok(load) => Ok(load),
            Err(e) => Err(load_error(e)),
        };
        self.journaled_state.put(journal);
        r
    }

    fn sload(&mut self, address: Address, key: U256) -> (r: Option<StateLoad<U256>>) {
        let load = self.sload_skip_cold_load(address, key, false);
        assert(slot_given(
            old(self).journaled_state@,
            &old(self).db,
            address,
            key,
            false,
            load,
            self.journaled_state@,
            &self.db,
        ));
        match load {
            Ok(load) => Some(load),
            Err(_) => None,
        }
    }

    fn sstore_skip_cold_load(
        &mut self,
        address: Address,
        key: U256,
        value: U256,
        skip_cold_load: bool,
    ) -> (r: Result<StateLoad<SStoreResult>, LoadError>) {
        if self.journaled_state.inner().state_ref().get(&address).is_none() {
            return Err(LoadError::DBError);
        }
        let mut journal = self.journaled_state.take();
        let r = match journal.sstore(&mut self.db, address, key, value, skip_cold_load) {
            Ok(load) => Ok(load),
            Err(e) => Err(load_error(e)),
        };
        self.journaled_state.put(journal);
        r
    }

    fn sstore(&mut self, address: Address, key: U256, value: U256) -> (r: Option<
        StateLoad<SStoreResult>,
    >) {
        let load = self.sstore_skip_cold_load(address, key, value, false);
        assert(slot_taken(
            old(self).journaled_state@,
            &old(self).db,
            address,
            key,
            value,
            false,
            load,
            self.journaled_state@,
            &self.db,
        ));
        match load {
            Ok(load) => Some(load),
            Err(_) => None,
        }
    }

    fn tload(&mut self, address: Address, key: U256) -> (r: U256) {
        let mut journal = self.journaled_state.take();
        let r: U256 = journal.tload(address, key);
        self.journaled_state.put(journal);
        r
    }

    fn tstore(&mut self, address: Address, key: U256, value: U256) {
        let mut journal = self.journaled_state.take();
        journal.tstore(address, key, value);
        self.journaled_state.put(journal);
    }

    fn log(&mut self, log: Log) {
        let mut journal = self.journaled_state.take();
        journal.log(log);
        self.journaled_state.put(journal);
    }

    fn selfdestruct(&mut self, address: Address, target: Address) -> (r: Option<
        StateLoad<SelfDestructResult>,
    >) {
        if self.journaled_state.inner().state_ref().get(&address).is_none() {
            return None;
        }
        let mut journal = self.journaled_state.take();
        let r = match journal.selfdestruct(&mut self.db, address, target) {
            Ok(load) => Some(load),
            Err(_) => None,
        };
        self.journaled_state.put(journal);
        r
    }
}

} // verus!
