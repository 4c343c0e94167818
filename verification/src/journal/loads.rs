//! What a load of an account or of a slot asks of the database, when it is a cold one, and what
//! it leaves behind.

use crate::bytecode::code::CodeState;
use crate::host::{SStoreResult, SelfDestructResult, StateLoad};
use crate::journal::account::{AccountState, AccountStatus, EvmStorageSlot, InfoState};
use crate::journal::database::{Database, DbCall, DbReply, EmptyDB};
use crate::journal::effects;
use crate::journal::entry::JournalEntry;
use crate::journal::model;
use crate::journal::model::{AccountLoad, JournalLoadError, JournalState, TransferError};
use crate::primitives::keccak;
use crate::primitives::u256;
use crate::primitives::{Address, SpecId, U256};
use vstd::prelude::*;

verus! {

/// A load of an account is cold if the account is neither that of the block's beneficiary nor a
/// precompile nor in the access list, and was not loaded in this transaction.
pub open spec fn account_is_cold(s: JournalState, address: Address) -> bool {
    &&& s.warm.coinbase != Some(address)
    &&& !s.warm.precompiles.contains(address)
    &&& !s.warm.access_list.contains_key(address)
    &&& s.state.contains_key(address) ==> s.state[address].transaction_id != s.transaction_id
        || s.state[address].status.cold
}

/// An account that an earlier transaction used, or whose load was taken back, is opened for this
/// one: what it did before is past, and if it was destroyed then, there is nothing left of it.
pub open spec fn reopened(account: AccountState, transaction_id: usize) -> AccountState {
    if account.transaction_id == transaction_id && !account.status.cold {
        account
    } else {
        let gone = account.status.selfdestructed_local;
        AccountState {
            info: if gone {
                blank_info()
            } else {
                account.info
            },
            transaction_id,
            storage: if gone {
                Map::empty()
            } else {
                account.storage
            },
            status: AccountStatus {
                created_local: false,
                selfdestructed_local: false,
                cold: false,
                ..account.status
            },
        }
    }
}

/// An account without balance, transactions and code.
pub open spec fn blank_info() -> InfoState {
    InfoState {
        balance: U256 { l0: 0, l1: 0, l2: 0, l3: 0 },
        nonce: 0,
        code_hash: keccak::spec_keccak_empty(),
        code: Some(CodeState::from_raw(Seq::empty())),
    }
}

/// The account as it is found: the one that is there, or what the database says of it, which is
/// asked for the address.
pub open spec fn found<DB: Database>(
    s: JournalState,
    address: Address,
    pre: &DB,
    mid: &DB,
    account: AccountState,
) -> bool {
    if s.state.contains_key(address) {
        *mid == *pre && account == reopened(s.state[address], s.transaction_id)
    } else {
        exists|info: Option<InfoState>| #[trigger]
            DB::replies(pre, DbCall::Basic(address), DbReply::Basic(Ok(info)), mid) && account == (
            AccountState {
                info: match info {
                    Some(known) => known,
                    None => blank_info(),
                },
                transaction_id: if info is Some {
                    0
                } else {
                    s.transaction_id
                },
                storage: Map::empty(),
                status: AccountStatus {
                    created: false,
                    created_local: false,
                    selfdestructed: false,
                    selfdestructed_local: false,
                    touched: false,
                    loaded_as_not_existing: info is None,
                    cold: false,
                },
            })
    }
}

/// The account with its code, if that is asked for: the code that is there, no code for the hash
/// of nothing, or what the database has for the hash.
pub open spec fn with_its_code<DB: Database>(
    account: AccountState,
    load_code: bool,
    after: AccountState,
    mid: &DB,
    post: &DB,
) -> bool {
    let info = account.info;
    if !load_code || info.code is Some {
        after == account && *post == *mid
    } else if info.code_hash.word.val()
        == 0xc5d2_4601_86f7_233c_927e_7db2_dcc7_03c0_e500_b653_ca82_273b_7bfa_d804_5d85_a470int {
        after == (AccountState {
            info: InfoState { code: Some(CodeState::from_raw(Seq::empty())), ..info },
            ..account
        }) && *post == *mid
    } else {
        exists|code: CodeState| #[trigger]
            DB::replies(
                mid,
                DbCall::CodeByHash(info.code_hash),
                DbReply::CodeByHash(Ok(code)),
                post,
            ) && after == (AccountState {
                info: InfoState { code: Some(code), ..info },
                ..account
            })
    }
}

/// A load of an account: a cold one is left out if that is wanted, and written down otherwise.
/// Nothing but this account changes.
pub proof fn a_load_finds_the_account<DB: Database>(
    s: JournalState,
    address: Address,
    load_code: bool,
    skip_cold_load: bool,
    pre: &DB,
    r: Result<bool, JournalLoadError<DB::Error>>,
    end: JournalState,
    post: &DB,
)
    requires
        model::account_loaded(s, address, load_code, skip_cold_load, pre, r, end, post),
    ensures
        effects::same_but(s, end, address, address),
        effects::same_apart(s, end),
        (r == Err::<bool, _>(JournalLoadError::<DB::Error>::ColdLoadSkipped)) == (account_is_cold(
            s,
            address,
        ) && skip_cold_load),
        match r {
            Ok(cold) => {
                &&& cold == account_is_cold(s, address)
                &&& end.state.contains_key(address)
                &&& end.journal == (if cold {
                    s.journal.push(JournalEntry::AccountWarmed { address })
                } else {
                    s.journal
                })
                &&& exists|account: AccountState, mid: DB| #[trigger]
                    found(s, address, pre, &mid, account) && with_its_code(
                        account,
                        load_code,
                        end.state[address],
                        &mid,
                        post,
                    )
            },
            Err(JournalLoadError::ColdLoadSkipped) => end == s && *post == *pre,
            Err(JournalLoadError::DBError(e)) => {
                ||| !s.state.contains_key(address) && DB::replies(
                    pre,
                    DbCall::Basic(address),
                    DbReply::Basic(Err(e)),
                    post,
                ) && end == s
                ||| load_code && exists|mid: DB, account: AccountState| #[trigger]
                    found(s, address, pre, &mid, account) && DB::replies(
                        &mid,
                        DbCall::CodeByHash(account.info.code_hash),
                        DbReply::CodeByHash(Err(e)),
                        post,
                    )
            },
        },
{
    let cold = s.cold_load(address);
    assert(cold == account_is_cold(s, address));
    if cold && skip_cold_load {
    } else if s.state.contains_key(address) {
        let t = s.opened(address).noted(address, cold);
        let account = reopened(s.state[address], s.transaction_id);
        lemma_blank();
        assert(t.state[address] == account);
        assert(found(s, address, pre, pre, account));
        lemma_with_code(t, address, load_code, cold, pre, r, end, post);
    } else {
        let (reply, mid) = choose|reply: Result<Option<InfoState>, DB::Error>, mid: DB| #[trigger]
            DB::replies(pre, DbCall::Basic(address), DbReply::Basic(reply), &mid) && match reply {
                Ok(info) => model::code_loaded(
                    s.arrived(address, info).noted(address, cold),
                    address,
                    load_code,
                    cold,
                    &mid,
                    r,
                    end,
                    post,
                ),
                Err(e) => r == Err::<bool, _>(JournalLoadError::DBError(e)) && end == s && *post
                    == mid,
            };
        if reply is Ok {
            let t = s.arrived(address, reply->Ok_0).noted(address, cold);
            lemma_blank();
            assert(found(s, address, pre, &mid, t.state[address]));
            lemma_with_code(t, address, load_code, cold, &mid, r, end, post);
        }
    }
}

/// An account without anything is the one that a database does not know.
proof fn lemma_blank()
    ensures
        InfoState::fresh() == blank_info(),
{
    let zero = U256 { l0: 0, l1: 0, l2: 0, l3: 0 };
    u256::lemma_word_of_val(zero);
}

/// The code is found as it should be.
proof fn lemma_with_code<DB: Database>(
    t: JournalState,
    address: Address,
    load_code: bool,
    cold: bool,
    mid: &DB,
    r: Result<bool, JournalLoadError<DB::Error>>,
    end: JournalState,
    post: &DB,
)
    requires
        model::code_loaded(t, address, load_code, cold, mid, r, end, post),
        t.state.contains_key(address),
    ensures
        effects::same_but(t, end, address, address),
        effects::same_apart(t, end),
        end.journal == t.journal,
        end.state.contains_key(address),
        match r {
            Ok(b) => b == cold && with_its_code(
                t.state[address],
                load_code,
                end.state[address],
                mid,
                post,
            ),
            Err(JournalLoadError::ColdLoadSkipped) => false,
            Err(JournalLoadError::DBError(e)) => load_code && DB::replies(
                mid,
                DbCall::CodeByHash(t.state[address].info.code_hash),
                DbReply::CodeByHash(Err(e)),
                post,
            ),
        },
{
    let empty = keccak::spec_keccak_empty();
    let hash = t.state[address].info.code_hash;
    if hash.word.val() == empty.word.val() {
        u256::lemma_val_injective(hash.word, empty.word);
    }
}

/// A database of nothing knows no account, has no code, and its slots are zero.
pub proof fn an_empty_database_knows_nothing(
    pre: &EmptyDB,
    call: DbCall,
    reply: DbReply<()>,
    post: &EmptyDB,
)
    requires
        EmptyDB::replies(pre, call, reply, post),
    ensures
        match call {
            DbCall::Basic(_) => reply is Basic && reply->Basic_0 == Ok::<Option<InfoState>, ()>(
                None,
            ),
            DbCall::CodeByHash(_) => reply is CodeByHash && reply->CodeByHash_0 is Ok
                && reply->CodeByHash_0->Ok_0.original().len() == 0,
            DbCall::Storage(_, _) => reply is Storage && reply->Storage_0 is Ok
                && reply->Storage_0->Ok_0.val() == 0,
            DbCall::BlockHash(_) => reply is BlockHash && reply->BlockHash_0 is Ok,
        },
{
    u256::lemma_val_of_word(0);
    crate::bytecode::laws::raw_bytes_are_told_apart_by_their_start(Seq::empty());
}

/// A load of a slot is cold if it was not loaded in this transaction, or its load was taken back,
/// and, for one that is not there at all, if the access list does not have it.
pub open spec fn slot_is_cold(s: JournalState, address: Address, key: U256) -> bool {
    let storage = s.state[address].storage;
    if storage.contains_key(key) {
        storage[key].transaction_id != s.transaction_id || storage[key].is_cold
    } else {
        !(s.warm.access_list.contains_key(address) && s.warm.access_list[address].contains(key))
    }
}

/// The slot as it is found: the one that is there, zero for an account that was created, or what
/// the database has.
pub open spec fn slot_found<DB: Database>(
    s: JournalState,
    address: Address,
    key: U256,
    pre: &DB,
    slot: EvmStorageSlot,
    post: &DB,
) -> bool {
    let account = s.state[address];
    &&& slot.transaction_id == s.transaction_id
    &&& !slot.is_cold
    &&& if account.storage.contains_key(key) {
        &&& *post == *pre
        &&& slot.original_value == account.storage[key].original_value
        &&& slot.present_value == account.storage[key].present_value
    } else if account.status.created {
        &&& *post == *pre
        &&& slot.original_value.val() == 0
        &&& slot.present_value.val() == 0
    } else {
        &&& DB::replies(
            pre,
            DbCall::Storage(address, key),
            DbReply::Storage(Ok(slot.present_value)),
            post,
        )
        &&& slot.original_value == slot.present_value
    }
}

/// A load of a slot: a cold one is left out if that is wanted, and written down otherwise.
/// Nothing but this slot changes, and it is warm afterwards.
pub proof fn a_load_finds_the_slot<DB: Database>(
    s: JournalState,
    address: Address,
    key: U256,
    skip_cold_load: bool,
    pre: &DB,
    r: Result<bool, JournalLoadError<DB::Error>>,
    end: JournalState,
    post: &DB,
)
    requires
        s.state.contains_key(address),
        model::slot_loaded(s, address, key, skip_cold_load, pre, r, end, post),
    ensures
        (r == Err::<bool, _>(JournalLoadError::<DB::Error>::ColdLoadSkipped)) == (slot_is_cold(
            s,
            address,
            key,
        ) && skip_cold_load),
        match r {
            Ok(cold) => {
                &&& cold == slot_is_cold(s, address, key)
                &&& effects::same_but(s, end, address, address)
                &&& effects::same_apart(s, end)
                &&& end.state.contains_key(address)
                &&& effects::same_slots_but(s.state[address], end.state[address], key)
                &&& end.state[address].storage.contains_key(key)
                &&& slot_found(s, address, key, pre, end.state[address].storage[key], post)
                &&& end.journal == (if cold {
                    s.journal.push(JournalEntry::StorageWarmed { address, key })
                } else {
                    s.journal
                })
            },
            Err(JournalLoadError::ColdLoadSkipped) => end == s && *post == *pre,
            Err(JournalLoadError::DBError(e)) => end == s && DB::replies(
                pre,
                DbCall::Storage(address, key),
                DbReply::Storage(Err(e)),
                post,
            ),
        },
{
    u256::lemma_val_of_word(0);
}

/// A read gives the value of the slot, and tells whether it was cold.
pub proof fn a_read_gives_the_slot<DB: Database>(
    s: JournalState,
    address: Address,
    key: U256,
    skip_cold_load: bool,
    pre: &DB,
    r: Result<StateLoad<U256>, JournalLoadError<DB::Error>>,
    end: JournalState,
    post: &DB,
)
    requires
        s.state.contains_key(address),
        model::slot_read(s, address, key, skip_cold_load, pre, r, end, post),
    ensures
        (r == Err::<StateLoad<U256>, _>(JournalLoadError::<DB::Error>::ColdLoadSkipped)) == (
        slot_is_cold(s, address, key) && skip_cold_load),
        match r {
            Ok(load) => {
                &&& load.is_cold == slot_is_cold(s, address, key)
                &&& end.state.contains_key(address)
                &&& end.state[address].storage.contains_key(key)
                &&& load.data == end.state[address].storage[key].present_value
                &&& slot_found(s, address, key, pre, end.state[address].storage[key], post)
                &&& effects::same_but(s, end, address, address)
                &&& effects::same_slots_but(s.state[address], end.state[address], key)
            },
            Err(JournalLoadError::ColdLoadSkipped) => end == s && *post == *pre,
            Err(JournalLoadError::DBError(e)) => end == s && DB::replies(
                pre,
                DbCall::Storage(address, key),
                DbReply::Storage(Err(e)),
                post,
            ),
        },
{
    a_load_finds_the_slot(
        s,
        address,
        key,
        skip_cold_load,
        pre,
        model::coldness(r),
        end,
        post,
    );
}

/// A write finds the slot as a read does, and leaves the new value there. Its answer tells the
/// value that the transaction began with, the value before and the new one.
pub proof fn a_write_finds_the_slot<DB: Database>(
    s: JournalState,
    address: Address,
    key: U256,
    new: U256,
    skip_cold_load: bool,
    pre: &DB,
    r: Result<StateLoad<SStoreResult>, JournalLoadError<DB::Error>>,
    end: JournalState,
    post: &DB,
)
    requires
        s.state.contains_key(address),
        model::slot_written(s, address, key, new, skip_cold_load, pre, r, end, post),
    ensures
        (r == Err::<StateLoad<SStoreResult>, _>(JournalLoadError::<DB::Error>::ColdLoadSkipped))
            == (slot_is_cold(s, address, key) && skip_cold_load),
        match r {
            Ok(load) => {
                &&& load.is_cold == slot_is_cold(s, address, key)
                &&& load.data.new_value == new
                &&& slot_found(
                    s,
                    address,
                    key,
                    pre,
                    EvmStorageSlot {
                        original_value: load.data.original_value,
                        present_value: load.data.present_value,
                        transaction_id: s.transaction_id,
                        is_cold: false,
                    },
                    post,
                )
                &&& effects::slot_is(
                    end,
                    address,
                    key,
                    EvmStorageSlot {
                        original_value: load.data.original_value,
                        present_value: new,
                        transaction_id: s.transaction_id,
                        is_cold: false,
                    },
                )
                &&& effects::same_but(s, end, address, address)
                &&& effects::same_apart(s, end)
                &&& effects::same_slots_but(s.state[address], end.state[address], key)
            },
            Err(JournalLoadError::ColdLoadSkipped) => end == s && *post == *pre,
            Err(JournalLoadError::DBError(e)) => end == s && DB::replies(
                pre,
                DbCall::Storage(address, key),
                DbReply::Storage(Err(e)),
                post,
            ),
        },
{
    let mid = choose|mid: JournalState| #[trigger]
        model::slot_loaded(s, address, key, skip_cold_load, pre, model::coldness(r), mid, post)
            && match r {
            Ok(load) => end == mid.stored(address, key, new) && load.data == mid.store_result(
                address,
                key,
                new,
            ),
            Err(_) => end == mid,
        };
    a_load_finds_the_slot(
        s,
        address,
        key,
        skip_cold_load,
        pre,
        model::coldness(r),
        mid,
        post,
    );
    if r is Ok {
        effects::a_write_changes_one_slot(mid, address, key, new);
    }
}

/// A destruction loads the target first, and tells of it whether it was cold.
pub proof fn a_destruction_loads_the_target<DB: Database>(
    s: JournalState,
    address: Address,
    target: Address,
    pre: &DB,
    r: Result<StateLoad<SelfDestructResult>, DB::Error>,
    end: JournalState,
    post: &DB,
)
    requires
        s.state.contains_key(address),
        model::destruction_made(s, address, target, pre, r, end, post),
    ensures
        match r {
            Ok(load) => {
                &&& load.is_cold == account_is_cold(s, target)
                &&& exists|mid: JournalState| #[trigger]
                    model::account_loaded(s, target, false, false, pre, Ok(load.is_cold), mid, post)
                        && end == mid.destroyed(address, target) && load.data.had_value == (
                    mid.state[address].info.balance.val() != 0) && load.data.target_exists
                        == !effects::counts_as_empty(mid.state[target], mid.spec)
                        && load.data.previously_destroyed == (
                    mid.state[address].status.selfdestructed
                        && mid.state[address].status.selfdestructed_local)
            },
            Err(e) => model::account_loaded(
                s,
                target,
                false,
                false,
                pre,
                Err(JournalLoadError::DBError(e)),
                end,
                post,
            ),
        },
{
    let mid = choose|mid: JournalState| #[trigger]
        model::account_loaded(
            s,
            target,
            false,
            false,
            pre,
            model::coldness(model::as_load(r)),
            mid,
            post,
        ) && match r {
            Ok(load) => end == mid.destroyed(address, target) && load == mid.destruction(
                address,
                target,
                load.is_cold,
            ),
            Err(_) => end == mid,
        };
    a_load_finds_the_account(
        s,
        target,
        false,
        false,
        pre,
        model::coldness(model::as_load(r)),
        mid,
        post,
    );
    if r is Ok {
        effects::a_destruction_tells_what_was_there(mid, address, target, r->Ok_0.is_cold);
    }
}

/// What a call learns of an account: whether it was cold, whether it is empty, and, from Prague
/// on, of an account that delegates, whether the other account was cold, which is loaded with its
/// code.
pub proof fn a_call_learns_of_the_delegate<DB: Database>(
    s: JournalState,
    address: Address,
    pre: &DB,
    r: Result<StateLoad<AccountLoad>, DB::Error>,
    end: JournalState,
    post: &DB,
)
    requires
        model::delegated_loaded(s, address, pre, r, end, post),
        r is Ok,
    ensures
        ({
            let load = r->Ok_0;
            &&& load.is_cold == account_is_cold(s, address)
            &&& exists|mid: JournalState, between: DB|
                {
                    &&& #[trigger] model::account_loaded(
                        s,
                        address,
                        s.spec.enabled(SpecId::PRAGUE),
                        false,
                        pre,
                        Ok(load.is_cold),
                        mid,
                        &between,
                    )
                    &&& load.data.is_empty == effects::counts_as_empty(mid.state[address], s.spec)
                    &&& match mid.state[address].info.code {
                        Some(CodeState::Eip7702(raw)) => {
                            let other = crate::bytecode::code::delegate_of(raw);
                            &&& load.data.is_delegate_account_cold == Some(
                                account_is_cold(mid, other),
                            )
                            &&& model::account_loaded(
                                mid,
                                other,
                                true,
                                false,
                                &between,
                                Ok(account_is_cold(mid, other)),
                                end,
                                post,
                            )
                        },
                        _ => load.data.is_delegate_account_cold is None && end == mid && *post
                            == between,
                    }
                }
        }),
{
    let load_code = s.spec.enabled(SpecId::PRAGUE);
    let (first, mid, between) = choose|
        first: Result<bool, JournalLoadError<DB::Error>>,
        mid: JournalState,
        between: DB,
    | #[trigger]
        model::account_loaded(s, address, load_code, false, pre, first, mid, &between)
            && match first {
            Err(e) => r is Err && e == JournalLoadError::DBError(r->Err_0) && end == mid && *post
                == between,
            Ok(cold) => {
                let is_empty = mid.state[address].clear_aware_empty(s.spec);
                match model::delegate(mid.state[address]) {
                    None => r == Ok::<_, DB::Error>(
                        StateLoad {
                            data: AccountLoad { is_delegate_account_cold: None, is_empty },
                            is_cold: cold,
                        },
                    ) && end == mid && *post == between,
                    Some(other) => exists|second: Result<bool, JournalLoadError<DB::Error>>|
                        #[trigger]
                        model::account_loaded(mid, other, true, false, &between, second, end, post)
                            && match second {
                            Err(e) => r is Err && e == JournalLoadError::DBError(r->Err_0),
                            Ok(other_cold) => r == Ok::<_, DB::Error>(
                                StateLoad {
                                    data: AccountLoad {
                                        is_delegate_account_cold: Some(other_cold),
                                        is_empty,
                                    },
                                    is_cold: cold,
                                },
                            ),
                        },
                }
            },
        };
    a_load_finds_the_account(s, address, load_code, false, pre, first, mid, &between);
    crate::journal::effects::an_account_is_empty_by_the_fork(mid.state[address], s.spec);
    if let Some(other) = model::delegate(mid.state[address]) {
        let second = choose|second: Result<bool, JournalLoadError<DB::Error>>| #[trigger]
            model::account_loaded(mid, other, true, false, &between, second, end, post)
                && match second {
                Err(e) => r is Err && e == JournalLoadError::DBError(r->Err_0),
                Ok(other_cold) => r->Ok_0.data.is_delegate_account_cold == Some(other_cold),
            };
        a_load_finds_the_account(mid, other, true, false, &between, second, end, post);
    }
}

/// A transfer loads the sender first and the receiver then.
pub proof fn a_transfer_loads_both_accounts<DB: Database>(
    s: JournalState,
    from: Address,
    to: Address,
    balance: U256,
    pre: &DB,
    error: Option<TransferError>,
    end: JournalState,
    post: &DB,
)
    requires
        model::transfer_made(
            s,
            from,
            to,
            balance,
            pre,
            Ok::<Option<TransferError>, DB::Error>(error),
            end,
            post,
        ),
    ensures
        exists|sent: JournalState, between: DB, mid: JournalState|
            {
                &&& #[trigger] model::account_loaded(
                    s,
                    from,
                    false,
                    false,
                    pre,
                    Ok(account_is_cold(s, from)),
                    sent,
                    &between,
                )
                &&& #[trigger] model::account_loaded(
                    sent,
                    to,
                    false,
                    false,
                    &between,
                    Ok(account_is_cold(sent, to)),
                    mid,
                    post,
                )
                &&& (end, error) == mid.transferred(from, to, balance)
            },
{
    let mid = choose|mid: JournalState| #[trigger]
        model::both_loaded(s, from, to, pre, None::<DB::Error>, mid, post) && (end, error)
            == mid.transferred(from, to, balance);
    let (first, sent, between) = choose|
        first: Result<bool, JournalLoadError<DB::Error>>,
        sent: JournalState,
        between: DB,
    | #[trigger]
        model::account_loaded(s, from, false, false, pre, first, sent, &between) && first is Ok
            && exists|second: Result<bool, JournalLoadError<DB::Error>>| #[trigger]
            model::account_loaded(sent, to, false, false, &between, second, mid, post)
                && second is Ok;
    let second = choose|second: Result<bool, JournalLoadError<DB::Error>>| #[trigger]
        model::account_loaded(sent, to, false, false, &between, second, mid, post) && second is Ok;
    a_load_finds_the_account(s, from, false, false, pre, first, sent, &between);
    a_load_finds_the_account(sent, to, false, false, &between, second, mid, post);
    assert(first == Ok::<bool, JournalLoadError<DB::Error>>(account_is_cold(s, from)));
    assert(second == Ok::<bool, JournalLoadError<DB::Error>>(account_is_cold(sent, to)));
    assert(model::account_loaded(
        s,
        from,
        false,
        false,
        pre,
        Ok(account_is_cold(s, from)),
        sent,
        &between,
    ));
    assert(model::account_loaded(
        sent,
        to,
        false,
        false,
        &between,
        Ok(account_is_cold(sent, to)),
        mid,
        post,
    ));
}

/// A transfer that the database fails loads the sender, or the sender and then the receiver, as
/// far as it comes, and moves nothing.
pub proof fn a_transfer_fails_as_a_load_does<DB: Database>(
    s: JournalState,
    from: Address,
    to: Address,
    balance: U256,
    pre: &DB,
    error: DB::Error,
    end: JournalState,
    post: &DB,
)
    requires
        model::transfer_made(
            s,
            from,
            to,
            balance,
            pre,
            Err::<Option<TransferError>, DB::Error>(error),
            end,
            post,
        ),
    ensures
        model::account_loaded(
            s,
            from,
            false,
            false,
            pre,
            Err(JournalLoadError::DBError(error)),
            end,
            post,
        ) || exists|first: Result<bool, JournalLoadError<DB::Error>>, sent: JournalState, between: DB|
            #[trigger]
            model::account_loaded(s, from, false, false, pre, first, sent, &between) && first is Ok
                && model::account_loaded(
                sent,
                to,
                false,
                false,
                &between,
                Err(JournalLoadError::DBError(error)),
                end,
                post,
            ),
{
    assert(model::both_loaded(s, from, to, pre, Some(error), end, post));
}

/// A rise of a balance that the database fails is a load that failed.
pub proof fn a_rise_fails_as_a_load_does<DB: Database>(
    s: JournalState,
    address: Address,
    balance: U256,
    pre: &DB,
    error: DB::Error,
    end: JournalState,
    post: &DB,
)
    requires
        model::balance_incremented(s, address, balance, pre, Err::<(), DB::Error>(error), end, post),
    ensures
        model::account_loaded(
            s,
            address,
            false,
            false,
            pre,
            Err(JournalLoadError::DBError(error)),
            end,
            post,
        ),
{
}

/// An account is lent as it was loaded; what comes back takes its place, and the entries that
/// come back are the journal.
pub proof fn an_account_is_lent_as_it_was_loaded<DB: Database>(
    s: JournalState,
    address: Address,
    load_code: bool,
    skip_cold_load: bool,
    pre: &DB,
    cold: bool,
    account: AccountState,
    journal: Seq<JournalEntry>,
    account_back: AccountState,
    journal_back: Seq<JournalEntry>,
    end: JournalState,
    post: &DB,
)
    requires
        model::account_lent(
            s,
            address,
            load_code,
            skip_cold_load,
            pre,
            cold,
            account,
            journal,
            account_back,
            journal_back,
            end,
            post,
        ),
    ensures
        cold == account_is_cold(s, address),
        journal == (if cold {
            s.journal.push(JournalEntry::AccountWarmed { address })
        } else {
            s.journal
        }),
        exists|found_account: AccountState, mid: DB| #[trigger]
            found(s, address, pre, &mid, found_account) && with_its_code(
                found_account,
                load_code,
                account,
                &mid,
                post,
            ),
        end.state.contains_key(address),
        end.state[address] == account_back,
        end.journal == journal_back,
        effects::same_but(s, end, address, address),
        effects::same_apart(s, end),
{
    let mid = choose|mid: JournalState| #[trigger]
        model::account_loaded(s, address, load_code, skip_cold_load, pre, Ok(cold), mid, post)
            && mid.state.contains_key(address) && account == mid.state[address] && journal
            == mid.journal && end == mid.holding(address, account_back, journal_back);
    a_load_finds_the_account(
        s,
        address,
        load_code,
        skip_cold_load,
        pre,
        Ok(cold),
        mid,
        post,
    );
}

/// A rise of a balance loads the account first.
pub proof fn a_rise_loads_the_account<DB: Database>(
    s: JournalState,
    address: Address,
    balance: U256,
    pre: &DB,
    end: JournalState,
    post: &DB,
)
    requires
        model::balance_incremented(s, address, balance, pre, Ok::<(), DB::Error>(()), end, post),
    ensures
        exists|mid: JournalState| #[trigger]
            model::account_loaded(
                s,
                address,
                false,
                false,
                pre,
                Ok(account_is_cold(s, address)),
                mid,
                post,
            ) && end == mid.balance_raised(address, balance),
{
    let (cold, mid) = choose|cold: bool, mid: JournalState| #[trigger]
        model::account_loaded(s, address, false, false, pre, Ok(cold), mid, post) && end
            == mid.balance_raised(address, balance);
    a_load_finds_the_account(s, address, false, false, pre, Ok(cold), mid, post);
}

} // verus!
