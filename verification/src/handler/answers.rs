//! What a context answers to the instructions that ask about the world, and what that changes.

use crate::handler::context;
use crate::handler::context::{Context, Env};
use crate::handler::evm::ItemOrResult;
use crate::handler::mainnet_builder;
use crate::handler::mainnet_builder::{EthFrame, EthInstructions, MainContext};
use crate::host::{
    AccountLoadState, Host, HostCall, HostReply, LoadError, SStoreResult, SelfDestructResult,
    StateLoad,
};
use crate::instructions::laws;
use crate::interpreter::action::{ActionState, FrameRequest, InterpreterResult};
use crate::interpreter::run;
use crate::interpreter::state::InterpreterState;
use crate::journal::account::EvmStorageSlot;
use crate::journal::database::{Database, DbCall, DbReply, EmptyDB};
use crate::journal::effects;
use crate::journal::loads;
use crate::journal::model;
use crate::journal::model::{JournalLoadError, JournalState};
use crate::primitives::{Address, SpecId, B256, U256};
use vstd::prelude::*;

verus! {

/// An account is told as it is after it was loaded; its code only if that was asked for. A cold
/// one is left out if that is wanted.
pub open spec fn account_told(
    s: JournalState,
    end: JournalState,
    address: Address,
    load_code: bool,
    skip: bool,
    reply: Result<AccountLoadState, LoadError>,
) -> bool {
    &&& (reply == Err::<AccountLoadState, _>(LoadError::ColdLoadSkipped)) == (loads::account_is_cold(
        s,
        address,
    ) && skip)
    &&& effects::same_but(s, end, address, address)
    &&& match reply {
        Ok(account) => {
            let info = end.state[address].info;
            &&& end.state.contains_key(address)
            &&& account.is_cold == loads::account_is_cold(s, address)
            &&& account.balance == info.balance
            &&& account.nonce == info.nonce
            &&& account.code_hash == info.code_hash
            &&& account.code == (if load_code {
                info.code
            } else {
                None
            })
            &&& load_code ==> info.code is Some
        },
        Err(LoadError::ColdLoadSkipped) => end == s,
        Err(LoadError::DBError) => true,
    }
}

/// A load is answered with the account.
pub proof fn an_account_is_told_as_it_was_loaded<DB: Database>(
    pre: &Context<DB>,
    address: Address,
    load_code: bool,
    skip: bool,
    reply: HostReply,
    post: &Context<DB>,
)
    requires
        Context::<DB>::replies(pre, HostCall::LoadAccount(address, load_code, skip), reply, post),
    ensures
        post.env == pre.env,
        reply is Account,
        account_told(
            pre.journaled_state@,
            post.journaled_state@,
            address,
            load_code,
            skip,
            reply->Account_0,
        ),
{
    lemma_account_told(
        pre.journaled_state@,
        &pre.db,
        address,
        load_code,
        skip,
        reply->Account_0,
        post.journaled_state@,
        &post.db,
    );
}

proof fn lemma_account_told<DB: Database>(
    s: JournalState,
    pre: &DB,
    address: Address,
    load_code: bool,
    skip: bool,
    reply: Result<AccountLoadState, LoadError>,
    end: JournalState,
    post: &DB,
)
    requires
        context::account_given(s, pre, address, load_code, skip, reply, end, post),
    ensures
        account_told(s, end, address, load_code, skip, reply),
{
    let r = choose|r: Result<bool, JournalLoadError<DB::Error>>| #[trigger]
        model::account_loaded(s, address, load_code, skip, pre, r, end, post) && reply == (
        match r {
            Ok(is_cold) => Ok(context::account_seen(end, address, load_code, is_cold)),
            Err(e) => Err(context::spec_load_error(e)),
        });
    loads::a_load_finds_the_account(s, address, load_code, skip, pre, r, end, post);
}

/// A balance is that of the account, and tells whether it was cold.
pub proof fn a_balance_is_told<DB: Database>(
    pre: &Context<DB>,
    address: Address,
    reply: HostReply,
    post: &Context<DB>,
)
    requires
        Context::<DB>::replies(pre, HostCall::Balance(address), reply, post),
    ensures
        post.env == pre.env,
        reply is Balance,
        effects::same_but(pre.journaled_state@, post.journaled_state@, address, address),
        reply->Balance_0 matches Some(load) ==> post.journaled_state@.state.contains_key(address)
            && load.data == post.journaled_state@.state[address].info.balance && load.is_cold
            == loads::account_is_cold(pre.journaled_state@, address),
{
    let s = pre.journaled_state@;
    let end = post.journaled_state@;
    let r = choose|r: Result<AccountLoadState, LoadError>| #[trigger]
        context::account_given(s, &pre.db, address, false, false, r, end, &post.db)
            && reply->Balance_0 == context::balance_seen(r);
    lemma_account_told(s, &pre.db, address, false, false, r, end, &post.db);
}

/// Code is told as it is stored.
pub proof fn code_is_told_as_it_is_stored<DB: Database>(
    pre: &Context<DB>,
    address: Address,
    reply: HostReply,
    post: &Context<DB>,
)
    requires
        Context::<DB>::replies(pre, HostCall::Code(address), reply, post),
    ensures
        post.env == pre.env,
        reply is Code,
        effects::same_but(pre.journaled_state@, post.journaled_state@, address, address),
        reply->Code_0 matches Some(code) ==> post.journaled_state@.state.contains_key(address)
            && post.journaled_state@.state[address].info.code is Some && code
            == post.journaled_state@.state[address].info.code->0.original(),
{
    let s = pre.journaled_state@;
    let end = post.journaled_state@;
    let r = choose|r: Result<AccountLoadState, LoadError>| #[trigger]
        context::account_given(s, &pre.db, address, true, false, r, end, &post.db) && reply->Code_0
            == context::code_seen(r);
    lemma_account_told(s, &pre.db, address, true, false, r, end, &post.db);
}

/// The hash of a block is what the database has for its number; nothing changes.
pub proof fn a_block_hash_is_told<DB: Database>(
    pre: &Context<DB>,
    number: u64,
    reply: HostReply,
    post: &Context<DB>,
)
    requires
        Context::<DB>::replies(pre, HostCall::BlockHash(number), reply, post),
    ensures
        post.env == pre.env,
        post.journaled_state@ == pre.journaled_state@,
        reply is Hash,
        exists|r: Result<B256, DB::Error>| #[trigger]
            DB::replies(&pre.db, DbCall::BlockHash(number), DbReply::BlockHash(r), &post.db)
                && reply->Hash_0 == (match r {
                Ok(hash) => Some(hash),
                Err(_) => None,
            }),
{
}

/// A slot is told as it was found. A cold one is left out if that is wanted. Of an account that
/// is not there nothing is told.
pub open spec fn slot_told<DB: Database>(
    s: JournalState,
    pre: &DB,
    end: JournalState,
    post: &DB,
    address: Address,
    key: U256,
    skip: bool,
    reply: Result<StateLoad<U256>, LoadError>,
) -> bool {
    if !s.state.contains_key(address) {
        reply == Err::<StateLoad<U256>, _>(LoadError::DBError) && end == s && *post == *pre
    } else {
        &&& (reply == Err::<StateLoad<U256>, _>(LoadError::ColdLoadSkipped)) == (loads::slot_is_cold(
            s,
            address,
            key,
        ) && skip)
        &&& match reply {
            Ok(load) => {
                &&& load.is_cold == loads::slot_is_cold(s, address, key)
                &&& end.state.contains_key(address)
                &&& end.state[address].storage.contains_key(key)
                &&& load.data == end.state[address].storage[key].present_value
                &&& loads::slot_found(s, address, key, pre, end.state[address].storage[key], post)
                &&& effects::same_but(s, end, address, address)
                &&& effects::same_slots_but(s.state[address], end.state[address], key)
            },
            Err(LoadError::ColdLoadSkipped) => end == s && *post == *pre,
            Err(LoadError::DBError) => end == s,
        }
    }
}

proof fn lemma_slot_told<DB: Database>(
    s: JournalState,
    pre: &DB,
    address: Address,
    key: U256,
    skip: bool,
    reply: Result<StateLoad<U256>, LoadError>,
    end: JournalState,
    post: &DB,
)
    requires
        context::slot_given(s, pre, address, key, skip, reply, end, post),
    ensures
        slot_told(s, pre, end, post, address, key, skip, reply),
{
    if s.state.contains_key(address) {
        let r = choose|r: Result<StateLoad<U256>, JournalLoadError<DB::Error>>| #[trigger]
            model::slot_read(s, address, key, skip, pre, r, end, post) && reply == context::seen(r);
        loads::a_read_gives_the_slot(s, address, key, skip, pre, r, end, post);
    }
}

/// A read is answered with the slot.
pub proof fn a_slot_is_told_as_it_was_found<DB: Database>(
    pre: &Context<DB>,
    address: Address,
    key: U256,
    skip: bool,
    reply: HostReply,
    post: &Context<DB>,
)
    requires
        Context::<DB>::replies(pre, HostCall::SLoadSkipCold(address, key, skip), reply, post),
    ensures
        post.env == pre.env,
        reply is Slot,
        slot_told(
            pre.journaled_state@,
            &pre.db,
            post.journaled_state@,
            &post.db,
            address,
            key,
            skip,
            reply->Slot_0,
        ),
{
    lemma_slot_told(
        pre.journaled_state@,
        &pre.db,
        address,
        key,
        skip,
        reply->Slot_0,
        post.journaled_state@,
        &post.db,
    );
}

/// A read that leaves nothing out is answered with the slot, or with nothing where the load
/// failed.
pub proof fn a_slot_is_told_or_nothing<DB: Database>(
    pre: &Context<DB>,
    address: Address,
    key: U256,
    reply: HostReply,
    post: &Context<DB>,
)
    requires
        Context::<DB>::replies(pre, HostCall::SLoad(address, key), reply, post),
    ensures
        post.env == pre.env,
        reply is SlotOr,
        slot_told(
            pre.journaled_state@,
            &pre.db,
            post.journaled_state@,
            &post.db,
            address,
            key,
            false,
            match reply->SlotOr_0 {
                Some(load) => Ok(load),
                None => Err(LoadError::DBError),
            },
        ),
{
    let s = pre.journaled_state@;
    let end = post.journaled_state@;
    let r = choose|r: Result<StateLoad<U256>, LoadError>| #[trigger]
        context::slot_given(s, &pre.db, address, key, false, r, end, &post.db) && reply->SlotOr_0
            == context::known(r);
    lemma_slot_told(s, &pre.db, address, key, false, r, end, &post.db);
}

/// A write is told by the value that the transaction began with, the value before it and the new
/// one, which is in the slot afterwards.
pub open spec fn write_told<DB: Database>(
    s: JournalState,
    pre: &DB,
    end: JournalState,
    post: &DB,
    address: Address,
    key: U256,
    new: U256,
    skip: bool,
    reply: Result<StateLoad<SStoreResult>, LoadError>,
) -> bool {
    if !s.state.contains_key(address) {
        reply == Err::<StateLoad<SStoreResult>, _>(LoadError::DBError) && end == s && *post == *pre
    } else {
        &&& (reply == Err::<StateLoad<SStoreResult>, _>(LoadError::ColdLoadSkipped)) == (
        loads::slot_is_cold(s, address, key) && skip)
        &&& match reply {
            Ok(load) => {
                &&& load.is_cold == loads::slot_is_cold(s, address, key)
                &&& load.data.new_value == new
                &&& loads::slot_found(
                    s,
                    address,
                    key,
                    pre,
                    EvmStorageSlot {
                        original_value: load.data.original_value,
                        present_value: load.data.present_value,
                        transaction_id: s.transaction_id,
                        is_cold: false,
                    },
                    post,
                )
                &&& effects::slot_is(
                    end,
                    address,
                    key,
                    EvmStorageSlot {
                        original_value: load.data.original_value,
                        present_value: new,
                        transaction_id: s.transaction_id,
                        is_cold: false,
                    },
                )
                &&& effects::same_but(s, end, address, address)
                &&& effects::same_slots_but(s.state[address], end.state[address], key)
            },
            Err(LoadError::ColdLoadSkipped) => end == s && *post == *pre,
            Err(LoadError::DBError) => end == s,
        }
    }
}

proof fn lemma_write_told<DB: Database>(
    s: JournalState,
    pre: &DB,
    address: Address,
    key: U256,
    new: U256,
    skip: bool,
    reply: Result<StateLoad<SStoreResult>, LoadError>,
    end: JournalState,
    post: &DB,
)
    requires
        context::slot_taken(s, pre, address, key, new, skip, reply, end, post),
    ensures
        write_told(s, pre, end, post, address, key, new, skip, reply),
{
    if s.state.contains_key(address) {
        let r = choose|r: Result<StateLoad<SStoreResult>, JournalLoadError<DB::Error>>| #[trigger]
            model::slot_written(s, address, key, new, skip, pre, r, end, post) && reply
                == context::seen(r);
        loads::a_write_finds_the_slot(s, address, key, new, skip, pre, r, end, post);
    }
}

/// A write is answered so.
pub proof fn a_write_is_told<DB: Database>(
    pre: &Context<DB>,
    address: Address,
    key: U256,
    new: U256,
    skip: bool,
    reply: HostReply,
    post: &Context<DB>,
)
    requires
        Context::<DB>::replies(
            pre,
            HostCall::SStoreSkipCold(address, key, new, skip),
            reply,
            post,
        ),
    ensures
        post.env == pre.env,
        reply is Write,
        write_told(
            pre.journaled_state@,
            &pre.db,
            post.journaled_state@,
            &post.db,
            address,
            key,
            new,
            skip,
            reply->Write_0,
        ),
{
    lemma_write_told(
        pre.journaled_state@,
        &pre.db,
        address,
        key,
        new,
        skip,
        reply->Write_0,
        post.journaled_state@,
        &post.db,
    );
}

/// A write that leaves nothing out is answered so, or with nothing where the load failed.
pub proof fn a_write_is_told_or_nothing<DB: Database>(
    pre: &Context<DB>,
    address: Address,
    key: U256,
    new: U256,
    reply: HostReply,
    post: &Context<DB>,
)
    requires
        Context::<DB>::replies(pre, HostCall::SStore(address, key, new), reply, post),
    ensures
        post.env == pre.env,
        reply is WriteOr,
        write_told(
            pre.journaled_state@,
            &pre.db,
            post.journaled_state@,
            &post.db,
            address,
            key,
            new,
            false,
            match reply->WriteOr_0 {
                Some(load) => Ok(load),
                None => Err(LoadError::DBError),
            },
        ),
{
    let s = pre.journaled_state@;
    let end = post.journaled_state@;
    let r = choose|r: Result<StateLoad<SStoreResult>, LoadError>| #[trigger]
        context::slot_taken(s, &pre.db, address, key, new, false, r, end, &post.db)
            && reply->WriteOr_0 == context::known(r);
    lemma_write_told(s, &pre.db, address, key, new, false, r, end, &post.db);
}

/// A transient slot is what was written to it last in this transaction, and zero before.
pub proof fn a_transient_slot_is_told<DB: Database>(
    pre: &Context<DB>,
    address: Address,
    key: U256,
    reply: HostReply,
    post: &Context<DB>,
)
    requires
        Context::<DB>::replies(pre, HostCall::TLoad(address, key), reply, post),
    ensures
        post.env == pre.env,
        post.journaled_state@ == pre.journaled_state@,
        ({
            let transient = pre.journaled_state@.transient;
            if transient.contains_key((address, key)) {
                reply == HostReply::Word(transient[(address, key)])
            } else {
                reply is Word && reply->Word_0.val() == 0
            }
        }),
{
    crate::primitives::u256::lemma_val_of_word(0);
}

/// A write to a transient slot leaves the value there, and nothing in the slot for zero. It
/// changes no account.
pub proof fn a_transient_write_stays<DB: Database>(
    pre: &Context<DB>,
    address: Address,
    key: U256,
    new: U256,
    reply: HostReply,
    post: &Context<DB>,
)
    requires
        Context::<DB>::replies(pre, HostCall::TStore(address, key, new), reply, post),
    ensures
        post.env == pre.env,
        post.journaled_state@.state == pre.journaled_state@.state,
        post.journaled_state@.logs == pre.journaled_state@.logs,
        post.journaled_state@.transient == (if new.val() == 0 {
            pre.journaled_state@.transient.remove((address, key))
        } else {
            pre.journaled_state@.transient.insert((address, key), new)
        }),
{
}

/// A record is put behind those that are there; nothing else changes.
pub proof fn a_record_comes_last<DB: Database>(
    pre: &Context<DB>,
    log: crate::host::LogState,
    reply: HostReply,
    post: &Context<DB>,
)
    requires
        Context::<DB>::replies(pre, HostCall::Log(log), reply, post),
    ensures
        post.env == pre.env,
        post.journaled_state@ == (JournalState {
            logs: pre.journaled_state@.logs.push(log),
            ..pre.journaled_state@
        }),
{
}

/// A destruction is told with what was there. The account has to be there itself.
pub proof fn a_destruction_is_told<DB: Database>(
    pre: &Context<DB>,
    address: Address,
    target: Address,
    reply: HostReply,
    post: &Context<DB>,
)
    requires
        Context::<DB>::replies(pre, HostCall::SelfDestruct(address, target), reply, post),
    ensures
        post.env == pre.env,
        reply is SelfDestruct,
        !pre.journaled_state@.state.contains_key(address) ==> reply->SelfDestruct_0 is None
            && post.journaled_state@ == pre.journaled_state@,
        reply->SelfDestruct_0 matches Some(load) ==> load.is_cold == loads::account_is_cold(
            pre.journaled_state@,
            target,
        ) && exists|mid: JournalState| #[trigger]
            model::account_loaded(
                pre.journaled_state@,
                target,
                false,
                false,
                &pre.db,
                Ok(load.is_cold),
                mid,
                &post.db,
            ) && post.journaled_state@ == mid.destroyed(address, target) && load.data.had_value == (
            mid.state[address].info.balance.val() != 0),
{
    let s = pre.journaled_state@;
    let end = post.journaled_state@;
    if s.state.contains_key(address) {
        let r = choose|r: Result<StateLoad<SelfDestructResult>, DB::Error>| #[trigger]
            model::destruction_made(s, address, target, &pre.db, r, end, &post.db)
                && reply->SelfDestruct_0 == context::known(r);
        loads::a_destruction_loads_the_target(s, address, target, &pre.db, r, end, &post.db);
    }
}

/// From Berlin on an `SLOAD` that goes on has spent 2100 if the slot was cold in the transaction
/// and 100 if it was warm, and leaves the value that the slot holds.
pub proof fn a_cold_read_costs_2100_and_a_warm_one_100<DB: Database>(
    s: InterpreterState,
    pre: &Context<DB>,
    end: InterpreterState,
    post: &Context<DB>,
)
    requires
        laws::at(0x54, s, pre, end, post),
        s.flags.spec_id.enabled(SpecId::BERLIN),
        end.ext.running,
    ensures
        ({
            let key = s.stack[s.stack.len() - 1];
            let address = s.input.target;
            let journal = post.journaled_state@;
            &&& s.stack.len() >= 1
            &&& s.gas.remaining - end.gas.remaining == (if loads::slot_is_cold(
                pre.journaled_state@,
                address,
                key,
            ) {
                2100int
            } else {
                100int
            })
            &&& end.stack.len() == s.stack.len()
            &&& end.stack[end.stack.len() - 1].val()
                == journal.state[address].storage[key].present_value.val()
        }),
{
    laws::host::an_sload_pays_for_a_cold_slot(s, pre, end, post);
    let gas = s.gas.remaining as int;
    let key = s.stack[s.stack.len() - 1];
    let scarce = gas - 100 < 2000;
    let reply = choose|reply: HostReply| #[trigger]
        Context::<DB>::replies(
            pre,
            HostCall::SLoadSkipCold(s.input.target, key, scarce),
            reply,
            post,
        ) && laws::host::slot_answer(s, end, reply);
    a_slot_is_told_as_it_was_found(pre, s.input.target, key, scarce, reply, post);
}

/// An `SSTORE` that goes on has spent the price of the write, by the value that the transaction
/// began with, the value before and the new one, and by whether the slot was cold; the new value
/// is in the slot.
pub proof fn a_write_costs_by_what_the_slot_held<DB: Database>(
    s: InterpreterState,
    pre: &Context<DB>,
    end: InterpreterState,
    post: &Context<DB>,
)
    requires
        laws::at(0x55, s, pre, end, post),
        s.flags.spec_id.enabled(SpecId::BERLIN),
        end.ext.running,
    ensures
        s.stack.len() >= 2,
        !s.flags.is_static,
        exists|slot: EvmStorageSlot|
            {
                let key = s.stack[s.stack.len() - 1];
                let new = s.stack[s.stack.len() - 2];
                let address = s.input.target;
                let after = post.journaled_state@.state[address].storage[key];
                &&& #[trigger] loads::slot_found(
                    pre.journaled_state@,
                    s.input.target,
                    s.stack[s.stack.len() - 1],
                    &pre.db,
                    slot,
                    &post.db,
                )
                &&& s.gas.remaining - end.gas.remaining == laws::host::write_price(
                    s.flags.spec_id,
                    slot.original_value.val(),
                    slot.present_value.val(),
                    new.val(),
                    loads::slot_is_cold(pre.journaled_state@, address, key),
                ).0
                &&& after.present_value == new
                &&& after.original_value == slot.original_value
            },
{
    laws::host::an_sstore_costs_what_it_changes(s, pre, end, post);
    let gas = s.gas.remaining as int;
    let key = s.stack[s.stack.len() - 1];
    let new = s.stack[s.stack.len() - 2];
    let scarce = gas - 100 < 2000;
    let reply = choose|reply: HostReply| #[trigger]
        Context::<DB>::replies(
            pre,
            HostCall::SStoreSkipCold(s.input.target, key, new, scarce),
            reply,
            post,
        ) && match reply {
            HostReply::Write(Ok(load)) => laws::host::write_answer(s, end, load),
            HostReply::Write(Err(_)) => !end.ext.running,
            _ => true,
        };
    a_write_is_told(pre, s.input.target, key, new, scarce, reply, post);
    let load = reply->Write_0->Ok_0;
    assert(loads::slot_found(
        pre.journaled_state@,
        s.input.target,
        key,
        &pre.db,
        EvmStorageSlot {
            original_value: load.data.original_value,
            present_value: load.data.present_value,
            transaction_id: pre.journaled_state@.transaction_id,
            is_cold: false,
        },
        &post.db,
    ));
}

/// From Berlin on a `BALANCE` that goes on has spent 2600 if the account was cold in the
/// transaction and 100 if it was warm, and leaves the balance that the account has.
pub proof fn a_cold_balance_costs_2600_and_a_warm_one_100<DB: Database>(
    s: InterpreterState,
    pre: &Context<DB>,
    end: InterpreterState,
    post: &Context<DB>,
)
    requires
        laws::at(0x31, s, pre, end, post),
        s.flags.spec_id.enabled(SpecId::BERLIN),
        end.ext.running,
    ensures
        s.stack.len() >= 1,
        exists|address: Address|
            {
                &&& #[trigger] laws::host::account_of(address, laws::top(s, 0))
                &&& s.gas.remaining - end.gas.remaining == (if loads::account_is_cold(
                    pre.journaled_state@,
                    address,
                ) {
                    2600int
                } else {
                    100int
                })
                &&& laws::top(end, 0)
                    == post.journaled_state@.state[address].info.balance.val()
            },
{
    laws::host::a_balance_is_that_of_the_account(s, pre, end, post);
    let gas = s.gas.remaining as int;
    let (address, reply) = choose|address: Address, reply: HostReply|
        {
            &&& #[trigger] Context::<DB>::replies(
                pre,
                HostCall::LoadAccount(address, false, laws::host::short(true, gas - 100, 2500)),
                reply,
                post,
            )
            &&& laws::host::account_of(address, laws::top(s, 0))
            &&& laws::host::account_answer(s, end, reply, 100, 0x31)
        };
    an_account_is_told_as_it_was_loaded(
        pre,
        address,
        false,
        laws::host::short(true, gas - 100, 2500),
        reply,
        post,
    );
    assert(laws::host::account_of(address, laws::top(s, 0)));
}

/// A frame gives the request or the result that its run ended with, and has come to its end if
/// that is a result.
pub proof fn a_frame_gives_what_its_run_gave<CTX: Host>(
    before: EthFrame,
    pre: &CTX,
    after: EthFrame,
    post: &CTX,
    r: ItemOrResult<FrameRequest, InterpreterResult>,
)
    requires
        mainnet_builder::frame_ran(before, pre, after, post, r),
    ensures
        match r {
            ItemOrResult::Item(request) => run::ran(
                before.interpreter@,
                pre,
                after.interpreter@,
                post,
                ActionState::NewFrame(request),
            ) && after.is_finished == before.is_finished,
            ItemOrResult::Result(result) => after.is_finished && exists|action: ActionState|
                #[trigger]
                run::ran(before.interpreter@, pre, after.interpreter@, post, action)
                    && action is Return && action->Return_0.result == result.result
                    && action->Return_0.output == result.output@ && action->Return_0.gas
                    == result.gas@,
        },
{
}

/// The block and the transaction are told to instructions field by field.
pub proof fn the_environment_is_told_as_it_is(env: Env)
    ensures
        env@.basefee == env.basefee,
        env@.blob_gasprice == env.blob_gasprice,
        env@.gas_limit == env.gas_limit,
        env@.difficulty == env.difficulty,
        env@.prevrandao == env.prevrandao,
        env@.block_number == env.block_number,
        env@.timestamp == env.timestamp,
        env@.beneficiary == env.beneficiary,
        env@.chain_id == env.chain_id,
        env@.effective_gas_price == env.effective_gas_price,
        env@.caller == env.caller,
        env@.blob_hashes == env.blob_hashes@,
{
}

/// A context tells its own environment.
pub proof fn a_context_tells_its_environment<DB: Database>(context: Context<DB>)
    ensures
        context.env() == context.env@,
{
}

/// A network of nothing has empty blocks, the chain number one, no caller, and a journal of
/// nothing.
pub proof fn a_network_of_nothing_is_empty(context: Context<EmptyDB>)
    requires
        context.blank(),
    ensures
        context.journaled_state@ == JournalState::fresh(),
        ({
            let env = context.env();
            &&& env.basefee.val() == 0
            &&& env.blob_gasprice.val() == 0
            &&& env.gas_limit.val() == 0
            &&& env.difficulty.val() == 0
            &&& env.prevrandao is Some && env.prevrandao->0.val() == 0
            &&& env.block_number.val() == 0
            &&& env.timestamp.val() == 0
            &&& env.beneficiary.val() == 0
            &&& env.chain_id.val() == 1
            &&& env.effective_gas_price.val() == 0
            &&& env.caller.val() == 0
            &&& env.blob_hashes.len() == 0
        }),
{
    crate::primitives::u256::lemma_val_of_word(0);
    crate::primitives::u256::lemma_val_of_word(1);
}

/// The standard table has the instruction of each byte, at the price that a run charges for it,
/// but for `JUMP`, which costs 8 there. Bytes that are no opcode share an entry.
pub proof fn the_standard_table_charges_as_a_run_does(table: EthInstructions, byte: u8)
    requires
        table.standard(),
    ensures
        table.instruction_table@.len() == 256,
        table.instruction_table@[byte as int].spec_cost() == (if byte == 0x56 {
            8
        } else {
            run::spec_fused_gas(byte)
        }),
        crate::bytecode::opcode::is_opcode(byte) ==> table.instruction_table@[byte as int].spec_op()
            == byte,
        !crate::bytecode::opcode::is_opcode(byte) ==> !crate::bytecode::opcode::is_opcode(
            table.instruction_table@[byte as int].spec_op(),
        ),
{
    assert(crate::instructions::table::is_default_entry(
        table.instruction_table@[byte as int],
        byte,
    ));
}

} // verus!
