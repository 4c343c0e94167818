//! What holds of the answers that a context gives to instructions.

use crate::handler::context;
use crate::handler::context::Context;
use crate::host::{
    AccountLoadState, Host, HostCall, HostReply, LoadError, SStoreResult, SelfDestructResult,
    StateLoad,
};
use crate::interpreter::action::ActionState;
use crate::interpreter::laws as runs;
use crate::interpreter::run;
use crate::interpreter::state::InterpreterState;
use crate::journal::database::Database;
use crate::journal::laws;
use crate::journal::model;
use crate::journal::model::{JournalLoadError, JournalState};
use crate::primitives::{Address, U256};
use vstd::prelude::*;

verus! {

/// The next access to the account whose storage an instruction uses, or which is destroyed,
/// finds what the instruction did. What is destroyed can be told from what was destroyed before.
pub open spec fn in_use(s: JournalState, call: HostCall) -> bool {
    match call {
        HostCall::SLoadSkipCold(address, _, _)
        | HostCall::SLoad(address, _)
        | HostCall::SStoreSkipCold(address, _, _, _)
        | HostCall::SStore(address, _, _) => s.state.contains_key(address) ==> laws::settled(
            s,
            address,
        ),
        HostCall::SelfDestruct(address, _) => s.state.contains_key(address) ==> laws::free_to_end(
            s,
            address,
        ) && laws::consistent(s.state[address].status),
        _ => true,
    }
}

/// A return takes back what a load for an instruction did.
proof fn lemma_account_given<DB: Database>(
    s: JournalState,
    pre: &DB,
    address: Address,
    load_code: bool,
    skip_cold_load: bool,
    reply: Result<AccountLoadState, LoadError>,
    end: JournalState,
    post: &DB,
)
    requires
        context::account_given(s, pre, address, load_code, skip_cold_load, reply, end, post),
    ensures
        laws::extends(s, end),
{
    let r = choose|r: Result<bool, JournalLoadError<DB::Error>>| #[trigger]
        model::account_loaded(s, address, load_code, skip_cold_load, pre, r, end, post);
    laws::a_load_is_taken_back(s, address, load_code, skip_cold_load, pre, r, end, post);
}

/// A return takes back what a read for an instruction did.
proof fn lemma_slot_given<DB: Database>(
    s: JournalState,
    pre: &DB,
    address: Address,
    key: U256,
    skip_cold_load: bool,
    reply: Result<StateLoad<U256>, LoadError>,
    end: JournalState,
    post: &DB,
)
    requires
        context::slot_given(s, pre, address, key, skip_cold_load, reply, end, post),
        s.state.contains_key(address) ==> laws::settled(s, address),
    ensures
        laws::extends(s, end),
{
    if s.state.contains_key(address) {
        let r = choose|r: Result<StateLoad<U256>, JournalLoadError<DB::Error>>| #[trigger]
            model::slot_read(s, address, key, skip_cold_load, pre, r, end, post);
        laws::a_slot_load_is_taken_back(
            s,
            address,
            key,
            skip_cold_load,
            pre,
            model::coldness(r),
            end,
            post,
        );
    } else {
        laws::lemma_extends_self(s);
    }
}

/// A return takes back what a write for an instruction did.
proof fn lemma_slot_taken<DB: Database>(
    s: JournalState,
    pre: &DB,
    address: Address,
    key: U256,
    value: U256,
    skip_cold_load: bool,
    reply: Result<StateLoad<SStoreResult>, LoadError>,
    end: JournalState,
    post: &DB,
)
    requires
        context::slot_taken(s, pre, address, key, value, skip_cold_load, reply, end, post),
        s.state.contains_key(address) ==> laws::settled(s, address),
    ensures
        laws::extends(s, end),
{
    if s.state.contains_key(address) {
        let r = choose|r: Result<StateLoad<SStoreResult>, JournalLoadError<DB::Error>>| #[trigger]
            model::slot_written(s, address, key, value, skip_cold_load, pre, r, end, post);
        let mid = choose|mid: JournalState| #[trigger]
            model::slot_loaded(
                s,
                address,
                key,
                skip_cold_load,
                pre,
                model::coldness(r),
                mid,
                post,
            ) && match r {
                Ok(load) => end == mid.stored(address, key, value) && load.data
                    == mid.store_result(address, key, value),
                Err(_) => end == mid,
            };
        laws::a_slot_load_is_taken_back(
            s,
            address,
            key,
            skip_cold_load,
            pre,
            model::coldness(r),
            mid,
            post,
        );
        if r is Ok {
            laws::a_write_is_taken_back(mid, address, key, value);
            laws::changes_follow_each_other(s, mid, end);
        }
    } else {
        laws::lemma_extends_self(s);
    }
}

/// The account that gets a balance is settled once it is loaded, and the one that is destroyed
/// stays what it was.
proof fn lemma_target_loaded<DB: Database>(
    s: JournalState,
    address: Address,
    target: Address,
    pre: &DB,
    cold: bool,
    mid: JournalState,
    post: &DB,
)
    requires
        model::account_loaded(s, target, false, false, pre, Ok(cold), mid, post),
        laws::free_to_end(s, address),
        laws::consistent(s.state[address].status),
    ensures
        laws::free_to_end(mid, address),
        laws::settled(mid, target),
        laws::consistent(mid.state[address].status),
{
}

/// A return takes back what a destruction for an instruction did.
proof fn lemma_destruction_given<DB: Database>(
    s: JournalState,
    pre: &DB,
    address: Address,
    target: Address,
    reply: Option<StateLoad<SelfDestructResult>>,
    end: JournalState,
    post: &DB,
)
    requires
        context::destruction_given(s, pre, address, target, reply, end, post),
        in_use(s, HostCall::SelfDestruct(address, target)),
    ensures
        laws::extends(s, end),
{
    if s.state.contains_key(address) {
        let r = choose|r: Result<StateLoad<SelfDestructResult>, DB::Error>| #[trigger]
            model::destruction_made(s, address, target, pre, r, end, post);
        let mid = choose|mid: JournalState| #[trigger]
            model::account_loaded(
                s,
                target,
                false,
                false,
                pre,
                model::coldness(model::as_load(r)),
                mid,
                post,
            ) && match r {
                Ok(load) => end == mid.destroyed(address, target) && load == mid.destruction(
                    address,
                    target,
                    load.is_cold,
                ),
                Err(_) => end == mid,
            };
        laws::a_load_is_taken_back(
            s,
            target,
            false,
            false,
            pre,
            model::coldness(model::as_load(r)),
            mid,
            post,
        );
        if r is Ok {
            lemma_target_loaded(s, address, target, pre, r->Ok_0.is_cold, mid, post);
            laws::a_destruction_is_taken_back(mid, address, target);
            laws::changes_follow_each_other(s, mid, end);
        }
    } else {
        laws::lemma_extends_self(s);
    }
}

/// Whatever an instruction asks a context, and whatever the database says to it, a return to a
/// checkpoint takes back what the answer changed.
pub proof fn an_answer_is_taken_back<DB: Database>(
    s: JournalState,
    pre: &DB,
    call: HostCall,
    reply: HostReply,
    end: JournalState,
    post: &DB,
)
    requires
        context::journal_replies(s, pre, call, reply, end, post),
        in_use(s, call),
    ensures
        laws::extends(s, end),
{
    match call {
        HostCall::LoadAccount(address, load_code, skip) => {
            lemma_account_given(s, pre, address, load_code, skip, reply->Account_0, end, post);
        },
        HostCall::Balance(address) => {
            let r = choose|r: Result<AccountLoadState, LoadError>| #[trigger]
                context::account_given(s, pre, address, false, false, r, end, post);
            lemma_account_given(s, pre, address, false, false, r, end, post);
        },
        HostCall::Code(address) => {
            let r = choose|r: Result<AccountLoadState, LoadError>| #[trigger]
                context::account_given(s, pre, address, true, false, r, end, post);
            lemma_account_given(s, pre, address, true, false, r, end, post);
        },
        HostCall::BlockHash(_) => {
            laws::lemma_extends_self(s);
        },
        HostCall::SLoadSkipCold(address, key, skip) => {
            lemma_slot_given(s, pre, address, key, skip, reply->Slot_0, end, post);
        },
        HostCall::SLoad(address, key) => {
            let r = choose|r: Result<StateLoad<U256>, LoadError>| #[trigger]
                context::slot_given(s, pre, address, key, false, r, end, post);
            lemma_slot_given(s, pre, address, key, false, r, end, post);
        },
        HostCall::SStoreSkipCold(address, key, value, skip) => {
            lemma_slot_taken(s, pre, address, key, value, skip, reply->Write_0, end, post);
        },
        HostCall::SStore(address, key, value) => {
            let r = choose|r: Result<StateLoad<SStoreResult>, LoadError>| #[trigger]
                context::slot_taken(s, pre, address, key, value, false, r, end, post);
            lemma_slot_taken(s, pre, address, key, value, false, r, end, post);
        },
        HostCall::TLoad(_, _) => {
            laws::lemma_extends_self(s);
        },
        HostCall::TStore(address, key, value) => {
            laws::a_transient_write_is_taken_back(s, address, key, value);
        },
        HostCall::Log(log) => {
            laws::logs_and_depth_are_taken_back(s, s.logs.push(log), s.depth);
        },
        HostCall::SelfDestruct(address, target) => {
            lemma_destruction_given(s, pre, address, target, reply->SelfDestruct_0, end, post);
        },
    }
}

/// A value that an instruction wrote to the storage is what the next read by an instruction
/// gets, and the slot is warm by then.
pub proof fn a_written_slot_is_read_back_by_instructions<DB: Database>(
    s: JournalState,
    pre: &DB,
    address: Address,
    key: U256,
    value: U256,
    written: StateLoad<SStoreResult>,
    mid: JournalState,
    between: &DB,
    read: HostReply,
    end: JournalState,
    post: &DB,
)
    requires
        context::journal_replies(
            s,
            pre,
            HostCall::SStore(address, key, value),
            HostReply::WriteOr(Some(written)),
            mid,
            between,
        ),
        context::journal_replies(
            mid,
            between,
            HostCall::SLoad(address, key),
            read,
            end,
            post,
        ),
    ensures
        read == HostReply::SlotOr(Some(StateLoad { data: value, is_cold: false })),
        end == mid,
        *post == *between,
{
    let w = choose|w: Result<StateLoad<SStoreResult>, LoadError>| #[trigger]
        context::slot_taken(s, pre, address, key, value, false, w, mid, between)
            && Some(written) == context::known(w);
    let r = choose|r: Result<StateLoad<U256>, LoadError>| #[trigger]
        context::slot_given(mid, between, address, key, false, r, end, post)
            && read->SlotOr_0 == context::known(r);
    let ww = choose|ww: Result<StateLoad<SStoreResult>, JournalLoadError<DB::Error>>| #[trigger]
        model::slot_written(s, address, key, value, false, pre, ww, mid, between) && w
            == context::seen(ww);
    let loaded = choose|loaded: JournalState| #[trigger]
        model::slot_loaded(
            s,
            address,
            key,
            false,
            pre,
            model::coldness(ww),
            loaded,
            between,
        ) && mid == loaded.stored(address, key, value);
    assert(mid.state.contains_key(address));
    let rr = choose|rr: Result<StateLoad<U256>, JournalLoadError<DB::Error>>| #[trigger]
        model::slot_read(mid, address, key, false, between, rr, end, post) && r
            == context::seen(rr);
    laws::a_written_slot_is_read_back(
        s,
        address,
        key,
        value,
        false,
        pre,
        ww,
        mid,
        between,
        false,
        rr,
        end,
        post,
    );
}

/// What a frame relies on and keeps: the next access to its account finds what the frame did,
/// and what happened to the account before can be told.
pub open spec fn at_home(s: JournalState, target: Address) -> bool {
    laws::free_to_end(s, target) && laws::consistent(s.state[target].status)
}

/// The logs and the depth of a state that comes from another by the answers to a frame: logs
/// are added, and the depth stays.
pub open spec fn goes_on(s: JournalState, end: JournalState) -> bool {
    &&& s.logs.len() <= end.logs.len()
    &&& end.logs.subrange(0, s.logs.len() as int) == s.logs
    &&& end.depth == s.depth
}

proof fn lemma_goes_on(s: JournalState, mid: JournalState, end: JournalState)
    requires
        goes_on(s, mid),
        goes_on(mid, end),
    ensures
        goes_on(s, end),
{
    let n = s.logs.len() as int;
    assert(end.logs.subrange(0, n) =~= end.logs.subrange(0, mid.logs.len() as int).subrange(0, n));
}

/// A load keeps what a frame relies on.
proof fn lemma_load_keeps<DB: Database>(
    s: JournalState,
    address: Address,
    load_code: bool,
    skip_cold_load: bool,
    pre: &DB,
    r: Result<bool, JournalLoadError<DB::Error>>,
    end: JournalState,
    post: &DB,
    target: Address,
)
    requires
        model::account_loaded(s, address, load_code, skip_cold_load, pre, r, end, post),
        at_home(s, target),
    ensures
        at_home(end, target),
        goes_on(s, end),
{
    model::lemma_loaded(s, address, load_code, skip_cold_load, pre, r, end, post);
    assert(s.logs.subrange(0, s.logs.len() as int) =~= s.logs);
}

/// A load of a slot keeps what a frame relies on.
proof fn lemma_slot_load_keeps<DB: Database>(
    s: JournalState,
    target: Address,
    key: U256,
    skip_cold_load: bool,
    pre: &DB,
    r: Result<bool, JournalLoadError<DB::Error>>,
    end: JournalState,
    post: &DB,
)
    requires
        model::slot_loaded(s, target, key, skip_cold_load, pre, r, end, post),
        at_home(s, target),
    ensures
        at_home(end, target),
        goes_on(s, end),
{
    assert(s.logs.subrange(0, s.logs.len() as int) =~= s.logs);
}

/// A write of a slot keeps what a frame relies on.
proof fn lemma_slot_taken_keeps<DB: Database>(
    s: JournalState,
    pre: &DB,
    target: Address,
    key: U256,
    value: U256,
    skip_cold_load: bool,
    reply: Result<StateLoad<SStoreResult>, LoadError>,
    end: JournalState,
    post: &DB,
)
    requires
        context::slot_taken(s, pre, target, key, value, skip_cold_load, reply, end, post),
        at_home(s, target),
    ensures
        at_home(end, target),
        goes_on(s, end),
{
    let r = choose|r: Result<StateLoad<SStoreResult>, JournalLoadError<DB::Error>>| #[trigger]
        model::slot_written(s, target, key, value, skip_cold_load, pre, r, end, post);
    let mid = choose|mid: JournalState| #[trigger]
        model::slot_loaded(
            s,
            target,
            key,
            skip_cold_load,
            pre,
            model::coldness(r),
            mid,
            post,
        ) && match r {
            Ok(load) => end == mid.stored(target, key, value) && load.data == mid.store_result(
                target,
                key,
                value,
            ),
            Err(_) => end == mid,
        };
    lemma_slot_load_keeps(
        s,
        target,
        key,
        skip_cold_load,
        pre,
        model::coldness(r),
        mid,
        post,
    );
    assert(mid.logs == end.logs);
}

/// A destruction keeps what a frame relies on.
proof fn lemma_destruction_keeps<DB: Database>(
    s: JournalState,
    pre: &DB,
    address: Address,
    heir: Address,
    reply: Option<StateLoad<SelfDestructResult>>,
    end: JournalState,
    post: &DB,
)
    requires
        context::destruction_given(s, pre, address, heir, reply, end, post),
        at_home(s, address),
    ensures
        at_home(end, address),
        goes_on(s, end),
{
    let r = choose|r: Result<StateLoad<SelfDestructResult>, DB::Error>| #[trigger]
        model::destruction_made(s, address, heir, pre, r, end, post);
    let mid = choose|mid: JournalState| #[trigger]
        model::account_loaded(
            s,
            heir,
            false,
            false,
            pre,
            model::coldness(model::as_load(r)),
            mid,
            post,
        ) && match r {
            Ok(load) => end == mid.destroyed(address, heir) && load == mid.destruction(
                address,
                heir,
                load.is_cold,
            ),
            Err(_) => end == mid,
        };
    lemma_load_keeps(
        s,
        heir,
        false,
        false,
        pre,
        model::coldness(model::as_load(r)),
        mid,
        post,
        address,
    );
    assert(end.logs == mid.logs);
    assert(end.depth == mid.depth);
    assert(end.transaction_id == mid.transaction_id);
}

/// The answer to a question of a frame keeps what the frame relies on.
proof fn lemma_answer_keeps<DB: Database>(
    s: JournalState,
    pre: &DB,
    call: HostCall,
    reply: HostReply,
    end: JournalState,
    post: &DB,
    target: Address,
)
    requires
        context::journal_replies(s, pre, call, reply, end, post),
        runs::of_the_frame(call, target),
        at_home(s, target),
    ensures
        in_use(s, call),
        at_home(end, target),
        goes_on(s, end),
{
    assert(s.logs.subrange(0, s.logs.len() as int) =~= s.logs);
    match call {
        HostCall::LoadAccount(address, load_code, skip) => {
            let r = choose|r: Result<bool, JournalLoadError<DB::Error>>| #[trigger]
                model::account_loaded(s, address, load_code, skip, pre, r, end, post);
            lemma_load_keeps(s, address, load_code, skip, pre, r, end, post, target);
        },
        HostCall::Balance(address) => {
            let a = choose|a: Result<AccountLoadState, LoadError>| #[trigger]
                context::account_given(s, pre, address, false, false, a, end, post);
            let r = choose|r: Result<bool, JournalLoadError<DB::Error>>| #[trigger]
                model::account_loaded(s, address, false, false, pre, r, end, post);
            lemma_load_keeps(s, address, false, false, pre, r, end, post, target);
        },
        HostCall::Code(address) => {
            let a = choose|a: Result<AccountLoadState, LoadError>| #[trigger]
                context::account_given(s, pre, address, true, false, a, end, post);
            let r = choose|r: Result<bool, JournalLoadError<DB::Error>>| #[trigger]
                model::account_loaded(s, address, true, false, pre, r, end, post);
            lemma_load_keeps(s, address, true, false, pre, r, end, post, target);
        },
        HostCall::BlockHash(_) => {},
        HostCall::SLoadSkipCold(_, key, skip) => {
            let r = choose|r: Result<StateLoad<U256>, JournalLoadError<DB::Error>>| #[trigger]
                model::slot_read(s, target, key, skip, pre, r, end, post);
            lemma_slot_load_keeps(
                s,
                target,
                key,
                skip,
                pre,
                model::coldness(r),
                end,
                post,
            );
        },
        HostCall::SLoad(_, key) => {
            let g = choose|g: Result<StateLoad<U256>, LoadError>| #[trigger]
                context::slot_given(s, pre, target, key, false, g, end, post);
            let r = choose|r: Result<StateLoad<U256>, JournalLoadError<DB::Error>>| #[trigger]
                model::slot_read(s, target, key, false, pre, r, end, post);
            lemma_slot_load_keeps(
                s,
                target,
                key,
                false,
                pre,
                model::coldness(r),
                end,
                post,
            );
        },
        HostCall::SStoreSkipCold(_, key, value, skip) => {
            lemma_slot_taken_keeps(s, pre, target, key, value, skip, reply->Write_0, end, post);
        },
        HostCall::SStore(_, key, value) => {
            let r = choose|r: Result<StateLoad<SStoreResult>, LoadError>| #[trigger]
                context::slot_taken(s, pre, target, key, value, false, r, end, post);
            lemma_slot_taken_keeps(s, pre, target, key, value, false, r, end, post);
        },
        HostCall::TLoad(_, _) => {},
        HostCall::TStore(_, _, _) => {
            assert(end.logs == s.logs);
        },
        HostCall::Log(log) => {
            assert(end.logs.subrange(0, s.logs.len() as int) =~= s.logs);
        },
        HostCall::SelfDestruct(_, heir) => {
            lemma_destruction_keeps(s, pre, target, heir, reply->SelfDestruct_0, end, post);
        },
    }
}

/// Whatever a frame does, and whatever the database says to it, a return takes back what it
/// changed. An account that the transaction does not use yet must not be lost to the next access:
/// it was not destroyed before, and if it is destroyed, only its balance moves.
pub proof fn a_run_is_taken_back<DB: Database>(trace: Seq<(InterpreterState, Context<DB>)>)
    requires
        run::is_run(trace),
        at_home(trace[0].1.journaled_state@, trace[0].0.input.target),
    ensures
        trace.last().0.input == trace[0].0.input,
        at_home(trace.last().1.journaled_state@, trace[0].0.input.target),
        goes_on(trace[0].1.journaled_state@, trace.last().1.journaled_state@),
        laws::extends(trace[0].1.journaled_state@, trace.last().1.journaled_state@),
    decreases trace.len(),
{
    let target = trace[0].0.input.target;
    let first = trace[0].1.journaled_state@;
    if trace.len() == 1 {
        laws::lemma_extends_self(first);
        assert(first.logs.subrange(0, first.logs.len() as int) =~= first.logs);
    } else {
        let n = trace.len() - 1;
        let shorter = trace.subrange(0, n);
        assert forall|i: int| 0 <= i < shorter.len() - 1 implies #[trigger] run::linked(
            shorter,
            i,
        ) by {
            assert(run::linked(trace, i));
        }
        a_run_is_taken_back(shorter);
        assert(run::linked(trace, n - 1));
        let (s, pre) = trace[n - 1];
        let (end, post) = trace[n];
        let before = pre.journaled_state@;
        let after = post.journaled_state@;
        runs::a_step_asks_about_its_own_account(s, &pre, end, &post);
        if post != pre {
            let (call, reply) = choose|call: HostCall, reply: HostReply| #[trigger]
                <Context<DB> as Host>::replies(&pre, call, reply, &post) && runs::of_the_frame(
                    call,
                    target,
                );
            lemma_answer_keeps(before, &pre.db, call, reply, after, &post.db, target);
            an_answer_is_taken_back(before, &pre.db, call, reply, after, &post.db);
            laws::changes_follow_each_other(first, before, after);
            lemma_goes_on(first, before, after);
        }
    }
}

/// A frame that runs from a checkpoint on and is reverted leaves nothing behind: balances,
/// nonces, storage, transient storage, logs, depth, and what is cold are as they were at the
/// checkpoint.
pub proof fn a_reverted_frame_leaves_nothing_behind<DB: Database>(
    s: JournalState,
    start: InterpreterState,
    pre: &Context<DB>,
    end: InterpreterState,
    post: &Context<DB>,
    action: ActionState,
)
    requires
        run::ran(start, pre, end, post, action),
        pre.journaled_state@ == s.entered(),
        at_home(s, start.input.target),
        s.depth < usize::MAX,
        s.journal.len() <= usize::MAX,
        post.journaled_state@.logs.len() <= usize::MAX,
    ensures
        ({
            let left = post.journaled_state@;
            &&& left.revertible_to(s.here().journal_i as int)
            &&& laws::restores(s, left.reverted(s.here()))
            &&& left.reverted(s.here()).logs == s.logs
            &&& left.reverted(s.here()).depth == s.depth
        }),
{
    let trace = choose|trace: Seq<(InterpreterState, Context<DB>)>|
        {
            &&& #[trigger] run::is_run(trace)
            &&& trace[0] == (start, *pre)
            &&& trace.last().1 == *post
        };
    a_run_is_taken_back(trace);
    laws::a_return_brings_back_the_checkpoint(s, post.journaled_state@);
}

} // verus!
