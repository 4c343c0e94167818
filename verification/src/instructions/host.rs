//! Instructions that ask the host.

use crate::gas::constants::{
    CALL_STIPEND, COLD_ACCOUNT_ACCESS_COST_ADDITIONAL, COLD_SLOAD_COST_ADDITIONAL,
    ISTANBUL_SLOAD_GAS, SELFDESTRUCT_REFUND, WARM_STORAGE_READ_COST,
};
use crate::gas::{
    copy_cost, dyn_selfdestruct_cost, log_cost, sstore_entry, sstore_spec, sstore_status,
    static_selfdestruct_cost, GasState,
};
use crate::host::{
    AccountInfoLoad, AccountLoadState, EnvState, Host, HostCall, HostReply, LoadError, Log,
    LogState, SStoreResult, StateLoad,
};
use crate::instructions::context::InstructionContext;
use crate::instructions::system;
use crate::interpreter::instruction_result::InstructionResult;
use crate::interpreter::interpreter_types::{InputsTr, RuntimeFlag};
use crate::interpreter::machine::Interpreter;
use crate::interpreter::shared_memory;
use crate::interpreter::stack::{STACK_LIMIT, WORD};
use crate::interpreter::stack;
use crate::interpreter::state::InterpreterState;
use crate::primitives::address;
use crate::primitives::u256;
use crate::primitives::{Address, SpecId, B256, U256};
use vstd::prelude::*;
use vstd::slice::slice_to_vec;

verus! {

/// How many blocks back `BLOCKHASH` reaches.
pub const BLOCK_HASH_HISTORY: u64 = 256;

/// What an instruction that asks the host does first: either it is done, or it asks.
#[verifier::ext_equal]
pub enum HostStep {
    /// It is done.
    Done(InterpreterState),
    /// It asks, and is in this state meanwhile.
    Ask(HostCall, InterpreterState),
}

/// Whether an instruction that does `step` first, and `finish` with the answer, can end in
/// `end` while the host goes from `pre` to `post`. Without a question the host stays what it
/// is.
pub open spec fn answered<H: Host>(
    step: HostStep,
    finish: spec_fn(InterpreterState, HostReply) -> InterpreterState,
    pre: &H,
    end: InterpreterState,
    post: &H,
) -> bool {
    match step {
        HostStep::Done(t) => end == t && *post == *pre,
        HostStep::Ask(call, t) => exists|reply: HostReply| #[trigger]
            H::replies(pre, call, reply, post) && end == finish(t, reply),
    }
}

/// Loading an account: from EIP-2929 on a warm access is paid first, and a cold account is not
/// loaded if the gas does not cover the rest; before, the price is `old_cost`.
pub open spec fn load_account_ask(
    s: InterpreterState,
    address: Address,
    load_code: bool,
    old_cost: int,
) -> HostStep {
    let berlin = s.enabled(SpecId::BERLIN);
    match s.charged(
        if berlin {
            WARM_STORAGE_READ_COST as int
        } else {
            old_cost
        },
    ) {
        Err(halted) => HostStep::Done(halted),
        Ok(t) => HostStep::Ask(
            HostCall::LoadAccount(
                address,
                load_code,
                berlin && t.gas.remaining < COLD_ACCOUNT_ACCESS_COST_ADDITIONAL,
            ),
            t,
        ),
    }
}

/// The account that was loaded and the state to go on with, or the state in which the frame
/// has ended.
pub open spec fn loaded_account(t: InterpreterState, reply: HostReply) -> Result<
    (InterpreterState, AccountLoadState),
    InterpreterState,
> {
    match reply {
        HostReply::Account(Ok(account)) => if t.enabled(SpecId::BERLIN) && account.is_cold {
            match t.charged(COLD_ACCOUNT_ACCESS_COST_ADDITIONAL as int) {
                Err(halted) => Err(halted),
                Ok(u) => Ok((u, account)),
            }
        } else {
            Ok((t, account))
        },
        HostReply::Account(Err(LoadError::ColdLoadSkipped)) => if t.enabled(SpecId::BERLIN) {
            Err(t.out_of_gas())
        } else {
            Err(t.halted(InstructionResult::FatalExternalError))
        },
        _ => Err(t.halted(InstructionResult::FatalExternalError)),
    }
}

/// Loads an account, or ends the frame.
fn load_account<H: Host>(
    interpreter: &mut Interpreter,
    host: &mut H,
    address: Address,
    load_code: bool,
    old_cost: u64,
) -> (r: Option<AccountInfoLoad>)
    ensures
        final(interpreter).stack == old(interpreter).stack,
        final(host).env() == old(host).env(),
        r is Some && load_code ==> r->0@.code is Some && r->0@.code->0.wf(),
        match load_account_ask(old(interpreter)@, address, load_code, old_cost as int) {
            HostStep::Done(t) => r is None && final(interpreter)@ == t && *final(host) == *old(
                host,
            ),
            HostStep::Ask(call, t) => exists|reply: HostReply| #[trigger]
                H::replies(old(host), call, reply, final(host)) && (match loaded_account(t, reply) {
                    Ok((u, account)) => r is Some && r->0@ == account && final(interpreter)@ == u,
                    Err(end) => r is None && final(interpreter)@ == end,
                }),
        },
{
    let berlin: bool = interpreter.runtime_flag.spec_id().is_enabled_in(SpecId::BERLIN);
    let cost: u64 = if berlin {
        WARM_STORAGE_READ_COST
    } else {
        old_cost
    };
    if !interpreter.charge(cost) {
        return None;
    }
    let skip_cold_load: bool = berlin && interpreter.gas.remaining()
        < COLD_ACCOUNT_ACCESS_COST_ADDITIONAL;
    match host.load_account_info_skip_cold_load(address, load_code, skip_cold_load) {
        Ok(account) => {
            if berlin && account.is_cold {
                if !interpreter.charge(COLD_ACCOUNT_ACCESS_COST_ADDITIONAL) {
                    return None;
                }
            }
            Some(account)
        },
        Err(LoadError::ColdLoadSkipped) => {
            if berlin {
                interpreter.halt_oog();
            } else {
                interpreter.halt_fatal();
            }
            None
        },
        Err(LoadError::DBError) => {
            interpreter.halt_fatal();
            None
        },
    }
}

/// What `BALANCE` does first.
pub open spec fn balance_ask(s: InterpreterState) -> HostStep {
    if s.stack.len() < 1 {
        HostStep::Done(s.halted(InstructionResult::StackUnderflow))
    } else {
        load_account_ask(
            s,
            address::address_of(s.nth(0)),
            false,
            if s.enabled(SpecId::ISTANBUL) {
                700
            } else if s.enabled(SpecId::TANGERINE) {
                400
            } else {
                20
            },
        )
    }
}

/// What `BALANCE` does with the answer.
pub open spec fn balance_resume(t: InterpreterState, reply: HostReply) -> InterpreterState {
    match loaded_account(t, reply) {
        Err(end) => end,
        Ok((u, account)) => u.replaced(1, account.balance),
    }
}

/// `BALANCE`: the balance of an account.
pub fn balance<H: Host>(context: InstructionContext<'_, H>)
    requires
        old(context.interpreter).ready(),
    ensures
        final(context.interpreter).settled(),
        answered(
            balance_ask(old(context.interpreter)@),
            |t: InterpreterState, reply: HostReply| balance_resume(t, reply),
            old(context.host),
            final(context.interpreter)@,
            final(context.host),
        ),
        final(context.host).env() == old(context.host).env(),
        old(context.interpreter)@.thrifty(final(context.interpreter)@),
{
    let InstructionContext { interpreter, host } = context;
    let sp: usize = interpreter.stack.sp();
    let rem: u64 = interpreter.gas.remaining();
    let (sp, rem) = balance_at(
        InstructionContext { interpreter: &mut *interpreter, host: &mut *host },
        sp,
        rem,
    );
    interpreter.store_at(sp, rem);
}

/// [`balance`], carrying the stack cursor and the gas counter.
pub fn balance_at<H: Host>(context: InstructionContext<'_, H>, sp: usize, rem: u64) -> (r: (
    usize,
    u64,
))
    requires
        old(context.interpreter).ready_at(sp, rem),
    ensures
        final(context.interpreter).settled_at(r.0, r.1),
        answered(
            balance_ask(old(context.interpreter).at(sp, rem)),
            |t: InterpreterState, reply: HostReply| balance_resume(t, reply),
            old(context.host),
            final(context.interpreter).at(r.0, r.1),
            final(context.host),
        ),
        final(context.host).env() == old(context.host).env(),
        old(context.interpreter).at(sp, rem).thrifty(final(context.interpreter).at(r.0, r.1)),
{
    let InstructionContext { interpreter, host } = context;
    if interpreter.stack.shallow_at(sp, 1) {
        return (sp, interpreter.poison(rem, InstructionResult::StackUnderflow));
    }
    interpreter.gas.set_remaining(rem);
    let top = interpreter.stack.peek_at(sp, 0);
    let address = Address::from_word(top);
    let spec_id = interpreter.runtime_flag.spec_id();
    let cost: u64 = if spec_id.is_enabled_in(SpecId::ISTANBUL) {
        700
    } else if spec_id.is_enabled_in(SpecId::TANGERINE) {
        400
    } else {
        20
    };
    let account = match load_account(interpreter, host, address, false, cost) {
        Some(account) => account,
        None => {
            return (sp, u64::MAX);
        },
    };
    let value = account.balance;
    let sp: usize = interpreter.stack.replace_at(sp, 1, value);
    (sp, interpreter.gas.remaining())
}

/// What `SELFBALANCE` does first.
pub open spec fn selfbalance_ask(s: InterpreterState) -> HostStep {
    if !s.enabled(SpecId::ISTANBUL) {
        HostStep::Done(s.halted(InstructionResult::NotActivated))
    } else {
        HostStep::Ask(HostCall::Balance(s.input.target), s)
    }
}

/// What `SELFBALANCE` does with the answer.
pub open spec fn selfbalance_resume(t: InterpreterState, reply: HostReply) -> InterpreterState {
    match reply {
        HostReply::Balance(Some(balance)) => if t.stack.len() >= STACK_LIMIT {
            t.halted(InstructionResult::StackOverflow)
        } else {
            t.pushed(balance.data)
        },
        _ => t.halted(InstructionResult::FatalExternalError),
    }
}

/// `SELFBALANCE`: pushes the balance of the account whose storage is used.
pub fn selfbalance<H: Host>(context: InstructionContext<'_, H>)
    requires
        old(context.interpreter).ready(),
    ensures
        final(context.interpreter).settled(),
        answered(
            selfbalance_ask(old(context.interpreter)@),
            |t: InterpreterState, reply: HostReply| selfbalance_resume(t, reply),
            old(context.host),
            final(context.interpreter)@,
            final(context.host),
        ),
        final(context.host).env() == old(context.host).env(),
        old(context.interpreter)@.steady(final(context.interpreter)@),
{
    let InstructionContext { interpreter, host } = context;
    let sp: usize = interpreter.stack.sp();
    let rem: u64 = interpreter.gas.remaining();
    let (sp, rem) = selfbalance_at(
        InstructionContext { interpreter: &mut *interpreter, host: &mut *host },
        sp,
        rem,
    );
    interpreter.store_at(sp, rem);
}

/// [`selfbalance`], carrying the stack cursor and the gas counter.
pub fn selfbalance_at<H: Host>(context: InstructionContext<'_, H>, sp: usize, rem: u64) -> (r: (
    usize,
    u64,
))
    requires
        old(context.interpreter).ready_at(sp, rem),
    ensures
        final(context.interpreter).settled_at(r.0, r.1),
        answered(
            selfbalance_ask(old(context.interpreter).at(sp, rem)),
            |t: InterpreterState, reply: HostReply| selfbalance_resume(t, reply),
            old(context.host),
            final(context.interpreter).at(r.0, r.1),
            final(context.host),
        ),
        final(context.host).env() == old(context.host).env(),
        old(context.interpreter).at(sp, rem).steady(final(context.interpreter).at(r.0, r.1)),
{
    let InstructionContext { interpreter, host } = context;
    if !interpreter.runtime_flag.spec_id().is_enabled_in(SpecId::ISTANBUL) {
        return (sp, interpreter.poison(rem, InstructionResult::NotActivated));
    }
    let balance = match host.balance(interpreter.input.target_address()) {
        Some(balance) => balance,
        None => {
            return (sp, interpreter.poison(rem, InstructionResult::FatalExternalError));
        },
    };
    if interpreter.stack.full_at(sp) {
        return (sp, interpreter.poison(rem, InstructionResult::StackOverflow));
    }
    interpreter.stack.push_at(sp, balance.data);
    (sp.wrapping_add(WORD), rem)
}

/// What `EXTCODESIZE` does first.
pub open spec fn extcodesize_ask(s: InterpreterState) -> HostStep {
    if s.stack.len() < 1 {
        HostStep::Done(s.halted(InstructionResult::StackUnderflow))
    } else {
        load_account_ask(
            s,
            address::address_of(s.nth(0)),
            true,
            if s.enabled(SpecId::TANGERINE) {
                700
            } else {
                20
            },
        )
    }
}

/// What `EXTCODESIZE` does with the answer.
pub open spec fn extcodesize_resume(t: InterpreterState, reply: HostReply) -> InterpreterState {
    match loaded_account(t, reply) {
        Err(end) => end,
        Ok((u, account)) => u.replaced(
            1,
            u256::word(account.code->0.original().len() as int),
        ),
    }
}

/// `EXTCODESIZE`: the length of an account's code.
pub fn extcodesize<H: Host>(context: InstructionContext<'_, H>)
    requires
        old(context.interpreter).ready(),
    ensures
        final(context.interpreter).settled(),
        answered(
            extcodesize_ask(old(context.interpreter)@),
            |t: InterpreterState, reply: HostReply| extcodesize_resume(t, reply),
            old(context.host),
            final(context.interpreter)@,
            final(context.host),
        ),
        final(context.host).env() == old(context.host).env(),
        old(context.interpreter)@.thrifty(final(context.interpreter)@),
{
    let InstructionContext { interpreter, host } = context;
    let sp: usize = interpreter.stack.sp();
    let rem: u64 = interpreter.gas.remaining();
    let (sp, rem) = extcodesize_at(
        InstructionContext { interpreter: &mut *interpreter, host: &mut *host },
        sp,
        rem,
    );
    interpreter.store_at(sp, rem);
}

/// [`extcodesize`], carrying the stack cursor and the gas counter.
pub fn extcodesize_at<H: Host>(context: InstructionContext<'_, H>, sp: usize, rem: u64) -> (r: (
    usize,
    u64,
))
    requires
        old(context.interpreter).ready_at(sp, rem),
    ensures
        final(context.interpreter).settled_at(r.0, r.1),
        answered(
            extcodesize_ask(old(context.interpreter).at(sp, rem)),
            |t: InterpreterState, reply: HostReply| extcodesize_resume(t, reply),
            old(context.host),
            final(context.interpreter).at(r.0, r.1),
            final(context.host),
        ),
        final(context.host).env() == old(context.host).env(),
        old(context.interpreter).at(sp, rem).thrifty(final(context.interpreter).at(r.0, r.1)),
{
    let InstructionContext { interpreter, host } = context;
    if interpreter.stack.shallow_at(sp, 1) {
        return (sp, interpreter.poison(rem, InstructionResult::StackUnderflow));
    }
    interpreter.gas.set_remaining(rem);
    let top = interpreter.stack.peek_at(sp, 0);
    let address = Address::from_word(top);
    let spec_id = interpreter.runtime_flag.spec_id();
    let cost: u64 = if spec_id.is_enabled_in(SpecId::TANGERINE) {
        700
    } else {
        20
    };
    let account = match load_account(interpreter, host, address, true, cost) {
        Some(account) => account,
        None => {
            return (sp, u64::MAX);
        },
    };
    let value = U256::from_u64(account.code.as_ref().unwrap().len() as u64);
    let sp: usize = interpreter.stack.replace_at(sp, 1, value);
    (sp, interpreter.gas.remaining())
}

/// What `EXTCODEHASH` does first.
pub open spec fn extcodehash_ask(s: InterpreterState) -> HostStep {
    if !s.enabled(SpecId::CONSTANTINOPLE) {
        HostStep::Done(s.halted(InstructionResult::NotActivated))
    } else if s.stack.len() < 1 {
        HostStep::Done(s.halted(InstructionResult::StackUnderflow))
    } else {
        load_account_ask(
            s,
            address::address_of(s.nth(0)),
            true,
            if s.enabled(SpecId::ISTANBUL) {
                700
            } else {
                400
            },
        )
    }
}

/// What `EXTCODEHASH` does with the answer. An empty account has no hash.
pub open spec fn extcodehash_resume(t: InterpreterState, reply: HostReply) -> InterpreterState {
    match loaded_account(t, reply) {
        Err(end) => end,
        Ok((u, account)) => u.replaced(
            1,
            if account.empty() {
                u256::word(0)
            } else {
                account.code_hash.word
            },
        ),
    }
}

/// `EXTCODEHASH`: the hash of an account's code.
pub fn extcodehash<H: Host>(context: InstructionContext<'_, H>)
    requires
        old(context.interpreter).ready(),
    ensures
        final(context.interpreter).settled(),
        answered(
            extcodehash_ask(old(context.interpreter)@),
            |t: InterpreterState, reply: HostReply| extcodehash_resume(t, reply),
            old(context.host),
            final(context.interpreter)@,
            final(context.host),
        ),
        final(context.host).env() == old(context.host).env(),
        old(context.interpreter)@.thrifty(final(context.interpreter)@),
{
    let InstructionContext { interpreter, host } = context;
    let sp: usize = interpreter.stack.sp();
    let rem: u64 = interpreter.gas.remaining();
    let (sp, rem) = extcodehash_at(
        InstructionContext { interpreter: &mut *interpreter, host: &mut *host },
        sp,
        rem,
    );
    interpreter.store_at(sp, rem);
}

/// [`extcodehash`], carrying the stack cursor and the gas counter.
pub fn extcodehash_at<H: Host>(context: InstructionContext<'_, H>, sp: usize, rem: u64) -> (r: (
    usize,
    u64,
))
    requires
        old(context.interpreter).ready_at(sp, rem),
    ensures
        final(context.interpreter).settled_at(r.0, r.1),
        answered(
            extcodehash_ask(old(context.interpreter).at(sp, rem)),
            |t: InterpreterState, reply: HostReply| extcodehash_resume(t, reply),
            old(context.host),
            final(context.interpreter).at(r.0, r.1),
            final(context.host),
        ),
        final(context.host).env() == old(context.host).env(),
        old(context.interpreter).at(sp, rem).thrifty(final(context.interpreter).at(r.0, r.1)),
{
    let InstructionContext { interpreter, host } = context;
    if !interpreter.runtime_flag.spec_id().is_enabled_in(SpecId::CONSTANTINOPLE) {
        return (sp, interpreter.poison(rem, InstructionResult::NotActivated));
    }
    if interpreter.stack.shallow_at(sp, 1) {
        return (sp, interpreter.poison(rem, InstructionResult::StackUnderflow));
    }
    interpreter.gas.set_remaining(rem);
    let top = interpreter.stack.peek_at(sp, 0);
    let address = Address::from_word(top);
    let spec_id = interpreter.runtime_flag.spec_id();
    let cost: u64 = if spec_id.is_enabled_in(SpecId::ISTANBUL) {
        700
    } else {
        400
    };
    let account = match load_account(interpreter, host, address, true, cost) {
        Some(account) => account,
        None => {
            return (sp, u64::MAX);
        },
    };
    let value = if account.is_empty() {
        U256::zero()
    } else {
        account.code_hash.into_u256()
    };
    let sp: usize = interpreter.stack.replace_at(sp, 1, value);
    (sp, interpreter.gas.remaining())
}

/// Paying for the copy of `EXTCODECOPY` and making room for it; an empty copy needs no room.
#[verifier::opaque]
pub open spec fn extcode_room(s: InterpreterState, memory_offset: U256, len: int) -> Result<
    InterpreterState,
    InterpreterState,
> {
    match s.charged(crate::gas::calc::spec_copy_cost(0, len)) {
        Err(halted) => Err(halted),
        Ok(t) => if len == 0 {
            Ok(t)
        } else {
            match memory_offset.spec_usize() {
                None => Err(t.halted(InstructionResult::InvalidOperandOOG)),
                Some(offset) => t.roomy(offset as int, len),
            }
        },
    }
}

/// What `EXTCODECOPY` does first: it pays for the copy and makes room before it asks.
pub open spec fn extcodecopy_ask(s: InterpreterState) -> HostStep {
    if s.stack.len() < 4 {
        HostStep::Done(s.halted(InstructionResult::StackUnderflow))
    } else {
        let t = s.popped(4);
        match s.nth(3).spec_usize() {
            None => HostStep::Done(t.halted(InstructionResult::InvalidOperandOOG)),
            Some(len) => match extcode_room(t, s.nth(1), len as int) {
                Err(halted) => HostStep::Done(halted),
                Ok(u) => extcode_ask(u, address::address_of(s.nth(0))),
            },
        }
    }
}

/// How `EXTCODECOPY` asks.
#[verifier::opaque]
pub open spec fn extcode_ask(s: InterpreterState, address: Address) -> HostStep {
    if s.enabled(SpecId::BERLIN) {
        load_account_ask(s, address, true, 0)
    } else {
        match s.charged(
            if s.enabled(SpecId::TANGERINE) {
                700
            } else {
                20
            },
        ) {
            Err(halted) => HostStep::Done(halted),
            Ok(t) => HostStep::Ask(HostCall::Code(address), t),
        }
    }
}

/// The code that was loaded and the state to go on with, or the state in which the frame has
/// ended.
#[verifier::opaque]
pub open spec fn loaded_code(t: InterpreterState, reply: HostReply) -> Result<
    (InterpreterState, Seq<u8>),
    InterpreterState,
> {
    if t.enabled(SpecId::BERLIN) {
        match loaded_account(t, reply) {
            Err(end) => Err(end),
            Ok((u, account)) => Ok((u, account.code->0.original())),
        }
    } else {
        match reply {
            HostReply::Code(Some(code)) => Ok((t, code)),
            _ => Err(t.halted(InstructionResult::FatalExternalError)),
        }
    }
}

/// What `EXTCODECOPY` does with the answer.
pub open spec fn extcodecopy_resume(
    s: InterpreterState,
    t: InterpreterState,
    reply: HostReply,
) -> InterpreterState {
    match loaded_code(t, reply) {
        Err(end) => end,
        Ok((u, code)) => extcode_written(s, u, code),
    }
}

/// Pays for the copy of `EXTCODECOPY` and makes room for it. Hands back the offset, which is
/// zero for an empty copy, or nothing if the frame has ended.
fn make_extcode_room(interpreter: &mut Interpreter, memory_offset: U256, len: usize) -> (r: Option<
    usize,
>)
    requires
        old(interpreter).ready(),
    ensures
        final(interpreter).settled(),
        final(interpreter).stack == old(interpreter).stack,
        old(interpreter)@.steady(final(interpreter)@),
        match extcode_room(old(interpreter)@, memory_offset, len as int) {
            Ok(t) => {
                &&& r is Some
                &&& final(interpreter)@ == t
                &&& t.running()
                &&& len != 0 ==> r->0 == memory_offset.val() && r->0 + len <= t.memory.size()
            },
            Err(t) => r is None && final(interpreter)@ == t && !t.running(),
        },
{
    proof {
        reveal(extcode_room);
    }
    if !interpreter.charge_or_fail(copy_cost(0, len)) {
        return None;
    }
    if len == 0 {
        return Some(0);
    }
    let to: usize = match memory_offset.try_usize() {
        Some(to) => to,
        None => {
            interpreter.halt(InstructionResult::InvalidOperandOOG);
            return None;
        },
    };
    if !interpreter.make_room(to, len) {
        return None;
    }
    Some(to)
}

/// Loads the code of an account, or ends the frame.
fn load_code<H: Host>(interpreter: &mut Interpreter, host: &mut H, address: Address) -> (r: Option<
    Vec<u8>,
>)
    requires
        old(interpreter).ready(),
    ensures
        final(interpreter).settled(),
        old(interpreter)@.thrifty(final(interpreter)@),
        r is Some ==> final(interpreter)@.running() && final(interpreter)@.memory == old(
            interpreter,
        )@.memory,
        final(interpreter).stack == old(interpreter).stack,
        final(host).env() == old(host).env(),
        match extcode_ask(old(interpreter)@, address) {
            HostStep::Done(t) => r is None && final(interpreter)@ == t && *final(host) == *old(
                host,
            ),
            HostStep::Ask(call, t) => exists|reply: HostReply| #[trigger]
                H::replies(old(host), call, reply, final(host)) && (match loaded_code(t, reply) {
                    Ok((u, code)) => r is Some && r->0@ == code && final(interpreter)@ == u,
                    Err(end) => r is None && final(interpreter)@ == end,
                }),
        },
{
    proof {
        reveal(extcode_ask);
        reveal(loaded_code);
    }
    let spec_id = interpreter.runtime_flag.spec_id();
    if spec_id.is_enabled_in(SpecId::BERLIN) {
        match load_account(interpreter, host, address, true, 0) {
            Some(account) => Some(
                slice_to_vec(account.code.as_ref().unwrap().original_byte_slice()),
            ),
            None => None,
        }
    } else {
        let cost: u64 = if spec_id.is_enabled_in(SpecId::TANGERINE) {
            700
        } else {
            20
        };
        if !interpreter.charge(cost) {
            return None;
        }
        match host.load_account_code(address) {
            Some(code) => Some(code),
            None => {
                interpreter.halt_fatal();
                None
            },
        }
    }
}

/// The copy itself. Nothing is written for an empty one.
pub open spec fn extcode_written(s: InterpreterState, t: InterpreterState, code: Seq<u8>) -> InterpreterState {
    let len = s.nth(3).val();
    let from = if system::saturated(s.nth(2)) < code.len() {
        system::saturated(s.nth(2))
    } else {
        code.len() as int
    };
    if len == 0 {
        t
    } else {
        t.with_memory(
            t.memory.written(
                s.nth(1).val(),
                shared_memory::padded_slice(code, from, len as nat),
            ),
        )
    }
}

/// `EXTCODECOPY`: copies an account's code to memory.
pub fn extcodecopy<H: Host>(context: InstructionContext<'_, H>)
    requires
        old(context.interpreter).ready(),
    ensures
        final(context.interpreter).settled(),
        answered(
            extcodecopy_ask(old(context.interpreter)@),
            |t: InterpreterState, reply: HostReply| extcodecopy_resume(
                old(context.interpreter)@,
                t,
                reply,
            ),
            old(context.host),
            final(context.interpreter)@,
            final(context.host),
        ),
        old(context.interpreter)@.thrifty(final(context.interpreter)@),
        final(context.host).env() == old(context.host).env(),
{
    let InstructionContext { interpreter, host } = context;
    let ghost s = interpreter@;
    if interpreter.stack.len() < 4 {
        interpreter.halt_underflow();
        return;
    }
    let address = interpreter.stack.pop_unsafe();
    let memory_offset = interpreter.stack.pop_unsafe();
    let code_offset = interpreter.stack.pop_unsafe();
    let len_word = interpreter.stack.pop_unsafe();
    assert(interpreter.stack@ =~= stack::dropped(s.stack, 4));
    let address = Address::from_word(address);
    let len: usize = match len_word.try_usize() {
        Some(len) => len,
        None => {
            interpreter.halt(InstructionResult::InvalidOperandOOG);
            return;
        },
    };
    let to: usize = match make_extcode_room(interpreter, memory_offset, len) {
        Some(to) => to,
        None => {
            return;
        },
    };
    let code: Vec<u8> = match load_code(interpreter, host, address) {
        Some(code) => code,
        None => {
            return;
        },
    };
    let code_offset: usize = code_offset.as_usize_saturated();
    let from: usize = if code_offset < code.len() {
        code_offset
    } else {
        code.len()
    };
    if len != 0 {
        interpreter.memory.set_data(to, from, len, code.as_slice());
    }
}

/// What `BLOCKHASH` does first. Only the last blocks have a hash, not the current one.
pub open spec fn blockhash_ask(s: InterpreterState, env: EnvState) -> HostStep {
    if s.stack.len() < 1 {
        HostStep::Done(s.halted(InstructionResult::StackUnderflow))
    } else {
        let diff = env.block_number.val() - s.nth(0).val();
        if 1 <= diff <= BLOCK_HASH_HISTORY {
            HostStep::Ask(
                HostCall::BlockHash(
                    if s.nth(0).val() <= u64::MAX {
                        s.nth(0).val() as u64
                    } else {
                        u64::MAX
                    },
                ),
                s,
            )
        } else {
            HostStep::Done(s.replaced(1, u256::word(0)))
        }
    }
}

/// What `BLOCKHASH` does with the answer.
pub open spec fn blockhash_resume(t: InterpreterState, reply: HostReply) -> InterpreterState {
    match reply {
        HostReply::Hash(Some(hash)) => t.replaced(1, hash.word),
        _ => t.halted(InstructionResult::FatalExternalError),
    }
}

/// `BLOCKHASH`: the hash of one of the last blocks.
pub fn blockhash<H: Host>(context: InstructionContext<'_, H>)
    requires
        old(context.interpreter).ready(),
    ensures
        final(context.interpreter).settled(),
        answered(
            blockhash_ask(old(context.interpreter)@, old(context.host).env()),
            |t: InterpreterState, reply: HostReply| blockhash_resume(t, reply),
            old(context.host),
            final(context.interpreter)@,
            final(context.host),
        ),
        final(context.host).env() == old(context.host).env(),
        old(context.interpreter)@.steady(final(context.interpreter)@),
{
    let InstructionContext { interpreter, host } = context;
    let sp: usize = interpreter.stack.sp();
    let rem: u64 = interpreter.gas.remaining();
    let (sp, rem) = blockhash_at(
        InstructionContext { interpreter: &mut *interpreter, host: &mut *host },
        sp,
        rem,
    );
    interpreter.store_at(sp, rem);
}

/// [`blockhash`], carrying the stack cursor and the gas counter.
pub fn blockhash_at<H: Host>(context: InstructionContext<'_, H>, sp: usize, rem: u64) -> (r: (
    usize,
    u64,
))
    requires
        old(context.interpreter).ready_at(sp, rem),
    ensures
        final(context.interpreter).settled_at(r.0, r.1),
        answered(
            blockhash_ask(old(context.interpreter).at(sp, rem), old(context.host).env()),
            |t: InterpreterState, reply: HostReply| blockhash_resume(t, reply),
            old(context.host),
            final(context.interpreter).at(r.0, r.1),
            final(context.host),
        ),
        final(context.host).env() == old(context.host).env(),
        old(context.interpreter).at(sp, rem).steady(final(context.interpreter).at(r.0, r.1)),
{
    let InstructionContext { interpreter, host } = context;
    if interpreter.stack.shallow_at(sp, 1) {
        return (sp, interpreter.poison(rem, InstructionResult::StackUnderflow));
    }
    let requested_number = interpreter.stack.peek_at(sp, 0);
    let block_number = host.block_number();
    let diff = match block_number.checked_sub(requested_number) {
        Some(diff) => diff,
        None => {
            return (interpreter.stack.replace_at(sp, 1, U256::zero()), rem);
        },
    };
    proof {
        u256::lemma_val_bounds(block_number);
        u256::lemma_val_bounds(requested_number);
        u256::lemma_val_of_word(block_number.val() - requested_number.val());
        vstd::arithmetic::div_mod::lemma_small_mod(
            (block_number.val() - requested_number.val()) as nat,
            u256::word_count() as nat,
        );
    }
    let diff: u64 = diff.as_u64_saturated();
    if diff == 0 {
        return (interpreter.stack.replace_at(sp, 1, U256::zero()), rem);
    }
    let value = if diff <= BLOCK_HASH_HISTORY {
        match host.block_hash(requested_number.as_u64_saturated()) {
            Some(hash) => hash.into_u256(),
            None => {
                return (sp, interpreter.poison(rem, InstructionResult::FatalExternalError));
            },
        }
    } else {
        U256::zero()
    };
    let sp: usize = interpreter.stack.replace_at(sp, 1, value);
    (sp, rem)
}

/// What `SLOAD` costs before it is known whether the slot is cold.
pub open spec fn sload_cost(spec_id: SpecId) -> int {
    if spec_id.enabled(SpecId::BERLIN) {
        WARM_STORAGE_READ_COST as int
    } else if spec_id.enabled(SpecId::ISTANBUL) {
        ISTANBUL_SLOAD_GAS as int
    } else if spec_id.enabled(SpecId::TANGERINE) {
        200
    } else {
        50
    }
}

/// What `SLOAD` does first.
pub open spec fn sload_ask(s: InterpreterState) -> HostStep {
    if s.stack.len() < 1 {
        HostStep::Done(s.halted(InstructionResult::StackUnderflow))
    } else {
        match s.charged(sload_cost(s.flags.spec_id)) {
            Err(halted) => HostStep::Done(halted),
            Ok(t) => HostStep::Ask(
                if s.enabled(SpecId::BERLIN) {
                    HostCall::SLoadSkipCold(
                        s.input.target,
                        s.nth(0),
                        t.gas.remaining < COLD_SLOAD_COST_ADDITIONAL,
                    )
                } else {
                    HostCall::SLoad(s.input.target, s.nth(0))
                },
                t,
            ),
        }
    }
}

/// What `SLOAD` does with the answer.
pub open spec fn sload_resume(t: InterpreterState, reply: HostReply) -> InterpreterState {
    match reply {
        HostReply::Slot(Ok(storage)) => if storage.is_cold {
            match t.charged(COLD_SLOAD_COST_ADDITIONAL as int) {
                Err(halted) => halted,
                Ok(u) => u.replaced(1, storage.data),
            }
        } else {
            t.replaced(1, storage.data)
        },
        HostReply::Slot(Err(LoadError::ColdLoadSkipped)) => t.out_of_gas(),
        HostReply::SlotOr(Some(storage)) => t.replaced(1, storage.data),
        _ => t.halted(InstructionResult::FatalExternalError),
    }
}

/// `SLOAD`: reads a storage slot.
pub fn sload<H: Host>(context: InstructionContext<'_, H>)
    requires
        old(context.interpreter).ready(),
    ensures
        final(context.interpreter).settled(),
        answered(
            sload_ask(old(context.interpreter)@),
            |t: InterpreterState, reply: HostReply| sload_resume(t, reply),
            old(context.host),
            final(context.interpreter)@,
            final(context.host),
        ),
        final(context.host).env() == old(context.host).env(),
        old(context.interpreter)@.thrifty(final(context.interpreter)@),
{
    let InstructionContext { interpreter, host } = context;
    let sp: usize = interpreter.stack.sp();
    let rem: u64 = interpreter.gas.remaining();
    let (sp, rem) = sload_at(
        InstructionContext { interpreter: &mut *interpreter, host: &mut *host },
        sp,
        rem,
    );
    interpreter.store_at(sp, rem);
}

/// [`sload`], carrying the stack cursor and the gas counter.
pub fn sload_at<H: Host>(context: InstructionContext<'_, H>, sp: usize, rem: u64) -> (r: (
    usize,
    u64,
))
    requires
        old(context.interpreter).ready_at(sp, rem),
    ensures
        final(context.interpreter).settled_at(r.0, r.1),
        answered(
            sload_ask(old(context.interpreter).at(sp, rem)),
            |t: InterpreterState, reply: HostReply| sload_resume(t, reply),
            old(context.host),
            final(context.interpreter).at(r.0, r.1),
            final(context.host),
        ),
        final(context.host).env() == old(context.host).env(),
        old(context.interpreter).at(sp, rem).thrifty(final(context.interpreter).at(r.0, r.1)),
{
    let InstructionContext { interpreter, host } = context;
    if interpreter.stack.shallow_at(sp, 1) {
        return (sp, interpreter.poison(rem, InstructionResult::StackUnderflow));
    }
    interpreter.gas.set_remaining(rem);
    let index = interpreter.stack.peek_at(sp, 0);
    let spec_id = interpreter.runtime_flag.spec_id();
    let target = interpreter.input.target_address();
    let cost: u64 = if spec_id.is_enabled_in(SpecId::BERLIN) {
        WARM_STORAGE_READ_COST
    } else if spec_id.is_enabled_in(SpecId::ISTANBUL) {
        ISTANBUL_SLOAD_GAS
    } else if spec_id.is_enabled_in(SpecId::TANGERINE) {
        200
    } else {
        50
    };
    if !interpreter.charge(cost) {
        return (sp, u64::MAX);
    }
    let value = if spec_id.is_enabled_in(SpecId::BERLIN) {
        let skip_cold: bool = interpreter.gas.remaining() < COLD_SLOAD_COST_ADDITIONAL;
        match host.sload_skip_cold_load(target, index, skip_cold) {
            Ok(storage) => {
                if storage.is_cold {
                    if !interpreter.charge(COLD_SLOAD_COST_ADDITIONAL) {
                        return (sp, u64::MAX);
                    }
                }
                storage.data
            },
            Err(LoadError::ColdLoadSkipped) => {
                interpreter.halt_oog();
                return (sp, u64::MAX);
            },
            Err(LoadError::DBError) => {
                interpreter.halt_fatal();
                return (sp, u64::MAX);
            },
        }
    } else {
        match host.sload(target, index) {
            Some(storage) => storage.data,
            None => {
                interpreter.halt_fatal();
                return (sp, u64::MAX);
            },
        }
    };
    let sp: usize = interpreter.stack.replace_at(sp, 1, value);
    (sp, interpreter.gas.remaining())
}

/// What `SSTORE` does first. From EIP-1706 on it needs more gas than the stipend of a call.
pub open spec fn sstore_ask(s: InterpreterState) -> HostStep {
    if s.flags.is_static {
        HostStep::Done(s.halted(InstructionResult::StateChangeDuringStaticCall))
    } else if s.stack.len() < 2 {
        HostStep::Done(s.halted(InstructionResult::StackUnderflow))
    } else {
        let t = s.popped(2);
        if s.enabled(SpecId::ISTANBUL) && s.gas.remaining <= CALL_STIPEND {
            HostStep::Done(t.halted(InstructionResult::ReentrancySentryOOG))
        } else {
            match t.charged(
                crate::gas::calc::spec_sstore_spec(s.flags.spec_id).static_cost as int,
            ) {
                Err(halted) => HostStep::Done(halted),
                Ok(u) => HostStep::Ask(
                    if s.enabled(SpecId::BERLIN) {
                        HostCall::SStoreSkipCold(
                            s.input.target,
                            s.nth(0),
                            s.nth(1),
                            u.gas.remaining < COLD_SLOAD_COST_ADDITIONAL,
                        )
                    } else {
                        HostCall::SStore(s.input.target, s.nth(0), s.nth(1))
                    },
                    u,
                ),
            }
        }
    }
}

/// The dynamic gas and the refund of a write.
pub open spec fn sstore_charged(t: InterpreterState, load: StateLoad<SStoreResult>) -> InterpreterState {
    let entry = crate::gas::calc::spec_sstore_entry(
        t.flags.spec_id,
        crate::gas::calc::spec_sstore_status(load.data),
    );
    let cold = if load.is_cold {
        crate::gas::calc::spec_sstore_spec(t.flags.spec_id).cold_extra as int
    } else {
        0
    };
    match t.charged(entry.dyn_cost + cold) {
        Err(halted) => halted,
        Ok(u) => InterpreterState {
            gas: GasState { refunded: u.gas.refunded.wrapping_add(entry.refund), ..u.gas },
            ..u
        },
    }
}

/// What `SSTORE` does with the answer.
pub open spec fn sstore_resume(t: InterpreterState, reply: HostReply) -> InterpreterState {
    match reply {
        HostReply::Write(Ok(load)) => sstore_charged(t, load),
        HostReply::Write(Err(LoadError::ColdLoadSkipped)) => t.out_of_gas(),
        HostReply::WriteOr(Some(load)) => sstore_charged(t, load),
        _ => t.halted(InstructionResult::FatalExternalError),
    }
}

/// `SSTORE`: writes a storage slot.
pub fn sstore<H: Host>(context: InstructionContext<'_, H>)
    requires
        old(context.interpreter).ready(),
    ensures
        final(context.interpreter).settled(),
        answered(
            sstore_ask(old(context.interpreter)@),
            |t: InterpreterState, reply: HostReply| sstore_resume(t, reply),
            old(context.host),
            final(context.interpreter)@,
            final(context.host),
        ),
        final(context.host).env() == old(context.host).env(),
        old(context.interpreter)@.thrifty(final(context.interpreter)@),
{
    let InstructionContext { interpreter, host } = context;
    let sp: usize = interpreter.stack.sp();
    let rem: u64 = interpreter.gas.remaining();
    let (sp, rem) = sstore_at(
        InstructionContext { interpreter: &mut *interpreter, host: &mut *host },
        sp,
        rem,
    );
    interpreter.store_at(sp, rem);
}

/// [`sstore`], carrying the stack cursor and the gas counter.
#[verifier::rlimit(30)]
pub fn sstore_at<H: Host>(context: InstructionContext<'_, H>, sp: usize, rem: u64) -> (r: (
    usize,
    u64,
))
    requires
        old(context.interpreter).ready_at(sp, rem),
    ensures
        final(context.interpreter).settled_at(r.0, r.1),
        answered(
            sstore_ask(old(context.interpreter).at(sp, rem)),
            |t: InterpreterState, reply: HostReply| sstore_resume(t, reply),
            old(context.host),
            final(context.interpreter).at(r.0, r.1),
            final(context.host),
        ),
        final(context.host).env() == old(context.host).env(),
        old(context.interpreter).at(sp, rem).thrifty(final(context.interpreter).at(r.0, r.1)),
{
    let InstructionContext { interpreter, host } = context;
    if interpreter.runtime_flag.is_static() {
        return (sp, interpreter.poison(rem, InstructionResult::StateChangeDuringStaticCall));
    }
    if interpreter.stack.shallow_at(sp, 2) {
        return (sp, interpreter.poison(rem, InstructionResult::StackUnderflow));
    }
    let index = interpreter.stack.peek_at(sp, 0);
    let value = interpreter.stack.peek_at(sp, 1);
    let sp: usize = interpreter.stack.drop_at(sp, 2);
    interpreter.gas.set_remaining(rem);
    let target = interpreter.input.target_address();
    let spec_id = interpreter.runtime_flag.spec_id();
    if spec_id.is_enabled_in(SpecId::ISTANBUL) && interpreter.gas.remaining() <= CALL_STIPEND {
        interpreter.halt(InstructionResult::ReentrancySentryOOG);
        return (sp, u64::MAX);
    }
    let spec_row = sstore_spec(spec_id);
    if !interpreter.charge(spec_row.static_cost) {
        return (sp, u64::MAX);
    }
    let state_load = if spec_id.is_enabled_in(SpecId::BERLIN) {
        let skip_cold: bool = interpreter.gas.remaining() < COLD_SLOAD_COST_ADDITIONAL;
        match host.sstore_skip_cold_load(target, index, value, skip_cold) {
            Ok(load) => load,
            Err(LoadError::ColdLoadSkipped) => {
                interpreter.halt_oog();
                return (sp, u64::MAX);
            },
            Err(LoadError::DBError) => {
                interpreter.halt_fatal();
                return (sp, u64::MAX);
            },
        }
    } else {
        match host.sstore(target, index, value) {
            Some(load) => load,
            None => {
                interpreter.halt_fatal();
                return (sp, u64::MAX);
            },
        }
    };
    let entry = sstore_entry(spec_id, sstore_status(&state_load.data));
    let mut dynamic_gas: u64 = entry.dyn_cost;
    if state_load.is_cold {
        dynamic_gas = dynamic_gas + spec_row.cold_extra;
    }
    if !interpreter.charge(dynamic_gas) {
        return (sp, u64::MAX);
    }
    interpreter.gas.record_refund(entry.refund);
    (sp, interpreter.gas.remaining())
}

/// What `TSTORE` does first.
pub open spec fn tstore_ask(s: InterpreterState) -> HostStep {
    if !s.enabled(SpecId::CANCUN) {
        HostStep::Done(s.halted(InstructionResult::NotActivated))
    } else if s.flags.is_static {
        HostStep::Done(s.halted(InstructionResult::StateChangeDuringStaticCall))
    } else if s.stack.len() < 2 {
        HostStep::Done(s.halted(InstructionResult::StackUnderflow))
    } else {
        HostStep::Ask(HostCall::TStore(s.input.target, s.nth(0), s.nth(1)), s.popped(2))
    }
}

/// `TSTORE`: writes a transient slot.
pub fn tstore<H: Host>(context: InstructionContext<'_, H>)
    requires
        old(context.interpreter).ready(),
    ensures
        final(context.interpreter).settled(),
        answered(
            tstore_ask(old(context.interpreter)@),
            |t: InterpreterState, reply: HostReply| t,
            old(context.host),
            final(context.interpreter)@,
            final(context.host),
        ),
        final(context.host).env() == old(context.host).env(),
        old(context.interpreter)@.steady(final(context.interpreter)@),
{
    let InstructionContext { interpreter, host } = context;
    let sp: usize = interpreter.stack.sp();
    let rem: u64 = interpreter.gas.remaining();
    let (sp, rem) = tstore_at(
        InstructionContext { interpreter: &mut *interpreter, host: &mut *host },
        sp,
        rem,
    );
    interpreter.store_at(sp, rem);
}

/// [`tstore`], carrying the stack cursor and the gas counter.
pub fn tstore_at<H: Host>(context: InstructionContext<'_, H>, sp: usize, rem: u64) -> (r: (
    usize,
    u64,
))
    requires
        old(context.interpreter).ready_at(sp, rem),
    ensures
        final(context.interpreter).settled_at(r.0, r.1),
        answered(
            tstore_ask(old(context.interpreter).at(sp, rem)),
            |t: InterpreterState, reply: HostReply| t,
            old(context.host),
            final(context.interpreter).at(r.0, r.1),
            final(context.host),
        ),
        final(context.host).env() == old(context.host).env(),
        old(context.interpreter).at(sp, rem).steady(final(context.interpreter).at(r.0, r.1)),
{
    let InstructionContext { interpreter, host } = context;
    if !interpreter.runtime_flag.spec_id().is_enabled_in(SpecId::CANCUN) {
        return (sp, interpreter.poison(rem, InstructionResult::NotActivated));
    }
    if interpreter.runtime_flag.is_static() {
        return (sp, interpreter.poison(rem, InstructionResult::StateChangeDuringStaticCall));
    }
    if interpreter.stack.shallow_at(sp, 2) {
        return (sp, interpreter.poison(rem, InstructionResult::StackUnderflow));
    }
    let index = interpreter.stack.peek_at(sp, 0);
    let value = interpreter.stack.peek_at(sp, 1);
    let sp: usize = interpreter.stack.drop_at(sp, 2);
    host.tstore(interpreter.input.target_address(), index, value);
    (sp, rem)
}

/// What `TLOAD` does first.
pub open spec fn tload_ask(s: InterpreterState) -> HostStep {
    if !s.enabled(SpecId::CANCUN) {
        HostStep::Done(s.halted(InstructionResult::NotActivated))
    } else if s.stack.len() < 1 {
        HostStep::Done(s.halted(InstructionResult::StackUnderflow))
    } else {
        HostStep::Ask(HostCall::TLoad(s.input.target, s.nth(0)), s)
    }
}

/// What `TLOAD` does with the answer.
pub open spec fn tload_resume(t: InterpreterState, reply: HostReply) -> InterpreterState {
    match reply {
        HostReply::Word(value) => t.replaced(1, value),
        _ => t,
    }
}

/// `TLOAD`: reads a transient slot.
pub fn tload<H: Host>(context: InstructionContext<'_, H>)
    requires
        old(context.interpreter).ready(),
    ensures
        final(context.interpreter).settled(),
        answered(
            tload_ask(old(context.interpreter)@),
            |t: InterpreterState, reply: HostReply| tload_resume(t, reply),
            old(context.host),
            final(context.interpreter)@,
            final(context.host),
        ),
        final(context.host).env() == old(context.host).env(),
        old(context.interpreter)@.steady(final(context.interpreter)@),
{
    let InstructionContext { interpreter, host } = context;
    let sp: usize = interpreter.stack.sp();
    let rem: u64 = interpreter.gas.remaining();
    let (sp, rem) = tload_at(
        InstructionContext { interpreter: &mut *interpreter, host: &mut *host },
        sp,
        rem,
    );
    interpreter.store_at(sp, rem);
}

/// [`tload`], carrying the stack cursor and the gas counter.
pub fn tload_at<H: Host>(context: InstructionContext<'_, H>, sp: usize, rem: u64) -> (r: (
    usize,
    u64,
))
    requires
        old(context.interpreter).ready_at(sp, rem),
    ensures
        final(context.interpreter).settled_at(r.0, r.1),
        answered(
            tload_ask(old(context.interpreter).at(sp, rem)),
            |t: InterpreterState, reply: HostReply| tload_resume(t, reply),
            old(context.host),
            final(context.interpreter).at(r.0, r.1),
            final(context.host),
        ),
        final(context.host).env() == old(context.host).env(),
        old(context.interpreter).at(sp, rem).steady(final(context.interpreter).at(r.0, r.1)),
{
    let InstructionContext { interpreter, host } = context;
    if !interpreter.runtime_flag.spec_id().is_enabled_in(SpecId::CANCUN) {
        return (sp, interpreter.poison(rem, InstructionResult::NotActivated));
    }
    if interpreter.stack.shallow_at(sp, 1) {
        return (sp, interpreter.poison(rem, InstructionResult::StackUnderflow));
    }
    let index = interpreter.stack.peek_at(sp, 0);
    let value = host.tload(interpreter.input.target_address(), index);
    let sp: usize = interpreter.stack.replace_at(sp, 1, value);
    (sp, rem)
}

/// The topmost `n` words as topics, the topmost one first.
pub open spec fn topics_of(s: InterpreterState, n: int) -> Seq<B256> {
    Seq::new(n as nat, |i: int| B256 { word: s.nth(i) })
}

/// What `LOG0` to `LOG4` do once the data is read.
pub open spec fn log_record(s: InterpreterState, n: int, data: Seq<u8>) -> HostStep {
    if s.stack.len() < n {
        HostStep::Done(s.halted(InstructionResult::StackUnderflow))
    } else {
        HostStep::Ask(
            HostCall::Log(
                LogState { address: s.input.target, topics: topics_of(s, n), data },
            ),
            s.popped(n),
        )
    }
}

/// What `LOG0` to `LOG4` do.
pub open spec fn log_ask(s: InterpreterState, n: int) -> HostStep {
    if s.flags.is_static {
        HostStep::Done(s.halted(InstructionResult::StateChangeDuringStaticCall))
    } else if s.stack.len() < 2 {
        HostStep::Done(s.halted(InstructionResult::StackUnderflow))
    } else {
        let t = s.popped(2);
        match s.nth(1).spec_usize() {
            None => HostStep::Done(t.halted(InstructionResult::InvalidOperandOOG)),
            Some(len) => match t.charged_or_fail(crate::gas::calc::spec_log_cost(n, len as int)) {
                Err(halted) => HostStep::Done(halted),
                Ok(u) => if len == 0 {
                    log_record(u, n, Seq::empty())
                } else {
                    match s.nth(0).spec_usize() {
                        None => HostStep::Done(u.halted(InstructionResult::InvalidOperandOOG)),
                        Some(offset) => match u.roomy(offset as int, len as int) {
                            Err(halted) => HostStep::Done(halted),
                            Ok(v) => log_record(
                                v,
                                n,
                                v.memory.local().subrange(offset as int, offset + len),
                            ),
                        },
                    }
                },
            },
        }
    }
}

/// `LOG0` to `LOG4`: records a log with `N` topics.
#[verifier::rlimit(30)]
pub fn log<const N: usize, H: Host>(context: InstructionContext<'_, H>)
    requires
        old(context.interpreter).ready(),
        N <= 4,
    ensures
        final(context.interpreter).settled(),
        answered(
            log_ask(old(context.interpreter)@, N as int),
            |t: InterpreterState, reply: HostReply| t,
            old(context.host),
            final(context.interpreter)@,
            final(context.host),
        ),
        old(context.interpreter)@.thrifty(final(context.interpreter)@),
        final(context.host).env() == old(context.host).env(),
{
    let InstructionContext { interpreter, host } = context;
    if interpreter.runtime_flag.is_static() {
        interpreter.halt(InstructionResult::StateChangeDuringStaticCall);
        return;
    }
    let (offset, len) = match interpreter.pop2() {
        Some(words) => words,
        None => {
            return;
        },
    };
    let len: usize = match len.try_usize() {
        Some(len) => len,
        None => {
            interpreter.halt(InstructionResult::InvalidOperandOOG);
            return;
        },
    };
    if !interpreter.charge_or_fail(log_cost(N as u8, len as u64)) {
        return;
    }
    let data: Vec<u8> = if len == 0 {
        Vec::new()
    } else {
        let offset: usize = match offset.try_usize() {
            Some(offset) => offset,
            None => {
                interpreter.halt(InstructionResult::InvalidOperandOOG);
                return;
            },
        };
        if !interpreter.make_room(offset, len) {
            return;
        }
        slice_to_vec(interpreter.memory.slice_len(offset, len))
    };
    let ghost t = interpreter@;
    if interpreter.stack.len() < N {
        interpreter.halt_underflow();
        return;
    }
    let words = interpreter.stack.popn_unsafe(N);
    let mut topics: Vec<B256> = Vec::with_capacity(N);
    let mut i: usize = 0;
    while i < N
        invariant
            i <= N,
            words@.len() == N,
            topics@.len() == i,
            forall|j: int| 0 <= j < i ==> #[trigger] topics@[j] == (B256 { word: words@[j] }),
        decreases N - i,
    {
        topics.push(B256 { word: words[i] });
        i = i + 1;
    }
    assert(topics@ =~= topics_of(t, N as int));
    host.log(Log { address: interpreter.input.target_address(), topics, data });
}

/// What `SELFDESTRUCT` does first.
pub open spec fn selfdestruct_ask(s: InterpreterState) -> HostStep {
    if s.flags.is_static {
        HostStep::Done(s.halted(InstructionResult::StateChangeDuringStaticCall))
    } else if s.stack.len() < 1 {
        HostStep::Done(s.halted(InstructionResult::StackUnderflow))
    } else {
        match s.popped(1).charged(
            if s.enabled(SpecId::TANGERINE) {
                5000
            } else {
                0
            },
        ) {
            Err(halted) => HostStep::Done(halted),
            Ok(t) => HostStep::Ask(
                HostCall::SelfDestruct(s.input.target, address::address_of(s.nth(0))),
                t,
            ),
        }
    }
}

/// What `SELFDESTRUCT` does with the answer: it charges for the target, refunds the first
/// destruction of an account until EIP-3529, and ends the frame.
pub open spec fn selfdestruct_resume(t: InterpreterState, reply: HostReply) -> InterpreterState {
    match reply {
        HostReply::SelfDestruct(Some(load)) => match t.charged(
            crate::gas::calc::spec_dyn_selfdestruct_cost(t.flags.spec_id, load),
        ) {
            Err(halted) => halted,
            Ok(u) => if !t.enabled(SpecId::LONDON) && !load.data.previously_destroyed {
                (InterpreterState {
                    gas: GasState {
                        refunded: u.gas.refunded.wrapping_add(SELFDESTRUCT_REFUND),
                        ..u.gas
                    },
                    ..u
                }).halted(InstructionResult::SelfDestruct)
            } else {
                u.halted(InstructionResult::SelfDestruct)
            },
        },
        _ => t.halted(InstructionResult::FatalExternalError),
    }
}

/// `SELFDESTRUCT`: ends the frame and marks the account for deletion.
pub fn selfdestruct<H: Host>(context: InstructionContext<'_, H>)
    requires
        old(context.interpreter).ready(),
    ensures
        final(context.interpreter).settled(),
        answered(
            selfdestruct_ask(old(context.interpreter)@),
            |t: InterpreterState, reply: HostReply| selfdestruct_resume(t, reply),
            old(context.host),
            final(context.interpreter)@,
            final(context.host),
        ),
        old(context.interpreter)@.thrifty(final(context.interpreter)@),
        final(context.host).env() == old(context.host).env(),
{
    let InstructionContext { interpreter, host } = context;
    if interpreter.runtime_flag.is_static() {
        interpreter.halt(InstructionResult::StateChangeDuringStaticCall);
        return;
    }
    let target = match interpreter.stack.pop() {
        Ok(target) => Address::from_word(target),
        Err(_) => {
            interpreter.halt_underflow();
            return;
        },
    };
    let spec_id = interpreter.runtime_flag.spec_id();
    if !interpreter.charge(static_selfdestruct_cost(spec_id)) {
        return;
    }
    let res = match host.selfdestruct(interpreter.input.target_address(), target) {
        Some(res) => res,
        None => {
            interpreter.halt(InstructionResult::FatalExternalError);
            return;
        },
    };
    if !interpreter.charge(dyn_selfdestruct_cost(spec_id, &res)) {
        return;
    }
    if !spec_id.is_enabled_in(SpecId::LONDON) && !res.data.previously_destroyed {
        interpreter.gas.record_refund(SELFDESTRUCT_REFUND);
    }
    interpreter.halt(InstructionResult::SelfDestruct);
}

} // verus!
