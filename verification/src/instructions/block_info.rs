//! Block information instructions.

use crate::host::{EnvState, Host};
use crate::instructions::context::InstructionContext;
use crate::interpreter::instruction_result::InstructionResult;
use crate::interpreter::interpreter_types::RuntimeFlag;
use crate::interpreter::stack::{STACK_LIMIT, WORD};
use crate::interpreter::state::InterpreterState;
use crate::primitives::SpecId;
use vstd::prelude::*;

verus! {

/// The state after `CHAINID`.
pub open spec fn chainid_step(s: InterpreterState, env: EnvState) -> InterpreterState {
    if !s.enabled(SpecId::ISTANBUL) {
        s.halted(InstructionResult::NotActivated)
    } else if s.stack.len() >= STACK_LIMIT {
        s.halted(InstructionResult::StackOverflow)
    } else {
        s.pushed(env.chain_id)
    }
}

/// `CHAINID`: pushes the chain.
pub fn chainid<H: Host>(context: InstructionContext<'_, H>)
    requires
        old(context.interpreter).ready(),
    ensures
        final(context.interpreter).settled(),
        final(context.interpreter)@ == chainid_step(
            old(context.interpreter)@,
            old(context.host).env(),
        ),
        old(context.interpreter)@.steady(final(context.interpreter)@),
        *final(context.host) == *old(context.host),
{
    let InstructionContext { interpreter, host } = context;
    let sp: usize = interpreter.stack.sp();
    let rem: u64 = interpreter.gas.remaining();
    let (sp, rem) = chainid_at(
        InstructionContext { interpreter: &mut *interpreter, host: &mut *host },
        sp,
        rem,
    );
    interpreter.store_at(sp, rem);
}

/// [`chainid`], carrying the stack cursor and the gas counter.
pub fn chainid_at<H: Host>(context: InstructionContext<'_, H>, sp: usize, rem: u64) -> (r: (
    usize,
    u64,
))
    requires
        old(context.interpreter).ready_at(sp, rem),
    ensures
        final(context.interpreter).settled_at(r.0, r.1),
        final(context.interpreter).at(r.0, r.1) == chainid_step(
            old(context.interpreter).at(sp, rem),
            old(context.host).env(),
        ),
        old(context.interpreter).at(sp, rem).steady(final(context.interpreter).at(r.0, r.1)),
        *final(context.host) == *old(context.host),
{
    let interpreter = context.interpreter;
    if !interpreter.runtime_flag.spec_id().is_enabled_in(SpecId::ISTANBUL) {
        return (sp, interpreter.poison(rem, InstructionResult::NotActivated));
    }
    if interpreter.stack.full_at(sp) {
        return (sp, interpreter.poison(rem, InstructionResult::StackOverflow));
    }
    let value = context.host.chain_id();
    interpreter.stack.push_at(sp, value);
    (sp.wrapping_add(WORD), rem)
}

/// The state after `COINBASE`.
pub open spec fn coinbase_step(s: InterpreterState, env: EnvState) -> InterpreterState {
    if s.stack.len() >= STACK_LIMIT {
        s.halted(InstructionResult::StackOverflow)
    } else {
        s.pushed(env.beneficiary.spec_word())
    }
}

/// `COINBASE`: pushes the account that the fees go to.
pub fn coinbase<H: Host>(context: InstructionContext<'_, H>)
    requires
        old(context.interpreter).ready(),
    ensures
        final(context.interpreter).settled(),
        final(context.interpreter)@ == coinbase_step(
            old(context.interpreter)@,
            old(context.host).env(),
        ),
        old(context.interpreter)@.steady(final(context.interpreter)@),
        *final(context.host) == *old(context.host),
{
    let InstructionContext { interpreter, host } = context;
    let sp: usize = interpreter.stack.sp();
    let rem: u64 = interpreter.gas.remaining();
    let (sp, rem) = coinbase_at(
        InstructionContext { interpreter: &mut *interpreter, host: &mut *host },
        sp,
        rem,
    );
    interpreter.store_at(sp, rem);
}

/// [`coinbase`], carrying the stack cursor and the gas counter.
pub fn coinbase_at<H: Host>(context: InstructionContext<'_, H>, sp: usize, rem: u64) -> (r: (
    usize,
    u64,
))
    requires
        old(context.interpreter).ready_at(sp, rem),
    ensures
        final(context.interpreter).settled_at(r.0, r.1),
        final(context.interpreter).at(r.0, r.1) == coinbase_step(
            old(context.interpreter).at(sp, rem),
            old(context.host).env(),
        ),
        old(context.interpreter).at(sp, rem).steady(final(context.interpreter).at(r.0, r.1)),
        *final(context.host) == *old(context.host),
{
    let interpreter = context.interpreter;
    if interpreter.stack.full_at(sp) {
        return (sp, interpreter.poison(rem, InstructionResult::StackOverflow));
    }
    let value = context.host.beneficiary().into_word();
    interpreter.stack.push_at(sp, value);
    (sp.wrapping_add(WORD), rem)
}

/// The state after `TIMESTAMP`.
pub open spec fn timestamp_step(s: InterpreterState, env: EnvState) -> InterpreterState {
    if s.stack.len() >= STACK_LIMIT {
        s.halted(InstructionResult::StackOverflow)
    } else {
        s.pushed(env.timestamp)
    }
}

/// `TIMESTAMP`: pushes the time of the block.
pub fn timestamp<H: Host>(context: InstructionContext<'_, H>)
    requires
        old(context.interpreter).ready(),
    ensures
        final(context.interpreter).settled(),
        final(context.interpreter)@ == timestamp_step(
            old(context.interpreter)@,
            old(context.host).env(),
        ),
        old(context.interpreter)@.steady(final(context.interpreter)@),
        *final(context.host) == *old(context.host),
{
    let InstructionContext { interpreter, host } = context;
    let sp: usize = interpreter.stack.sp();
    let rem: u64 = interpreter.gas.remaining();
    let (sp, rem) = timestamp_at(
        InstructionContext { interpreter: &mut *interpreter, host: &mut *host },
        sp,
        rem,
    );
    interpreter.store_at(sp, rem);
}

/// [`timestamp`], carrying the stack cursor and the gas counter.
pub fn timestamp_at<H: Host>(context: InstructionContext<'_, H>, sp: usize, rem: u64) -> (r: (
    usize,
    u64,
))
    requires
        old(context.interpreter).ready_at(sp, rem),
    ensures
        final(context.interpreter).settled_at(r.0, r.1),
        final(context.interpreter).at(r.0, r.1) == timestamp_step(
            old(context.interpreter).at(sp, rem),
            old(context.host).env(),
        ),
        old(context.interpreter).at(sp, rem).steady(final(context.interpreter).at(r.0, r.1)),
        *final(context.host) == *old(context.host),
{
    let interpreter = context.interpreter;
    if interpreter.stack.full_at(sp) {
        return (sp, interpreter.poison(rem, InstructionResult::StackOverflow));
    }
    let value = context.host.timestamp();
    interpreter.stack.push_at(sp, value);
    (sp.wrapping_add(WORD), rem)
}

/// The state after `NUMBER`.
pub open spec fn block_number_step(s: InterpreterState, env: EnvState) -> InterpreterState {
    if s.stack.len() >= STACK_LIMIT {
        s.halted(InstructionResult::StackOverflow)
    } else {
        s.pushed(env.block_number)
    }
}

/// `NUMBER`: pushes the number of the block.
pub fn block_number<H: Host>(context: InstructionContext<'_, H>)
    requires
        old(context.interpreter).ready(),
    ensures
        final(context.interpreter).settled(),
        final(context.interpreter)@ == block_number_step(
            old(context.interpreter)@,
            old(context.host).env(),
        ),
        old(context.interpreter)@.steady(final(context.interpreter)@),
        *final(context.host) == *old(context.host),
{
    let InstructionContext { interpreter, host } = context;
    let sp: usize = interpreter.stack.sp();
    let rem: u64 = interpreter.gas.remaining();
    let (sp, rem) = block_number_at(
        InstructionContext { interpreter: &mut *interpreter, host: &mut *host },
        sp,
        rem,
    );
    interpreter.store_at(sp, rem);
}

/// [`block_number`], carrying the stack cursor and the gas counter.
pub fn block_number_at<H: Host>(context: InstructionContext<'_, H>, sp: usize, rem: u64) -> (r: (
    usize,
    u64,
))
    requires
        old(context.interpreter).ready_at(sp, rem),
    ensures
        final(context.interpreter).settled_at(r.0, r.1),
        final(context.interpreter).at(r.0, r.1) == block_number_step(
            old(context.interpreter).at(sp, rem),
            old(context.host).env(),
        ),
        old(context.interpreter).at(sp, rem).steady(final(context.interpreter).at(r.0, r.1)),
        *final(context.host) == *old(context.host),
{
    let interpreter = context.interpreter;
    if interpreter.stack.full_at(sp) {
        return (sp, interpreter.poison(rem, InstructionResult::StackOverflow));
    }
    let value = context.host.block_number();
    interpreter.stack.push_at(sp, value);
    (sp.wrapping_add(WORD), rem)
}

/// The state after `DIFFICULTY`.
pub open spec fn difficulty_step(s: InterpreterState, env: EnvState) -> InterpreterState {
    if s.stack.len() >= STACK_LIMIT {
        s.halted(InstructionResult::StackOverflow)
    } else {
        s.pushed(
            if s.enabled(SpecId::MERGE) {
                env.prevrandao->0
            } else {
                env.difficulty
            },
        )
    }
}

/// `DIFFICULTY`: pushes the difficulty of the block, or its randomness from the merge on.
pub fn difficulty<H: Host>(context: InstructionContext<'_, H>)
    requires
        old(context.interpreter).ready(),
        old(context.interpreter)@.enabled(SpecId::MERGE) ==> old(
            context.host,
        ).env().prevrandao is Some,
    ensures
        final(context.interpreter).settled(),
        final(context.interpreter)@ == difficulty_step(
            old(context.interpreter)@,
            old(context.host).env(),
        ),
        old(context.interpreter)@.steady(final(context.interpreter)@),
        *final(context.host) == *old(context.host),
{
    let InstructionContext { interpreter, host } = context;
    let sp: usize = interpreter.stack.sp();
    let rem: u64 = interpreter.gas.remaining();
    let (sp, rem) = difficulty_at(
        InstructionContext { interpreter: &mut *interpreter, host: &mut *host },
        sp,
        rem,
    );
    interpreter.store_at(sp, rem);
}

/// [`difficulty`], carrying the stack cursor and the gas counter.
pub fn difficulty_at<H: Host>(context: InstructionContext<'_, H>, sp: usize, rem: u64) -> (r: (
    usize,
    u64,
))
    requires
        old(context.interpreter).ready_at(sp, rem),
        old(context.interpreter)@.enabled(SpecId::MERGE) ==> old(
            context.host,
        ).env().prevrandao is Some,
    ensures
        final(context.interpreter).settled_at(r.0, r.1),
        final(context.interpreter).at(r.0, r.1) == difficulty_step(
            old(context.interpreter).at(sp, rem),
            old(context.host).env(),
        ),
        old(context.interpreter).at(sp, rem).steady(final(context.interpreter).at(r.0, r.1)),
        *final(context.host) == *old(context.host),
{
    let interpreter = context.interpreter;
    if interpreter.stack.full_at(sp) {
        return (sp, interpreter.poison(rem, InstructionResult::StackOverflow));
    }
    let value = if interpreter.runtime_flag.spec_id().is_enabled_in(SpecId::MERGE) {
        context.host.prevrandao().unwrap()
    } else {
        context.host.difficulty()
    };
    interpreter.stack.push_at(sp, value);
    (sp.wrapping_add(WORD), rem)
}

/// The state after `GASLIMIT`.
pub open spec fn gaslimit_step(s: InterpreterState, env: EnvState) -> InterpreterState {
    if s.stack.len() >= STACK_LIMIT {
        s.halted(InstructionResult::StackOverflow)
    } else {
        s.pushed(env.gas_limit)
    }
}

/// `GASLIMIT`: pushes the gas limit of the block.
pub fn gaslimit<H: Host>(context: InstructionContext<'_, H>)
    requires
        old(context.interpreter).ready(),
    ensures
        final(context.interpreter).settled(),
        final(context.interpreter)@ == gaslimit_step(
            old(context.interpreter)@,
            old(context.host).env(),
        ),
        old(context.interpreter)@.steady(final(context.interpreter)@),
        *final(context.host) == *old(context.host),
{
    let InstructionContext { interpreter, host } = context;
    let sp: usize = interpreter.stack.sp();
    let rem: u64 = interpreter.gas.remaining();
    let (sp, rem) = gaslimit_at(
        InstructionContext { interpreter: &mut *interpreter, host: &mut *host },
        sp,
        rem,
    );
    interpreter.store_at(sp, rem);
}

/// [`gaslimit`], carrying the stack cursor and the gas counter.
pub fn gaslimit_at<H: Host>(context: InstructionContext<'_, H>, sp: usize, rem: u64) -> (r: (
    usize,
    u64,
))
    requires
        old(context.interpreter).ready_at(sp, rem),
    ensures
        final(context.interpreter).settled_at(r.0, r.1),
        final(context.interpreter).at(r.0, r.1) == gaslimit_step(
            old(context.interpreter).at(sp, rem),
            old(context.host).env(),
        ),
        old(context.interpreter).at(sp, rem).steady(final(context.interpreter).at(r.0, r.1)),
        *final(context.host) == *old(context.host),
{
    let interpreter = context.interpreter;
    if interpreter.stack.full_at(sp) {
        return (sp, interpreter.poison(rem, InstructionResult::StackOverflow));
    }
    let value = context.host.gas_limit();
    interpreter.stack.push_at(sp, value);
    (sp.wrapping_add(WORD), rem)
}

/// The state after `BASEFEE`.
pub open spec fn basefee_step(s: InterpreterState, env: EnvState) -> InterpreterState {
    if !s.enabled(SpecId::LONDON) {
        s.halted(InstructionResult::NotActivated)
    } else if s.stack.len() >= STACK_LIMIT {
        s.halted(InstructionResult::StackOverflow)
    } else {
        s.pushed(env.basefee)
    }
}

/// `BASEFEE`: pushes the base fee of the block.
pub fn basefee<H: Host>(context: InstructionContext<'_, H>)
    requires
        old(context.interpreter).ready(),
    ensures
        final(context.interpreter).settled(),
        final(context.interpreter)@ == basefee_step(
            old(context.interpreter)@,
            old(context.host).env(),
        ),
        old(context.interpreter)@.steady(final(context.interpreter)@),
        *final(context.host) == *old(context.host),
{
    let InstructionContext { interpreter, host } = context;
    let sp: usize = interpreter.stack.sp();
    let rem: u64 = interpreter.gas.remaining();
    let (sp, rem) = basefee_at(
        InstructionContext { interpreter: &mut *interpreter, host: &mut *host },
        sp,
        rem,
    );
    interpreter.store_at(sp, rem);
}

/// [`basefee`], carrying the stack cursor and the gas counter.
pub fn basefee_at<H: Host>(context: InstructionContext<'_, H>, sp: usize, rem: u64) -> (r: (
    usize,
    u64,
))
    requires
        old(context.interpreter).ready_at(sp, rem),
    ensures
        final(context.interpreter).settled_at(r.0, r.1),
        final(context.interpreter).at(r.0, r.1) == basefee_step(
            old(context.interpreter).at(sp, rem),
            old(context.host).env(),
        ),
        old(context.interpreter).at(sp, rem).steady(final(context.interpreter).at(r.0, r.1)),
        *final(context.host) == *old(context.host),
{
    let interpreter = context.interpreter;
    if !interpreter.runtime_flag.spec_id().is_enabled_in(SpecId::LONDON) {
        return (sp, interpreter.poison(rem, InstructionResult::NotActivated));
    }
    if interpreter.stack.full_at(sp) {
        return (sp, interpreter.poison(rem, InstructionResult::StackOverflow));
    }
    let value = context.host.basefee();
    interpreter.stack.push_at(sp, value);
    (sp.wrapping_add(WORD), rem)
}

/// The state after `BLOBBASEFEE`.
pub open spec fn blob_basefee_step(s: InterpreterState, env: EnvState) -> InterpreterState {
    if !s.enabled(SpecId::CANCUN) {
        s.halted(InstructionResult::NotActivated)
    } else if s.stack.len() >= STACK_LIMIT {
        s.halted(InstructionResult::StackOverflow)
    } else {
        s.pushed(env.blob_gasprice)
    }
}

/// `BLOBBASEFEE`: pushes the price of blob gas.
pub fn blob_basefee<H: Host>(context: InstructionContext<'_, H>)
    requires
        old(context.interpreter).ready(),
    ensures
        final(context.interpreter).settled(),
        final(context.interpreter)@ == blob_basefee_step(
            old(context.interpreter)@,
            old(context.host).env(),
        ),
        old(context.interpreter)@.steady(final(context.interpreter)@),
        *final(context.host) == *old(context.host),
{
    let InstructionContext { interpreter, host } = context;
    let sp: usize = interpreter.stack.sp();
    let rem: u64 = interpreter.gas.remaining();
    let (sp, rem) = blob_basefee_at(
        InstructionContext { interpreter: &mut *interpreter, host: &mut *host },
        sp,
        rem,
    );
    interpreter.store_at(sp, rem);
}

/// [`blob_basefee`], carrying the stack cursor and the gas counter.
pub fn blob_basefee_at<H: Host>(context: InstructionContext<'_, H>, sp: usize, rem: u64) -> (r: (
    usize,
    u64,
))
    requires
        old(context.interpreter).ready_at(sp, rem),
    ensures
        final(context.interpreter).settled_at(r.0, r.1),
        final(context.interpreter).at(r.0, r.1) == blob_basefee_step(
            old(context.interpreter).at(sp, rem),
            old(context.host).env(),
        ),
        old(context.interpreter).at(sp, rem).steady(final(context.interpreter).at(r.0, r.1)),
        *final(context.host) == *old(context.host),
{
    let interpreter = context.interpreter;
    if !interpreter.runtime_flag.spec_id().is_enabled_in(SpecId::CANCUN) {
        return (sp, interpreter.poison(rem, InstructionResult::NotActivated));
    }
    if interpreter.stack.full_at(sp) {
        return (sp, interpreter.poison(rem, InstructionResult::StackOverflow));
    }
    let value = context.host.blob_gasprice();
    interpreter.stack.push_at(sp, value);
    (sp.wrapping_add(WORD), rem)
}

} // verus!
