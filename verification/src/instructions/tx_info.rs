//! Transaction information instructions.

use crate::host::{EnvState, Host};
use crate::instructions::context::InstructionContext;
use crate::interpreter::instruction_result::InstructionResult;
use crate::interpreter::interpreter_types::RuntimeFlag;
use crate::interpreter::stack::{STACK_LIMIT, WORD};
use crate::interpreter::state::InterpreterState;
use crate::instructions::system;
use crate::primitives::u256;
use crate::primitives::{SpecId, U256};
use vstd::prelude::*;

verus! {

/// The state after `GASPRICE`.
pub open spec fn gasprice_step(s: InterpreterState, env: EnvState) -> InterpreterState {
    if s.stack.len() >= STACK_LIMIT {
        s.halted(InstructionResult::StackOverflow)
    } else {
        s.pushed(env.effective_gas_price)
    }
}

/// `GASPRICE`: pushes the gas price that the transaction pays.
pub fn gasprice<H: Host>(context: InstructionContext<'_, H>)
    requires
        old(context.interpreter).ready(),
    ensures
        final(context.interpreter).settled(),
        final(context.interpreter)@ == gasprice_step(
            old(context.interpreter)@,
            old(context.host).env(),
        ),
        old(context.interpreter)@.steady(final(context.interpreter)@),
        *final(context.host) == *old(context.host),
{
    let InstructionContext { interpreter, host } = context;
    let sp: usize = interpreter.stack.sp();
    let rem: u64 = interpreter.gas.remaining();
    let (sp, rem) = gasprice_at(
        InstructionContext { interpreter: &mut *interpreter, host: &mut *host },
        sp,
        rem,
    );
    interpreter.store_at(sp, rem);
}

/// [`gasprice`], carrying the stack cursor and the gas counter.
pub fn gasprice_at<H: Host>(context: InstructionContext<'_, H>, sp: usize, rem: u64) -> (r: (
    usize,
    u64,
))
    requires
        old(context.interpreter).ready_at(sp, rem),
    ensures
        final(context.interpreter).settled_at(r.0, r.1),
        final(context.interpreter).at(r.0, r.1) == gasprice_step(
            old(context.interpreter).at(sp, rem),
            old(context.host).env(),
        ),
        old(context.interpreter).at(sp, rem).steady(final(context.interpreter).at(r.0, r.1)),
        *final(context.host) == *old(context.host),
{
    let interpreter = context.interpreter;
    if interpreter.stack.full_at(sp) {
        return (sp, interpreter.poison(rem, InstructionResult::StackOverflow));
    }
    let value = context.host.effective_gas_price();
    interpreter.stack.push_at(sp, value);
    (sp.wrapping_add(WORD), rem)
}

/// The state after `ORIGIN`.
pub open spec fn origin_step(s: InterpreterState, env: EnvState) -> InterpreterState {
    if s.stack.len() >= STACK_LIMIT {
        s.halted(InstructionResult::StackOverflow)
    } else {
        s.pushed(env.caller.spec_word())
    }
}

/// `ORIGIN`: pushes the sender of the transaction.
pub fn origin<H: Host>(context: InstructionContext<'_, H>)
    requires
        old(context.interpreter).ready(),
    ensures
        final(context.interpreter).settled(),
        final(context.interpreter)@ == origin_step(
            old(context.interpreter)@,
            old(context.host).env(),
        ),
        old(context.interpreter)@.steady(final(context.interpreter)@),
        *final(context.host) == *old(context.host),
{
    let InstructionContext { interpreter, host } = context;
    let sp: usize = interpreter.stack.sp();
    let rem: u64 = interpreter.gas.remaining();
    let (sp, rem) = origin_at(
        InstructionContext { interpreter: &mut *interpreter, host: &mut *host },
        sp,
        rem,
    );
    interpreter.store_at(sp, rem);
}

/// [`origin`], carrying the stack cursor and the gas counter.
pub fn origin_at<H: Host>(context: InstructionContext<'_, H>, sp: usize, rem: u64) -> (r: (
    usize,
    u64,
))
    requires
        old(context.interpreter).ready_at(sp, rem),
    ensures
        final(context.interpreter).settled_at(r.0, r.1),
        final(context.interpreter).at(r.0, r.1) == origin_step(
            old(context.interpreter).at(sp, rem),
            old(context.host).env(),
        ),
        old(context.interpreter).at(sp, rem).steady(final(context.interpreter).at(r.0, r.1)),
        *final(context.host) == *old(context.host),
{
    let interpreter = context.interpreter;
    if interpreter.stack.full_at(sp) {
        return (sp, interpreter.poison(rem, InstructionResult::StackOverflow));
    }
    let value = context.host.caller().into_word();
    interpreter.stack.push_at(sp, value);
    (sp.wrapping_add(WORD), rem)
}

/// The state after `BLOBHASH`. An index past the last blob gives zero.
pub open spec fn blob_hash_step(s: InterpreterState, env: EnvState) -> InterpreterState {
    if !s.enabled(SpecId::CANCUN) {
        s.halted(InstructionResult::NotActivated)
    } else if s.stack.len() < 1 {
        s.halted(InstructionResult::StackUnderflow)
    } else {
        let i = system::saturated(s.nth(0));
        s.replaced(
            1,
            if i < env.blob_hashes.len() {
                env.blob_hashes[i]
            } else {
                u256::word(0)
            },
        )
    }
}

/// `BLOBHASH`: the hash of one of the transaction's blobs.
pub fn blob_hash<H: Host>(context: InstructionContext<'_, H>)
    requires
        old(context.interpreter).ready(),
    ensures
        final(context.interpreter).settled(),
        final(context.interpreter)@ == blob_hash_step(
            old(context.interpreter)@,
            old(context.host).env(),
        ),
        old(context.interpreter)@.steady(final(context.interpreter)@),
        *final(context.host) == *old(context.host),
{
    let InstructionContext { interpreter, host } = context;
    let sp: usize = interpreter.stack.sp();
    let rem: u64 = interpreter.gas.remaining();
    let (sp, rem) = blob_hash_at(
        InstructionContext { interpreter: &mut *interpreter, host: &mut *host },
        sp,
        rem,
    );
    interpreter.store_at(sp, rem);
}

/// [`blob_hash`], carrying the stack cursor and the gas counter.
pub fn blob_hash_at<H: Host>(context: InstructionContext<'_, H>, sp: usize, rem: u64) -> (r: (
    usize,
    u64,
))
    requires
        old(context.interpreter).ready_at(sp, rem),
    ensures
        final(context.interpreter).settled_at(r.0, r.1),
        final(context.interpreter).at(r.0, r.1) == blob_hash_step(
            old(context.interpreter).at(sp, rem),
            old(context.host).env(),
        ),
        old(context.interpreter).at(sp, rem).steady(final(context.interpreter).at(r.0, r.1)),
        *final(context.host) == *old(context.host),
{
    let interpreter = context.interpreter;
    if !interpreter.runtime_flag.spec_id().is_enabled_in(SpecId::CANCUN) {
        return (sp, interpreter.poison(rem, InstructionResult::NotActivated));
    }
    if interpreter.stack.shallow_at(sp, 1) {
        return (sp, interpreter.poison(rem, InstructionResult::StackUnderflow));
    }
    let index = interpreter.stack.peek_at(sp, 0);
    let i: usize = index.as_usize_saturated();
    let value = match context.host.blob_hash(i) {
        Some(hash) => hash,
        None => U256::zero(),
    };
    let sp: usize = interpreter.stack.replace_at(sp, 1, value);
    (sp, rem)
}

} // verus!
