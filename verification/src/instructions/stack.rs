//! Stack instructions.

use crate::instructions::context::InstructionContext;
use crate::interpreter::instruction_result::InstructionResult;
use crate::interpreter::interpreter_types::{Immediates, Jumps, RuntimeFlag};
use crate::interpreter::stack::{no_room_to_push, signed, too_shallow_for, STACK_LIMIT, WORD};
use crate::interpreter::stack;
use crate::interpreter::state::InterpreterState;
use crate::primitives::be;
use crate::primitives::u256;
use crate::primitives::{SpecId, U256};
use vstd::prelude::*;

verus! {

/// The state after `POP`.
pub open spec fn pop_step(s: InterpreterState) -> InterpreterState {
    if s.stack.len() < 1 {
        s.halted(InstructionResult::StackUnderflow)
    } else {
        s.popped(1)
    }
}

/// `POP`: removes the topmost word.
pub fn pop<H>(context: InstructionContext<'_, H>)
    requires
        old(context.interpreter).ready(),
    ensures
        final(context.interpreter).settled(),
        final(context.interpreter)@ == pop_step(old(context.interpreter)@),
        old(context.interpreter)@.steady(final(context.interpreter)@),
        *final(context.host) == *old(context.host),
{
    let InstructionContext { interpreter, host } = context;
    let sp: usize = interpreter.stack.sp();
    let rem: u64 = interpreter.gas.remaining();
    let (sp, rem) = pop_at(
        InstructionContext { interpreter: &mut *interpreter, host: &mut *host },
        sp,
        rem,
    );
    interpreter.store_at(sp, rem);
}

/// [`pop`], carrying the stack cursor and the gas counter.
pub fn pop_at<H>(context: InstructionContext<'_, H>, sp: usize, rem: u64) -> (r: (
    usize,
    u64,
))
    requires
        old(context.interpreter).ready_at(sp, rem),
    ensures
        final(context.interpreter).settled_at(r.0, r.1),
        final(context.interpreter).at(r.0, r.1) == pop_step(old(context.interpreter).at(sp, rem)),
        old(context.interpreter).at(sp, rem).steady(final(context.interpreter).at(r.0, r.1)),
        *final(context.host) == *old(context.host),
{
    let interpreter = context.interpreter;
    if interpreter.stack.shallow_at(sp, 1) {
        return (sp, interpreter.poison(rem, InstructionResult::StackUnderflow));
    }
    (interpreter.stack.drop_at(sp, 1), rem)
}

/// The state after `PUSH0`.
pub open spec fn push0_step(s: InterpreterState) -> InterpreterState {
    if !s.enabled(SpecId::SHANGHAI) {
        s.halted(InstructionResult::NotActivated)
    } else if s.stack.len() >= STACK_LIMIT {
        s.halted(InstructionResult::StackOverflow)
    } else {
        s.pushed(u256::word(0))
    }
}

/// `PUSH0`: pushes zero.
pub fn push0<H>(context: InstructionContext<'_, H>)
    requires
        old(context.interpreter).ready(),
    ensures
        final(context.interpreter).settled(),
        final(context.interpreter)@ == push0_step(old(context.interpreter)@),
        old(context.interpreter)@.steady(final(context.interpreter)@),
        *final(context.host) == *old(context.host),
{
    let InstructionContext { interpreter, host } = context;
    let sp: usize = interpreter.stack.sp();
    let rem: u64 = interpreter.gas.remaining();
    let (sp, rem) = push0_at(
        InstructionContext { interpreter: &mut *interpreter, host: &mut *host },
        sp,
        rem,
    );
    interpreter.store_at(sp, rem);
}

/// [`push0`], carrying the stack cursor and the gas counter. A number that is no cursor is
/// rejected like the cursor of a full stack.
pub fn push0_at<H>(context: InstructionContext<'_, H>, sp: usize, rem: u64) -> (r: (usize, u64))
    requires
        stack::live(sp) ==> old(context.interpreter).ready_at(sp, rem),
        !stack::live(sp) ==> stack::full(sp),
    ensures
        stack::live(sp) ==> final(context.interpreter).settled_at(r.0, r.1)
            && final(context.interpreter).at(r.0, r.1) == push0_step(
            old(context.interpreter).at(sp, rem),
        ),
        stack::live(sp) ==> old(context.interpreter).at(sp, rem).steady(
            final(context.interpreter).at(r.0, r.1),
        ),
        !stack::live(sp) ==> r == (sp, u64::MAX) && final(context.interpreter).stack == old(
            context.interpreter,
        ).stack && final(context.interpreter)@ == old(context.interpreter)@.with_remaining(
            rem,
        ).halted(
            if old(context.interpreter)@.enabled(SpecId::SHANGHAI) {
                InstructionResult::StackOverflow
            } else {
                InstructionResult::NotActivated
            },
        ),
        *final(context.host) == *old(context.host),
{
    let interpreter = context.interpreter;
    if !interpreter.runtime_flag.spec_id().is_enabled_in(SpecId::SHANGHAI) {
        return (sp, interpreter.poison(rem, InstructionResult::NotActivated));
    }
    proof {
        if stack::live(sp) {
            interpreter.stack.lemma_words_at_len(sp);
        }
    }
    if no_room_to_push(sp) {
        return (sp, interpreter.poison(rem, InstructionResult::StackOverflow));
    }
    interpreter.stack.push_at(sp, U256::zero());
    (sp.wrapping_add(WORD), rem)
}

/// The state after `PUSH1` to `PUSH32`, whose `n` bytes of immediate data are at the position.
pub open spec fn push_step(s: InterpreterState, n: int) -> InterpreterState {
    if s.stack.len() >= STACK_LIMIT {
        s.halted(InstructionResult::StackOverflow)
    } else {
        s.pushed(u256::word(be::be_val(s.ext.ahead(0, n)))).with_ip(s.ext.ip + n)
    }
}

/// `PUSH1` to `PUSH32`: pushes the `N` bytes of immediate data as a number.
pub fn push<const N: usize, H>(context: InstructionContext<'_, H>)
    requires
        old(context.interpreter).ready(),
        N <= 32,
        old(context.interpreter)@.ext.readable(0, N as int),
    ensures
        final(context.interpreter).settled(),
        final(context.interpreter)@ == push_step(old(context.interpreter)@, N as int),
        *final(context.host) == *old(context.host),
{
    push_n(N, context)
}

/// [`push`] of `n` bytes.
pub(crate) fn push_n<H>(n: usize, context: InstructionContext<'_, H>)
    requires
        old(context.interpreter).ready(),
        n <= 32,
        old(context.interpreter)@.ext.readable(0, n as int),
    ensures
        final(context.interpreter).settled(),
        final(context.interpreter)@ == push_step(old(context.interpreter)@, n as int),
        *final(context.host) == *old(context.host),
{
    let interpreter = context.interpreter;
    let slice = interpreter.bytecode.read_slice(n);
    if !interpreter.stack.push_slice_const(slice) {
        interpreter.halt(InstructionResult::StackOverflow);
        return;
    }
    interpreter.bytecode.relative_jump(n as isize);
}

/// The state after `DUP1` to `DUP16`. A stack that is too shallow ends the frame with the same
/// result as one that is full.
pub open spec fn dup_step(s: InterpreterState, n: int) -> InterpreterState {
    if s.stack.len() >= STACK_LIMIT || s.stack.len() < n {
        s.halted(InstructionResult::StackOverflow)
    } else {
        s.pushed(s.nth(n - 1))
    }
}

/// `DUP1` to `DUP16`: pushes a copy of the `N`-th word.
pub fn dup<const N: usize, H>(context: InstructionContext<'_, H>)
    requires
        old(context.interpreter).ready(),
        0 < N <= 16,
    ensures
        final(context.interpreter).settled(),
        final(context.interpreter)@ == dup_step(old(context.interpreter)@, N as int),
        old(context.interpreter)@.steady(final(context.interpreter)@),
        *final(context.host) == *old(context.host),
{
    let InstructionContext { interpreter, host } = context;
    let sp: usize = interpreter.stack.sp();
    let rem: u64 = interpreter.gas.remaining();
    let (sp, rem) = dup_at::<N, H>(
        InstructionContext { interpreter: &mut *interpreter, host: &mut *host },
        sp,
        rem,
    );
    interpreter.store_at(sp, rem);
}

/// [`dup`], carrying the stack cursor and the gas counter. A number that is no cursor is
/// rejected like the cursor of a full stack.
pub fn dup_at<const N: usize, H>(context: InstructionContext<'_, H>, sp: usize, rem: u64) -> (r: (
    usize,
    u64,
))
    requires
        0 < N <= 16,
        stack::live(sp) ==> old(context.interpreter).ready_at(sp, rem),
        !stack::live(sp) ==> stack::full(sp),
    ensures
        stack::live(sp) ==> final(context.interpreter).settled_at(r.0, r.1)
            && final(context.interpreter).at(r.0, r.1) == dup_step(
            old(context.interpreter).at(sp, rem),
            N as int,
        ),
        stack::live(sp) ==> old(context.interpreter).at(sp, rem).steady(
            final(context.interpreter).at(r.0, r.1),
        ),
        !stack::live(sp) ==> r == (sp, u64::MAX) && final(context.interpreter).stack == old(
            context.interpreter,
        ).stack && final(context.interpreter)@ == old(context.interpreter)@.with_remaining(
            rem,
        ).halted(InstructionResult::StackOverflow),
        *final(context.host) == *old(context.host),
{
    dup_n_at(N, context, sp, rem)
}

/// [`dup_at`] of the `n`-th word.
pub(crate) fn dup_n_at<H>(n: usize, context: InstructionContext<'_, H>, sp: usize, rem: u64) -> (r: (
    usize,
    u64,
))
    requires
        0 < n <= 16,
        stack::live(sp) ==> old(context.interpreter).ready_at(sp, rem),
        !stack::live(sp) ==> stack::full(sp),
    ensures
        stack::live(sp) ==> final(context.interpreter).settled_at(r.0, r.1)
            && final(context.interpreter).at(r.0, r.1) == dup_step(
            old(context.interpreter).at(sp, rem),
            n as int,
        ),
        stack::live(sp) ==> old(context.interpreter).at(sp, rem).steady(
            final(context.interpreter).at(r.0, r.1),
        ),
        !stack::live(sp) ==> r == (sp, u64::MAX) && final(context.interpreter).stack == old(
            context.interpreter,
        ).stack && final(context.interpreter)@ == old(context.interpreter)@.with_remaining(
            rem,
        ).halted(InstructionResult::StackOverflow),
        *final(context.host) == *old(context.host),
{
    let interpreter = context.interpreter;
    proof {
        if stack::live(sp) {
            interpreter.stack.lemma_words_at_len(sp);
        }
    }
    if no_room_to_push(sp) || signed(sp) <= too_shallow_for(n) {
        return (sp, interpreter.poison(rem, InstructionResult::StackOverflow));
    }
    interpreter.stack.dup_at(sp, n);
    (sp.wrapping_add(WORD), rem)
}

/// The state after `SWAP1` to `SWAP16`. A stack that is too shallow ends the frame with the
/// result of one that is full.
pub open spec fn swap_step(s: InterpreterState, n: int) -> InterpreterState {
    if s.stack.len() < n + 1 {
        s.halted(InstructionResult::StackOverflow)
    } else {
        s.with_stack(stack::exchanged(s.stack, 0, n))
    }
}

/// `SWAP1` to `SWAP16`: exchanges the topmost word with the `N`-th one below it.
pub fn swap<const N: usize, H>(context: InstructionContext<'_, H>)
    requires
        old(context.interpreter).ready(),
        0 < N <= 16,
    ensures
        final(context.interpreter).settled(),
        final(context.interpreter)@ == swap_step(old(context.interpreter)@, N as int),
        old(context.interpreter)@.steady(final(context.interpreter)@),
        *final(context.host) == *old(context.host),
{
    let InstructionContext { interpreter, host } = context;
    let sp: usize = interpreter.stack.sp();
    let rem: u64 = interpreter.gas.remaining();
    let (sp, rem) = swap_at::<N, H>(
        InstructionContext { interpreter: &mut *interpreter, host: &mut *host },
        sp,
        rem,
    );
    interpreter.store_at(sp, rem);
}

/// [`swap`], carrying the stack cursor and the gas counter.
pub fn swap_at<const N: usize, H>(context: InstructionContext<'_, H>, sp: usize, rem: u64) -> (r: (
    usize,
    u64,
))
    requires
        0 < N <= 16,
        old(context.interpreter).ready_at(sp, rem),
    ensures
        final(context.interpreter).settled_at(r.0, r.1),
        final(context.interpreter).at(r.0, r.1) == swap_step(
            old(context.interpreter).at(sp, rem),
            N as int,
        ),
        old(context.interpreter).at(sp, rem).steady(final(context.interpreter).at(r.0, r.1)),
        *final(context.host) == *old(context.host),
{
    swap_n_at(N, context, sp, rem)
}

/// [`swap_at`] with the `n`-th word.
pub(crate) fn swap_n_at<H>(n: usize, context: InstructionContext<'_, H>, sp: usize, rem: u64) -> (r: (
    usize,
    u64,
))
    requires
        0 < n <= 16,
        old(context.interpreter).ready_at(sp, rem),
    ensures
        final(context.interpreter).settled_at(r.0, r.1),
        final(context.interpreter).at(r.0, r.1) == swap_step(
            old(context.interpreter).at(sp, rem),
            n as int,
        ),
        old(context.interpreter).at(sp, rem).steady(final(context.interpreter).at(r.0, r.1)),
        *final(context.host) == *old(context.host),
{
    let interpreter = context.interpreter;
    if interpreter.stack.shallow_at(sp, 1 + n) {
        return (sp, interpreter.poison(rem, InstructionResult::StackOverflow));
    }
    interpreter.stack.exchange_at(sp, 0, n);
    (sp, rem)
}

} // verus!
