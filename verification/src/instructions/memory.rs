//! Memory instructions.

use crate::gas::copy_cost_verylow;
use crate::instructions::context::InstructionContext;
use crate::interpreter::instruction_result::InstructionResult;
use crate::interpreter::interpreter_types::RuntimeFlag;
use crate::interpreter::machine::Interpreter;
use crate::interpreter::stack::{STACK_LIMIT, WORD};
use crate::interpreter::stack;
use crate::interpreter::state::InterpreterState;
use crate::primitives::be;
use crate::primitives::u256;
use crate::primitives::{SpecId, U256};
use vstd::prelude::*;

verus! {

/// Storing a word in memory: the state to go on with, or the one in which the frame has ended.
/// Neither word has left the stack.
pub open spec fn store_word(s: InterpreterState, offset: U256, value: U256) -> Result<
    InterpreterState,
    InterpreterState,
> {
    match offset.spec_usize() {
        None => Err(s.halted(InstructionResult::InvalidOperandOOG)),
        Some(at) => match s.roomy_word(at as int) {
            Err(halted) => Err(halted),
            Ok(t) => Ok(
                t.with_memory(t.memory.written(at as int, be::be_bytes(value.val(), 32))),
            ),
        },
    }
}

/// Stores the word at depth `val` in memory, at the offset at depth `off`. The counter is
/// published only where there is gas to charge. Hands back the counter, or nothing if the
/// frame has ended.
fn mstore_body(interpreter: &mut Interpreter, sp: usize, rem: u64, off: usize, val: usize) -> (r:
    Option<u64>)
    requires
        old(interpreter).ready_at(sp, rem),
        off < stack::depth_of(sp),
        val < stack::depth_of(sp),
    ensures
        final(interpreter).stack == old(interpreter).stack,
        ({
            let s = old(interpreter).at(sp, rem);
            let end = final(interpreter).at(
                sp,
                match r {
                    Some(left) => left,
                    None => u64::MAX,
                },
            );
            &&& end.ok()
            &&& s.steady(end)
            &&& match store_word(s, s.nth(off as int), s.nth(val as int)) {
                Ok(t) => r is Some && end == t,
                Err(t) => r is None && end == t,
            }
        }),
{
    let ghost s = interpreter.at(sp, rem);
    let word = interpreter.stack.peek_at(sp, off);
    let value = interpreter.stack.peek_at(sp, val);
    let offset: usize = match word.try_usize() {
        Some(offset) => offset,
        None => {
            interpreter.poison(rem, InstructionResult::InvalidOperandOOG);
            return None;
        },
    };
    let rem: u64 = if offset >= interpreter.gas.memory().word_limit() {
        interpreter.gas.set_remaining(rem);
        if !interpreter.make_room_word(offset) {
            return None;
        }
        interpreter.gas.remaining()
    } else {
        rem
    };
    interpreter.memory.set_u256(offset, value);
    proof {
        be::lemma_be_bytes_len(value.val(), 32);
    }
    Some(rem)
}

/// The state after `MLOAD`.
pub open spec fn mload_step(s: InterpreterState) -> InterpreterState {
    if s.stack.len() < 1 {
        s.halted(InstructionResult::StackUnderflow)
    } else {
        match s.nth(0).spec_usize() {
            None => s.halted(InstructionResult::InvalidOperandOOG),
            Some(offset) => match s.roomy_word(offset as int) {
                Err(halted) => halted,
                Ok(t) => t.replaced(
                    1,
                    u256::word(
                        be::be_val(t.memory.local().subrange(offset as int, offset + 32)),
                    ),
                ),
            },
        }
    }
}

/// `MLOAD`: reads a word from memory.
pub fn mload<H>(context: InstructionContext<'_, H>)
    requires
        old(context.interpreter).ready(),
    ensures
        final(context.interpreter).settled(),
        final(context.interpreter)@ == mload_step(old(context.interpreter)@),
        old(context.interpreter)@.steady(final(context.interpreter)@),
        *final(context.host) == *old(context.host),
{
    let InstructionContext { interpreter, host } = context;
    let sp: usize = interpreter.stack.sp();
    let rem: u64 = interpreter.gas.remaining();
    let (sp, rem) = mload_at(
        InstructionContext { interpreter: &mut *interpreter, host: &mut *host },
        sp,
        rem,
    );
    interpreter.store_at(sp, rem);
}

/// [`mload`], carrying the stack cursor and the gas counter.
pub fn mload_at<H>(context: InstructionContext<'_, H>, sp: usize, rem: u64) -> (r: (
    usize,
    u64,
))
    requires
        old(context.interpreter).ready_at(sp, rem),
    ensures
        final(context.interpreter).settled_at(r.0, r.1),
        final(context.interpreter).at(r.0, r.1) == mload_step(old(context.interpreter).at(sp, rem)),
        old(context.interpreter).at(sp, rem).steady(final(context.interpreter).at(r.0, r.1)),
        *final(context.host) == *old(context.host),
{
    let interpreter = context.interpreter;
    if interpreter.stack.shallow_at(sp, 1) {
        return (sp, interpreter.poison(rem, InstructionResult::StackUnderflow));
    }
    let word = interpreter.stack.peek_at(sp, 0);
    let offset: usize = match word.try_usize() {
        Some(offset) => offset,
        None => {
            return (sp, interpreter.poison(rem, InstructionResult::InvalidOperandOOG));
        },
    };
    let rem: u64 = if offset >= interpreter.gas.memory().word_limit() {
        interpreter.gas.set_remaining(rem);
        if !interpreter.make_room_word(offset) {
            return (sp, u64::MAX);
        }
        interpreter.gas.remaining()
    } else {
        rem
    };
    let value = interpreter.memory.get_u256(offset);
    let sp: usize = interpreter.stack.replace_at(sp, 1, value);
    (sp, rem)
}

/// The state after `MSTORE`.
pub open spec fn mstore_step(s: InterpreterState) -> InterpreterState {
    if s.stack.len() < 2 {
        s.halted(InstructionResult::StackUnderflow)
    } else {
        match store_word(s, s.nth(0), s.nth(1)) {
            Err(halted) => halted,
            Ok(t) => t.popped(2),
        }
    }
}

/// `MSTORE`: writes a word to memory.
pub fn mstore<H>(context: InstructionContext<'_, H>)
    requires
        old(context.interpreter).ready(),
    ensures
        final(context.interpreter).settled(),
        final(context.interpreter)@ == mstore_step(old(context.interpreter)@),
        old(context.interpreter)@.steady(final(context.interpreter)@),
        *final(context.host) == *old(context.host),
{
    let InstructionContext { interpreter, host } = context;
    let sp: usize = interpreter.stack.sp();
    let rem: u64 = interpreter.gas.remaining();
    let (sp, rem) = mstore_at(
        InstructionContext { interpreter: &mut *interpreter, host: &mut *host },
        sp,
        rem,
    );
    interpreter.store_at(sp, rem);
}

/// [`mstore`], carrying the stack cursor and the gas counter.
pub fn mstore_at<H>(context: InstructionContext<'_, H>, sp: usize, rem: u64) -> (r: (
    usize,
    u64,
))
    requires
        old(context.interpreter).ready_at(sp, rem),
    ensures
        final(context.interpreter).settled_at(r.0, r.1),
        final(context.interpreter).at(r.0, r.1) == mstore_step(old(context.interpreter).at(sp, rem)),
        old(context.interpreter).at(sp, rem).steady(final(context.interpreter).at(r.0, r.1)),
        *final(context.host) == *old(context.host),
{
    let interpreter = context.interpreter;
    if interpreter.stack.shallow_at(sp, 2) {
        return (sp, interpreter.poison(rem, InstructionResult::StackUnderflow));
    }
    match mstore_body(interpreter, sp, rem, 0, 1) {
        Some(rem) => (interpreter.stack.drop_at(sp, 2), rem),
        None => (sp, u64::MAX),
    }
}

/// The state after the `MSTORE` of a `DUP2` and the `MSTORE` behind it, taken together: the
/// offset is read where it lies.
pub open spec fn mstore_dup2_step(s: InterpreterState) -> InterpreterState {
    match store_word(s, s.nth(1), s.nth(0)) {
        Err(halted) => halted,
        Ok(t) => t.popped(1),
    }
}

/// The `MSTORE` of a `DUP2` and the `MSTORE` behind it, taken together. The stack has two words
/// and room for a third.
pub fn mstore_dup2_at<H>(context: InstructionContext<'_, H>, sp: usize, rem: u64) -> (r: (
    usize,
    u64,
))
    requires
        old(context.interpreter).ready_at(sp, rem),
        stack::depth_of(sp) >= 2,
    ensures
        final(context.interpreter).settled_at(r.0, r.1),
        final(context.interpreter).at(r.0, r.1) == mstore_dup2_step(
            old(context.interpreter).at(sp, rem),
        ),
        old(context.interpreter).at(sp, rem).steady(final(context.interpreter).at(r.0, r.1)),
        *final(context.host) == *old(context.host),
{
    let interpreter = context.interpreter;
    match mstore_body(interpreter, sp, rem, 1, 0) {
        Some(rem) => (interpreter.stack.drop_at(sp, 1), rem),
        None => (sp, u64::MAX),
    }
}

/// The state after `MSTORE8`.
pub open spec fn mstore8_step(s: InterpreterState) -> InterpreterState {
    if s.stack.len() < 2 {
        s.halted(InstructionResult::StackUnderflow)
    } else {
        let t = s.popped(2);
        match s.nth(0).spec_usize() {
            None => t.halted(InstructionResult::InvalidOperandOOG),
            Some(offset) => match t.roomy(offset as int, 1) {
                Err(halted) => halted,
                Ok(u) => u.with_memory(
                    u.memory.written(offset as int, seq![s.nth(1).spec_byte(0) as u8]),
                ),
            },
        }
    }
}

/// `MSTORE8`: writes a byte to memory.
pub fn mstore8<H>(context: InstructionContext<'_, H>)
    requires
        old(context.interpreter).ready(),
    ensures
        final(context.interpreter).settled(),
        final(context.interpreter)@ == mstore8_step(old(context.interpreter)@),
        old(context.interpreter)@.steady(final(context.interpreter)@),
        *final(context.host) == *old(context.host),
{
    let InstructionContext { interpreter, host } = context;
    let sp: usize = interpreter.stack.sp();
    let rem: u64 = interpreter.gas.remaining();
    let (sp, rem) = mstore8_at(
        InstructionContext { interpreter: &mut *interpreter, host: &mut *host },
        sp,
        rem,
    );
    interpreter.store_at(sp, rem);
}

/// [`mstore8`], carrying the stack cursor and the gas counter.
pub fn mstore8_at<H>(context: InstructionContext<'_, H>, sp: usize, rem: u64) -> (r: (
    usize,
    u64,
))
    requires
        old(context.interpreter).ready_at(sp, rem),
    ensures
        final(context.interpreter).settled_at(r.0, r.1),
        final(context.interpreter).at(r.0, r.1) == mstore8_step(old(context.interpreter).at(sp, rem)),
        old(context.interpreter).at(sp, rem).steady(final(context.interpreter).at(r.0, r.1)),
        *final(context.host) == *old(context.host),
{
    let interpreter = context.interpreter;
    if interpreter.stack.shallow_at(sp, 2) {
        return (sp, interpreter.poison(rem, InstructionResult::StackUnderflow));
    }
    let offset = interpreter.stack.peek_at(sp, 0);
    let value = interpreter.stack.peek_at(sp, 1);
    let sp: usize = interpreter.stack.drop_at(sp, 2);
    interpreter.gas.set_remaining(rem);
    let offset: usize = match offset.try_usize() {
        Some(offset) => offset,
        None => {
            interpreter.halt(InstructionResult::InvalidOperandOOG);
            return (sp, u64::MAX);
        },
    };
    if !interpreter.make_room(offset, 1) {
        return (sp, u64::MAX);
    }
    interpreter.memory.set_byte(offset, value.byte(0));
    (sp, interpreter.gas.remaining())
}

/// The state after `MSIZE`.
pub open spec fn msize_step(s: InterpreterState) -> InterpreterState {
    if s.stack.len() >= STACK_LIMIT {
        s.halted(InstructionResult::StackOverflow)
    } else {
        s.pushed(u256::word(s.memory.size()))
    }
}

/// `MSIZE`: pushes the size of the memory.
pub fn msize<H>(context: InstructionContext<'_, H>)
    requires
        old(context.interpreter).ready(),
    ensures
        final(context.interpreter).settled(),
        final(context.interpreter)@ == msize_step(old(context.interpreter)@),
        old(context.interpreter)@.steady(final(context.interpreter)@),
        *final(context.host) == *old(context.host),
{
    let InstructionContext { interpreter, host } = context;
    let sp: usize = interpreter.stack.sp();
    let rem: u64 = interpreter.gas.remaining();
    let (sp, rem) = msize_at(
        InstructionContext { interpreter: &mut *interpreter, host: &mut *host },
        sp,
        rem,
    );
    interpreter.store_at(sp, rem);
}

/// [`msize`], carrying the stack cursor and the gas counter.
pub fn msize_at<H>(context: InstructionContext<'_, H>, sp: usize, rem: u64) -> (r: (
    usize,
    u64,
))
    requires
        old(context.interpreter).ready_at(sp, rem),
    ensures
        final(context.interpreter).settled_at(r.0, r.1),
        final(context.interpreter).at(r.0, r.1) == msize_step(old(context.interpreter).at(sp, rem)),
        old(context.interpreter).at(sp, rem).steady(final(context.interpreter).at(r.0, r.1)),
        *final(context.host) == *old(context.host),
{
    let interpreter = context.interpreter;
    if interpreter.stack.full_at(sp) {
        return (sp, interpreter.poison(rem, InstructionResult::StackOverflow));
    }
    let value = U256::from_u64(interpreter.memory.len() as u64);
    interpreter.stack.push_at(sp, value);
    (sp.wrapping_add(WORD), rem)
}

/// The state after `MCOPY`.
pub open spec fn mcopy_step(s: InterpreterState) -> InterpreterState {
    if !s.enabled(SpecId::CANCUN) {
        s.halted(InstructionResult::NotActivated)
    } else if s.stack.len() < 3 {
        s.halted(InstructionResult::StackUnderflow)
    } else {
        let t = s.popped(3);
        match s.nth(2).spec_usize() {
            None => t.halted(InstructionResult::InvalidOperandOOG),
            Some(len) => match t.charged(crate::gas::calc::spec_copy_cost(3, len as int)) {
                Err(halted) => halted,
                Ok(u) => if len == 0 {
                    u
                } else {
                    mcopy_move(u, s.nth(0), s.nth(1), len as int)
                },
            },
        }
    }
}

/// Moving `len` bytes within memory.
pub open spec fn mcopy_move(s: InterpreterState, dst: U256, src: U256, len: int) -> InterpreterState {
    match dst.spec_usize() {
        None => s.halted(InstructionResult::InvalidOperandOOG),
        Some(to) => match src.spec_usize() {
            None => s.halted(InstructionResult::InvalidOperandOOG),
            Some(from) => match s.roomy(
                if to >= from {
                    to as int
                } else {
                    from as int
                },
                len,
            ) {
                Err(halted) => halted,
                Ok(t) => t.with_memory(
                    t.memory.written(
                        to as int,
                        t.memory.local().subrange(from as int, from + len),
                    ),
                ),
            },
        },
    }
}

/// Copies a piece of memory that is not empty.
fn move_within(interpreter: &mut Interpreter, dst: U256, src: U256, len: usize)
    requires
        old(interpreter).ready(),
    ensures
        final(interpreter).settled(),
        final(interpreter)@ == mcopy_move(old(interpreter)@, dst, src, len as int),
        old(interpreter)@.steady(final(interpreter)@),
{
    let dst: usize = match dst.try_usize() {
        Some(dst) => dst,
        None => {
            interpreter.halt(InstructionResult::InvalidOperandOOG);
            return;
        },
    };
    let src: usize = match src.try_usize() {
        Some(src) => src,
        None => {
            interpreter.halt(InstructionResult::InvalidOperandOOG);
            return;
        },
    };
    let top: usize = if dst >= src {
        dst
    } else {
        src
    };
    if !interpreter.make_room(top, len) {
        return;
    }
    interpreter.memory.copy(dst, src, len);
}

/// `MCOPY`: copies a piece of memory.
#[verifier::rlimit(30)]
pub fn mcopy<H>(context: InstructionContext<'_, H>)
    requires
        old(context.interpreter).ready(),
    ensures
        final(context.interpreter).settled(),
        final(context.interpreter)@ == mcopy_step(old(context.interpreter)@),
        old(context.interpreter)@.thrifty(final(context.interpreter)@),
        *final(context.host) == *old(context.host),
{
    let interpreter = context.interpreter;
    if !interpreter.runtime_flag.spec_id().is_enabled_in(SpecId::CANCUN) {
        interpreter.halt_not_activated();
        return;
    }
    let (dst, src, len) = match interpreter.pop3() {
        Some(words) => words,
        None => {
            return;
        },
    };
    let len: usize = match len.try_usize() {
        Some(len) => len,
        None => {
            interpreter.halt(InstructionResult::InvalidOperandOOG);
            return;
        },
    };
    if !interpreter.charge_or_fail(copy_cost_verylow(len)) {
        return;
    }
    if len == 0 {
        return;
    }
    move_within(interpreter, dst, src, len);
}

} // verus!
