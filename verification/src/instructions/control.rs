//! Control flow instructions.

use crate::gas::constants::{HIGH, JUMPDEST, MID};
use crate::instructions::context::InstructionContext;
use crate::interpreter::action::InterpreterAction;
use crate::interpreter::instruction_result::InstructionResult;
use crate::interpreter::interpreter_types::{JumpCtx, Jumps, RuntimeFlag};
use crate::interpreter::machine::Interpreter;
use crate::interpreter::stack::STACK_LIMIT;
use crate::interpreter::state::InterpreterState;
use crate::primitives::be;
use crate::primitives::u256;
use crate::primitives::{SpecId, U256};
use vstd::arithmetic::power::*;
use vstd::prelude::*;
use vstd::slice::slice_to_vec;

verus! {

/// The state after a jump to `target`. A jump that takes the `JUMPDEST` with it lands one byte
/// further and charges for it, unless that was charged before.
pub open spec fn jump_to_step(
    s: InterpreterState,
    target: int,
    fuse: bool,
    precharged: bool,
) -> InterpreterState {
    if !s.ext.code.valid_jump(target) {
        s.halted(InstructionResult::InvalidJump)
    } else if fuse {
        match s.charged(
            if precharged {
                0
            } else {
                JUMPDEST as int
            },
        ) {
            Err(halted) => halted,
            Ok(t) => t.with_ip(target + 1),
        }
    } else {
        s.with_ip(target)
    }
}

/// The state after a jump to the position that a word gives.
pub open spec fn jump_word_step(
    s: InterpreterState,
    target: U256,
    fuse: bool,
    precharged: bool,
) -> InterpreterState {
    match target.spec_usize() {
        None => s.halted(InstructionResult::InvalidJump),
        Some(t) => jump_to_step(s, t as int, fuse, precharged),
    }
}

/// The state after `JUMP`.
pub open spec fn jump_step(s: InterpreterState, fuse: bool) -> InterpreterState {
    if s.stack.len() < 1 {
        s.halted(InstructionResult::StackUnderflow)
    } else {
        jump_word_step(s.popped(1), s.nth(0), fuse, fuse)
    }
}

/// The state after `JUMPI`.
pub open spec fn jumpi_step(s: InterpreterState, fuse: bool) -> InterpreterState {
    if s.stack.len() < 2 {
        s.halted(InstructionResult::StackUnderflow)
    } else if s.nth(1).val() == 0 {
        s.popped(2)
    } else {
        jump_word_step(s.popped(2), s.nth(0), fuse, false)
    }
}

/// `JUMP`: goes on at the position on top of the stack.
pub fn jump<const FUSE_JUMPDEST: bool, H>(context: InstructionContext<'_, H>)
    requires
        old(context.interpreter).ready(),
    ensures
        final(context.interpreter).settled(),
        final(context.interpreter)@ == jump_step(old(context.interpreter)@, FUSE_JUMPDEST),
        *final(context.host) == *old(context.host),
{
    let InstructionContext { interpreter, host } = context;
    let ip: usize = interpreter.bytecode.ip();
    let sp: usize = interpreter.stack.sp();
    let jctx = interpreter.bytecode.jump_ctx();
    let (next, sp) = jump_at::<FUSE_JUMPDEST, H>(
        InstructionContext { interpreter: &mut *interpreter, host: &mut *host },
        ip,
        sp,
        jctx,
    );
    interpreter.stack.set_sp(sp);
    interpreter.bytecode.set_ip(next);
}

/// [`jump`], carrying the position and the stack cursor.
pub fn jump_at<const FUSE_JUMPDEST: bool, H>(
    context: InstructionContext<'_, H>,
    ip: usize,
    sp: usize,
    jctx: JumpCtx,
) -> (r: (usize, usize))
    requires
        old(context.interpreter).ready_at(sp, old(context.interpreter)@.gas.remaining),
        jctx.fits(old(context.interpreter)@.ext.code),
    ensures
        final(context.interpreter).settled_at(r.1, final(context.interpreter)@.gas.remaining),
        final(context.interpreter).at(
            r.1,
            final(context.interpreter)@.gas.remaining,
        ).with_ip(r.0 as int) == jump_step(
            old(context.interpreter).at(
                sp,
                old(context.interpreter)@.gas.remaining,
            ).with_ip(ip as int),
            FUSE_JUMPDEST,
        ),
        *final(context.host) == *old(context.host),
{
    let interpreter = context.interpreter;
    if interpreter.stack.shallow_at(sp, 1) {
        interpreter.halt_underflow();
        return (ip, sp);
    }
    let target = interpreter.stack.peek_at(sp, 0);
    let sp: usize = interpreter.stack.drop_at(sp, 1);
    (jump_inner::<FUSE_JUMPDEST, FUSE_JUMPDEST>(interpreter, target, ip, jctx), sp)
}

/// `JUMPI`: goes on at the position on top of the stack if the word below it is not zero.
pub fn jumpi<const FUSE_JUMPDEST: bool, H>(context: InstructionContext<'_, H>)
    requires
        old(context.interpreter).ready(),
    ensures
        final(context.interpreter).settled(),
        final(context.interpreter)@ == jumpi_step(old(context.interpreter)@, FUSE_JUMPDEST),
        *final(context.host) == *old(context.host),
{
    let InstructionContext { interpreter, host } = context;
    let ip: usize = interpreter.bytecode.ip();
    let sp: usize = interpreter.stack.sp();
    let jctx = interpreter.bytecode.jump_ctx();
    let (next, sp) = jumpi_at::<FUSE_JUMPDEST, H>(
        InstructionContext { interpreter: &mut *interpreter, host: &mut *host },
        ip,
        sp,
        jctx,
    );
    interpreter.stack.set_sp(sp);
    interpreter.bytecode.set_ip(next);
}

/// [`jumpi`], carrying the position and the stack cursor.
pub fn jumpi_at<const FUSE_JUMPDEST: bool, H>(
    context: InstructionContext<'_, H>,
    ip: usize,
    sp: usize,
    jctx: JumpCtx,
) -> (r: (usize, usize))
    requires
        old(context.interpreter).ready_at(sp, old(context.interpreter)@.gas.remaining),
        jctx.fits(old(context.interpreter)@.ext.code),
    ensures
        final(context.interpreter).settled_at(r.1, final(context.interpreter)@.gas.remaining),
        final(context.interpreter).at(
            r.1,
            final(context.interpreter)@.gas.remaining,
        ).with_ip(r.0 as int) == jumpi_step(
            old(context.interpreter).at(
                sp,
                old(context.interpreter)@.gas.remaining,
            ).with_ip(ip as int),
            FUSE_JUMPDEST,
        ),
        *final(context.host) == *old(context.host),
{
    let interpreter = context.interpreter;
    if interpreter.stack.shallow_at(sp, 2) {
        interpreter.halt_underflow();
        return (ip, sp);
    }
    let target = interpreter.stack.peek_at(sp, 0);
    let cond = interpreter.stack.peek_at(sp, 1);
    let sp: usize = interpreter.stack.drop_at(sp, 2);
    if cond.is_zero() {
        return (ip, sp);
    }
    (jump_inner::<FUSE_JUMPDEST, false>(interpreter, target, ip, jctx), sp)
}

/// Jumps to the position that a word gives.
fn jump_inner<const FUSE_JUMPDEST: bool, const PRECHARGED: bool>(
    interpreter: &mut Interpreter,
    target: U256,
    ip: usize,
    jctx: JumpCtx,
) -> (r: usize)
    requires
        old(interpreter)@.ext.code.runnable(),
        old(interpreter)@.gas.remaining <= i64::MAX,
        jctx.fits(old(interpreter)@.ext.code),
    ensures
        final(interpreter).stack == old(interpreter).stack,
        final(interpreter)@.with_ip(r as int) == jump_word_step(
            old(interpreter)@.with_ip(ip as int),
            target,
            FUSE_JUMPDEST,
            PRECHARGED,
        ),
{
    match target.try_usize() {
        None => {
            interpreter.halt(InstructionResult::InvalidJump);
            ip
        },
        Some(target) => jump_to::<FUSE_JUMPDEST, PRECHARGED>(interpreter, target, ip, jctx),
    }
}

/// Jumps to a position. Hands back where to go on; that is `ip` if the frame has ended.
pub fn jump_to<const FUSE_JUMPDEST: bool, const PRECHARGED: bool>(
    interpreter: &mut Interpreter,
    target: usize,
    ip: usize,
    jctx: JumpCtx,
) -> (r: usize)
    requires
        old(interpreter)@.ext.code.runnable(),
        old(interpreter)@.gas.remaining <= i64::MAX,
        jctx.fits(old(interpreter)@.ext.code),
    ensures
        final(interpreter).stack == old(interpreter).stack,
        final(interpreter)@.with_ip(r as int) == jump_to_step(
            old(interpreter)@.with_ip(ip as int),
            target as int,
            FUSE_JUMPDEST,
            PRECHARGED,
        ),
{
    if !interpreter.bytecode.is_valid_legacy_jump_with(jctx, target) {
        interpreter.halt(InstructionResult::InvalidJump);
        return ip;
    }
    if FUSE_JUMPDEST {
        if !PRECHARGED && interpreter.gas.record_cost_unsafe(JUMPDEST) {
            interpreter.halt_oog();
            return ip;
        }
        interpreter.bytecode.absolute_ip_with(jctx, target + 1)
    } else {
        interpreter.bytecode.absolute_ip_with(jctx, target)
    }
}

/// The state after a `PUSH` of `n` bytes and the `JUMP` behind it, taken together. The position
/// is that of the `PUSH`, whose gas and room on the stack are taken care of.
pub open spec fn jump_imm_step(s: InterpreterState, n: int) -> InterpreterState {
    let next = s.with_ip(s.ext.ip + n + 2);
    match next.charged(MID + JUMPDEST) {
        Err(halted) => halted,
        Ok(t) => jump_to_step(t, be::be_val(s.ext.ahead(1, n)), true, true),
    }
}

/// The state after a `PUSH` of `n` bytes and the `JUMPI` behind it, taken together.
pub open spec fn jumpi_imm_step(s: InterpreterState, n: int) -> InterpreterState {
    let next = s.with_ip(s.ext.ip + n + 2);
    match next.charged(HIGH as int) {
        Err(halted) => halted,
        Ok(t) => if t.stack.len() < 1 {
            t.halted(InstructionResult::StackUnderflow)
        } else if t.nth(0).val() == 0 {
            t.popped(1)
        } else {
            jump_to_step(t.popped(1), be::be_val(s.ext.ahead(1, n)), true, false)
        },
    }
}

/// A `PUSH` of `N` bytes and the `JUMP` behind it, taken together: the destination does not go
/// over the stack. `ip` is the position of the `PUSH`.
pub fn jump_imm_at<const N: usize>(
    interpreter: &mut Interpreter,
    ip: usize,
    sp: usize,
    jctx: JumpCtx,
) -> (r: (usize, usize))
    requires
        1 <= N <= 4,
        old(interpreter).ready_at(sp, old(interpreter)@.gas.remaining),
        jctx.fits(old(interpreter)@.ext.code),
        ip + N + 2 <= old(interpreter)@.ext.code.bytes().len() <= usize::MAX,
    ensures
        r.1 == sp,
        final(interpreter).settled_at(r.1, final(interpreter)@.gas.remaining),
        final(interpreter).at(r.1, final(interpreter)@.gas.remaining).with_ip(r.0 as int)
            == jump_imm_step(
            old(interpreter).at(sp, old(interpreter)@.gas.remaining).with_ip(ip as int),
            N as int,
        ),
{
    let next: usize = ip + N + 2;
    if interpreter.gas.record_cost_unsafe(MID + JUMPDEST) {
        interpreter.halt_oog();
        return (next, sp);
    }
    let target: usize = read_be_usize(interpreter.bytecode.base().bytes_ref(), ip + 1, N);
    (jump_to::<true, true>(interpreter, target, next, jctx), sp)
}

/// A `PUSH` of `N` bytes and the `JUMPI` behind it, taken together: the destination does not go
/// over the stack. `ip` is the position of the `PUSH`.
pub fn jumpi_imm_at<const N: usize>(
    interpreter: &mut Interpreter,
    ip: usize,
    sp: usize,
    jctx: JumpCtx,
) -> (r: (usize, usize))
    requires
        1 <= N <= 4,
        old(interpreter).ready_at(sp, old(interpreter)@.gas.remaining),
        jctx.fits(old(interpreter)@.ext.code),
        ip + N + 2 <= old(interpreter)@.ext.code.bytes().len() <= usize::MAX,
    ensures
        final(interpreter).settled_at(r.1, final(interpreter)@.gas.remaining),
        final(interpreter).at(r.1, final(interpreter)@.gas.remaining).with_ip(r.0 as int)
            == jumpi_imm_step(
            old(interpreter).at(sp, old(interpreter)@.gas.remaining).with_ip(ip as int),
            N as int,
        ),
{
    let next: usize = ip + N + 2;
    if interpreter.gas.record_cost_unsafe(HIGH) {
        interpreter.halt_oog();
        return (next, sp);
    }
    if interpreter.stack.shallow_at(sp, 1) {
        interpreter.halt_underflow();
        return (next, sp);
    }
    let cond = interpreter.stack.peek_at(sp, 0);
    let sp: usize = interpreter.stack.drop_at(sp, 1);
    if cond.is_zero() {
        return (next, sp);
    }
    let target: usize = read_be_usize(interpreter.bytecode.base().bytes_ref(), ip + 1, N);
    (jump_to::<true, false>(interpreter, target, next, jctx), sp)
}

/// The number that `n` big-endian bytes spell.
fn read_be_usize(src: &[u8], at: usize, n: usize) -> (r: usize)
    requires
        n <= 4,
        at + n <= src.len(),
    ensures
        r == be::be_val(src@.subrange(at as int, at + n)),
{
    let mut v: usize = 0;
    let mut i: usize = 0;
    while i < n
        invariant
            i <= n,
            n <= 4,
            at + n <= src.len(),
            v == be::be_val(src@.subrange(at as int, at + i)),
        decreases n - i,
    {
        proof {
            let next = src@.subrange(at as int, at + i + 1);
            assert(next.drop_last() =~= src@.subrange(at as int, at + i));
            be::lemma_be_val_bounds(next);
            lemma_pow_increases(256, next.len(), 4);
            assert(pow(256, 4) == 0x1_0000_0000) by {
                reveal_with_fuel(pow, 5);
            }
        }
        v = v * 256 + src[at + i] as usize;
        i = i + 1;
    }
    v
}

/// `JUMPDEST`: nothing but a place to land on.
pub fn jumpdest<H>(context: InstructionContext<'_, H>)
    ensures
        *final(context.interpreter) == *old(context.interpreter),
        *final(context.host) == *old(context.host),
{
}

/// The state after `PC`. The position is already behind the opcode.
pub open spec fn pc_step(s: InterpreterState) -> InterpreterState {
    if s.stack.len() >= STACK_LIMIT {
        s.halted(InstructionResult::StackOverflow)
    } else {
        s.pushed(u256::word(s.ext.ip - 1))
    }
}

/// `PC`: pushes the position of the instruction.
pub fn pc<H>(context: InstructionContext<'_, H>)
    requires
        old(context.interpreter).ready(),
        old(context.interpreter)@.ext.ip > 0,
    ensures
        final(context.interpreter).settled(),
        final(context.interpreter)@ == pc_step(old(context.interpreter)@),
        *final(context.host) == *old(context.host),
{
    let interpreter = context.interpreter;
    let value = U256::from_u64((interpreter.bytecode.pc() - 1) as u64);
    if !interpreter.stack.push(value) {
        interpreter.halt_overflow();
    }
}

/// The state after `RETURN` or `REVERT`: the frame ends with a piece of memory as its output.
/// An empty output needs no memory, wherever it is.
pub open spec fn return_step(s: InterpreterState, result: InstructionResult) -> InterpreterState {
    if s.stack.len() < 2 {
        s.halted(InstructionResult::StackUnderflow)
    } else {
        let t = s.popped(2);
        match s.nth(1).spec_usize() {
            None => t.halted(InstructionResult::InvalidOperandOOG),
            Some(len) => if len == 0 {
                t.returned(result, Seq::empty())
            } else {
                match s.nth(0).spec_usize() {
                    None => t.halted(InstructionResult::InvalidOperandOOG),
                    Some(offset) => match t.roomy(offset as int, len as int) {
                        Err(halted) => halted,
                        Ok(u) => u.returned(
                            result,
                            u.memory.local().subrange(offset as int, offset + len),
                        ),
                    },
                }
            },
        }
    }
}

fn return_inner(interpreter: &mut Interpreter, instruction_result: InstructionResult)
    requires
        old(interpreter).ready(),
    ensures
        final(interpreter).settled(),
        final(interpreter)@ == return_step(old(interpreter)@, instruction_result),
        old(interpreter)@.steady(final(interpreter)@),
        !final(interpreter)@.running(),
{
    let (offset, len) = match interpreter.pop2() {
        Some(words) => words,
        None => {
            return;
        },
    };
    let len: usize = match len.try_usize() {
        Some(len) => len,
        None => {
            interpreter.halt(InstructionResult::InvalidOperandOOG);
            return;
        },
    };
    let output: Vec<u8> = if len != 0 {
        let offset: usize = match offset.try_usize() {
            Some(offset) => offset,
            None => {
                interpreter.halt(InstructionResult::InvalidOperandOOG);
                return;
            },
        };
        if !interpreter.make_room(offset, len) {
            return;
        }
        slice_to_vec(interpreter.memory.slice_len(offset, len))
    } else {
        Vec::new()
    };
    let gas = interpreter.gas;
    interpreter.set_action(InterpreterAction::new_return(instruction_result, output, gas));
}

/// `RETURN`: ends the frame with an output.
pub fn ret<H>(context: InstructionContext<'_, H>)
    requires
        old(context.interpreter).ready(),
    ensures
        final(context.interpreter).settled(),
        final(context.interpreter)@ == return_step(
            old(context.interpreter)@,
            InstructionResult::Return,
        ),
        old(context.interpreter)@.steady(final(context.interpreter)@),
        !final(context.interpreter)@.running(),
        *final(context.host) == *old(context.host),
{
    return_inner(context.interpreter, InstructionResult::Return);
}

/// The state after `REVERT`.
pub open spec fn revert_step(s: InterpreterState) -> InterpreterState {
    if !s.enabled(SpecId::BYZANTIUM) {
        s.halted(InstructionResult::NotActivated)
    } else {
        return_step(s, InstructionResult::Revert)
    }
}

/// `REVERT`: ends the frame with an output and undoes its effects.
pub fn revert<H>(context: InstructionContext<'_, H>)
    requires
        old(context.interpreter).ready(),
    ensures
        final(context.interpreter).settled(),
        final(context.interpreter)@ == revert_step(old(context.interpreter)@),
        old(context.interpreter)@.steady(final(context.interpreter)@),
        !final(context.interpreter)@.running(),
        *final(context.host) == *old(context.host),
{
    let interpreter = context.interpreter;
    if !interpreter.runtime_flag.spec_id().is_enabled_in(SpecId::BYZANTIUM) {
        interpreter.halt_not_activated();
        return;
    }
    return_inner(interpreter, InstructionResult::Revert);
}

/// `STOP`: ends the frame.
pub fn stop<H>(context: InstructionContext<'_, H>)
    requires
        old(context.interpreter).ready(),
    ensures
        final(context.interpreter).settled(),
        final(context.interpreter)@ == old(context.interpreter)@.halted(InstructionResult::Stop),
        *final(context.host) == *old(context.host),
{
    context.interpreter.halt(InstructionResult::Stop);
}

/// `INVALID`: ends the frame.
pub fn invalid<H>(context: InstructionContext<'_, H>)
    requires
        old(context.interpreter).ready(),
    ensures
        final(context.interpreter).settled(),
        final(context.interpreter)@ == old(context.interpreter)@.halted(
            InstructionResult::InvalidFEOpcode,
        ),
        *final(context.host) == *old(context.host),
{
    context.interpreter.halt(InstructionResult::InvalidFEOpcode);
}

/// A byte that is no opcode: ends the frame.
pub fn unknown<H>(context: InstructionContext<'_, H>)
    requires
        old(context.interpreter).ready(),
    ensures
        final(context.interpreter).settled(),
        final(context.interpreter)@ == old(context.interpreter)@.halted(
            InstructionResult::OpcodeNotFound,
        ),
        *final(context.host) == *old(context.host),
{
    context.interpreter.halt(InstructionResult::OpcodeNotFound);
}

} // verus!
