//! Bitwise instructions and comparisons.

use crate::instructions::context::InstructionContext;
use crate::interpreter::instruction_result::InstructionResult;
use crate::interpreter::interpreter_types::RuntimeFlag;
use crate::interpreter::state::InterpreterState;
use crate::primitives::bits::{u256_shl, u256_shr};
use crate::primitives::i256::i256_less_than;
use crate::primitives::u256;
use crate::primitives::{SpecId, U256};
use vstd::arithmetic::power2::*;
use vstd::prelude::*;

verus! {

/// The word one or zero.
pub open spec fn truth(b: bool) -> U256 {
    u256::word(
        if b {
            1
        } else {
            0
        },
    )
}

/// The byte of a word at an index that counts from the most significant one; zero past the
/// last.
pub open spec fn word_byte(index: U256, x: U256) -> U256 {
    u256::word(
        if index.val() < 32 {
            x.spec_byte((31 - index.val()) as nat)
        } else {
            0
        },
    )
}

/// A word shifted to the left; shifts by 256 and more leave nothing.
pub open spec fn word_shl(shift: U256, x: U256) -> U256 {
    u256::word(
        if shift.val() < 256 {
            x.val() * pow2(shift.val() as nat)
        } else {
            0
        },
    )
}

/// A word shifted to the right; shifts by 256 and more leave nothing.
pub open spec fn word_shr(shift: U256, x: U256) -> U256 {
    u256::word(
        if shift.val() < 256 {
            x.val() / pow2(shift.val() as nat) as int
        } else {
            0
        },
    )
}

/// A signed word shifted to the right; shifts by 256 and more leave its sign.
pub open spec fn word_sar(shift: U256, x: U256) -> U256 {
    u256::word(
        if shift.val() < 256 {
            x.signed() / pow2(shift.val() as nat) as int
        } else if x.signed() < 0 {
            -1
        } else {
            0
        },
    )
}

/// The state after `LT`.
pub open spec fn lt_step(s: InterpreterState) -> InterpreterState {
    if s.stack.len() < 2 {
        s.halted(InstructionResult::StackUnderflow)
    } else {
        s.replaced(2, truth(s.nth(0).val() < s.nth(1).val()))
    }
}

/// `LT`: whether a word is less than another.
pub fn lt<H>(context: InstructionContext<'_, H>)
    requires
        old(context.interpreter).ready(),
    ensures
        final(context.interpreter).settled(),
        final(context.interpreter)@ == lt_step(old(context.interpreter)@),
        old(context.interpreter)@.steady(final(context.interpreter)@),
        *final(context.host) == *old(context.host),
{
    let InstructionContext { interpreter, host } = context;
    let sp: usize = interpreter.stack.sp();
    let rem: u64 = interpreter.gas.remaining();
    let (sp, rem) = lt_at(
        InstructionContext { interpreter: &mut *interpreter, host: &mut *host },
        sp,
        rem,
    );
    interpreter.store_at(sp, rem);
}

/// [`lt`], carrying the stack cursor and the gas counter.
pub fn lt_at<H>(context: InstructionContext<'_, H>, sp: usize, rem: u64) -> (r: (
    usize,
    u64,
))
    requires
        old(context.interpreter).ready_at(sp, rem),
    ensures
        final(context.interpreter).settled_at(r.0, r.1),
        final(context.interpreter).at(r.0, r.1) == lt_step(old(context.interpreter).at(sp, rem)),
        old(context.interpreter).at(sp, rem).steady(final(context.interpreter).at(r.0, r.1)),
        *final(context.host) == *old(context.host),
{
    let interpreter = context.interpreter;
    if interpreter.stack.shallow_at(sp, 2) {
        return (sp, interpreter.poison(rem, InstructionResult::StackUnderflow));
    }
    let op1 = interpreter.stack.peek_at(sp, 0);
    let op2 = interpreter.stack.peek_at(sp, 1);
    let sp: usize = interpreter.stack.replace_at(sp, 2, U256::from_bool(op1.less_than(&op2)));
    (sp, rem)
}

/// The state after `GT`.
pub open spec fn gt_step(s: InterpreterState) -> InterpreterState {
    if s.stack.len() < 2 {
        s.halted(InstructionResult::StackUnderflow)
    } else {
        s.replaced(2, truth(s.nth(0).val() > s.nth(1).val()))
    }
}

/// `GT`: whether a word is greater than another.
pub fn gt<H>(context: InstructionContext<'_, H>)
    requires
        old(context.interpreter).ready(),
    ensures
        final(context.interpreter).settled(),
        final(context.interpreter)@ == gt_step(old(context.interpreter)@),
        old(context.interpreter)@.steady(final(context.interpreter)@),
        *final(context.host) == *old(context.host),
{
    let InstructionContext { interpreter, host } = context;
    let sp: usize = interpreter.stack.sp();
    let rem: u64 = interpreter.gas.remaining();
    let (sp, rem) = gt_at(
        InstructionContext { interpreter: &mut *interpreter, host: &mut *host },
        sp,
        rem,
    );
    interpreter.store_at(sp, rem);
}

/// [`gt`], carrying the stack cursor and the gas counter.
pub fn gt_at<H>(context: InstructionContext<'_, H>, sp: usize, rem: u64) -> (r: (
    usize,
    u64,
))
    requires
        old(context.interpreter).ready_at(sp, rem),
    ensures
        final(context.interpreter).settled_at(r.0, r.1),
        final(context.interpreter).at(r.0, r.1) == gt_step(old(context.interpreter).at(sp, rem)),
        old(context.interpreter).at(sp, rem).steady(final(context.interpreter).at(r.0, r.1)),
        *final(context.host) == *old(context.host),
{
    let interpreter = context.interpreter;
    if interpreter.stack.shallow_at(sp, 2) {
        return (sp, interpreter.poison(rem, InstructionResult::StackUnderflow));
    }
    let op1 = interpreter.stack.peek_at(sp, 0);
    let op2 = interpreter.stack.peek_at(sp, 1);
    let sp: usize = interpreter.stack.replace_at(sp, 2, U256::from_bool(op2.less_than(&op1)));
    (sp, rem)
}

/// The state after `CLZ`.
pub open spec fn clz_step(s: InterpreterState) -> InterpreterState {
    if !s.enabled(SpecId::OSAKA) {
        s.halted(InstructionResult::NotActivated)
    } else if s.stack.len() < 1 {
        s.halted(InstructionResult::StackUnderflow)
    } else {
        s.replaced(1, u256::word(s.nth(0).spec_leading_zeros()))
    }
}

/// `CLZ`: the number of leading zero bits.
pub fn clz<H>(context: InstructionContext<'_, H>)
    requires
        old(context.interpreter).ready(),
    ensures
        final(context.interpreter).settled(),
        final(context.interpreter)@ == clz_step(old(context.interpreter)@),
        old(context.interpreter)@.steady(final(context.interpreter)@),
        *final(context.host) == *old(context.host),
{
    let InstructionContext { interpreter, host } = context;
    let sp: usize = interpreter.stack.sp();
    let rem: u64 = interpreter.gas.remaining();
    let (sp, rem) = clz_at(
        InstructionContext { interpreter: &mut *interpreter, host: &mut *host },
        sp,
        rem,
    );
    interpreter.store_at(sp, rem);
}

/// [`clz`], carrying the stack cursor and the gas counter.
pub fn clz_at<H>(context: InstructionContext<'_, H>, sp: usize, rem: u64) -> (r: (
    usize,
    u64,
))
    requires
        old(context.interpreter).ready_at(sp, rem),
    ensures
        final(context.interpreter).settled_at(r.0, r.1),
        final(context.interpreter).at(r.0, r.1) == clz_step(old(context.interpreter).at(sp, rem)),
        old(context.interpreter).at(sp, rem).steady(final(context.interpreter).at(r.0, r.1)),
        *final(context.host) == *old(context.host),
{
    let interpreter = context.interpreter;
    if !interpreter.runtime_flag.spec_id().is_enabled_in(SpecId::OSAKA) {
        return (sp, interpreter.poison(rem, InstructionResult::NotActivated));
    }
    if interpreter.stack.shallow_at(sp, 1) {
        return (sp, interpreter.poison(rem, InstructionResult::StackUnderflow));
    }
    let op1 = interpreter.stack.peek_at(sp, 0);
    let sp: usize = interpreter.stack.replace_at(sp, 1, U256::from_u64(op1.count_leading_zeros() as u64));
    (sp, rem)
}

/// The state after `SLT`.
pub open spec fn slt_step(s: InterpreterState) -> InterpreterState {
    if s.stack.len() < 2 {
        s.halted(InstructionResult::StackUnderflow)
    } else {
        s.replaced(2, truth(s.nth(0).signed() < s.nth(1).signed()))
    }
}

/// `SLT`: whether a signed word is less than another.
pub fn slt<H>(context: InstructionContext<'_, H>)
    requires
        old(context.interpreter).ready(),
    ensures
        final(context.interpreter).settled(),
        final(context.interpreter)@ == slt_step(old(context.interpreter)@),
        old(context.interpreter)@.steady(final(context.interpreter)@),
        *final(context.host) == *old(context.host),
{
    let InstructionContext { interpreter, host } = context;
    let sp: usize = interpreter.stack.sp();
    let rem: u64 = interpreter.gas.remaining();
    let (sp, rem) = slt_at(
        InstructionContext { interpreter: &mut *interpreter, host: &mut *host },
        sp,
        rem,
    );
    interpreter.store_at(sp, rem);
}

/// [`slt`], carrying the stack cursor and the gas counter.
pub fn slt_at<H>(context: InstructionContext<'_, H>, sp: usize, rem: u64) -> (r: (
    usize,
    u64,
))
    requires
        old(context.interpreter).ready_at(sp, rem),
    ensures
        final(context.interpreter).settled_at(r.0, r.1),
        final(context.interpreter).at(r.0, r.1) == slt_step(old(context.interpreter).at(sp, rem)),
        old(context.interpreter).at(sp, rem).steady(final(context.interpreter).at(r.0, r.1)),
        *final(context.host) == *old(context.host),
{
    let interpreter = context.interpreter;
    if interpreter.stack.shallow_at(sp, 2) {
        return (sp, interpreter.poison(rem, InstructionResult::StackUnderflow));
    }
    let op1 = interpreter.stack.peek_at(sp, 0);
    let op2 = interpreter.stack.peek_at(sp, 1);
    let sp: usize = interpreter.stack.replace_at(sp, 2, U256::from_bool(i256_less_than(&op1, &op2)));
    (sp, rem)
}

/// The state after `SGT`.
pub open spec fn sgt_step(s: InterpreterState) -> InterpreterState {
    if s.stack.len() < 2 {
        s.halted(InstructionResult::StackUnderflow)
    } else {
        s.replaced(2, truth(s.nth(0).signed() > s.nth(1).signed()))
    }
}

/// `SGT`: whether a signed word is greater than another.
pub fn sgt<H>(context: InstructionContext<'_, H>)
    requires
        old(context.interpreter).ready(),
    ensures
        final(context.interpreter).settled(),
        final(context.interpreter)@ == sgt_step(old(context.interpreter)@),
        old(context.interpreter)@.steady(final(context.interpreter)@),
        *final(context.host) == *old(context.host),
{
    let InstructionContext { interpreter, host } = context;
    let sp: usize = interpreter.stack.sp();
    let rem: u64 = interpreter.gas.remaining();
    let (sp, rem) = sgt_at(
        InstructionContext { interpreter: &mut *interpreter, host: &mut *host },
        sp,
        rem,
    );
    interpreter.store_at(sp, rem);
}

/// [`sgt`], carrying the stack cursor and the gas counter.
pub fn sgt_at<H>(context: InstructionContext<'_, H>, sp: usize, rem: u64) -> (r: (
    usize,
    u64,
))
    requires
        old(context.interpreter).ready_at(sp, rem),
    ensures
        final(context.interpreter).settled_at(r.0, r.1),
        final(context.interpreter).at(r.0, r.1) == sgt_step(old(context.interpreter).at(sp, rem)),
        old(context.interpreter).at(sp, rem).steady(final(context.interpreter).at(r.0, r.1)),
        *final(context.host) == *old(context.host),
{
    let interpreter = context.interpreter;
    if interpreter.stack.shallow_at(sp, 2) {
        return (sp, interpreter.poison(rem, InstructionResult::StackUnderflow));
    }
    let op1 = interpreter.stack.peek_at(sp, 0);
    let op2 = interpreter.stack.peek_at(sp, 1);
    let sp: usize = interpreter.stack.replace_at(sp, 2, U256::from_bool(i256_less_than(&op2, &op1)));
    (sp, rem)
}

/// The state after `EQ`.
pub open spec fn eq_step(s: InterpreterState) -> InterpreterState {
    if s.stack.len() < 2 {
        s.halted(InstructionResult::StackUnderflow)
    } else {
        s.replaced(2, truth(s.nth(0) == s.nth(1)))
    }
}

/// `EQ`: whether two words are equal.
pub fn eq<H>(context: InstructionContext<'_, H>)
    requires
        old(context.interpreter).ready(),
    ensures
        final(context.interpreter).settled(),
        final(context.interpreter)@ == eq_step(old(context.interpreter)@),
        old(context.interpreter)@.steady(final(context.interpreter)@),
        *final(context.host) == *old(context.host),
{
    let InstructionContext { interpreter, host } = context;
    let sp: usize = interpreter.stack.sp();
    let rem: u64 = interpreter.gas.remaining();
    let (sp, rem) = eq_at(
        InstructionContext { interpreter: &mut *interpreter, host: &mut *host },
        sp,
        rem,
    );
    interpreter.store_at(sp, rem);
}

/// [`eq`], carrying the stack cursor and the gas counter.
pub fn eq_at<H>(context: InstructionContext<'_, H>, sp: usize, rem: u64) -> (r: (
    usize,
    u64,
))
    requires
        old(context.interpreter).ready_at(sp, rem),
    ensures
        final(context.interpreter).settled_at(r.0, r.1),
        final(context.interpreter).at(r.0, r.1) == eq_step(old(context.interpreter).at(sp, rem)),
        old(context.interpreter).at(sp, rem).steady(final(context.interpreter).at(r.0, r.1)),
        *final(context.host) == *old(context.host),
{
    let interpreter = context.interpreter;
    if interpreter.stack.shallow_at(sp, 2) {
        return (sp, interpreter.poison(rem, InstructionResult::StackUnderflow));
    }
    let op1 = interpreter.stack.peek_at(sp, 0);
    let op2 = interpreter.stack.peek_at(sp, 1);
    let sp: usize = interpreter.stack.replace_at(sp, 2, U256::from_bool(op1.same(&op2)));
    (sp, rem)
}

/// The state after `ISZERO`.
pub open spec fn iszero_step(s: InterpreterState) -> InterpreterState {
    if s.stack.len() < 1 {
        s.halted(InstructionResult::StackUnderflow)
    } else {
        s.replaced(1, truth(s.nth(0).val() == 0))
    }
}

/// `ISZERO`: whether a word is zero.
pub fn iszero<H>(context: InstructionContext<'_, H>)
    requires
        old(context.interpreter).ready(),
    ensures
        final(context.interpreter).settled(),
        final(context.interpreter)@ == iszero_step(old(context.interpreter)@),
        old(context.interpreter)@.steady(final(context.interpreter)@),
        *final(context.host) == *old(context.host),
{
    let InstructionContext { interpreter, host } = context;
    let sp: usize = interpreter.stack.sp();
    let rem: u64 = interpreter.gas.remaining();
    let (sp, rem) = iszero_at(
        InstructionContext { interpreter: &mut *interpreter, host: &mut *host },
        sp,
        rem,
    );
    interpreter.store_at(sp, rem);
}

/// [`iszero`], carrying the stack cursor and the gas counter.
pub fn iszero_at<H>(context: InstructionContext<'_, H>, sp: usize, rem: u64) -> (r: (
    usize,
    u64,
))
    requires
        old(context.interpreter).ready_at(sp, rem),
    ensures
        final(context.interpreter).settled_at(r.0, r.1),
        final(context.interpreter).at(r.0, r.1) == iszero_step(old(context.interpreter).at(sp, rem)),
        old(context.interpreter).at(sp, rem).steady(final(context.interpreter).at(r.0, r.1)),
        *final(context.host) == *old(context.host),
{
    let interpreter = context.interpreter;
    if interpreter.stack.shallow_at(sp, 1) {
        return (sp, interpreter.poison(rem, InstructionResult::StackUnderflow));
    }
    let op1 = interpreter.stack.peek_at(sp, 0);
    let sp: usize = interpreter.stack.replace_at(sp, 1, U256::from_bool(op1.is_zero()));
    (sp, rem)
}

/// The state after `AND`.
pub open spec fn bitand_step(s: InterpreterState) -> InterpreterState {
    if s.stack.len() < 2 {
        s.halted(InstructionResult::StackUnderflow)
    } else {
        s.replaced(2, s.nth(0).spec_and(s.nth(1)))
    }
}

/// `AND`: the bitwise conjunction of two words.
pub fn bitand<H>(context: InstructionContext<'_, H>)
    requires
        old(context.interpreter).ready(),
    ensures
        final(context.interpreter).settled(),
        final(context.interpreter)@ == bitand_step(old(context.interpreter)@),
        old(context.interpreter)@.steady(final(context.interpreter)@),
        *final(context.host) == *old(context.host),
{
    let InstructionContext { interpreter, host } = context;
    let sp: usize = interpreter.stack.sp();
    let rem: u64 = interpreter.gas.remaining();
    let (sp, rem) = bitand_at(
        InstructionContext { interpreter: &mut *interpreter, host: &mut *host },
        sp,
        rem,
    );
    interpreter.store_at(sp, rem);
}

/// [`bitand`], carrying the stack cursor and the gas counter.
pub fn bitand_at<H>(context: InstructionContext<'_, H>, sp: usize, rem: u64) -> (r: (
    usize,
    u64,
))
    requires
        old(context.interpreter).ready_at(sp, rem),
    ensures
        final(context.interpreter).settled_at(r.0, r.1),
        final(context.interpreter).at(r.0, r.1) == bitand_step(old(context.interpreter).at(sp, rem)),
        old(context.interpreter).at(sp, rem).steady(final(context.interpreter).at(r.0, r.1)),
        *final(context.host) == *old(context.host),
{
    let interpreter = context.interpreter;
    if interpreter.stack.shallow_at(sp, 2) {
        return (sp, interpreter.poison(rem, InstructionResult::StackUnderflow));
    }
    let op1 = interpreter.stack.peek_at(sp, 0);
    let op2 = interpreter.stack.peek_at(sp, 1);
    let sp: usize = interpreter.stack.replace_at(sp, 2, op1.and(op2));
    (sp, rem)
}

/// The state after `OR`.
pub open spec fn bitor_step(s: InterpreterState) -> InterpreterState {
    if s.stack.len() < 2 {
        s.halted(InstructionResult::StackUnderflow)
    } else {
        s.replaced(2, s.nth(0).spec_or(s.nth(1)))
    }
}

/// `OR`: the bitwise disjunction of two words.
pub fn bitor<H>(context: InstructionContext<'_, H>)
    requires
        old(context.interpreter).ready(),
    ensures
        final(context.interpreter).settled(),
        final(context.interpreter)@ == bitor_step(old(context.interpreter)@),
        old(context.interpreter)@.steady(final(context.interpreter)@),
        *final(context.host) == *old(context.host),
{
    let InstructionContext { interpreter, host } = context;
    let sp: usize = interpreter.stack.sp();
    let rem: u64 = interpreter.gas.remaining();
    let (sp, rem) = bitor_at(
        InstructionContext { interpreter: &mut *interpreter, host: &mut *host },
        sp,
        rem,
    );
    interpreter.store_at(sp, rem);
}

/// [`bitor`], carrying the stack cursor and the gas counter.
pub fn bitor_at<H>(context: InstructionContext<'_, H>, sp: usize, rem: u64) -> (r: (
    usize,
    u64,
))
    requires
        old(context.interpreter).ready_at(sp, rem),
    ensures
        final(context.interpreter).settled_at(r.0, r.1),
        final(context.interpreter).at(r.0, r.1) == bitor_step(old(context.interpreter).at(sp, rem)),
        old(context.interpreter).at(sp, rem).steady(final(context.interpreter).at(r.0, r.1)),
        *final(context.host) == *old(context.host),
{
    let interpreter = context.interpreter;
    if interpreter.stack.shallow_at(sp, 2) {
        return (sp, interpreter.poison(rem, InstructionResult::StackUnderflow));
    }
    let op1 = interpreter.stack.peek_at(sp, 0);
    let op2 = interpreter.stack.peek_at(sp, 1);
    let sp: usize = interpreter.stack.replace_at(sp, 2, op1.or(op2));
    (sp, rem)
}

/// The state after `XOR`.
pub open spec fn bitxor_step(s: InterpreterState) -> InterpreterState {
    if s.stack.len() < 2 {
        s.halted(InstructionResult::StackUnderflow)
    } else {
        s.replaced(2, s.nth(0).spec_xor(s.nth(1)))
    }
}

/// `XOR`: the bitwise exclusive disjunction of two words.
pub fn bitxor<H>(context: InstructionContext<'_, H>)
    requires
        old(context.interpreter).ready(),
    ensures
        final(context.interpreter).settled(),
        final(context.interpreter)@ == bitxor_step(old(context.interpreter)@),
        old(context.interpreter)@.steady(final(context.interpreter)@),
        *final(context.host) == *old(context.host),
{
    let InstructionContext { interpreter, host } = context;
    let sp: usize = interpreter.stack.sp();
    let rem: u64 = interpreter.gas.remaining();
    let (sp, rem) = bitxor_at(
        InstructionContext { interpreter: &mut *interpreter, host: &mut *host },
        sp,
        rem,
    );
    interpreter.store_at(sp, rem);
}

/// [`bitxor`], carrying the stack cursor and the gas counter.
pub fn bitxor_at<H>(context: InstructionContext<'_, H>, sp: usize, rem: u64) -> (r: (
    usize,
    u64,
))
    requires
        old(context.interpreter).ready_at(sp, rem),
    ensures
        final(context.interpreter).settled_at(r.0, r.1),
        final(context.interpreter).at(r.0, r.1) == bitxor_step(old(context.interpreter).at(sp, rem)),
        old(context.interpreter).at(sp, rem).steady(final(context.interpreter).at(r.0, r.1)),
        *final(context.host) == *old(context.host),
{
    let interpreter = context.interpreter;
    if interpreter.stack.shallow_at(sp, 2) {
        return (sp, interpreter.poison(rem, InstructionResult::StackUnderflow));
    }
    let op1 = interpreter.stack.peek_at(sp, 0);
    let op2 = interpreter.stack.peek_at(sp, 1);
    let sp: usize = interpreter.stack.replace_at(sp, 2, op1.xor(op2));
    (sp, rem)
}

/// The state after `NOT`.
pub open spec fn not_step(s: InterpreterState) -> InterpreterState {
    if s.stack.len() < 1 {
        s.halted(InstructionResult::StackUnderflow)
    } else {
        s.replaced(1, u256::word(u256::word_count() - 1 - s.nth(0).val()))
    }
}

/// `NOT`: the bitwise negation of a word.
pub fn not<H>(context: InstructionContext<'_, H>)
    requires
        old(context.interpreter).ready(),
    ensures
        final(context.interpreter).settled(),
        final(context.interpreter)@ == not_step(old(context.interpreter)@),
        old(context.interpreter)@.steady(final(context.interpreter)@),
        *final(context.host) == *old(context.host),
{
    let InstructionContext { interpreter, host } = context;
    let sp: usize = interpreter.stack.sp();
    let rem: u64 = interpreter.gas.remaining();
    let (sp, rem) = not_at(
        InstructionContext { interpreter: &mut *interpreter, host: &mut *host },
        sp,
        rem,
    );
    interpreter.store_at(sp, rem);
}

/// [`not`], carrying the stack cursor and the gas counter.
pub fn not_at<H>(context: InstructionContext<'_, H>, sp: usize, rem: u64) -> (r: (
    usize,
    u64,
))
    requires
        old(context.interpreter).ready_at(sp, rem),
    ensures
        final(context.interpreter).settled_at(r.0, r.1),
        final(context.interpreter).at(r.0, r.1) == not_step(old(context.interpreter).at(sp, rem)),
        old(context.interpreter).at(sp, rem).steady(final(context.interpreter).at(r.0, r.1)),
        *final(context.host) == *old(context.host),
{
    let interpreter = context.interpreter;
    if interpreter.stack.shallow_at(sp, 1) {
        return (sp, interpreter.poison(rem, InstructionResult::StackUnderflow));
    }
    let op1 = interpreter.stack.peek_at(sp, 0);
    let sp: usize = interpreter.stack.replace_at(sp, 1, op1.not());
    (sp, rem)
}

/// The state after `BYTE`.
pub open spec fn byte_step(s: InterpreterState) -> InterpreterState {
    if s.stack.len() < 2 {
        s.halted(InstructionResult::StackUnderflow)
    } else {
        s.replaced(2, word_byte(s.nth(0), s.nth(1)))
    }
}

/// `BYTE`: one byte of a word.
pub fn byte<H>(context: InstructionContext<'_, H>)
    requires
        old(context.interpreter).ready(),
    ensures
        final(context.interpreter).settled(),
        final(context.interpreter)@ == byte_step(old(context.interpreter)@),
        old(context.interpreter)@.steady(final(context.interpreter)@),
        *final(context.host) == *old(context.host),
{
    let InstructionContext { interpreter, host } = context;
    let sp: usize = interpreter.stack.sp();
    let rem: u64 = interpreter.gas.remaining();
    let (sp, rem) = byte_at(
        InstructionContext { interpreter: &mut *interpreter, host: &mut *host },
        sp,
        rem,
    );
    interpreter.store_at(sp, rem);
}

/// [`byte`], carrying the stack cursor and the gas counter.
pub fn byte_at<H>(context: InstructionContext<'_, H>, sp: usize, rem: u64) -> (r: (
    usize,
    u64,
))
    requires
        old(context.interpreter).ready_at(sp, rem),
    ensures
        final(context.interpreter).settled_at(r.0, r.1),
        final(context.interpreter).at(r.0, r.1) == byte_step(old(context.interpreter).at(sp, rem)),
        old(context.interpreter).at(sp, rem).steady(final(context.interpreter).at(r.0, r.1)),
        *final(context.host) == *old(context.host),
{
    let interpreter = context.interpreter;
    if interpreter.stack.shallow_at(sp, 2) {
        return (sp, interpreter.poison(rem, InstructionResult::StackUnderflow));
    }
    let op1 = interpreter.stack.peek_at(sp, 0);
    let op2 = interpreter.stack.peek_at(sp, 1);
    let o1: usize = op1.as_usize_saturated();
    let value = if o1 < 32 {
        U256::from_u64(op2.byte(31 - o1) as u64)
    } else {
        U256::zero()
    };
    let sp: usize = interpreter.stack.replace_at(sp, 2, value);
    (sp, rem)
}

/// The state after `SHL`.
pub open spec fn shl_step(s: InterpreterState) -> InterpreterState {
    if !s.enabled(SpecId::CONSTANTINOPLE) {
        s.halted(InstructionResult::NotActivated)
    } else if s.stack.len() < 2 {
        s.halted(InstructionResult::StackUnderflow)
    } else {
        s.replaced(2, word_shl(s.nth(0), s.nth(1)))
    }
}

/// `SHL`: a word shifted to the left.
pub fn shl<H>(context: InstructionContext<'_, H>)
    requires
        old(context.interpreter).ready(),
    ensures
        final(context.interpreter).settled(),
        final(context.interpreter)@ == shl_step(old(context.interpreter)@),
        old(context.interpreter)@.steady(final(context.interpreter)@),
        *final(context.host) == *old(context.host),
{
    let InstructionContext { interpreter, host } = context;
    let sp: usize = interpreter.stack.sp();
    let rem: u64 = interpreter.gas.remaining();
    let (sp, rem) = shl_at(
        InstructionContext { interpreter: &mut *interpreter, host: &mut *host },
        sp,
        rem,
    );
    interpreter.store_at(sp, rem);
}

/// [`shl`], carrying the stack cursor and the gas counter.
pub fn shl_at<H>(context: InstructionContext<'_, H>, sp: usize, rem: u64) -> (r: (
    usize,
    u64,
))
    requires
        old(context.interpreter).ready_at(sp, rem),
    ensures
        final(context.interpreter).settled_at(r.0, r.1),
        final(context.interpreter).at(r.0, r.1) == shl_step(old(context.interpreter).at(sp, rem)),
        old(context.interpreter).at(sp, rem).steady(final(context.interpreter).at(r.0, r.1)),
        *final(context.host) == *old(context.host),
{
    let interpreter = context.interpreter;
    if !interpreter.runtime_flag.spec_id().is_enabled_in(SpecId::CONSTANTINOPLE) {
        return (sp, interpreter.poison(rem, InstructionResult::NotActivated));
    }
    if interpreter.stack.shallow_at(sp, 2) {
        return (sp, interpreter.poison(rem, InstructionResult::StackUnderflow));
    }
    let op1 = interpreter.stack.peek_at(sp, 0);
    let op2 = interpreter.stack.peek_at(sp, 1);
    let shift: usize = op1.as_usize_saturated();
    let value = if shift < 256 {
        u256_shl(&op2, shift)
    } else {
        U256::zero()
    };
    let sp: usize = interpreter.stack.replace_at(sp, 2, value);
    (sp, rem)
}

/// The state after `SHR`.
pub open spec fn shr_step(s: InterpreterState) -> InterpreterState {
    if !s.enabled(SpecId::CONSTANTINOPLE) {
        s.halted(InstructionResult::NotActivated)
    } else if s.stack.len() < 2 {
        s.halted(InstructionResult::StackUnderflow)
    } else {
        s.replaced(2, word_shr(s.nth(0), s.nth(1)))
    }
}

/// `SHR`: a word shifted to the right.
pub fn shr<H>(context: InstructionContext<'_, H>)
    requires
        old(context.interpreter).ready(),
    ensures
        final(context.interpreter).settled(),
        final(context.interpreter)@ == shr_step(old(context.interpreter)@),
        old(context.interpreter)@.steady(final(context.interpreter)@),
        *final(context.host) == *old(context.host),
{
    let InstructionContext { interpreter, host } = context;
    let sp: usize = interpreter.stack.sp();
    let rem: u64 = interpreter.gas.remaining();
    let (sp, rem) = shr_at(
        InstructionContext { interpreter: &mut *interpreter, host: &mut *host },
        sp,
        rem,
    );
    interpreter.store_at(sp, rem);
}

/// [`shr`], carrying the stack cursor and the gas counter.
pub fn shr_at<H>(context: InstructionContext<'_, H>, sp: usize, rem: u64) -> (r: (
    usize,
    u64,
))
    requires
        old(context.interpreter).ready_at(sp, rem),
    ensures
        final(context.interpreter).settled_at(r.0, r.1),
        final(context.interpreter).at(r.0, r.1) == shr_step(old(context.interpreter).at(sp, rem)),
        old(context.interpreter).at(sp, rem).steady(final(context.interpreter).at(r.0, r.1)),
        *final(context.host) == *old(context.host),
{
    let interpreter = context.interpreter;
    if !interpreter.runtime_flag.spec_id().is_enabled_in(SpecId::CONSTANTINOPLE) {
        return (sp, interpreter.poison(rem, InstructionResult::NotActivated));
    }
    if interpreter.stack.shallow_at(sp, 2) {
        return (sp, interpreter.poison(rem, InstructionResult::StackUnderflow));
    }
    let op1 = interpreter.stack.peek_at(sp, 0);
    let op2 = interpreter.stack.peek_at(sp, 1);
    let shift: usize = op1.as_usize_saturated();
    let value = if shift < 256 {
        u256_shr(&op2, shift)
    } else {
        U256::zero()
    };
    let sp: usize = interpreter.stack.replace_at(sp, 2, value);
    (sp, rem)
}

/// The state after `SAR`.
pub open spec fn sar_step(s: InterpreterState) -> InterpreterState {
    if !s.enabled(SpecId::CONSTANTINOPLE) {
        s.halted(InstructionResult::NotActivated)
    } else if s.stack.len() < 2 {
        s.halted(InstructionResult::StackUnderflow)
    } else {
        s.replaced(2, word_sar(s.nth(0), s.nth(1)))
    }
}

/// `SAR`: a signed word shifted to the right.
pub fn sar<H>(context: InstructionContext<'_, H>)
    requires
        old(context.interpreter).ready(),
    ensures
        final(context.interpreter).settled(),
        final(context.interpreter)@ == sar_step(old(context.interpreter)@),
        old(context.interpreter)@.steady(final(context.interpreter)@),
        *final(context.host) == *old(context.host),
{
    let InstructionContext { interpreter, host } = context;
    let sp: usize = interpreter.stack.sp();
    let rem: u64 = interpreter.gas.remaining();
    let (sp, rem) = sar_at(
        InstructionContext { interpreter: &mut *interpreter, host: &mut *host },
        sp,
        rem,
    );
    interpreter.store_at(sp, rem);
}

/// [`sar`], carrying the stack cursor and the gas counter.
pub fn sar_at<H>(context: InstructionContext<'_, H>, sp: usize, rem: u64) -> (r: (
    usize,
    u64,
))
    requires
        old(context.interpreter).ready_at(sp, rem),
    ensures
        final(context.interpreter).settled_at(r.0, r.1),
        final(context.interpreter).at(r.0, r.1) == sar_step(old(context.interpreter).at(sp, rem)),
        old(context.interpreter).at(sp, rem).steady(final(context.interpreter).at(r.0, r.1)),
        *final(context.host) == *old(context.host),
{
    let interpreter = context.interpreter;
    if !interpreter.runtime_flag.spec_id().is_enabled_in(SpecId::CONSTANTINOPLE) {
        return (sp, interpreter.poison(rem, InstructionResult::NotActivated));
    }
    if interpreter.stack.shallow_at(sp, 2) {
        return (sp, interpreter.poison(rem, InstructionResult::StackUnderflow));
    }
    let op1 = interpreter.stack.peek_at(sp, 0);
    let op2 = interpreter.stack.peek_at(sp, 1);
    let shift: usize = op1.as_usize_saturated();
    let value = if shift < 256 {
        op2.arithmetic_shr(shift)
    } else if op2.is_negative() {
        U256::max_value()
    } else {
        U256::zero()
    };
    let sp: usize = interpreter.stack.replace_at(sp, 2, value);
    (sp, rem)
}

} // verus!
