//! Arithmetic instructions.

use crate::gas::exp_cost;
use crate::instructions::context::InstructionContext;
use crate::interpreter::instruction_result::InstructionResult;
use crate::interpreter::interpreter_types::RuntimeFlag;
use crate::interpreter::state::InterpreterState;
use crate::primitives::i256::{i256_div, i256_mod, sign_extend};
use crate::primitives::i256;
use crate::primitives::u256;
use crate::primitives::U256;
use vstd::arithmetic::div_mod::*;
use vstd::arithmetic::mul::*;
use vstd::arithmetic::power::*;
use vstd::prelude::*;

verus! {

/// Whether a numerator is below `2^128` and a divisor below `2^32`, so that
/// [`div_rem_128_by_32`] can divide them. A divisor of zero qualifies: callers rule it out.
pub fn div_small_eligible(n: &U256, d: &U256) -> (r: bool)
    ensures
        r == (n.val() < 0x1_0000_0000_0000_0000_0000_0000_0000_0000int && d.val() < 0x1_0000_0000),
{
    let top: u64 = d.l0 >> 32;
    proof {
        let l0 = d.l0;
        assert(top == l0 / 0x1_0000_0000) by (bit_vector)
            requires
                top == l0 >> 32,
        ;
    }
    n.l2 == 0 && n.l3 == 0 && d.l1 == 0 && d.l2 == 0 && d.l3 == 0 && top == 0
}

/// One digit of a long division by a divisor below `2^32`: the remainder so far, shifted up by
/// 32 bits, and the next 32 bits of the numerator. The quotient is one digit.
fn div_digit(r: u64, digit: u64, d: u64) -> (qr: (u64, u64))
    requires
        0 < d <= u32::MAX,
        r < d,
        digit <= u32::MAX,
    ensures
        qr.0 <= u32::MAX,
        qr.1 < d,
        r * 0x1_0000_0000 + digit == qr.0 * d + qr.1,
{
    proof {
        assert((r << 32) | digit == r * 0x1_0000_0000 + digit) by (bit_vector)
            requires
                r <= 0xffff_ffff,
                digit <= 0xffff_ffff,
        ;
    }
    let cur: u64 = (r << 32) | digit;
    let q: u64 = cur / d;
    let rest: u64 = cur % d;
    proof {
        lemma_fundamental_div_mod(cur as int, d as int);
        lemma_mul_is_commutative(d as int, q as int);
        assert(q <= 0xffff_ffff) by (nonlinear_arith)
            requires
                cur == q * d + rest,
                0 <= rest < d,
                cur < d * 0x1_0000_0000,
        ;
    }
    (q, rest)
}

/// Two 32-bit digits as one limb.
fn join_digits(hi: u64, lo: u64) -> (r: u64)
    requires
        hi <= u32::MAX,
        lo <= u32::MAX,
    ensures
        r == hi * 0x1_0000_0000 + lo,
{
    proof {
        assert((hi << 32) | lo == hi * 0x1_0000_0000 + lo) by (bit_vector)
            requires
                hi <= 0xffff_ffff,
                lo <= 0xffff_ffff,
        ;
    }
    (hi << 32) | lo
}

/// The two 32-bit digits of a limb.
fn split_digits(w: u64) -> (r: (u64, u64))
    ensures
        r.0 <= u32::MAX,
        r.1 <= u32::MAX,
        w == r.0 * 0x1_0000_0000 + r.1,
{
    proof {
        assert(w >> 32 <= 0xffff_ffff && w & 0xffff_ffff <= 0xffff_ffff && w == (w >> 32)
            * 0x1_0000_0000 + (w & 0xffff_ffff)) by (bit_vector);
    }
    (w >> 32, w & 0xffff_ffff)
}

/// Divides a number below `2^128` by a number below `2^32` that is not zero: schoolbook long
/// division over four 32-bit digits.
pub fn div_rem_128_by_32(n: &U256, d: u64) -> (r: (U256, u64))
    requires
        0 < d <= u32::MAX,
        n.l2 == 0,
        n.l3 == 0,
    ensures
        r.0.val() == n.val() / (d as int),
        r.1 == n.val() % (d as int),
        r.0.l2 == 0,
        r.0.l3 == 0,
        r.1 < d,
{
    let (n3, n2) = split_digits(n.l1);
    let (n1, n0) = split_digits(n.l0);
    let (q3, r3) = div_digit(0, n3, d);
    let (q2, r2) = div_digit(r3, n2, d);
    let (q1, r1) = div_digit(r2, n1, d);
    let (q0, r0) = div_digit(r1, n0, d);
    let q = U256 { l0: join_digits(q1, q0), l1: join_digits(q3, q2), l2: 0, l3: 0 };
    proof {
        let b: int = 0x1_0000_0000;
        lemma_long_division(d as int, q3 as int, r3 as int, q2 as int, r2 as int, n2 as int);
        lemma_long_division(
            d as int,
            q3 * b + q2,
            r2 as int,
            q1 as int,
            r1 as int,
            n1 as int,
        );
        lemma_long_division(
            d as int,
            (q3 * b + q2) * b + q1,
            r1 as int,
            q0 as int,
            r0 as int,
            n0 as int,
        );
        assert(q.val() == ((q3 * b + q2) * b + q1) * b + q0);
        assert(n.val() == ((n3 * b + n2) * b + n1) * b + n0);
        lemma_fundamental_div_mod_converse(n.val(), d as int, q.val(), r0 as int);
    }
    (q, r0)
}

/// Taking one more digit into a long division.
proof fn lemma_long_division(d: int, q: int, r: int, q_digit: int, r_next: int, digit: int)
    requires
        r * 0x1_0000_0000 + digit == q_digit * d + r_next,
    ensures
        (q * d + r) * 0x1_0000_0000 + digit == (q * 0x1_0000_0000 + q_digit) * d + r_next,
{
    lemma_mul_is_distributive_add_other_way(d, q * 0x1_0000_0000, q_digit);
    assert((q * 0x1_0000_0000) * d == (q * d) * 0x1_0000_0000) by (nonlinear_arith);
}

/// `n / d` for a divisor that is not zero; small operands are divided by hand.
pub fn u256_div_nonzero(n: U256, d: U256) -> (r: U256)
    requires
        d.val() != 0,
    ensures
        r == u256::word(n.val() / d.val()),
        r.val() == n.val() / d.val(),
{
    if div_small_eligible(&n, &d) {
        let q = div_rem_128_by_32(&n, d.l0).0;
        proof {
            u256::lemma_word_of_val(q);
        }
        q
    } else {
        let q = n.wrapping_div(d);
        proof {
            lemma_quotient_is_word(n, d);
        }
        q
    }
}

proof fn lemma_quotient_is_word(n: U256, d: U256)
    requires
        d.val() != 0,
    ensures
        u256::word(n.val() / d.val()).val() == n.val() / d.val(),
        u256::word(n.val() % d.val()).val() == n.val() % d.val(),
{
    u256::lemma_val_bounds(n);
    u256::lemma_val_bounds(d);
    lemma_div_nonincreasing(n.val(), d.val());
    lemma_div_pos_is_pos(n.val(), d.val());
    lemma_mod_bound(n.val(), d.val());
    u256::lemma_val_of_word(n.val() / d.val());
    u256::lemma_val_of_word(n.val() % d.val());
    lemma_small_mod((n.val() / d.val()) as nat, u256::word_count() as nat);
    lemma_small_mod((n.val() % d.val()) as nat, u256::word_count() as nat);
}

/// `n % d` for a divisor that is not zero; small operands are divided by hand.
pub fn u256_rem_nonzero(n: U256, d: U256) -> (r: U256)
    requires
        d.val() != 0,
    ensures
        r == u256::word(n.val() % d.val()),
        r.val() == n.val() % d.val(),
{
    if div_small_eligible(&n, &d) {
        let rest = U256 { l0: div_rem_128_by_32(&n, d.l0).1, l1: 0, l2: 0, l3: 0 };
        proof {
            u256::lemma_word_of_val(rest);
        }
        rest
    } else {
        let rest = n.wrapping_rem(d);
        proof {
            lemma_quotient_is_word(n, d);
        }
        rest
    }
}

/// The quotient of two words; a division by zero gives zero.
pub open spec fn word_div(n: U256, d: U256) -> U256 {
    if d.val() == 0 {
        d
    } else {
        u256::word(n.val() / d.val())
    }
}

/// The remainder of two words; a division by zero gives zero.
pub open spec fn word_rem(n: U256, d: U256) -> U256 {
    if d.val() == 0 {
        d
    } else {
        u256::word(n.val() % d.val())
    }
}

/// The quotient of two signed words, rounded towards zero; a division by zero gives zero.
pub open spec fn word_sdiv(n: U256, d: U256) -> U256 {
    u256::word(
        if d.val() == 0 {
            0
        } else {
            i256::truncated_div(n.signed(), d.signed())
        },
    )
}

/// The remainder of two signed words, with the sign of the first; a division by zero gives
/// zero.
pub open spec fn word_smod(n: U256, d: U256) -> U256 {
    u256::word(
        if d.val() == 0 {
            0
        } else {
            i256::truncated_rem(n.signed(), d.signed())
        },
    )
}

/// A number modulo a word; modulo zero it is zero.
pub open spec fn residue(n: int, m: U256) -> U256 {
    u256::word(
        if m.val() == 0 {
            0
        } else {
            n % m.val()
        },
    )
}

/// The low `ext + 1` bytes of a word, extended by their sign.
pub open spec fn word_signextend(ext: U256, x: U256) -> U256 {
    if ext.val() < 31 {
        u256::word(i256::low_signed(x.val(), (8 * ext.val() + 8) as nat))
    } else {
        x
    }
}

/// The state after `ADD`.
pub open spec fn add_step(s: InterpreterState) -> InterpreterState {
    if s.stack.len() < 2 {
        s.halted(InstructionResult::StackUnderflow)
    } else {
        s.replaced(2, u256::word(s.nth(0).val() + s.nth(1).val()))
    }
}

/// `ADD`: the sum of two words.
pub fn add<H>(context: InstructionContext<'_, H>)
    requires
        old(context.interpreter).ready(),
    ensures
        final(context.interpreter).settled(),
        final(context.interpreter)@ == add_step(old(context.interpreter)@),
        old(context.interpreter)@.steady(final(context.interpreter)@),
        *final(context.host) == *old(context.host),
{
    let InstructionContext { interpreter, host } = context;
    let sp: usize = interpreter.stack.sp();
    let rem: u64 = interpreter.gas.remaining();
    let (sp, rem) = add_at(
        InstructionContext { interpreter: &mut *interpreter, host: &mut *host },
        sp,
        rem,
    );
    interpreter.store_at(sp, rem);
}

/// [`add`], carrying the stack cursor and the gas counter.
pub fn add_at<H>(context: InstructionContext<'_, H>, sp: usize, rem: u64) -> (r: (
    usize,
    u64,
))
    requires
        old(context.interpreter).ready_at(sp, rem),
    ensures
        final(context.interpreter).settled_at(r.0, r.1),
        final(context.interpreter).at(r.0, r.1) == add_step(old(context.interpreter).at(sp, rem)),
        old(context.interpreter).at(sp, rem).steady(final(context.interpreter).at(r.0, r.1)),
        *final(context.host) == *old(context.host),
{
    let interpreter = context.interpreter;
    if interpreter.stack.shallow_at(sp, 2) {
        return (sp, interpreter.poison(rem, InstructionResult::StackUnderflow));
    }
    let op1 = interpreter.stack.peek_at(sp, 0);
    let op2 = interpreter.stack.peek_at(sp, 1);
    let sp: usize = interpreter.stack.replace_at(sp, 2, op1.wrapping_add(op2));
    (sp, rem)
}

/// The state after `MUL`.
pub open spec fn mul_step(s: InterpreterState) -> InterpreterState {
    if s.stack.len() < 2 {
        s.halted(InstructionResult::StackUnderflow)
    } else {
        s.replaced(2, u256::word(s.nth(0).val() * s.nth(1).val()))
    }
}

/// `MUL`: the product of two words.
pub fn mul<H>(context: InstructionContext<'_, H>)
    requires
        old(context.interpreter).ready(),
    ensures
        final(context.interpreter).settled(),
        final(context.interpreter)@ == mul_step(old(context.interpreter)@),
        old(context.interpreter)@.steady(final(context.interpreter)@),
        *final(context.host) == *old(context.host),
{
    let InstructionContext { interpreter, host } = context;
    let sp: usize = interpreter.stack.sp();
    let rem: u64 = interpreter.gas.remaining();
    let (sp, rem) = mul_at(
        InstructionContext { interpreter: &mut *interpreter, host: &mut *host },
        sp,
        rem,
    );
    interpreter.store_at(sp, rem);
}

/// [`mul`], carrying the stack cursor and the gas counter.
pub fn mul_at<H>(context: InstructionContext<'_, H>, sp: usize, rem: u64) -> (r: (
    usize,
    u64,
))
    requires
        old(context.interpreter).ready_at(sp, rem),
    ensures
        final(context.interpreter).settled_at(r.0, r.1),
        final(context.interpreter).at(r.0, r.1) == mul_step(old(context.interpreter).at(sp, rem)),
        old(context.interpreter).at(sp, rem).steady(final(context.interpreter).at(r.0, r.1)),
        *final(context.host) == *old(context.host),
{
    let interpreter = context.interpreter;
    if interpreter.stack.shallow_at(sp, 2) {
        return (sp, interpreter.poison(rem, InstructionResult::StackUnderflow));
    }
    let op1 = interpreter.stack.peek_at(sp, 0);
    let op2 = interpreter.stack.peek_at(sp, 1);
    let sp: usize = interpreter.stack.replace_at(sp, 2, op1.wrapping_mul(op2));
    (sp, rem)
}

/// The state after `SUB`.
pub open spec fn sub_step(s: InterpreterState) -> InterpreterState {
    if s.stack.len() < 2 {
        s.halted(InstructionResult::StackUnderflow)
    } else {
        s.replaced(2, u256::word(s.nth(0).val() - s.nth(1).val()))
    }
}

/// `SUB`: the difference of two words.
pub fn sub<H>(context: InstructionContext<'_, H>)
    requires
        old(context.interpreter).ready(),
    ensures
        final(context.interpreter).settled(),
        final(context.interpreter)@ == sub_step(old(context.interpreter)@),
        old(context.interpreter)@.steady(final(context.interpreter)@),
        *final(context.host) == *old(context.host),
{
    let InstructionContext { interpreter, host } = context;
    let sp: usize = interpreter.stack.sp();
    let rem: u64 = interpreter.gas.remaining();
    let (sp, rem) = sub_at(
        InstructionContext { interpreter: &mut *interpreter, host: &mut *host },
        sp,
        rem,
    );
    interpreter.store_at(sp, rem);
}

/// [`sub`], carrying the stack cursor and the gas counter.
pub fn sub_at<H>(context: InstructionContext<'_, H>, sp: usize, rem: u64) -> (r: (
    usize,
    u64,
))
    requires
        old(context.interpreter).ready_at(sp, rem),
    ensures
        final(context.interpreter).settled_at(r.0, r.1),
        final(context.interpreter).at(r.0, r.1) == sub_step(old(context.interpreter).at(sp, rem)),
        old(context.interpreter).at(sp, rem).steady(final(context.interpreter).at(r.0, r.1)),
        *final(context.host) == *old(context.host),
{
    let interpreter = context.interpreter;
    if interpreter.stack.shallow_at(sp, 2) {
        return (sp, interpreter.poison(rem, InstructionResult::StackUnderflow));
    }
    let op1 = interpreter.stack.peek_at(sp, 0);
    let op2 = interpreter.stack.peek_at(sp, 1);
    let sp: usize = interpreter.stack.replace_at(sp, 2, op1.wrapping_sub(op2));
    (sp, rem)
}

/// The state after `DIV`.
pub open spec fn div_step(s: InterpreterState) -> InterpreterState {
    if s.stack.len() < 2 {
        s.halted(InstructionResult::StackUnderflow)
    } else {
        s.replaced(2, word_div(s.nth(0), s.nth(1)))
    }
}

/// `DIV`: the quotient of two words.
pub fn div<H>(context: InstructionContext<'_, H>)
    requires
        old(context.interpreter).ready(),
    ensures
        final(context.interpreter).settled(),
        final(context.interpreter)@ == div_step(old(context.interpreter)@),
        old(context.interpreter)@.steady(final(context.interpreter)@),
        *final(context.host) == *old(context.host),
{
    let InstructionContext { interpreter, host } = context;
    let sp: usize = interpreter.stack.sp();
    let rem: u64 = interpreter.gas.remaining();
    let (sp, rem) = div_at(
        InstructionContext { interpreter: &mut *interpreter, host: &mut *host },
        sp,
        rem,
    );
    interpreter.store_at(sp, rem);
}

/// [`div`], carrying the stack cursor and the gas counter.
pub fn div_at<H>(context: InstructionContext<'_, H>, sp: usize, rem: u64) -> (r: (
    usize,
    u64,
))
    requires
        old(context.interpreter).ready_at(sp, rem),
    ensures
        final(context.interpreter).settled_at(r.0, r.1),
        final(context.interpreter).at(r.0, r.1) == div_step(old(context.interpreter).at(sp, rem)),
        old(context.interpreter).at(sp, rem).steady(final(context.interpreter).at(r.0, r.1)),
        *final(context.host) == *old(context.host),
{
    let interpreter = context.interpreter;
    if interpreter.stack.shallow_at(sp, 2) {
        return (sp, interpreter.poison(rem, InstructionResult::StackUnderflow));
    }
    let op1 = interpreter.stack.peek_at(sp, 0);
    let op2 = interpreter.stack.peek_at(sp, 1);
    let value = if op2.is_zero() {
        op2
    } else {
        u256_div_nonzero(op1, op2)
    };
    let sp: usize = interpreter.stack.replace_at(sp, 2, value);
    (sp, rem)
}

/// The state after `SDIV`.
pub open spec fn sdiv_step(s: InterpreterState) -> InterpreterState {
    if s.stack.len() < 2 {
        s.halted(InstructionResult::StackUnderflow)
    } else {
        s.replaced(2, word_sdiv(s.nth(0), s.nth(1)))
    }
}

/// `SDIV`: the quotient of two signed words.
pub fn sdiv<H>(context: InstructionContext<'_, H>)
    requires
        old(context.interpreter).ready(),
    ensures
        final(context.interpreter).settled(),
        final(context.interpreter)@ == sdiv_step(old(context.interpreter)@),
        old(context.interpreter)@.steady(final(context.interpreter)@),
        *final(context.host) == *old(context.host),
{
    let InstructionContext { interpreter, host } = context;
    let sp: usize = interpreter.stack.sp();
    let rem: u64 = interpreter.gas.remaining();
    let (sp, rem) = sdiv_at(
        InstructionContext { interpreter: &mut *interpreter, host: &mut *host },
        sp,
        rem,
    );
    interpreter.store_at(sp, rem);
}

/// [`sdiv`], carrying the stack cursor and the gas counter.
pub fn sdiv_at<H>(context: InstructionContext<'_, H>, sp: usize, rem: u64) -> (r: (
    usize,
    u64,
))
    requires
        old(context.interpreter).ready_at(sp, rem),
    ensures
        final(context.interpreter).settled_at(r.0, r.1),
        final(context.interpreter).at(r.0, r.1) == sdiv_step(old(context.interpreter).at(sp, rem)),
        old(context.interpreter).at(sp, rem).steady(final(context.interpreter).at(r.0, r.1)),
        *final(context.host) == *old(context.host),
{
    let interpreter = context.interpreter;
    if interpreter.stack.shallow_at(sp, 2) {
        return (sp, interpreter.poison(rem, InstructionResult::StackUnderflow));
    }
    let op1 = interpreter.stack.peek_at(sp, 0);
    let op2 = interpreter.stack.peek_at(sp, 1);
    let sp: usize = interpreter.stack.replace_at(sp, 2, i256_div(op1, op2));
    (sp, rem)
}

/// The state after `MOD`.
pub open spec fn rem_step(s: InterpreterState) -> InterpreterState {
    if s.stack.len() < 2 {
        s.halted(InstructionResult::StackUnderflow)
    } else {
        s.replaced(2, word_rem(s.nth(0), s.nth(1)))
    }
}

/// `MOD`: the remainder of two words.
pub fn rem<H>(context: InstructionContext<'_, H>)
    requires
        old(context.interpreter).ready(),
    ensures
        final(context.interpreter).settled(),
        final(context.interpreter)@ == rem_step(old(context.interpreter)@),
        old(context.interpreter)@.steady(final(context.interpreter)@),
        *final(context.host) == *old(context.host),
{
    let InstructionContext { interpreter, host } = context;
    let sp: usize = interpreter.stack.sp();
    let rem: u64 = interpreter.gas.remaining();
    let (sp, rem) = rem_at(
        InstructionContext { interpreter: &mut *interpreter, host: &mut *host },
        sp,
        rem,
    );
    interpreter.store_at(sp, rem);
}

/// [`rem`], carrying the stack cursor and the gas counter.
pub fn rem_at<H>(context: InstructionContext<'_, H>, sp: usize, rem: u64) -> (r: (
    usize,
    u64,
))
    requires
        old(context.interpreter).ready_at(sp, rem),
    ensures
        final(context.interpreter).settled_at(r.0, r.1),
        final(context.interpreter).at(r.0, r.1) == rem_step(old(context.interpreter).at(sp, rem)),
        old(context.interpreter).at(sp, rem).steady(final(context.interpreter).at(r.0, r.1)),
        *final(context.host) == *old(context.host),
{
    let interpreter = context.interpreter;
    if interpreter.stack.shallow_at(sp, 2) {
        return (sp, interpreter.poison(rem, InstructionResult::StackUnderflow));
    }
    let op1 = interpreter.stack.peek_at(sp, 0);
    let op2 = interpreter.stack.peek_at(sp, 1);
    let value = if op2.is_zero() {
        op2
    } else {
        u256_rem_nonzero(op1, op2)
    };
    let sp: usize = interpreter.stack.replace_at(sp, 2, value);
    (sp, rem)
}

/// The state after `SMOD`.
pub open spec fn smod_step(s: InterpreterState) -> InterpreterState {
    if s.stack.len() < 2 {
        s.halted(InstructionResult::StackUnderflow)
    } else {
        s.replaced(2, word_smod(s.nth(0), s.nth(1)))
    }
}

/// `SMOD`: the remainder of two signed words.
pub fn smod<H>(context: InstructionContext<'_, H>)
    requires
        old(context.interpreter).ready(),
    ensures
        final(context.interpreter).settled(),
        final(context.interpreter)@ == smod_step(old(context.interpreter)@),
        old(context.interpreter)@.steady(final(context.interpreter)@),
        *final(context.host) == *old(context.host),
{
    let InstructionContext { interpreter, host } = context;
    let sp: usize = interpreter.stack.sp();
    let rem: u64 = interpreter.gas.remaining();
    let (sp, rem) = smod_at(
        InstructionContext { interpreter: &mut *interpreter, host: &mut *host },
        sp,
        rem,
    );
    interpreter.store_at(sp, rem);
}

/// [`smod`], carrying the stack cursor and the gas counter.
pub fn smod_at<H>(context: InstructionContext<'_, H>, sp: usize, rem: u64) -> (r: (
    usize,
    u64,
))
    requires
        old(context.interpreter).ready_at(sp, rem),
    ensures
        final(context.interpreter).settled_at(r.0, r.1),
        final(context.interpreter).at(r.0, r.1) == smod_step(old(context.interpreter).at(sp, rem)),
        old(context.interpreter).at(sp, rem).steady(final(context.interpreter).at(r.0, r.1)),
        *final(context.host) == *old(context.host),
{
    let interpreter = context.interpreter;
    if interpreter.stack.shallow_at(sp, 2) {
        return (sp, interpreter.poison(rem, InstructionResult::StackUnderflow));
    }
    let op1 = interpreter.stack.peek_at(sp, 0);
    let op2 = interpreter.stack.peek_at(sp, 1);
    let sp: usize = interpreter.stack.replace_at(sp, 2, i256_mod(op1, op2));
    (sp, rem)
}

/// The state after `ADDMOD`.
pub open spec fn addmod_step(s: InterpreterState) -> InterpreterState {
    if s.stack.len() < 3 {
        s.halted(InstructionResult::StackUnderflow)
    } else {
        s.replaced(3, residue(s.nth(0).val() + s.nth(1).val(), s.nth(2)))
    }
}

/// `ADDMOD`: the sum of two words, modulo a third.
pub fn addmod<H>(context: InstructionContext<'_, H>)
    requires
        old(context.interpreter).ready(),
    ensures
        final(context.interpreter).settled(),
        final(context.interpreter)@ == addmod_step(old(context.interpreter)@),
        old(context.interpreter)@.steady(final(context.interpreter)@),
        *final(context.host) == *old(context.host),
{
    let InstructionContext { interpreter, host } = context;
    let sp: usize = interpreter.stack.sp();
    let rem: u64 = interpreter.gas.remaining();
    let (sp, rem) = addmod_at(
        InstructionContext { interpreter: &mut *interpreter, host: &mut *host },
        sp,
        rem,
    );
    interpreter.store_at(sp, rem);
}

/// [`addmod`], carrying the stack cursor and the gas counter.
pub fn addmod_at<H>(context: InstructionContext<'_, H>, sp: usize, rem: u64) -> (r: (
    usize,
    u64,
))
    requires
        old(context.interpreter).ready_at(sp, rem),
    ensures
        final(context.interpreter).settled_at(r.0, r.1),
        final(context.interpreter).at(r.0, r.1) == addmod_step(old(context.interpreter).at(sp, rem)),
        old(context.interpreter).at(sp, rem).steady(final(context.interpreter).at(r.0, r.1)),
        *final(context.host) == *old(context.host),
{
    let interpreter = context.interpreter;
    if interpreter.stack.shallow_at(sp, 3) {
        return (sp, interpreter.poison(rem, InstructionResult::StackUnderflow));
    }
    let op1 = interpreter.stack.peek_at(sp, 0);
    let op2 = interpreter.stack.peek_at(sp, 1);
    let op3 = interpreter.stack.peek_at(sp, 2);
    let sp: usize = interpreter.stack.replace_at(sp, 3, op1.add_mod(op2, op3));
    (sp, rem)
}

/// The state after `MULMOD`.
pub open spec fn mulmod_step(s: InterpreterState) -> InterpreterState {
    if s.stack.len() < 3 {
        s.halted(InstructionResult::StackUnderflow)
    } else {
        s.replaced(3, residue(s.nth(0).val() * s.nth(1).val(), s.nth(2)))
    }
}

/// `MULMOD`: the product of two words, modulo a third.
pub fn mulmod<H>(context: InstructionContext<'_, H>)
    requires
        old(context.interpreter).ready(),
    ensures
        final(context.interpreter).settled(),
        final(context.interpreter)@ == mulmod_step(old(context.interpreter)@),
        old(context.interpreter)@.steady(final(context.interpreter)@),
        *final(context.host) == *old(context.host),
{
    let InstructionContext { interpreter, host } = context;
    let sp: usize = interpreter.stack.sp();
    let rem: u64 = interpreter.gas.remaining();
    let (sp, rem) = mulmod_at(
        InstructionContext { interpreter: &mut *interpreter, host: &mut *host },
        sp,
        rem,
    );
    interpreter.store_at(sp, rem);
}

/// [`mulmod`], carrying the stack cursor and the gas counter.
pub fn mulmod_at<H>(context: InstructionContext<'_, H>, sp: usize, rem: u64) -> (r: (
    usize,
    u64,
))
    requires
        old(context.interpreter).ready_at(sp, rem),
    ensures
        final(context.interpreter).settled_at(r.0, r.1),
        final(context.interpreter).at(r.0, r.1) == mulmod_step(old(context.interpreter).at(sp, rem)),
        old(context.interpreter).at(sp, rem).steady(final(context.interpreter).at(r.0, r.1)),
        *final(context.host) == *old(context.host),
{
    let interpreter = context.interpreter;
    if interpreter.stack.shallow_at(sp, 3) {
        return (sp, interpreter.poison(rem, InstructionResult::StackUnderflow));
    }
    let op1 = interpreter.stack.peek_at(sp, 0);
    let op2 = interpreter.stack.peek_at(sp, 1);
    let op3 = interpreter.stack.peek_at(sp, 2);
    let sp: usize = interpreter.stack.replace_at(sp, 3, op1.mul_mod(op2, op3));
    (sp, rem)
}

/// The state after `SIGNEXTEND`.
pub open spec fn signextend_step(s: InterpreterState) -> InterpreterState {
    if s.stack.len() < 2 {
        s.halted(InstructionResult::StackUnderflow)
    } else {
        s.replaced(2, word_signextend(s.nth(0), s.nth(1)))
    }
}

/// `SIGNEXTEND`: a word's low bytes, extended by their sign.
pub fn signextend<H>(context: InstructionContext<'_, H>)
    requires
        old(context.interpreter).ready(),
    ensures
        final(context.interpreter).settled(),
        final(context.interpreter)@ == signextend_step(old(context.interpreter)@),
        old(context.interpreter)@.steady(final(context.interpreter)@),
        *final(context.host) == *old(context.host),
{
    let InstructionContext { interpreter, host } = context;
    let sp: usize = interpreter.stack.sp();
    let rem: u64 = interpreter.gas.remaining();
    let (sp, rem) = signextend_at(
        InstructionContext { interpreter: &mut *interpreter, host: &mut *host },
        sp,
        rem,
    );
    interpreter.store_at(sp, rem);
}

/// [`signextend`], carrying the stack cursor and the gas counter.
pub fn signextend_at<H>(context: InstructionContext<'_, H>, sp: usize, rem: u64) -> (r: (
    usize,
    u64,
))
    requires
        old(context.interpreter).ready_at(sp, rem),
    ensures
        final(context.interpreter).settled_at(r.0, r.1),
        final(context.interpreter).at(r.0, r.1) == signextend_step(old(context.interpreter).at(sp, rem)),
        old(context.interpreter).at(sp, rem).steady(final(context.interpreter).at(r.0, r.1)),
        *final(context.host) == *old(context.host),
{
    let interpreter = context.interpreter;
    if interpreter.stack.shallow_at(sp, 2) {
        return (sp, interpreter.poison(rem, InstructionResult::StackUnderflow));
    }
    let op1 = interpreter.stack.peek_at(sp, 0);
    let op2 = interpreter.stack.peek_at(sp, 1);
    let sp: usize = interpreter.stack.replace_at(sp, 2, sign_extend(&op1, &op2));
    (sp, rem)
}

/// The state after `EXP`.
pub open spec fn exp_step(s: InterpreterState) -> InterpreterState {
    if s.stack.len() < 2 {
        s.halted(InstructionResult::StackUnderflow)
    } else {
        match s.popped(1).charged(crate::gas::calc::spec_exp_cost(s.flags.spec_id, s.nth(1))) {
            Err(halted) => halted,
            Ok(t) => t.replaced(1, u256::word(pow(s.nth(0).val(), s.nth(1).val() as nat))),
        }
    }
}

/// `EXP`: a word raised to the power of another.
pub fn exp<H>(context: InstructionContext<'_, H>)
    requires
        old(context.interpreter).ready(),
    ensures
        final(context.interpreter).settled(),
        final(context.interpreter)@ == exp_step(old(context.interpreter)@),
        old(context.interpreter)@.thrifty(final(context.interpreter)@),
        *final(context.host) == *old(context.host),
{
    let interpreter = context.interpreter;
    let spec_id = interpreter.runtime_flag.spec_id();
    if interpreter.stack.len() < 2 {
        interpreter.halt_underflow();
        return;
    }
    let op1 = interpreter.stack.pop_unsafe();
    let op2 = *interpreter.stack.top_unsafe();
    if !interpreter.charge_or_fail(exp_cost(spec_id, op2)) {
        return;
    }
    *interpreter.stack.top_unsafe() = op1.pow(op2);
}

} // verus!
