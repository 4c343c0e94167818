//! System information instructions.

use crate::gas::{copy_cost_verylow, keccak256_cost};
use crate::instructions::context::InstructionContext;
use crate::interpreter::be_word::be_word_to;
use crate::interpreter::be_word;
use crate::interpreter::input::{CallInput, CallInputState};
use crate::interpreter::instruction_result::InstructionResult;
use crate::interpreter::interpreter_types::{
    InputsTr, LegacyBytecode, ReturnData, RuntimeFlag,
};
use crate::interpreter::machine::Interpreter;
use crate::interpreter::shared_memory;
use crate::interpreter::stack::{STACK_LIMIT, WORD};
use crate::interpreter::state::InterpreterState;
use crate::primitives::be;
use crate::primitives::keccak;
use crate::primitives::u256;
use crate::primitives::{SpecId, U256};
use vstd::prelude::*;
use vstd::slice::slice_subrange;

verus! {

/// The hash of bytes, as a word.
pub open spec fn hash_word(data: Seq<u8>) -> U256 {
    if data.len() == 0 {
        keccak::spec_keccak_empty().word
    } else {
        u256::word(keccak::keccak_val(data))
    }
}

/// The state after `KECCAK256`. The offset has left the stack; the length stays until the hash
/// takes its place.
pub open spec fn keccak256_step(s: InterpreterState) -> InterpreterState {
    if s.stack.len() < 2 {
        s.halted(InstructionResult::StackUnderflow)
    } else {
        let t = s.popped(1);
        match s.nth(1).spec_usize() {
            None => t.halted(InstructionResult::InvalidOperandOOG),
            Some(len) => match t.charged(crate::gas::calc::spec_keccak256_cost(len as int)) {
                Err(halted) => halted,
                Ok(u) => if len == 0 {
                    u.replaced(1, hash_word(Seq::empty()))
                } else {
                    match s.nth(0).spec_usize() {
                        None => u.halted(InstructionResult::InvalidOperandOOG),
                        Some(from) => match u.roomy(from as int, len as int) {
                            Err(halted) => halted,
                            Ok(v) => v.replaced(
                                1,
                                hash_word(v.memory.local().subrange(from as int, from + len)),
                            ),
                        },
                    }
                },
            },
        }
    }
}

/// `KECCAK256`: the hash of a piece of memory.
pub fn keccak256<H>(context: InstructionContext<'_, H>)
    requires
        old(context.interpreter).ready(),
    ensures
        final(context.interpreter).settled(),
        final(context.interpreter)@ == keccak256_step(old(context.interpreter)@),
        old(context.interpreter)@.thrifty(final(context.interpreter)@),
        *final(context.host) == *old(context.host),
{
    let InstructionContext { interpreter, host } = context;
    let sp: usize = interpreter.stack.sp();
    let rem: u64 = interpreter.gas.remaining();
    let (sp, rem) = keccak256_at(
        InstructionContext { interpreter: &mut *interpreter, host: &mut *host },
        sp,
        rem,
    );
    interpreter.store_at(sp, rem);
}

/// [`keccak256`], carrying the stack cursor and the gas counter.
#[verifier::spinoff_prover]
#[verifier::rlimit(60)]
pub fn keccak256_at<H>(context: InstructionContext<'_, H>, sp: usize, rem: u64) -> (r: (
    usize,
    u64,
))
    requires
        old(context.interpreter).ready_at(sp, rem),
    ensures
        final(context.interpreter).settled_at(r.0, r.1),
        final(context.interpreter).at(r.0, r.1) == keccak256_step(old(context.interpreter).at(sp, rem)),
        old(context.interpreter).at(sp, rem).thrifty(final(context.interpreter).at(r.0, r.1)),
        *final(context.host) == *old(context.host),
{
    let interpreter = context.interpreter;
    if interpreter.stack.shallow_at(sp, 2) {
        return (sp, interpreter.poison(rem, InstructionResult::StackUnderflow));
    }
    let offset = interpreter.stack.peek_at(sp, 0);
    let top = interpreter.stack.peek_at(sp, 1);
    let sp: usize = interpreter.stack.drop_at(sp, 1);
    interpreter.gas.set_remaining(rem);
    let len: usize = match top.try_usize() {
        Some(len) => len,
        None => {
            interpreter.halt(InstructionResult::InvalidOperandOOG);
            return (sp, u64::MAX);
        },
    };
    if !interpreter.charge_or_fail(keccak256_cost(len)) {
        return (sp, u64::MAX);
    }
    let hash = if len == 0 {
        keccak::keccak_empty()
    } else {
        let from: usize = match offset.try_usize() {
            Some(from) => from,
            None => {
                interpreter.halt(InstructionResult::InvalidOperandOOG);
                return (sp, u64::MAX);
            },
        };
        if !interpreter.make_room(from, len) {
            return (sp, u64::MAX);
        }
        keccak::keccak256(interpreter.memory.slice_len(from, len))
    };
    let sp: usize = interpreter.stack.replace_at(sp, 1, hash.into_u256());
    (sp, interpreter.gas.remaining())
}

/// The state after `ADDRESS`.
pub open spec fn address_step(s: InterpreterState) -> InterpreterState {
    if s.stack.len() >= STACK_LIMIT {
        s.halted(InstructionResult::StackOverflow)
    } else {
        s.pushed(s.input.target.spec_word())
    }
}

/// `ADDRESS`: pushes the account whose storage is used.
pub fn address<H>(context: InstructionContext<'_, H>)
    requires
        old(context.interpreter).ready(),
    ensures
        final(context.interpreter).settled(),
        final(context.interpreter)@ == address_step(old(context.interpreter)@),
        old(context.interpreter)@.steady(final(context.interpreter)@),
        *final(context.host) == *old(context.host),
{
    let InstructionContext { interpreter, host } = context;
    let sp: usize = interpreter.stack.sp();
    let rem: u64 = interpreter.gas.remaining();
    let (sp, rem) = address_at(
        InstructionContext { interpreter: &mut *interpreter, host: &mut *host },
        sp,
        rem,
    );
    interpreter.store_at(sp, rem);
}

/// [`address`], carrying the stack cursor and the gas counter.
pub fn address_at<H>(context: InstructionContext<'_, H>, sp: usize, rem: u64) -> (r: (
    usize,
    u64,
))
    requires
        old(context.interpreter).ready_at(sp, rem),
    ensures
        final(context.interpreter).settled_at(r.0, r.1),
        final(context.interpreter).at(r.0, r.1) == address_step(old(context.interpreter).at(sp, rem)),
        old(context.interpreter).at(sp, rem).steady(final(context.interpreter).at(r.0, r.1)),
        *final(context.host) == *old(context.host),
{
    let interpreter = context.interpreter;
    if interpreter.stack.full_at(sp) {
        return (sp, interpreter.poison(rem, InstructionResult::StackOverflow));
    }
    let value = interpreter.input.target_address().into_word();
    interpreter.stack.push_at(sp, value);
    (sp.wrapping_add(WORD), rem)
}

/// The state after `CALLER`.
pub open spec fn caller_step(s: InterpreterState) -> InterpreterState {
    if s.stack.len() >= STACK_LIMIT {
        s.halted(InstructionResult::StackOverflow)
    } else {
        s.pushed(s.input.caller.spec_word())
    }
}

/// `CALLER`: pushes the caller.
pub fn caller<H>(context: InstructionContext<'_, H>)
    requires
        old(context.interpreter).ready(),
    ensures
        final(context.interpreter).settled(),
        final(context.interpreter)@ == caller_step(old(context.interpreter)@),
        old(context.interpreter)@.steady(final(context.interpreter)@),
        *final(context.host) == *old(context.host),
{
    let InstructionContext { interpreter, host } = context;
    let sp: usize = interpreter.stack.sp();
    let rem: u64 = interpreter.gas.remaining();
    let (sp, rem) = caller_at(
        InstructionContext { interpreter: &mut *interpreter, host: &mut *host },
        sp,
        rem,
    );
    interpreter.store_at(sp, rem);
}

/// [`caller`], carrying the stack cursor and the gas counter.
pub fn caller_at<H>(context: InstructionContext<'_, H>, sp: usize, rem: u64) -> (r: (
    usize,
    u64,
))
    requires
        old(context.interpreter).ready_at(sp, rem),
    ensures
        final(context.interpreter).settled_at(r.0, r.1),
        final(context.interpreter).at(r.0, r.1) == caller_step(old(context.interpreter).at(sp, rem)),
        old(context.interpreter).at(sp, rem).steady(final(context.interpreter).at(r.0, r.1)),
        *final(context.host) == *old(context.host),
{
    let interpreter = context.interpreter;
    if interpreter.stack.full_at(sp) {
        return (sp, interpreter.poison(rem, InstructionResult::StackOverflow));
    }
    let value = interpreter.input.caller_address().into_word();
    interpreter.stack.push_at(sp, value);
    (sp.wrapping_add(WORD), rem)
}

/// The state after `CODESIZE`.
pub open spec fn codesize_step(s: InterpreterState) -> InterpreterState {
    if s.stack.len() >= STACK_LIMIT {
        s.halted(InstructionResult::StackOverflow)
    } else {
        s.pushed(u256::word(s.ext.code.original().len() as int))
    }
}

/// `CODESIZE`: pushes the length of the code.
pub fn codesize<H>(context: InstructionContext<'_, H>)
    requires
        old(context.interpreter).ready(),
    ensures
        final(context.interpreter).settled(),
        final(context.interpreter)@ == codesize_step(old(context.interpreter)@),
        old(context.interpreter)@.steady(final(context.interpreter)@),
        *final(context.host) == *old(context.host),
{
    let InstructionContext { interpreter, host } = context;
    let sp: usize = interpreter.stack.sp();
    let rem: u64 = interpreter.gas.remaining();
    let (sp, rem) = codesize_at(
        InstructionContext { interpreter: &mut *interpreter, host: &mut *host },
        sp,
        rem,
    );
    interpreter.store_at(sp, rem);
}

/// [`codesize`], carrying the stack cursor and the gas counter.
pub fn codesize_at<H>(context: InstructionContext<'_, H>, sp: usize, rem: u64) -> (r: (
    usize,
    u64,
))
    requires
        old(context.interpreter).ready_at(sp, rem),
    ensures
        final(context.interpreter).settled_at(r.0, r.1),
        final(context.interpreter).at(r.0, r.1) == codesize_step(old(context.interpreter).at(sp, rem)),
        old(context.interpreter).at(sp, rem).steady(final(context.interpreter).at(r.0, r.1)),
        *final(context.host) == *old(context.host),
{
    let interpreter = context.interpreter;
    if interpreter.stack.full_at(sp) {
        return (sp, interpreter.poison(rem, InstructionResult::StackOverflow));
    }
    let value = U256::from_u64(interpreter.bytecode.bytecode_len() as u64);
    interpreter.stack.push_at(sp, value);
    (sp.wrapping_add(WORD), rem)
}

/// Paying for a copy of `len` bytes to memory and making room for it: the state to go on with
/// and the offset, or the state that the instruction ends in, which for an empty copy is not
/// the end of the frame.
pub open spec fn copy_room(s: InterpreterState, memory_offset: U256, len: int) -> Result<
    (InterpreterState, int),
    InterpreterState,
> {
    match s.charged(crate::gas::calc::spec_copy_cost(3, len)) {
        Err(halted) => Err(halted),
        Ok(t) => if len == 0 {
            Err(t)
        } else {
            match memory_offset.spec_usize() {
                None => Err(t.halted(InstructionResult::InvalidOperandOOG)),
                Some(offset) => match t.roomy(offset as int, len) {
                    Err(halted) => Err(halted),
                    Ok(u) => Ok((u, offset as int)),
                },
            }
        },
    }
}

/// Pays for a copy of `len` bytes to memory and makes room for it. Hands back the offset,
/// unless the frame has ended or there is nothing to copy.
pub fn memory_resize(interpreter: &mut Interpreter, memory_offset: U256, len: usize) -> (r: Option<
    usize,
>)
    requires
        old(interpreter).ready(),
    ensures
        final(interpreter).settled(),
        final(interpreter).stack == old(interpreter).stack,
        old(interpreter)@.thrifty(final(interpreter)@),
        match copy_room(old(interpreter)@, memory_offset, len as int) {
            Ok(room) => {
                &&& r is Some
                &&& r->0 == room.1
                &&& final(interpreter)@ == room.0
                &&& r->0 + len <= room.0.memory.size()
                &&& final(interpreter)@.running()
            },
            Err(end) => r is None && final(interpreter)@ == end,
        },
{
    if !interpreter.charge_or_fail(copy_cost_verylow(len)) {
        return None;
    }
    if len == 0 {
        return None;
    }
    let offset: usize = match memory_offset.try_usize() {
        Some(offset) => offset,
        None => {
            interpreter.halt(InstructionResult::InvalidOperandOOG);
            return None;
        },
    };
    if !interpreter.make_room(offset, len) {
        return None;
    }
    Some(offset)
}

/// Copying to memory: paying for it, making room, and writing `len` bytes of `data` from
/// `data_offset` on; what `data` does not have is zero.
pub open spec fn copied(
    s: InterpreterState,
    memory_offset: U256,
    data_offset: int,
    len: int,
    data: Seq<u8>,
) -> InterpreterState {
    match copy_room(s, memory_offset, len) {
        Err(end) => end,
        Ok((t, offset)) => t.with_memory(
            t.memory.written(offset, shared_memory::padded_slice(data, data_offset, len as nat)),
        ),
    }
}

/// A word as a position; too large a word is the largest position.
pub open spec fn saturated(x: U256) -> int {
    if x.val() <= usize::MAX {
        x.val()
    } else {
        usize::MAX as int
    }
}

/// The state after `CODECOPY`.
pub open spec fn codecopy_step(s: InterpreterState) -> InterpreterState {
    if s.stack.len() < 3 {
        s.halted(InstructionResult::StackUnderflow)
    } else {
        let t = s.popped(3);
        match s.nth(2).spec_usize() {
            None => t.halted(InstructionResult::InvalidOperandOOG),
            Some(len) => copied(
                t,
                s.nth(0),
                saturated(s.nth(1)),
                len as int,
                s.ext.code.original(),
            ),
        }
    }
}

/// `CODECOPY`: copies code to memory.
pub fn codecopy<H>(context: InstructionContext<'_, H>)
    requires
        old(context.interpreter).ready(),
    ensures
        final(context.interpreter).settled(),
        final(context.interpreter)@ == codecopy_step(old(context.interpreter)@),
        old(context.interpreter)@.thrifty(final(context.interpreter)@),
        *final(context.host) == *old(context.host),
{
    let interpreter = context.interpreter;
    let (memory_offset, code_offset, len) = match interpreter.pop3() {
        Some(words) => words,
        None => {
            return;
        },
    };
    let len: usize = match len.try_usize() {
        Some(len) => len,
        None => {
            interpreter.halt(InstructionResult::InvalidOperandOOG);
            return;
        },
    };
    let offset: usize = match memory_resize(interpreter, memory_offset, len) {
        Some(offset) => offset,
        None => {
            return;
        },
    };
    let code_offset: usize = code_offset.as_usize_saturated();
    interpreter.memory.set_data(offset, code_offset, len, interpreter.bytecode.bytecode_slice());
}

/// The input data of the call.
pub open spec fn calldata(s: InterpreterState) -> Seq<u8> {
    match s.input.input {
        CallInputState::SharedBuffer(start, end) => s.memory.global(start, end),
        CallInputState::Bytes(bytes) => bytes,
    }
}

/// The word at an offset of the input data; what the data does not have is zero.
pub open spec fn calldata_word(s: InterpreterState, offset: U256) -> U256 {
    if offset.val() < calldata(s).len() {
        u256::word(be::be_val(shared_memory::padded_slice(calldata(s), offset.val(), 32)))
    } else {
        u256::word(0)
    }
}

/// The state after `CALLDATALOAD`.
pub open spec fn calldataload_step(s: InterpreterState) -> InterpreterState {
    if s.stack.len() < 1 {
        s.halted(InstructionResult::StackUnderflow)
    } else {
        s.replaced(1, calldata_word(s, s.nth(0)))
    }
}

/// `CALLDATALOAD`: reads a word of the input data.
pub fn calldataload<H>(context: InstructionContext<'_, H>)
    requires
        old(context.interpreter).ready(),
    ensures
        final(context.interpreter).settled(),
        final(context.interpreter)@ == calldataload_step(old(context.interpreter)@),
        old(context.interpreter)@.steady(final(context.interpreter)@),
        *final(context.host) == *old(context.host),
{
    let InstructionContext { interpreter, host } = context;
    let sp: usize = interpreter.stack.sp();
    let rem: u64 = interpreter.gas.remaining();
    let (sp, rem) = calldataload_at(
        InstructionContext { interpreter: &mut *interpreter, host: &mut *host },
        sp,
        rem,
    );
    interpreter.store_at(sp, rem);
}

/// [`calldataload`], carrying the stack cursor and the gas counter.
pub fn calldataload_at<H>(context: InstructionContext<'_, H>, sp: usize, rem: u64) -> (r: (
    usize,
    u64,
))
    requires
        old(context.interpreter).ready_at(sp, rem),
    ensures
        final(context.interpreter).settled_at(r.0, r.1),
        final(context.interpreter).at(r.0, r.1) == calldataload_step(old(context.interpreter).at(sp, rem)),
        old(context.interpreter).at(sp, rem).steady(final(context.interpreter).at(r.0, r.1)),
        *final(context.host) == *old(context.host),
{
    let interpreter = context.interpreter;
    if interpreter.stack.shallow_at(sp, 1) {
        return (sp, interpreter.poison(rem, InstructionResult::StackUnderflow));
    }
    let offset = interpreter.stack.peek_at(sp, 0);
    let input_len: usize = interpreter.input.input().len();
    assert(calldata(interpreter.at(sp, rem)).len() == input_len);
    let value = match offset.try_usize() {
        Some(at) => load_calldata(interpreter, at),
        None => U256::zero(),
    };
    let sp: usize = interpreter.stack.replace_at(sp, 1, value);
    (sp, rem)
}

/// The word at a position of the input data.
fn load_calldata(interpreter: &Interpreter, offset: usize) -> (r: U256)
    requires
        interpreter@.memory.wf(),
        interpreter@.memory.active(),
        match interpreter@.input.input {
            CallInputState::SharedBuffer(start, end) => start < end ==> 0 <= start && end
                <= interpreter@.memory.checkpoint,
            CallInputState::Bytes(_) => true,
        },
    ensures
        r == (if offset < calldata(interpreter@).len() {
            u256::word(
                be::be_val(
                    shared_memory::padded_slice(calldata(interpreter@), offset as int, 32),
                ),
            )
        } else {
            u256::word(0)
        }),
{
    let data: &[u8] = match interpreter.input.input() {
        CallInput::SharedBuffer(range) => if range.start < range.end {
            interpreter.memory.global_slice_range(range.start..range.end)
        } else {
            interpreter.memory.global_slice_range(0..0)
        },
        CallInput::Bytes(bytes) => bytes.as_slice(),
    };
    let ghost all = calldata(interpreter@);
    assert(data@ =~= all);
    let len: usize = data.len();
    if offset >= len {
        return U256::zero();
    }
    let count: usize = if len - offset < 32 {
        len - offset
    } else {
        32
    };
    let part = slice_subrange(data, offset, offset + count);
    assert(part@ + be_word::zeros((32 - count) as nat) =~= shared_memory::padded_slice(
        all,
        offset as int,
        32,
    ));
    be_word_to(part)
}

/// The state after `CALLDATASIZE`.
pub open spec fn calldatasize_step(s: InterpreterState) -> InterpreterState {
    if s.stack.len() >= STACK_LIMIT {
        s.halted(InstructionResult::StackOverflow)
    } else {
        s.pushed(u256::word(s.input.input.size()))
    }
}

/// `CALLDATASIZE`: pushes the length of the input data.
pub fn calldatasize<H>(context: InstructionContext<'_, H>)
    requires
        old(context.interpreter).ready(),
    ensures
        final(context.interpreter).settled(),
        final(context.interpreter)@ == calldatasize_step(old(context.interpreter)@),
        old(context.interpreter)@.steady(final(context.interpreter)@),
        *final(context.host) == *old(context.host),
{
    let InstructionContext { interpreter, host } = context;
    let sp: usize = interpreter.stack.sp();
    let rem: u64 = interpreter.gas.remaining();
    let (sp, rem) = calldatasize_at(
        InstructionContext { interpreter: &mut *interpreter, host: &mut *host },
        sp,
        rem,
    );
    interpreter.store_at(sp, rem);
}

/// [`calldatasize`], carrying the stack cursor and the gas counter.
pub fn calldatasize_at<H>(context: InstructionContext<'_, H>, sp: usize, rem: u64) -> (r: (
    usize,
    u64,
))
    requires
        old(context.interpreter).ready_at(sp, rem),
    ensures
        final(context.interpreter).settled_at(r.0, r.1),
        final(context.interpreter).at(r.0, r.1) == calldatasize_step(old(context.interpreter).at(sp, rem)),
        old(context.interpreter).at(sp, rem).steady(final(context.interpreter).at(r.0, r.1)),
        *final(context.host) == *old(context.host),
{
    let interpreter = context.interpreter;
    if interpreter.stack.full_at(sp) {
        return (sp, interpreter.poison(rem, InstructionResult::StackOverflow));
    }
    let value = U256::from_u64(interpreter.input.input().len() as u64);
    interpreter.stack.push_at(sp, value);
    (sp.wrapping_add(WORD), rem)
}

/// The state after `CALLVALUE`.
pub open spec fn callvalue_step(s: InterpreterState) -> InterpreterState {
    if s.stack.len() >= STACK_LIMIT {
        s.halted(InstructionResult::StackOverflow)
    } else {
        s.pushed(s.input.call_value)
    }
}

/// `CALLVALUE`: pushes the value of the call.
pub fn callvalue<H>(context: InstructionContext<'_, H>)
    requires
        old(context.interpreter).ready(),
    ensures
        final(context.interpreter).settled(),
        final(context.interpreter)@ == callvalue_step(old(context.interpreter)@),
        old(context.interpreter)@.steady(final(context.interpreter)@),
        *final(context.host) == *old(context.host),
{
    let InstructionContext { interpreter, host } = context;
    let sp: usize = interpreter.stack.sp();
    let rem: u64 = interpreter.gas.remaining();
    let (sp, rem) = callvalue_at(
        InstructionContext { interpreter: &mut *interpreter, host: &mut *host },
        sp,
        rem,
    );
    interpreter.store_at(sp, rem);
}

/// [`callvalue`], carrying the stack cursor and the gas counter.
pub fn callvalue_at<H>(context: InstructionContext<'_, H>, sp: usize, rem: u64) -> (r: (
    usize,
    u64,
))
    requires
        old(context.interpreter).ready_at(sp, rem),
    ensures
        final(context.interpreter).settled_at(r.0, r.1),
        final(context.interpreter).at(r.0, r.1) == callvalue_step(old(context.interpreter).at(sp, rem)),
        old(context.interpreter).at(sp, rem).steady(final(context.interpreter).at(r.0, r.1)),
        *final(context.host) == *old(context.host),
{
    let interpreter = context.interpreter;
    if interpreter.stack.full_at(sp) {
        return (sp, interpreter.poison(rem, InstructionResult::StackOverflow));
    }
    let value = interpreter.input.call_value();
    interpreter.stack.push_at(sp, value);
    (sp.wrapping_add(WORD), rem)
}

/// The state after `CALLDATACOPY`.
pub open spec fn calldatacopy_step(s: InterpreterState) -> InterpreterState {
    if s.stack.len() < 3 {
        s.halted(InstructionResult::StackUnderflow)
    } else {
        let t = s.popped(3);
        match s.nth(2).spec_usize() {
            None => t.halted(InstructionResult::InvalidOperandOOG),
            Some(len) => copied(t, s.nth(0), saturated(s.nth(1)), len as int, calldata(s)),
        }
    }
}

/// `CALLDATACOPY`: copies input data to memory.
#[verifier::rlimit(30)]
pub fn calldatacopy<H>(context: InstructionContext<'_, H>)
    requires
        old(context.interpreter).ready(),
    ensures
        final(context.interpreter).settled(),
        final(context.interpreter)@ == calldatacopy_step(old(context.interpreter)@),
        old(context.interpreter)@.thrifty(final(context.interpreter)@),
        *final(context.host) == *old(context.host),
{
    let interpreter = context.interpreter;
    let ghost data = calldata(interpreter@);
    let (memory_offset, data_offset, len) = match interpreter.pop3() {
        Some(words) => words,
        None => {
            return;
        },
    };
    let len: usize = match len.try_usize() {
        Some(len) => len,
        None => {
            interpreter.halt(InstructionResult::InvalidOperandOOG);
            return;
        },
    };
    let offset: usize = match memory_resize(interpreter, memory_offset, len) {
        Some(offset) => offset,
        None => {
            return;
        },
    };
    assert(calldata(interpreter@) =~= data);
    let data_offset: usize = data_offset.as_usize_saturated();
    match interpreter.input.input() {
        CallInput::Bytes(bytes) => {
            interpreter.memory.set_data(offset, data_offset, len, bytes.as_slice());
        },
        CallInput::SharedBuffer(range) => {
            let start: usize = range.start;
            let end: usize = range.end;
            interpreter.memory.global_to_local_set_data(offset, data_offset, len, start..end);
        },
    }
}

/// The state after `RETURNDATASIZE`.
pub open spec fn returndatasize_step(s: InterpreterState) -> InterpreterState {
    if !s.enabled(SpecId::BYZANTIUM) {
        s.halted(InstructionResult::NotActivated)
    } else if s.stack.len() >= STACK_LIMIT {
        s.halted(InstructionResult::StackOverflow)
    } else {
        s.pushed(u256::word(s.return_data.len() as int))
    }
}

/// `RETURNDATASIZE`: pushes the length of the data that the last call returned.
pub fn returndatasize<H>(context: InstructionContext<'_, H>)
    requires
        old(context.interpreter).ready(),
    ensures
        final(context.interpreter).settled(),
        final(context.interpreter)@ == returndatasize_step(old(context.interpreter)@),
        old(context.interpreter)@.steady(final(context.interpreter)@),
        *final(context.host) == *old(context.host),
{
    let InstructionContext { interpreter, host } = context;
    let sp: usize = interpreter.stack.sp();
    let rem: u64 = interpreter.gas.remaining();
    let (sp, rem) = returndatasize_at(
        InstructionContext { interpreter: &mut *interpreter, host: &mut *host },
        sp,
        rem,
    );
    interpreter.store_at(sp, rem);
}

/// [`returndatasize`], carrying the stack cursor and the gas counter.
pub fn returndatasize_at<H>(context: InstructionContext<'_, H>, sp: usize, rem: u64) -> (r: (
    usize,
    u64,
))
    requires
        old(context.interpreter).ready_at(sp, rem),
    ensures
        final(context.interpreter).settled_at(r.0, r.1),
        final(context.interpreter).at(r.0, r.1) == returndatasize_step(old(context.interpreter).at(sp, rem)),
        old(context.interpreter).at(sp, rem).steady(final(context.interpreter).at(r.0, r.1)),
        *final(context.host) == *old(context.host),
{
    let interpreter = context.interpreter;
    if !interpreter.runtime_flag.spec_id().is_enabled_in(SpecId::BYZANTIUM) {
        return (sp, interpreter.poison(rem, InstructionResult::NotActivated));
    }
    if interpreter.stack.full_at(sp) {
        return (sp, interpreter.poison(rem, InstructionResult::StackOverflow));
    }
    let value = U256::from_u64(interpreter.return_data.buffer().len() as u64);
    interpreter.stack.push_at(sp, value);
    (sp.wrapping_add(WORD), rem)
}

/// The state after `RETURNDATACOPY`. A copy past the end of the data ends the frame.
pub open spec fn returndatacopy_step(s: InterpreterState) -> InterpreterState {
    if !s.enabled(SpecId::BYZANTIUM) {
        s.halted(InstructionResult::NotActivated)
    } else if s.stack.len() < 3 {
        s.halted(InstructionResult::StackUnderflow)
    } else {
        let t = s.popped(3);
        match s.nth(2).spec_usize() {
            None => t.halted(InstructionResult::InvalidOperandOOG),
            Some(len) => if shared_memory::saturating_sum(saturated(s.nth(1)), len as int)
                > s.return_data.len() {
                t.halted(InstructionResult::OutOfOffset)
            } else {
                copied(t, s.nth(0), saturated(s.nth(1)), len as int, s.return_data)
            },
        }
    }
}

/// `RETURNDATACOPY`: copies the data that the last call returned to memory.
#[verifier::rlimit(30)]
pub fn returndatacopy<H>(context: InstructionContext<'_, H>)
    requires
        old(context.interpreter).ready(),
    ensures
        final(context.interpreter).settled(),
        final(context.interpreter)@ == returndatacopy_step(old(context.interpreter)@),
        old(context.interpreter)@.thrifty(final(context.interpreter)@),
        *final(context.host) == *old(context.host),
{
    let interpreter = context.interpreter;
    if !interpreter.runtime_flag.spec_id().is_enabled_in(SpecId::BYZANTIUM) {
        interpreter.halt_not_activated();
        return;
    }
    let (memory_offset, offset, len) = match interpreter.pop3() {
        Some(words) => words,
        None => {
            return;
        },
    };
    let len: usize = match len.try_usize() {
        Some(len) => len,
        None => {
            interpreter.halt(InstructionResult::InvalidOperandOOG);
            return;
        },
    };
    let data_offset: usize = offset.as_usize_saturated();
    let data_end: usize = data_offset.saturating_add(len);
    if data_end > interpreter.return_data.buffer().len() {
        interpreter.halt(InstructionResult::OutOfOffset);
        return;
    }
    let to: usize = match memory_resize(interpreter, memory_offset, len) {
        Some(to) => to,
        None => {
            return;
        },
    };
    interpreter.memory.set_data(to, data_offset, len, interpreter.return_data.buffer());
}

/// The state after `GAS`.
pub open spec fn gas_step(s: InterpreterState) -> InterpreterState {
    if s.stack.len() >= STACK_LIMIT {
        s.halted(InstructionResult::StackOverflow)
    } else {
        s.pushed(u256::word(s.gas.remaining as int))
    }
}

/// `GAS`: pushes the gas that is left.
pub fn gas<H>(context: InstructionContext<'_, H>)
    requires
        old(context.interpreter).ready(),
    ensures
        final(context.interpreter).settled(),
        final(context.interpreter)@ == gas_step(old(context.interpreter)@),
        old(context.interpreter)@.steady(final(context.interpreter)@),
        *final(context.host) == *old(context.host),
{
    let InstructionContext { interpreter, host } = context;
    let sp: usize = interpreter.stack.sp();
    let rem: u64 = interpreter.gas.remaining();
    let (sp, rem) = gas_at(
        InstructionContext { interpreter: &mut *interpreter, host: &mut *host },
        sp,
        rem,
    );
    interpreter.store_at(sp, rem);
}

/// [`gas`], carrying the stack cursor and the gas counter.
pub fn gas_at<H>(context: InstructionContext<'_, H>, sp: usize, rem: u64) -> (r: (
    usize,
    u64,
))
    requires
        old(context.interpreter).ready_at(sp, rem),
    ensures
        final(context.interpreter).settled_at(r.0, r.1),
        final(context.interpreter).at(r.0, r.1) == gas_step(old(context.interpreter).at(sp, rem)),
        old(context.interpreter).at(sp, rem).steady(final(context.interpreter).at(r.0, r.1)),
        *final(context.host) == *old(context.host),
{
    let interpreter = context.interpreter;
    if interpreter.stack.full_at(sp) {
        return (sp, interpreter.poison(rem, InstructionResult::StackOverflow));
    }
    let value = U256::from_u64(rem);
    interpreter.stack.push_at(sp, value);
    (sp.wrapping_add(WORD), rem)
}

} // verus!
