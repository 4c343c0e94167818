//! What the parts of an interpreter hold: results, memory, the call's input, words from bytes.

use crate::gas;
use crate::gas::GasState;
use crate::host;
use crate::host::{Host, HostCall, HostReply, LoadError};
use crate::instructions::laws;
use crate::interpreter::action;
use crate::interpreter::action::{ActionState, InterpreterResult};
use crate::interpreter::input::{CallInput, CallInputState, InputsImpl};
use crate::interpreter::instruction_result::InstructionResult;
use crate::interpreter::interpreter_types;
use crate::interpreter::interpreter_types::ExtState;
use crate::interpreter::machine;
use crate::interpreter::machine::Interpreter;
use crate::interpreter::run;
use crate::interpreter::shared_memory;
use crate::interpreter::shared_memory::MemoryState;
use crate::interpreter::stack;
use crate::interpreter::state::InterpreterState;
use crate::primitives::U256;
use vstd::prelude::*;

verus! {

/// A frame ends well with three results, is taken back with three others, and all the others are
/// errors.
pub proof fn results_are_of_three_kinds(result: InstructionResult)
    ensures
        result.spec_ok() == (result == InstructionResult::Stop || result
            == InstructionResult::Return || result == InstructionResult::SelfDestruct),
        result.spec_revert() == (result == InstructionResult::Revert || result
            == InstructionResult::CallTooDeep || result == InstructionResult::OutOfFunds),
        !(result.spec_ok() && result.spec_revert()),
{
}

/// A buffer that grows gets zeros at its end, and one that shrinks keeps its start.
pub proof fn a_buffer_grows_with_zeros(buffer: Seq<u8>, len: int)
    requires
        0 <= len,
    ensures
        shared_memory::resized(buffer, len).len() == len,
        forall|i: int|
            0 <= i < len ==> #[trigger] shared_memory::resized(buffer, len)[i] == (if i
                < buffer.len() {
                buffer[i]
            } else {
                0u8
            }),
{
}

/// A write leaves its bytes from an offset on, counted from the frame's own memory, and nothing
/// else changes.
pub proof fn a_write_leaves_its_bytes(m: MemoryState, offset: int, data: Seq<u8>)
    requires
        m.buffer is Some,
        0 <= offset,
        m.checkpoint + offset + data.len() <= m.buffer->0.len(),
    ensures
        ({
            let end = m.written(offset, data);
            let at = m.checkpoint + offset;
            &&& end.buffer is Some
            &&& end.buffer->0.len() == m.buffer->0.len()
            &&& forall|i: int|
                0 <= i < m.buffer->0.len() ==> #[trigger] end.buffer->0[i] == (if at <= i < at
                    + data.len() {
                    data[i - at]
                } else {
                    m.buffer->0[i]
                })
            &&& end.checkpoint == m.checkpoint
            &&& end.child == m.child
            &&& end.limit == m.limit
        }),
{
}

/// The frame's own memory is the buffer from its checkpoint on.
pub proof fn own_memory_starts_at_the_checkpoint(m: MemoryState, i: int)
    requires
        m.buffer is Some,
        m.checkpoint <= m.buffer->0.len(),
        0 <= i < m.buffer->0.len() - m.checkpoint,
    ensures
        m.size() == m.buffer->0.len() - m.checkpoint,
        m.local().len() == m.size(),
        m.local()[i] == m.buffer->0[m.checkpoint + i],
{
}

/// Bytes of the whole buffer are told by where they start and end, and none if that is nowhere.
pub proof fn a_range_of_the_buffer_is_its_bytes(m: MemoryState, start: int, end: int)
    requires
        m.buffer is Some,
        0 <= start,
        end <= m.buffer->0.len(),
    ensures
        m.global(start, end).len() == (if start < end {
            end - start
        } else {
            0
        }),
        forall|i: int|
            0 <= i < end - start ==> #[trigger] m.global(start, end)[i] == m.buffer->0[start + i],
{
}

/// A new frame has no memory yet: its part of the buffer starts where the buffer ends. The caller
/// waits without the buffer, and gets it back cut to what it was.
pub proof fn a_child_starts_at_the_end_of_the_buffer(m: MemoryState, child: MemoryState)
    requires
        m.buffer is Some,
        m.checkpoint <= m.buffer->0.len(),
        child.buffer is Some,
        child.buffer->0.len() >= m.buffer->0.len(),
    ensures
        m.child_context().buffer == m.buffer,
        m.child_context().checkpoint == m.buffer->0.len(),
        m.child_context().child is None,
        m.child_context().limit == m.limit,
        m.child_context().size() == 0,
        m.lent().buffer is None,
        m.lent().child == Some(m.buffer->0.len()),
        m.lent().checkpoint == m.checkpoint,
        m.lent().limit == m.limit,
        m.lent().restored(child).buffer == child.buffer,
        m.lent().restored(child).child == Some(m.buffer->0.len()),
        ({
            let back = m.lent().restored(child).freed();
            &&& back.child is None
            &&& back.checkpoint == m.checkpoint
            &&& back.limit == m.limit
            &&& back.buffer == Some(child.buffer->0.subrange(0, m.buffer->0.len() as int))
        }),
{
}

/// An access is over the limit if its end is, counted from the start of the buffer, where no end
/// is beyond the largest offset.
pub proof fn an_access_is_over_the_limit_by_its_end(m: MemoryState, offset: int, len: int)
    ensures
        m.over_limit(offset, len) <==> m.checkpoint + offset + len > m.limit && m.limit
            < usize::MAX,
{
}

/// The input of a call is as long as the range of the buffer, or as the bytes.
pub proof fn an_input_is_as_long_as_its_bytes(start: int, end: int, bytes: Seq<u8>)
    ensures
        CallInputState::Bytes(bytes).size() == bytes.len(),
        start <= end ==> CallInputState::SharedBuffer(start, end).size() == end - start,
        start > end ==> CallInputState::SharedBuffer(start, end).size() == 0,
{
}

/// Bytes become words of 32, the first bytes the lowest word; each word is spelled by its bytes,
/// the last one by what is left.
pub proof fn a_slice_becomes_words_of_32_bytes(bytes: Seq<u8>, i: int)
    requires
        0 <= i,
        32 * i < bytes.len(),
    ensures
        stack::slice_words(bytes).len() == (bytes.len() + 31) / 32,
        laws::bytes_of(
            stack::slice_words(bytes)[i].val(),
            bytes.subrange(
                32 * i,
                if 32 * i + 32 <= bytes.len() {
                    32 * i + 32
                } else {
                    bytes.len() as int
                },
            ),
        ),
{
    laws::lemma_bytes_of(
        bytes.subrange(
            32 * i,
            if 32 * i + 32 <= bytes.len() {
                32 * i + 32
            } else {
                bytes.len() as int
            },
        ),
    );
}

/// Words are counted from the top of the stack. An exchange puts two of them in each other's
/// place.
pub proof fn words_are_counted_from_the_top(words: Seq<U256>, a: int, b: int)
    requires
        0 <= a < words.len(),
        0 <= b < words.len(),
    ensures
        stack::nth(words, a) == words[words.len() - 1 - a],
        stack::dropped(words, a).len() == words.len() - a,
        forall|i: int|
            0 <= i < words.len() - a ==> #[trigger] stack::dropped(words, a)[i] == words[i],
        ({
            let end = stack::exchanged(words, a, b);
            &&& end.len() == words.len()
            &&& end[words.len() - 1 - a] == words[words.len() - 1 - b]
            &&& end[words.len() - 1 - b] == words[words.len() - 1 - a]
            &&& forall|i: int|
                0 <= i < words.len() && i != words.len() - 1 - a && i != words.len() - 1 - b
                    ==> #[trigger] end[i] == words[i]
        }),
{
}

/// A cursor is where the topmost word starts, in bytes, and one word below zero for an empty
/// stack. It leaves no room if there are 1024 words. With a sign it is its two's complement.
pub proof fn a_cursor_tells_the_depth(depth: nat, sp: usize)
    requires
        depth <= 1024,
    ensures
        stack::live(stack::cursor_of(depth)),
        stack::depth_of(stack::cursor_of(depth)) == depth,
        depth > 0 ==> stack::cursor_of(depth) == 32 * (depth - 1),
        stack::cursor_of(0) == usize::MAX - 31,
        stack::full(stack::cursor_of(depth)) <==> depth == 1024,
        stack::live(sp) ==> stack::depth_of(sp) <= 1024 && stack::cursor_of(stack::depth_of(sp))
            == sp,
        isize::MIN <= stack::spec_signed(sp) <= isize::MAX,
        stack::spec_signed(sp) == sp || stack::spec_signed(sp) == sp - usize::MAX - 1,
{
}

/// An interpreter of nothing is called by no one, with no value and no data, in the Prague fork,
/// and may change the state.
pub proof fn an_interpreter_of_nothing_is_called_by_no_one(memory: MemoryState)
    ensures
        ({
            let s = machine::blank(memory);
            &&& s.ext.code.original().len() == 0
            &&& s.ext.hash is None
            &&& s.ext.ip == 0
            &&& s.ext.running
            &&& s.input.target.val() == 0
            &&& s.input.caller.val() == 0
            &&& s.input.bytecode_address is None
            &&& s.input.call_value.val() == 0
            &&& s.input.input.size() == 0
            &&& !s.flags.is_static
            &&& s.flags.spec_id == crate::primitives::SpecId::PRAGUE
            &&& s.gas.limit == i64::MAX
            &&& s.gas.remaining == i64::MAX
            &&& s.memory == memory
        }),
{
    crate::primitives::u256::lemma_val_of_word(0);
    crate::bytecode::laws::raw_bytes_are_told_apart_by_their_start(Seq::empty());
}

/// An interpreter and its parts are told field by field.
pub proof fn an_interpreter_is_told_as_it_is(
    interpreter: Interpreter,
    input: InputsImpl,
    result: InterpreterResult,
    log: crate::host::Log,
    load: crate::host::AccountInfoLoad,
)
    ensures
        interpreter@.ext == interpreter.bytecode@,
        interpreter@.gas == interpreter.gas@,
        interpreter@.return_data == interpreter.return_data.0@,
        interpreter@.memory == interpreter.memory@,
        interpreter@.input == interpreter.input@,
        interpreter@.flags == interpreter.runtime_flag,
        interpreter@.stack == interpreter.stack@,
        interpreter@.stash == interpreter.gas_stash,
        input@.target == input.target_address,
        input@.bytecode_address == input.bytecode_address,
        input@.caller == input.caller_address,
        input@.call_value == input.call_value,
        input.input matches CallInput::Bytes(bytes) ==> input@.input == CallInputState::Bytes(
            bytes@,
        ),
        input.input matches CallInput::SharedBuffer(range) ==> input@.input
            == CallInputState::SharedBuffer(range.start as int, range.end as int),
        result@.result == result.result,
        result@.output == result.output@,
        result@.gas == result.gas@,
        log@.address == log.address,
        log@.topics == log.topics@,
        log@.data == log.data@,
        load@.balance == load.balance,
        load@.nonce == load.nonce,
        load@.code_hash == load.code_hash,
        load@.is_cold == load.is_cold,
        load@.code is Some <==> load.code is Some,
        load.code matches Some(code) ==> load@.code->0 == code@,
{
}

/// Immediate numbers with a sign are read as two's complement.
pub proof fn immediates_have_a_sign(a: u16, b: u8)
    ensures
        -0x8000 <= interpreter_types::signed_16(a) < 0x8000,
        (interpreter_types::signed_16(a) - a) % 0x1_0000 == 0,
        -0x80 <= interpreter_types::signed_8(b) < 0x80,
        (interpreter_types::signed_8(b) - b) % 0x100 == 0,
{
}

/// A new interpreter has an empty stack, no memory that is paid for, nothing returned, and the
/// gas of its limit, which is at most the largest signed number.
pub proof fn an_interpreter_starts_with_its_gas(
    memory: MemoryState,
    ext: ExtState,
    input: crate::interpreter::input::InputState,
    flags: crate::interpreter::input::RuntimeFlags,
    gas_limit: u64,
)
    ensures
        ({
            let s = machine::fresh(memory, ext, input, flags, gas_limit);
            &&& s.stack.len() == 0
            &&& s.return_data.len() == 0
            &&& s.memory == memory
            &&& s.ext == ext
            &&& s.input == input
            &&& s.flags == flags
            &&& s.gas.words == 0
            &&& s.gas.refunded == 0
            &&& s.gas.limit == s.gas.remaining
            &&& gas_limit <= i64::MAX ==> s.gas.limit == gas_limit
            &&& gas_limit > i64::MAX ==> s.gas.limit == i64::MAX
        }),
{
}

/// Taking the action leaves an interpreter that can go on, with the gas that was left when it
/// ended. Nothing else changes.
pub proof fn a_taken_action_leaves_the_gas(s: InterpreterState)
    ensures
        s.taken().ext.running,
        s.taken().ext.action is None,
        s.taken().ext.ip == s.ext.ip,
        s.taken().ext.code == s.ext.code,
        s.taken().ext.hash == s.ext.hash,
        s.taken().gas.remaining == (if s.stash == u64::MAX {
            s.gas.remaining
        } else {
            s.stash
        }),
        s.taken().gas.limit == s.gas.limit,
        s.taken().gas.refunded == s.gas.refunded,
        s.taken().gas.words == s.gas.words,
        s.taken().stash == u64::MAX,
        s.taken().stack == s.stack,
        s.taken().memory == s.memory,
        s.taken().return_data == s.return_data,
        s.taken().input == s.input,
        s.taken().flags == s.flags,
        s.unpoisoned() == (InterpreterState {
            ext: s.ext,
            gas: s.taken().gas,
            stash: u64::MAX,
            ..s
        }),
{
}

/// A run is made of steps, each of them that of the byte where it stands; only the last state is
/// one in which the run has ended, and its action is what the run gives.
pub proof fn a_run_is_made_of_steps<H: Host>(
    s: InterpreterState,
    pre: &H,
    end: InterpreterState,
    post: &H,
    action: ActionState,
)
    requires
        run::ran(s, pre, end, post, action),
    ensures
        exists|trace: Seq<(InterpreterState, H)>|
            {
                &&& #[trigger] run::is_run(trace)
                &&& trace.first() == (s, *pre)
                &&& trace.last().1 == *post
                &&& trace.last().0.ext.action == Some(action)
                &&& !trace.last().0.ext.running
                &&& end == trace.last().0.taken()
                &&& forall|i: int|
                    0 <= i < trace.len() - 1 ==> laws::at(
                        (#[trigger] trace[i]).0.ext.code.bytes()[trace[i].0.ext.ip] as int,
                        trace[i].0,
                        &trace[i].1,
                        trace[i + 1].0,
                        &trace[i + 1].1,
                    )
            },
{
    let trace = choose|trace: Seq<(InterpreterState, H)>|
        {
            &&& #[trigger] run::is_run(trace)
            &&& trace[0] == (s, *pre)
            &&& trace.last().1 == *post
            &&& !trace.last().0.running()
            &&& trace.last().0.ext.action == Some(action)
            &&& end == trace.last().0.taken()
        };
    assert forall|i: int| 0 <= i < trace.len() - 1 implies laws::at(
        (#[trigger] trace[i]).0.ext.code.bytes()[trace[i].0.ext.ip] as int,
        trace[i].0,
        &trace[i].1,
        trace[i + 1].0,
        &trace[i + 1].1,
    ) by {
        assert(run::linked(trace, i));
    }
}

/// A frame that halts has no output, and the gas that it has.
pub proof fn a_halt_has_no_output(result: InstructionResult, left: GasState)
    ensures
        action::halt_action(result, left) matches ActionState::Return(r) && r.result == result
            && r.output.len() == 0 && r.gas == left,
{
}

/// A memory that grows costs 3 for each word and the square of their number over 512, less what
/// is paid for already. `2^32` words are too many.
pub proof fn a_growth_is_recorded(words: nat, new: int)
    ensures
        ({
            let (after, cost) = gas::recorded(words, new);
            if new <= words {
                after == words && cost is None
            } else if new >= 0x1_0000_0000 {
                after == words && cost == Some(0xffff_ffff_ffff_ffffint)
            } else {
                after == new && cost == Some(
                    3 * (new - words) + new * new / 512 - words * words / 512,
                )
            }
        }),
{
}

/// A word at an offset needs no growth if it ends inside the words that are paid for.
pub proof fn an_offset_is_below_the_bound_if_its_word_is_paid_for(words: nat, offset: int)
    requires
        0 <= offset,
    ensures
        offset < gas::limit_of_words(words) <==> offset + 32 <= 32 * words,
{
}

/// The bytes ahead of an instruction are those of the code from there on.
pub proof fn bytes_ahead_are_those_of_the_code(ext: ExtState, offset: int, len: int, i: int)
    requires
        0 <= ext.ip + offset,
        0 <= i < len,
        ext.ip + offset + len <= ext.code.bytes().len(),
    ensures
        ext.ahead(offset, len).len() == len,
        ext.ahead(offset, len)[i] == ext.code.bytes()[ext.ip + offset + i],
{
}

/// A frame starts running at its first byte.
pub proof fn a_frame_starts_at_the_first_byte(
    code: crate::bytecode::code::CodeState,
    hash: Option<crate::primitives::B256>,
)
    ensures
        ({
            let ext = crate::interpreter::ext_bytecode::fresh(code, hash);
            &&& ext.code == code
            &&& ext.hash == hash
            &&& ext.ip == 0
            &&& ext.running
            &&& ext.action is None
        }),
{
}

/// A host that knows nothing fails every question about an account, has no hashes, and its
/// transient slots are zero.
pub proof fn a_dummy_knows_nothing(call: HostCall)
    ensures
        match call {
            HostCall::LoadAccount(..) => host::dummy_reply(call) == HostReply::Account(
                Err(LoadError::DBError),
            ),
            HostCall::Balance(_) => host::dummy_reply(call) == HostReply::Balance(None),
            HostCall::Code(_) => host::dummy_reply(call) == HostReply::Code(None),
            HostCall::BlockHash(_) => host::dummy_reply(call) == HostReply::Hash(None),
            HostCall::SLoadSkipCold(..) => host::dummy_reply(call) == HostReply::Slot(
                Err(LoadError::DBError),
            ),
            HostCall::SLoad(..) => host::dummy_reply(call) == HostReply::SlotOr(None),
            HostCall::SStoreSkipCold(..) => host::dummy_reply(call) == HostReply::Write(
                Err(LoadError::DBError),
            ),
            HostCall::SStore(..) => host::dummy_reply(call) == HostReply::WriteOr(None),
            HostCall::TLoad(..) => host::dummy_reply(call) is Word
                && host::dummy_reply(call)->Word_0.val() == 0,
            HostCall::TStore(..) => host::dummy_reply(call) is Done,
            HostCall::Log(_) => host::dummy_reply(call) is Done,
            HostCall::SelfDestruct(..) => host::dummy_reply(call) == HostReply::SelfDestruct(None),
        },
{
    crate::primitives::u256::lemma_val_of_word(0);
}

/// A refund as an unsigned number is its two's complement, and is read back from it. Gas that is
/// spent is what is missing of the limit.
pub proof fn a_refund_is_read_back(refunded: i64, left: GasState, remaining: u64)
    ensures
        0 <= gas::refund_as_u64(refunded) <= u64::MAX,
        (gas::refund_as_u64(refunded) - refunded) % 0x1_0000_0000_0000_0000 == 0,
        gas::refund_from_u64(gas::refund_as_u64(refunded)) == refunded,
        left.spent() == left.limit - left.remaining,
        left.with_remaining(remaining).remaining == remaining,
        left.with_remaining(remaining).limit == left.limit,
        left.with_remaining(remaining).refunded == left.refunded,
        left.with_remaining(remaining).words == left.words,
{
}

} // verus!
