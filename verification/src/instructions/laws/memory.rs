//! Memory: what is read from it, written to it and copied into it, and what that costs.

use crate::host::Host;
use crate::instructions::laws;
use crate::instructions::memory;
use crate::instructions::system;
use crate::instructions::table;
use crate::interpreter::input::CallInputState;
use crate::interpreter::instruction_result::InstructionResult;
use crate::interpreter::shared_memory;
use crate::interpreter::state::InterpreterState;
use crate::primitives::be;
use crate::primitives::bits;
use crate::primitives::keccak;
use crate::primitives::u256;
use crate::primitives::{SpecId, U256};
use vstd::arithmetic::power::*;
use vstd::arithmetic::power2::*;
use vstd::prelude::*;

verus! {

/// How an access to the word at an offset fails, if it does. The limit of the buffer does not
/// matter where the frame has the word already.
pub open spec fn word_error(s: InterpreterState, offset: int, gas: int) -> Option<
    InstructionResult,
> {
    if offset + 32 <= 32 * s.gas.words {
        None
    } else {
        laws::access_error(s, offset, 32, gas)
    }
}

/// The bytes of `data` from an offset on; there are zeros behind what it has.
pub open spec fn piece(data: Seq<u8>, from: int, len: int) -> Seq<u8> {
    Seq::new(
        len as nat,
        |i: int|
            if from + i < data.len() {
                data[from + i]
            } else {
                0u8
            },
    )
}

/// The data that the frame was called with: its own, or a part of the buffer.
pub open spec fn call_data(s: InterpreterState) -> Seq<u8> {
    match s.input.input {
        CallInputState::Bytes(data) => data,
        CallInputState::SharedBuffer(from, to) => if from < to {
            s.memory.buffer->0.subrange(from, to)
        } else {
            Seq::empty()
        },
    }
}

/// The state between the charge of an instruction of one byte and an access to memory: words
/// are taken, gas is spent, and the rest is as before.
pub open spec fn reduced(s: InterpreterState, taken: int, cost: int) -> InterpreterState {
    s.with_ip(s.ext.ip + 1).with_remaining((s.gas.remaining - cost) as u64).popped(taken)
}

/// Room is made in that state as it would be before the instruction.
pub proof fn lemma_reduced(s: InterpreterState, taken: int, cost: int, offset: int, len: int)
    requires
        s.ok(),
        s.ext.running,
        0 <= taken <= s.stack.len(),
        0 <= cost <= s.gas.remaining,
        0 <= offset <= usize::MAX,
        0 < len <= usize::MAX,
    ensures
        ({
            let t = reduced(s, taken, cost);
            let gas = s.gas.remaining - cost;
            match laws::access_error(s, offset, len, gas) {
                Some(error) => t.roomy(offset, len) is Err && laws::ended(
                    s,
                    t.roomy(offset, len)->Err_0,
                    error,
                    gas,
                ),
                None => {
                    let u = t.roomy(offset, len)->Ok_0;
                    &&& t.roomy(offset, len) is Ok
                    &&& laws::accessed(s, u, 1, cost, offset, len)
                    &&& laws::same_cells(s, u)
                    &&& u.stack == t.stack
                    &&& laws::growth(s, offset, len) >= 0
                    &&& u.memory.local().subrange(offset, offset + len) == laws::cells(s, offset, len)
                    &&& u.memory.checkpoint + offset + len <= u.memory.buffer->0.len()
                },
            }
        }),
{
    let t = reduced(s, taken, cost);
    assert(t.ok());
    laws::lemma_roomy(t, offset, len);
    if laws::access_error(s, offset, len, s.gas.remaining - cost) is None {
        let u = t.roomy(offset, len)->Ok_0;
        assert forall|i: int| 0 <= i implies #[trigger] laws::cell(u, i) == laws::cell(s, i) by {
            assert(laws::cell(u, i) == laws::cell(t, i));
        }
        super::lemma_price_grows(s.gas.words as int, laws::words_after(s, offset, len));
        assert(u.memory.local().subrange(offset, offset + len) =~= laws::cells(s, offset, len)) by {
            assert forall|i: int| 0 <= i < len implies u.memory.local().subrange(
                offset,
                offset + len,
            )[i] == laws::cells(s, offset, len)[i] by {
                assert(laws::cell(u, offset + i) == laws::cell(s, offset + i));
            }
        }
    }
}

/// A write changes what it writes.
pub proof fn lemma_written(
    s: InterpreterState,
    u: InterpreterState,
    cost: int,
    offset: int,
    data: Seq<u8>,
    reach: int,
)
    requires
        laws::accessed(s, u, 1, cost, reach, data.len() as int),
        laws::same_cells(s, u),
        0 <= offset <= reach,
    ensures
        ({
            let end = u.with_memory(u.memory.written(offset, data));
            &&& laws::accessed(s, end, 1, cost, reach, data.len() as int)
            &&& laws::cells_written(s, end, offset, data)
        }),
{
    let end = u.with_memory(u.memory.written(offset, data));
    let b = u.memory.buffer->0;
    assert(end.memory.buffer->0.subrange(0, s.memory.checkpoint as int) =~= b.subrange(
        0,
        s.memory.checkpoint as int,
    ));
    assert forall|i: int| 0 <= i implies #[trigger] laws::cell(end, i) == (if offset <= i < offset
        + data.len() {
        data[i - offset]
    } else {
        laws::cell(s, i)
    }) by {
        assert(laws::cell(u, i) == laws::cell(s, i));
    }
}

/// The bytes of a word.
proof fn lemma_word_spelled(x: U256)
    ensures
        be::be_bytes(x.val(), 32).len() == 32,
        laws::bytes_of(x.val(), be::be_bytes(x.val(), 32)),
{
    be::lemma_be_bytes_len(x.val(), 32);
    be::lemma_be_val_of_bytes(x.val(), 32);
    lemma_pow2(256);
    bits::lemma_pow2_limbs();
    assert(pow(256, 32) == u256::word_count()) by {
        lemma_pow_multiplies(2, 8, 32);
        lemma2_to64();
        lemma_pow2(8);
    }
    u256::lemma_val_bounds(x);
    laws::lemma_be_val_bytes(be::be_bytes(x.val(), 32));
}

/// The least byte of a word.
proof fn lemma_least_byte(x: U256)
    ensures
        x.spec_byte(0) as u8 == x.val() % 256,
{
    lemma2_to64();
    u256::lemma_val_bounds(x);
    let v = x.val();
    assert(v / 1 == v);
}

/// The word that an access in reach needs is there or is made.
proof fn lemma_word_room(s: InterpreterState, cost: int, offset: int)
    requires
        s.ok(),
        s.ext.running,
        0 <= cost <= s.gas.remaining,
        0 <= offset <= usize::MAX,
    ensures
        ({
            let t = reduced(s, 0, cost);
            let gas = s.gas.remaining - cost;
            match word_error(s, offset, gas) {
                Some(error) => t.roomy_word(offset) is Err && laws::ended(
                    s,
                    t.roomy_word(offset)->Err_0,
                    error,
                    gas,
                ),
                None => {
                    let u = t.roomy_word(offset)->Ok_0;
                    &&& t.roomy_word(offset) is Ok
                    &&& laws::accessed(s, u, 1, cost, offset, 32)
                    &&& laws::same_cells(s, u)
                    &&& u.stack == s.stack
                    &&& u.memory.local().subrange(offset, offset + 32) == laws::cells(s, offset, 32)
                    &&& u.memory.checkpoint + offset + 32 <= u.memory.buffer->0.len()
                },
            }
        }),
{
    let t = reduced(s, 0, cost);
    assert(t.stack =~= s.stack);
    if offset + 32 <= 32 * s.gas.words {
        assert(laws::words_after(s, offset, 32) == s.gas.words);
        assert(t.memory.local().subrange(offset, offset + 32) =~= laws::cells(s, offset, 32));
    } else {
        lemma_reduced(s, 0, cost, offset, 32);
    }
}

/// `MLOAD` reads the 32 bytes of memory from an offset on as a word, the most significant byte
/// first. Memory that was not there is zero.
pub proof fn an_mload_reads_the_word_at_an_offset<H: Host>(
    s: InterpreterState,
    pre: &H,
    end: InterpreterState,
    post: &H,
)
    requires
        laws::at(0x51, s, pre, end, post),
        s.ok(),
    ensures
        *post == *pre,
        if s.gas.remaining < 3 {
            laws::ended(s, end, InstructionResult::OutOfGas, 0)
        } else if s.stack.len() < 1 {
            laws::ended(s, end, InstructionResult::StackUnderflow, s.gas.remaining - 3)
        } else if laws::top(s, 0) > usize::MAX {
            laws::ended(s, end, InstructionResult::InvalidOperandOOG, s.gas.remaining - 3)
        } else {
            match word_error(s, laws::top(s, 0), s.gas.remaining - 3) {
                Some(error) => laws::ended(s, end, error, s.gas.remaining - 3),
                None => {
                    &&& laws::accessed(s, end, 1, 3, laws::top(s, 0), 32)
                    &&& laws::same_cells(s, end)
                    &&& laws::left(s.stack, end.stack, 1, laws::top(end, 0))
                    &&& laws::bytes_of(laws::top(end, 0), laws::cells(s, laws::top(s, 0), 32))
                },
            }
        },
{
    reveal(table::flow_effect);
    if s.gas.remaining >= 3 && s.stack.len() >= 1 && laws::top(s, 0) <= usize::MAX {
        let t = reduced(s, 0, 3);
        assert(t.stack =~= s.stack);
        lemma_word_room(s, 3, laws::top(s, 0));
        if word_error(s, laws::top(s, 0), s.gas.remaining - 3) is None {
            let u = t.roomy_word(laws::top(s, 0))->Ok_0;
            laws::lemma_bytes_of(laws::cells(s, laws::top(s, 0), 32));
            assert(end == u.with_stack(end.stack));
            assert forall|i: int| 0 <= i implies #[trigger] laws::cell(end, i) == laws::cell(s, i) by {
                assert(laws::cell(u, i) == laws::cell(s, i));
            }
        }
    }
}

/// `MSTORE` writes a word to the 32 bytes of memory from an offset on, the most significant
/// byte first, and leaves the other bytes alone.
pub proof fn an_mstore_writes_the_word_at_an_offset<H: Host>(
    s: InterpreterState,
    pre: &H,
    end: InterpreterState,
    post: &H,
)
    requires
        laws::at(0x52, s, pre, end, post),
        s.ok(),
    ensures
        *post == *pre,
        if s.gas.remaining < 3 {
            laws::ended(s, end, InstructionResult::OutOfGas, 0)
        } else if s.stack.len() < 2 {
            laws::ended(s, end, InstructionResult::StackUnderflow, s.gas.remaining - 3)
        } else if laws::top(s, 0) > usize::MAX {
            laws::ended(s, end, InstructionResult::InvalidOperandOOG, s.gas.remaining - 3)
        } else {
            match word_error(s, laws::top(s, 0), s.gas.remaining - 3) {
                Some(error) => laws::ended(s, end, error, s.gas.remaining - 3),
                None => {
                    &&& laws::accessed(s, end, 1, 3, laws::top(s, 0), 32)
                    &&& laws::bytes_of(laws::top(s, 1), laws::cells(end, laws::top(s, 0), 32))
                    &&& laws::same_cells_but(s, end, laws::top(s, 0), 32)
                    &&& end.stack == s.stack.subrange(0, s.stack.len() - 2)
                },
            }
        },
{
    reveal(table::flow_effect);
    if s.gas.remaining >= 3 && s.stack.len() >= 2 && laws::top(s, 0) <= usize::MAX {
        let t = reduced(s, 0, 3);
        assert(t.stack =~= s.stack);
        lemma_word_room(s, 3, laws::top(s, 0));
        if word_error(s, laws::top(s, 0), s.gas.remaining - 3) is None {
            let u = t.roomy_word(laws::top(s, 0))->Ok_0;
            let data = be::be_bytes(laws::top(s, 1), 32);
            lemma_word_spelled(s.stack[s.stack.len() - 2]);
            lemma_written(s, u, 3, laws::top(s, 0), data, laws::top(s, 0));
            let w = u.with_memory(u.memory.written(laws::top(s, 0), data));
            assert(end == w.with_stack(end.stack));
            assert forall|i: int| 0 <= i implies #[trigger] laws::cell(end, i) == laws::cell(w, i) by {}
            assert(laws::cells(end, laws::top(s, 0), 32) =~= data);
        }
    }
}

/// `MSTORE8` writes the least significant byte of a word to memory, and leaves the other bytes
/// alone.
pub proof fn an_mstore8_writes_the_least_byte<H: Host>(
    s: InterpreterState,
    pre: &H,
    end: InterpreterState,
    post: &H,
)
    requires
        laws::at(0x53, s, pre, end, post),
        s.ok(),
    ensures
        *post == *pre,
        if s.gas.remaining < 3 {
            laws::ended(s, end, InstructionResult::OutOfGas, 0)
        } else if s.stack.len() < 2 {
            laws::ended(s, end, InstructionResult::StackUnderflow, s.gas.remaining - 3)
        } else if laws::top(s, 0) > usize::MAX {
            laws::ended(s, end, InstructionResult::InvalidOperandOOG, s.gas.remaining - 3)
        } else {
            match laws::access_error(s, laws::top(s, 0), 1, s.gas.remaining - 3) {
                Some(error) => laws::ended(s, end, error, s.gas.remaining - 3),
                None => {
                    &&& laws::accessed(s, end, 1, 3, laws::top(s, 0), 1)
                    &&& laws::cell(end, laws::top(s, 0)) == laws::top(s, 1) % 256
                    &&& laws::same_cells_but(s, end, laws::top(s, 0), 1)
                    &&& end.stack == s.stack.subrange(0, s.stack.len() - 2)
                },
            }
        },
{
    reveal(table::flow_effect);
    if s.gas.remaining >= 3 && s.stack.len() >= 2 && laws::top(s, 0) <= usize::MAX {
        lemma_least_byte(s.stack[s.stack.len() - 2]);
        lemma_reduced(s, 2, 3, laws::top(s, 0), 1);
        if laws::access_error(s, laws::top(s, 0), 1, s.gas.remaining - 3) is None {
            let u = reduced(s, 2, 3).roomy(laws::top(s, 0), 1)->Ok_0;
            let data = seq![s.stack[s.stack.len() - 2].spec_byte(0) as u8];
            lemma_written(s, u, 3, laws::top(s, 0), data, laws::top(s, 0));
            assert(end == u.with_memory(u.memory.written(laws::top(s, 0), data)));
        }
    }
}

/// What `MCOPY` does when its price is paid.
proof fn lemma_mcopy_move(s: InterpreterState, cost: int)
    requires
        s.ok(),
        s.ext.running,
        s.stack.len() >= 3,
        0 < laws::top(s, 2) <= usize::MAX,
        0 <= cost <= s.gas.remaining,
    ensures
        ({
            let gas = s.gas.remaining as int;
            let len = laws::top(s, 2);
            let reach = if laws::top(s, 0) >= laws::top(s, 1) {
                laws::top(s, 0)
            } else {
                laws::top(s, 1)
            };
            let end = memory::mcopy_move(
                reduced(s, 3, cost),
                s.stack[s.stack.len() - 1],
                s.stack[s.stack.len() - 2],
                len,
            );
            if reach > usize::MAX {
                laws::ended(s, end, InstructionResult::InvalidOperandOOG, gas - cost)
            } else {
                match laws::access_error(s, reach, len, gas - cost) {
                    Some(error) => laws::ended(s, end, error, gas - cost),
                    None => {
                        &&& laws::accessed(s, end, 1, cost, reach, len)
                        &&& laws::cells_written(
                            s,
                            end,
                            laws::top(s, 0),
                            laws::cells(s, laws::top(s, 1), len),
                        )
                        &&& end.stack == s.stack.subrange(0, s.stack.len() - 3)
                    },
                }
            }
        }),
{
    let len = laws::top(s, 2);
    let to = laws::top(s, 0);
    let from = laws::top(s, 1);
    let reach = if to >= from {
        to
    } else {
        from
    };
    if reach <= usize::MAX {
        lemma_reduced(s, 3, cost, reach, len);
        if laws::access_error(s, reach, len, s.gas.remaining - cost) is None {
            let u = reduced(s, 3, cost).roomy(reach, len)->Ok_0;
            let data = u.memory.local().subrange(from, from + len);
            assert(data =~= laws::cells(s, from, len)) by {
                assert forall|i: int| 0 <= i < len implies data[i] == laws::cells(s, from, len)[i] by {
                    assert(laws::cell(u, from + i) == laws::cell(s, from + i));
                }
            }
            lemma_written(s, u, cost, to, data, reach);
        }
    }
}

/// Bytes of memory were copied to another place, for 3 gas and 3 for each word. What is read is
/// what was there before.
pub open spec fn moved(s: InterpreterState, end: InterpreterState) -> bool {
    let gas = s.gas.remaining as int;
    let len = laws::top(s, 2);
    let cost = 3 + 3 * laws::words_for(len);
    let reach = if laws::top(s, 0) >= laws::top(s, 1) {
        laws::top(s, 0)
    } else {
        laws::top(s, 1)
    };
    if !s.flags.spec_id.enabled(SpecId::CANCUN) {
        laws::ended(s, end, InstructionResult::NotActivated, gas)
    } else if s.stack.len() < 3 {
        laws::ended(s, end, InstructionResult::StackUnderflow, gas)
    } else if len > usize::MAX {
        laws::ended(s, end, InstructionResult::InvalidOperandOOG, gas)
    } else if gas < cost {
        laws::ended(s, end, InstructionResult::OutOfGas, 0)
    } else if len == 0 {
        laws::went_on(s, end, 1, cost) && end.stack == s.stack.subrange(0, s.stack.len() - 3)
    } else if reach > usize::MAX {
        laws::ended(s, end, InstructionResult::InvalidOperandOOG, gas - cost)
    } else {
        match laws::access_error(s, reach, len, gas - cost) {
            Some(error) => laws::ended(s, end, error, gas - cost),
            None => {
                &&& laws::accessed(s, end, 1, cost, reach, len)
                &&& laws::cells_written(
                    s,
                    end,
                    laws::top(s, 0),
                    laws::cells(s, laws::top(s, 1), len),
                )
                &&& end.stack == s.stack.subrange(0, s.stack.len() - 3)
            },
        }
    }
}

proof fn lemma_moved(s: InterpreterState)
    requires
        s.ok(),
        s.ext.running,
    ensures
        moved(s, memory::mcopy_step(reduced(s, 0, 0))),
{
    let t = reduced(s, 0, 0);
    let end = memory::mcopy_step(t);
    assert(t.stack =~= s.stack);
    if s.flags.spec_id.enabled(SpecId::CANCUN) && s.stack.len() >= 3 {
        let len = laws::top(s, 2);
        let cost = 3 + 3 * laws::words_for(len);
        if len <= usize::MAX && cost <= s.gas.remaining && len > 0 {
            lemma_mcopy_move(s, cost);
            assert(t.popped(3).with_remaining((s.gas.remaining - cost) as u64) == reduced(
                s,
                3,
                cost,
            ));
        }
    }
}

/// `MCOPY` copies bytes of memory to another place; what is read is what was there before,
/// also where the two overlap.
pub proof fn an_mcopy_moves_what_was_there<H: Host>(
    s: InterpreterState,
    pre: &H,
    end: InterpreterState,
    post: &H,
)
    requires
        laws::at(0x5e, s, pre, end, post),
        s.ok(),
    ensures
        *post == *pre,
        moved(s, end),
{
    reveal(table::flow_effect);
    lemma_moved(s);
    assert(reduced(s, 0, 0) == s.with_ip(s.ext.ip + 1).with_remaining(
        (s.gas.remaining - 0) as u64,
    )) by {
        assert(reduced(s, 0, 0).stack =~= s.stack);
    }
}

/// Bytes of memory were hashed, for 30 gas and 6 for each word. The hash of no bytes is a
/// constant.
pub open spec fn hashed(s: InterpreterState, end: InterpreterState) -> bool {
    let gas = s.gas.remaining as int;
    let len = laws::top(s, 1);
    let cost = 30 + 6 * laws::words_for(len);
    if s.stack.len() < 2 {
        laws::ended(s, end, InstructionResult::StackUnderflow, gas)
    } else if len > usize::MAX {
        laws::ended(s, end, InstructionResult::InvalidOperandOOG, gas)
    } else if gas < cost {
        laws::ended(s, end, InstructionResult::OutOfGas, 0)
    } else if len == 0 {
        laws::went_on(s, end, 1, cost) && laws::left(
            s.stack,
            end.stack,
            2,
            0xc5d2_4601_86f7_233c_927e_7db2_dcc7_03c0_e500_b653_ca82_273b_7bfa_d804_5d85_a470int,
        )
    } else if laws::top(s, 0) > usize::MAX {
        laws::ended(s, end, InstructionResult::InvalidOperandOOG, gas - cost)
    } else {
        match laws::access_error(s, laws::top(s, 0), len, gas - cost) {
            Some(error) => laws::ended(s, end, error, gas - cost),
            None => {
                &&& laws::accessed(s, end, 1, cost, laws::top(s, 0), len)
                &&& laws::same_cells(s, end)
                &&& laws::left(
                    s.stack,
                    end.stack,
                    2,
                    keccak::keccak_val(laws::cells(s, laws::top(s, 0), len)) % u256::word_count(),
                )
            },
        }
    }
}

proof fn lemma_hashed(s: InterpreterState)
    requires
        s.ok(),
        s.ext.running,
    ensures
        hashed(s, system::keccak256_step(reduced(s, 0, 0))),
{
    let t = reduced(s, 0, 0);
    let end = system::keccak256_step(t);
    assert(t.stack =~= s.stack);
    if s.stack.len() >= 2 {
        let len = laws::top(s, 1);
        let cost = 30 + 6 * laws::words_for(len);
        if len <= usize::MAX && cost <= s.gas.remaining && len > 0 && laws::top(s, 0) <= usize::MAX {
            lemma_reduced(s, 1, cost, laws::top(s, 0), len);
            if laws::access_error(s, laws::top(s, 0), len, s.gas.remaining - cost) is None {
                let u = reduced(s, 1, cost).roomy(laws::top(s, 0), len)->Ok_0;
                assert(t.popped(1).with_remaining((s.gas.remaining - cost) as u64) == reduced(
                    s,
                    1,
                    cost,
                ));
                u256::lemma_val_of_word(keccak::keccak_val(laws::cells(s, laws::top(s, 0), len)));
                assert(end == u.with_stack(end.stack));
                assert forall|i: int| 0 <= i implies #[trigger] laws::cell(end, i) == laws::cell(s, i) by {
                    assert(laws::cell(u, i) == laws::cell(s, i));
                }
            }
        }
    }
}

/// `KECCAK256` leaves the hash of the bytes of memory from an offset on, for 30 gas and 6 for
/// each word. The hash of no bytes is a constant.
pub proof fn a_hash_is_that_of_the_bytes_at_the_offset<H: Host>(
    s: InterpreterState,
    pre: &H,
    end: InterpreterState,
    post: &H,
)
    requires
        laws::at(0x20, s, pre, end, post),
        s.ok(),
    ensures
        *post == *pre,
        hashed(s, end),
{
    reveal(table::environment_effect);
    lemma_hashed(s);
    assert(reduced(s, 0, 0) == s.with_ip(s.ext.ip + 1).with_remaining(
        (s.gas.remaining - 0) as u64,
    )) by {
        assert(reduced(s, 0, 0).stack =~= s.stack);
    }
}

/// The hash of bytes that memory holds at an offset is the hash of those bytes.
pub proof fn what_was_written_is_hashed<H: Host>(
    s: InterpreterState,
    pre: &H,
    end: InterpreterState,
    post: &H,
    data: Seq<u8>,
)
    requires
        s.ok(),
        laws::at(0x20, s, pre, end, post),
        end.ext.running,
        data.len() > 0,
        laws::top(s, 1) == data.len(),
        forall|i: int| 0 <= i < data.len() ==> #[trigger] data[i] == laws::cell(s, laws::top(s, 0) + i),
    ensures
        laws::top(end, 0) == keccak::keccak_val(data) % u256::word_count(),
{
    a_hash_is_that_of_the_bytes_at_the_offset(s, pre, end, post);
    assert(laws::cells(s, laws::top(s, 0), data.len() as int) =~= data);
}

/// `CALLDATALOAD` reads the 32 bytes of the call's data from an offset on as a word, the most
/// significant byte first. There are zeros behind the data.
pub proof fn a_calldataload_pads_with_zeros<H: Host>(
    s: InterpreterState,
    pre: &H,
    end: InterpreterState,
    post: &H,
)
    requires
        laws::at(0x35, s, pre, end, post),
        s.ok(),
    ensures
        *post == *pre,
        if s.gas.remaining < 3 {
            laws::ended(s, end, InstructionResult::OutOfGas, 0)
        } else if s.stack.len() < 1 {
            laws::ended(s, end, InstructionResult::StackUnderflow, s.gas.remaining - 3)
        } else {
            &&& laws::went_on(s, end, 1, 3)
            &&& laws::left(s.stack, end.stack, 1, laws::top(end, 0))
            &&& laws::bytes_of(laws::top(end, 0), piece(call_data(s), laws::top(s, 0), 32))
        },
{
    reveal(table::environment_effect);
    if s.gas.remaining >= 3 && s.stack.len() >= 1 {
        let t = reduced(s, 0, 3);
        assert(system::calldata(t) =~= call_data(s));
        let bytes = piece(call_data(s), laws::top(s, 0), 32);
        laws::lemma_bytes_of(bytes);
        assert(shared_memory::padded_slice(call_data(s), laws::top(s, 0), 32) =~= bytes);
        if laws::top(s, 0) >= call_data(s).len() {
            assert(bytes =~= Seq::new(32, |i: int| 0u8));
            be::lemma_be_val_zeros(32);
        }
    }
}

/// Bytes were copied to memory, from an offset of `data` on, for 3 gas and 3 for each word;
/// there are zeros behind the data.
pub open spec fn copied_in(s: InterpreterState, end: InterpreterState, data: Seq<u8>) -> bool {
    let gas = s.gas.remaining as int;
    let len = laws::top(s, 2);
    let cost = 3 + 3 * laws::words_for(len);
    if gas < cost {
        laws::ended(s, end, InstructionResult::OutOfGas, 0)
    } else if len == 0 {
        laws::went_on(s, end, 1, cost) && end.stack == s.stack.subrange(0, s.stack.len() - 3)
    } else if laws::top(s, 0) > usize::MAX {
        laws::ended(s, end, InstructionResult::InvalidOperandOOG, gas - cost)
    } else {
        match laws::access_error(s, laws::top(s, 0), len, gas - cost) {
            Some(error) => laws::ended(s, end, error, gas - cost),
            None => {
                &&& laws::accessed(s, end, 1, cost, laws::top(s, 0), len)
                &&& laws::cells_written(s, end, laws::top(s, 0), piece(data, laws::top(s, 1), len))
                &&& end.stack == s.stack.subrange(0, s.stack.len() - 3)
            },
        }
    }
}

proof fn lemma_copied_in(s: InterpreterState, data: Seq<u8>)
    requires
        s.ok(),
        s.ext.running,
        s.stack.len() >= 3,
        laws::top(s, 2) <= usize::MAX,
        data.len() <= usize::MAX,
    ensures
        copied_in(
            s,
            system::copied(
                reduced(s, 3, 0),
                s.stack[s.stack.len() - 1],
                system::saturated(s.stack[s.stack.len() - 2]),
                laws::top(s, 2),
                data,
            ),
            data,
        ),
{
    let len = laws::top(s, 2);
    let cost = 3 + 3 * laws::words_for(len);
    let t = reduced(s, 3, 0);
    let from = system::saturated(s.stack[s.stack.len() - 2]);
    let end = system::copied(t, s.stack[s.stack.len() - 1], from, len, data);
    if cost <= s.gas.remaining && len > 0 && laws::top(s, 0) <= usize::MAX {
        lemma_reduced(s, 3, cost, laws::top(s, 0), len);
        assert(t.with_remaining((s.gas.remaining - cost) as u64) == reduced(s, 3, cost));
        if laws::access_error(s, laws::top(s, 0), len, s.gas.remaining - cost) is None {
            let u = reduced(s, 3, cost).roomy(laws::top(s, 0), len)->Ok_0;
            let bytes = shared_memory::padded_slice(data, from, len as nat);
            assert(bytes =~= piece(data, laws::top(s, 1), len));
            lemma_written(s, u, cost, laws::top(s, 0), bytes, laws::top(s, 0));
        }
    }
}

/// `CALLDATACOPY` copies the call's data to memory.
pub proof fn a_calldatacopy_copies_the_calls_data<H: Host>(
    s: InterpreterState,
    pre: &H,
    end: InterpreterState,
    post: &H,
)
    requires
        laws::at(0x37, s, pre, end, post),
        s.ok(),
        call_data(s).len() <= usize::MAX,
    ensures
        *post == *pre,
        ({
            let gas = s.gas.remaining as int;
            if s.stack.len() < 3 {
                laws::ended(s, end, InstructionResult::StackUnderflow, gas)
            } else if laws::top(s, 2) > usize::MAX {
                laws::ended(s, end, InstructionResult::InvalidOperandOOG, gas)
            } else {
                copied_in(s, end, call_data(s))
            }
        }),
{
    reveal(table::environment_effect);
    if s.stack.len() >= 3 && laws::top(s, 2) <= usize::MAX {
        let t = s.with_ip(s.ext.ip + 1);
        assert(t.with_remaining((s.gas.remaining - 0) as u64).popped(3) == reduced(s, 3, 0));
        assert(system::calldata(t) =~= call_data(s));
        lemma_copied_in(s, call_data(s));
    }
}

/// `CODECOPY` copies the code, as it is stored, to memory.
pub proof fn a_codecopy_copies_the_code<H: Host>(
    s: InterpreterState,
    pre: &H,
    end: InterpreterState,
    post: &H,
)
    requires
        laws::at(0x39, s, pre, end, post),
        s.ok(),
        s.ext.code.original().len() <= usize::MAX,
    ensures
        *post == *pre,
        ({
            let gas = s.gas.remaining as int;
            if s.stack.len() < 3 {
                laws::ended(s, end, InstructionResult::StackUnderflow, gas)
            } else if laws::top(s, 2) > usize::MAX {
                laws::ended(s, end, InstructionResult::InvalidOperandOOG, gas)
            } else {
                copied_in(s, end, s.ext.code.original())
            }
        }),
{
    reveal(table::environment_effect);
    if s.stack.len() >= 3 && laws::top(s, 2) <= usize::MAX {
        let t = s.with_ip(s.ext.ip + 1);
        assert(t.with_remaining((s.gas.remaining - 0) as u64).popped(3) == reduced(s, 3, 0));
        lemma_copied_in(s, s.ext.code.original());
    }
}

/// `RETURNDATACOPY` copies what the last call returned to memory. Bytes that it did not return
/// end the frame.
pub proof fn a_returndatacopy_stays_inside<H: Host>(
    s: InterpreterState,
    pre: &H,
    end: InterpreterState,
    post: &H,
)
    requires
        laws::at(0x3e, s, pre, end, post),
        s.ok(),
        s.return_data.len() < usize::MAX,
    ensures
        *post == *pre,
        ({
            let gas = s.gas.remaining as int;
            if !s.flags.spec_id.enabled(SpecId::BYZANTIUM) {
                laws::ended(s, end, InstructionResult::NotActivated, gas)
            } else if s.stack.len() < 3 {
                laws::ended(s, end, InstructionResult::StackUnderflow, gas)
            } else if laws::top(s, 2) > usize::MAX {
                laws::ended(s, end, InstructionResult::InvalidOperandOOG, gas)
            } else if laws::top(s, 1) + laws::top(s, 2) > s.return_data.len() {
                laws::ended(s, end, InstructionResult::OutOfOffset, gas)
            } else {
                copied_in(s, end, s.return_data)
            }
        }),
{
    reveal(table::environment_effect);
    if s.stack.len() >= 3 && laws::top(s, 2) <= usize::MAX {
        let t = s.with_ip(s.ext.ip + 1);
        assert(t.with_remaining((s.gas.remaining - 0) as u64).popped(3) == reduced(s, 3, 0));
        lemma_copied_in(s, s.return_data);
    }
}

/// `RETURN` ends the frame with the bytes of memory from an offset on.
pub proof fn a_return_hands_out_memory<H: Host>(
    s: InterpreterState,
    pre: &H,
    end: InterpreterState,
    post: &H,
)
    requires
        laws::at(0xf3, s, pre, end, post),
        s.ok(),
    ensures
        *post == *pre,
        ({
            let gas = s.gas.remaining as int;
            let len = laws::top(s, 1);
            if s.stack.len() < 2 {
                laws::ended(s, end, InstructionResult::StackUnderflow, gas)
            } else if len > usize::MAX {
                laws::ended(s, end, InstructionResult::InvalidOperandOOG, gas)
            } else if len == 0 {
                laws::ended(s, end, InstructionResult::Return, gas)
            } else if laws::top(s, 0) > usize::MAX {
                laws::ended(s, end, InstructionResult::InvalidOperandOOG, gas)
            } else {
                match laws::access_error(s, laws::top(s, 0), len, gas) {
                    Some(error) => laws::ended(s, end, error, gas),
                    None => laws::returned(
                        s,
                        end,
                        InstructionResult::Return,
                        laws::cells(s, laws::top(s, 0), len),
                        gas - laws::growth(s, laws::top(s, 0), len),
                    ),
                }
            }
        }),
{
    reveal(table::ending_effect);
    if s.stack.len() >= 2 {
        let len = laws::top(s, 1);
        if len <= usize::MAX && len > 0 && laws::top(s, 0) <= usize::MAX {
            lemma_reduced(s, 2, 0, laws::top(s, 0), len);
            assert(reduced(s, 2, 0) == s.with_ip(s.ext.ip + 1).with_remaining(
                (s.gas.remaining - 0) as u64,
            ).popped(2));
        }
    }
}

/// `REVERT` ends the frame in the same way, and asks for it to be taken back.
pub proof fn a_revert_hands_out_memory<H: Host>(
    s: InterpreterState,
    pre: &H,
    end: InterpreterState,
    post: &H,
)
    requires
        laws::at(0xfd, s, pre, end, post),
        s.ok(),
    ensures
        *post == *pre,
        ({
            let gas = s.gas.remaining as int;
            let len = laws::top(s, 1);
            if !s.flags.spec_id.enabled(SpecId::BYZANTIUM) {
                laws::ended(s, end, InstructionResult::NotActivated, gas)
            } else if s.stack.len() < 2 {
                laws::ended(s, end, InstructionResult::StackUnderflow, gas)
            } else if len > usize::MAX {
                laws::ended(s, end, InstructionResult::InvalidOperandOOG, gas)
            } else if len == 0 {
                laws::ended(s, end, InstructionResult::Revert, gas)
            } else if laws::top(s, 0) > usize::MAX {
                laws::ended(s, end, InstructionResult::InvalidOperandOOG, gas)
            } else {
                match laws::access_error(s, laws::top(s, 0), len, gas) {
                    Some(error) => laws::ended(s, end, error, gas),
                    None => laws::returned(
                        s,
                        end,
                        InstructionResult::Revert,
                        laws::cells(s, laws::top(s, 0), len),
                        gas - laws::growth(s, laws::top(s, 0), len),
                    ),
                }
            }
        }),
{
    reveal(table::ending_effect);
    if s.stack.len() >= 2 {
        let len = laws::top(s, 1);
        if len <= usize::MAX && len > 0 && laws::top(s, 0) <= usize::MAX {
            lemma_reduced(s, 2, 0, laws::top(s, 0), len);
            assert(reduced(s, 2, 0) == s.with_ip(s.ext.ip + 1).with_remaining(
                (s.gas.remaining - 0) as u64,
            ).popped(2));
        }
    }
}

} // verus!
