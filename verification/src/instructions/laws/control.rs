//! Jumps, the pairs that a run takes together, and requests for new frames.

use crate::host::Host;
use crate::instructions::laws;
use crate::instructions::stack as stack_instructions;
use crate::instructions::table;
use crate::instructions::table::Instruction;
use crate::interpreter::action::{ActionState, CallOperands, CreateOperands, FrameRequest};
use crate::interpreter::instruction_result::InstructionResult;
use crate::interpreter::laws as runs;
use crate::interpreter::run;
use crate::interpreter::state::InterpreterState;
use crate::primitives::address;
use crate::primitives::be;
use crate::primitives::U256;
use vstd::prelude::*;

verus! {

/// The run goes on behind the `JUMPDEST` at a position, with `cost` less gas.
pub open spec fn jumped(
    s: InterpreterState,
    end: InterpreterState,
    target: int,
    cost: int,
) -> bool {
    &&& s.ext.code.bytes()[target] == 0x5b
    &&& laws::went_on(s, end, target + 1 - s.ext.ip, cost)
}

/// `JUMPDEST` does nothing but cost 1.
pub proof fn a_jumpdest_only_costs<H: Host>(
    s: InterpreterState,
    pre: &H,
    end: InterpreterState,
    post: &H,
)
    requires
        laws::at(0x5b, s, pre, end, post),
    ensures
        *post == *pre,
        if s.gas.remaining < 1 {
            laws::ended(s, end, InstructionResult::OutOfGas, 0)
        } else {
            laws::went_on(s, end, 1, 1) && end.stack == s.stack
        },
{
    reveal(table::flow_effect);
}

/// `JUMP` goes on behind the `JUMPDEST` at the position that it takes from the stack, for 8
/// gas and the 1 of the `JUMPDEST`. Elsewhere no jump may land.
pub proof fn a_jump_lands_on_a_jumpdest<H: Host>(
    s: InterpreterState,
    pre: &H,
    end: InterpreterState,
    post: &H,
)
    requires
        laws::at(0x56, s, pre, end, post),
        s.ext.code.runnable(),
        s.ext.code.bytes().len() <= usize::MAX,
    ensures
        *post == *pre,
        if s.gas.remaining < 9 {
            laws::ended(s, end, InstructionResult::OutOfGas, 0)
        } else if s.stack.len() < 1 {
            laws::ended(s, end, InstructionResult::StackUnderflow, s.gas.remaining - 9)
        } else if !s.ext.code.valid_jump(laws::top(s, 0)) {
            laws::ended(s, end, InstructionResult::InvalidJump, s.gas.remaining - 9)
        } else {
            jumped(s, end, laws::top(s, 0), 9) && end.stack == s.stack.subrange(0, s.stack.len() - 1)
        },
{
}

/// `JUMPI` goes on behind the `JUMPDEST` at the position that it takes from the stack if the
/// word below it is not zero, for 10 gas and the 1 of the `JUMPDEST`; otherwise behind itself,
/// for 10.
pub proof fn a_jumpi_lands_on_a_jumpdest_or_goes_on<H: Host>(
    s: InterpreterState,
    pre: &H,
    end: InterpreterState,
    post: &H,
)
    requires
        laws::at(0x57, s, pre, end, post),
        s.ext.code.runnable(),
        s.ext.code.bytes().len() <= usize::MAX,
    ensures
        *post == *pre,
        if s.gas.remaining < 10 {
            laws::ended(s, end, InstructionResult::OutOfGas, 0)
        } else if s.stack.len() < 2 {
            laws::ended(s, end, InstructionResult::StackUnderflow, s.gas.remaining - 10)
        } else if laws::top(s, 1) == 0 {
            laws::went_on(s, end, 1, 10) && end.stack == s.stack.subrange(0, s.stack.len() - 2)
        } else if !s.ext.code.valid_jump(laws::top(s, 0)) {
            laws::ended(s, end, InstructionResult::InvalidJump, s.gas.remaining - 10)
        } else if s.gas.remaining < 11 {
            laws::ended(s, end, InstructionResult::OutOfGas, 0)
        } else {
            jumped(s, end, laws::top(s, 0), 11) && end.stack == s.stack.subrange(0, s.stack.len() - 2)
        },
{
}

/// Through the table a `JUMP` costs 8 and goes on at the `JUMPDEST`, which is not yet paid for.
pub proof fn a_jump_by_the_table_stands_on_a_jumpdest<H: Host>(
    entry: Instruction,
    s: InterpreterState,
    pre: &H,
    end: InterpreterState,
    post: &H,
)
    requires
        table::is_default_entry(entry, 0x56),
        run::table_step(entry, s, pre, end, post),
        s.ext.running,
        s.ext.code.runnable(),
        s.ext.code.bytes().len() <= usize::MAX,
    ensures
        *post == *pre,
        if s.gas.remaining < 8 {
            laws::ended(s, end, InstructionResult::OutOfGas, 0)
        } else if s.stack.len() < 1 {
            laws::ended(s, end, InstructionResult::StackUnderflow, s.gas.remaining - 8)
        } else if !s.ext.code.valid_jump(laws::top(s, 0)) {
            laws::ended(s, end, InstructionResult::InvalidJump, s.gas.remaining - 8)
        } else {
            laws::went_on(s, end, laws::top(s, 0) - s.ext.ip, 8) && end.stack == s.stack.subrange(
                0,
                s.stack.len() - 1,
            )
        },
{
}

/// Through the table a `JUMPI` costs 10 and goes on at the `JUMPDEST` or behind itself.
pub proof fn a_jumpi_by_the_table_stands_on_a_jumpdest_or_goes_on<H: Host>(
    entry: Instruction,
    s: InterpreterState,
    pre: &H,
    end: InterpreterState,
    post: &H,
)
    requires
        table::is_default_entry(entry, 0x57),
        run::table_step(entry, s, pre, end, post),
        s.ext.running,
        s.ext.code.runnable(),
        s.ext.code.bytes().len() <= usize::MAX,
    ensures
        *post == *pre,
        if s.gas.remaining < 10 {
            laws::ended(s, end, InstructionResult::OutOfGas, 0)
        } else if s.stack.len() < 2 {
            laws::ended(s, end, InstructionResult::StackUnderflow, s.gas.remaining - 10)
        } else if laws::top(s, 1) == 0 {
            laws::went_on(s, end, 1, 10) && end.stack == s.stack.subrange(0, s.stack.len() - 2)
        } else if !s.ext.code.valid_jump(laws::top(s, 0)) {
            laws::ended(s, end, InstructionResult::InvalidJump, s.gas.remaining - 10)
        } else {
            laws::went_on(s, end, laws::top(s, 0) - s.ext.ip, 10) && end.stack == s.stack.subrange(
                0,
                s.stack.len() - 2,
            )
        },
{
}

/// Two bytes as a number.
proof fn lemma_two_bytes(bytes: Seq<u8>)
    requires
        bytes.len() == 2,
    ensures
        be::be_val(bytes) == 256 * bytes[0] + bytes[1],
{
    reveal_with_fuel(be::be_val, 3);
    assert(bytes.drop_last().drop_last() =~= Seq::empty());
}

/// A `PUSH2` that a `JUMP` follows goes on behind the `JUMPDEST` at the position that its two
/// bytes spell.
pub proof fn a_push2_and_a_jump_land_on_a_jumpdest<H: Host>(
    s: InterpreterState,
    pre: &H,
    end: InterpreterState,
    post: &H,
)
    requires
        laws::at(0x61, s, pre, end, post),
        s.ok(),
        s.at_instruction(),
        s.stack.len() < 1024,
        s.ext.code.bytes()[s.ext.ip + 3] == 0x56,
    ensures
        *post == *pre,
        ({
            let target = (256 * s.ext.code.bytes()[s.ext.ip + 1] + s.ext.code.bytes()[s.ext.ip + 2]);
            if s.gas.remaining < 12 {
                laws::ended(s, end, InstructionResult::OutOfGas, 0)
            } else if !s.ext.code.valid_jump(target) {
                laws::ended(s, end, InstructionResult::InvalidJump, s.gas.remaining - 12)
            } else {
                jumped(s, end, target, 12) && end.stack == s.stack
            }
        }),
{
    run::lemma_pair(s, 0x61, 2);
    let bytes = s.ext.code.bytes().subrange(s.ext.ip + 1, s.ext.ip + 3);
    lemma_two_bytes(bytes);
    if s.gas.remaining >= 3 {
        let t = s.with_ip(s.ext.ip + 1).with_remaining((s.gas.remaining - 3) as u64);
        assert(t.with_ip(t.ext.ip - 1).ext.ahead(1, 2) =~= bytes);
    }
}

/// A `PUSH2` that a `JUMPI` follows goes on behind the `JUMPDEST` at the position that its two
/// bytes spell if the topmost word is not zero, and otherwise behind the `JUMPI`.
pub proof fn a_push2_and_a_jumpi_land_on_a_jumpdest_or_go_on<H: Host>(
    s: InterpreterState,
    pre: &H,
    end: InterpreterState,
    post: &H,
)
    requires
        laws::at(0x61, s, pre, end, post),
        s.ok(),
        s.at_instruction(),
        s.stack.len() < 1024,
        s.ext.code.bytes()[s.ext.ip + 3] == 0x57,
    ensures
        *post == *pre,
        ({
            let target = (256 * s.ext.code.bytes()[s.ext.ip + 1] + s.ext.code.bytes()[s.ext.ip + 2]);
            if s.gas.remaining < 13 {
                laws::ended(s, end, InstructionResult::OutOfGas, 0)
            } else if s.stack.len() < 1 {
                laws::ended(s, end, InstructionResult::StackUnderflow, s.gas.remaining - 13)
            } else if laws::top(s, 0) == 0 {
                laws::went_on(s, end, 4, 13) && end.stack == s.stack.subrange(0, s.stack.len() - 1)
            } else if !s.ext.code.valid_jump(target) {
                laws::ended(s, end, InstructionResult::InvalidJump, s.gas.remaining - 13)
            } else if s.gas.remaining < 14 {
                laws::ended(s, end, InstructionResult::OutOfGas, 0)
            } else {
                jumped(s, end, target, 14) && end.stack == s.stack.subrange(
                    0,
                    s.stack.len() - 1,
                )
            }
        }),
{
    run::lemma_pair(s, 0x61, 2);
    let bytes = s.ext.code.bytes().subrange(s.ext.ip + 1, s.ext.ip + 3);
    lemma_two_bytes(bytes);
    if s.gas.remaining >= 3 {
        let t = s.with_ip(s.ext.ip + 1).with_remaining((s.gas.remaining - 3) as u64);
        assert(t.with_ip(t.ext.ip - 1).ext.ahead(1, 2) =~= bytes);
    }
}

/// A `DUP2` that an `MSTORE` follows writes the topmost word to memory at the offset below it,
/// and leaves the offset on the stack.
pub proof fn a_dup2_and_an_mstore_write_a_word<H: Host>(
    s: InterpreterState,
    pre: &H,
    end: InterpreterState,
    post: &H,
)
    requires
        laws::at(0x81, s, pre, end, post),
        s.ok(),
        s.at_instruction(),
        2 <= s.stack.len() < 1024,
        s.ext.code.bytes()[s.ext.ip + 1] == 0x52,
    ensures
        *post == *pre,
        ({
            let gas = s.gas.remaining - 6;
            if gas < 0 {
                laws::ended(s, end, InstructionResult::OutOfGas, 0)
            } else if laws::top(s, 1) > usize::MAX {
                laws::ended(s, end, InstructionResult::InvalidOperandOOG, gas)
            } else {
                match laws::memory::word_error(s, laws::top(s, 1), gas) {
                    Some(error) => laws::ended(s, end, error, gas),
                    None => {
                        &&& laws::accessed(s, end, 2, 6, laws::top(s, 1), 32)
                        &&& laws::bytes_of(laws::top(s, 0), laws::cells(end, laws::top(s, 1), 32))
                        &&& laws::same_cells_but(s, end, laws::top(s, 1), 32)
                        &&& end.stack == s.stack.subrange(0, s.stack.len() - 1)
                    },
                }
            }
        }),
{
    let t = s.with_ip(s.ext.ip + 1).with_remaining((s.gas.remaining - 3) as u64);
    if s.gas.remaining >= 6 {
        runs::dup2_and_mstore_are_taken_together(t);
        let doubled = stack_instructions::dup_step(t, 2);
        let end2 = runs::dup2_then_mstore(t);
        reveal(table::flow_effect);
        assert(doubled.ext.code.bytes()[doubled.ext.ip] == 0x52);
        assert(run::plain_step(doubled, pre, end2, pre));
        assert(doubled.ok());
        super::memory::an_mstore_writes_the_word_at_an_offset(doubled, pre, end2, pre);
        lemma_doubled(s, t, doubled, end, end2);
    }
}

/// What holds of the `MSTORE` holds of the pair.
proof fn lemma_doubled(
    s: InterpreterState,
    t: InterpreterState,
    doubled: InterpreterState,
    end: InterpreterState,
    end2: InterpreterState,
)
    requires
        s.ok(),
        s.ext.running,
        2 <= s.stack.len() < 1024,
        s.gas.remaining >= 6,
        t == s.with_ip(s.ext.ip + 1).with_remaining((s.gas.remaining - 3) as u64),
        doubled == stack_instructions::dup_step(t, 2),
        runs::same_but_for_dead_words(end, end2),
        if laws::top(doubled, 0) > usize::MAX {
            laws::ended(
                doubled,
                end2,
                InstructionResult::InvalidOperandOOG,
                doubled.gas.remaining - 3,
            )
        } else {
            match laws::memory::word_error(
                doubled,
                laws::top(doubled, 0),
                doubled.gas.remaining - 3,
            ) {
                Some(error) => laws::ended(doubled, end2, error, doubled.gas.remaining - 3),
                None => {
                    &&& laws::accessed(doubled, end2, 1, 3, laws::top(doubled, 0), 32)
                    &&& laws::bytes_of(
                        laws::top(doubled, 1),
                        laws::cells(end2, laws::top(doubled, 0), 32),
                    )
                    &&& laws::same_cells_but(doubled, end2, laws::top(doubled, 0), 32)
                    &&& end2.stack == doubled.stack.subrange(0, doubled.stack.len() - 2)
                },
            }
        },
    ensures
        ({
            let gas = s.gas.remaining - 6;
            if laws::top(s, 1) > usize::MAX {
                laws::ended(s, end, InstructionResult::InvalidOperandOOG, gas)
            } else {
                match laws::memory::word_error(s, laws::top(s, 1), gas) {
                    Some(error) => laws::ended(s, end, error, gas),
                    None => {
                        &&& laws::accessed(s, end, 2, 6, laws::top(s, 1), 32)
                        &&& laws::bytes_of(laws::top(s, 0), laws::cells(end, laws::top(s, 1), 32))
                        &&& laws::same_cells_but(s, end, laws::top(s, 1), 32)
                        &&& end.stack == s.stack.subrange(0, s.stack.len() - 1)
                    },
                }
            }
        }),
{
    assert(laws::top(doubled, 0) == laws::top(s, 1));
    assert(laws::top(doubled, 1) == laws::top(s, 0));
    assert(doubled.stack.subrange(0, doubled.stack.len() - 2) =~= s.stack.subrange(
        0,
        s.stack.len() - 1,
    ));
    if laws::top(s, 1) <= usize::MAX && laws::memory::word_error(
        s,
        laws::top(s, 1),
        s.gas.remaining - 6,
    ) is None {
        assert forall|i: int|
            0 <= i && !(laws::top(s, 1) <= i < laws::top(s, 1) + 32) implies #[trigger] super::cell(end, i)
            == super::cell(s, i) by {
            assert(super::cell(end2, i) == super::cell(doubled, i));
        }
    }
}

/// The account that a word stands for is its least 20 bytes.
pub proof fn lemma_address_of(x: U256)
    ensures
        address::address_of(x).val() == x.val() % 0x1_0000_0000_0000_0000_0000_0000_0000_0000_0000_0000int,
{
    let l2 = x.l2;
    assert(l2 as u32 == l2 % 0x1_0000_0000u64) by (bit_vector);
    let low = address::address_of(x).val();
    let q = (l2 / 0x1_0000_0000u64) + x.l3 * 0x1_0000_0000int;
    vstd::arithmetic::div_mod::lemma_fundamental_div_mod_converse(
        x.val(),
        0x1_0000_0000_0000_0000_0000_0000_0000_0000_0000_0000int,
        q,
        low,
    );
}

/// The frame waits for a new one, with words taken from its stack and with all of its gas.
pub open spec fn waits(
    s: InterpreterState,
    end: InterpreterState,
    taken: int,
    request: FrameRequest,
) -> bool {
    &&& !end.ext.running
    &&& end.ext.action == Some(ActionState::NewFrame(request))
    &&& end.stash == s.gas.remaining
    &&& end.stack == s.stack.subrange(0, s.stack.len() - taken)
    &&& end.ext.ip == s.ext.ip + 1
    &&& end.memory == s.memory
}

/// `CREATE` asks for a frame with a value and the code at an offset of memory.
pub proof fn a_create_asks_with_its_operands<H: Host>(
    s: InterpreterState,
    pre: &H,
    end: InterpreterState,
    post: &H,
)
    requires
        laws::at(0xf0, s, pre, end, post),
    ensures
        *post == *pre,
        if s.stack.len() < 3 {
            laws::ended(s, end, InstructionResult::StackUnderflow, s.gas.remaining as int)
        } else {
            waits(
                s,
                end,
                3,
                FrameRequest::Create(
                    (CreateOperands {
                        value: s.stack[s.stack.len() - 1],
                        offset: s.stack[s.stack.len() - 2],
                        len: s.stack[s.stack.len() - 3],
                    }),
                ),
            )
        },
{
    reveal(table::ending_effect);
}

/// `CREATE2` asks for the same with a salt.
pub proof fn a_create2_asks_with_its_salt<H: Host>(
    s: InterpreterState,
    pre: &H,
    end: InterpreterState,
    post: &H,
)
    requires
        laws::at(0xf5, s, pre, end, post),
    ensures
        *post == *pre,
        if s.stack.len() < 4 {
            laws::ended(s, end, InstructionResult::StackUnderflow, s.gas.remaining as int)
        } else {
            waits(
                s,
                end,
                4,
                FrameRequest::Create2(
                    (CreateOperands {
                        value: s.stack[s.stack.len() - 1],
                        offset: s.stack[s.stack.len() - 2],
                        len: s.stack[s.stack.len() - 3],
                    }),
                    s.stack[s.stack.len() - 4],
                ),
            )
        },
{
    reveal(table::ending_effect);
}

/// `CALL` asks for a frame with the gas, the account, the value, and where the input is and
/// the output goes.
pub proof fn a_call_asks_with_its_operands<H: Host>(
    s: InterpreterState,
    pre: &H,
    end: InterpreterState,
    post: &H,
)
    requires
        laws::at(0xf1, s, pre, end, post),
    ensures
        *post == *pre,
        if s.stack.len() < 7 {
            laws::ended(s, end, InstructionResult::StackUnderflow, s.gas.remaining as int)
        } else {
            &&& waits(
                s,
                end,
                7,
                FrameRequest::Call(
                    (CallOperands {
                        gas_limit: s.stack[s.stack.len() - 1],
                        to: end.ext.action->0->NewFrame_0->Call_0.to,
                        value: Some(s.stack[s.stack.len() - 3]),
                        input_offset: s.stack[s.stack.len() - 4],
                        input_len: s.stack[s.stack.len() - 5],
                        return_offset: s.stack[s.stack.len() - 6],
                        return_len: s.stack[s.stack.len() - 7],
                    }),
                ),
            )
            &&& end.ext.action->0->NewFrame_0->Call_0.to.val() == laws::top(s, 1)
                % 0x1_0000_0000_0000_0000_0000_0000_0000_0000_0000_0000int
        },
{
    reveal(table::ending_effect);
    if s.stack.len() >= 7 {
        lemma_address_of(s.stack[s.stack.len() - 2]);
    }
}

/// `CALLCODE` asks for the same.
pub proof fn a_callcode_asks_with_its_operands<H: Host>(
    s: InterpreterState,
    pre: &H,
    end: InterpreterState,
    post: &H,
)
    requires
        laws::at(0xf2, s, pre, end, post),
    ensures
        *post == *pre,
        if s.stack.len() < 7 {
            laws::ended(s, end, InstructionResult::StackUnderflow, s.gas.remaining as int)
        } else {
            &&& waits(
                s,
                end,
                7,
                FrameRequest::CallCode(
                    (CallOperands {
                        gas_limit: s.stack[s.stack.len() - 1],
                        to: end.ext.action->0->NewFrame_0->CallCode_0.to,
                        value: Some(s.stack[s.stack.len() - 3]),
                        input_offset: s.stack[s.stack.len() - 4],
                        input_len: s.stack[s.stack.len() - 5],
                        return_offset: s.stack[s.stack.len() - 6],
                        return_len: s.stack[s.stack.len() - 7],
                    }),
                ),
            )
            &&& end.ext.action->0->NewFrame_0->CallCode_0.to.val() == laws::top(s, 1)
                % 0x1_0000_0000_0000_0000_0000_0000_0000_0000_0000_0000int
        },
{
    reveal(table::ending_effect);
    if s.stack.len() >= 7 {
        lemma_address_of(s.stack[s.stack.len() - 2]);
    }
}

/// `DELEGATECALL` asks for the same without a value.
pub proof fn a_delegatecall_asks_with_its_operands<H: Host>(
    s: InterpreterState,
    pre: &H,
    end: InterpreterState,
    post: &H,
)
    requires
        laws::at(0xf4, s, pre, end, post),
    ensures
        *post == *pre,
        if s.stack.len() < 6 {
            laws::ended(s, end, InstructionResult::StackUnderflow, s.gas.remaining as int)
        } else {
            &&& waits(
                s,
                end,
                6,
                FrameRequest::DelegateCall(
                    (CallOperands {
                        gas_limit: s.stack[s.stack.len() - 1],
                        to: end.ext.action->0->NewFrame_0->DelegateCall_0.to,
                        value: None,
                        input_offset: s.stack[s.stack.len() - 3],
                        input_len: s.stack[s.stack.len() - 4],
                        return_offset: s.stack[s.stack.len() - 5],
                        return_len: s.stack[s.stack.len() - 6],
                    }),
                ),
            )
            &&& end.ext.action->0->NewFrame_0->DelegateCall_0.to.val() == laws::top(s, 1)
                % 0x1_0000_0000_0000_0000_0000_0000_0000_0000_0000_0000int
        },
{
    reveal(table::ending_effect);
    if s.stack.len() >= 6 {
        lemma_address_of(s.stack[s.stack.len() - 2]);
    }
}

/// `STATICCALL` asks for the same without a value.
pub proof fn a_staticcall_asks_with_its_operands<H: Host>(
    s: InterpreterState,
    pre: &H,
    end: InterpreterState,
    post: &H,
)
    requires
        laws::at(0xfa, s, pre, end, post),
    ensures
        *post == *pre,
        if s.stack.len() < 6 {
            laws::ended(s, end, InstructionResult::StackUnderflow, s.gas.remaining as int)
        } else {
            &&& waits(
                s,
                end,
                6,
                FrameRequest::StaticCall(
                    (CallOperands {
                        gas_limit: s.stack[s.stack.len() - 1],
                        to: end.ext.action->0->NewFrame_0->StaticCall_0.to,
                        value: None,
                        input_offset: s.stack[s.stack.len() - 3],
                        input_len: s.stack[s.stack.len() - 4],
                        return_offset: s.stack[s.stack.len() - 5],
                        return_len: s.stack[s.stack.len() - 6],
                    }),
                ),
            )
            &&& end.ext.action->0->NewFrame_0->StaticCall_0.to.val() == laws::top(s, 1)
                % 0x1_0000_0000_0000_0000_0000_0000_0000_0000_0000_0000int
        },
{
    reveal(table::ending_effect);
    if s.stack.len() >= 6 {
        lemma_address_of(s.stack[s.stack.len() - 2]);
    }
}

} // verus!
