//! The words of the stack, and what a frame is told about its call, its block and itself.

use crate::host::Host;
use crate::instructions::laws;
use crate::instructions::table;
use crate::interpreter::input::CallInputState;
use crate::interpreter::instruction_result::InstructionResult;
use crate::interpreter::laws as runs;
use crate::interpreter::state::InterpreterState;
use crate::primitives::u256;
use crate::primitives::SpecId;
use vstd::prelude::*;

verus! {

/// `ADDRESS` tells the account whose storage the frame uses.
pub proof fn an_address_is_pushed<H: Host>(
    s: InterpreterState,
    pre: &H,
    end: InterpreterState,
    post: &H,
)
    requires
        laws::at(0x30, s, pre, end, post),
    ensures
        laws::pushed(
            s,
            pre,
            end,
            post,
            2,
            s.input.target.val(),
        ),
{
    reveal(table::environment_effect);
}

/// `ORIGIN` tells the sender of the transaction.
pub proof fn an_origin_is_pushed<H: Host>(
    s: InterpreterState,
    pre: &H,
    end: InterpreterState,
    post: &H,
)
    requires
        laws::at(0x32, s, pre, end, post),
    ensures
        laws::pushed(
            s,
            pre,
            end,
            post,
            2,
            pre.env().caller.val(),
        ),
{
    reveal(table::environment_effect);
}

/// `CALLER` tells who called.
pub proof fn a_caller_is_pushed<H: Host>(
    s: InterpreterState,
    pre: &H,
    end: InterpreterState,
    post: &H,
)
    requires
        laws::at(0x33, s, pre, end, post),
    ensures
        laws::pushed(
            s,
            pre,
            end,
            post,
            2,
            s.input.caller.val(),
        ),
{
    reveal(table::environment_effect);
}

/// `CALLVALUE` tells the value of the call.
pub proof fn a_call_value_is_pushed<H: Host>(
    s: InterpreterState,
    pre: &H,
    end: InterpreterState,
    post: &H,
)
    requires
        laws::at(0x34, s, pre, end, post),
    ensures
        laws::pushed(
            s,
            pre,
            end,
            post,
            2,
            s.input.call_value.val(),
        ),
{
    reveal(table::environment_effect);
}

/// `CALLDATASIZE` tells how many bytes the call was given.
pub proof fn a_calldata_size_is_pushed<H: Host>(
    s: InterpreterState,
    pre: &H,
    end: InterpreterState,
    post: &H,
)
    requires
        laws::at(0x36, s, pre, end, post),
        match s.input.input {
            CallInputState::Bytes(data) => data.len() <= usize::MAX,
            CallInputState::SharedBuffer(from, to) => 0 <= from && to <= usize::MAX,
        },
    ensures
        laws::pushed(
            s,
            pre,
            end,
            post,
            2,
            match s.input.input {
                CallInputState::Bytes(data) => data.len() as int,
                CallInputState::SharedBuffer(from, to) => if from < to {
                    to - from
                } else {
                    0
                },
            },
        ),
{
    reveal(table::environment_effect);
    u256::lemma_val_of_word(s.input.input.size());
}

/// `CODESIZE` tells the length of the code as it is stored.
pub proof fn a_code_size_is_pushed<H: Host>(
    s: InterpreterState,
    pre: &H,
    end: InterpreterState,
    post: &H,
)
    requires
        laws::at(0x38, s, pre, end, post),
        s.ext.code.original().len() <= usize::MAX,
    ensures
        laws::pushed(
            s,
            pre,
            end,
            post,
            2,
            s.ext.code.original().len() as int,
        ),
{
    reveal(table::environment_effect);
    u256::lemma_val_of_word(s.ext.code.original().len() as int);
}

/// `GASPRICE` tells the price that the transaction pays.
pub proof fn a_gas_price_is_pushed<H: Host>(
    s: InterpreterState,
    pre: &H,
    end: InterpreterState,
    post: &H,
)
    requires
        laws::at(0x3a, s, pre, end, post),
    ensures
        laws::pushed(
            s,
            pre,
            end,
            post,
            2,
            pre.env().effective_gas_price.val(),
        ),
{
    reveal(table::environment_effect);
}

/// `RETURNDATASIZE` tells how many bytes the last call returned.
pub proof fn a_return_data_size_is_pushed<H: Host>(
    s: InterpreterState,
    pre: &H,
    end: InterpreterState,
    post: &H,
)
    requires
        laws::at(0x3d, s, pre, end, post),
        s.return_data.len() <= usize::MAX,
    ensures
        laws::pushed_from(
            s,
            pre,
            end,
            post,
            SpecId::BYZANTIUM,
            2,
            s.return_data.len() as int,
        ),
{
    reveal(table::environment_effect);
    u256::lemma_val_of_word(s.return_data.len() as int);
}

/// `COINBASE` tells the account that the fees go to.
pub proof fn a_coinbase_is_pushed<H: Host>(
    s: InterpreterState,
    pre: &H,
    end: InterpreterState,
    post: &H,
)
    requires
        laws::at(0x41, s, pre, end, post),
    ensures
        laws::pushed(
            s,
            pre,
            end,
            post,
            2,
            pre.env().beneficiary.val(),
        ),
{
    reveal(table::block_effect);
}

/// `TIMESTAMP` tells the time of the block.
pub proof fn a_timestamp_is_pushed<H: Host>(
    s: InterpreterState,
    pre: &H,
    end: InterpreterState,
    post: &H,
)
    requires
        laws::at(0x42, s, pre, end, post),
    ensures
        laws::pushed(
            s,
            pre,
            end,
            post,
            2,
            pre.env().timestamp.val(),
        ),
{
    reveal(table::block_effect);
}

/// `NUMBER` tells the number of the block.
pub proof fn a_block_number_is_pushed<H: Host>(
    s: InterpreterState,
    pre: &H,
    end: InterpreterState,
    post: &H,
)
    requires
        laws::at(0x43, s, pre, end, post),
    ensures
        laws::pushed(
            s,
            pre,
            end,
            post,
            2,
            pre.env().block_number.val(),
        ),
{
    reveal(table::block_effect);
}

/// `DIFFICULTY` tells the difficulty of the block before the merge, and its randomness from
/// then on.
pub proof fn a_difficulty_or_randomness_is_pushed<H: Host>(
    s: InterpreterState,
    pre: &H,
    end: InterpreterState,
    post: &H,
)
    requires
        laws::at(0x44, s, pre, end, post),
    ensures
        laws::pushed(
            s,
            pre,
            end,
            post,
            2,
            if s.flags.spec_id.enabled(SpecId::MERGE) {
                pre.env().prevrandao->0.val()
            } else {
                pre.env().difficulty.val()
            },
        ),
{
    reveal(table::block_effect);
}

/// `GASLIMIT` tells the gas limit of the block.
pub proof fn a_gas_limit_is_pushed<H: Host>(
    s: InterpreterState,
    pre: &H,
    end: InterpreterState,
    post: &H,
)
    requires
        laws::at(0x45, s, pre, end, post),
    ensures
        laws::pushed(
            s,
            pre,
            end,
            post,
            2,
            pre.env().gas_limit.val(),
        ),
{
    reveal(table::block_effect);
}

/// `CHAINID` tells the chain.
pub proof fn a_chain_id_is_pushed<H: Host>(
    s: InterpreterState,
    pre: &H,
    end: InterpreterState,
    post: &H,
)
    requires
        laws::at(0x46, s, pre, end, post),
    ensures
        laws::pushed_from(
            s,
            pre,
            end,
            post,
            SpecId::ISTANBUL,
            2,
            pre.env().chain_id.val(),
        ),
{
    reveal(table::block_effect);
}

/// `BASEFEE` tells the base fee of the block.
pub proof fn a_base_fee_is_pushed<H: Host>(
    s: InterpreterState,
    pre: &H,
    end: InterpreterState,
    post: &H,
)
    requires
        laws::at(0x48, s, pre, end, post),
    ensures
        laws::pushed_from(
            s,
            pre,
            end,
            post,
            SpecId::LONDON,
            2,
            pre.env().basefee.val(),
        ),
{
    reveal(table::block_effect);
}

/// `BLOBBASEFEE` tells the price of blob gas.
pub proof fn a_blob_base_fee_is_pushed<H: Host>(
    s: InterpreterState,
    pre: &H,
    end: InterpreterState,
    post: &H,
)
    requires
        laws::at(0x4a, s, pre, end, post),
    ensures
        laws::pushed_from(
            s,
            pre,
            end,
            post,
            SpecId::CANCUN,
            2,
            pre.env().blob_gasprice.val(),
        ),
{
    reveal(table::block_effect);
}

/// `PC` tells the position of the instruction.
pub proof fn a_position_is_pushed<H: Host>(
    s: InterpreterState,
    pre: &H,
    end: InterpreterState,
    post: &H,
)
    requires
        laws::at(0x58, s, pre, end, post),
        0 <= s.ext.ip < s.ext.code.bytes().len() <= usize::MAX,
    ensures
        laws::pushed(
            s,
            pre,
            end,
            post,
            2,
            s.ext.ip,
        ),
{
    reveal(table::flow_effect);
    u256::lemma_val_of_word(s.ext.ip);
}

/// `MSIZE` tells how many bytes of memory the frame has.
pub proof fn a_memory_size_is_pushed<H: Host>(
    s: InterpreterState,
    pre: &H,
    end: InterpreterState,
    post: &H,
)
    requires
        laws::at(0x59, s, pre, end, post),
        s.memory.checkpoint <= s.memory.buffer->0.len() <= usize::MAX,
    ensures
        laws::pushed(
            s,
            pre,
            end,
            post,
            2,
            s.memory.buffer->0.len() - s.memory.checkpoint,
        ),
{
    reveal(table::flow_effect);
    u256::lemma_val_of_word(s.memory.size());
}

/// `GAS` tells the gas that is left when the instruction itself is paid.
pub proof fn the_gas_left_is_pushed<H: Host>(
    s: InterpreterState,
    pre: &H,
    end: InterpreterState,
    post: &H,
)
    requires
        laws::at(0x5a, s, pre, end, post),
    ensures
        laws::pushed(
            s,
            pre,
            end,
            post,
            2,
            s.gas.remaining - 2,
        ),
{
    reveal(table::flow_effect);
    u256::lemma_val_of_word(s.gas.remaining - 2);
}

/// `PUSH0` pushes zero.
pub proof fn a_zero_is_pushed<H: Host>(
    s: InterpreterState,
    pre: &H,
    end: InterpreterState,
    post: &H,
)
    requires
        laws::at(0x5f, s, pre, end, post),
    ensures
        laws::pushed_from(
            s,
            pre,
            end,
            post,
            SpecId::SHANGHAI,
            2,
            0,
        ),
{
    reveal(table::flow_effect);
    u256::lemma_val_of_word(0);
}

/// `BLOBHASH` takes the place of a blob and leaves its hash, or zero where there is none.
pub proof fn a_blob_hash_is_found<H: Host>(
    s: InterpreterState,
    pre: &H,
    end: InterpreterState,
    post: &H,
)
    requires
        laws::at(0x49, s, pre, end, post),
        pre.env().blob_hashes.len() <= usize::MAX,
    ensures
        laws::computed_from(
            s,
            pre,
            end,
            post,
            SpecId::CANCUN,
            3,
            1,
            if laws::top(s, 0) < pre.env().blob_hashes.len() {
                pre.env().blob_hashes[laws::top(s, 0)].val()
            } else {
                0
            },
        ),
{
    reveal(table::block_effect);
    u256::lemma_val_of_word(0);
}

/// `POP` takes a word away.
pub proof fn a_pop_takes_a_word<H: Host>(
    s: InterpreterState,
    pre: &H,
    end: InterpreterState,
    post: &H,
)
    requires
        laws::at(0x50, s, pre, end, post),
    ensures
        *post == *pre,
        if s.gas.remaining < 2 {
            laws::ended(s, end, InstructionResult::OutOfGas, 0)
        } else if s.stack.len() < 1 {
            laws::ended(s, end, InstructionResult::StackUnderflow, s.gas.remaining - 2)
        } else {
            laws::went_on(s, end, 1, 2) && end.stack == s.stack.drop_last()
        },
{
    reveal(table::flow_effect);
    if s.stack.len() > 0 {
        assert(s.stack.drop_last() =~= s.stack.subrange(0, s.stack.len() - 1));
    }
}

/// `PUSH1` to `PUSH32` push the bytes behind them, most significant first, and go on behind
/// those bytes. A `PUSH2` that a jump follows is taken together with the jump.
pub proof fn the_bytes_behind_are_pushed<H: Host>(
    n: int,
    s: InterpreterState,
    pre: &H,
    end: InterpreterState,
    post: &H,
)
    requires
        1 <= n <= 32,
        laws::at(0x5f + n, s, pre, end, post),
        !runs::starts_pair(s),
        0 <= s.ext.ip,
        s.ext.ip + n < s.ext.code.bytes().len(),
    ensures
        *post == *pre,
        if s.gas.remaining < 3 {
            laws::ended(s, end, InstructionResult::OutOfGas, 0)
        } else if s.stack.len() >= 1024 {
            laws::ended(s, end, InstructionResult::StackOverflow, s.gas.remaining - 3)
        } else {
            &&& laws::went_on(s, end, n + 1, 3)
            &&& end.stack.len() == s.stack.len() + 1
            &&& end.stack.drop_last() == s.stack
            &&& laws::bytes_of(
                laws::top(end, 0),
                s.ext.code.bytes().subrange(s.ext.ip + 1, s.ext.ip + 1 + n),
            )
        },
{
    if s.gas.remaining >= 3 && s.stack.len() < 1024 {
        let bytes = s.ext.code.bytes().subrange(s.ext.ip + 1, s.ext.ip + 1 + n);
        assert(s.with_ip(s.ext.ip + 1).ext.ahead(0, n) =~= bytes);
        super::lemma_bytes_of(bytes);
        assert(end.stack.drop_last() =~= s.stack);
    }
}

/// `DUP1` to `DUP16` push a word of the stack once more, the `n`th from the top. A `DUP2` that
/// an `MSTORE` follows is taken together with it.
pub proof fn a_word_is_doubled<H: Host>(
    n: int,
    s: InterpreterState,
    pre: &H,
    end: InterpreterState,
    post: &H,
)
    requires
        1 <= n <= 16,
        laws::at(0x7f + n, s, pre, end, post),
        !runs::starts_pair(s),
    ensures
        *post == *pre,
        if s.gas.remaining < 3 {
            laws::ended(s, end, InstructionResult::OutOfGas, 0)
        } else if s.stack.len() < n || s.stack.len() >= 1024 {
            laws::ended(s, end, InstructionResult::StackOverflow, s.gas.remaining - 3)
        } else {
            laws::went_on(s, end, 1, 3) && end.stack == s.stack.push(s.stack[s.stack.len() - n])
        },
{
}

/// `SWAP1` to `SWAP16` exchange the topmost word with the one `n` places below it.
pub proof fn two_words_change_places<H: Host>(
    n: int,
    s: InterpreterState,
    pre: &H,
    end: InterpreterState,
    post: &H,
)
    requires
        1 <= n <= 16,
        laws::at(0x8f + n, s, pre, end, post),
    ensures
        *post == *pre,
        if s.gas.remaining < 3 {
            laws::ended(s, end, InstructionResult::OutOfGas, 0)
        } else if s.stack.len() <= n {
            laws::ended(s, end, InstructionResult::StackOverflow, s.gas.remaining - 3)
        } else {
            let len = s.stack.len() as int;
            &&& laws::went_on(s, end, 1, 3)
            &&& end.stack.len() == len
            &&& end.stack[len - 1] == s.stack[len - 1 - n]
            &&& end.stack[len - 1 - n] == s.stack[len - 1]
            &&& forall|i: int|
                0 <= i < len && i != len - 1 && i != len - 1 - n ==> #[trigger] end.stack[i]
                    == s.stack[i]
        },
{
}

/// A byte that stands for no instruction ends the frame.
pub proof fn other_bytes_end_the_frame<H: Host>(
    byte: int,
    s: InterpreterState,
    pre: &H,
    end: InterpreterState,
    post: &H,
)
    requires
        laws::at(byte, s, pre, end, post),
        0x0c <= byte <= 0x0f || byte == 0x1f || 0x21 <= byte <= 0x2f || 0x4b <= byte <= 0x4f
            || 0xa5 <= byte <= 0xef || 0xf6 <= byte <= 0xf9 || 0xfb <= byte <= 0xfc,
    ensures
        *post == *pre,
        laws::ended(s, end, InstructionResult::OpcodeNotFound, s.gas.remaining as int),
{
    reveal(table::arithmetic_effect);
    reveal(table::bitwise_effect);
    reveal(table::environment_effect);
    reveal(table::block_effect);
    reveal(table::ending_effect);
}

/// `INVALID` ends the frame.
pub proof fn an_invalid_ends_the_frame<H: Host>(
    s: InterpreterState,
    pre: &H,
    end: InterpreterState,
    post: &H,
)
    requires
        laws::at(0xfe, s, pre, end, post),
    ensures
        *post == *pre,
        laws::ended(s, end, InstructionResult::InvalidFEOpcode, s.gas.remaining as int),
{
    reveal(table::ending_effect);
}

} // verus!
