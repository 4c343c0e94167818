//! What each instruction does in a run: the bytes that stand for instructions, what they cost,
//! and how the words that they leave come from the words that they take.

pub mod control;
pub mod environment;
pub mod host;
pub mod memory;
pub mod words;

use crate::gas::GasState;
use crate::host::Host;
use crate::interpreter::action::ActionState;
use crate::interpreter::instruction_result::InstructionResult;
use crate::interpreter::interpreter_types::ExtState;
use crate::interpreter::run;
use crate::interpreter::shared_memory;
use crate::interpreter::shared_memory::MemoryState;
use crate::interpreter::state::InterpreterState;
use crate::primitives::be;
use crate::primitives::bits;
use crate::primitives::u256;
use crate::primitives::{SpecId, U256};
use vstd::arithmetic::div_mod::*;
use vstd::arithmetic::power2::*;
use vstd::prelude::*;

verus! {

/// A run that goes on is at a byte of its code, and takes one step.
pub open spec fn at<H: Host>(
    byte: int,
    s: InterpreterState,
    pre: &H,
    end: InterpreterState,
    post: &H,
) -> bool {
    s.ext.running && s.ext.code.bytes()[s.ext.ip] == byte && run::plain_step(s, pre, end, post)
}

/// The number that is `depth` places below the top of the stack.
pub open spec fn top(s: InterpreterState, depth: int) -> int {
    s.stack[s.stack.len() - 1 - depth].val()
}

/// A word taken as signed.
pub open spec fn signed(n: int) -> int {
    if 2 * n < u256::word_count() {
        n
    } else {
        n - u256::word_count()
    }
}

/// A number without its sign.
pub open spec fn magnitude(n: int) -> int {
    if n < 0 {
        -n
    } else {
        n
    }
}

/// The frame ended with a result and no output, and with some gas left.
pub open spec fn ended(
    s: InterpreterState,
    end: InterpreterState,
    result: InstructionResult,
    left: int,
) -> bool {
    returned(s, end, result, Seq::empty(), left)
}

/// The frame ended with a result and an output, and with some gas left.
pub open spec fn returned(
    s: InterpreterState,
    end: InterpreterState,
    result: InstructionResult,
    output: Seq<u8>,
    left: int,
) -> bool {
    &&& !end.ext.running
    &&& end.ext.action matches Some(ActionState::Return(r)) && r.result == result && r.output
        == output && r.gas.remaining == left && r.gas.limit == s.gas.limit && r.gas.refunded
        == s.gas.refunded
    &&& end.stash == left
}

/// The run goes on `size` bytes further with `cost` less gas. Nothing else has changed but the
/// stack.
pub open spec fn went_on(
    s: InterpreterState,
    end: InterpreterState,
    size: int,
    cost: int,
) -> bool {
    end == (InterpreterState {
        ext: ExtState { ip: s.ext.ip + size, ..s.ext },
        gas: GasState { remaining: (s.gas.remaining - cost) as u64, ..s.gas },
        stack: end.stack,
        ..s
    })
}

/// A number stands in the place of the topmost `taken` words; the words below are the same.
pub open spec fn left(
    before: Seq<U256>,
    after: Seq<U256>,
    taken: int,
    number: int,
) -> bool {
    &&& after.len() == before.len() - taken + 1
    &&& after[after.len() - 1].val() == number
    &&& forall|i: int| 0 <= i < before.len() - taken ==> #[trigger] after[i] == before[i]
}

/// An instruction of one byte took `taken` words and left a number, for a price that is fixed.
/// Without the gas or without the words the frame has ended.
pub open spec fn computed<H: Host>(
    s: InterpreterState,
    pre: &H,
    end: InterpreterState,
    post: &H,
    cost: int,
    taken: int,
    number: int,
) -> bool {
    &&& *post == *pre
    &&& if s.gas.remaining < cost {
        ended(s, end, InstructionResult::OutOfGas, 0)
    } else if s.stack.len() < taken {
        ended(s, end, InstructionResult::StackUnderflow, s.gas.remaining - cost)
    } else {
        went_on(s, end, 1, cost) && left(s.stack, end.stack, taken, number)
    }
}

/// An instruction of one byte pushed a number, for a price that is fixed. Without the gas or
/// with a full stack the frame has ended.
pub open spec fn pushed<H: Host>(
    s: InterpreterState,
    pre: &H,
    end: InterpreterState,
    post: &H,
    cost: int,
    number: int,
) -> bool {
    &&& *post == *pre
    &&& if s.gas.remaining < cost {
        ended(s, end, InstructionResult::OutOfGas, 0)
    } else if s.stack.len() >= 1024 {
        ended(s, end, InstructionResult::StackOverflow, s.gas.remaining - cost)
    } else {
        went_on(s, end, 1, cost) && left(s.stack, end.stack, 0, number)
    }
}

/// The same of an instruction that a fork brought.
pub open spec fn pushed_from<H: Host>(
    s: InterpreterState,
    pre: &H,
    end: InterpreterState,
    post: &H,
    fork: SpecId,
    cost: int,
    number: int,
) -> bool {
    if s.gas.remaining >= cost && !s.flags.spec_id.enabled(fork) {
        *post == *pre && ended(s, end, InstructionResult::NotActivated, s.gas.remaining - cost)
    } else {
        pushed(s, pre, end, post, cost, number)
    }
}

/// How many words hold some bytes; the sum that rounds up saturates.
pub open spec fn words_for(len: int) -> int {
    if len + 31 <= usize::MAX {
        (len + 31) / 32
    } else {
        usize::MAX as int / 32
    }
}

/// What a memory of some words costs altogether.
pub open spec fn price(words: int) -> int {
    3 * words + words * words / 512
}

/// How many words of memory a frame has after an access to `len` bytes from `offset` on.
pub open spec fn words_after(s: InterpreterState, offset: int, len: int) -> int {
    let needed = (offset + len + 31) / 32;
    if needed > s.gas.words {
        needed
    } else {
        s.gas.words as int
    }
}

/// What the access costs: the price of the memory after it, less that of the memory before.
pub open spec fn growth(s: InterpreterState, offset: int, len: int) -> int {
    price(words_after(s, offset, len)) - price(s.gas.words as int)
}

/// How the access fails, if it does: the buffer has a limit, and the growth has to be paid from
/// the gas that is left. No frame has `2^32` words.
pub open spec fn access_error(s: InterpreterState, offset: int, len: int, gas: int) -> Option<
    InstructionResult,
> {
    let reach = s.memory.checkpoint + offset + len;
    if reach > s.memory.limit && usize::MAX > s.memory.limit {
        Some(InstructionResult::MemoryLimitOOG)
    } else if words_after(s, offset, len) > u32::MAX || growth(s, offset, len) > gas {
        Some(InstructionResult::MemoryOOG)
    } else {
        None
    }
}

/// The byte of a frame's memory at an offset; there are zeros behind what it has.
pub open spec fn cell(s: InterpreterState, i: int) -> u8 {
    let buffer = s.memory.buffer->0;
    if s.memory.checkpoint + i < buffer.len() {
        buffer[s.memory.checkpoint + i]
    } else {
        0
    }
}

/// The run goes on `size` bytes further with `cost` less gas, and with the words of memory that
/// an access needs, which were paid for. Below the frame's memory nothing has changed.
pub open spec fn accessed(
    s: InterpreterState,
    end: InterpreterState,
    size: int,
    cost: int,
    offset: int,
    len: int,
) -> bool {
    let words = words_after(s, offset, len);
    &&& end == (InterpreterState {
        ext: ExtState { ip: s.ext.ip + size, ..s.ext },
        gas: GasState {
            remaining: (s.gas.remaining - cost - growth(s, offset, len)) as u64,
            words: words as nat,
            ..s.gas
        },
        memory: MemoryState { buffer: Some(end.memory.buffer->0), ..s.memory },
        stack: end.stack,
        ..s
    })
    &&& end.memory.buffer->0.len() == s.memory.checkpoint + 32 * words
    &&& end.memory.buffer->0.subrange(0, s.memory.checkpoint as int)
        == s.memory.buffer->0.subrange(0, s.memory.checkpoint as int)
}

/// The frame's memory holds what it held.
pub open spec fn same_cells(s: InterpreterState, end: InterpreterState) -> bool {
    forall|i: int| 0 <= i ==> #[trigger] cell(end, i) == cell(s, i)
}

/// The frame's memory holds what it held, apart from `len` bytes from `offset` on.
pub open spec fn same_cells_but(
    s: InterpreterState,
    end: InterpreterState,
    offset: int,
    len: int,
) -> bool {
    forall|i: int|
        0 <= i && !(offset <= i < offset + len) ==> #[trigger] cell(end, i) == cell(s, i)
}

/// The frame's memory holds `data` from `offset` on, and otherwise what it held.
pub open spec fn cells_written(
    s: InterpreterState,
    end: InterpreterState,
    offset: int,
    data: Seq<u8>,
) -> bool {
    forall|i: int|
        0 <= i ==> #[trigger] cell(end, i) == (if offset <= i < offset + data.len() {
            data[i - offset]
        } else {
            cell(s, i)
        })
}

/// The bytes of a frame's memory from an offset on.
pub open spec fn cells(s: InterpreterState, offset: int, len: int) -> Seq<u8> {
    Seq::new(len as nat, |i: int| cell(s, offset + i))
}

/// What cannot be paid for stays so if it is larger.
pub proof fn lemma_price_grows(a: int, b: int)
    requires
        0 <= a <= b,
    ensures
        0 <= price(a) <= price(b),
{
    assert(0 <= a * a <= b * b) by (nonlinear_arith)
        requires
            0 <= a <= b,
    ;
}

/// Room in memory is made as an access needs it.
pub proof fn lemma_roomy(s: InterpreterState, offset: int, len: int)
    requires
        s.ok(),
        s.ext.running,
        0 <= offset <= usize::MAX,
        0 < len <= usize::MAX,
    ensures
        match access_error(s, offset, len, s.gas.remaining as int) {
            Some(error) => s.roomy(offset, len) is Err && ended(
                s,
                s.roomy(offset, len)->Err_0,
                error,
                s.gas.remaining as int,
            ) && s.roomy(offset, len)->Err_0.stack == s.stack,
            None => s.roomy(offset, len) is Ok && accessed(
                s,
                s.roomy(offset, len)->Ok_0,
                0,
                0,
                offset,
                len,
            ) && same_cells(s, s.roomy(offset, len)->Ok_0) && s.roomy(offset, len)->Ok_0.stack
                == s.stack && s.roomy(offset, len)->Ok_0.ok(),
        },
{
    let needed = (offset + len + 31) / 32;
    let words = shared_memory::spec_num_words(shared_memory::saturating_sum(offset, len));
    let w = s.gas.words as int;
    if needed > w {
        lemma_price_grows(w, needed);
    }
    if words > w {
        lemma_price_grows(w, words);
    }
    reveal(shared_memory::room_for);
    if offset + len + 31 > usize::MAX {
        assert(words == usize::MAX as int / 32);
        assert(words <= needed);
        assert(32 * words + 32 > usize::MAX);
        lemma_price_grows(words, needed);
        assert(words > w);
        if words <= u32::MAX && price(words) - price(w) <= s.gas.remaining {
            assert(crate::gas::calc::memory_cost(words) == price(words));
            assert(false);
        }
    } else {
        assert(words == needed);
    }
    if access_error(s, offset, len, s.gas.remaining as int) is None {
        let u = s.roomy(offset, len)->Ok_0;
        if needed > w {
            let b = u.memory.buffer->0;
            assert(b.subrange(0, s.memory.checkpoint as int) =~= s.memory.buffer->0.subrange(
                0,
                s.memory.checkpoint as int,
            ));
        }
        assert(u.ok());
    }
}

/// A number is spelled by bytes, the most significant one first.
pub open spec fn bytes_of(number: int, bytes: Seq<u8>) -> bool {
    &&& 0 <= number < pow2(8 * bytes.len())
    &&& forall|i: int|
        0 <= i < bytes.len() ==> #[trigger] bytes[i] == (number / pow2(
            (8 * (bytes.len() - 1 - i)) as nat,
        ) as int) % 256
}

/// The number that bytes spell.
pub proof fn lemma_be_val_bytes(bytes: Seq<u8>)
    ensures
        bytes_of(be::be_val(bytes), bytes),
    decreases bytes.len(),
{
    let n = be::be_val(bytes);
    lemma2_to64();
    if bytes.len() > 0 {
        let shorter = bytes.drop_last();
        let high = be::be_val(shorter);
        let k = shorter.len();
        lemma_be_val_bytes(shorter);
        lemma_pow2_adds(8, 8 * k);
        assert(pow2(8 * bytes.len()) == 256 * pow2(8 * k));
        assert forall|i: int| 0 <= i < bytes.len() implies #[trigger] bytes[i] == (n / pow2(
            (8 * (bytes.len() - 1 - i)) as nat,
        ) as int) % 256 by {
            if i < k {
                assert(bytes[i] == shorter[i]);
                let e = (8 * (k - 1 - i)) as nat;
                lemma_pow2_adds(8, e);
                lemma_pow2_pos(e);
                lemma_div_denominator(n, 256, pow2(e) as int);
                assert(n / 256 == high);
                assert((8 * (bytes.len() - 1 - i)) as nat == 8 + e);
                assert(pow2(8 + e) as int == 256 * pow2(e) as int);
            } else {
                assert((8 * (bytes.len() - 1 - i)) as nat == 0);
                assert(n / 1 == n);
            }
        }
    }
}

/// The word that at most 32 bytes spell.
pub proof fn lemma_bytes_of(bytes: Seq<u8>)
    requires
        bytes.len() <= 32,
    ensures
        bytes_of(u256::word(be::be_val(bytes)).val(), bytes),
{
    lemma_be_val_bytes(bytes);
    bits::lemma_pow2_limbs();
    if bytes.len() < 32 {
        lemma_pow2_strictly_increases(8 * bytes.len(), 256);
    }
    u256::lemma_val_of_word(be::be_val(bytes));
}

/// The same of an instruction that a fork brought.
pub open spec fn computed_from<H: Host>(
    s: InterpreterState,
    pre: &H,
    end: InterpreterState,
    post: &H,
    fork: SpecId,
    cost: int,
    taken: int,
    number: int,
) -> bool {
    if s.gas.remaining >= cost && !s.flags.spec_id.enabled(fork) {
        *post == *pre && ended(s, end, InstructionResult::NotActivated, s.gas.remaining - cost)
    } else {
        computed(s, pre, end, post, cost, taken, number)
    }
}

} // verus!
