//! What an interpreter holds, and how the parts of an instruction change it.

use crate::bytecode::analysis;
use crate::gas::GasState;
use crate::interpreter::action::{ActionState, ResultState};
use crate::interpreter::action;
use crate::interpreter::input::{CallInputState, InputState, RuntimeFlags};
use crate::interpreter::instruction_result::InstructionResult;
use crate::interpreter::interpreter_types::ExtState;
use crate::interpreter::shared_memory::MemoryState;
use crate::interpreter::shared_memory;
use crate::interpreter::stack;
use crate::primitives::{SpecId, U256};
use vstd::prelude::*;

verus! {

/// What an interpreter holds.
#[verifier::ext_equal]
pub struct InterpreterState {
    /// The code, the position in it, and what is to be done next.
    pub ext: ExtState,
    /// The gas.
    pub gas: GasState,
    /// The data that the last call returned.
    pub return_data: Seq<u8>,
    /// The memory.
    pub memory: MemoryState,
    /// What the frame is called with.
    pub input: InputState,
    /// The flags of the run.
    pub flags: RuntimeFlags,
    /// The stack, the topmost word last.
    pub stack: Seq<U256>,
    /// The gas that was left when the counter was poisoned, or `u64::MAX`.
    pub stash: u64,
}

impl InterpreterState {
    /// The parts fit together. While the run goes on there is no action, the memory is what
    /// was paid for, and the counter is the gas that is left; when the run has ended there is
    /// an action, and the counter is poisoned.
    pub open spec fn ok(self) -> bool {
        &&& self.ext.code.runnable()
        &&& self.memory.wf()
        &&& self.memory.active()
        &&& self.memory.child is None
        &&& self.stack.len() <= stack::STACK_LIMIT
        &&& self.gas.words <= u32::MAX
        &&& match self.input.input {
            CallInputState::SharedBuffer(start, end) => start < end ==> 0 <= start && end
                <= self.memory.checkpoint,
            CallInputState::Bytes(_) => true,
        }
        &&& if self.ext.running {
            &&& self.ext.action is None
            &&& self.memory.size() == 32 * self.gas.words
            &&& shared_memory::has_space(self.gas, self.memory)
            &&& self.gas.remaining <= i64::MAX
            &&& self.stash == u64::MAX
        } else {
            &&& self.ext.action is Some
            &&& self.ext.action->0 is NewFrame ==> shared_memory::has_space(
                self.gas.with_remaining(self.stash),
                self.memory,
            )
            &&& self.gas.remaining == u64::MAX
            &&& self.stash <= i64::MAX
        }
    }

    /// The run goes on.
    pub open spec fn running(self) -> bool {
        self.ext.running
    }

    /// The run is at an instruction.
    pub open spec fn at_instruction(self) -> bool {
        0 <= self.ext.ip <= self.ext.code.stop() && analysis::is_boundary(
            self.ext.code.bytes(),
            self.ext.ip,
        )
    }

    /// The state after the action was taken: the gas counter is restored, and the run can be
    /// resumed.
    pub open spec fn taken(self) -> InterpreterState {
        InterpreterState {
            ext: ExtState { running: true, action: None, ..self.ext },
            gas: self.gas.with_remaining(self.gas_left()),
            stash: u64::MAX,
            ..self
        }
    }

    /// The state with its gas counter restored.
    pub open spec fn unpoisoned(self) -> InterpreterState {
        InterpreterState {
            gas: self.gas.with_remaining(self.gas_left()),
            stash: u64::MAX,
            ..self
        }
    }

    /// The gas that is left, whether or not the counter is poisoned.
    pub open spec fn gas_left(self) -> u64 {
        if self.stash == u64::MAX {
            self.gas.remaining
        } else {
            self.stash
        }
    }

    /// The word `depth` places below the top of the stack.
    pub open spec fn nth(self, depth: int) -> U256 {
        stack::nth(self.stack, depth)
    }

    /// The same state with another stack.
    pub open spec fn with_stack(self, words: Seq<U256>) -> InterpreterState {
        InterpreterState { stack: words, ..self }
    }

    /// The same state without the topmost `n` words.
    pub open spec fn popped(self, n: int) -> InterpreterState {
        self.with_stack(stack::dropped(self.stack, n))
    }

    /// The same state with one word in the place of the topmost `n`.
    pub open spec fn replaced(self, n: int, value: U256) -> InterpreterState {
        self.with_stack(stack::dropped(self.stack, n).push(value))
    }

    /// The same state with one word more.
    pub open spec fn pushed(self, value: U256) -> InterpreterState {
        self.with_stack(self.stack.push(value))
    }

    /// The same state with another amount of gas left.
    pub open spec fn with_remaining(self, remaining: u64) -> InterpreterState {
        InterpreterState { gas: self.gas.with_remaining(remaining), ..self }
    }

    /// The same state at another position.
    pub open spec fn with_ip(self, ip: int) -> InterpreterState {
        InterpreterState { ext: ExtState { ip, ..self.ext }, ..self }
    }

    /// The same state with other memory.
    pub open spec fn with_memory(self, memory: MemoryState) -> InterpreterState {
        InterpreterState { memory, ..self }
    }

    /// The run ends with an action: the gas left is put aside and the counter poisoned.
    pub open spec fn acting(self, action: ActionState) -> InterpreterState {
        InterpreterState {
            ext: ExtState { running: false, action: Some(action), ..self.ext },
            gas: self.gas.with_remaining(u64::MAX),
            stash: self.gas.remaining,
            ..self
        }
    }

    /// The frame ends without output.
    pub open spec fn halted(self, result: InstructionResult) -> InterpreterState {
        self.acting(action::halt_action(result, self.gas))
    }

    /// The frame ends because the gas ran out; what is left of it is spent.
    pub open spec fn out_of_gas(self) -> InterpreterState {
        self.with_remaining(0).halted(InstructionResult::OutOfGas)
    }

    /// The frame ends with an output.
    pub open spec fn returned(self, result: InstructionResult, output: Seq<u8>) -> InterpreterState {
        self.acting(ActionState::Return(ResultState { result, output, gas: self.gas }))
    }

    /// Whether the rules of a hard fork hold.
    pub open spec fn enabled(self, spec_id: SpecId) -> bool {
        self.flags.spec_id.enabled(spec_id)
    }

    /// Charging gas: the state to go on with, or the one in which the frame has ended.
    pub open spec fn charged(self, cost: int) -> Result<InterpreterState, InterpreterState> {
        if cost <= self.gas.remaining {
            Ok(self.with_remaining((self.gas.remaining - cost) as u64))
        } else {
            Err(self.out_of_gas())
        }
    }

    /// Charging gas whose amount may be too large for a number: the state to go on with, or
    /// the one in which the frame has ended.
    pub open spec fn charged_or_fail(self, cost: int) -> Result<InterpreterState, InterpreterState> {
        if cost <= u64::MAX {
            self.charged(cost)
        } else {
            Err(self.out_of_gas())
        }
    }

    /// Making room in memory, whatever its limit is: the state to go on with, or the one in
    /// which the frame has ended.
    pub open spec fn grown(self, offset: int, len: int) -> Result<
        InterpreterState,
        InterpreterState,
    > {
        let (paid, gas, memory) = shared_memory::expanded(self.gas, self.memory, offset, len);
        let s = InterpreterState { gas, memory, ..self };
        if paid {
            Ok(s)
        } else {
            Err(s.halted(InstructionResult::MemoryOOG))
        }
    }

    /// Making room in memory: the state to go on with, or the one in which the frame has
    /// ended.
    pub open spec fn roomy(self, offset: int, len: int) -> Result<
        InterpreterState,
        InterpreterState,
    > {
        if self.memory.over_limit(offset, len) {
            Err(self.halted(InstructionResult::MemoryLimitOOG))
        } else {
            self.grown(offset, len)
        }
    }

    /// Making room in memory for the word at an offset; the limit matters only where the
    /// memory does not hold it yet.
    pub open spec fn roomy_word(self, offset: int) -> Result<InterpreterState, InterpreterState> {
        if offset < crate::gas::limit_of_words(self.gas.words) {
            Ok(self)
        } else {
            self.roomy(offset, 32)
        }
    }
}

impl InterpreterState {
    /// What an instruction leaves as it is: the code, the rules, the input and the position; it
    /// gives no gas back, and if it ends the run it ends the frame.
    pub open spec fn steady(self, end: InterpreterState) -> bool {
        &&& end.ext.code == self.ext.code
        &&& end.ext.ip == self.ext.ip
        &&& end.flags == self.flags
        &&& end.input == self.input
        &&& end.running() ==> end.gas.remaining <= self.gas.remaining
        &&& !end.running() ==> end.stash <= self.gas.remaining && end.ext.action matches Some(
            ActionState::Return(_),
        )
    }

    /// The same, and the instruction costs something on its own.
    pub open spec fn thrifty(self, end: InterpreterState) -> bool {
        &&& self.steady(end)
        &&& end.running() ==> end.gas.remaining < self.gas.remaining
    }
}

} // verus!
