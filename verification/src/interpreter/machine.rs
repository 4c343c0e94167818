//! The interpreter and its control.

use crate::bytecode::Bytecode;
use crate::bytecode::code::CodeState;
use crate::gas::{Gas, GasState};
use crate::interpreter::action::InterpreterAction;
use crate::interpreter::ext_bytecode::ExtBytecode;
use crate::interpreter::ext_bytecode;
use crate::interpreter::input::{InputState, InputsImpl, ReturnDataImpl, RuntimeFlags};
use crate::interpreter::instruction_result::InstructionResult;
use crate::interpreter::interpreter_types::{
    ExtState, InterpreterTypes, Jumps, LoopControl, ReturnData,
};
use crate::interpreter::shared_memory::{grow_memory_word, resize_memory, SharedMemory};
use crate::interpreter::shared_memory;
use crate::interpreter::stack::Stack;
use crate::interpreter::stack;
use crate::interpreter::state::InterpreterState;
use crate::primitives::{SpecId, U256};
use vstd::prelude::*;

verus! {

/// The interpreter of one frame.
#[derive(Debug)]
pub struct Interpreter {
    /// The code that runs.
    pub bytecode: ExtBytecode,
    /// The gas.
    pub gas: Gas,
    /// The data that the last call returned.
    pub return_data: ReturnDataImpl,
    /// The memory.
    pub memory: SharedMemory,
    /// What the frame is called with.
    pub input: InputsImpl,
    /// The flags of the run.
    pub runtime_flag: RuntimeFlags,
    /// The stack.
    pub stack: Stack,
    /// The gas that was left when the counter was poisoned, or `u64::MAX` when it is not.
    pub gas_stash: u64,
}

/// The parts of an [`Interpreter`].
#[derive(Debug)]
pub struct EthInterpreter;

impl InterpreterTypes for EthInterpreter {
    type Stack = Stack;

    type Memory = SharedMemory;

    type Bytecode = ExtBytecode;

    type ReturnData = ReturnDataImpl;

    type Input = InputsImpl;

    type RuntimeFlag = RuntimeFlags;

    type Output = InterpreterAction;
}

impl View for Interpreter {
    type V = InterpreterState;

    open spec fn view(&self) -> InterpreterState {
        InterpreterState {
            ext: self.bytecode@,
            gas: self.gas@,
            return_data: self.return_data@,
            memory: self.memory@,
            input: self.input@,
            flags: self.runtime_flag,
            stack: self.stack@,
            stash: self.gas_stash,
        }
    }
}

/// The state of a frame at its start.
pub open spec fn fresh(
    memory: shared_memory::MemoryState,
    ext: ExtState,
    input: InputState,
    flags: RuntimeFlags,
    gas_limit: u64,
) -> InterpreterState {
    let limit: u64 = if gas_limit > i64::MAX {
        i64::MAX as u64
    } else {
        gas_limit
    };
    InterpreterState {
        ext,
        gas: GasState { limit, remaining: limit, refunded: 0, words: 0 },
        return_data: Seq::empty(),
        memory,
        input,
        flags,
        stack: Seq::empty(),
        stash: u64::MAX,
    }
}

/// The state of a frame without code or input, over a memory.
pub open spec fn blank(memory: shared_memory::MemoryState) -> InterpreterState {
    fresh(
        memory,
        ext_bytecode::fresh(CodeState::from_raw(Seq::empty()), None),
        InputState::blank(),
        RuntimeFlags { is_static: false, spec_id: SpecId::PRAGUE },
        u64::MAX,
    )
}

impl Default for Interpreter {
    fn default() -> (r: Interpreter)
        ensures
            r.stack.wf(),
            r@ == blank(
                shared_memory::MemoryState {
                    buffer: Some(Seq::empty()),
                    checkpoint: 0,
                    child: None,
                    limit: u64::MAX,
                },
            ),
            r@.ext.code.runnable(),
            usize::MAX > u32::MAX ==> r.ready(),
    {
        Interpreter::default_ext()
    }
}

impl Interpreter {
    /// The state with the words that a cursor takes in and another counter: what the
    /// interpreter holds while the dispatch loop carries both.
    pub open spec fn at(&self, sp: usize, rem: u64) -> InterpreterState {
        InterpreterState {
            stack: self.stack.words_at(sp),
            gas: self.gas@.with_remaining(rem),
            ..self@
        }
    }

    /// The parts fit together.
    pub open spec fn settled(&self) -> bool {
        self.stack.wf() && self@.ok()
    }

    /// The parts fit together and the run goes on.
    pub open spec fn ready(&self) -> bool {
        self.settled() && self@.running()
    }

    /// The parts fit together with a cursor and a counter.
    pub open spec fn settled_at(&self, sp: usize, rem: u64) -> bool {
        self.stack.wf() && stack::live(sp) && self.at(sp, rem).ok()
    }

    /// The parts fit together with a cursor and a counter, and the run goes on.
    pub open spec fn ready_at(&self, sp: usize, rem: u64) -> bool {
        self.settled_at(sp, rem) && self@.running()
    }

    /// A new interpreter.
    pub fn new(
        memory: SharedMemory,
        bytecode: ExtBytecode,
        input: InputsImpl,
        is_static: bool,
        spec_id: SpecId,
        gas_limit: u64,
    ) -> (r: Interpreter)
        ensures
            r.stack.wf(),
            r@ == fresh(
                memory@,
                bytecode@,
                input@,
                RuntimeFlags { is_static, spec_id },
                gas_limit,
            ),
            memory@.checkpoint + 11 * gas_limit + 32 <= usize::MAX ==> shared_memory::room_for(
                memory@.checkpoint,
                r@.gas.limit as int,
            ),
    {
        proof {
            if memory@.checkpoint + 11 * gas_limit + 32 <= usize::MAX {
                let limit: int = if gas_limit > i64::MAX {
                    i64::MAX as int
                } else {
                    gas_limit as int
                };
                shared_memory::lemma_room_for(memory@.checkpoint, limit);
            }
        }
        Interpreter::new_inner(
            Stack::new(),
            memory,
            bytecode,
            input,
            is_static,
            spec_id,
            gas_limit,
        )
    }

    /// A new interpreter without code or input.
    pub fn default_ext() -> (r: Interpreter)
        ensures
            r.stack.wf(),
            r@ == blank(
                shared_memory::MemoryState {
                    buffer: Some(Seq::empty()),
                    checkpoint: 0,
                    child: None,
                    limit: u64::MAX,
                },
            ),
            r@.ext.code.runnable(),
            usize::MAX > u32::MAX ==> r.ready(),
    {
        Interpreter::do_default(Stack::new(), SharedMemory::new())
    }

    /// A placeholder that may not be run.
    pub fn invalid() -> (r: Interpreter)
        ensures
            r.stack.wf(),
            r@ == blank(
                shared_memory::MemoryState { buffer: None, checkpoint: 0, child: None, limit: 0 },
            ),
    {
        Interpreter::do_default(Stack::invalid(), SharedMemory::invalid())
    }

    fn do_default(stack: Stack, memory: SharedMemory) -> (r: Interpreter)
        requires
            stack.wf(),
        ensures
            r.stack == stack,
            r.memory == memory,
            r@ == (InterpreterState { stack: stack@, ..blank(memory@) }),
            r@.ext.code.runnable(),
    {
        Interpreter::new_inner(
            stack,
            memory,
            ExtBytecode::default(),
            InputsImpl::default(),
            false,
            SpecId::default(),
            u64::MAX,
        )
    }

    fn new_inner(
        stack: Stack,
        memory: SharedMemory,
        bytecode: ExtBytecode,
        input: InputsImpl,
        is_static: bool,
        spec_id: SpecId,
        gas_limit: u64,
    ) -> (r: Interpreter)
        ensures
            r.stack == stack,
            r.memory == memory,
            r@ == (InterpreterState {
                stack: stack@,
                ..fresh(
                    memory@,
                    bytecode@,
                    input@,
                    RuntimeFlags { is_static, spec_id },
                    gas_limit,
                )
            }),
    {
        Interpreter {
            bytecode,
            gas: Gas::new(gas_limit),
            return_data: ReturnDataImpl::default(),
            memory,
            input,
            runtime_flag: RuntimeFlags { is_static, spec_id },
            stack,
            gas_stash: u64::MAX,
        }
    }

    /// Makes the interpreter ready for another frame. Its code and its input stay; callers
    /// replace them in place.
    pub fn clear(&mut self, memory: SharedMemory, is_static: bool, spec_id: SpecId, gas_limit: u64)
        requires
            old(self).stack.wf(),
        ensures
            final(self).stack.wf(),
            final(self)@ == fresh(
                memory@,
                old(self)@.ext,
                old(self)@.input,
                RuntimeFlags { is_static, spec_id },
                gas_limit,
            ),
    {
        self.gas = Gas::new(gas_limit);
        self.stack.clear();
        self.return_data.clear();
        self.memory = memory;
        self.runtime_flag = RuntimeFlags { spec_id, is_static };
        self.gas_stash = u64::MAX;
    }

    /// Replaces the code.
    pub fn with_bytecode(self, bytecode: Bytecode) -> (r: Interpreter)
        ensures
            r.stack == self.stack,
            r@ == (InterpreterState { ext: ext_bytecode::fresh(bytecode@, None), ..self@ }),
    {
        let mut r = self;
        r.bytecode = ExtBytecode::new(bytecode);
        r
    }

    /// Sets the hard fork whose rules hold.
    pub fn set_spec_id(&mut self, spec_id: SpecId)
        ensures
            final(self).stack == old(self).stack,
            final(self)@ == (InterpreterState {
                flags: RuntimeFlags { spec_id, ..old(self)@.flags },
                ..old(self)@
            }),
    {
        self.runtime_flag.spec_id = spec_id;
    }

    /// Makes room in memory, if the gas pays for it.
    pub fn resize_memory(&mut self, offset: usize, len: usize) -> (r: bool)
        requires
            old(self).ready(),
        ensures
            final(self).stack == old(self).stack,
            r == (old(self)@.grown(offset as int, len as int) is Ok),
            ({
                let (_, gas, memory) = shared_memory::expanded(
                    old(self)@.gas,
                    old(self)@.memory,
                    offset as int,
                    len as int,
                );
                final(self)@ == (InterpreterState { gas, memory, ..old(self)@ })
            }),
    {
        resize_memory(&mut self.gas, &mut self.memory, offset, len)
    }

    /// Takes the next action, so that the run can be resumed.
    pub fn take_next_action(&mut self) -> (r: InterpreterAction)
        requires
            old(self)@.ext.action is Some,
        ensures
            final(self).stack == old(self).stack,
            r@ == old(self)@.ext.action->0,
            final(self)@ == old(self)@.taken(),
    {
        self.bytecode.reset_action();
        self.unpoison_gas();
        self.bytecode.take_action().unwrap()
    }

    /// [`Interpreter::take_next_action`], as what a run of [`EthInterpreter`] ends with.
    pub fn take_next_action_as_output(&mut self) -> (r: InterpreterAction)
        requires
            old(self)@.ext.action is Some,
        ensures
            final(self).stack == old(self).stack,
            r@ == old(self)@.ext.action->0,
            final(self)@ == old(self)@.taken(),
    {
        self.take_next_action()
    }

    /// Sets the next action and ends the run: the gas left is put aside and the counter
    /// poisoned, so that the next charge fails.
    pub fn set_action(&mut self, action: InterpreterAction)
        ensures
            final(self).stack == old(self).stack,
            final(self)@ == old(self)@.acting(action@),
    {
        self.bytecode.set_action(action);
        self.gas_stash = self.gas.poison();
    }

    /// Undoes the poisoning of the gas counter. Nothing happens if it is not poisoned.
    pub(crate) fn unpoison_gas(&mut self)
        ensures
            final(self).stack == old(self).stack,
            final(self)@ == old(self)@.unpoisoned(),
    {
        if self.gas_stash != u64::MAX {
            self.gas.unpoison(self.gas_stash);
            self.gas_stash = u64::MAX;
        }
    }

    /// Ends the frame without output.
    pub fn halt(&mut self, result: InstructionResult)
        ensures
            final(self).stack == old(self).stack,
            final(self)@ == old(self)@.halted(result),
    {
        let gas = self.gas;
        self.set_action(InterpreterAction::new_halt(result, gas));
    }

    /// Ends the frame because of an error outside the machine.
    pub fn halt_fatal(&mut self)
        ensures
            final(self).stack == old(self).stack,
            final(self)@ == old(self)@.halted(InstructionResult::FatalExternalError),
    {
        self.halt(InstructionResult::FatalExternalError);
    }

    /// Ends the frame because the gas ran out.
    pub fn halt_oog(&mut self)
        ensures
            final(self).stack == old(self).stack,
            final(self)@ == old(self)@.out_of_gas(),
    {
        self.gas.spend_all();
        self.halt(InstructionResult::OutOfGas);
    }

    /// Ends the frame because the gas does not pay for memory.
    pub fn halt_memory_oog(&mut self)
        ensures
            final(self).stack == old(self).stack,
            final(self)@ == old(self)@.halted(InstructionResult::MemoryOOG),
    {
        self.halt(InstructionResult::MemoryOOG);
    }

    /// Ends the frame because the memory limit was reached.
    pub fn halt_memory_limit_oog(&mut self)
        ensures
            final(self).stack == old(self).stack,
            final(self)@ == old(self)@.halted(InstructionResult::MemoryLimitOOG),
    {
        self.halt(InstructionResult::MemoryLimitOOG);
    }

    /// Ends the frame because the stack has no room.
    pub fn halt_overflow(&mut self)
        ensures
            final(self).stack == old(self).stack,
            final(self)@ == old(self)@.halted(InstructionResult::StackOverflow),
    {
        self.halt(InstructionResult::StackOverflow);
    }

    /// Ends the frame because the stack has too few words.
    pub fn halt_underflow(&mut self)
        ensures
            final(self).stack == old(self).stack,
            final(self)@ == old(self)@.halted(InstructionResult::StackUnderflow),
    {
        self.halt(InstructionResult::StackUnderflow);
    }

    /// Ends the frame because the feature is not active.
    pub fn halt_not_activated(&mut self)
        ensures
            final(self).stack == old(self).stack,
            final(self)@ == old(self)@.halted(InstructionResult::NotActivated),
    {
        self.halt(InstructionResult::NotActivated);
    }

    /// Ends the frame with an output.
    pub fn return_with_output(&mut self, output: Vec<u8>)
        ensures
            final(self).stack == old(self).stack,
            final(self)@ == old(self)@.returned(InstructionResult::Return, output@),
    {
        let gas = self.gas;
        self.set_action(InterpreterAction::new_return(InstructionResult::Return, output, gas));
    }

    // What instructions are made of.

    /// Ends the frame from inside an instruction that carries the counter, and hands back the
    /// poisoned counter.
    pub(crate) fn poison(&mut self, rem: u64, result: InstructionResult) -> (r: u64)
        ensures
            r == u64::MAX,
            final(self).stack == old(self).stack,
            final(self)@ == old(self)@.with_remaining(rem).halted(result),
    {
        self.gas.set_remaining(rem);
        self.halt(result);
        u64::MAX
    }

    /// Charges gas, or ends the frame.
    pub(crate) fn charge(&mut self, cost: u64) -> (r: bool)
        ensures
            final(self).stack == old(self).stack,
            match old(self)@.charged(cost as int) {
                Ok(s) => r && final(self)@ == s,
                Err(s) => !r && final(self)@ == s,
            },
    {
        if !self.gas.record_cost(cost) {
            self.halt_oog();
            return false;
        }
        true
    }

    /// Charges gas whose amount may have been too large for a number, or ends the frame.
    pub(crate) fn charge_or_fail(&mut self, cost: Option<u64>) -> (r: bool)
        ensures
            final(self).stack == old(self).stack,
            match cost {
                Some(c) => match old(self)@.charged(c as int) {
                    Ok(s) => r && final(self)@ == s,
                    Err(s) => !r && final(self)@ == s,
                },
                None => !r && final(self)@ == old(self)@.out_of_gas(),
            },
    {
        match cost {
            Some(c) => self.charge(c),
            None => {
                self.halt_oog();
                false
            },
        }
    }

    /// Makes room in memory, or ends the frame.
    pub(crate) fn make_room(&mut self, offset: usize, len: usize) -> (r: bool)
        requires
            shared_memory::growable(old(self)@.gas, old(self)@.memory),
        ensures
            final(self).stack == old(self).stack,
            final(self)@.memory.wf(),
            match old(self)@.roomy(offset as int, len as int) {
                Ok(s) => r && final(self)@ == s && shared_memory::growable(s.gas, s.memory)
                    && offset + len <= s.memory.size() && s.gas.remaining <= old(
                    self,
                )@.gas.remaining,
                Err(s) => !r && final(self)@ == s && s.gas.words <= u32::MAX,
            },
    {
        if self.memory.limit_reached(offset, len) {
            self.halt_memory_limit_oog();
            return false;
        }
        if !resize_memory(&mut self.gas, &mut self.memory, offset, len) {
            self.halt_memory_oog();
            return false;
        }
        true
    }

    /// Makes room in memory for the word at an offset, or ends the frame.
    pub(crate) fn make_room_word(&mut self, offset: usize) -> (r: bool)
        requires
            shared_memory::growable(old(self)@.gas, old(self)@.memory),
        ensures
            final(self).stack == old(self).stack,
            final(self)@.memory.wf(),
            match old(self)@.roomy_word(offset as int) {
                Ok(s) => r && final(self)@ == s && shared_memory::growable(s.gas, s.memory)
                    && offset + 32 <= s.memory.size() && s.gas.remaining <= old(
                    self,
                )@.gas.remaining,
                Err(s) => !r && final(self)@ == s && s.gas.words <= u32::MAX,
            },
    {
        if offset < self.gas.memory().word_limit() {
            return true;
        }
        if self.memory.limit_reached(offset, 32) {
            self.halt_memory_limit_oog();
            return false;
        }
        if !grow_memory_word(&mut self.gas, &mut self.memory, offset) {
            self.halt_memory_oog();
            return false;
        }
        true
    }

    /// Pops three words, the topmost one first, or ends the frame.
    pub(crate) fn pop3(&mut self) -> (r: Option<(U256, U256, U256)>)
        requires
            old(self).stack.wf(),
        ensures
            final(self).stack.wf(),
            match r {
                Some(w) => {
                    &&& old(self)@.stack.len() >= 3
                    &&& w == (old(self)@.nth(0), old(self)@.nth(1), old(self)@.nth(2))
                    &&& final(self)@ == old(self)@.popped(3)
                },
                None => {
                    &&& old(self)@.stack.len() < 3
                    &&& final(self)@ == old(self)@.halted(InstructionResult::StackUnderflow)
                },
            },
    {
        if self.stack.len() < 3 {
            self.halt_underflow();
            return None;
        }
        let ghost before = self.stack@;
        let a = self.stack.pop_unsafe();
        let b = self.stack.pop_unsafe();
        let c = self.stack.pop_unsafe();
        assert(self.stack@ =~= stack::dropped(before, 3));
        Some((a, b, c))
    }

    /// Pops two words, the topmost one first, or ends the frame.
    pub(crate) fn pop2(&mut self) -> (r: Option<(U256, U256)>)
        requires
            old(self).stack.wf(),
        ensures
            final(self).stack.wf(),
            match r {
                Some(w) => {
                    &&& old(self)@.stack.len() >= 2
                    &&& w == (old(self)@.nth(0), old(self)@.nth(1))
                    &&& final(self)@ == old(self)@.popped(2)
                },
                None => {
                    &&& old(self)@.stack.len() < 2
                    &&& final(self)@ == old(self)@.halted(InstructionResult::StackUnderflow)
                },
            },
    {
        if self.stack.len() < 2 {
            self.halt_underflow();
            return None;
        }
        let ghost before = self.stack@;
        let a = self.stack.pop_unsafe();
        let b = self.stack.pop_unsafe();
        assert(self.stack@ =~= stack::dropped(before, 2));
        Some((a, b))
    }

    /// Reads the cursor and the counter.
    pub(crate) fn load_at(&self) -> (r: (usize, u64))
        requires
            self.stack.wf(),
        ensures
            stack::live(r.0),
            self.at(r.0, r.1) == self@,
    {
        (self.stack.sp(), self.gas.remaining())
    }

    /// Stores a cursor and a counter that an instruction handed back.
    pub(crate) fn store_at(&mut self, sp: usize, rem: u64)
        requires
            old(self).settled_at(sp, rem),
        ensures
            final(self).settled(),
            final(self)@ == old(self).at(sp, rem),
    {
        self.stack.set_sp(sp);
        self.gas.set_remaining(rem);
    }
}

} // verus!
