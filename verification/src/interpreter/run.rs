//! Running code: step by step through the instruction table, or in one go.

use crate::bytecode::analysis;
use crate::bytecode::code::CodeState;
use crate::bytecode::code;
use crate::bytecode::opcode;
use crate::gas::constants::{JUMPDEST, MID, VERYLOW};
use crate::host::{DummyHost, EnvState, Host};
use crate::instructions::context::InstructionContext;
use crate::instructions::control;
use crate::instructions::memory;
use crate::instructions::stack as stack_instructions;
use crate::instructions::table::{execute_at, static_gas, Instruction};
use crate::instructions::table;
use crate::interpreter::action::{ActionState, InterpreterAction};
use crate::interpreter::instruction_result::InstructionResult;
use crate::interpreter::interpreter_types::{JumpCtx, Jumps, LoopControl};
use crate::interpreter::machine::Interpreter;
use crate::interpreter::stack::{STACK_LIMIT, WORD};
use crate::interpreter::stack;
use crate::interpreter::state::InterpreterState;
use crate::primitives::SpecId;
use vstd::prelude::*;

verus! {

/// From the merge on the block has its randomness.
pub open spec fn has_randomness(s: InterpreterState, env: EnvState) -> bool {
    s.enabled(SpecId::MERGE) ==> env.prevrandao is Some
}

/// Whether a table has an entry for each byte, whose instruction reads as much immediate data
/// as the byte announces.
pub open spec fn usable_table(t: Seq<Instruction>) -> bool {
    &&& t.len() == 256
    &&& forall|byte: u8|
        {
            &&& (#[trigger] t[byte as int]).spec_cost() <= i64::MAX
            &&& opcode::immediate_len(t[byte as int].spec_op()) == opcode::immediate_len(byte)
        }
}

/// What the instruction at the position does, by its entry in the table: the opcode is
/// fetched, the static gas is charged, and the instruction is executed.
pub open spec fn table_step<H: Host>(
    entry: Instruction,
    s: InterpreterState,
    pre: &H,
    end: InterpreterState,
    post: &H,
) -> bool {
    let fetched = s.with_ip(s.ext.ip + 1);
    if s.gas.remaining < entry.spec_cost() {
        end == fetched.out_of_gas() && *post == *pre
    } else {
        table::effected(
            table::effect_of(
                entry.spec_op(),
                false,
                fetched.with_remaining((s.gas.remaining - entry.spec_cost()) as u64),
                pre.env(),
            ),
            pre,
            end,
            post,
        )
    }
}

/// The static gas of an opcode in [`Interpreter::run_plain`], where a `JUMP` pays for the
/// `JUMPDEST` that it always lands on.
pub open spec fn spec_fused_gas(op: u8) -> u64 {
    if op == opcode::JUMP {
        9
    } else {
        table::spec_static_gas(op)
    }
}

/// The static gas of an opcode in [`Interpreter::run_plain`].
fn fused_gas(op: u8) -> (r: u64)
    ensures
        r == spec_fused_gas(op),
        r <= 100,
{
    if op == opcode::JUMP {
        MID + JUMPDEST
    } else {
        static_gas(op)
    }
}

/// A `DUP2` and the `MSTORE` behind it, taken together. The `DUP2` is paid for, and the
/// position is that of the `MSTORE`.
pub open spec fn dup2_mstore_step(s: InterpreterState) -> InterpreterState {
    match s.with_ip(s.ext.ip + 1).charged(VERYLOW as int) {
        Err(halted) => halted,
        Ok(t) => memory::mstore_dup2_step(t),
    }
}

/// What a run does with an instruction whose static gas is paid, in the state `t` behind its
/// opcode: three pairs are taken together, and jumps take the `JUMPDEST` with them.
pub open spec fn dispatched<H: Host>(
    op: u8,
    t: InterpreterState,
    pre: &H,
    end: InterpreterState,
    post: &H,
) -> bool {
    let code = t.ext.code.bytes();
    if op == opcode::PUSH2 && t.stack.len() < STACK_LIMIT && code[t.ext.ip + 2] == opcode::JUMPI {
        end == control::jumpi_imm_step(t.with_ip(t.ext.ip - 1), 2) && *post == *pre
    } else if op == opcode::PUSH2 && t.stack.len() < STACK_LIMIT && code[t.ext.ip + 2]
        == opcode::JUMP {
        end == control::jump_imm_step(t.with_ip(t.ext.ip - 1), 2) && *post == *pre
    } else if op == opcode::DUP2 && 2 <= t.stack.len() < STACK_LIMIT && code[t.ext.ip]
        == opcode::MSTORE {
        end == dup2_mstore_step(t) && *post == *pre
    } else {
        table::effected(table::effect_of(op, true, t, pre.env()), pre, end, post)
    }
}

/// One step of a run: the opcode is fetched, the static gas is charged, and the instruction is
/// executed, perhaps together with the one behind it.
pub open spec fn plain_step<H: Host>(
    s: InterpreterState,
    pre: &H,
    end: InterpreterState,
    post: &H,
) -> bool {
    let op = s.ext.code.bytes()[s.ext.ip];
    let fetched = s.with_ip(s.ext.ip + 1);
    if s.gas.remaining < spec_fused_gas(op) {
        end == fetched.out_of_gas() && *post == *pre
    } else {
        dispatched(
            op,
            fetched.with_remaining((s.gas.remaining - spec_fused_gas(op)) as u64),
            pre,
            end,
            post,
        )
    }
}

/// The step from one member of a trace, in which the run goes on at an instruction, to the
/// next.
pub open spec fn linked<H: Host>(trace: Seq<(InterpreterState, H)>, i: int) -> bool {
    &&& trace[i].0.running()
    &&& trace[i].0.ok()
    &&& trace[i].0.at_instruction()
    &&& plain_step(trace[i].0, &trace[i].1, trace[i + 1].0, &trace[i + 1].1)
    &&& trace[i + 1].0.ext.code == trace[i].0.ext.code
    &&& trace[i + 1].0.input == trace[i].0.input
}

/// A run: states of the interpreter and of the host, each the step of the one before it. A
/// state in which the run has ended is the last one.
pub open spec fn is_run<H: Host>(trace: Seq<(InterpreterState, H)>) -> bool {
    &&& trace.len() > 0
    &&& forall|i: int| 0 <= i < trace.len() - 1 ==> #[trigger] linked(trace, i)
}

/// What holds after an instruction of a code whose static gas was paid, in the state `t` behind
/// its opcode: the code and the rules are the same; if the run goes on, it is at an
/// instruction and has no more gas, and less if there was no static gas; if it has ended, the
/// position is still inside the code, and a run that asks for a new frame can be resumed.
pub open spec fn advanced(op: u8, t: InterpreterState, end: InterpreterState) -> bool {
    &&& end.ext.code == t.ext.code
    &&& end.flags == t.flags
    &&& end.input == t.input
    &&& end.running() ==> {
        &&& end.at_instruction()
        &&& end.gas.remaining <= t.gas.remaining
        &&& spec_fused_gas(op) == 0 ==> end.gas.remaining < t.gas.remaining
    }
    &&& !end.running() ==> {
        &&& 0 <= end.ext.ip < end.ext.code.bytes().len()
        &&& end.stash <= t.gas.remaining
        &&& end.ext.action->0 is NewFrame ==> end.at_instruction() && end.memory == t.memory
            && end.gas.words == t.gas.words
    }
}

/// An instruction that is executed by the table leads on.
proof fn lemma_table_advances(op: u8, s: InterpreterState, t: InterpreterState, end: InterpreterState)
    requires
        s.ok(),
        s.at_instruction(),
        s.ext.code.bytes()[s.ext.ip] == op,
        t.ext.code == s.ext.code,
        t.ext.ip == s.ext.ip + 1,
        table::moved(op, t, end),
        !table::is_jump(op),
    ensures
        advanced(op, t, end),
{
    let code = s.ext.code;
    if s.ext.ip < code.stop() {
        code::running_stays_inside_the_code(code, s.ext.ip);
    }
}

/// A jump leads on.
proof fn lemma_jump_advances(op: u8, s: InterpreterState, t: InterpreterState, end: InterpreterState)
    requires
        s.ok(),
        s.at_instruction(),
        s.ext.code.bytes()[s.ext.ip] == op,
        t.ext.code == s.ext.code,
        t.ext.ip == s.ext.ip + 1,
        table::is_jump(op),
        fused_jump(t, end),
    ensures
        advanced(op, t, end),
{
    let code = s.ext.code;
    code::running_stays_inside_the_code(code, s.ext.ip);
    if end.running() && end.ext.ip != t.ext.ip {
        lemma_landing(code, end.ext.ip - 1);
    }
}

/// Where a jump that takes the `JUMPDEST` with it leads.
pub open spec fn fused_jump(s: InterpreterState, end: InterpreterState) -> bool {
    &&& end.ext.code == s.ext.code
    &&& end.flags == s.flags
    &&& end.input == s.input
    &&& end.running() ==> end.gas.remaining <= s.gas.remaining && (end.ext.ip == s.ext.ip
        || s.ext.code.valid_jump(end.ext.ip - 1))
    &&& !end.running() ==> end.ext.ip == s.ext.ip && end.stash <= s.gas.remaining
        && end.ext.action->0 is Return
}

/// Behind the `JUMPDEST` that a jump lands on there is an instruction.
proof fn lemma_landing(code: CodeState, target: int)
    requires
        code.runnable(),
        code.valid_jump(target),
    ensures
        0 <= target + 1 <= code.stop(),
        analysis::is_boundary(code.bytes(), target + 1),
{
    assert(analysis::is_jumpdest(code.bytes(), target));
    assert(target != code.stop());
    code::running_stays_inside_the_code(code, target);
}

/// Behind a `PUSH` there is an instruction, and behind that there are more bytes.
pub proof fn lemma_pair(s: InterpreterState, op: u8, n: int)
    requires
        s.ok(),
        s.at_instruction(),
        s.ext.code.bytes()[s.ext.ip] == op,
        opcode::is_opcode(op),
        op != opcode::STOP,
        opcode::immediate_len(op) == n,
    ensures
        s.ext.ip + n + 1 <= s.ext.code.stop(),
        s.ext.code.stop() + 1 < s.ext.code.bytes().len(),
        analysis::is_boundary(s.ext.code.bytes(), s.ext.ip + n + 1),
        s.ext.code.bytes().len() <= usize::MAX,
{
    let code = s.ext.code;
    assert(s.ext.ip != code.stop());
    code::running_stays_inside_the_code(code, s.ext.ip);
}

impl Interpreter {
    /// Fetches the entry of the opcode at the position and moves behind the opcode.
    fn fetch(&mut self, instruction_table: &[Instruction]) -> (r: Instruction)
        requires
            old(self)@.ext.inside(),
            instruction_table@.len() == 256,
        ensures
            final(self).stack == old(self).stack,
            final(self)@ == old(self)@.with_ip(old(self)@.ext.ip + 1),
            r == instruction_table@[old(self)@.ext.code.bytes()[old(self)@.ext.ip] as int],
    {
        let op: u8 = self.bytecode.opcode();
        self.bytecode.relative_jump(1);
        instruction_table[op as usize]
    }

    /// Executes the instruction at the position, by its entry in the table. The gas counter is
    /// not poisoned afterwards.
    pub fn step<H: Host>(&mut self, instruction_table: &[Instruction], host: &mut H)
        requires
            old(self).ready(),
            old(self)@.at_instruction(),
            usable_table(instruction_table@),
            has_randomness(old(self)@, old(host).env()),
        ensures
            final(self).stack.wf(),
            final(host).env() == old(host).env(),
            ({
                let op = old(self)@.ext.code.bytes()[old(self)@.ext.ip];
                let entry = instruction_table@[op as int];
                exists|end: InterpreterState|
                    {
                        &&& #[trigger] table_step(entry, old(self)@, old(host), end, final(host))
                        &&& end.ok()
                        &&& final(self)@ == end.unpoisoned()
                        &&& table::is_default_entry(entry, op) ==> end.ext.code
                            == old(self)@.ext.code && end.flags == old(self)@.flags && (
                        end.running() ==> end.at_instruction())
                    }
            }),
            final(self)@.running() ==> final(self).ready() && final(self)@.gas.remaining <= old(
                self,
            )@.gas.remaining,
    {
        let ghost s = self@;
        let ghost op = s.ext.code.bytes()[s.ext.ip];
        proof {
            if s.ext.ip < s.ext.code.stop() {
                code::running_stays_inside_the_code(s.ext.code, s.ext.ip);
            }
            assert(opcode::immediate_len(instruction_table@[op as int].spec_op())
                == opcode::immediate_len(op));
        }
        let instruction = self.fetch(instruction_table);
        let ghost mut end = self@;
        if self.gas.record_cost_unsafe(instruction.static_gas()) {
            self.halt_oog();
            proof {
                end = self@;
                assert(table_step(instruction, s, host, end, host));
            }
        } else {
            let ghost t = self@;
            let ghost h = *host;
            instruction.execute(InstructionContext { interpreter: &mut *self, host: &mut *host });
            proof {
                end = self@;
                assert(table_step(instruction, s, &h, end, host));
                if table::is_default_entry(instruction, op) {
                    if opcode::is_opcode(op) {
                        lemma_default_entry(op, s, t, end);
                    }
                }
            }
        }
        if self.bytecode.is_end() {
            self.unpoison_gas();
        }
        assert(self@ == end.unpoisoned());
    }

    /// [`Interpreter::step`] with a host that has no state.
    pub fn step_dummy(&mut self, instruction_table: &[Instruction])
        requires
            old(self).ready(),
            old(self)@.at_instruction(),
            usable_table(instruction_table@),
        ensures
            final(self).stack.wf(),
            ({
                let op = old(self)@.ext.code.bytes()[old(self)@.ext.ip];
                exists|end: InterpreterState| #[trigger]
                    table_step(
                        instruction_table@[op as int],
                        old(self)@,
                        &DummyHost,
                        end,
                        &DummyHost,
                    ) && final(self)@ == end.unpoisoned()
            }),
            final(self)@.running() ==> final(self).ready(),
    {
        let mut host = DummyHost;
        self.step(instruction_table, &mut host);
    }

    /// What happens when the dispatch loop is left: either an instruction set an action, and
    /// the opcode that was fetched behind it is given back; or the gas ran out.
    fn end_dispatch(&mut self)
        requires
            !old(self)@.running() ==> old(self)@.ext.ip > 0,
        ensures
            final(self).stack == old(self).stack,
            final(self)@ == (if old(self)@.running() {
                old(self)@.out_of_gas()
            } else {
                old(self)@.with_ip(old(self)@.ext.ip - 1)
            }),
    {
        if self.bytecode.is_not_end() {
            self.halt_oog();
        } else {
            let ip: usize = self.bytecode.ip();
            self.bytecode.set_ip(ip - 1);
        }
    }
}

/// What the dispatch loop carries.
pub struct Cursor {
    /// The position.
    pub ip: usize,
    /// The stack cursor.
    pub sp: usize,
    /// The gas counter.
    pub rem: u64,
}

impl Interpreter {
    /// The state with all that the dispatch loop carries.
    pub open spec fn carried(&self, c: Cursor) -> InterpreterState {
        self.at(c.sp, c.rem).with_ip(c.ip as int)
    }

    /// The byte of the code at a position.
    fn code_at(&self, at: usize) -> (r: u8)
        requires
            at < self@.ext.code.bytes().len(),
        ensures
            r == self@.ext.code.bytes()[at as int],
    {
        self.bytecode.base().bytes_ref()[at]
    }

    /// Executes a `PUSH` of `n` bytes whose static gas is paid; a `PUSH2` perhaps together
    /// with the jump behind it. The cursor is at the opcode.
    fn dispatch_push<H: Host>(&mut self, op: u8, c: Cursor, jctx: JumpCtx, host: &mut H) -> (r:
        Cursor)
        requires
            old(self).ready_at(c.sp, c.rem),
            old(self).carried(c).at_instruction(),
            old(self)@.ext.code.bytes()[c.ip as int] == op,
            opcode::PUSH1 <= op <= opcode::PUSH32,
            jctx.fits(old(self)@.ext.code),
        ensures
            final(self).settled_at(r.sp, r.rem),
            *final(host) == *old(host),
            dispatched(
                op,
                old(self).carried(c).with_ip(c.ip + 1),
                old(host),
                final(self).carried(r),
                final(host),
            ),
            advanced(op, old(self).carried(c).with_ip(c.ip + 1), final(self).carried(r)),
    {
        let ghost s = self.carried(c);
        let ghost t = s.with_ip(c.ip + 1);
        let Cursor { ip, sp, rem } = c;
        let n: usize = (op - opcode::PUSH1 + 1) as usize;
        proof {
            lemma_pair(s, op, n as int);
        }
        if self.stack.full_at(sp) {
            self.bytecode.set_ip(ip + 1);
            let rem: u64 = self.poison(rem, InstructionResult::StackOverflow);
            return Cursor { ip: ip + 1, sp, rem };
        }
        if n == 2 && self.code_at(ip + 3) == opcode::JUMPI {
            proof {
                lemma_pair(s.with_ip(ip + 3), opcode::JUMPI, 0);
            }
            self.gas.set_remaining(rem);
            let (next_ip, next_sp) = control::jumpi_imm_at::<2>(self, ip, sp, jctx);
            let r = Cursor { ip: next_ip, sp: next_sp, rem: self.gas.remaining() };
            proof {
                lemma_imm_advances(op, s, self.carried(r));
            }
            r
        } else if n == 2 && self.code_at(ip + 3) == opcode::JUMP {
            proof {
                lemma_pair(s.with_ip(ip + 3), opcode::JUMP, 0);
            }
            self.gas.set_remaining(rem);
            let (next_ip, next_sp) = control::jump_imm_at::<2>(self, ip, sp, jctx);
            let r = Cursor { ip: next_ip, sp: next_sp, rem: self.gas.remaining() };
            proof {
                lemma_imm_advances(op, s, self.carried(r));
            }
            r
        } else {
            let word = crate::interpreter::be_word::be_number(
                vstd::slice::slice_subrange(self.bytecode.base().bytes_ref(), ip + 1, ip + 1 + n),
            );
            self.stack.push_at(sp, word);
            Cursor { ip: ip + 1 + n, sp: sp.wrapping_add(WORD), rem }
        }
    }

    /// Executes a `DUP2` whose static gas is paid together with the `MSTORE` behind it. The
    /// cursor is at the `DUP2`.
    fn dispatch_dup2_mstore<H: Host>(&mut self, c: Cursor, host: &mut H) -> (r: Cursor)
        requires
            old(self).ready_at(c.sp, c.rem),
            old(self).carried(c).at_instruction(),
            old(self)@.ext.code.bytes()[c.ip as int] == opcode::DUP2,
            old(self)@.ext.code.bytes()[c.ip + 1] == opcode::MSTORE,
            2 <= stack::depth_of(c.sp) < STACK_LIMIT,
        ensures
            final(self).settled_at(r.sp, r.rem),
            *final(host) == *old(host),
            final(self).carried(r) == dup2_mstore_step(
                old(self).carried(c).with_ip(c.ip + 1),
            ),
            advanced(
                opcode::DUP2,
                old(self).carried(c).with_ip(c.ip + 1),
                final(self).carried(r),
            ),
    {
        let ghost s = self.carried(c);
        let Cursor { ip, sp, rem } = c;
        proof {
            lemma_pair(s, opcode::DUP2, 0);
            lemma_pair(s.with_ip(ip + 1), opcode::MSTORE, 0);
        }
        if rem < VERYLOW {
            self.gas.spend_all();
            let rem: u64 = self.poison(0, InstructionResult::OutOfGas);
            return Cursor { ip: ip + 2, sp, rem };
        }
        let (sp, rem) = memory::mstore_dup2_at(
            InstructionContext { interpreter: &mut *self, host: &mut *host },
            sp,
            rem - VERYLOW,
        );
        Cursor { ip: ip + 2, sp, rem }
    }

    /// Executes an instruction whose static gas is paid. The cursor is at its opcode.
    fn dispatch<H: Host>(&mut self, op: u8, c: Cursor, jctx: JumpCtx, host: &mut H) -> (r: Cursor)
        requires
            old(self).ready_at(c.sp, c.rem),
            old(self).carried(c).at_instruction(),
            old(self)@.ext.code.bytes()[c.ip as int] == op,
            jctx.fits(old(self)@.ext.code),
            has_randomness(old(self)@, old(host).env()),
        ensures
            final(self).settled_at(r.sp, r.rem),
            final(host).env() == old(host).env(),
            dispatched(
                op,
                old(self).carried(c).with_ip(c.ip + 1),
                old(host),
                final(self).carried(r),
                final(host),
            ),
            advanced(op, old(self).carried(c).with_ip(c.ip + 1), final(self).carried(r)),
    {
        let ghost s = self.carried(c);
        let ghost t = s.with_ip(c.ip + 1);
        if op >= opcode::PUSH1 && op <= opcode::PUSH32 {
            return self.dispatch_push(op, c, jctx, host);
        }
        let ghost len = s.ext.code.bytes().len();
        proof {
            self.stack.lemma_words_at_len(c.sp);
            if opcode::is_opcode(op) && op != opcode::STOP {
                lemma_pair(s, op, 0);
            }
        }
        let Cursor { ip, sp, rem } = c;
        if op == opcode::DUP2 && !self.stack.full_at(sp) && !self.stack.shallow_at(sp, 2)
            && self.code_at(ip + 1) == opcode::MSTORE {
            return self.dispatch_dup2_mstore(Cursor { ip, sp, rem }, host);
        }
        if op == opcode::JUMP || op == opcode::JUMPI {
            self.gas.set_remaining(rem);
            let (next_ip, next_sp) = if op == opcode::JUMP {
                control::jump_at::<true, H>(
                    InstructionContext { interpreter: &mut *self, host: &mut *host },
                    ip + 1,
                    sp,
                    jctx,
                )
            } else {
                control::jumpi_at::<true, H>(
                    InstructionContext { interpreter: &mut *self, host: &mut *host },
                    ip + 1,
                    sp,
                    jctx,
                )
            };
            let r = Cursor { ip: next_ip, sp: next_sp, rem: self.gas.remaining() };
            proof {
                lemma_jump_advances(op, s, t, self.carried(r));
            }
            return r;
        }
        self.bytecode.set_ip(ip + 1);
        assert(self.at(sp, rem) == t);
        let (sp, rem) = execute_at(
            op,
            InstructionContext { interpreter: &mut *self, host: &mut *host },
            sp,
            rem,
        );
        let r = Cursor { ip: ip + 1, sp, rem };
        proof {
            lemma_table_advances(op, s, t, self.at(sp, rem));
            assert(self.carried(r) == self.at(sp, rem));
        }
        r
    }
}

/// A run from a state of the interpreter and the host to its end: the interpreter as it is left
/// for the run to be resumed, the host, and the action that ended the run.
pub open spec fn ran<H: Host>(
    s: InterpreterState,
    pre: &H,
    end: InterpreterState,
    post: &H,
    action: ActionState,
) -> bool {
    exists|trace: Seq<(InterpreterState, H)>|
        {
            &&& #[trigger] is_run(trace)
            &&& trace[0] == (s, *pre)
            &&& trace.last().1 == *post
            &&& !trace.last().0.running()
            &&& trace.last().0.ext.action == Some(action)
            &&& end == trace.last().0.taken()
        }
}

/// A run that has come so far can take one more step.
proof fn lemma_run_extends<H: Host>(
    trace: Seq<(InterpreterState, H)>,
    next: InterpreterState,
    host: H,
)
    requires
        is_run(trace),
        trace.last().0.running(),
        trace.last().0.ok(),
        trace.last().0.at_instruction(),
        plain_step(trace.last().0, &trace.last().1, next, &host),
        next.ext.code == trace.last().0.ext.code,
        next.input == trace.last().0.input,
    ensures
        is_run(trace.push((next, host))),
{
    let longer = trace.push((next, host));
    assert forall|i: int| 0 <= i < longer.len() - 1 implies #[trigger] linked(longer, i) by {
        if i < trace.len() - 1 {
            assert(linked(trace, i));
        }
    }
}

impl Interpreter {
    /// Runs the code until the frame ends or asks for a new one. The table is not consulted:
    /// the run goes by the built-in instructions, as the default table does.
    ///
    /// The position, the stack cursor and the gas counter are carried by the loop. An
    /// instruction that ends the run poisons the counter, so that the next charge fails and
    /// the loop has a single exit; one opcode more is fetched by then.
    pub fn run_plain<H: Host>(&mut self, instruction_table: &[Instruction], host: &mut H) -> (r:
        InterpreterAction)
        requires
            old(self).ready(),
            old(self)@.at_instruction(),
            has_randomness(old(self)@, old(host).env()),
        ensures
            ran(old(self)@, old(host), final(self)@, final(host), r@),
            final(self).stack.wf(),
            final(host).env() == old(host).env(),
            final(self)@.ext.code == old(self)@.ext.code,
            final(self)@.flags == old(self)@.flags,
            final(self)@.gas.remaining <= old(self)@.gas.remaining,
            r@ is NewFrame ==> final(self).ready() && final(self)@.at_instruction(),
    {
        let ghost start = self@;
        let ghost env = host.env();
        let ghost mut trace = seq![(self@, *host)];
        let jctx = self.bytecode.jump_ctx();
        let ip: usize = self.bytecode.ip();
        let (sp, rem) = self.load_at();
        let mut c = Cursor { ip, sp, rem };
        assert(self.carried(c) == start);
        loop
            invariant_except_break
                c.ip as int == self.carried(c).ext.ip,
                trace.last() == (self.carried(c), *host),
                self@.running() ==> self.carried(c).at_instruction(),
                self@.running() ==> c.rem <= start.gas.remaining,
                !self@.running() ==> 0 <= c.ip < start.ext.code.bytes().len(),
            invariant
                self.settled_at(c.sp, c.rem),
                jctx.fits(start.ext.code),
                self@.ext.code == start.ext.code,
                self@.flags == start.flags,
                host.env() == env,
                has_randomness(start, env),
                is_run(trace),
                trace[0] == (start, *old(host)),
                start.ok(),
                !self@.running() ==> self@.stash <= start.gas.remaining,
                !self@.running() && self@.ext.action->0 is NewFrame ==> self.carried(
                    c,
                ).at_instruction() && self@.memory.size() == 32 * self@.gas.words,
            ensures
                c.ip < start.ext.code.bytes().len(),
                self@.ext.ip == c.ip + 1,
                trace.last() == (self.carried(c), *host),
                self@.running() ==> self.carried(c).at_instruction() && plain_step(
                    self.carried(c),
                    host,
                    self.carried(c).with_ip(c.ip + 1).out_of_gas(),
                    host,
                ),
            decreases
                    (if self@.running() {
                        1int
                    } else {
                        0int
                    }),
                    c.rem,
        {
            let op: u8 = self.code_at(c.ip);
            let cost: u64 = fused_gas(op);
            let left: u64 = c.rem.wrapping_sub(cost);
            if left > i64::MAX as u64 {
                self.bytecode.set_ip(c.ip + 1);
                break;
            }
            let ghost s = self.carried(c);
            let ghost h = *host;
            let paid = Cursor { ip: c.ip, sp: c.sp, rem: left };
            assert(self.ready_at(paid.sp, paid.rem));
            c = self.dispatch(op, paid, jctx, host);
            proof {
                let end = self.carried(c);
                assert(plain_step(s, &h, end, host));
                lemma_run_extends(trace, end, *host);
                trace = trace.push((end, *host));
            }
        }
        self.store_at(c.sp, c.rem);
        proof {
            if self@.running() {
                let end = self@.out_of_gas();
                assert(end == trace.last().0.with_ip(c.ip + 1).out_of_gas());
                lemma_run_extends(trace, end, *host);
                trace = trace.push((end, *host));
            }
        }
        self.end_dispatch();
        assert(trace.last() == (self@, *host));
        assert(is_run(trace));
        self.take_next_action()
    }

    /// [`Interpreter::run_plain`], as what a run of an `EthInterpreter` ends with.
    pub fn run_plain_as_output<H: Host>(&mut self, instruction_table: &[Instruction], host: &mut H) -> (r:
        InterpreterAction)
        requires
            old(self).ready(),
            old(self)@.at_instruction(),
            has_randomness(old(self)@, old(host).env()),
        ensures
            ran(old(self)@, old(host), final(self)@, final(host), r@),
            final(self).stack.wf(),
            final(host).env() == old(host).env(),
            final(self)@.ext.code == old(self)@.ext.code,
            final(self)@.flags == old(self)@.flags,
            final(self)@.gas.remaining <= old(self)@.gas.remaining,
            r@ is NewFrame ==> final(self).ready() && final(self)@.at_instruction(),
    {
        self.run_plain(instruction_table, host)
    }
}

/// A `PUSH2` and the jump behind it, taken together, lead on.
proof fn lemma_imm_advances(op: u8, s: InterpreterState, end: InterpreterState)
    requires
        s.ok(),
        s.at_instruction(),
        s.running(),
        op == opcode::PUSH2,
        s.ext.code.bytes()[s.ext.ip] == op,
        s.ext.code.bytes()[s.ext.ip + 3] == opcode::JUMP || s.ext.code.bytes()[s.ext.ip + 3]
            == opcode::JUMPI,
        end == control::jump_imm_step(s, 2) || end == control::jumpi_imm_step(s, 2),
    ensures
        advanced(op, s.with_ip(s.ext.ip + 1), end),
{
    let code = s.ext.code;
    lemma_pair(s, op, 2);
    let second = s.with_ip(s.ext.ip + 3);
    lemma_pair(second, code.bytes()[s.ext.ip + 3], 0);
    if end.running() && end.ext.ip != s.ext.ip + 4 {
        lemma_landing(code, end.ext.ip - 1);
    }
}

/// A default entry leads to an instruction.
proof fn lemma_default_entry(op: u8, s: InterpreterState, t: InterpreterState, end: InterpreterState)
    requires
        s.ok(),
        s.at_instruction(),
        s.ext.code.bytes()[s.ext.ip] == op,
        t.ext.code == s.ext.code,
        t.flags == s.flags,
        t.ext.ip == s.ext.ip + 1,
        table::moved(op, t, end),
    ensures
        end.ext.code == s.ext.code,
        end.flags == s.flags,
        end.running() ==> end.at_instruction(),
{
    let code = s.ext.code;
    if s.ext.ip < code.stop() {
        code::running_stays_inside_the_code(code, s.ext.ip);
    }
}

} // verus!
