//! What holds of runs, of the stack and of the memory as a whole.

use crate::bytecode::opcode;
use crate::gas::constants::{HIGH, JUMPDEST, MID, VERYLOW};
use crate::host::{EnvState, Host, HostCall, HostReply};
use crate::instructions::control;
use crate::instructions::host as host_instructions;
use crate::instructions::host::HostStep;
use crate::instructions::memory;
use crate::instructions::stack as stack_instructions;
use crate::instructions::table;
use crate::instructions::table::{Effect, Instruction};
use crate::interpreter::action::{ActionState, ResultState};
use crate::interpreter::instruction_result::InstructionResult;
use crate::interpreter::run;
use crate::interpreter::shared_memory::MemoryState;
use crate::interpreter::stack;
use crate::interpreter::stack::STACK_LIMIT;
use crate::interpreter::state::InterpreterState;
use crate::primitives::be;
use crate::primitives::u256;
use crate::primitives::{Address, U256};
use vstd::arithmetic::power::*;
use vstd::prelude::*;

verus! {

/// Whether an instruction starts a pair that a run takes together.
pub open spec fn starts_pair(s: InterpreterState) -> bool {
    let code = s.ext.code.bytes();
    let op = code[s.ext.ip];
    ||| op == opcode::PUSH2 && s.stack.len() < STACK_LIMIT && (code[s.ext.ip + 3] == opcode::JUMPI
        || code[s.ext.ip + 3] == opcode::JUMP)
    ||| op == opcode::DUP2 && 2 <= s.stack.len() < STACK_LIMIT && code[s.ext.ip + 1]
        == opcode::MSTORE
}

/// A byte that is no opcode ends the frame.
pub proof fn a_byte_that_is_no_opcode_ends_the_frame(
    op: u8,
    fuse: bool,
    s: InterpreterState,
    env: EnvState,
)
    requires
        !opcode::is_opcode(op),
    ensures
        table::effect_of(op, fuse, s, env) == table::Effect::Becomes(
            s.halted(InstructionResult::OpcodeNotFound),
        ),
        table::spec_static_gas(op) == 0,
{
    reveal(table::arithmetic_effect);
    reveal(table::bitwise_effect);
    reveal(table::environment_effect);
    reveal(table::block_effect);
    reveal(host_instructions::extcode_ask);
    reveal(table::flow_effect);
    reveal(table::ending_effect);
}

/// Apart from jumps and the pairs that it takes together, a run does what a step through the
/// default table does.
pub proof fn a_run_goes_by_the_table<H: Host>(
    entry: Instruction,
    s: InterpreterState,
    pre: &H,
    end: InterpreterState,
    post: &H,
)
    requires
        ({
            let op = s.ext.code.bytes()[s.ext.ip];
            &&& table::is_default_entry(entry, op)
            &&& !table::is_jump(op)
            &&& !starts_pair(s)
        }),
    ensures
        run::plain_step(s, pre, end, post) == run::table_step(entry, s, pre, end, post),
{
    let op = s.ext.code.bytes()[s.ext.ip];
    if !opcode::is_opcode(op) {
        let fetched = s.with_ip(s.ext.ip + 1).with_remaining(s.gas.remaining);
        a_byte_that_is_no_opcode_ends_the_frame(op, true, fetched, pre.env());
        a_byte_that_is_no_opcode_ends_the_frame(table::UNKNOWN, false, fetched, pre.env());
    }
}

/// How a frame ended.
pub open spec fn ending(s: InterpreterState) -> Option<InstructionResult> {
    match s.ext.action {
        Some(ActionState::Return(result)) => Some(result.result),
        _ => None,
    }
}

/// Whether a result is an error.
pub open spec fn is_error(result: InstructionResult) -> bool {
    !result.spec_ok() && !result.spec_revert()
}

/// Two ends of one instruction: the same state if the run goes on, and otherwise the same but
/// for the words that are left on the stack.
pub open spec fn same_but_for_dead_words(a: InterpreterState, b: InterpreterState) -> bool {
    &&& a.running() == b.running()
    &&& a.running() ==> a == b
    &&& !a.running() ==> a.with_stack(b.stack) == b
}

/// A `JUMP` as a run takes it, with the `JUMPDEST`.
pub open spec fn jump_in_a_run(s: InterpreterState) -> InterpreterState {
    match s.with_ip(s.ext.ip + 1).charged(MID + JUMPDEST) {
        Err(halted) => halted,
        Ok(t) => control::jump_step(t, true),
    }
}

/// A `JUMP` as the table takes it, and the `JUMPDEST` after it.
pub open spec fn jump_by_the_table(s: InterpreterState) -> InterpreterState {
    let landed = match s.with_ip(s.ext.ip + 1).charged(MID as int) {
        Err(halted) => halted,
        Ok(t) => control::jump_step(t, false),
    };
    if landed.running() {
        match landed.with_ip(landed.ext.ip + 1).charged(JUMPDEST as int) {
            Err(halted) => halted,
            Ok(t) => t,
        }
    } else {
        landed
    }
}

/// A run charges for a `JUMP` and its `JUMPDEST` at once. If there is gas for both, a jump that
/// is taken ends as it does by the table, and one that is not ends the frame for the same
/// reason. If the gas ran out before the `JUMP`, both end alike. In between, with gas for the
/// `JUMP` alone, both end the frame with an error, though perhaps with another one.
pub proof fn a_jump_pays_for_its_jumpdest(s: InterpreterState)
    requires
        s.running(),
        s.ext.action is None,
        s.ext.code.runnable(),
    ensures
        ({
            let a = jump_in_a_run(s);
            let b = jump_by_the_table(s);
            let gas = s.gas.remaining;
            &&& gas >= MID + JUMPDEST ==> {
                &&& a.running() == b.running()
                &&& a.running() ==> a == b
                &&& !a.running() ==> ending(a) == ending(b) && ending(a) is Some
            }
            &&& gas == MID ==> {
                &&& !a.running() && !b.running()
                &&& ending(a) == Some(InstructionResult::OutOfGas)
                &&& ending(b) is Some && is_error(ending(b)->0)
                &&& is_error(ending(a)->0)
            }
            &&& gas < MID ==> a == b
        }),
{
}

/// A `JUMPI` as a run takes it, with the `JUMPDEST`.
pub open spec fn jumpi_in_a_run(s: InterpreterState) -> InterpreterState {
    match s.with_ip(s.ext.ip + 1).charged(HIGH as int) {
        Err(halted) => halted,
        Ok(t) => control::jumpi_step(t, true),
    }
}

/// A `JUMPI` as the table takes it, and the `JUMPDEST` after it if the jump is taken.
pub open spec fn jumpi_by_the_table(s: InterpreterState) -> InterpreterState {
    let landed = match s.with_ip(s.ext.ip + 1).charged(HIGH as int) {
        Err(halted) => halted,
        Ok(t) => control::jumpi_step(t, false),
    };
    if landed.running() && s.nth(1).val() != 0 {
        match landed.with_ip(landed.ext.ip + 1).charged(JUMPDEST as int) {
            Err(halted) => halted,
            Ok(t) => t,
        }
    } else {
        landed
    }
}

/// A run charges for a `JUMPI` and, if the jump is taken, for its `JUMPDEST`: it ends as the
/// two do by the table. If the run goes on, the states are the same; otherwise the frame ends
/// for the same reason and with the same gas.
pub proof fn a_taken_jumpi_pays_for_its_jumpdest(s: InterpreterState)
    requires
        s.running(),
        s.ext.action is None,
        s.stash == u64::MAX,
    ensures
        ({
            let a = jumpi_in_a_run(s);
            let b = jumpi_by_the_table(s);
            &&& a.running() == b.running()
            &&& a.running() ==> a == b
            &&& !a.running() ==> ending(a) == ending(b) && ending(a) is Some && a.gas_left()
                == b.gas_left()
        }),
{
}

/// The two bytes of immediate data as a destination.
proof fn lemma_destination(bytes: Seq<u8>)
    requires
        bytes.len() == 2,
    ensures
        0 <= be::be_val(bytes) < 0x1_0000,
        u256::word(be::be_val(bytes)).spec_usize() == Some(be::be_val(bytes) as usize),
{
    be::lemma_be_val_bounds(bytes);
    assert(pow(256, 2) == 0x1_0000) by {
        reveal_with_fuel(pow, 3);
    }
    u256::lemma_val_of_word(be::be_val(bytes));
}

/// A `PUSH2` whose gas is paid, in the state behind its opcode, and the `JUMP` behind it, one
/// after the other.
pub open spec fn push2_then_jump(t: InterpreterState) -> InterpreterState {
    let pushed = stack_instructions::push_step(t, 2);
    if pushed.running() {
        jump_in_a_run(pushed)
    } else {
        pushed
    }
}

/// A run that takes a `PUSH2` and a `JUMP` together ends as one that takes them one after the
/// other.
pub proof fn push2_and_jump_are_taken_together(t: InterpreterState)
    requires
        t.running(),
        t.stack.len() < STACK_LIMIT,
        0 <= t.ext.ip,
        t.ext.ip + 2 <= t.ext.code.bytes().len(),
    ensures
        same_but_for_dead_words(
            control::jump_imm_step(t.with_ip(t.ext.ip - 1), 2),
            push2_then_jump(t),
        ),
{
    let bytes = t.ext.ahead(0, 2);
    lemma_destination(bytes);
    assert(t.with_ip(t.ext.ip - 1).ext.ahead(1, 2) =~= bytes);
    let pushed = stack_instructions::push_step(t, 2);
    assert(stack::dropped(pushed.stack, 1) =~= t.stack);
}

/// A `PUSH2` whose gas is paid, in the state behind its opcode, and the `JUMPI` behind it, one
/// after the other.
pub open spec fn push2_then_jumpi(t: InterpreterState) -> InterpreterState {
    let pushed = stack_instructions::push_step(t, 2);
    if pushed.running() {
        match pushed.with_ip(pushed.ext.ip + 1).charged(HIGH as int) {
            Err(halted) => halted,
            Ok(u) => control::jumpi_step(u, true),
        }
    } else {
        pushed
    }
}

/// A run that takes a `PUSH2` and a `JUMPI` together ends as one that takes them one after the
/// other.
pub proof fn push2_and_jumpi_are_taken_together(t: InterpreterState)
    requires
        t.running(),
        t.stack.len() < STACK_LIMIT,
        0 <= t.ext.ip,
        t.ext.ip + 2 <= t.ext.code.bytes().len(),
    ensures
        same_but_for_dead_words(
            control::jumpi_imm_step(t.with_ip(t.ext.ip - 1), 2),
            push2_then_jumpi(t),
        ),
{
    let bytes = t.ext.ahead(0, 2);
    lemma_destination(bytes);
    assert(t.with_ip(t.ext.ip - 1).ext.ahead(1, 2) =~= bytes);
    let pushed = stack_instructions::push_step(t, 2);
    if t.stack.len() >= 1 {
        assert(stack::dropped(pushed.stack, 2) =~= stack::dropped(t.stack, 1));
    }
}

/// A `DUP2` whose gas is paid, in the state behind its opcode, and the `MSTORE` behind it, one
/// after the other.
pub open spec fn dup2_then_mstore(t: InterpreterState) -> InterpreterState {
    let doubled = stack_instructions::dup_step(t, 2);
    if doubled.running() {
        match doubled.with_ip(doubled.ext.ip + 1).charged(VERYLOW as int) {
            Err(halted) => halted,
            Ok(u) => memory::mstore_step(u),
        }
    } else {
        doubled
    }
}

/// A run that takes a `DUP2` and an `MSTORE` together ends as one that takes them one after the
/// other.
pub proof fn dup2_and_mstore_are_taken_together(t: InterpreterState)
    requires
        t.running(),
        2 <= t.stack.len() < STACK_LIMIT,
    ensures
        same_but_for_dead_words(run::dup2_mstore_step(t), dup2_then_mstore(t)),
{
    let doubled = stack_instructions::dup_step(t, 2);
    assert(stack::dropped(doubled.stack, 2) =~= stack::dropped(t.stack, 1));
}

/// The entry of each byte is the default one.
pub open spec fn default_table(t: Seq<Instruction>) -> bool {
    t.len() == 256 && forall|byte: u8| table::is_default_entry(#[trigger] t[byte as int], byte)
}

/// The step through a table from one member of a trace to the next.
pub open spec fn table_linked<H: Host>(
    t: Seq<Instruction>,
    trace: Seq<(InterpreterState, H)>,
    i: int,
) -> bool {
    let s = trace[i].0;
    s.running() && run::table_step(
        t[s.ext.code.bytes()[s.ext.ip] as int],
        s,
        &trace[i].1,
        trace[i + 1].0,
        &trace[i + 1].1,
    )
}

/// States of the interpreter and of the host, each the step through a table of the one before
/// it.
pub open spec fn is_table_run<H: Host>(
    t: Seq<Instruction>,
    trace: Seq<(InterpreterState, H)>,
) -> bool {
    &&& trace.len() > 0
    &&& forall|i: int| 0 <= i < trace.len() - 1 ==> #[trigger] table_linked(t, trace, i)
}

/// Whether steps through a table lead from one state to another.
pub open spec fn steps_to<H: Host>(
    t: Seq<Instruction>,
    s: InterpreterState,
    pre: &H,
    end: InterpreterState,
    post: &H,
) -> bool {
    exists|trace: Seq<(InterpreterState, H)>| #[trigger]
        is_table_run(t, trace) && trace[0] == (s, *pre) && trace.last() == (end, *post)
}

/// One step leads somewhere.
proof fn lemma_one_step<H: Host>(
    t: Seq<Instruction>,
    s: InterpreterState,
    pre: &H,
    end: InterpreterState,
    post: &H,
)
    requires
        s.running(),
        run::table_step(t[s.ext.code.bytes()[s.ext.ip] as int], s, pre, end, post),
    ensures
        steps_to(t, s, pre, end, post),
{
    let trace = seq![(s, *pre), (end, *post)];
    assert(is_table_run(t, trace));
}

/// Steps that follow each other lead from the first state to the last.
proof fn lemma_steps_chain<H: Host>(
    t: Seq<Instruction>,
    s: InterpreterState,
    pre: &H,
    mid: InterpreterState,
    between: &H,
    end: InterpreterState,
    post: &H,
)
    requires
        steps_to(t, s, pre, mid, between),
        steps_to(t, mid, between, end, post),
    ensures
        steps_to(t, s, pre, end, post),
{
    let a = choose|trace: Seq<(InterpreterState, H)>| #[trigger]
        is_table_run(t, trace) && trace[0] == (s, *pre) && trace.last() == (mid, *between);
    let b = choose|trace: Seq<(InterpreterState, H)>| #[trigger]
        is_table_run(t, trace) && trace[0] == (mid, *between) && trace.last() == (end, *post);
    let n = a.len() - 1;
    let c = a.subrange(0, n) + b;
    assert forall|i: int| 0 <= i < c.len() - 1 implies #[trigger] table_linked(t, c, i) by {
        if i < n {
            assert(table_linked(t, a, i));
            assert(c[i] == a[i]);
            assert(c[i + 1] == a[i + 1]);
        } else {
            assert(table_linked(t, b, i - n));
            assert(c[i] == b[i - n]);
            assert(c[i + 1] == b[i + 1 - n]);
        }
    }
    assert(is_table_run(t, c));
}

/// Whether a run takes the instruction otherwise than the table does: a jump, or a pair.
pub open spec fn taken_together(s: InterpreterState) -> bool {
    table::is_jump(s.ext.code.bytes()[s.ext.ip]) || starts_pair(s)
}

/// A jump that is taken is two steps through the table.
proof fn lemma_jump_steps<H: Host>(
    t: Seq<Instruction>,
    s: InterpreterState,
    pre: &H,
    end: InterpreterState,
    post: &H,
)
    requires
        default_table(t),
        s.running(),
        s.ext.code.runnable(),
        table::is_jump(s.ext.code.bytes()[s.ext.ip]),
        run::plain_step(s, pre, end, post),
        end.running(),
    ensures
        steps_to(t, s, pre, end, post),
{
    let code = s.ext.code;
    let op = code.bytes()[s.ext.ip];
    let entry = t[op as int];
    assert(table::is_default_entry(entry, op));
    let paid = s.with_ip(s.ext.ip + 1).with_remaining(
        (s.gas.remaining - table::spec_static_gas(op)) as u64,
    );
    let landed = if op == opcode::JUMP {
        control::jump_step(paid, false)
    } else {
        control::jumpi_step(paid, false)
    };
    assert(run::table_step(entry, s, pre, landed, pre));
    lemma_one_step(t, s, pre, landed, pre);
    if op == opcode::JUMPI && s.nth(1).val() == 0 {
        assert(landed == end);
    } else {
        assert(code.valid_jump(landed.ext.ip));
        let at = code.bytes()[landed.ext.ip];
        assert(at == opcode::JUMPDEST);
        assert(table::is_default_entry(t[at as int], at));
        reveal(table::flow_effect);
        let next = landed.with_ip(landed.ext.ip + 1).with_remaining(
            (landed.gas.remaining - 1) as u64,
        );
        assert(next == end);
        assert(run::table_step(t[at as int], landed, pre, next, pre));
        lemma_one_step(t, landed, pre, next, pre);
        lemma_steps_chain(t, s, pre, landed, pre, next, pre);
    }
}

/// A pair that a run takes together is two instructions, one after the other.
proof fn lemma_pair_steps<H: Host>(
    t: Seq<Instruction>,
    s: InterpreterState,
    pre: &H,
    end: InterpreterState,
    post: &H,
)
    requires
        default_table(t),
        s.running(),
        s.ok(),
        s.at_instruction(),
        starts_pair(s),
        run::plain_step(s, pre, end, post),
        end.running(),
    ensures
        steps_to(t, s, pre, end, post),
{
    let code = s.ext.code;
    let op = code.bytes()[s.ext.ip];
    let entry = t[op as int];
    assert(table::is_default_entry(entry, op));
    let paid = s.with_ip(s.ext.ip + 1).with_remaining((s.gas.remaining - 3) as u64);
    run::lemma_pair(s, op, opcode::immediate_len(op) as int);
    if op == opcode::PUSH2 {
        let pushed = stack_instructions::push_step(paid, 2);
        assert(run::table_step(entry, s, pre, pushed, pre));
        lemma_one_step(t, s, pre, pushed, pre);
        assert(pushed.ext.ip == s.ext.ip + 3);
        if code.bytes()[s.ext.ip + 3] == opcode::JUMPI {
            push2_and_jumpi_are_taken_together(paid);
        } else {
            push2_and_jump_are_taken_together(paid);
        }
        assert(run::plain_step(pushed, pre, end, pre));
        lemma_jump_steps(t, pushed, pre, end, pre);
        lemma_steps_chain(t, s, pre, pushed, pre, end, pre);
    } else {
        let doubled = stack_instructions::dup_step(paid, 2);
        assert(run::table_step(entry, s, pre, doubled, pre));
        lemma_one_step(t, s, pre, doubled, pre);
        dup2_and_mstore_are_taken_together(paid);
        let at = code.bytes()[doubled.ext.ip];
        assert(table::is_default_entry(t[at as int], at));
        reveal(table::flow_effect);
        assert(run::table_step(t[at as int], doubled, pre, end, pre));
        lemma_one_step(t, doubled, pre, end, pre);
        lemma_steps_chain(t, s, pre, doubled, pre, end, pre);
    }
}

/// A jump or a pair that ends the frame ends it with an error.
pub proof fn a_jump_or_pair_ends_the_frame_with_an_error<H: Host>(
    s: InterpreterState,
    pre: &H,
    end: InterpreterState,
    post: &H,
)
    requires
        s.running(),
        taken_together(s),
        run::plain_step(s, pre, end, post),
        !end.running(),
    ensures
        ending(end) is Some,
        is_error(ending(end)->0),
{
}

/// A run that goes on, or ends the frame without an error, or with the error of an instruction
/// that is neither a jump nor one of a pair, is a run of steps through the default table: from
/// the same state to the same state, with the same gas left, and the same host.
pub proof fn a_run_is_steps_through_the_table<H: Host>(
    t: Seq<Instruction>,
    trace: Seq<(InterpreterState, H)>,
)
    requires
        default_table(t),
        run::is_run(trace),
        ({
            let end = trace.last().0;
            ||| end.running()
            ||| ending(end) is None
            ||| !is_error(ending(end)->0)
            ||| trace.len() >= 2 && !taken_together(trace[trace.len() - 2].0)
        }),
    ensures
        steps_to(t, trace[0].0, &trace[0].1, trace.last().0, &trace.last().1),
    decreases trace.len(),
{
    if trace.len() == 1 {
        assert(is_table_run(t, trace));
    } else {
        let n = trace.len() - 1;
        let shorter = trace.subrange(0, n);
        assert forall|i: int| 0 <= i < shorter.len() - 1 implies #[trigger] run::linked(
            shorter,
            i,
        ) by {
            assert(run::linked(trace, i));
        }
        assert(run::linked(trace, n - 1));
        a_run_is_steps_through_the_table(t, shorter);
        let (s, pre) = trace[n - 1];
        let (end, post) = trace[n];
        let op = s.ext.code.bytes()[s.ext.ip];
        if taken_together(s) {
            if !end.running() {
                a_jump_or_pair_ends_the_frame_with_an_error(s, &pre, end, &post);
            }
            if starts_pair(s) {
                lemma_pair_steps(t, s, &pre, end, &post);
            } else {
                lemma_jump_steps(t, s, &pre, end, &post);
            }
        } else {
            assert(table::is_default_entry(t[op as int], op));
            a_run_goes_by_the_table(t[op as int], s, &pre, end, &post);
            lemma_one_step(t, s, &pre, end, &post);
        }
        lemma_steps_chain(
            t,
            trace[0].0,
            &trace[0].1,
            s,
            &pre,
            end,
            &post,
        );
    }
}

/// Whether an instruction leads to a state by the table: by itself, or, if it is a jump, with
/// the `JUMPDEST` that it lands on.
pub open spec fn step_or_landing<H: Host>(
    t: Seq<Instruction>,
    at: InterpreterState,
    pre: &H,
    e: InterpreterState,
    post: &H,
) -> bool {
    let op = at.ext.code.bytes()[at.ext.ip];
    ||| run::table_step(t[op as int], at, pre, e, post)
    ||| table::is_jump(op) && *post == *pre && exists|landed: InterpreterState|
        {
            &&& #[trigger] run::table_step(t[op as int], at, pre, landed, pre)
            &&& landed.running()
            &&& landed.ext.code.bytes()[landed.ext.ip] == opcode::JUMPDEST
            &&& run::table_step(t[opcode::JUMPDEST as int], landed, pre, e, post)
        }
}

/// A run that failed with a result at an instruction, and was left in the state `end`, failed
/// as the table does, which ends in `e`: with the same result, output and gas.
///
/// A `JUMP` that is paid for is the exception, since a run charges for it and for its landing
/// at once. With gas for both, the result is the same, and the run has spent the gas of the
/// landing, too. With gas for the `JUMP` alone, the run is out of gas, and the table ends with
/// some error.
///
/// Apart from the gas, the position and the words that are left on the stack, the states are
/// the same in any case.
pub open spec fn fails_alike(
    at: InterpreterState,
    e: InterpreterState,
    end: InterpreterState,
    result: ResultState,
) -> bool {
    let op = at.ext.code.bytes()[at.ext.ip];
    let gas = at.gas.remaining;
    &&& !e.running()
    &&& ending(e) is Some
    &&& is_error(ending(e)->0)
    &&& end == e.taken().with_stack(end.stack).with_ip(end.ext.ip).with_remaining(
        end.gas.remaining,
    )
    &&& if op == opcode::JUMP && MID <= gas < MID + JUMPDEST {
        result.result == InstructionResult::OutOfGas && end.gas.remaining == 0
    } else if op == opcode::JUMP && MID <= gas {
        ending(e) == Some(result.result) && e.gas_left() == end.gas.remaining + JUMPDEST
    } else {
        e.ext.action == Some(ActionState::Return(result)) && e.gas_left() == end.gas.remaining
    }
}

/// Whether steps through a table lead from a state to an instruction that fails there as it
/// does in a run.
pub open spec fn fails_by_the_table<H: Host>(
    t: Seq<Instruction>,
    s: InterpreterState,
    pre: &H,
    end: InterpreterState,
    post: &H,
    result: ResultState,
) -> bool {
    exists|at: InterpreterState, between: H, e: InterpreterState|
        {
            &&& #[trigger] steps_to(t, s, pre, at, &between)
            &&& at.running()
            &&& #[trigger] step_or_landing(t, at, &between, e, post)
            &&& fails_alike(at, e, end, result)
        }
}

/// Nothing is done by no step.
proof fn lemma_no_step<H: Host>(t: Seq<Instruction>, s: InterpreterState, pre: &H)
    ensures
        steps_to(t, s, pre, s, pre),
{
    assert(is_table_run(t, seq![(s, *pre)]));
}

/// A jump that ends the frame in a run fails by the table.
proof fn lemma_jump_fails<H: Host>(
    t: Seq<Instruction>,
    s: InterpreterState,
    pre: &H,
    last: InterpreterState,
    result: ResultState,
)
    requires
        default_table(t),
        s.running(),
        s.ext.action is None,
        s.stash == u64::MAX,
        s.ext.code.runnable(),
        table::is_jump(s.ext.code.bytes()[s.ext.ip]),
        run::plain_step(s, pre, last, pre),
        !last.running(),
        last.ext.action == Some(ActionState::Return(result)),
    ensures
        fails_by_the_table(t, s, pre, last.taken(), pre, result),
{
    let code = s.ext.code;
    let op = code.bytes()[s.ext.ip];
    let entry = t[op as int];
    assert(table::is_default_entry(entry, op));
    let fetched = s.with_ip(s.ext.ip + 1);
    let cost = table::spec_static_gas(op);
    lemma_no_step(t, s, pre);
    if s.gas.remaining < cost {
        let failed = fetched.out_of_gas();
        assert(step_or_landing(t, s, pre, failed, pre));
        assert(fails_alike(s, failed, last.taken(), result));
    } else {
        let paid = fetched.with_remaining((s.gas.remaining - cost) as u64);
        let landed = if op == opcode::JUMP {
            control::jump_step(paid, false)
        } else {
            control::jumpi_step(paid, false)
        };
        assert(run::table_step(entry, s, pre, landed, pre));
        if landed.running() {
            assert(code.valid_jump(landed.ext.ip));
            let at = code.bytes()[landed.ext.ip];
            assert(at == opcode::JUMPDEST);
            assert(table::is_default_entry(t[at as int], at));
            let failed = landed.with_ip(landed.ext.ip + 1).out_of_gas();
            assert(run::table_step(t[at as int], landed, pre, failed, pre));
            assert(step_or_landing(t, s, pre, failed, pre));
            assert(fails_alike(s, failed, last.taken(), result));
        } else {
            assert(step_or_landing(t, s, pre, landed, pre));
            assert(fails_alike(s, landed, last.taken(), result));
        }
    }
}

/// What fails from a state on fails from every state that leads there.
proof fn lemma_fails_later<H: Host>(
    t: Seq<Instruction>,
    s: InterpreterState,
    pre: &H,
    mid: InterpreterState,
    between: &H,
    end: InterpreterState,
    post: &H,
    result: ResultState,
)
    requires
        steps_to(t, s, pre, mid, between),
        fails_by_the_table(t, mid, between, end, post, result),
    ensures
        fails_by_the_table(t, s, pre, end, post, result),
{
    let (at, host, e) = choose|at: InterpreterState, host: H, e: InterpreterState|
        {
            &&& #[trigger] steps_to(t, mid, between, at, &host)
            &&& at.running()
            &&& #[trigger] step_or_landing(t, at, &host, e, post)
            &&& fails_alike(at, e, end, result)
        };
    lemma_steps_chain(t, s, pre, mid, between, at, &host);
}

/// The words that are left on the stack do not matter to how a run fails.
proof fn lemma_dead_words<H: Host>(
    t: Seq<Instruction>,
    s: InterpreterState,
    pre: &H,
    a: InterpreterState,
    b: InterpreterState,
    post: &H,
    result: ResultState,
)
    requires
        !a.running(),
        same_but_for_dead_words(a, b),
        fails_by_the_table(t, s, pre, b.taken(), post, result),
    ensures
        fails_by_the_table(t, s, pre, a.taken(), post, result),
{
    let (at, host, e) = choose|at: InterpreterState, host: H, e: InterpreterState|
        {
            &&& #[trigger] steps_to(t, s, pre, at, &host)
            &&& at.running()
            &&& #[trigger] step_or_landing(t, at, &host, e, post)
            &&& fails_alike(at, e, b.taken(), result)
        };
    assert(fails_alike(at, e, a.taken(), result));
}

/// A pair that ends the frame in a run fails by the table.
#[verifier::rlimit(40)]
proof fn lemma_pair_fails<H: Host>(
    t: Seq<Instruction>,
    s: InterpreterState,
    pre: &H,
    last: InterpreterState,
    result: ResultState,
)
    requires
        default_table(t),
        s.running(),
        s.ok(),
        s.at_instruction(),
        starts_pair(s),
        run::plain_step(s, pre, last, pre),
        !last.running(),
        last.ext.action == Some(ActionState::Return(result)),
    ensures
        fails_by_the_table(t, s, pre, last.taken(), pre, result),
{
    let code = s.ext.code;
    let op = code.bytes()[s.ext.ip];
    let entry = t[op as int];
    assert(table::is_default_entry(entry, op));
    let fetched = s.with_ip(s.ext.ip + 1);
    run::lemma_pair(s, op, opcode::immediate_len(op) as int);
    lemma_no_step(t, s, pre);
    if s.gas.remaining < 3 {
        let failed = fetched.out_of_gas();
        assert(step_or_landing(t, s, pre, failed, pre));
        assert(fails_alike(s, failed, last.taken(), result));
    } else if op == opcode::PUSH2 {
        let paid = fetched.with_remaining((s.gas.remaining - 3) as u64);
        let pushed = stack_instructions::push_step(paid, 2);
        assert(run::table_step(entry, s, pre, pushed, pre));
        lemma_one_step(t, s, pre, pushed, pre);
        let failed = if code.bytes()[s.ext.ip + 3] == opcode::JUMPI {
            push2_and_jumpi_are_taken_together(paid);
            push2_then_jumpi(paid)
        } else {
            push2_and_jump_are_taken_together(paid);
            push2_then_jump(paid)
        };
        assert(run::plain_step(pushed, pre, failed, pre));
        lemma_jump_fails(t, pushed, pre, failed, result);
        lemma_dead_words(t, pushed, pre, last, failed, pre, result);
        lemma_fails_later(t, s, pre, pushed, pre, last.taken(), pre, result);
    } else {
        lemma_dup2_fails(t, s, pre, last, result);
    }
}

/// A `DUP2` and an `MSTORE` that end the frame in a run fail by the table.
proof fn lemma_dup2_fails<H: Host>(
    t: Seq<Instruction>,
    s: InterpreterState,
    pre: &H,
    last: InterpreterState,
    result: ResultState,
)
    requires
        default_table(t),
        s.running(),
        s.ok(),
        s.at_instruction(),
        starts_pair(s),
        s.ext.code.bytes()[s.ext.ip] != opcode::PUSH2,
        s.gas.remaining >= 3,
        run::plain_step(s, pre, last, pre),
        !last.running(),
        last.ext.action == Some(ActionState::Return(result)),
    ensures
        fails_by_the_table(t, s, pre, last.taken(), pre, result),
{
    let code = s.ext.code;
    let op = code.bytes()[s.ext.ip];
    let entry = t[op as int];
    assert(table::is_default_entry(entry, op));
    let fetched = s.with_ip(s.ext.ip + 1);
    let paid = fetched.with_remaining((s.gas.remaining - 3) as u64);
    let doubled = stack_instructions::dup_step(paid, 2);
    assert(run::table_step(entry, s, pre, doubled, pre));
    lemma_one_step(t, s, pre, doubled, pre);
    dup2_and_mstore_are_taken_together(paid);
    let failed = dup2_then_mstore(paid);
    let at = code.bytes()[doubled.ext.ip];
    assert(table::is_default_entry(t[at as int], at));
    assert(step_or_landing(t, doubled, pre, failed, pre)) by {
        reveal(table::flow_effect);
    }
    assert(fails_alike(doubled, failed, last.taken(), result));
}

/// A frame whose run ends with an error fails at the same instruction by steps through the
/// default table: with the same result, output and gas, unless it fails at a `JUMP` that is paid
/// for. A `JUMP` with gas for itself and for its landing fails with the same result.
pub proof fn a_frame_fails_as_by_the_table<H: Host>(
    t: Seq<Instruction>,
    s: InterpreterState,
    pre: &H,
    end: InterpreterState,
    post: &H,
    action: ActionState,
)
    requires
        default_table(t),
        run::ran(s, pre, end, post, action),
        action is Return,
        is_error(action->Return_0.result),
        s.running(),
    ensures
        fails_by_the_table(t, s, pre, end, post, action->Return_0),
{
    let result = action->Return_0;
    let trace = choose|trace: Seq<(InterpreterState, H)>|
        {
            &&& #[trigger] run::is_run(trace)
            &&& trace[0] == (s, *pre)
            &&& trace.last().1 == *post
            &&& !trace.last().0.running()
            &&& trace.last().0.ext.action == Some(action)
            &&& end == trace.last().0.taken()
        };
    let n = trace.len() - 1;
    assert(run::linked(trace, n - 1));
    let (before, host) = trace[n - 1];
    let last = trace[n].0;
    let shorter = trace.subrange(0, n);
    assert forall|i: int| 0 <= i < shorter.len() - 1 implies #[trigger] run::linked(
        shorter,
        i,
    ) by {
        assert(run::linked(trace, i));
    }
    a_run_is_steps_through_the_table(t, shorter);
    if taken_together(before) {
        assert(host == *post);
        if starts_pair(before) {
            lemma_pair_fails(t, before, post, last, result);
        } else {
            lemma_jump_fails(t, before, post, last, result);
        }
        lemma_fails_later(t, s, pre, before, post, end, post, result);
    } else {
        let op = before.ext.code.bytes()[before.ext.ip];
        assert(table::is_default_entry(t[op as int], op));
        a_run_goes_by_the_table(t[op as int], before, &host, last, post);
        assert(step_or_landing(t, before, &host, last, post));
        assert(fails_alike(before, last, end, result));
    }
}

/// Whether steps through a table lead from a state to the end of a frame: the interpreter as it
/// is left for the run to be resumed, the host, and the action that ended the frame.
pub open spec fn stepped_out<H: Host>(
    t: Seq<Instruction>,
    s: InterpreterState,
    pre: &H,
    end: InterpreterState,
    post: &H,
    action: ActionState,
) -> bool {
    exists|e: InterpreterState| #[trigger]
        steps_to(t, s, pre, e, post) && !e.running() && e.ext.action == Some(action) && end
            == e.taken()
}

/// A frame whose run does not end with an error ends as it does by steps through the default
/// table: with the same action, output, gas and state, and the same host.
pub proof fn a_frame_ends_as_by_the_table<H: Host>(
    t: Seq<Instruction>,
    s: InterpreterState,
    pre: &H,
    end: InterpreterState,
    post: &H,
    action: ActionState,
)
    requires
        default_table(t),
        run::ran(s, pre, end, post, action),
        action matches ActionState::Return(result) ==> !is_error(result.result),
    ensures
        stepped_out(t, s, pre, end, post, action),
{
    let trace = choose|trace: Seq<(InterpreterState, H)>|
        {
            &&& #[trigger] run::is_run(trace)
            &&& trace[0] == (s, *pre)
            &&& trace.last().1 == *post
            &&& !trace.last().0.running()
            &&& trace.last().0.ext.action == Some(action)
            &&& end == trace.last().0.taken()
        };
    a_run_is_steps_through_the_table(t, trace);
    assert(steps_to(t, s, pre, trace.last().0, post));
}

/// Whether a question is about the frame's own account, where it concerns storage, a log or a
/// destruction.
pub open spec fn of_the_frame(call: HostCall, target: Address) -> bool {
    match call {
        HostCall::SLoadSkipCold(address, _, _) => address == target,
        HostCall::SLoad(address, _) => address == target,
        HostCall::SStoreSkipCold(address, _, _, _) => address == target,
        HostCall::SStore(address, _, _) => address == target,
        HostCall::TLoad(address, _) => address == target,
        HostCall::TStore(address, _, _) => address == target,
        HostCall::Log(log) => log.address == target,
        HostCall::SelfDestruct(address, _) => address == target,
        _ => true,
    }
}

/// Whether a host can go from `pre` to `post` by one answer to a question of a frame.
pub open spec fn asked<H: Host>(target: Address, pre: &H, post: &H) -> bool {
    exists|call: HostCall, reply: HostReply| #[trigger]
        H::replies(pre, call, reply, post) && of_the_frame(call, target)
}

/// The question of an effect is the frame's.
spec fn asks_rightly(effect: Effect, target: Address) -> bool {
    effect matches Effect::Asks(HostStep::Ask(call, _), _) ==> of_the_frame(call, target)
}

proof fn lemma_flow_asks(op: u8, s: InterpreterState, env: EnvState)
    ensures
        asks_rightly(table::flow_effect(op, s, env), s.input.target),
        asks_rightly(table::ending_effect(op, s, env), s.input.target),
{
    reveal(table::flow_effect);
    reveal(table::ending_effect);
}

proof fn lemma_environment_asks(op: u8, s: InterpreterState, env: EnvState)
    ensures
        asks_rightly(table::environment_effect(op, s, env), s.input.target),
        asks_rightly(table::block_effect(op, s, env), s.input.target),
{
    reveal(table::environment_effect);
    reveal(table::block_effect);
    reveal(host_instructions::extcode_ask);
}

proof fn lemma_other_asks(op: u8, s: InterpreterState, env: EnvState)
    ensures
        asks_rightly(table::arithmetic_effect(op, s, env), s.input.target),
        asks_rightly(table::bitwise_effect(op, s, env), s.input.target),
        asks_rightly(table::log_effect(op, s), s.input.target),
{
    reveal(table::arithmetic_effect);
    reveal(table::bitwise_effect);
    reveal(table::log_effect);
}

/// A step asks the host at most one question. A question about storage, a log or a destruction
/// is about the frame's own account: no other account's storage is written.
pub proof fn a_step_asks_about_its_own_account<H: Host>(
    s: InterpreterState,
    pre: &H,
    end: InterpreterState,
    post: &H,
)
    requires
        run::plain_step(s, pre, end, post),
    ensures
        *post == *pre || asked(s.input.target, pre, post),
{
    let op = s.ext.code.bytes()[s.ext.ip];
    let t = s.with_ip(s.ext.ip + 1).with_remaining(
        (s.gas.remaining - run::spec_fused_gas(op)) as u64,
    );
    lemma_flow_asks(op, t, pre.env());
    lemma_environment_asks(op, t, pre.env());
    lemma_other_asks(op, t, pre.env());
    let effect = table::effect_of(op, true, t, pre.env());
    assert(asks_rightly(effect, s.input.target));
}

/// A word that was pushed is popped, and the stack is as before.
pub proof fn a_pushed_word_is_popped(words: Seq<U256>, value: U256)
    ensures
        stack::nth(words.push(value), 0) == value,
        stack::dropped(words.push(value), 1) == words,
{
    assert(stack::dropped(words.push(value), 1) =~= words);
}

/// Two words that change places twice are where they were.
pub proof fn an_exchange_undoes_itself(words: Seq<U256>, a: int, b: int)
    requires
        0 <= a < words.len(),
        0 <= b < words.len(),
    ensures
        stack::exchanged(stack::exchanged(words, a, b), a, b) == words,
{
    assert(stack::exchanged(stack::exchanged(words, a, b), a, b) =~= words);
}

/// Bytes that were written are read back, and the rest of the memory is as before.
pub proof fn written_memory_is_read_back(m: MemoryState, offset: int, data: Seq<u8>)
    requires
        m.wf(),
        m.active(),
        0 <= offset,
        offset + data.len() <= m.size(),
    ensures
        m.written(offset, data).size() == m.size(),
        m.written(offset, data).local().subrange(offset, offset + data.len()) == data,
        forall|i: int|
            0 <= i < m.size() && !(offset <= i < offset + data.len())
                ==> #[trigger] m.written(offset, data).local()[i] == m.local()[i],
{
    let w = m.written(offset, data);
    assert(w.local().subrange(offset, offset + data.len()) =~= data);
}

/// What a context does to its memory leaves the memories of the contexts below it alone.
pub proof fn a_child_leaves_the_parent_alone(m: MemoryState, offset: int, data: Seq<u8>, size: int)
    requires
        m.wf(),
        m.active(),
        0 <= offset,
        offset + data.len() <= m.size(),
        0 <= size,
    ensures
        m.written(offset, data).buffer->0.subrange(0, m.checkpoint as int)
            == m.buffer->0.subrange(0, m.checkpoint as int),
        m.with_size(size).buffer->0.subrange(0, m.checkpoint as int) == m.buffer->0.subrange(
            0,
            m.checkpoint as int,
        ),
        m.written(offset, data).checkpoint == m.checkpoint,
        m.with_size(size).checkpoint == m.checkpoint,
{
    assert(m.written(offset, data).buffer->0.subrange(0, m.checkpoint as int)
        =~= m.buffer->0.subrange(0, m.checkpoint as int));
    assert(m.with_size(size).buffer->0.subrange(0, m.checkpoint as int) =~= m.buffer->0.subrange(
        0,
        m.checkpoint as int,
    ));
}

/// Something that a context does to its memory.
pub enum MemoryWork {
    /// The memory is brought to a size.
    Resize(nat),
    /// Bytes are written, from an offset on.
    Write(nat, Seq<u8>),
}

/// A context's memory after some work on it; a write past its end does not take place.
pub open spec fn worked(m: MemoryState, work: Seq<MemoryWork>) -> MemoryState
    decreases work.len(),
{
    if work.len() == 0 {
        m
    } else {
        let before = worked(m, work.drop_last());
        match work.last() {
            MemoryWork::Resize(size) => before.with_size(size as int),
            MemoryWork::Write(offset, data) => if offset + data.len() <= before.size() {
                before.written(offset as int, data)
            } else {
                before
            },
        }
    }
}

/// Work on a context's memory leaves what is below it alone.
proof fn lemma_worked(m: MemoryState, work: Seq<MemoryWork>)
    requires
        m.active(),
        m.checkpoint <= m.buffer->0.len(),
    ensures
        worked(m, work).active(),
        worked(m, work).checkpoint == m.checkpoint,
        m.checkpoint <= worked(m, work).buffer->0.len(),
        worked(m, work).buffer->0.subrange(0, m.checkpoint as int) == m.buffer->0.subrange(
            0,
            m.checkpoint as int,
        ),
    decreases work.len(),
{
    if work.len() > 0 {
        lemma_worked(m, work.drop_last());
        let before = worked(m, work.drop_last());
        let after = worked(m, work);
        assert(after.buffer->0.subrange(0, m.checkpoint as int) =~= before.buffer->0.subrange(
            0,
            m.checkpoint as int,
        ));
    }
}

/// Whatever a child context does to its memory, the parent has its memory back, byte for byte,
/// when the child has ended, and freeing the child once more does nothing.
pub proof fn a_freed_child_gives_the_memory_back(parent: MemoryState, work: Seq<MemoryWork>)
    requires
        parent.wf(),
        parent.active(),
        parent.child is None,
    ensures
        ({
            let child = worked(parent.child_context(), work);
            let end = parent.lent().restored(child).freed();
            end == parent && end.freed() == end
        }),
{
    lemma_worked(parent.child_context(), work);
    let child = worked(parent.child_context(), work);
    let end = parent.lent().restored(child).freed();
    assert(end.buffer->0 =~= parent.buffer->0);
}

/// Freeing a child where there is none does nothing, so that freeing twice is freeing once.
pub proof fn freeing_twice_is_freeing_once(m: MemoryState)
    ensures
        m.child is None ==> m.freed() == m,
        m.freed().freed() == m.freed(),
{
}

/// Growing for a write leaves the same memory as growing alone, once the bytes are written:
/// whatever the bytes that are overwritten held, they are gone, and the others are the same.
pub proof fn resize_written_leaves_the_same_bytes_as_resize(
    m: MemoryState,
    grown: MemoryState,
    size: int,
    offset: int,
    data: Seq<u8>,
)
    requires
        m.wf(),
        m.active(),
        m.size() <= size,
        0 <= offset,
        offset + data.len() <= size,
        ({
            let zeroed = m.with_size(size);
            &&& grown == zeroed.with_buffer(grown.buffer->0)
            &&& grown.buffer->0.len() == zeroed.buffer->0.len()
            &&& forall|i: int|
                0 <= i < zeroed.buffer->0.len() && !(m.checkpoint + offset <= i < m.checkpoint
                    + offset + data.len()) ==> #[trigger] grown.buffer->0[i]
                    == zeroed.buffer->0[i]
        }),
    ensures
        grown.written(offset, data) == m.with_size(size).written(offset, data),
        grown.written(offset, data).size() == size,
{
    assert(grown.written(offset, data).buffer->0 =~= m.with_size(size).written(
        offset,
        data,
    ).buffer->0);
}

} // verus!
