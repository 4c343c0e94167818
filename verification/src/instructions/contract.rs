//! Instructions that ask for a new frame.

use crate::instructions::context::InstructionContext;
use crate::interpreter::action::{
    ActionState, CallOperands, CreateOperands, FrameRequest, InterpreterAction,
};
use crate::interpreter::instruction_result::InstructionResult;
use crate::interpreter::machine::Interpreter;
use crate::interpreter::stack;
use crate::interpreter::state::InterpreterState;
use crate::primitives::address;
use crate::primitives::{Address, U256};
use vstd::prelude::*;

verus! {

/// The state in which a new frame is asked for with the topmost `n` words as operands.
pub open spec fn asking(s: InterpreterState, n: int, request: FrameRequest) -> InterpreterState {
    if s.stack.len() < n {
        s.halted(InstructionResult::StackUnderflow)
    } else {
        s.popped(n).acting(ActionState::NewFrame(request))
    }
}

/// What `CREATE` and `CREATE2` take from the stack.
pub open spec fn create_operands(s: InterpreterState) -> CreateOperands {
    CreateOperands { value: s.nth(0), offset: s.nth(1), len: s.nth(2) }
}

/// The state after `CREATE`, or after `CREATE2`.
pub open spec fn create_step(s: InterpreterState, salted: bool) -> InterpreterState {
    if salted {
        asking(s, 4, FrameRequest::Create2(create_operands(s), s.nth(3)))
    } else {
        asking(s, 3, FrameRequest::Create(create_operands(s)))
    }
}

/// What a call takes from the stack, with a value or without one.
pub open spec fn call_operands(s: InterpreterState, valued: bool) -> CallOperands {
    let below: int = if valued {
        3
    } else {
        2
    };
    CallOperands {
        gas_limit: s.nth(0),
        to: address::address_of(s.nth(1)),
        value: if valued {
            Some(s.nth(2))
        } else {
            None
        },
        input_offset: s.nth(below),
        input_len: s.nth(below + 1),
        return_offset: s.nth(below + 2),
        return_len: s.nth(below + 3),
    }
}

/// The state after `CALL`.
pub open spec fn call_step(s: InterpreterState) -> InterpreterState {
    asking(s, 7, FrameRequest::Call(call_operands(s, true)))
}

/// The state after `CALLCODE`.
pub open spec fn call_code_step(s: InterpreterState) -> InterpreterState {
    asking(s, 7, FrameRequest::CallCode(call_operands(s, true)))
}

/// The state after `DELEGATECALL`.
pub open spec fn delegate_call_step(s: InterpreterState) -> InterpreterState {
    asking(s, 6, FrameRequest::DelegateCall(call_operands(s, false)))
}

/// The state after `STATICCALL`.
pub open spec fn static_call_step(s: InterpreterState) -> InterpreterState {
    asking(s, 6, FrameRequest::StaticCall(call_operands(s, false)))
}

/// Pops `n` words, the topmost one first, or ends the frame.
fn pop_operands(interpreter: &mut Interpreter, n: usize) -> (r: Option<Vec<U256>>)
    requires
        old(interpreter).stack.wf(),
    ensures
        final(interpreter).stack.wf(),
        match r {
            Some(words) => {
                &&& old(interpreter)@.stack.len() >= n
                &&& words@ == Seq::new(n as nat, |i: int| stack::nth(old(interpreter)@.stack, i))
                &&& final(interpreter)@ == old(interpreter)@.popped(n as int)
            },
            None => {
                &&& old(interpreter)@.stack.len() < n
                &&& final(interpreter)@ == old(interpreter)@.halted(
                    InstructionResult::StackUnderflow,
                )
            },
        },
{
    match interpreter.stack.popn(n) {
        Some(words) => Some(words),
        None => {
            interpreter.halt_underflow();
            None
        },
    }
}

/// Pops what a call takes from the stack, with a value or without one, or ends the frame.
fn pop_call(interpreter: &mut Interpreter, valued: bool) -> (r: Option<CallOperands>)
    requires
        old(interpreter).stack.wf(),
    ensures
        final(interpreter).stack.wf(),
        ({
            let n: int = if valued {
                7
            } else {
                6
            };
            match r {
                Some(operands) => {
                    &&& old(interpreter)@.stack.len() >= n
                    &&& operands == call_operands(old(interpreter)@, valued)
                    &&& final(interpreter)@ == old(interpreter)@.popped(n)
                },
                None => {
                    &&& old(interpreter)@.stack.len() < n
                    &&& final(interpreter)@ == old(interpreter)@.halted(
                        InstructionResult::StackUnderflow,
                    )
                },
            }
        }),
{
    let below: usize = if valued {
        3
    } else {
        2
    };
    match pop_operands(interpreter, below + 4) {
        Some(words) => Some(
            CallOperands {
                gas_limit: words[0],
                to: Address::from_word(words[1]),
                value: if valued {
                    Some(words[2])
                } else {
                    None
                },
                input_offset: words[below],
                input_len: words[below + 1],
                return_offset: words[below + 2],
                return_len: words[below + 3],
            },
        ),
        None => None,
    }
}

/// `CREATE` and `CREATE2`: ask for a frame that creates an account.
pub fn create<const SALTED: bool, H>(context: InstructionContext<'_, H>)
    requires
        old(context.interpreter).ready(),
    ensures
        final(context.interpreter).settled(),
        final(context.interpreter)@ == create_step(old(context.interpreter)@, SALTED),
        *final(context.host) == *old(context.host),
{
    let interpreter = context.interpreter;
    let n: usize = if SALTED {
        4
    } else {
        3
    };
    if let Some(words) = pop_operands(interpreter, n) {
        let operands = CreateOperands { value: words[0], offset: words[1], len: words[2] };
        let request = if SALTED {
            FrameRequest::Create2(operands, words[3])
        } else {
            FrameRequest::Create(operands)
        };
        interpreter.set_action(InterpreterAction::NewFrame(request));
    }
}

/// `CALL`: asks for a frame that runs another account's code.
pub fn call<H>(context: InstructionContext<'_, H>)
    requires
        old(context.interpreter).ready(),
    ensures
        final(context.interpreter).settled(),
        final(context.interpreter)@ == call_step(old(context.interpreter)@),
        *final(context.host) == *old(context.host),
{
    let interpreter = context.interpreter;
    if let Some(operands) = pop_call(interpreter, true) {
        interpreter.set_action(InterpreterAction::NewFrame(FrameRequest::Call(operands)));
    }
}

/// `CALLCODE`: asks for a frame that runs another account's code on this account.
pub fn call_code<H>(context: InstructionContext<'_, H>)
    requires
        old(context.interpreter).ready(),
    ensures
        final(context.interpreter).settled(),
        final(context.interpreter)@ == call_code_step(old(context.interpreter)@),
        *final(context.host) == *old(context.host),
{
    let interpreter = context.interpreter;
    if let Some(operands) = pop_call(interpreter, true) {
        interpreter.set_action(InterpreterAction::NewFrame(FrameRequest::CallCode(operands)));
    }
}

/// `DELEGATECALL`: asks for a frame that runs another account's code in the place of this one.
pub fn delegate_call<H>(context: InstructionContext<'_, H>)
    requires
        old(context.interpreter).ready(),
    ensures
        final(context.interpreter).settled(),
        final(context.interpreter)@ == delegate_call_step(old(context.interpreter)@),
        *final(context.host) == *old(context.host),
{
    let interpreter = context.interpreter;
    if let Some(operands) = pop_call(interpreter, false) {
        interpreter.set_action(InterpreterAction::NewFrame(FrameRequest::DelegateCall(operands)));
    }
}

/// `STATICCALL`: asks for a frame that runs another account's code and may not change the
/// state.
pub fn static_call<H>(context: InstructionContext<'_, H>)
    requires
        old(context.interpreter).ready(),
    ensures
        final(context.interpreter).settled(),
        final(context.interpreter)@ == static_call_step(old(context.interpreter)@),
        *final(context.host) == *old(context.host),
{
    let interpreter = context.interpreter;
    if let Some(operands) = pop_call(interpreter, false) {
        interpreter.set_action(InterpreterAction::NewFrame(FrameRequest::StaticCall(operands)));
    }
}

} // verus!
