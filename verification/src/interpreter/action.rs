//! What the interpreter hands back when a run ends.

use crate::gas::{Gas, GasState};
use crate::interpreter::instruction_result::InstructionResult;
use crate::primitives::{Address, U256};
use vstd::prelude::*;
use vstd::slice::slice_to_vec;

verus! {

/// What `CREATE` and `CREATE2` take from the stack.
#[derive(Clone, Copy, Debug, PartialEq, Eq, Structural)]
pub struct CreateOperands {
    /// The balance that the account gets.
    pub value: U256,
    /// Where the initcode starts in memory.
    pub offset: U256,
    /// The length of the initcode.
    pub len: U256,
}

/// What a call takes from the stack.
#[derive(Clone, Copy, Debug, PartialEq, Eq, Structural)]
pub struct CallOperands {
    /// The gas that the callee may use.
    pub gas_limit: U256,
    /// The account whose code runs.
    pub to: Address,
    /// The value of the call, where it has one.
    pub value: Option<U256>,
    /// Where the input starts in memory.
    pub input_offset: U256,
    /// The length of the input.
    pub input_len: U256,
    /// Where the output goes in memory.
    pub return_offset: U256,
    /// The length of the output.
    pub return_len: U256,
}

/// The instruction that asks for a new frame, with its operands.
#[derive(Clone, Copy, Debug, PartialEq, Eq, Structural)]
pub enum FrameRequest {
    /// `CREATE`.
    Create(CreateOperands),
    /// `CREATE2`, with its salt.
    Create2(CreateOperands, U256),
    /// `CALL`.
    Call(CallOperands),
    /// `CALLCODE`.
    CallCode(CallOperands),
    /// `DELEGATECALL`.
    DelegateCall(CallOperands),
    /// `STATICCALL`.
    StaticCall(CallOperands),
}

/// The result of a frame.
#[derive(Debug)]
pub struct InterpreterResult {
    /// How the frame ended.
    pub result: InstructionResult,
    /// Its output.
    pub output: Vec<u8>,
    /// Its gas.
    pub gas: Gas,
}

/// What an [`InterpreterResult`] says.
#[verifier::ext_equal]
pub struct ResultState {
    /// How the frame ended.
    pub result: InstructionResult,
    /// Its output.
    pub output: Seq<u8>,
    /// Its gas.
    pub gas: GasState,
}

impl View for InterpreterResult {
    type V = ResultState;

    open spec fn view(&self) -> ResultState {
        ResultState { result: self.result, output: self.output@, gas: self.gas@ }
    }
}

impl Clone for InterpreterResult {
    fn clone(&self) -> (r: InterpreterResult)
        ensures
            r@ == self@,
    {
        InterpreterResult {
            result: self.result,
            output: slice_to_vec(self.output.as_slice()),
            gas: self.gas,
        }
    }
}

impl InterpreterResult {
    /// A result of the given parts.
    pub fn new(result: InstructionResult, output: Vec<u8>, gas: Gas) -> (r: InterpreterResult)
        ensures
            r@ == (ResultState { result, output: output@, gas: gas@ }),
    {
        InterpreterResult { result, output, gas }
    }

    /// Whether the frame succeeded.
    pub fn is_ok(&self) -> (r: bool)
        ensures
            r == self.result.spec_ok(),
    {
        self.result.is_ok()
    }

    /// Whether the frame reverted.
    pub fn is_revert(&self) -> (r: bool)
        ensures
            r == self.result.spec_revert(),
    {
        self.result.is_revert()
    }

    /// Whether the frame failed.
    pub fn is_error(&self) -> (r: bool)
        ensures
            r == !(self.result.spec_ok() || self.result.spec_revert()),
    {
        self.result.is_error()
    }
}

/// What is to be done next.
#[derive(Debug)]
pub enum InterpreterAction {
    /// Run a new frame for the instruction that was just fetched.
    NewFrame(FrameRequest),
    /// End the frame.
    Return(InterpreterResult),
}

/// What an [`InterpreterAction`] says.
#[verifier::ext_equal]
pub enum ActionState {
    /// Run a new frame.
    NewFrame(FrameRequest),
    /// End the frame.
    Return(ResultState),
}

impl View for InterpreterAction {
    type V = ActionState;

    open spec fn view(&self) -> ActionState {
        match self {
            InterpreterAction::NewFrame(request) => ActionState::NewFrame(*request),
            InterpreterAction::Return(result) => ActionState::Return(result@),
        }
    }
}

impl Clone for InterpreterAction {
    fn clone(&self) -> (r: InterpreterAction)
        ensures
            r@ == self@,
    {
        match self {
            InterpreterAction::NewFrame(request) => InterpreterAction::NewFrame(*request),
            InterpreterAction::Return(result) => InterpreterAction::Return(result.clone()),
        }
    }
}

/// A frame that ends without output.
pub open spec fn halt_action(result: InstructionResult, gas: GasState) -> ActionState {
    ActionState::Return(ResultState { result, output: Seq::empty(), gas })
}

impl InterpreterAction {
    /// Ends the frame without output.
    pub fn new_halt(result: InstructionResult, gas: Gas) -> (r: InterpreterAction)
        ensures
            r@ == halt_action(result, gas@),
    {
        InterpreterAction::Return(InterpreterResult::new(result, Vec::new(), gas))
    }

    /// Ends the frame with an output.
    pub fn new_return(result: InstructionResult, output: Vec<u8>, gas: Gas) -> (r:
        InterpreterAction)
        ensures
            r@ == ActionState::Return(ResultState { result, output: output@, gas: gas@ }),
    {
        InterpreterAction::Return(InterpreterResult::new(result, output, gas))
    }

    /// Whether the frame ends.
    pub fn is_return(&self) -> (r: bool)
        ensures
            r == (self@ is Return),
    {
        match self {
            InterpreterAction::NewFrame(_) => false,
            InterpreterAction::Return(_) => true,
        }
    }

    /// How the frame ended, if it did.
    pub fn instruction_result(&self) -> (r: Option<InstructionResult>)
        ensures
            r == (match self@ {
                ActionState::NewFrame(_) => None,
                ActionState::Return(result) => Some(result.result),
            }),
    {
        match self {
            InterpreterAction::NewFrame(_) => None,
            InterpreterAction::Return(result) => Some(result.result),
        }
    }

    /// The result of the frame, if it ended.
    pub fn into_result_return(self) -> (r: Option<InterpreterResult>)
        ensures
            match self@ {
                ActionState::NewFrame(_) => r is None,
                ActionState::Return(result) => r matches Some(x) && x@ == result,
            },
    {
        match self {
            InterpreterAction::NewFrame(_) => None,
            InterpreterAction::Return(result) => Some(result),
        }
    }
}

} // verus!
