//! How the execution of a frame can end.

use vstd::prelude::*;

verus! {

/// How the execution of a frame ended.
#[derive(Clone, Copy, Debug, PartialEq, Eq, Structural, Hash)]
pub enum InstructionResult {
    /// A `STOP`.
    Stop,
    /// A `RETURN`.
    Return,
    /// A `SELFDESTRUCT`.
    SelfDestruct,
    /// A `REVERT`.
    Revert,
    /// The call depth is over its limit.
    CallTooDeep,
    /// The caller's balance does not cover the value.
    OutOfFunds,
    /// The gas ran out.
    OutOfGas,
    /// The gas ran out in a memory expansion.
    MemoryOOG,
    /// The memory limit was reached.
    MemoryLimitOOG,
    /// The gas ran out in a precompile.
    PrecompileOOG,
    /// An operand is so large that no gas can pay for it.
    InvalidOperandOOG,
    /// The gas left is at or below the reentrancy stipend.
    ReentrancySentryOOG,
    /// There is no such opcode.
    OpcodeNotFound,
    /// A call with value in a static context.
    CallNotAllowedInsideStatic,
    /// A change of state in a static context.
    StateChangeDuringStaticCall,
    /// The `INVALID` opcode.
    InvalidFEOpcode,
    /// A jump to no valid destination.
    InvalidJump,
    /// The feature is not active.
    NotActivated,
    /// The stack has too few words.
    StackUnderflow,
    /// The stack has no room.
    StackOverflow,
    /// A read past the end of the return data.
    OutOfOffset,
    /// An account exists at the address of a new contract.
    CreateCollision,
    /// A payment overflows a balance.
    OverflowPayment,
    /// A precompile failed.
    PrecompileError,
    /// The nonce overflows.
    NonceOverflow,
    /// The new contract is over the size limit.
    CreateContractSizeLimit,
    /// The new contract starts with `0xEF`.
    CreateContractStartingWithEF,
    /// The initcode is over the size limit.
    CreateInitCodeSizeLimit,
    /// An error outside the machine.
    FatalExternalError,
}

impl InstructionResult {
    /// Whether the frame succeeded.
    pub open spec fn spec_ok(self) -> bool {
        self is Stop || self is Return || self is SelfDestruct
    }

    /// Whether the frame reverted and keeps its gas.
    pub open spec fn spec_revert(self) -> bool {
        self is Revert || self is CallTooDeep || self is OutOfFunds
    }

    /// Whether the frame succeeded.
    pub fn is_ok(self) -> (r: bool)
        ensures
            r == self.spec_ok(),
    {
        match self {
            InstructionResult::Stop | InstructionResult::Return | InstructionResult::SelfDestruct =>
                true,
            _ => false,
        }
    }

    /// Whether the frame reverted.
    pub fn is_revert(self) -> (r: bool)
        ensures
            r == self.spec_revert(),
    {
        match self {
            InstructionResult::Revert | InstructionResult::CallTooDeep
            | InstructionResult::OutOfFunds => true,
            _ => false,
        }
    }

    /// Whether the frame succeeded or reverted.
    pub fn is_ok_or_revert(self) -> (r: bool)
        ensures
            r == (self.spec_ok() || self.spec_revert()),
    {
        self.is_ok() || self.is_revert()
    }

    /// Whether the frame failed.
    pub fn is_error(self) -> (r: bool)
        ensures
            r == !(self.spec_ok() || self.spec_revert()),
    {
        !self.is_ok_or_revert()
    }
}

} // verus!
