//! The interpreter.

pub mod action;
pub mod be_word;
pub mod machine;
pub mod ext_bytecode;
pub mod input;
pub mod instruction_result;
pub mod interpreter_types;
pub mod laws;
pub mod parts;
pub mod run;
pub mod shared_memory;
pub mod stack;
pub mod state;

pub use action::{CallOperands, CreateOperands, FrameRequest, InterpreterAction, InterpreterResult};
pub use machine::{EthInterpreter, Interpreter};
pub use ext_bytecode::ExtBytecode;
pub use input::{CallInput, InputsImpl, ReturnDataImpl, RuntimeFlags};
pub use instruction_result::InstructionResult;
pub use shared_memory::{num_words, SharedMemory};
pub use stack::{no_room_to_push, too_shallow_for, Stack, BYTE_LIMIT, STACK_LIMIT, WORD};
