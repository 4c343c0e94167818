//! The instructions of the machine.

pub mod arithmetic;
pub mod bitwise;
pub mod block_info;
pub mod context;
pub mod contract;
pub mod control;
pub mod host;
pub mod laws;
pub mod memory;
pub mod stack;
pub mod system;
pub mod table;
pub mod tx_info;

pub use context::InstructionContext;
pub use table::{instruction_table, Instruction};
