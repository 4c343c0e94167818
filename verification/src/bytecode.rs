//! Bytecode: its forms, the analysis of legacy code, and opcodes.

pub mod analysis;
pub mod analyzed;
pub mod code;
pub mod jump_table;
pub mod laws;
pub mod opcode;

pub use analysis::{analyze_legacy, GUARD_BYTES};
pub use analyzed::{LegacyAnalyzedBytecode, LegacyRawBytecode};
pub use code::{Bytecode, Eip7702Bytecode, Eip7702DecodeError};
pub use jump_table::JumpTable;
