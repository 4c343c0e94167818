//! Gas prices.

use vstd::prelude::*;

verus! {

/// Gas of an opcode that costs nothing.
pub const ZERO: u64 = 0;

/// Gas of the cheapest opcodes.
pub const BASE: u64 = 2;

/// Gas of very cheap opcodes.
pub const VERYLOW: u64 = 3;

/// Gas of cheap opcodes.
pub const LOW: u64 = 5;

/// Gas of opcodes of middle cost.
pub const MID: u64 = 8;

/// Gas of dear opcodes.
pub const HIGH: u64 = 10;

/// Gas of `JUMPDEST`.
pub const JUMPDEST: u64 = 1;

/// Refund of a `SELFDESTRUCT`, before London.
pub const SELFDESTRUCT_REFUND: i64 = 24000;

/// Base gas of `EXP`.
pub const EXP: u64 = 10;

/// Gas of a word of memory, in the linear part of the price.
pub const MEMORY: u64 = 3;

/// Base gas of `LOG`.
pub const LOG: u64 = 375;

/// Gas of a byte of log data.
pub const LOGDATA: u64 = 8;

/// Gas of a log topic.
pub const LOGTOPIC: u64 = 375;

/// Base gas of `KECCAK256`.
pub const KECCAK256: u64 = 30;

/// Gas of a word hashed by `KECCAK256`.
pub const KECCAK256WORD: u64 = 6;

/// Gas of a word copied.
pub const COPY: u64 = 3;

/// Gas of `BLOCKHASH`.
pub const BLOCKHASH: u64 = 20;

/// Gas of `SLOAD`, from Istanbul to Berlin.
pub const ISTANBUL_SLOAD_GAS: u64 = 800;

/// Gas of an `SSTORE` that sets a zero slot.
pub const SSTORE_SET: u64 = 20000;

/// Gas of an `SSTORE` that changes a slot which is not zero, before Berlin.
pub const SSTORE_RESET: u64 = 5000;

/// Refund of an `SSTORE` that clears a slot, before London.
pub const REFUND_SSTORE_CLEARS: i64 = 15000;

/// Gas of the first access to a storage slot.
pub const COLD_SLOAD_COST: u64 = 2100;

/// What the first access to a storage slot costs on top of a warm one.
pub const COLD_SLOAD_COST_ADDITIONAL: u64 = 2000;

/// Gas of the first access to an account.
pub const COLD_ACCOUNT_ACCESS_COST: u64 = 2600;

/// What the first access to an account costs on top of a warm one.
pub const COLD_ACCOUNT_ACCESS_COST_ADDITIONAL: u64 = 2500;

/// Gas of a warm access to a slot or an account.
pub const WARM_STORAGE_READ_COST: u64 = 100;

/// Gas of an `SSTORE` that changes a slot which is not zero, from Berlin on.
pub const WARM_SSTORE_RESET: u64 = 2900;

/// Gas that a call with value hands to the callee.
pub const CALL_STIPEND: u64 = 2300;

} // verus!
