//! The opcodes of the machine.

use vstd::prelude::*;

verus! {

/// `STOP`.
pub const STOP: u8 = 0x00;

/// `ADD`.
pub const ADD: u8 = 0x01;

/// `MUL`.
pub const MUL: u8 = 0x02;

/// `SUB`.
pub const SUB: u8 = 0x03;

/// `DIV`.
pub const DIV: u8 = 0x04;

/// `SDIV`.
pub const SDIV: u8 = 0x05;

/// `MOD`.
pub const MOD: u8 = 0x06;

/// `SMOD`.
pub const SMOD: u8 = 0x07;

/// `ADDMOD`.
pub const ADDMOD: u8 = 0x08;

/// `MULMOD`.
pub const MULMOD: u8 = 0x09;

/// `EXP`.
pub const EXP: u8 = 0x0a;

/// `SIGNEXTEND`.
pub const SIGNEXTEND: u8 = 0x0b;

/// `LT`.
pub const LT: u8 = 0x10;

/// `GT`.
pub const GT: u8 = 0x11;

/// `SLT`.
pub const SLT: u8 = 0x12;

/// `SGT`.
pub const SGT: u8 = 0x13;

/// `EQ`.
pub const EQ: u8 = 0x14;

/// `ISZERO`.
pub const ISZERO: u8 = 0x15;

/// `AND`.
pub const AND: u8 = 0x16;

/// `OR`.
pub const OR: u8 = 0x17;

/// `XOR`.
pub const XOR: u8 = 0x18;

/// `NOT`.
pub const NOT: u8 = 0x19;

/// `BYTE`.
pub const BYTE: u8 = 0x1a;

/// `SHL`.
pub const SHL: u8 = 0x1b;

/// `SHR`.
pub const SHR: u8 = 0x1c;

/// `SAR`.
pub const SAR: u8 = 0x1d;

/// `CLZ`.
pub const CLZ: u8 = 0x1e;

/// `KECCAK256`.
pub const KECCAK256: u8 = 0x20;

/// `ADDRESS`.
pub const ADDRESS: u8 = 0x30;

/// `BALANCE`.
pub const BALANCE: u8 = 0x31;

/// `ORIGIN`.
pub const ORIGIN: u8 = 0x32;

/// `CALLER`.
pub const CALLER: u8 = 0x33;

/// `CALLVALUE`.
pub const CALLVALUE: u8 = 0x34;

/// `CALLDATALOAD`.
pub const CALLDATALOAD: u8 = 0x35;

/// `CALLDATASIZE`.
pub const CALLDATASIZE: u8 = 0x36;

/// `CALLDATACOPY`.
pub const CALLDATACOPY: u8 = 0x37;

/// `CODESIZE`.
pub const CODESIZE: u8 = 0x38;

/// `CODECOPY`.
pub const CODECOPY: u8 = 0x39;

/// `GASPRICE`.
pub const GASPRICE: u8 = 0x3a;

/// `EXTCODESIZE`.
pub const EXTCODESIZE: u8 = 0x3b;

/// `EXTCODECOPY`.
pub const EXTCODECOPY: u8 = 0x3c;

/// `RETURNDATASIZE`.
pub const RETURNDATASIZE: u8 = 0x3d;

/// `RETURNDATACOPY`.
pub const RETURNDATACOPY: u8 = 0x3e;

/// `EXTCODEHASH`.
pub const EXTCODEHASH: u8 = 0x3f;

/// `BLOCKHASH`.
pub const BLOCKHASH: u8 = 0x40;

/// `COINBASE`.
pub const COINBASE: u8 = 0x41;

/// `TIMESTAMP`.
pub const TIMESTAMP: u8 = 0x42;

/// `NUMBER`.
pub const NUMBER: u8 = 0x43;

/// `DIFFICULTY`.
pub const DIFFICULTY: u8 = 0x44;

/// `GASLIMIT`.
pub const GASLIMIT: u8 = 0x45;

/// `CHAINID`.
pub const CHAINID: u8 = 0x46;

/// `SELFBALANCE`.
pub const SELFBALANCE: u8 = 0x47;

/// `BASEFEE`.
pub const BASEFEE: u8 = 0x48;

/// `BLOBHASH`.
pub const BLOBHASH: u8 = 0x49;

/// `BLOBBASEFEE`.
pub const BLOBBASEFEE: u8 = 0x4a;

/// `POP`.
pub const POP: u8 = 0x50;

/// `MLOAD`.
pub const MLOAD: u8 = 0x51;

/// `MSTORE`.
pub const MSTORE: u8 = 0x52;

/// `MSTORE8`.
pub const MSTORE8: u8 = 0x53;

/// `SLOAD`.
pub const SLOAD: u8 = 0x54;

/// `SSTORE`.
pub const SSTORE: u8 = 0x55;

/// `JUMP`.
pub const JUMP: u8 = 0x56;

/// `JUMPI`.
pub const JUMPI: u8 = 0x57;

/// `PC`.
pub const PC: u8 = 0x58;

/// `MSIZE`.
pub const MSIZE: u8 = 0x59;

/// `GAS`.
pub const GAS: u8 = 0x5a;

/// `JUMPDEST`.
pub const JUMPDEST: u8 = 0x5b;

/// `TLOAD`.
pub const TLOAD: u8 = 0x5c;

/// `TSTORE`.
pub const TSTORE: u8 = 0x5d;

/// `MCOPY`.
pub const MCOPY: u8 = 0x5e;

/// `PUSH0`.
pub const PUSH0: u8 = 0x5f;

/// `PUSH1`.
pub const PUSH1: u8 = 0x60;

/// `PUSH2`.
pub const PUSH2: u8 = 0x61;

/// `PUSH3`.
pub const PUSH3: u8 = 0x62;

/// `PUSH4`.
pub const PUSH4: u8 = 0x63;

/// `PUSH5`.
pub const PUSH5: u8 = 0x64;

/// `PUSH6`.
pub const PUSH6: u8 = 0x65;

/// `PUSH7`.
pub const PUSH7: u8 = 0x66;

/// `PUSH8`.
pub const PUSH8: u8 = 0x67;

/// `PUSH9`.
pub const PUSH9: u8 = 0x68;

/// `PUSH10`.
pub const PUSH10: u8 = 0x69;

/// `PUSH11`.
pub const PUSH11: u8 = 0x6a;

/// `PUSH12`.
pub const PUSH12: u8 = 0x6b;

/// `PUSH13`.
pub const PUSH13: u8 = 0x6c;

/// `PUSH14`.
pub const PUSH14: u8 = 0x6d;

/// `PUSH15`.
pub const PUSH15: u8 = 0x6e;

/// `PUSH16`.
pub const PUSH16: u8 = 0x6f;

/// `PUSH17`.
pub const PUSH17: u8 = 0x70;

/// `PUSH18`.
pub const PUSH18: u8 = 0x71;

/// `PUSH19`.
pub const PUSH19: u8 = 0x72;

/// `PUSH20`.
pub const PUSH20: u8 = 0x73;

/// `PUSH21`.
pub const PUSH21: u8 = 0x74;

/// `PUSH22`.
pub const PUSH22: u8 = 0x75;

/// `PUSH23`.
pub const PUSH23: u8 = 0x76;

/// `PUSH24`.
pub const PUSH24: u8 = 0x77;

/// `PUSH25`.
pub const PUSH25: u8 = 0x78;

/// `PUSH26`.
pub const PUSH26: u8 = 0x79;

/// `PUSH27`.
pub const PUSH27: u8 = 0x7a;

/// `PUSH28`.
pub const PUSH28: u8 = 0x7b;

/// `PUSH29`.
pub const PUSH29: u8 = 0x7c;

/// `PUSH30`.
pub const PUSH30: u8 = 0x7d;

/// `PUSH31`.
pub const PUSH31: u8 = 0x7e;

/// `PUSH32`.
pub const PUSH32: u8 = 0x7f;

/// `DUP1`.
pub const DUP1: u8 = 0x80;

/// `DUP2`.
pub const DUP2: u8 = 0x81;

/// `DUP3`.
pub const DUP3: u8 = 0x82;

/// `DUP4`.
pub const DUP4: u8 = 0x83;

/// `DUP5`.
pub const DUP5: u8 = 0x84;

/// `DUP6`.
pub const DUP6: u8 = 0x85;

/// `DUP7`.
pub const DUP7: u8 = 0x86;

/// `DUP8`.
pub const DUP8: u8 = 0x87;

/// `DUP9`.
pub const DUP9: u8 = 0x88;

/// `DUP10`.
pub const DUP10: u8 = 0x89;

/// `DUP11`.
pub const DUP11: u8 = 0x8a;

/// `DUP12`.
pub const DUP12: u8 = 0x8b;

/// `DUP13`.
pub const DUP13: u8 = 0x8c;

/// `DUP14`.
pub const DUP14: u8 = 0x8d;

/// `DUP15`.
pub const DUP15: u8 = 0x8e;

/// `DUP16`.
pub const DUP16: u8 = 0x8f;

/// `SWAP1`.
pub const SWAP1: u8 = 0x90;

/// `SWAP2`.
pub const SWAP2: u8 = 0x91;

/// `SWAP3`.
pub const SWAP3: u8 = 0x92;

/// `SWAP4`.
pub const SWAP4: u8 = 0x93;

/// `SWAP5`.
pub const SWAP5: u8 = 0x94;

/// `SWAP6`.
pub const SWAP6: u8 = 0x95;

/// `SWAP7`.
pub const SWAP7: u8 = 0x96;

/// `SWAP8`.
pub const SWAP8: u8 = 0x97;

/// `SWAP9`.
pub const SWAP9: u8 = 0x98;

/// `SWAP10`.
pub const SWAP10: u8 = 0x99;

/// `SWAP11`.
pub const SWAP11: u8 = 0x9a;

/// `SWAP12`.
pub const SWAP12: u8 = 0x9b;

/// `SWAP13`.
pub const SWAP13: u8 = 0x9c;

/// `SWAP14`.
pub const SWAP14: u8 = 0x9d;

/// `SWAP15`.
pub const SWAP15: u8 = 0x9e;

/// `SWAP16`.
pub const SWAP16: u8 = 0x9f;

/// `LOG0`.
pub const LOG0: u8 = 0xa0;

/// `LOG1`.
pub const LOG1: u8 = 0xa1;

/// `LOG2`.
pub const LOG2: u8 = 0xa2;

/// `LOG3`.
pub const LOG3: u8 = 0xa3;

/// `LOG4`.
pub const LOG4: u8 = 0xa4;

/// `CREATE`.
pub const CREATE: u8 = 0xf0;

/// `CALL`.
pub const CALL: u8 = 0xf1;

/// `CALLCODE`.
pub const CALLCODE: u8 = 0xf2;

/// `RETURN`.
pub const RETURN: u8 = 0xf3;

/// `DELEGATECALL`.
pub const DELEGATECALL: u8 = 0xf4;

/// `CREATE2`.
pub const CREATE2: u8 = 0xf5;

/// `STATICCALL`.
pub const STATICCALL: u8 = 0xfa;

/// `REVERT`.
pub const REVERT: u8 = 0xfd;

/// `INVALID`.
pub const INVALID: u8 = 0xfe;

/// `SELFDESTRUCT`.
pub const SELFDESTRUCT: u8 = 0xff;

/// Whether a byte is an opcode.
pub open spec fn is_opcode(op: u8) -> bool {
    ||| 0x00 <= op <= 0x0b
    ||| 0x10 <= op <= 0x1e
    ||| op == 0x20
    ||| 0x30 <= op <= 0x4a
    ||| 0x50 <= op <= 0xa4
    ||| 0xf0 <= op <= 0xf5
    ||| op == 0xfa
    ||| 0xfd <= op <= 0xff
}

/// How many bytes of immediate data follow an opcode.
pub open spec fn immediate_len(op: u8) -> nat {
    if PUSH1 <= op <= PUSH32 {
        (op - PUSH1 + 1) as nat
    } else {
        0
    }
}

/// An opcode.
#[derive(Clone, Copy, Debug, PartialEq, Eq, Structural, Hash)]
pub struct OpCode(pub u8);

impl OpCode {
    /// The opcode with the given byte, if there is one.
    pub fn new(opcode: u8) -> (r: Option<OpCode>)
        ensures
            r == (if is_opcode(opcode) {
                Some(OpCode(opcode))
            } else {
                None
            }),
    {
        let op: u8 = opcode;
        if op <= 0x0b || (op >= 0x10 && op <= 0x1e) || op == 0x20 || (op >= 0x30 && op <= 0x4a)
            || (op >= 0x50 && op <= 0xa4) || (op >= 0xf0 && op <= 0xf5) || op == 0xfa || op >= 0xfd {
            Some(OpCode(opcode))
        } else {
            None
        }
    }

    /// The byte of the opcode.
    pub fn get(self) -> (r: u8)
        ensures
            r == self.0,
    {
        self.0
    }
}

} // verus!
