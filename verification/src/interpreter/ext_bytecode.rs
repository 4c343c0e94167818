//! Bytecode that is being run.

use crate::bytecode::code::CodeState;
use crate::bytecode::Bytecode;
use crate::interpreter::action::InterpreterAction;
use crate::interpreter::instruction_result::InstructionResult;
use crate::interpreter::interpreter_types::{
    ExtState, Immediates, JumpCtx, Jumps, LegacyBytecode, LoopControl,
};
use crate::primitives::be;
use crate::primitives::B256;
use vstd::prelude::*;
use vstd::slice::slice_subrange;

verus! {

/// Bytecode, with the position of the next byte to read, whether the run goes on, and what is
/// to be done next.
#[derive(Debug)]
pub struct ExtBytecode {
    instruction_pointer: usize,
    continue_execution: bool,
    bytecode_hash: Option<B256>,
    /// What is to be done next.
    pub action: Option<InterpreterAction>,
    base: Bytecode,
}

impl View for ExtBytecode {
    type V = ExtState;

    closed spec fn view(&self) -> ExtState {
        ExtState {
            code: self.base@,
            hash: self.bytecode_hash,
            ip: self.instruction_pointer as int,
            running: self.continue_execution,
            action: match self.action {
                Some(a) => Some(a@),
                None => None,
            },
        }
    }
}

/// A code at the start of its run.
pub open spec fn fresh(code: CodeState, hash: Option<B256>) -> ExtState {
    ExtState { code, hash, ip: 0, running: true, action: None }
}

impl Default for ExtBytecode {
    fn default() -> (r: ExtBytecode)
        ensures
            r@ == fresh(CodeState::from_raw(Seq::empty()), None),
            r@.code.runnable(),
    {
        ExtBytecode::new(Bytecode::default())
    }
}

impl Clone for ExtBytecode {
    fn clone(&self) -> (r: ExtBytecode)
        ensures
            r@ == self@,
    {
        ExtBytecode {
            instruction_pointer: self.instruction_pointer,
            continue_execution: self.continue_execution,
            bytecode_hash: self.bytecode_hash,
            action: match &self.action {
                Some(a) => Some(a.clone()),
                None => None,
            },
            base: self.base.clone(),
        }
    }
}

impl ExtBytecode {
    /// A code at the start of its run. The hash is not computed.
    pub fn new(base: Bytecode) -> (r: ExtBytecode)
        ensures
            r@ == fresh(base@, None),
    {
        ExtBytecode::new_with_optional_hash(base, None)
    }

    /// A code with its hash at the start of its run.
    pub fn new_with_hash(base: Bytecode, hash: B256) -> (r: ExtBytecode)
        ensures
            r@ == fresh(base@, Some(hash)),
    {
        ExtBytecode::new_with_optional_hash(base, Some(hash))
    }

    /// A code, perhaps with its hash, at the start of its run.
    pub fn new_with_optional_hash(base: Bytecode, hash: Option<B256>) -> (r: ExtBytecode)
        ensures
            r@ == fresh(base@, hash),
    {
        ExtBytecode {
            instruction_pointer: 0,
            continue_execution: true,
            bytecode_hash: hash,
            action: None,
            base,
        }
    }

    /// Replaces the code by another one at the start of its run.
    pub fn replace_with_hash(dst: &mut ExtBytecode, base: Bytecode, hash: B256)
        ensures
            final(dst)@ == fresh(base@, Some(hash)),
    {
        *dst = ExtBytecode::new_with_hash(base, hash);
    }

    /// Replaces the code by another one at the start of its run; the hash may be missing.
    pub fn replace_with_optional_hash(dst: &mut ExtBytecode, base: Bytecode, hash: Option<B256>)
        ensures
            final(dst)@ == fresh(base@, hash),
    {
        *dst = ExtBytecode::new_with_optional_hash(base, hash);
    }

    /// The code.
    pub fn base(&self) -> (r: &Bytecode)
        ensures
            r@ == self@.code,
    {
        &self.base
    }

    /// Computes the hash, whether or not it is known.
    pub fn calculate_hash(&mut self) -> (r: B256)
        requires
            old(self)@.code.wf(),
        ensures
            r == old(self)@.code.hash(),
            final(self)@ == (ExtState { hash: Some(r), ..old(self)@ }),
    {
        let hash = self.base.hash_slow();
        self.bytecode_hash = Some(hash);
        hash
    }

    /// The hash, if it is known.
    pub fn hash(&self) -> (r: Option<B256>)
        ensures
            r == self@.hash,
    {
        self.bytecode_hash
    }

    /// The hash, computed if it is not known.
    pub fn get_or_calculate_hash(&mut self) -> (r: B256)
        requires
            old(self)@.code.wf(),
        ensures
            r == (match old(self)@.hash {
                Some(h) => h,
                None => old(self)@.code.hash(),
            }),
            final(self)@ == (ExtState { hash: Some(r), ..old(self)@ }),
    {
        match self.bytecode_hash {
            Some(h) => h,
            None => self.calculate_hash(),
        }
    }
}

impl LoopControl for ExtBytecode {
    fn is_not_end(&self) -> (r: bool) {
        self.continue_execution
    }

    fn is_end(&self) -> (r: bool) {
        !self.continue_execution
    }

    fn reset_action(&mut self) {
        self.continue_execution = true;
    }

    fn set_action(&mut self, action: InterpreterAction) {
        self.continue_execution = false;
        self.action = Some(action);
    }

    fn take_action(&mut self) -> (r: Option<InterpreterAction>) {
        self.action.take()
    }

    fn instruction_result(&self) -> (r: Option<InstructionResult>) {
        match &self.action {
            Some(a) => a.instruction_result(),
            None => None,
        }
    }
}

impl Jumps for ExtBytecode {
    fn jump_ctx(&self) -> (r: JumpCtx) {
        match self.base.legacy_jump_table() {
            Some(table) => JumpCtx { table_len: table.len() },
            None => JumpCtx::empty(),
        }
    }

    fn is_valid_legacy_jump_with(&self, ctx: JumpCtx, offset: usize) -> (r: bool) {
        if offset >= ctx.table_len {
            return false;
        }
        match self.base.legacy_jump_table() {
            Some(table) => table.is_valid(offset),
            None => false,
        }
    }

    fn absolute_ip_with(&self, ctx: JumpCtx, offset: usize) -> (r: usize) {
        offset
    }

    fn relative_jump(&mut self, offset: isize) {
        if offset >= 0 {
            self.instruction_pointer = self.instruction_pointer + offset as usize;
        } else {
            self.instruction_pointer = self.instruction_pointer - 1 - (-(offset + 1)) as usize;
        }
    }

    fn absolute_jump(&mut self, offset: usize) {
        self.instruction_pointer = offset;
    }

    fn absolute_ip(&self, offset: usize) -> (r: usize) {
        offset
    }

    fn is_valid_legacy_jump(&self, offset: usize) -> (r: bool) {
        self.base.legacy_jump_table().unwrap().is_valid(offset)
    }

    fn pc(&self) -> (r: usize) {
        self.instruction_pointer
    }

    fn opcode(&self) -> (r: u8) {
        self.base.bytes_ref()[self.instruction_pointer]
    }

    fn ip(&self) -> (r: usize) {
        self.instruction_pointer
    }

    fn set_ip(&mut self, ip: usize) {
        self.instruction_pointer = ip;
    }
}

/// The number that two big-endian bytes spell.
fn read_u16_at(bytes: &[u8], at: usize) -> (r: u16)
    requires
        at + 2 <= bytes.len(),
    ensures
        r == be::be_val(bytes@.subrange(at as int, at + 2)),
{
    let ghost two = bytes@.subrange(at as int, at + 2);
    proof {
        reveal_with_fuel(be::be_val, 3);
        assert(two.drop_last().drop_last() =~= Seq::<u8>::empty());
    }
    bytes[at] as u16 * 256 + bytes[at + 1] as u16
}

impl Immediates for ExtBytecode {
    fn read_i16(&self) -> (r: i16) {
        self.read_offset_i16(0)
    }

    fn read_u16(&self) -> (r: u16) {
        read_u16_at(self.base.bytes_ref(), self.instruction_pointer)
    }

    fn read_i8(&self) -> (r: i8) {
        let n: u8 = self.read_u8();
        assert(n as i8 == (if n >= 0x80 {
            n - 0x100
        } else {
            n as int
        })) by (bit_vector);
        n as i8
    }

    fn read_u8(&self) -> (r: u8) {
        self.base.bytes_ref()[self.instruction_pointer]
    }

    fn read_offset_i16(&self, offset: isize) -> (r: i16) {
        let n: u16 = self.read_offset_u16(offset);
        assert(n as i16 == (if n >= 0x8000 {
            n - 0x1_0000
        } else {
            n as int
        })) by (bit_vector);
        n as i16
    }

    fn read_offset_u16(&self, offset: isize) -> (r: u16) {
        let at: usize = if offset >= 0 {
            self.instruction_pointer + offset as usize
        } else {
            self.instruction_pointer - 1 - (-(offset + 1)) as usize
        };
        read_u16_at(self.base.bytes_ref(), at)
    }

    fn read_slice(&self, len: usize) -> (r: &[u8]) {
        slice_subrange(
            self.base.bytes_ref(),
            self.instruction_pointer,
            self.instruction_pointer + len,
        )
    }
}

impl LegacyBytecode for ExtBytecode {
    fn bytecode_len(&self) -> (r: usize) {
        self.base.len()
    }

    fn bytecode_slice(&self) -> (r: &[u8]) {
        self.base.original_byte_slice()
    }
}

} // verus!
