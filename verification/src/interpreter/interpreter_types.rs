//! What the interpreter asks of its parts.

use crate::bytecode::code::CodeState;
use crate::interpreter::action::{ActionState, InterpreterAction};
use crate::interpreter::be_word::{load_be_word, store_be_word};
use crate::interpreter::input::{CallInput, InputState, RuntimeFlags};
use crate::interpreter::instruction_result::InstructionResult;
use crate::interpreter::shared_memory;
use crate::interpreter::shared_memory::MemoryState;
use crate::interpreter::stack;
use crate::interpreter::stack::{STACK_LIMIT, WORD};
use crate::primitives::address;
use crate::primitives::be;
use crate::primitives::u256;
use crate::primitives::{Address, SpecId, B256, U256};
use std::ops::Range;
use vstd::prelude::*;

verus! {

/// A code that is being run: where the run is and whether it goes on.
#[verifier::ext_equal]
pub struct ExtState {
    /// The code.
    pub code: CodeState,
    /// The hash of the code, if it was computed.
    pub hash: Option<B256>,
    /// The position of the next byte to read.
    pub ip: int,
    /// Whether the run goes on.
    pub running: bool,
    /// What is to be done next.
    pub action: Option<ActionState>,
}

impl ExtState {
    /// The position is inside the code.
    pub open spec fn inside(self) -> bool {
        self.code.wf() && 0 <= self.ip < self.code.bytes().len() <= usize::MAX
    }

    /// `len` bytes from `offset` on, counted from the position, are inside the code.
    pub open spec fn readable(self, offset: int, len: int) -> bool {
        self.code.wf() && 0 <= self.ip + offset && self.ip + offset + len <= self.code.bytes().len()
            <= usize::MAX
    }

    /// `len` bytes from `offset` on, counted from the position.
    pub open spec fn ahead(self, offset: int, len: int) -> Seq<u8> {
        self.code.bytes().subrange(self.ip + offset, self.ip + offset + len)
    }
}

/// A 16-bit number read as signed.
pub open spec fn signed_16(n: u16) -> int {
    if n >= 0x8000 {
        n - 0x1_0000
    } else {
        n as int
    }
}

/// An 8-bit number read as signed.
pub open spec fn signed_8(n: u8) -> int {
    if n >= 0x80 {
        n - 0x100
    } else {
        n as int
    }
}

/// Reading immediate data.
pub trait Immediates: View<V = ExtState> + Sized {
    /// The next 16 bits as a signed number.
    fn read_i16(&self) -> (r: i16)
        requires
            self@.readable(0, 2),
        ensures
            r == signed_16(be::be_val(self@.ahead(0, 2)) as u16),
    ;

    /// The next 16 bits.
    fn read_u16(&self) -> (r: u16)
        requires
            self@.readable(0, 2),
        ensures
            r == be::be_val(self@.ahead(0, 2)),
    ;

    /// The next 8 bits as a signed number.
    fn read_i8(&self) -> (r: i8)
        requires
            self@.readable(0, 1),
        ensures
            r == signed_8(self@.code.bytes()[self@.ip]),
    ;

    /// The next 8 bits.
    fn read_u8(&self) -> (r: u8)
        requires
            self@.readable(0, 1),
        ensures
            r == self@.code.bytes()[self@.ip],
    ;

    /// 16 bits at an offset, as a signed number.
    fn read_offset_i16(&self, offset: isize) -> (r: i16)
        requires
            self@.readable(offset as int, 2),
        ensures
            r == signed_16(be::be_val(self@.ahead(offset as int, 2)) as u16),
    ;

    /// 16 bits at an offset.
    fn read_offset_u16(&self, offset: isize) -> (r: u16)
        requires
            self@.readable(offset as int, 2),
        ensures
            r == be::be_val(self@.ahead(offset as int, 2)),
    ;

    /// The next `len` bytes.
    fn read_slice(&self, len: usize) -> (r: &[u8])
        requires
            self@.readable(0, len as int),
        ensures
            r@ == self@.ahead(0, len as int),
    ;
}

/// The code as it is stored.
pub trait LegacyBytecode: View<V = ExtState> + Sized {
    /// The length of the code.
    fn bytecode_len(&self) -> (r: usize)
        requires
            self@.code.wf(),
        ensures
            r == self@.code.original().len(),
    ;

    /// The code.
    fn bytecode_slice(&self) -> (r: &[u8])
        requires
            self@.code.wf(),
        ensures
            r@ == self@.code.original(),
    ;
}

/// What stays the same over a run of what a jump needs: the length of the table of valid
/// destinations. The empty context rejects every destination.
#[derive(Clone, Copy, Debug, PartialEq, Eq, Structural)]
pub struct JumpCtx {
    /// The number of bits in the table.
    pub table_len: usize,
}

impl JumpCtx {
    /// A context that rejects every destination.
    pub fn empty() -> (r: JumpCtx)
        ensures
            r.table_len == 0,
    {
        JumpCtx { table_len: 0 }
    }

    /// Whether this is the context of a code.
    pub open spec fn fits(self, code: CodeState) -> bool {
        self.table_len == (match code {
            CodeState::Legacy(l) => l.table.len(),
            CodeState::Eip7702(_) => 0,
        })
    }
}

/// Moving about in the code.
pub trait Jumps: View<V = ExtState> + Sized {
    /// What stays the same over a run.
    fn jump_ctx(&self) -> (r: JumpCtx)
        requires
            self@.code.wf(),
        ensures
            r.fits(self@.code),
    ;

    /// Whether a jump may land on `offset`.
    fn is_valid_legacy_jump_with(&self, ctx: JumpCtx, offset: usize) -> (r: bool)
        requires
            ctx.fits(self@.code),
        ensures
            r == self@.code.valid_jump(offset as int),
    ;

    /// The position that a jump to `offset` goes to.
    fn absolute_ip_with(&self, ctx: JumpCtx, offset: usize) -> (r: usize)
        ensures
            r == offset,
    ;

    /// Moves the position by an offset.
    fn relative_jump(&mut self, offset: isize)
        requires
            0 <= old(self)@.ip + offset <= usize::MAX,
        ensures
            final(self)@ == (ExtState { ip: old(self)@.ip + offset, ..old(self)@ }),
    ;

    /// Moves the position.
    fn absolute_jump(&mut self, offset: usize)
        ensures
            final(self)@ == (ExtState { ip: offset as int, ..old(self)@ }),
    ;

    /// The position that [`Jumps::absolute_jump`] goes to.
    fn absolute_ip(&self, offset: usize) -> (r: usize)
        ensures
            r == offset,
    ;

    /// Whether a jump may land on `offset`.
    fn is_valid_legacy_jump(&self, offset: usize) -> (r: bool)
        requires
            self@.code is Legacy,
        ensures
            r == self@.code.valid_jump(offset as int),
    ;

    /// The position in the code.
    fn pc(&self) -> (r: usize)
        ensures
            r == self@.ip,
    ;

    /// The opcode at the position.
    fn opcode(&self) -> (r: u8)
        requires
            self@.inside(),
        ensures
            r == self@.code.bytes()[self@.ip],
    ;

    /// The position in the code.
    fn ip(&self) -> (r: usize)
        ensures
            r == self@.ip,
    ;

    /// Sets the position.
    fn set_ip(&mut self, ip: usize)
        ensures
            final(self)@ == (ExtState { ip: ip as int, ..old(self)@ }),
    ;
}

/// Whether the run goes on, and what comes after it.
pub trait LoopControl: View<V = ExtState> + Sized {
    /// Whether the run goes on.
    fn is_not_end(&self) -> (r: bool)
        ensures
            r == self@.running,
    ;

    /// Whether the run has ended.
    fn is_end(&self) -> (r: bool)
        ensures
            r == !self@.running,
    ;

    /// Lets the run go on. The action stays.
    fn reset_action(&mut self)
        ensures
            final(self)@ == (ExtState { running: true, ..old(self)@ }),
    ;

    /// Ends the run with an action.
    fn set_action(&mut self, action: InterpreterAction)
        ensures
            final(self)@ == (ExtState { running: false, action: Some(action@), ..old(self)@ }),
    ;

    /// Takes the action out.
    fn take_action(&mut self) -> (r: Option<InterpreterAction>)
        ensures
            final(self)@ == (ExtState { action: None, ..old(self)@ }),
            match old(self)@.action {
                Some(a) => r matches Some(b) && b@ == a,
                None => r is None,
            },
    ;

    /// How the frame ended, if it did.
    fn instruction_result(&self) -> (r: Option<InstructionResult>)
        ensures
            r == (match self@.action {
                Some(ActionState::Return(result)) => Some(result.result),
                _ => None,
            }),
    ;
}

/// What a frame is called with.
pub trait InputsTr: View<V = InputState> + Sized {
    /// The account whose storage is used.
    fn target_address(&self) -> (r: Address)
        ensures
            r == self@.target,
    ;

    /// The account whose code runs. Initcode has none.
    fn bytecode_address(&self) -> (r: Option<&Address>)
        ensures
            match self@.bytecode_address {
                Some(a) => r matches Some(b) && *b == a,
                None => r is None,
            },
    ;

    /// The caller.
    fn caller_address(&self) -> (r: Address)
        ensures
            r == self@.caller,
    ;

    /// The input data.
    fn input(&self) -> (r: &CallInput)
        ensures
            r@ == self@.input,
    ;

    /// The value of the call.
    fn call_value(&self) -> (r: U256)
        ensures
            r == self@.call_value,
    ;
}

/// The data that the last call returned.
pub trait ReturnData: View<V = Seq<u8>> + Sized {
    /// The data.
    fn buffer(&self) -> (r: &[u8])
        ensures
            r@ == self@,
    ;

    /// Replaces the data.
    fn set_buffer(&mut self, bytes: Vec<u8>)
        ensures
            final(self)@ == bytes@,
    ;

    /// Removes the data.
    fn clear(&mut self)
        ensures
            final(self)@ == Seq::<u8>::empty(),
    {
        self.set_buffer(Vec::new())
    }
}

/// The flags of a run.
pub trait RuntimeFlag: Sized {
    /// The flags.
    spec fn flags(&self) -> RuntimeFlags;

    /// Whether the state may not change.
    fn is_static(&self) -> (r: bool)
        ensures
            r == self.flags().is_static,
    ;

    /// The hard fork whose rules hold.
    fn spec_id(&self) -> (r: SpecId)
        ensures
            r == self.flags().spec_id,
    ;
}

/// The memory of a frame.
pub trait MemoryTr: View<V = MemoryState> + Sized {
    /// Whether the memory lets itself be brought to a size.
    spec fn resizes_to(&self, new_size: int) -> bool;

    /// Writes `len` bytes of `data`, from `data_offset` on; what `data` does not have is
    /// zeroed.
    fn set_data(&mut self, memory_offset: usize, data_offset: usize, len: usize, data: &[u8])
        requires
            old(self)@.wf(),
            old(self)@.active(),
            len == 0 || memory_offset + len <= old(self)@.size(),
        ensures
            len == 0 ==> final(self)@ == old(self)@,
            memory_offset + len <= old(self)@.size() ==> final(self)@ == old(self)@.written(
                memory_offset as int,
                shared_memory::padded_slice(data@, data_offset as int, len as nat),
            ),
            final(self)@.wf(),
    ;

    /// Writes `len` bytes of a range of the memory below this context, from `data_offset` on;
    /// what the range does not have is zeroed.
    fn set_data_from_global(
        &mut self,
        memory_offset: usize,
        data_offset: usize,
        len: usize,
        data_range: Range<usize>,
    )
        requires
            old(self)@.wf(),
            old(self)@.active(),
            len == 0 || memory_offset + len <= old(self)@.size(),
            data_range.start < data_range.end ==> data_range.end <= old(self)@.checkpoint,
        ensures
            len == 0 ==> final(self)@ == old(self)@,
            memory_offset + len <= old(self)@.size() ==> final(self)@ == old(self)@.written(
                memory_offset as int,
                shared_memory::padded_slice(
                    old(self)@.global(data_range.start as int, data_range.end as int),
                    data_offset as int,
                    len as nat,
                ),
            ),
            final(self)@.wf(),
    ;

    /// A range of the whole buffer.
    fn global_slice(&self, range: Range<usize>) -> (r: &[u8])
        requires
            self@.active(),
            range.start <= range.end <= self@.buffer->0.len(),
        ensures
            r@ == self@.buffer->0.subrange(range.start as int, range.end as int),
    ;

    /// Where this context's memory starts in the buffer.
    fn local_memory_offset(&self) -> (r: usize)
        ensures
            r == self@.checkpoint,
    ;

    /// Writes bytes. No bytes may be written anywhere.
    fn set(&mut self, memory_offset: usize, data: &[u8])
        requires
            old(self)@.wf(),
            old(self)@.active(),
            data.len() == 0 || memory_offset + data.len() <= old(self)@.size(),
        ensures
            data@.len() == 0 ==> final(self)@ == old(self)@,
            memory_offset + data@.len() <= old(self)@.size() ==> final(self)@ == old(
                self,
            )@.written(memory_offset as int, data@),
            final(self)@.wf(),
    ;

    /// The length of this context's memory.
    fn size(&self) -> (r: usize)
        requires
            self@.wf(),
            self@.active(),
        ensures
            r == self@.size(),
    ;

    /// Copies bytes within this context's memory; the two ranges may overlap.
    fn copy(&mut self, destination: usize, source: usize, len: usize)
        requires
            old(self)@.wf(),
            old(self)@.active(),
            destination + len <= old(self)@.size(),
            source + len <= old(self)@.size(),
        ensures
            final(self)@ == old(self)@.written(
                destination as int,
                old(self)@.local().subrange(source as int, source + len),
            ),
            final(self)@.wf(),
    ;

    /// A range of this context's memory.
    fn slice(&self, range: Range<usize>) -> (r: &[u8])
        requires
            self@.wf(),
            self@.active(),
            range.start <= range.end <= self@.size(),
        ensures
            r@ == self@.local().subrange(range.start as int, range.end as int),
    ;

    /// `len` bytes of this context's memory from `offset` on.
    fn slice_len(&self, offset: usize, len: usize) -> (r: &[u8])
        requires
            self@.wf(),
            self@.active(),
            offset + len <= self@.size(),
        ensures
            r@ == self@.local().subrange(offset as int, offset + len),
    {
        self.slice(offset..offset + len)
    }

    /// The word at an offset.
    fn get_u256(&self, offset: usize) -> (r: U256)
        requires
            self@.wf(),
            self@.active(),
            offset + 32 <= self@.size(),
        ensures
            r == u256::word(be::be_val(self@.local().subrange(offset as int, offset + 32))),
    {
        let slice = self.slice_len(offset, 32);
        assert(slice@.subrange(0, 32) =~= slice@);
        load_be_word(slice, 0)
    }

    /// Writes a word as 32 big-endian bytes.
    fn set_u256(&mut self, offset: usize, value: U256)
        requires
            old(self)@.wf(),
            old(self)@.active(),
            offset + 32 <= old(self)@.size(),
        ensures
            final(self)@ == old(self)@.written(offset as int, be::be_bytes(value.val(), 32)),
            final(self)@.wf(),
    {
        let mut bytes: Vec<u8> = Vec::new();
        bytes.resize(32, 0);
        store_be_word(&mut bytes, 0, &value);
        proof {
            be::lemma_be_bytes_len(value.val(), 32);
        }
        assert(bytes@ =~= be::be_bytes(value.val(), 32));
        self.set(offset, bytes.as_slice())
    }

    /// Writes a word that is somewhere else as 32 big-endian bytes.
    fn set_u256_ptr(&mut self, offset: usize, src: &U256)
        requires
            old(self)@.wf(),
            old(self)@.active(),
            offset + 32 <= old(self)@.size(),
        ensures
            final(self)@ == old(self)@.written(offset as int, be::be_bytes(src.val(), 32)),
            final(self)@.wf(),
    {
        self.set_u256(offset, *src)
    }

    /// Reads the word at an offset into a place.
    fn get_u256_to(&self, offset: usize, dst: &mut U256)
        requires
            self@.wf(),
            self@.active(),
            offset + 32 <= self@.size(),
        ensures
            *final(dst) == u256::word(
                be::be_val(self@.local().subrange(offset as int, offset + 32)),
            ),
    {
        *dst = self.get_u256(offset);
    }

    /// Brings this context's memory to a size, zeroing what is new; tells whether it did.
    fn resize(&mut self, new_size: usize) -> (r: bool)
        requires
            old(self)@.wf(),
            old(self)@.active(),
            old(self)@.child is None,
            old(self)@.checkpoint + new_size <= usize::MAX,
        ensures
            r == old(self).resizes_to(new_size as int),
            final(self)@ == (if r {
                old(self)@.with_size(new_size as int)
            } else {
                old(self)@
            }),
            final(self)@.wf(),
    ;

    /// [`MemoryTr::resize`], for a caller that overwrites `wr_len` bytes from `wr_off` on before
    /// anything reads the memory.
    fn resize_written(&mut self, new_size: usize, wr_off: usize, wr_len: usize) -> (r: bool)
        requires
            old(self)@.wf(),
            old(self)@.active(),
            old(self)@.child is None,
            old(self)@.checkpoint + new_size <= usize::MAX,
            wr_off + wr_len <= new_size,
        ensures
            r == old(self).resizes_to(new_size as int),
            final(self)@ == (if r {
                old(self)@.with_size(new_size as int)
            } else {
                old(self)@
            }),
            final(self)@.wf(),
    {
        self.resize(new_size)
    }

    /// Whether memory up to `offset + len` would take the buffer over its limit; the sum
    /// saturates.
    fn limit_reached(&self, offset: usize, len: usize) -> (r: bool)
        ensures
            r == self@.over_limit(offset as int, len as int),
    ;
}

/// The words that an instruction works on.
pub trait StackTr: View<V = Seq<U256>> + Sized {
    /// The parts fit together.
    spec fn sound(&self) -> bool;

    /// The number of words.
    fn len(&self) -> (r: usize)
        requires
            self.sound(),
        ensures
            r == self@.len(),
            r <= STACK_LIMIT,
    ;

    /// The words, the topmost one last.
    fn data(&self) -> (r: &[U256])
        requires
            self.sound(),
        ensures
            r@ == self@,
    ;

    /// Whether there is no word.
    fn is_empty(&self) -> (r: bool)
        requires
            self.sound(),
        ensures
            r == (self@.len() == 0),
    {
        self.len() == 0
    }

    /// Removes all words.
    fn clear(&mut self)
        requires
            old(self).sound(),
        ensures
            final(self)@ == Seq::<U256>::empty(),
            final(self).sound(),
    ;

    /// Pushes a word, if there is room.
    fn push(&mut self, value: U256) -> (r: bool)
        requires
            old(self).sound(),
        ensures
            final(self).sound(),
            r == (old(self)@.len() < STACK_LIMIT),
            final(self)@ == (if r {
                old(self)@.push(value)
            } else {
                old(self)@
            }),
    ;

    /// Pushes the words that a slice of bytes spells, if there is room for all of them.
    fn push_slice(&mut self, slice: &[u8]) -> (r: bool)
        requires
            old(self).sound(),
            slice.len() <= usize::MAX - 31,
        ensures
            final(self).sound(),
            r == (old(self)@.len() + stack::slice_words(slice@).len() <= STACK_LIMIT),
            final(self)@ == (if r {
                old(self)@ + stack::slice_words(slice@)
            } else {
                old(self)@
            }),
    ;

    /// Pushes the number that one to 32 big-endian bytes spell, if there is room.
    fn push_slice_const(&mut self, src: &[u8]) -> (r: bool)
        requires
            old(self).sound(),
            0 < src@.len() <= 32,
        ensures
            final(self).sound(),
            r == (old(self)@.len() < STACK_LIMIT),
            final(self)@ == (if r {
                old(self)@.push(u256::word(be::be_val(src@)))
            } else {
                old(self)@
            }),
    {
        assert(src@.subrange(0, src@.len() as int) =~= src@);
        assert(stack::slice_words(src@) =~= seq![u256::word(be::be_val(src@))]);
        self.push_slice(src)
    }

    /// Pushes a hash as a word, if there is room.
    fn push_b256(&mut self, value: B256) -> (r: bool)
        requires
            old(self).sound(),
        ensures
            final(self).sound(),
            r == (old(self)@.len() < STACK_LIMIT),
            final(self)@ == (if r {
                old(self)@.push(value.word)
            } else {
                old(self)@
            }),
    {
        self.push(value.into_u256())
    }

    /// Removes the topmost `n` words, if there are that many; the first of the result was the
    /// topmost.
    fn popn(&mut self, n: usize) -> (r: Option<Vec<U256>>)
        requires
            old(self).sound(),
        ensures
            final(self).sound(),
            match r {
                Some(v) => n <= old(self)@.len() && v@ == Seq::new(
                    n as nat,
                    |i: int| stack::nth(old(self)@, i),
                ) && final(self)@ == stack::dropped(old(self)@, n as int),
                None => old(self)@.len() < n && final(self)@ == old(self)@,
            },
    ;

    /// Removes the topmost `n` words and hands them back with the word that is then on top, for
    /// writing, if there are that many words and one more.
    fn popn_top(&mut self, n: usize) -> (r: Option<(Vec<U256>, &mut U256)>)
        requires
            old(self).sound(),
        ensures
            final(self).sound(),
            match r {
                Some((words, top)) => n < old(self)@.len() && words@ == Seq::new(
                    n as nat,
                    |i: int| stack::nth(old(self)@, i),
                ) && *top == stack::nth(old(self)@, n as int) && final(self)@ == stack::dropped(
                    old(self)@,
                    n + 1,
                ).push(*final(top)),
                None => old(self)@.len() <= n && final(self)@ == old(self)@,
            },
    ;

    /// Removes the topmost `n` words of a stack of `len` words that has them.
    fn popn_discard(&mut self, n: usize, len: usize)
        requires
            old(self).sound(),
            len == old(self)@.len(),
            n <= len,
        ensures
            final(self).sound(),
            final(self)@ == stack::dropped(old(self)@, n as int),
    {
        let _ = self.popn(n);
    }

    /// The topmost word, for writing, if there is one.
    fn top(&mut self) -> (r: Option<&mut U256>)
        requires
            old(self).sound(),
        ensures
            final(self).sound(),
            match r {
                Some(top) => old(self)@.len() > 0 && *top == stack::nth(old(self)@, 0)
                    && final(self)@ == stack::dropped(old(self)@, 1).push(*final(top)),
                None => old(self)@.len() == 0 && final(self)@ == old(self)@,
            },
    {
        match self.popn_top(0) {
            Some((_, top)) => Some(top),
            None => None,
        }
    }

    /// The cursor: the offset in bytes of the topmost word, or one word below zero, wrapped
    /// around, for an empty stack.
    fn sp(&self) -> (r: usize)
        requires
            self.sound(),
        ensures
            r == stack::cursor_of(self@.len()),
    {
        (self.len() * WORD).wrapping_sub(WORD)
    }

    /// Removes the topmost word, if there is one.
    fn pop(&mut self) -> (r: Option<U256>)
        requires
            old(self).sound(),
        ensures
            final(self).sound(),
            match r {
                Some(w) => old(self)@.len() > 0 && w == stack::nth(old(self)@, 0) && final(self)@
                    == stack::dropped(old(self)@, 1),
                None => old(self)@.len() == 0 && final(self)@ == old(self)@,
            },
    {
        match self.popn(1) {
            Some(words) => Some(words[0]),
            None => None,
        }
    }

    /// Removes the topmost word and takes the address in its low 20 bytes.
    fn pop_address(&mut self) -> (r: Option<Address>)
        requires
            old(self).sound(),
        ensures
            final(self).sound(),
            match r {
                Some(a) => old(self)@.len() > 0 && a == address::address_of(
                    stack::nth(old(self)@, 0),
                ) && final(self)@ == stack::dropped(old(self)@, 1),
                None => old(self)@.len() == 0 && final(self)@ == old(self)@,
            },
    {
        match self.pop() {
            Some(w) => Some(Address::from_word(w)),
            None => None,
        }
    }

    /// Exchanges the `n`-th and the `n + m`-th word from the top, counted from zero, if there
    /// are that many.
    fn exchange(&mut self, n: usize, m: usize) -> (r: bool)
        requires
            old(self).sound(),
            m > 0,
            n + m <= usize::MAX,
        ensures
            final(self).sound(),
            r == (n + m < old(self)@.len()),
            final(self)@ == (if r {
                stack::exchanged(old(self)@, n as int, n + m)
            } else {
                old(self)@
            }),
    ;

    /// Pushes a copy of the `n`-th word from the top, counted from one, if there is such a
    /// word and room for one more.
    fn dup(&mut self, n: usize) -> (r: bool)
        requires
            old(self).sound(),
            n > 0,
        ensures
            final(self).sound(),
            r == (n <= old(self)@.len() < STACK_LIMIT),
            final(self)@ == (if r {
                old(self)@.push(stack::nth(old(self)@, n - 1))
            } else {
                old(self)@
            }),
    ;
}

/// The parts that make an interpreter.
pub trait InterpreterTypes {
    /// The stack.
    type Stack: StackTr;

    /// The memory.
    type Memory: MemoryTr;

    /// The code under way.
    type Bytecode: Jumps + Immediates + LoopControl + LegacyBytecode;

    /// The data that the last call returned.
    type ReturnData: ReturnData;

    /// What the frame is called with.
    type Input: InputsTr;

    /// The flags.
    type RuntimeFlag: RuntimeFlag;

    /// What a run ends with.
    type Output;
}

} // verus!
