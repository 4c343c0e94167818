//! Memory shared between the frames of a call stack.

use crate::gas::{Gas, GasState};
use crate::gas;
use crate::interpreter::be_word;
use crate::interpreter::be_word::{load_be_word, store_be_word};
use crate::interpreter::interpreter_types::MemoryTr;
use crate::primitives::be;
use crate::primitives::u256;
use crate::primitives::{B256, U256};
use std::ops::Range;
use vstd::prelude::*;
use vstd::slice::slice_subrange;

verus! {

/// The number of 32-byte words that `len` bytes need; the sum that rounds up saturates.
pub open spec fn spec_num_words(len: int) -> int {
    (if len + 31 <= usize::MAX {
        len + 31
    } else {
        usize::MAX as int
    }) / 32
}

/// The number of 32-byte words that `len` bytes need, rounding up.
pub fn num_words(len: usize) -> (r: usize)
    ensures
        r == spec_num_words(len as int),
{
    len.saturating_add(31) / 32
}

/// What a [`SharedMemory`] holds.
#[verifier::ext_equal]
pub struct MemoryState {
    /// The buffer of the whole call stack, while this context has it.
    pub buffer: Option<Seq<u8>>,
    /// Where the memory of this context starts in the buffer.
    pub checkpoint: nat,
    /// Where the memory of the child context starts, if there is one.
    pub child: Option<nat>,
    /// The limit on the length of the buffer.
    pub limit: u64,
}

/// A buffer brought to a length: cut off, or filled up with zeros.
pub open spec fn resized(buffer: Seq<u8>, len: int) -> Seq<u8> {
    if len <= buffer.len() {
        buffer.subrange(0, len)
    } else {
        buffer + be_word::zeros((len - buffer.len()) as nat)
    }
}

/// The most bytes of memory that one frame can be charged for.
pub open spec fn frame_bytes_bound() -> int {
    0x1f_ffff_ffe0
}

impl MemoryState {
    /// Whether this context has the buffer.
    pub open spec fn active(self) -> bool {
        self.buffer is Some
    }

    /// The memory of this context.
    pub open spec fn local(self) -> Seq<u8> {
        self.buffer->0.subrange(self.checkpoint as int, self.buffer->0.len() as int)
    }

    /// The length of the memory of this context.
    pub open spec fn size(self) -> int {
        self.buffer->0.len() - self.checkpoint
    }

    /// The checkpoints are in order and inside the buffer. A context without the buffer has
    /// lent it to its child, or never had one.
    pub open spec fn wf(self) -> bool {
        match self.buffer {
            Some(buffer) => {
                &&& self.checkpoint <= buffer.len() <= usize::MAX
                &&& self.child matches Some(child) ==> self.checkpoint <= child <= buffer.len()
            },
            None => match self.child {
                Some(child) => self.checkpoint <= child,
                None => self.checkpoint == 0,
            },
        }
    }

    /// The address space has room for the largest memory that a frame can pay for.
    pub open spec fn has_room(self) -> bool {
        self.checkpoint + frame_bytes_bound() <= usize::MAX
    }

    /// The same memory with other contents.
    pub open spec fn with_buffer(self, buffer: Seq<u8>) -> MemoryState {
        MemoryState { buffer: Some(buffer), ..self }
    }

    /// This context's memory brought to a size.
    pub open spec fn with_size(self, size: int) -> MemoryState {
        self.with_buffer(resized(self.buffer->0, self.checkpoint + size))
    }

    /// This context after its child has ended: the buffer is cut off where the child's memory
    /// began. Without a child nothing changes.
    pub open spec fn freed(self) -> MemoryState {
        match self.child {
            Some(child) => MemoryState {
                buffer: Some(self.buffer->0.subrange(0, child as int)),
                child: None,
                ..self
            },
            None => self,
        }
    }

    /// The context of a call that this context starts.
    pub open spec fn child_context(self) -> MemoryState {
        MemoryState { checkpoint: self.buffer->0.len(), child: None, ..self }
    }

    /// This context while its child has the buffer.
    pub open spec fn lent(self) -> MemoryState {
        MemoryState { buffer: None, child: Some(self.buffer->0.len()), ..self }
    }

    /// This context with the buffer that its child hands back.
    pub open spec fn restored(self, child: MemoryState) -> MemoryState {
        MemoryState { buffer: child.buffer, ..self }
    }

    /// Writing no bytes changes nothing.
    pub proof fn lemma_nothing_written(self, offset: int, data: Seq<u8>)
        requires
            self.wf(),
            self.active(),
            data.len() == 0,
            0 <= offset,
        ensures
            offset <= self.size() ==> self.written(offset, data) == self,
    {
        if offset <= self.size() {
            assert(self.written(offset, data).buffer->0 =~= self.buffer->0);
        }
    }

    /// This context's memory with the bytes from `offset` on replaced.
    pub open spec fn written(self, offset: int, data: Seq<u8>) -> MemoryState {
        self.with_buffer(be_word::splice(self.buffer->0, self.checkpoint + offset, data))
    }
}

/// A sequential memory shared between calls: the frames of a call stack keep their memories
/// one behind the other in one buffer. A frame that makes a call lends the buffer to the
/// callee's context and has it back when the call returns.
#[derive(Clone, Debug, PartialEq, Eq)]
pub struct SharedMemory {
    buffer: Option<Vec<u8>>,
    my_checkpoint: usize,
    child_checkpoint: Option<usize>,
    memory_limit: u64,
}

impl View for SharedMemory {
    type V = MemoryState;

    closed spec fn view(&self) -> MemoryState {
        MemoryState {
            buffer: match self.buffer {
                Some(v) => Some(v@),
                None => None,
            },
            checkpoint: self.my_checkpoint as nat,
            child: match self.child_checkpoint {
                Some(c) => Some(c as nat),
                None => None,
            },
            limit: self.memory_limit,
        }
    }
}

impl Default for SharedMemory {
    fn default() -> (r: SharedMemory)
        ensures
            r@ == (MemoryState {
                buffer: Some(Seq::empty()),
                checkpoint: 0,
                child: None,
                limit: u64::MAX,
            }),
    {
        SharedMemory::new()
    }
}

/// Why stored parts do not make a memory.
#[derive(Clone, Copy, Debug, PartialEq, Eq, Structural)]
pub enum SharedMemoryError {
    /// The checkpoint is past the end of the buffer.
    Checkpoint,
    /// The child's checkpoint is outside its parent's range.
    ChildCheckpoint,
    /// There is a checkpoint but no buffer.
    NoBuffer,
}

impl SharedMemoryError {
    /// The error in words.
    pub fn message(&self) -> (r: &'static str)
        ensures
            r@ == (match *self {
                SharedMemoryError::Checkpoint =>
                    "SharedMemory checkpoint is past the end of its buffer"@,
                SharedMemoryError::ChildCheckpoint =>
                    "SharedMemory child checkpoint is outside its parent's range"@,
                SharedMemoryError::NoBuffer =>
                    "SharedMemory without a buffer carries a checkpoint"@,
            }),
    {
        match self {
            SharedMemoryError::Checkpoint => "SharedMemory checkpoint is past the end of its buffer",
            SharedMemoryError::ChildCheckpoint =>
                "SharedMemory child checkpoint is outside its parent's range",
            SharedMemoryError::NoBuffer => "SharedMemory without a buffer carries a checkpoint",
        }
    }
}

/// Copies `data` over the bytes of `buf` from `at` on.
fn write_bytes(buf: &mut Vec<u8>, at: usize, data: &[u8])
    requires
        at + data.len() <= old(buf).len(),
    ensures
        final(buf)@ == be_word::splice(old(buf)@, at as int, data@),
{
    let ghost before = buf@;
    let n: usize = data.len();
    let mut i: usize = 0;
    while i < n
        invariant
            i <= n,
            n == data@.len(),
            at + n <= before.len(),
            before.len() <= usize::MAX,
            buf@.len() == before.len(),
            forall|j: int|
                0 <= j < before.len() ==> #[trigger] buf@[j] == (if at <= j < at + i {
                    data@[j - at]
                } else {
                    before[j]
                }),
        decreases n - i,
    {
        buf[at + i] = data[i];
        i = i + 1;
    }
    assert(buf@ =~= be_word::splice(before, at as int, data@));
}

/// Zeroes `n` bytes of `buf` from `at` on.
fn zero_bytes(buf: &mut Vec<u8>, at: usize, n: usize)
    requires
        at + n <= old(buf).len(),
    ensures
        final(buf)@ == be_word::splice(old(buf)@, at as int, be_word::zeros(n as nat)),
{
    let ghost before = buf@;
    let mut i: usize = 0;
    while i < n
        invariant
            i <= n,
            at + n <= before.len(),
            before.len() <= usize::MAX,
            buf@.len() == before.len(),
            forall|j: int|
                0 <= j < before.len() ==> #[trigger] buf@[j] == (if at <= j < at + i {
                    0u8
                } else {
                    before[j]
                }),
        decreases n - i,
    {
        buf[at + i] = 0;
        i = i + 1;
    }
    assert(buf@ =~= be_word::splice(before, at as int, be_word::zeros(n as nat)));
}

/// The `len` bytes of `src` from `offset` on; what `src` does not have is zero.
pub open spec fn padded_slice(src: Seq<u8>, offset: int, len: nat) -> Seq<u8> {
    Seq::new(
        len,
        |i: int|
            if offset + i < src.len() {
                src[offset + i]
            } else {
                0u8
            },
    )
}

/// Copies `len` bytes of `src`, from `src_offset` on, over those of `dst` from `dst_offset` on.
/// If `src` does not have that many, the rest is zeroed.
fn set_data(dst: &mut Vec<u8>, src: &[u8], dst_offset: usize, src_offset: usize, len: usize)
    requires
        dst_offset + len <= old(dst).len(),
    ensures
        final(dst)@ == be_word::splice(
            old(dst)@,
            dst_offset as int,
            padded_slice(src@, src_offset as int, len as nat),
        ),
{
    let ghost before = dst@;
    let ghost want = padded_slice(src@, src_offset as int, len as nat);
    if len == 0 {
        assert(dst@ =~= be_word::splice(before, dst_offset as int, want));
        return;
    }
    if src_offset >= src.len() {
        zero_bytes(dst, dst_offset, len);
        assert(want =~= be_word::zeros(len as nat));
        return;
    }
    let src_len: usize = if len < src.len() - src_offset {
        len
    } else {
        src.len() - src_offset
    };
    write_bytes(dst, dst_offset, slice_subrange(src, src_offset, src_offset + src_len));
    zero_bytes(dst, dst_offset + src_len, len - src_len);
    assert(dst@ =~= be_word::splice(before, dst_offset as int, want));
}

impl SharedMemory {
    /// A new, empty memory.
    pub fn new() -> (r: SharedMemory)
        ensures
            r@ == (MemoryState {
                buffer: Some(Seq::empty()),
                checkpoint: 0,
                child: None,
                limit: u64::MAX,
            }),
    {
        SharedMemory::with_capacity(4 * 1024)
    }

    /// A placeholder that may not be used as memory.
    pub fn invalid() -> (r: SharedMemory)
        ensures
            r@ == (MemoryState { buffer: None, checkpoint: 0, child: None, limit: 0 }),
    {
        SharedMemory { buffer: None, my_checkpoint: 0, child_checkpoint: None, memory_limit: 0 }
    }

    /// A memory over the given buffer.
    pub fn new_with_buffer(buffer: Vec<u8>) -> (r: SharedMemory)
        ensures
            r@ == (MemoryState {
                buffer: Some(buffer@),
                checkpoint: 0,
                child: None,
                limit: u64::MAX,
            }),
    {
        SharedMemory {
            buffer: Some(buffer),
            my_checkpoint: 0,
            child_checkpoint: None,
            memory_limit: u64::MAX,
        }
    }

    /// A new, empty memory that can grow to `capacity` bytes without moving.
    pub fn with_capacity(capacity: usize) -> (r: SharedMemory)
        ensures
            r@ == (MemoryState {
                buffer: Some(Seq::empty()),
                checkpoint: 0,
                child: None,
                limit: u64::MAX,
            }),
    {
        SharedMemory::new_with_buffer(Vec::with_capacity(capacity))
    }

    /// A new, empty memory with a limit on the length of its buffer.
    pub fn new_with_memory_limit(memory_limit: u64) -> (r: SharedMemory)
        ensures
            r@ == (MemoryState {
                buffer: Some(Seq::empty()),
                checkpoint: 0,
                child: None,
                limit: memory_limit,
            }),
    {
        let mut r = SharedMemory::new();
        r.memory_limit = memory_limit;
        r
    }

    /// Builds a memory from stored parts. They are rejected unless the checkpoints are in
    /// order and inside the buffer, or there is neither a buffer nor a checkpoint.
    pub fn try_from_parts(
        buffer: Option<Vec<u8>>,
        my_checkpoint: usize,
        child_checkpoint: Option<usize>,
        memory_limit: u64,
    ) -> (r: Result<SharedMemory, SharedMemoryError>)
        ensures
            match buffer {
                Some(b) => {
                    if my_checkpoint > b@.len() {
                        r == Err::<SharedMemory, _>(SharedMemoryError::Checkpoint)
                    } else if child_checkpoint is Some && (child_checkpoint->0 > b@.len()
                        || child_checkpoint->0 < my_checkpoint) {
                        r == Err::<SharedMemory, _>(SharedMemoryError::ChildCheckpoint)
                    } else {
                        r is Ok
                    }
                },
                None => {
                    if my_checkpoint != 0 || child_checkpoint is Some {
                        r == Err::<SharedMemory, _>(SharedMemoryError::NoBuffer)
                    } else {
                        r is Ok
                    }
                },
            },
            r matches Ok(m) ==> m@.wf() && m@ == (MemoryState {
                buffer: match buffer {
                    Some(b) => Some(b@),
                    None => None,
                },
                checkpoint: my_checkpoint as nat,
                child: match child_checkpoint {
                    Some(c) => Some(c as nat),
                    None => None,
                },
                limit: memory_limit,
            }),
    {
        match &buffer {
            Some(b) => {
                if my_checkpoint > b.len() {
                    return Err(SharedMemoryError::Checkpoint);
                }
                if let Some(c) = child_checkpoint {
                    if c > b.len() || c < my_checkpoint {
                        return Err(SharedMemoryError::ChildCheckpoint);
                    }
                }
            },
            None => {
                if my_checkpoint != 0 || child_checkpoint.is_some() {
                    return Err(SharedMemoryError::NoBuffer);
                }
            },
        }
        Ok(SharedMemory { buffer, my_checkpoint, child_checkpoint, memory_limit })
    }

    /// Sets the limit on the length of the buffer.
    pub fn set_memory_limit(&mut self, limit: u64)
        ensures
            final(self)@ == (MemoryState { limit, ..old(self)@ }),
    {
        self.memory_limit = limit;
    }

    /// The buffer of the whole call stack.
    fn buffer_ref(&self) -> (r: &Vec<u8>)
        requires
            self@.active(),
        ensures
            r@ == self@.buffer->0,
    {
        self.buffer.as_ref().unwrap()
    }

    /// The buffer of the whole call stack, for writing.
    fn buffer_ref_mut(&mut self) -> (r: &mut Vec<u8>)
        requires
            old(self)@.active(),
        ensures
            r@ == old(self)@.buffer->0,
            final(self)@ == old(self)@.with_buffer(final(r)@),
    {
        self.buffer.as_mut().unwrap()
    }

    /// Starts the context of a call: it gets the buffer, and its memory begins where the
    /// caller's ends.
    pub fn new_child_context(&mut self) -> (r: SharedMemory)
        requires
            old(self)@.wf(),
            old(self)@.active(),
            old(self)@.child is None,
        ensures
            r@ == old(self)@.child_context(),
            final(self)@ == old(self)@.lent(),
            r@.wf(),
            r@.size() == 0,
            final(self)@.wf(),
    {
        let new_checkpoint: usize = self.full_len();
        self.child_checkpoint = Some(new_checkpoint);
        let buffer = self.buffer.take();
        SharedMemory {
            buffer,
            my_checkpoint: new_checkpoint,
            child_checkpoint: None,
            memory_limit: self.memory_limit,
        }
    }

    /// Takes the buffer back from the context of a call that has ended.
    pub fn restore_buffer(&mut self, child: SharedMemory)
        requires
            old(self)@.wf(),
            !old(self)@.active(),
            child@.wf(),
            child@.active(),
            old(self)@.child == Some(child@.checkpoint),
        ensures
            final(self)@ == old(self)@.restored(child@),
            final(self)@.wf(),
    {
        self.buffer = child.buffer;
    }

    /// Ends the context of a call: the buffer is cut off where the child's memory began.
    /// Nothing happens if there is no child context.
    pub fn free_child_context(&mut self)
        requires
            old(self)@.wf(),
            old(self)@.child is Some ==> old(self)@.active(),
        ensures
            final(self)@.wf(),
            final(self)@ == old(self)@.freed(),
    {
        if let Some(child_checkpoint) = self.child_checkpoint {
            self.child_checkpoint = None;
            self.buffer_ref_mut().truncate(child_checkpoint);
        }
    }

    /// The length of this context's memory.
    pub fn len(&self) -> (r: usize)
        requires
            self@.wf(),
            self@.active(),
        ensures
            r == self@.size(),
    {
        self.full_len() - self.my_checkpoint
    }

    /// The length of the buffer.
    pub fn full_len(&self) -> (r: usize)
        requires
            self@.active(),
        ensures
            r == self@.buffer->0.len(),
    {
        self.buffer_ref().len()
    }

    /// Where this context's memory starts in the buffer.
    pub fn local_memory_offset(&self) -> (r: usize)
        ensures
            r == self@.checkpoint,
    {
        self.my_checkpoint
    }

    /// Whether this context's memory is empty.
    pub fn is_empty(&self) -> (r: bool)
        requires
            self@.wf(),
            self@.active(),
        ensures
            r == (self@.size() == 0),
    {
        self.len() == 0
    }

    /// Whether memory up to `offset + len` would take the buffer over its limit; the sum
    /// saturates.
    pub fn limit_reached(&self, offset: usize, len: usize) -> (r: bool)
        ensures
            r == self@.over_limit(offset as int, len as int),
    {
        self.my_checkpoint.saturating_add(offset).saturating_add(len) as u64 > self.memory_limit
    }

    /// Brings this context's memory to a size, zeroing what is new.
    pub fn resize(&mut self, new_size: usize)
        requires
            old(self)@.wf(),
            old(self)@.active(),
            old(self)@.child is None,
            old(self)@.checkpoint + new_size <= usize::MAX,
        ensures
            final(self)@ == old(self)@.with_size(new_size as int),
            final(self)@.wf(),
            final(self)@.size() == new_size,
    {
        let new_len: usize = self.my_checkpoint + new_size;
        let ghost before = self@.buffer->0;
        let buf = self.buffer_ref_mut();
        buf.resize(new_len, 0);
        assert(buf@ =~= resized(before, new_len as int)) by {
            if new_len > before.len() {
                assert forall|i: int| 0 <= i < before.len() implies buf@[i] == before[i] by {
                    assert(buf@.subrange(0, before.len() as int)[i] == before[i]);
                }
            }
        }
    }

    /// [`SharedMemory::resize`], for a caller that overwrites `wr_len` bytes from `wr_off` on
    /// before anything reads the memory.
    pub fn resize_written(&mut self, new_size: usize, wr_off: usize, wr_len: usize)
        requires
            old(self)@.wf(),
            old(self)@.active(),
            old(self)@.child is None,
            old(self)@.checkpoint + new_size <= usize::MAX,
            wr_off + wr_len <= new_size,
        ensures
            final(self)@ == old(self)@.with_size(new_size as int),
            final(self)@.wf(),
            final(self)@.size() == new_size,
    {
        self.resize(new_size);
    }

    /// `size` bytes of this context's memory from `offset` on.
    pub fn slice_len(&self, offset: usize, size: usize) -> (r: &[u8])
        requires
            self@.wf(),
            self@.active(),
            offset + size <= self@.size(),
        ensures
            r@ == self@.local().subrange(offset as int, offset + size),
    {
        self.slice_range(offset..offset + size)
    }

    /// A range of this context's memory.
    pub fn slice_range(&self, range: Range<usize>) -> (r: &[u8])
        requires
            self@.wf(),
            self@.active(),
            range.start <= range.end <= self@.size(),
        ensures
            r@ == self@.local().subrange(range.start as int, range.end as int),
    {
        let buffer = self.buffer_ref();
        let r = slice_subrange(
            buffer.as_slice(),
            range.start + self.my_checkpoint,
            range.end + self.my_checkpoint,
        );
        assert(r@ =~= self@.local().subrange(range.start as int, range.end as int));
        r
    }

    /// A range of the whole buffer.
    pub fn global_slice_range(&self, range: Range<usize>) -> (r: &[u8])
        requires
            self@.active(),
            range.start <= range.end <= self@.buffer->0.len(),
        ensures
            r@ == self@.buffer->0.subrange(range.start as int, range.end as int),
    {
        slice_subrange(self.buffer_ref().as_slice(), range.start, range.end)
    }

    /// `size` bytes of this context's memory from `offset` on, for writing.
    pub fn slice_mut(&mut self, offset: usize, size: usize) -> (r: &mut [u8])
        requires
            old(self)@.wf(),
            old(self)@.active(),
            offset + size <= old(self)@.size(),
        ensures
            r@ == old(self)@.local().subrange(offset as int, offset + size),
            final(r)@.len() == size ==> final(self)@ == old(self)@.written(
                offset as int,
                final(r)@,
            ),
    {
        let at: usize = self.my_checkpoint + offset;
        let buf = self.buffer_ref_mut();
        let (_, tail) = buf.as_mut_slice().split_at_mut(at);
        let (middle, _) = tail.split_at_mut(size);
        middle
    }

    /// The byte at an offset.
    pub fn get_byte(&self, offset: usize) -> (r: u8)
        requires
            self@.wf(),
            self@.active(),
            offset < self@.size(),
        ensures
            r == self@.local()[offset as int],
    {
        self.slice_len(offset, 1)[0]
    }

    /// The 32 bytes at an offset, as a hash.
    pub fn get_word(&self, offset: usize) -> (r: B256)
        requires
            self@.wf(),
            self@.active(),
            offset + 32 <= self@.size(),
        ensures
            r.word == u256::word(be::be_val(self@.local().subrange(offset as int, offset + 32))),
    {
        B256 { word: self.get_u256(offset) }
    }

    /// The word at an offset.
    pub fn get_u256(&self, offset: usize) -> (r: U256)
        requires
            self@.wf(),
            self@.active(),
            offset + 32 <= self@.size(),
        ensures
            r.val() == be::be_val(self@.local().subrange(offset as int, offset + 32)),
            r == u256::word(be::be_val(self@.local().subrange(offset as int, offset + 32))),
    {
        let slice = self.slice_len(offset, 32);
        let r = load_be_word(slice, 0);
        assert(slice@.subrange(0, 32) =~= slice@);
        r
    }

    /// Writes a byte.
    pub fn set_byte(&mut self, offset: usize, byte: u8)
        requires
            old(self)@.wf(),
            old(self)@.active(),
            offset < old(self)@.size(),
        ensures
            final(self)@ == old(self)@.written(offset as int, seq![byte]),
            final(self)@.wf(),
    {
        self.set(offset, &[byte]);
        assert([byte]@ =~= seq![byte]);
    }

    /// Writes a hash as its 32 bytes.
    pub fn set_word(&mut self, offset: usize, value: &B256)
        requires
            old(self)@.wf(),
            old(self)@.active(),
            offset + 32 <= old(self)@.size(),
        ensures
            final(self)@ == old(self)@.written(offset as int, be::be_bytes(value.word.val(), 32)),
            final(self)@.wf(),
    {
        self.set_u256(offset, value.word);
    }

    /// Writes a word as 32 big-endian bytes.
    pub fn set_u256(&mut self, offset: usize, value: U256)
        requires
            old(self)@.wf(),
            old(self)@.active(),
            offset + 32 <= old(self)@.size(),
        ensures
            final(self)@ == old(self)@.written(offset as int, be::be_bytes(value.val(), 32)),
            final(self)@.wf(),
    {
        let at: usize = self.my_checkpoint + offset;
        proof {
            be::lemma_be_bytes_len(value.val(), 32);
        }
        store_be_word(self.buffer_ref_mut(), at, &value);
    }

    /// Writes bytes. No bytes may be written anywhere, past the end as well.
    pub fn set(&mut self, offset: usize, value: &[u8])
        requires
            old(self)@.wf(),
            old(self)@.active(),
            value.len() == 0 || offset + value.len() <= old(self)@.size(),
        ensures
            value@.len() == 0 ==> final(self)@ == old(self)@,
            offset + value@.len() <= old(self)@.size() ==> final(self)@ == old(self)@.written(
                offset as int,
                value@,
            ),
            final(self)@.wf(),
    {
        if value.len() == 0 {
            proof {
                self@.lemma_nothing_written(offset as int, value@);
            }
            return;
        }
        let at: usize = self.my_checkpoint + offset;
        write_bytes(self.buffer_ref_mut(), at, value);
    }

    /// Writes `len` bytes of `data`, from `data_offset` on; what `data` does not have is
    /// zeroed. No bytes may be written anywhere.
    pub fn set_data(&mut self, memory_offset: usize, data_offset: usize, len: usize, data: &[u8])
        requires
            old(self)@.wf(),
            old(self)@.active(),
            len == 0 || memory_offset + len <= old(self)@.size(),
        ensures
            len == 0 ==> final(self)@ == old(self)@,
            memory_offset + len <= old(self)@.size() ==> final(self)@ == old(self)@.written(
                memory_offset as int,
                padded_slice(data@, data_offset as int, len as nat),
            ),
            final(self)@.wf(),
    {
        if len == 0 {
            proof {
                self@.lemma_nothing_written(
                    memory_offset as int,
                    padded_slice(data@, data_offset as int, 0),
                );
            }
            return;
        }
        let at: usize = self.my_checkpoint + memory_offset;
        self::set_data(self.buffer_ref_mut(), data, at, data_offset, len);
    }

    /// Writes `len` bytes of a range of the memory below this context, from `data_offset` on;
    /// what the range does not have is zeroed. An empty range may lie anywhere.
    pub fn global_to_local_set_data(
        &mut self,
        memory_offset: usize,
        data_offset: usize,
        len: usize,
        data_range: Range<usize>,
    )
        requires
            old(self)@.wf(),
            old(self)@.active(),
            len == 0 || memory_offset + len <= old(self)@.size(),
            data_range.start < data_range.end ==> data_range.end <= old(self)@.checkpoint,
        ensures
            len == 0 ==> final(self)@ == old(self)@,
            memory_offset + len <= old(self)@.size() ==> final(self)@ == old(self)@.written(
                memory_offset as int,
                padded_slice(
                    old(self)@.global(data_range.start as int, data_range.end as int),
                    data_offset as int,
                    len as nat,
                ),
            ),
            final(self)@.wf(),
    {
        let src: Vec<u8> = if data_range.start < data_range.end {
            vstd::slice::slice_to_vec(self.global_slice_range(data_range))
        } else {
            Vec::new()
        };
        self.set_data(memory_offset, data_offset, len, src.as_slice());
    }

    /// Copies bytes within this context's memory; the two ranges may overlap.
    pub fn copy(&mut self, dst: usize, src: usize, len: usize)
        requires
            old(self)@.wf(),
            old(self)@.active(),
            dst + len <= old(self)@.size(),
            src + len <= old(self)@.size(),
        ensures
            final(self)@ == old(self)@.written(
                dst as int,
                old(self)@.local().subrange(src as int, src + len),
            ),
            final(self)@.wf(),
    {
        let data = vstd::slice::slice_to_vec(self.slice_len(src, len));
        self.set(dst, data.as_slice());
    }

    /// The memory of this context.
    pub fn context_memory(&self) -> (r: &[u8])
        requires
            self@.wf(),
            self@.active(),
        ensures
            r@ == self@.local(),
    {
        let buffer = self.buffer_ref();
        slice_subrange(buffer.as_slice(), self.my_checkpoint, buffer.len())
    }

    /// The memory of this context, for writing.
    pub fn context_memory_mut(&mut self) -> (r: &mut [u8])
        requires
            old(self)@.wf(),
            old(self)@.active(),
        ensures
            r@ == old(self)@.local(),
            final(self)@ == old(self)@.with_buffer(
                old(self)@.buffer->0.subrange(0, old(self)@.checkpoint as int) + final(r)@,
            ),
    {
        let at: usize = self.my_checkpoint;
        let buf = self.buffer_ref_mut();
        let (_, tail) = buf.as_mut_slice().split_at_mut(at);
        tail
    }
}

impl MemoryTr for SharedMemory {
    open spec fn resizes_to(&self, new_size: int) -> bool {
        true
    }

    fn set_data(&mut self, memory_offset: usize, data_offset: usize, len: usize, data: &[u8]) {
        SharedMemory::set_data(self, memory_offset, data_offset, len, data)
    }

    fn set_data_from_global(
        &mut self,
        memory_offset: usize,
        data_offset: usize,
        len: usize,
        data_range: Range<usize>,
    ) {
        self.global_to_local_set_data(memory_offset, data_offset, len, data_range)
    }

    fn global_slice(&self, range: Range<usize>) -> (r: &[u8]) {
        self.global_slice_range(range)
    }

    fn local_memory_offset(&self) -> (r: usize) {
        SharedMemory::local_memory_offset(self)
    }

    fn set(&mut self, memory_offset: usize, data: &[u8]) {
        SharedMemory::set(self, memory_offset, data)
    }

    fn size(&self) -> (r: usize) {
        self.len()
    }

    fn copy(&mut self, destination: usize, source: usize, len: usize) {
        SharedMemory::copy(self, destination, source, len)
    }

    fn slice(&self, range: Range<usize>) -> (r: &[u8]) {
        self.slice_range(range)
    }

    fn get_u256(&self, offset: usize) -> (r: U256) {
        SharedMemory::get_u256(self, offset)
    }

    fn set_u256(&mut self, offset: usize, value: U256) {
        SharedMemory::set_u256(self, offset, value)
    }

    fn resize(&mut self, new_size: usize) -> (r: bool) {
        SharedMemory::resize(self, new_size);
        true
    }

    fn resize_written(&mut self, new_size: usize, wr_off: usize, wr_len: usize) -> (r: bool) {
        SharedMemory::resize_written(self, new_size, wr_off, wr_len);
        true
    }

    fn limit_reached(&self, offset: usize, len: usize) -> (r: bool) {
        SharedMemory::limit_reached(self, offset, len)
    }
}

impl MemoryState {
    /// Whether memory up to `offset + len` would take the buffer over its limit.
    pub open spec fn over_limit(self, offset: int, len: int) -> bool {
        let end = self.checkpoint + offset + len;
        (if end <= usize::MAX {
            end
        } else {
            usize::MAX as int
        }) > self.limit
    }

    /// A range of the whole buffer; an inverted or empty range has no bytes.
    pub open spec fn global(self, start: int, end: int) -> Seq<u8> {
        if start < end {
            self.buffer->0.subrange(start, end)
        } else {
            Seq::empty()
        }
    }
}

/// The sum of two sizes, or the largest size.
pub open spec fn saturating_sum(a: int, b: int) -> int {
    if a + b <= usize::MAX {
        a + b
    } else {
        usize::MAX as int
    }
}

/// Growing memory to a number of words: whether the gas pays for it, and the gas and the
/// memory after it. A growth that is not paid for has been counted all the same, unless it is
/// larger than any that can be.
pub open spec fn grown(gas: GasState, memory: MemoryState, words: int) -> (
    bool,
    GasState,
    MemoryState,
) {
    if words > u32::MAX {
        (false, gas, memory)
    } else {
        let cost = crate::gas::calc::memory_cost(words) - crate::gas::calc::memory_cost(gas.words as int);
        let counted = GasState { words: words as nat, ..gas };
        if cost <= gas.remaining {
            (
                true,
                counted.with_remaining((gas.remaining - cost) as u64),
                memory.with_size(words * 32),
            )
        } else {
            (false, counted, memory)
        }
    }
}

/// Making room for `len` bytes from `offset` on.
pub open spec fn expanded(gas: GasState, memory: MemoryState, offset: int, len: int) -> (
    bool,
    GasState,
    MemoryState,
) {
    let words = spec_num_words(saturating_sum(offset, len));
    if words > gas.words {
        grown(gas, memory, words)
    } else {
        (true, gas, memory)
    }
}

/// The address space has room, behind a checkpoint, for every memory that costs no more than
/// `gas`, and for a word more.
#[verifier::opaque]
pub open spec fn room_for(checkpoint: nat, gas: int) -> bool {
    forall|words: int|
        0 <= words <= u32::MAX && #[trigger] crate::gas::calc::memory_cost(words) <= gas
            ==> checkpoint + 32 * words + 32 <= usize::MAX
}

/// The address space has room for every memory that the gas can pay for: for the largest memory
/// of a frame, or for what the limit of the gas pays for where no more than the limit is there.
pub open spec fn has_space(gas: GasState, memory: MemoryState) -> bool {
    ||| memory.has_room()
    ||| gas.remaining + crate::gas::calc::memory_cost(gas.words as int) <= gas.limit
        && room_for(memory.checkpoint, gas.limit as int)
}

/// There is room for what a small amount of gas pays for: a word costs at least three.
pub proof fn lemma_room_for(checkpoint: nat, gas: int)
    requires
        0 <= gas,
        checkpoint + 11 * gas + 32 <= usize::MAX,
    ensures
        room_for(checkpoint, gas),
{
    reveal(room_for);
    assert forall|words: int|
        0 <= words <= u32::MAX && #[trigger] crate::gas::calc::memory_cost(words)
            <= gas implies checkpoint + 32 * words + 32 <= usize::MAX by {
        assert(words * words / 512 >= 0) by (nonlinear_arith)
            requires
                0 <= words,
        ;
    }
}

/// The memory can be grown: this context has the buffer and no child, and its size is what was
/// paid for.
pub open spec fn growable(gas: GasState, memory: MemoryState) -> bool {
    &&& memory.wf()
    &&& memory.active()
    &&& memory.child is None
    &&& has_space(gas, memory)
    &&& gas.words <= u32::MAX
    &&& memory.size() == 32 * gas.words
    &&& gas.remaining <= i64::MAX
}

/// Charges for the growth to `new_num_words` words and grows the memory.
fn resize_memory_cold(gas: &mut Gas, memory: &mut SharedMemory, new_num_words: usize) -> (r: bool)
    requires
        growable(old(gas)@, old(memory)@),
        new_num_words > old(gas)@.words,
        new_num_words <= usize::MAX / 32,
    ensures
        (r, final(gas)@, final(memory)@) == grown(
            old(gas)@,
            old(memory)@,
            new_num_words as int,
        ),
        r ==> growable(final(gas)@, final(memory)@),
        final(memory)@.wf(),
        final(gas)@.words <= u32::MAX,
        r ==> final(gas)@.remaining <= old(gas)@.remaining,
{
    reveal(room_for);
    let cost: u64 = gas.memory_mut().record_new_len(new_num_words).unwrap();
    if !gas.record_cost(cost) {
        return false;
    }
    memory.resize(new_num_words * 32);
    true
}

/// Makes room for `len` bytes from `offset` on, if the gas pays for it.
pub fn resize_memory(gas: &mut Gas, memory: &mut SharedMemory, offset: usize, len: usize) -> (r:
    bool)
    requires
        growable(old(gas)@, old(memory)@),
    ensures
        (r, final(gas)@, final(memory)@) == expanded(
            old(gas)@,
            old(memory)@,
            offset as int,
            len as int,
        ),
        r ==> growable(final(gas)@, final(memory)@),
        r ==> offset + len <= final(memory)@.size(),
        final(memory)@.wf(),
        final(gas)@.words <= u32::MAX,
        r ==> final(gas)@.remaining <= old(gas)@.remaining,
{
    reveal(room_for);
    let new_num_words: usize = num_words(offset.saturating_add(len));
    if new_num_words > gas.memory().words_num() {
        resize_memory_cold(gas, memory, new_num_words)
    } else {
        true
    }
}

/// [`resize_memory`], for a caller that overwrites the `len` bytes from `offset` on before
/// anything reads the memory.
pub fn resize_memory_written(
    gas: &mut Gas,
    memory: &mut SharedMemory,
    offset: usize,
    len: usize,
) -> (r: bool)
    requires
        growable(old(gas)@, old(memory)@),
    ensures
        (r, final(gas)@, final(memory)@) == expanded(
            old(gas)@,
            old(memory)@,
            offset as int,
            len as int,
        ),
        r ==> growable(final(gas)@, final(memory)@),
        final(memory)@.wf(),
        final(gas)@.words <= u32::MAX,
        r ==> final(gas)@.remaining <= old(gas)@.remaining,
{
    reveal(room_for);
    let new_num_words: usize = num_words(offset.saturating_add(len));
    if new_num_words <= gas.memory().words_num() {
        return true;
    }
    let cost: u64 = gas.memory_mut().record_new_len(new_num_words).unwrap();
    if !gas.record_cost(cost) {
        return false;
    }
    memory.resize_written(new_num_words * 32, offset, len);
    true
}

/// Grows the memory to hold the word at an offset that it does not hold yet, if the gas pays
/// for it.
pub fn grow_memory_word(gas: &mut Gas, memory: &mut SharedMemory, offset: usize) -> (r: bool)
    requires
        growable(old(gas)@, old(memory)@),
        offset >= gas::limit_of_words(old(gas)@.words),
    ensures
        (r, final(gas)@, final(memory)@) == expanded(
            old(gas)@,
            old(memory)@,
            offset as int,
            32,
        ),
        (r, final(gas)@, final(memory)@) == grown(
            old(gas)@,
            old(memory)@,
            spec_num_words(saturating_sum(offset as int, 32)),
        ),
        r ==> growable(final(gas)@, final(memory)@) && offset + 32 <= final(memory)@.size(),
        final(memory)@.wf(),
        final(gas)@.words <= u32::MAX,
        r ==> final(gas)@.remaining <= old(gas)@.remaining,
{
    reveal(room_for);
    let new_num_words: usize = num_words(offset.saturating_add(32));
    resize_memory_cold(gas, memory, new_num_words)
}

/// [`grow_memory_word`], for a caller that overwrites the word before anything reads the
/// memory.
pub fn grow_memory_word_written(gas: &mut Gas, memory: &mut SharedMemory, offset: usize) -> (r:
    bool)
    requires
        growable(old(gas)@, old(memory)@),
        offset >= gas::limit_of_words(old(gas)@.words),
    ensures
        (r, final(gas)@, final(memory)@) == expanded(
            old(gas)@,
            old(memory)@,
            offset as int,
            32,
        ),
        r ==> growable(final(gas)@, final(memory)@) && offset + 32 <= final(memory)@.size(),
        final(memory)@.wf(),
        final(gas)@.words <= u32::MAX,
        r ==> final(gas)@.remaining <= old(gas)@.remaining,
{
    reveal(room_for);
    resize_memory_written(gas, memory, offset, 32)
}

} // verus!
