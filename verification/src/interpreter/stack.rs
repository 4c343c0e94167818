//! The stack of words, and the cursor by which the dispatch loop carries its length.

use crate::interpreter::be_word::be_number;
use crate::interpreter::instruction_result::InstructionResult;
use crate::interpreter::interpreter_types::StackTr;
use crate::primitives::address;
use crate::primitives::be;
use crate::primitives::u256;
use crate::primitives::{Address, B256, U256};
use vstd::prelude::*;
use vstd::slice::{slice_subrange, slice_to_vec};

verus! {

/// The most words on the stack.
pub const STACK_LIMIT: usize = 1024;

/// The size of a word in bytes.
pub const WORD: usize = 32;

/// The largest length of the stack in bytes.
pub const BYTE_LIMIT: usize = 32768;

/// The cursor of an empty stack: one word below zero, wrapped around.
pub open spec fn empty_cursor() -> usize {
    (usize::MAX - 31) as usize
}

/// Whether `sp` is the cursor of a stack: the offset in bytes of its topmost word, or one word
/// below zero for an empty stack.
pub open spec fn live(sp: usize) -> bool {
    sp == empty_cursor() || (sp % 32 == 0 && sp <= BYTE_LIMIT - WORD)
}

/// How many words are on a stack with the cursor `sp`.
pub open spec fn depth_of(sp: usize) -> nat {
    if sp == empty_cursor() {
        0
    } else {
        (sp / 32 + 1) as nat
    }
}

/// The cursor of a stack of `depth` words.
pub open spec fn cursor_of(depth: nat) -> usize {
    if depth == 0 {
        empty_cursor()
    } else {
        (depth * 32 - 32) as usize
    }
}

/// Whether a cursor leaves no room for one more word: a word added to it, wrapping around,
/// comes to the limit or past it. Most numbers that are no cursor at all count as full.
pub open spec fn full(sp: usize) -> bool {
    (if sp + WORD > usize::MAX {
        sp + WORD - usize::MAX - 1
    } else {
        sp + WORD
    }) >= BYTE_LIMIT
}

/// A stack without its topmost `n` words.
pub open spec fn dropped(s: Seq<U256>, n: int) -> Seq<U256> {
    s.subrange(0, s.len() - n)
}

/// The word `depth` places below the top.
pub open spec fn nth(s: Seq<U256>, depth: int) -> U256 {
    s[s.len() - 1 - depth]
}

/// A stack in which two words, counted from the top, have changed places.
pub open spec fn exchanged(s: Seq<U256>, a: int, b: int) -> Seq<U256> {
    s.update(s.len() - 1 - a, nth(s, b)).update(s.len() - 1 - b, nth(s, a))
}

/// The largest cursor, as a signed number, of a stack of fewer than `n` words.
pub fn too_shallow_for(n: usize) -> (r: isize)
    requires
        n <= STACK_LIMIT,
    ensures
        r == (n - 2) * WORD,
{
    (n as isize - 2) * 32
}

/// A cursor as a signed number: the cursor of an empty stack is one word below zero.
pub open spec fn spec_signed(sp: usize) -> int {
    if sp <= isize::MAX {
        sp as int
    } else {
        sp - usize::MAX - 1
    }
}

/// A cursor as a signed number.
pub fn signed(sp: usize) -> (r: isize)
    ensures
        r == spec_signed(sp),
{
    if sp <= isize::MAX as usize {
        sp as isize
    } else {
        -((usize::MAX - sp) as isize) - 1
    }
}

/// Whether a stack has fewer than `n` words.
pub fn too_shallow(sp: usize, n: usize) -> (r: bool)
    requires
        live(sp),
        n <= STACK_LIMIT,
    ensures
        r == (depth_of(sp) < n),
{
    self::signed(sp) <= too_shallow_for(n)
}

/// Whether the stack has no room for one more word.
pub fn no_room_to_push(sp: usize) -> (r: bool)
    ensures
        r == full(sp),
        live(sp) ==> r == (depth_of(sp) == STACK_LIMIT),
{
    sp.wrapping_add(WORD) >= BYTE_LIMIT
}

/// The stack of the machine: at most [`STACK_LIMIT`] words, in a buffer of that size. Its
/// length is kept in bytes.
#[derive(Debug)]
pub struct Stack {
    byte_len: usize,
    buf: Vec<U256>,
}

impl View for Stack {
    type V = Seq<U256>;

    closed spec fn view(&self) -> Seq<U256> {
        self.buf@.subrange(0, (self.byte_len / 32) as int)
    }
}

impl Clone for Stack {
    fn clone(&self) -> (r: Stack)
        ensures
            r@ == self@,
            r.wf() == self.wf(),
    {
        let r = Stack { byte_len: self.byte_len, buf: self.buf.clone() };
        assert(r.buf@ =~= self.buf@);
        r
    }
}

impl Default for Stack {
    fn default() -> (r: Stack)
        ensures
            r@ == Seq::<U256>::empty(),
            r.wf(),
    {
        Stack::new()
    }
}

/// The words that a slice of bytes spells: 32 bytes each, in order; a last word of fewer bytes
/// is the number that they spell.
pub open spec fn slice_words(bytes: Seq<u8>) -> Seq<U256> {
    Seq::new(
        ((bytes.len() + 31) / 32) as nat,
        |i: int|
            u256::word(
                be::be_val(
                    bytes.subrange(
                        32 * i,
                        if 32 * i + 32 <= bytes.len() {
                            32 * i + 32
                        } else {
                            bytes.len() as int
                        },
                    ),
                ),
            ),
    )
}

impl Stack {
    /// The buffer has its full size and the length is a whole number of words.
    pub closed spec fn wf(&self) -> bool {
        &&& self.buf@.len() == STACK_LIMIT
        &&& self.byte_len % 32 == 0
        &&& self.byte_len <= BYTE_LIMIT
    }

    /// The words that a cursor takes in, whatever the stored length is.
    pub closed spec fn words_at(&self, sp: usize) -> Seq<U256> {
        self.buf@.subrange(0, depth_of(sp) as int)
    }

    /// An empty stack.
    pub fn new() -> (r: Stack)
        ensures
            r@ == Seq::<U256>::empty(),
            r.wf(),
    {
        let mut buf: Vec<U256> = Vec::new();
        buf.resize(STACK_LIMIT, U256::zero());
        let r = Stack { byte_len: 0, buf };
        assert(r@ =~= Seq::<U256>::empty());
        r
    }

    /// A placeholder.
    pub fn invalid() -> (r: Stack)
        ensures
            r@ == Seq::<U256>::empty(),
            r.wf(),
    {
        Stack::new()
    }

    /// Whether the buffer can be used. It always can.
    pub fn is_allocated(&self) -> (r: bool)
        ensures
            r,
    {
        true
    }

    /// The number of words.
    pub fn len(&self) -> (r: usize)
        requires
            self.wf(),
        ensures
            r == self@.len(),
            r <= STACK_LIMIT,
    {
        self.byte_len / WORD
    }

    /// Whether there is no word.
    pub fn is_empty(&self) -> (r: bool)
        requires
            self.wf(),
        ensures
            r == (self@.len() == 0),
    {
        self.byte_len == 0
    }

    /// The words, the topmost one last.
    pub fn data(&self) -> (r: &[U256])
        requires
            self.wf(),
        ensures
            r@ == self@,
    {
        slice_subrange(self.buf.as_slice(), 0, self.byte_len / WORD)
    }

    /// The words, for writing.
    pub fn data_mut(&mut self) -> (r: &mut [U256])
        requires
            old(self).wf(),
        ensures
            r@ == old(self)@,
            final(r)@.len() == r@.len() ==> final(self)@ == final(r)@ && final(self).wf(),
    {
        let n: usize = self.byte_len / WORD;
        let (head, _) = self.buf.as_mut_slice().split_at_mut(n);
        head
    }

    /// The words as a value of their own.
    pub fn into_data(self) -> (r: Vec<U256>)
        requires
            self.wf(),
        ensures
            r@ == self@,
    {
        let mut buf = self.buf;
        buf.truncate(self.byte_len / WORD);
        buf
    }

    /// Removes all words.
    pub fn clear(&mut self)
        requires
            old(self).wf(),
        ensures
            final(self)@ == Seq::<U256>::empty(),
            final(self).wf(),
    {
        self.byte_len = 0;
        assert(self@ =~= Seq::<U256>::empty());
    }

    /// Builds a stack from stored words. More than [`STACK_LIMIT`] of them are rejected.
    pub fn try_from_data(data: &[U256]) -> (r: Option<Stack>)
        ensures
            r is Some <==> data@.len() <= STACK_LIMIT,
            r matches Some(s) ==> s@ == data@ && s.wf(),
    {
        if data.len() > STACK_LIMIT {
            return None;
        }
        let mut buf: Vec<U256> = slice_to_vec(data);
        let n: usize = buf.len();
        let ghost before = buf@;
        buf.resize(STACK_LIMIT, U256::zero());
        let r = Stack { byte_len: n * WORD, buf };
        assert(before =~= data@);
        assert(r@ =~= data@);
        Some(r)
    }

    // The cursor and the operations on it.

    /// The cursor.
    pub fn sp(&self) -> (r: usize)
        requires
            self.wf(),
        ensures
            live(r),
            r == cursor_of(self@.len()),
            depth_of(r) == self@.len(),
            self.words_at(r) == self@,
    {
        self.byte_len.wrapping_sub(WORD)
    }

    /// Stores a cursor, so that the words it takes in are the words of the stack.
    pub fn set_sp(&mut self, sp: usize)
        requires
            old(self).wf(),
            live(sp),
        ensures
            final(self).wf(),
            final(self)@ == old(self).words_at(sp),
            final(self).words_at(sp) == old(self).words_at(sp),
    {
        self.byte_len = sp.wrapping_add(WORD);
    }

    /// A cursor takes in as many words as its depth says.
    pub proof fn lemma_words_at_len(&self, sp: usize)
        requires
            self.wf(),
            live(sp),
        ensures
            self.words_at(sp).len() == depth_of(sp),
    {
    }

    /// Whether there are fewer than `n` words.
    pub fn shallow_at(&self, sp: usize, n: usize) -> (r: bool)
        requires
            self.wf(),
            live(sp),
            n <= STACK_LIMIT,
        ensures
            self.words_at(sp).len() == depth_of(sp),
            r == (self.words_at(sp).len() < n),
    {
        too_shallow(sp, n)
    }

    /// Whether there is no room for one more word.
    pub fn full_at(&self, sp: usize) -> (r: bool)
        requires
            self.wf(),
            live(sp),
        ensures
            self.words_at(sp).len() == depth_of(sp),
            r == (self.words_at(sp).len() >= STACK_LIMIT),
    {
        no_room_to_push(sp)
    }

    /// The word `depth` places below the top.
    pub fn peek_at(&self, sp: usize, depth: usize) -> (r: U256)
        requires
            self.wf(),
            live(sp),
            depth < depth_of(sp),
        ensures
            self.words_at(sp).len() == depth_of(sp),
            r == nth(self.words_at(sp), depth as int),
    {
        self.buf[sp / WORD - depth]
    }

    /// The topmost word, for writing.
    pub fn top_at(&mut self, sp: usize) -> (r: &mut U256)
        requires
            old(self).wf(),
            live(sp),
            0 < depth_of(sp),
        ensures
            old(self).words_at(sp).len() == depth_of(sp),
            *r == nth(old(self).words_at(sp), 0),
            final(self).wf(),
            final(self).words_at(sp) == dropped(old(self).words_at(sp), 1).push(*final(r)),
    {
        let i: usize = sp / WORD;
        proof {
            lemma_update_top(self.buf@, i as int);
        }
        &mut self.buf[i]
    }

    /// Pops `n` words and pushes one in their place. Hands back the new cursor.
    pub fn replace_at(&mut self, sp: usize, n: usize, value: U256) -> (r: usize)
        requires
            old(self).wf(),
            live(sp),
            0 < n <= depth_of(sp),
        ensures
            old(self).words_at(sp).len() == depth_of(sp),
            final(self).wf(),
            live(r),
            depth_of(r) == depth_of(sp) - n + 1,
            final(self).words_at(r) == dropped(old(self).words_at(sp), n as int).push(value),
    {
        let i: usize = sp / WORD + 1 - n;
        let ghost before = self.buf@;
        self.buf.set(i, value);
        let r: usize = sp.wrapping_sub((n - 1) * WORD);
        assert(r == i * 32);
        assert(self.words_at(r) =~= dropped(old(self).words_at(sp), n as int).push(value));
        r
    }

    /// The cursor after `n` words are popped.
    pub fn drop_at(&self, sp: usize, n: usize) -> (r: usize)
        requires
            self.wf(),
            live(sp),
            n <= depth_of(sp),
        ensures
            live(r),
            depth_of(r) == depth_of(sp) - n,
            self.words_at(sp).len() == depth_of(sp),
            self.words_at(r) == dropped(self.words_at(sp), n as int),
    {
        let r: usize = sp.wrapping_sub(n * WORD);
        assert(self.words_at(r) =~= dropped(self.words_at(sp), n as int));
        r
    }

    /// Pushes a word. The new cursor is one word further.
    pub fn push_at(&mut self, sp: usize, value: U256)
        requires
            old(self).wf(),
            live(sp),
            depth_of(sp) < STACK_LIMIT,
        ensures
            final(self).wf(),
            ({
                let r = cursor_of((depth_of(sp) + 1) as nat);
                &&& live(r)
                &&& depth_of(r) == depth_of(sp) + 1
                &&& r == sp.wrapping_add(WORD)
                &&& final(self).words_at(r) == old(self).words_at(sp).push(value)
            }),
    {
        let i: usize = sp.wrapping_add(WORD) / WORD;
        self.buf.set(i, value);
        assert(self.words_at(cursor_of((depth_of(sp) + 1) as nat)) =~= old(self).words_at(
            sp,
        ).push(value));
    }

    /// Pushes a copy of the `n`-th word from the top, counted from one.
    pub fn dup_at(&mut self, sp: usize, n: usize)
        requires
            old(self).wf(),
            live(sp),
            depth_of(sp) < STACK_LIMIT,
            0 < n <= depth_of(sp),
        ensures
            final(self).wf(),
            ({
                let r = cursor_of((depth_of(sp) + 1) as nat);
                &&& live(r)
                &&& depth_of(r) == depth_of(sp) + 1
                &&& r == sp.wrapping_add(WORD)
                &&& old(self).words_at(sp).len() == depth_of(sp)
                &&& final(self).words_at(r) == old(self).words_at(sp).push(
                    nth(old(self).words_at(sp), n - 1),
                )
            }),
    {
        let value = self.peek_at(sp, n - 1);
        self.push_at(sp, value);
    }

    /// Exchanges the `n`-th and the `n + m`-th word from the top, counted from zero.
    pub fn exchange_at(&mut self, sp: usize, n: usize, m: usize)
        requires
            old(self).wf(),
            live(sp),
            0 < m,
            n + m < depth_of(sp),
        ensures
            final(self).wf(),
            old(self).words_at(sp).len() == depth_of(sp),
            final(self).words_at(sp) == exchanged(old(self).words_at(sp), n as int, n + m),
    {
        let top: usize = sp / WORD;
        let a = self.buf[top - n];
        let b = self.buf[top - (n + m)];
        self.buf.set(top - n, b);
        self.buf.set(top - (n + m), a);
        assert(self.words_at(sp) =~= exchanged(old(self).words_at(sp), n as int, n + m));
    }

    /// Pushes the number that up to 32 big-endian bytes spell.
    pub fn push_slice_const_at(&mut self, sp: usize, src: &[u8])
        requires
            old(self).wf(),
            live(sp),
            depth_of(sp) < STACK_LIMIT,
            src@.len() <= 32,
        ensures
            final(self).wf(),
            ({
                let r = cursor_of((depth_of(sp) + 1) as nat);
                &&& live(r)
                &&& depth_of(r) == depth_of(sp) + 1
                &&& r == sp.wrapping_add(WORD)
                &&& final(self).words_at(r) == old(self).words_at(sp).push(
                    u256::word(be::be_val(src@)),
                )
            }),
    {
        let value = be_number(src);
        proof {
            u256::lemma_word_of_val(value);
        }
        self.push_at(sp, value);
    }

    // The operations on the stored length.

    /// Removes the topmost word.
    pub fn pop(&mut self) -> (r: Result<U256, InstructionResult>)
        requires
            old(self).wf(),
        ensures
            final(self).wf(),
            match r {
                Ok(w) => old(self)@.len() > 0 && w == nth(old(self)@, 0) && final(self)@
                    == dropped(old(self)@, 1),
                Err(e) => old(self)@.len() == 0 && e == InstructionResult::StackUnderflow
                    && final(self)@ == old(self)@,
            },
    {
        if self.byte_len == 0 {
            return Err(InstructionResult::StackUnderflow);
        }
        Ok(self.pop_unsafe())
    }

    /// Removes the topmost word of a stack that has one.
    pub fn pop_unsafe(&mut self) -> (r: U256)
        requires
            old(self).wf(),
            old(self)@.len() > 0,
        ensures
            final(self).wf(),
            r == nth(old(self)@, 0),
            final(self)@ == dropped(old(self)@, 1),
    {
        self.byte_len = self.byte_len - WORD;
        assert(self@ =~= dropped(old(self)@, 1));
        self.buf[self.byte_len / WORD]
    }

    /// The topmost word of a stack that has one, for writing.
    pub fn top_unsafe(&mut self) -> (r: &mut U256)
        requires
            old(self).wf(),
            old(self)@.len() > 0,
        ensures
            *r == nth(old(self)@, 0),
            final(self).wf(),
            final(self)@ == dropped(old(self)@, 1).push(*final(r)),
    {
        let i: usize = self.byte_len / WORD - 1;
        proof {
            lemma_update_top(self.buf@, i as int);
        }
        &mut self.buf[i]
    }

    /// Removes the topmost `n` words of a stack that has them; the first of the result was the
    /// topmost.
    pub fn popn_unsafe(&mut self, n: usize) -> (r: Vec<U256>)
        requires
            old(self).wf(),
            n <= old(self)@.len(),
        ensures
            final(self).wf(),
            r@ == Seq::new(n as nat, |i: int| nth(old(self)@, i)),
            final(self)@ == dropped(old(self)@, n as int),
    {
        let sp: usize = self.sp();
        let mut out: Vec<U256> = Vec::new();
        let mut i: usize = 0;
        while i < n
            invariant
                i <= n,
                self.wf(),
                *self == *old(self),
                live(sp),
                depth_of(sp) == self@.len(),
                self.words_at(sp) == self@,
                n <= self@.len(),
                out@.len() == i,
                forall|j: int| 0 <= j < i ==> out@[j] == nth(self@, j),
            decreases n - i,
        {
            out.push(self.peek_at(sp, i));
            i = i + 1;
        }
        self.byte_len = self.byte_len - n * WORD;
        assert(self@ =~= dropped(old(self)@, n as int));
        assert(out@ =~= Seq::new(n as nat, |i: int| nth(old(self)@, i)));
        out
    }

    /// Removes the topmost `n` words, if there are that many.
    pub fn popn(&mut self, n: usize) -> (r: Option<Vec<U256>>)
        requires
            old(self).wf(),
        ensures
            final(self).wf(),
            match r {
                Some(v) => n <= old(self)@.len() && v@ == Seq::new(
                    n as nat,
                    |i: int| nth(old(self)@, i),
                ) && final(self)@ == dropped(old(self)@, n as int),
                None => old(self)@.len() < n && final(self)@ == old(self)@,
            },
    {
        if self.len() < n {
            return None;
        }
        Some(self.popn_unsafe(n))
    }

    /// Removes the topmost `n` words of a stack that has them.
    pub fn popn_discard(&mut self, n: usize)
        requires
            old(self).wf(),
            n <= old(self)@.len(),
        ensures
            final(self).wf(),
            final(self)@ == dropped(old(self)@, n as int),
    {
        self.byte_len = self.byte_len - n * WORD;
        assert(self@ =~= dropped(old(self)@, n as int));
    }

    /// Removes the topmost `n` words and hands them back with the word that is then on top, for
    /// writing, if there are that many words and one more.
    pub fn popn_top(&mut self, n: usize) -> (r: Option<(Vec<U256>, &mut U256)>)
        requires
            old(self).wf(),
        ensures
            final(self).wf(),
            match r {
                Some((words, top)) => n < old(self)@.len() && words@ == Seq::new(
                    n as nat,
                    |i: int| nth(old(self)@, i),
                ) && *top == nth(old(self)@, n as int) && final(self)@ == dropped(
                    old(self)@,
                    n + 1,
                ).push(*final(top)),
                None => old(self)@.len() <= n && final(self)@ == old(self)@,
            },
    {
        if self.len() <= n {
            return None;
        }
        let ghost before = self@;
        let words = self.popn_unsafe(n);
        assert(dropped(self@, 1) =~= dropped(before, n + 1));
        Some((words, self.top_unsafe()))
    }

    /// Removes the topmost word and takes the address in its low 20 bytes.
    pub fn pop_address(&mut self) -> (r: Option<Address>)
        requires
            old(self).wf(),
        ensures
            final(self).wf(),
            match r {
                Some(a) => old(self)@.len() > 0 && a == address::address_of(nth(old(self)@, 0))
                    && final(self)@ == dropped(old(self)@, 1),
                None => old(self)@.len() == 0 && final(self)@ == old(self)@,
            },
    {
        match self.pop() {
            Ok(w) => Some(Address::from_word(w)),
            Err(_) => None,
        }
    }

    /// Pushes a word, if there is room.
    pub fn push(&mut self, value: U256) -> (r: bool)
        requires
            old(self).wf(),
        ensures
            final(self).wf(),
            r == (old(self)@.len() < STACK_LIMIT),
            final(self)@ == (if r {
                old(self)@.push(value)
            } else {
                old(self)@
            }),
    {
        let sp: usize = self.sp();
        if self.byte_len == BYTE_LIMIT {
            return false;
        }
        self.push_at(sp, value);
        self.set_sp(sp.wrapping_add(WORD));
        true
    }

    /// Pushes a hash as a word, if there is room.
    pub fn push_b256(&mut self, value: B256) -> (r: bool)
        requires
            old(self).wf(),
        ensures
            final(self).wf(),
            r == (old(self)@.len() < STACK_LIMIT),
            final(self)@ == (if r {
                old(self)@.push(value.word)
            } else {
                old(self)@
            }),
    {
        self.push(value.into_u256())
    }

    /// The word `no_from_top` places below the top.
    pub fn peek(&self, no_from_top: usize) -> (r: Result<U256, InstructionResult>)
        requires
            self.wf(),
        ensures
            r == (if no_from_top < self@.len() {
                Ok::<U256, InstructionResult>(nth(self@, no_from_top as int))
            } else {
                Err(InstructionResult::StackUnderflow)
            }),
    {
        let data = self.data();
        if data.len() > no_from_top {
            Ok(data[data.len() - no_from_top - 1])
        } else {
            Err(InstructionResult::StackUnderflow)
        }
    }

    /// Pushes a copy of the `n`-th word from the top, counted from one, if there is such a
    /// word and room for one more.
    pub fn dup(&mut self, n: usize) -> (r: bool)
        requires
            old(self).wf(),
            n > 0,
        ensures
            final(self).wf(),
            r == (n <= old(self)@.len() < STACK_LIMIT),
            final(self)@ == (if r {
                old(self)@.push(nth(old(self)@, n - 1))
            } else {
                old(self)@
            }),
    {
        let len: usize = self.len();
        if n > len || len >= STACK_LIMIT {
            false
        } else {
            let sp: usize = self.sp();
            self.dup_at(sp, n);
            self.set_sp(sp.wrapping_add(WORD));
            true
        }
    }

    /// Exchanges the topmost word with the `n`-th one below it, if there is one.
    pub fn swap(&mut self, n: usize) -> (r: bool)
        requires
            old(self).wf(),
            n > 0,
        ensures
            final(self).wf(),
            r == (n < old(self)@.len()),
            final(self)@ == (if r {
                exchanged(old(self)@, 0, n as int)
            } else {
                old(self)@
            }),
    {
        self.exchange(0, n)
    }

    /// Exchanges the `n`-th and the `n + m`-th word from the top, counted from zero, if there
    /// are that many.
    pub fn exchange(&mut self, n: usize, m: usize) -> (r: bool)
        requires
            old(self).wf(),
            m > 0,
            n + m <= usize::MAX,
        ensures
            final(self).wf(),
            r == (n + m < old(self)@.len()),
            final(self)@ == (if r {
                exchanged(old(self)@, n as int, n + m)
            } else {
                old(self)@
            }),
    {
        if n + m >= self.len() {
            return false;
        }
        let sp: usize = self.sp();
        self.exchange_at(sp, n, m);
        self.set_sp(sp);
        true
    }

    /// Pushes the number that up to 32 big-endian bytes spell, if there is room.
    pub fn push_slice_const(&mut self, src: &[u8]) -> (r: bool)
        requires
            old(self).wf(),
            src@.len() <= 32,
        ensures
            final(self).wf(),
            r == (old(self)@.len() < STACK_LIMIT),
            final(self)@ == (if r {
                old(self)@.push(u256::word(be::be_val(src@)))
            } else {
                old(self)@
            }),
    {
        let value = be_number(src);
        proof {
            u256::lemma_word_of_val(value);
        }
        self.push(value)
    }

    /// Pushes the words that a slice of bytes spells, if there is room for all of them.
    pub fn push_slice(&mut self, slice: &[u8]) -> (r: Result<(), InstructionResult>)
        requires
            old(self).wf(),
            slice.len() <= usize::MAX - 31,
        ensures
            final(self).wf(),
            r == (if old(self)@.len() + slice_words(slice@).len() <= STACK_LIMIT {
                Ok::<(), InstructionResult>(())
            } else {
                Err(InstructionResult::StackOverflow)
            }),
            final(self)@ == (if r is Ok {
                old(self)@ + slice_words(slice@)
            } else {
                old(self)@
            }),
    {
        let ghost before = self@;
        let ghost words = slice_words(slice@);
        let len: usize = slice.len();
        let n_words: usize = (len + 31) / 32;
        if n_words > STACK_LIMIT - self.len() {
            return Err(InstructionResult::StackOverflow);
        }
        let mut i: usize = 0;
        while i < n_words
            invariant
                i <= n_words,
                len == slice@.len(),
                n_words == words.len(),
                words == slice_words(slice@),
                n_words == (len + 31) / 32,
                len <= usize::MAX - 31,
                before.len() + n_words <= STACK_LIMIT,
                self.wf(),
                self@ == before + words.subrange(0, i as int),
            decreases n_words - i,
        {
            let start: usize = 32 * i;
            let end: usize = if start + 32 <= len {
                start + 32
            } else {
                len
            };
            let part = slice_subrange(slice, start, end);
            let pushed = self.push_slice_const(part);
            i = i + 1;
            assert(self@ =~= before + words.subrange(0, i as int));
        }
        assert(before + words.subrange(0, n_words as int) =~= before + words);
        Ok(())
    }

    /// Writes the word `no_from_top` places below the top, if there is one.
    pub fn set(&mut self, no_from_top: usize, val: U256) -> (r: Result<(), InstructionResult>)
        requires
            old(self).wf(),
        ensures
            final(self).wf(),
            r == (if no_from_top < old(self)@.len() {
                Ok::<(), InstructionResult>(())
            } else {
                Err(InstructionResult::StackUnderflow)
            }),
            final(self)@ == (if r is Ok {
                old(self)@.update(old(self)@.len() - 1 - no_from_top, val)
            } else {
                old(self)@
            }),
    {
        let len: usize = self.len();
        if len > no_from_top {
            self.buf.set(len - no_from_top - 1, val);
            assert(self@ =~= old(self)@.update(old(self)@.len() - 1 - no_from_top, val));
            Ok(())
        } else {
            Err(InstructionResult::StackUnderflow)
        }
    }
}

impl StackTr for Stack {
    open spec fn sound(&self) -> bool {
        self.wf()
    }

    fn len(&self) -> (r: usize) {
        Stack::len(self)
    }

    fn data(&self) -> (r: &[U256]) {
        Stack::data(self)
    }

    fn clear(&mut self) {
        Stack::clear(self)
    }

    fn push(&mut self, value: U256) -> (r: bool) {
        Stack::push(self, value)
    }

    fn push_slice(&mut self, slice: &[u8]) -> (r: bool) {
        Stack::push_slice(self, slice).is_ok()
    }

    fn push_slice_const(&mut self, src: &[u8]) -> (r: bool) {
        Stack::push_slice_const(self, src)
    }

    fn popn(&mut self, n: usize) -> (r: Option<Vec<U256>>) {
        Stack::popn(self, n)
    }

    fn popn_top(&mut self, n: usize) -> (r: Option<(Vec<U256>, &mut U256)>) {
        Stack::popn_top(self, n)
    }

    fn popn_discard(&mut self, n: usize, len: usize) {
        Stack::popn_discard(self, n)
    }

    fn sp(&self) -> (r: usize) {
        Stack::sp(self)
    }

    fn exchange(&mut self, n: usize, m: usize) -> (r: bool) {
        Stack::exchange(self, n, m)
    }

    fn dup(&mut self, n: usize) -> (r: bool) {
        Stack::dup(self, n)
    }
}

/// Writing the topmost word of a buffer leaves the words below it.
proof fn lemma_update_top(buf: Seq<U256>, i: int)
    requires
        0 <= i < buf.len(),
    ensures
        forall|v: U256| #[trigger]
            buf.update(i, v).subrange(0, i + 1) == buf.subrange(0, i + 1).subrange(0, i).push(v),
{
    assert forall|v: U256| #[trigger]
        buf.update(i, v).subrange(0, i + 1) == buf.subrange(0, i + 1).subrange(0, i).push(v) by {
        assert(buf.update(i, v).subrange(0, i + 1) =~= buf.subrange(0, i + 1).subrange(0, i).push(
            v,
        ));
    }
}

} // verus!
