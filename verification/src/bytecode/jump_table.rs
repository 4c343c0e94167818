//! The table of valid jump destinations.

use bitvec::order::Lsb0;
use bitvec::vec::BitVec;
use vstd::prelude::*;

verus! {

/// A `bitvec::vec::BitVec` of bytes, whose bits are counted from the least significant one.
#[verifier::external_body]
#[derive(Debug)]
pub struct JumpBits {
    bits: BitVec<u8, Lsb0>,
}

/// The bits of the `BitVec`, in order.
pub uninterp spec fn bits_of(bits: JumpBits) -> Seq<bool>;

/// `BitVec::repeat`: a vector of `len` bits that are all `bit`. It panics on a length over
/// `BitSlice::MAX_BITS`, which is an eighth of the address space.
#[verifier::external_body]
pub(crate) fn bits_repeat(bit: bool, len: usize) -> (r: JumpBits)
    requires
        len <= usize::MAX / 8,
    ensures
        bits_of(r) == Seq::new(len as nat, |i: int| bit),
{
    JumpBits { bits: BitVec::repeat(bit, len) }
}

/// `BitSlice::set`: writes one bit and leaves the others. It panics on an index out of bounds.
#[verifier::external_body]
pub(crate) fn bits_set(jumps: &mut JumpBits, index: usize, value: bool)
    requires
        index < bits_of(*old(jumps)).len(),
    ensures
        bits_of(*final(jumps)) == bits_of(*old(jumps)).update(index as int, value),
{
    jumps.bits.set(index, value)
}

/// `BitVec::len`: the number of bits.
#[verifier::external_body]
fn bits_len(jumps: &JumpBits) -> (r: usize)
    ensures
        r == bits_of(*jumps).len(),
{
    jumps.bits.len()
}

/// The index operator of `BitSlice`: the bit at an index. It panics out of bounds.
#[verifier::external_body]
fn bits_get(jumps: &JumpBits, index: usize) -> (r: bool)
    requires
        index < bits_of(*jumps).len(),
    ensures
        r == bits_of(*jumps)[index as int],
{
    jumps.bits[index]
}

/// `Clone` of `BitVec`: a vector of the same bits.
#[verifier::external_body]
fn bits_clone(jumps: &JumpBits) -> (r: JumpBits)
    ensures
        bits_of(r) == bits_of(*jumps),
{
    JumpBits { bits: jumps.bits.clone() }
}

/// One bit for each byte of a code: whether a jump may land there.
#[derive(Debug)]
pub struct JumpTable {
    table: JumpBits,
}

impl View for JumpTable {
    type V = Seq<bool>;

    closed spec fn view(&self) -> Seq<bool> {
        bits_of(self.table)
    }
}

impl Clone for JumpTable {
    fn clone(&self) -> (r: JumpTable)
        ensures
            r@ == self@,
    {
        JumpTable { table: bits_clone(&self.table) }
    }
}

impl Default for JumpTable {
    fn default() -> (r: JumpTable)
        ensures
            r@ == Seq::<bool>::empty(),
    {
        let r = JumpTable { table: bits_repeat(false, 0) };
        assert(r@ =~= Seq::<bool>::empty());
        r
    }
}

impl JumpTable {
    /// A table of the given bits.
    pub fn new(jumps: &[bool]) -> (r: JumpTable)
        requires
            jumps.len() <= usize::MAX / 8,
        ensures
            r@ == jumps@,
    {
        let n: usize = jumps.len();
        let mut table = bits_repeat(false, n);
        let mut i: usize = 0;
        while i < n
            invariant
                i <= n,
                n == jumps@.len(),
                bits_of(table).len() == n,
                forall|j: int| 0 <= j < i ==> #[trigger] bits_of(table)[j] == jumps@[j],
            decreases n - i,
        {
            bits_set(&mut table, i, jumps[i]);
            i = i + 1;
        }
        assert(bits_of(table) =~= jumps@);
        JumpTable { table }
    }

    /// A table of the given bits.
    pub(crate) fn from_bits(jumps: JumpBits) -> (r: JumpTable)
        ensures
            r@ == bits_of(jumps),
    {
        JumpTable { table: jumps }
    }

    /// The number of bits.
    pub fn len(&self) -> (r: usize)
        ensures
            r == self@.len(),
    {
        bits_len(&self.table)
    }

    /// Whether the table has no bits.
    pub fn is_empty(&self) -> (r: bool)
        ensures
            r == (self@.len() == 0),
    {
        self.len() == 0
    }

    /// Whether a jump may land on `pc`. Nothing outside the table is valid.
    pub fn is_valid(&self, pc: usize) -> (r: bool)
        ensures
            r == (pc < self@.len() && self@[pc as int]),
    {
        pc < self.len() && bits_get(&self.table, pc)
    }
}

} // verus!
