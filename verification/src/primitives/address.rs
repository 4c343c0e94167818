//! Account addresses and 32-byte hashes, held as the big-endian numbers that they spell.

use crate::primitives::be;
use crate::primitives::u256;
use crate::primitives::u256::U256;
use vstd::prelude::*;

verus! {

/// The number of distinct addresses, `2^160`.
pub open spec fn address_count() -> int {
    0x1_0000_0000_0000_0000_0000_0000_0000_0000_0000_0000int
}

/// A 20-byte account address: 4, 8 and 8 bytes, most significant first.
#[derive(Clone, Copy, Debug, PartialEq, Eq, Structural, Hash)]
pub struct Address {
    pub hi: u32,
    pub mid: u64,
    pub lo: u64,
}

/// A 32-byte hash, as the word that its bytes spell.
#[derive(Clone, Copy, Debug, PartialEq, Eq, Structural, Hash)]
pub struct B256 {
    pub word: U256,
}

/// The address in the low 20 bytes of a word.
pub open spec fn address_of(x: U256) -> Address {
    Address { hi: x.l2 as u32, mid: x.l1, lo: x.l0 }
}

impl Address {
    /// The number that the 20 bytes spell.
    pub open spec fn val(self) -> int {
        self.lo + self.mid * u256::limb_radix()
            + self.hi * 0x1_0000_0000_0000_0000_0000_0000_0000_0000int
    }

    /// The address as a word: its number, zero-extended.
    pub open spec fn spec_word(self) -> U256 {
        U256 { l0: self.lo, l1: self.mid, l2: self.hi as u64, l3: 0 }
    }

    /// The zero address.
    pub fn zero() -> (r: Address)
        ensures
            r == (Address { hi: 0, mid: 0, lo: 0 }),
            r.val() == 0,
    {
        Address { hi: 0, mid: 0, lo: 0 }
    }

    /// Whether this is the zero address.
    pub fn is_zero(&self) -> (r: bool)
        ensures
            r == (self.val() == 0),
            r == (*self == Address { hi: 0, mid: 0, lo: 0 }),
    {
        self.hi == 0 && self.mid == 0 && self.lo == 0
    }

    /// Whether two addresses are the same.
    pub fn same(&self, other: &Address) -> (r: bool)
        ensures
            r == (*self == *other),
    {
        self.hi == other.hi && self.mid == other.mid && self.lo == other.lo
    }

    /// The address in the low 20 bytes of a word; the high 12 bytes are ignored.
    pub fn from_word(x: U256) -> (r: Address)
        ensures
            r == address_of(x),
            r.val() == x.val() % address_count(),
    {
        let hi: u32 = (x.l2 & 0xffff_ffff) as u32;
        proof {
            let l = x.l2;
            assert((l & 0xffff_ffff) as u32 == l as u32 && l as u32 == l % 0x1_0000_0000) by (bit_vector);
            lemma_address_residue(x, hi);
        }
        Address { hi, mid: x.l1, lo: x.l0 }
    }

    /// The address as a word, zero-extended.
    pub fn into_word(&self) -> (r: U256)
        ensures
            r == self.spec_word(),
            r == u256::word(self.val()),
            r.val() == self.val(),
    {
        let r = U256 { l0: self.lo, l1: self.mid, l2: self.hi as u64, l3: 0 };
        proof {
            u256::lemma_word_of_val(r);
        }
        r
    }

    /// The address that 20 bytes spell, most significant first.
    pub fn from_slice(bytes: &[u8]) -> (r: Address)
        requires
            bytes@.len() == 20,
        ensures
            r.val() == be::be_val(bytes@),
    {
        let w = u256_from_be_address(bytes);
        proof {
            lemma_be_val_20(bytes@);
        }
        Address { hi: w.l2 as u32, mid: w.l1, lo: w.l0 }
    }
}

proof fn lemma_address_residue(x: U256, hi: u32)
    requires
        hi == x.l2 % 0x1_0000_0000,
    ensures
        (Address { hi, mid: x.l1, lo: x.l0 }).val() == x.val() % address_count(),
{
    let q2 = (x.l2 / 0x1_0000_0000) as int;
    let a = (Address { hi, mid: x.l1, lo: x.l0 }).val();
    let q = q2 + x.l3 * 0x1_0000_0000int;
    assert(x.val() == q * address_count() + a);
    vstd::arithmetic::div_mod::lemma_fundamental_div_mod_converse(
        x.val(),
        address_count(),
        q,
        a,
    );
}

/// The value of 20 bytes: four, eight and eight of them.
pub proof fn lemma_be_val_20(s: Seq<u8>)
    requires
        s.len() == 20,
    ensures
        be::be_val(s) == be::be_val(s.subrange(0, 4))
            * 0x1_0000_0000_0000_0000_0000_0000_0000_0000int + be::be_val(s.subrange(4, 12))
            * u256::limb_radix() + be::be_val(s.subrange(12, 20)),
        be::be_val(s.subrange(0, 4)) == s[0] * 0x100_0000 + s[1] * 0x1_0000 + s[2] * 0x100 + s[3],
{
    let a = s.subrange(0, 4);
    let b = s.subrange(4, 12);
    let c = s.subrange(12, 20);
    be::lemma_be_val_append_limb(a, b);
    be::lemma_be_val_append_limb(a + b, c);
    assert(a + b + c =~= s);
    assert(be::be_val(a) == s[0] * 0x100_0000 + s[1] * 0x1_0000 + s[2] * 0x100 + s[3]) by {
        reveal_with_fuel(be::be_val, 5);
    }
}

/// Reads a 20-byte big-endian address into a word. Bytes `0..4`, `4..12` and `12..20` are
/// limbs 2, 1 and 0; limb 3 is always zero.
pub fn u256_from_be_address(p: &[u8]) -> (r: U256)
    requires
        p@.len() == 20,
    ensures
        r.val() == be::be_val(p@),
        r.l3 == 0,
        r.l2 <= u32::MAX,
{
    let l0: u64 = be_limb(p, 12);
    let l1: u64 = be_limb(p, 4);
    let l2: u64 = ((p[0] as u64) << 24) | ((p[1] as u64) << 16) | ((p[2] as u64) << 8) | (
    p[3] as u64);
    proof {
        lemma_be_val_20(p@);
        lemma_be_half(p@[0], p@[1], p@[2], p@[3]);
    }
    U256 { l0, l1, l2, l3: 0 }
}

/// The eight big-endian bytes at `at` as a limb.
pub fn be_limb(p: &[u8], at: usize) -> (r: u64)
    requires
        at + 8 <= p@.len(),
    ensures
        r == be::be_val(p@.subrange(at as int, at + 8)),
{
    let b0: u8 = p[at];
    let b1: u8 = p[at + 1];
    let b2: u8 = p[at + 2];
    let b3: u8 = p[at + 3];
    let b4: u8 = p[at + 4];
    let b5: u8 = p[at + 5];
    let b6: u8 = p[at + 6];
    let b7: u8 = p[at + 7];
    proof {
        be::lemma_be_val_8(p@.subrange(at as int, at + 8));
        assert((((b0 as u64) << 56) | ((b1 as u64) << 48) | ((b2 as u64) << 40) | ((b3 as u64) << 32)
            | ((b4 as u64) << 24) | ((b5 as u64) << 16) | ((b6 as u64) << 8) | (b7 as u64)) == b0
            * 0x100_0000_0000_0000 + b1 * 0x1_0000_0000_0000 + b2 * 0x100_0000_0000 + b3
            * 0x1_0000_0000 + b4 * 0x100_0000 + b5 * 0x1_0000 + b6 * 0x100 + b7) by (bit_vector);
    }
    ((b0 as u64) << 56) | ((b1 as u64) << 48) | ((b2 as u64) << 40) | ((b3 as u64) << 32) | ((
    b4 as u64) << 24) | ((b5 as u64) << 16) | ((b6 as u64) << 8) | (b7 as u64)
}

proof fn lemma_be_half(b0: u8, b1: u8, b2: u8, b3: u8)
    ensures
        (((b0 as u64) << 24) | ((b1 as u64) << 16) | ((b2 as u64) << 8) | (b3 as u64)) == b0
            * 0x100_0000 + b1 * 0x1_0000 + b2 * 0x100 + b3,
{
    assert((((b0 as u64) << 24) | ((b1 as u64) << 16) | ((b2 as u64) << 8) | (b3 as u64)) == b0
        * 0x100_0000 + b1 * 0x1_0000 + b2 * 0x100 + b3) by (bit_vector);
}

impl B256 {
    /// The hash of all zero bytes.
    pub fn zero() -> (r: B256)
        ensures
            r.word == u256::word(0),
    {
        B256 { word: U256::zero() }
    }

    /// The hash as a word.
    pub fn into_u256(&self) -> (r: U256)
        ensures
            r == self.word,
    {
        self.word
    }

    /// Whether two hashes are the same.
    pub fn same(&self, other: &B256) -> (r: bool)
        ensures
            r == (*self == *other),
    {
        self.word.same(&other.word)
    }
}

} // verus!
