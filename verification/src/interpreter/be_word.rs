//! Big-endian words in byte buffers.

use crate::primitives::address::be_limb;
use crate::primitives::be;
use crate::primitives::u256;
use crate::primitives::u256::U256;
use vstd::arithmetic::power::*;
use vstd::prelude::*;
use vstd::slice::slice_subrange;

verus! {

/// `s` with the bytes from `at` on replaced by `data`.
pub open spec fn splice(s: Seq<u8>, at: int, data: Seq<u8>) -> Seq<u8> {
    s.subrange(0, at) + data + s.subrange(at + data.len(), s.len() as int)
}

/// A run of zero bytes.
pub open spec fn zeros(n: nat) -> Seq<u8> {
    Seq::new(n, |i: int| 0u8)
}

/// The masks of the byte reversal: the even bytes, and the even byte pairs.
pub fn bswap_masks() -> (r: (u64, u64))
    ensures
        r == (0x00ff_00ff_00ff_00ffu64, 0x0000_ffff_0000_ffffu64),
{
    (0x00ff_00ff_00ff_00ff, 0x0000_ffff_0000_ffff)
}

/// A limb with its bytes in the opposite order.
pub open spec fn reversed(x: u64, r: u64) -> bool {
    be::limb_bytes(r) == be::limb_bytes(x).reverse()
}

/// Reverses the bytes of a limb in three stages: adjacent bytes, adjacent byte pairs, and the
/// two halves are swapped.
pub fn bswap64_masked(x: u64, m1: u64, m2: u64) -> (r: u64)
    requires
        m1 == 0x00ff_00ff_00ff_00ffu64,
        m2 == 0x0000_ffff_0000_ffffu64,
    ensures
        reversed(x, r),
{
    let y: u64 = ((x >> 8) & m1) | ((x & m1) << 8);
    let z: u64 = ((y >> 16) & m2) | ((y & m2) << 16);
    let r: u64 = (z >> 32) | (z << 32);
    proof {
        assert((r >> 56) as u8 == x as u8 && (r >> 48) as u8 == (x >> 8) as u8 && (r >> 40) as u8
            == (x >> 16) as u8 && (r >> 32) as u8 == (x >> 24) as u8 && (r >> 24) as u8 == (x
            >> 32) as u8 && (r >> 16) as u8 == (x >> 40) as u8 && (r >> 8) as u8 == (x >> 48) as u8
            && r as u8 == (x >> 56) as u8) by (bit_vector)
            requires
                y == (((x >> 8) & 0x00ff_00ff_00ff_00ffu64) | ((x & 0x00ff_00ff_00ff_00ffu64) << 8)),
                z == (((y >> 16) & 0x0000_ffff_0000_ffffu64) | ((y & 0x0000_ffff_0000_ffffu64)
                    << 16)),
                r == ((z >> 32) | (z << 32)),
        ;
        assert(be::limb_bytes(r) =~= be::limb_bytes(x).reverse());
    }
    r
}

/// A limb with its two 32-bit halves exchanged.
pub open spec fn halves_swapped(x: u64) -> u64 {
    (x >> 32) | (x << 32)
}

/// Reverses the bytes of a limb whose two halves the caller has already exchanged: the first
/// two stages of [`bswap64_masked`].
pub fn bswap64_halves_masked(x: u64, m1: u64, m2: u64) -> (r: u64)
    requires
        m1 == 0x00ff_00ff_00ff_00ffu64,
        m2 == 0x0000_ffff_0000_ffffu64,
    ensures
        reversed(halves_swapped(x), r),
{
    let y: u64 = ((x >> 8) & m1) | ((x & m1) << 8);
    let r: u64 = ((y >> 16) & m2) | ((y & m2) << 16);
    proof {
        let w = halves_swapped(x);
        assert((r >> 56) as u8 == w as u8 && (r >> 48) as u8 == (w >> 8) as u8 && (r >> 40) as u8
            == (w >> 16) as u8 && (r >> 32) as u8 == (w >> 24) as u8 && (r >> 24) as u8 == (w
            >> 32) as u8 && (r >> 16) as u8 == (w >> 40) as u8 && (r >> 8) as u8 == (w >> 48) as u8
            && r as u8 == (w >> 56) as u8) by (bit_vector)
            requires
                y == (((x >> 8) & 0x00ff_00ff_00ff_00ffu64) | ((x & 0x00ff_00ff_00ff_00ffu64) << 8)),
                r == (((y >> 16) & 0x0000_ffff_0000_ffffu64) | ((y & 0x0000_ffff_0000_ffffu64)
                    << 16)),
                w == ((x >> 32) | (x << 32)),
        ;
        assert(be::limb_bytes(r) =~= be::limb_bytes(w).reverse());
    }
    r
}

/// Reversing twice gives the limb back.
pub proof fn bswap_is_an_involution(x: u64, y: u64, z: u64)
    requires
        reversed(x, y),
        reversed(y, z),
    ensures
        z == x,
{
    assert(be::limb_bytes(y).reverse() =~= be::limb_bytes(x));
    be::lemma_limb_bytes(x);
    be::lemma_limb_bytes(z);
}

/// Assembling a limb from its halves the wrong way round saves the last stage of the reversal:
/// the two reversals agree.
pub proof fn bswap_of_swapped_halves(lo: u32, hi: u32, a: u64, b: u64)
    requires
        reversed((lo as u64) | ((hi as u64) << 32), a),
        reversed(halves_swapped((hi as u64) | ((lo as u64) << 32)), b),
    ensures
        a == b,
{
    assert(((((hi as u64) | ((lo as u64) << 32)) >> 32) | (((hi as u64) | ((lo as u64) << 32))
        << 32)) == ((lo as u64) | ((hi as u64) << 32))) by (bit_vector);
    be::lemma_limb_bytes(a);
    be::lemma_limb_bytes(b);
}

/// The eight bytes at `at` as a limb, least significant byte first.
pub fn le_limb(p: &[u8], at: usize) -> (r: u64)
    requires
        at + 8 <= p.len(),
    ensures
        be::limb_bytes(r).reverse() == p@.subrange(at as int, at + 8),
{
    let b0: u8 = p[at];
    let b1: u8 = p[at + 1];
    let b2: u8 = p[at + 2];
    let b3: u8 = p[at + 3];
    let b4: u8 = p[at + 4];
    let b5: u8 = p[at + 5];
    let b6: u8 = p[at + 6];
    let b7: u8 = p[at + 7];
    let r: u64 = (b0 as u64) | ((b1 as u64) << 8) | ((b2 as u64) << 16) | ((b3 as u64) << 24) | ((
    b4 as u64) << 32) | ((b5 as u64) << 40) | ((b6 as u64) << 48) | ((b7 as u64) << 56);
    proof {
        assert((r >> 56) as u8 == b7 && (r >> 48) as u8 == b6 && (r >> 40) as u8 == b5 && (r
            >> 32) as u8 == b4 && (r >> 24) as u8 == b3 && (r >> 16) as u8 == b2 && (r >> 8) as u8
            == b1 && r as u8 == b0) by (bit_vector)
            requires
                r == ((b0 as u64) | ((b1 as u64) << 8) | ((b2 as u64) << 16) | ((b3 as u64) << 24)
                    | ((b4 as u64) << 32) | ((b5 as u64) << 40) | ((b6 as u64) << 48) | ((b7 as u64)
                    << 56)),
        ;
        assert(be::limb_bytes(r).reverse() =~= p@.subrange(at as int, at + 8));
    }
    r
}

/// Reads the eight big-endian bytes at `at`: a little-endian read, and a reversal where the
/// limb is not zero.
fn load_be_limb(p: &[u8], at: usize, m1: u64, m2: u64) -> (r: u64)
    requires
        at + 8 <= p.len(),
        m1 == 0x00ff_00ff_00ff_00ffu64,
        m2 == 0x0000_ffff_0000_ffffu64,
    ensures
        r == be::be_val(p@.subrange(at as int, at + 8)),
{
    let x: u64 = le_limb(p, at);
    let r: u64 = if x == 0 {
        0
    } else {
        bswap64_masked(x, m1, m2)
    };
    proof {
        if x == 0 {
            lemma_zero_limb();
        }
        be::lemma_limb_bytes(r);
        assert(be::limb_bytes(r) =~= p@.subrange(at as int, at + 8));
    }
    r
}

proof fn lemma_zero_limb()
    ensures
        be::limb_bytes(0) == zeros(8),
        be::limb_bytes(0).reverse() == be::limb_bytes(0),
{
    assert(forall|n: u64| n < 64 ==> #[trigger] (0u64 >> n) == 0) by (bit_vector);
    assert(be::limb_bytes(0) =~= zeros(8));
    assert(be::limb_bytes(0).reverse() =~= zeros(8));
}

/// The value of 32 bytes is made of those of its limbs.
pub proof fn lemma_be_val_32(s: Seq<u8>)
    requires
        s.len() == 32,
    ensures
        be::be_val(s) == be::be_val(s.subrange(0, 8))
            * 0x1_0000_0000_0000_0000_0000_0000_0000_0000_0000_0000_0000_0000int + be::be_val(
            s.subrange(8, 16),
        ) * 0x1_0000_0000_0000_0000_0000_0000_0000_0000int + be::be_val(s.subrange(16, 24))
            * u256::limb_radix() + be::be_val(s.subrange(24, 32)),
{
    let a = s.subrange(0, 8);
    let b = s.subrange(8, 16);
    let c = s.subrange(16, 24);
    let d = s.subrange(24, 32);
    be::lemma_be_val_append_limb(a, b);
    be::lemma_be_val_append_limb(a + b, c);
    be::lemma_be_val_append_limb(a + b + c, d);
    assert(a + b + c + d =~= s);
}

/// Reads a 32-byte big-endian word.
pub fn u256_from_be_aligned(p: &[u8]) -> (r: U256)
    requires
        p@.len() == 32,
    ensures
        r.val() == be::be_val(p@),
        r == u256::word(be::be_val(p@)),
{
    let (m1, m2): (u64, u64) = bswap_masks();
    let r = U256 {
        l0: load_be_limb(p, 24, m1, m2),
        l1: load_be_limb(p, 16, m1, m2),
        l2: load_be_limb(p, 8, m1, m2),
        l3: load_be_limb(p, 0, m1, m2),
    };
    proof {
        lemma_be_val_32(p@);
        u256::lemma_word_of_val(r);
    }
    r
}

/// Reads up to 32 big-endian bytes as the leading bytes of a word: the missing ones are zero.
pub fn be_word_to(src: &[u8]) -> (r: U256)
    requires
        src@.len() <= 32,
    ensures
        r.val() == be::be_val(src@ + zeros((32 - src@.len()) as nat)),
        r == u256::word(be::be_val(src@ + zeros((32 - src@.len()) as nat))),
{
    let count: usize = src.len();
    if count < 32 {
        let mut w: Vec<u8> = Vec::with_capacity(32);
        let mut i: usize = 0;
        while i < 32
            invariant
                i <= 32,
                count == src@.len(),
                count < 32,
                w@.len() == i,
                forall|j: int| 0 <= j < i ==> w@[j] == (if j < count { src@[j] } else { 0u8 }),
            decreases 32 - i,
        {
            if i < count {
                w.push(src[i]);
            } else {
                w.push(0);
            }
            i = i + 1;
        }
        assert(w@ =~= src@ + zeros((32 - src@.len()) as nat));
        return u256_from_be_aligned(w.as_slice());
    }
    let l3: u64 = be_limb(src, 0);
    let l2: u64 = be_limb(src, 8);
    let l1: u64 = be_limb(src, 16);
    let l0: u64 = be_limb(src, 24);
    let r = U256 { l0, l1, l2, l3 };
    proof {
        assert(src@ + zeros(0) =~= src@);
        lemma_be_val_32(src@);
        u256::lemma_word_of_val(r);
    }
    r
}

/// The number that up to eight big-endian bytes spell.
fn be_partial_limb(src: &[u8], start: usize, end: usize) -> (r: u64)
    requires
        start <= end <= src.len(),
        end - start <= 8,
    ensures
        r == be::be_val(src@.subrange(start as int, end as int)),
{
    let mut v: u64 = 0;
    let mut i: usize = start;
    while i < end
        invariant
            start <= i <= end,
            end <= src@.len(),
            end - start <= 8,
            v == be::be_val(src@.subrange(start as int, i as int)),
        decreases end - i,
    {
        proof {
            let next = src@.subrange(start as int, i + 1);
            assert(next.drop_last() =~= src@.subrange(start as int, i as int));
            be::lemma_be_val_bounds(next);
            be::lemma_pow256_values();
            lemma_pow_increases(256, next.len(), 8);
        }
        v = v * 256 + src[i] as u64;
        i = i + 1;
    }
    v
}

/// The last limb of a run of bytes, split off.
proof fn lemma_last_limb(s: Seq<u8>, a: int, b: int)
    requires
        0 <= a <= b <= s.len(),
        a == (if b >= 8 {
            b - 8
        } else {
            0
        }),
    ensures
        be::be_val(s.subrange(0, b)) == be::be_val(s.subrange(0, a))
            * 0x1_0000_0000_0000_0000int + be::be_val(s.subrange(a, b)),
{
    if b >= 8 {
        assert(s.subrange(0, b) =~= s.subrange(0, a) + s.subrange(a, b));
        be::lemma_be_val_append_limb(s.subrange(0, a), s.subrange(a, b));
    }
}

/// The number that up to 32 big-endian bytes spell.
pub fn be_number(src: &[u8]) -> (r: U256)
    requires
        src@.len() <= 32,
    ensures
        r.val() == be::be_val(src@),
        r == u256::word(be::be_val(src@)),
{
    let e0: usize = src.len();
    let e1: usize = e0.saturating_sub(8);
    let e2: usize = e1.saturating_sub(8);
    let e3: usize = e2.saturating_sub(8);
    let l0: u64 = be_partial_limb(src, e1, e0);
    let l1: u64 = be_partial_limb(src, e2, e1);
    let l2: u64 = be_partial_limb(src, e3, e2);
    let l3: u64 = be_partial_limb(src, 0, e3);
    let r = U256 { l0, l1, l2, l3 };
    proof {
        let s = src@;
        assert(s.subrange(0, e0 as int) =~= s);
        lemma_last_limb(s, e1 as int, e0 as int);
        lemma_last_limb(s, e2 as int, e1 as int);
        lemma_last_limb(s, e3 as int, e2 as int);
        u256::lemma_word_of_val(r);
    }
    r
}

/// Writes the eight bytes of a limb at `at`, most significant first.
pub fn store_be_limb_bytes(buf: &mut Vec<u8>, at: usize, w: u64)
    requires
        at + 8 <= old(buf).len(),
    ensures
        final(buf)@ == splice(old(buf)@, at as int, be::limb_bytes(w)),
{
    buf[at] = (w >> 56) as u8;
    buf[at + 1] = (w >> 48) as u8;
    buf[at + 2] = (w >> 40) as u8;
    buf[at + 3] = (w >> 32) as u8;
    buf[at + 4] = (w >> 24) as u8;
    buf[at + 5] = (w >> 16) as u8;
    buf[at + 6] = (w >> 8) as u8;
    buf[at + 7] = w as u8;
    assert(buf@ =~= splice(old(buf)@, at as int, be::limb_bytes(w)));
}

/// Writes a word at `at` as 32 big-endian bytes. A value below `2^64` leaves the leading 24
/// bytes zero.
pub fn store_be_word(buf: &mut Vec<u8>, at: usize, value: &U256)
    requires
        at + 32 <= old(buf).len(),
    ensures
        final(buf)@ == splice(old(buf)@, at as int, be::be_bytes(value.val(), 32)),
{
    let ghost before = buf@;
    if value.l3 == 0 && value.l2 == 0 && value.l1 == 0 {
        let mut j: usize = 0;
        while j < 24
            invariant
                j <= 24,
                at + 32 <= before.len(),
                before.len() <= usize::MAX,
                buf@ == splice(before, at as int, zeros(j as nat)),
            decreases 24 - j,
        {
            buf[at + j] = 0;
            j = j + 1;
            assert(buf@ =~= splice(before, at as int, zeros(j as nat)));
        }
        store_be_limb_bytes(buf, at + 24, value.l0);
        proof {
            lemma_zero_limb();
            be::lemma_word_bytes(*value);
            assert(zeros(24) + be::limb_bytes(value.l0) =~= be::word_bytes(*value));
            lemma_splice_concat(before, at as int, zeros(24), be::limb_bytes(value.l0));
        }
        return;
    }
    store_be_limb_bytes(buf, at, value.l3);
    store_be_limb_bytes(buf, at + 8, value.l2);
    store_be_limb_bytes(buf, at + 16, value.l1);
    store_be_limb_bytes(buf, at + 24, value.l0);
    proof {
        let b3 = be::limb_bytes(value.l3);
        let b2 = be::limb_bytes(value.l2);
        let b1 = be::limb_bytes(value.l1);
        let b0 = be::limb_bytes(value.l0);
        lemma_splice_concat(before, at as int, b3, b2);
        lemma_splice_concat(before, at as int, b3 + b2, b1);
        lemma_splice_concat(before, at as int, b3 + b2 + b1, b0);
        be::lemma_word_bytes(*value);
    }
}

/// Two writes, one behind the other, are one write.
pub proof fn lemma_splice_concat(s: Seq<u8>, at: int, a: Seq<u8>, b: Seq<u8>)
    requires
        0 <= at,
        at + a.len() + b.len() <= s.len(),
    ensures
        splice(splice(s, at, a), at + a.len(), b) == splice(s, at, a + b),
{
    assert(splice(splice(s, at, a), at + a.len(), b) =~= splice(s, at, a + b));
}

/// Reads the word at `at` of a buffer.
pub fn load_be_word(buf: &[u8], at: usize) -> (r: U256)
    requires
        at + 32 <= buf.len(),
    ensures
        r.val() == be::be_val(buf@.subrange(at as int, at + 32)),
        r == u256::word(be::be_val(buf@.subrange(at as int, at + 32))),
{
    u256_from_be_aligned(slice_subrange(buf, at, at + 32))
}

/// A word that was written is read back: storing a word and loading it from the same place
/// gives the word.
pub proof fn be_word_round_trip(buf: Seq<u8>, at: int, value: U256)
    requires
        0 <= at,
        at + 32 <= buf.len(),
    ensures
        be::be_val(
            splice(buf, at, be::be_bytes(value.val(), 32)).subrange(at, at + 32),
        ) == value.val(),
{
    be::lemma_word_bytes(value);
    assert(splice(buf, at, be::be_bytes(value.val(), 32)).subrange(at, at + 32) =~= be::be_bytes(
        value.val(),
        32,
    ));
}

} // verus!
