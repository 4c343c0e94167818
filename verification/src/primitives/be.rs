//! Big-endian encodings of numbers as byte sequences.

use crate::primitives::u256;
use crate::primitives::u256::U256;
use vstd::arithmetic::div_mod::*;
use vstd::arithmetic::power::*;
use vstd::prelude::*;

verus! {

/// The number that the bytes of `s` spell, most significant byte first.
pub open spec fn be_val(s: Seq<u8>) -> int
    decreases s.len(),
{
    if s.len() == 0 {
        0
    } else {
        be_val(s.drop_last()) * 256 + s.last()
    }
}

/// The last `len` bytes of the big-endian spelling of `n`.
pub open spec fn be_bytes(n: int, len: nat) -> Seq<u8>
    decreases len,
{
    if len == 0 {
        Seq::empty()
    } else {
        be_bytes(n / 256, (len - 1) as nat).push((n % 256) as u8)
    }
}

/// `be_bytes` has the length it was asked for.
pub proof fn lemma_be_bytes_len(n: int, len: nat)
    ensures
        be_bytes(n, len).len() == len,
    decreases len,
{
    if len > 0 {
        lemma_be_bytes_len(n / 256, (len - 1) as nat);
    }
}

/// Spelling a number out and reading it back gives its residue.
pub proof fn lemma_be_val_of_bytes(n: int, len: nat)
    requires
        n >= 0,
    ensures
        be_val(be_bytes(n, len)) == n % pow(256, len),
    decreases len,
{
    if len == 0 {
        lemma_pow0(256);
    } else {
        let k = (len - 1) as nat;
        lemma_be_bytes_len(n / 256, k);
        assert(be_bytes(n, len).drop_last() == be_bytes(n / 256, k));
        lemma_be_val_of_bytes(n / 256, k);
        lemma_pow_positive(256, k);
        lemma_mod_breakdown(n, 256, pow(256, k));
        assert(pow(256, len) == 256 * pow(256, k)) by {
            reveal(pow);
        }
    }
}

/// The value of `len` bytes is below `256^len`.
pub proof fn lemma_be_val_bounds(s: Seq<u8>)
    ensures
        0 <= be_val(s) < pow(256, s.len()),
    decreases s.len(),
{
    reveal(pow);
    if s.len() > 0 {
        lemma_be_val_bounds(s.drop_last());
        let k = (s.len() - 1) as nat;
        assert(pow(256, s.len()) == 256 * pow(256, k));
    }
}

/// Reading bytes and spelling the number out again gives the bytes back.
pub proof fn lemma_be_bytes_of_val(s: Seq<u8>)
    ensures
        be_bytes(be_val(s), s.len()) == s,
    decreases s.len(),
{
    if s.len() == 0 {
        assert(be_bytes(be_val(s), s.len()) =~= s);
    } else {
        lemma_be_bytes_of_val(s.drop_last());
        lemma_fundamental_div_mod_converse(
            be_val(s),
            256,
            be_val(s.drop_last()),
            s.last() as int,
        );
        assert(s.drop_last().push(s.last()) =~= s);
    }
}

/// The value of a concatenation.
pub proof fn lemma_be_val_concat(a: Seq<u8>, b: Seq<u8>)
    ensures
        be_val(a + b) == be_val(a) * pow(256, b.len()) + be_val(b),
    decreases b.len(),
{
    if b.len() == 0 {
        lemma_pow0(256);
        assert(a + b =~= a);
    } else {
        let c = b.drop_last();
        lemma_be_val_concat(a, c);
        assert((a + b).drop_last() =~= a + c);
        assert(pow(256, b.len()) == 256 * pow(256, c.len())) by {
            reveal(pow);
        }
        let p = pow(256, c.len());
        assert((be_val(a) * p + be_val(c)) * 256 == be_val(a) * (256 * p) + be_val(c) * 256)
            by (nonlinear_arith);
    }
}

/// A run of zero bytes has the value zero.
pub proof fn lemma_be_val_zeros(n: nat)
    ensures
        be_val(Seq::new(n, |i: int| 0u8)) == 0,
    decreases n,
{
    let z = Seq::new(n, |i: int| 0u8);
    if n > 0 {
        lemma_be_val_zeros((n - 1) as nat);
        assert(z.drop_last() =~= Seq::new((n - 1) as nat, |i: int| 0u8));
    }
}

/// The small powers of 256 that limbs, addresses and words are made of.
pub proof fn lemma_pow256_values()
    ensures
        pow(256, 8) == 0x1_0000_0000_0000_0000int,
        pow(256, 16) == 0x1_0000_0000_0000_0000_0000_0000_0000_0000int,
        pow(256, 24) == 0x1_0000_0000_0000_0000_0000_0000_0000_0000_0000_0000_0000_0000int,
        pow(256, 32) == u256::word_count(),
{
    lemma_pow256_8();
    lemma_pow_adds(256, 8, 8);
    lemma_pow_adds(256, 16, 8);
    lemma_pow_adds(256, 24, 8);
}

proof fn lemma_pow256_8()
    ensures
        pow(256, 8) == 0x1_0000_0000_0000_0000int,
{
    reveal_with_fuel(pow, 9);
}

/// The eight bytes of a limb, most significant first.
pub open spec fn limb_bytes(w: u64) -> Seq<u8> {
    seq![
        (w >> 56) as u8,
        (w >> 48) as u8,
        (w >> 40) as u8,
        (w >> 32) as u8,
        (w >> 24) as u8,
        (w >> 16) as u8,
        (w >> 8) as u8,
        w as u8,
    ]
}

/// `limb_bytes` spells the limb.
pub proof fn lemma_limb_bytes(w: u64)
    ensures
        be_val(limb_bytes(w)) == w,
{
    assert((w >> 56) as u8 == w / 0x100_0000_0000_0000) by (bit_vector);
    assert((w >> 48) as u8 == (w / 0x1_0000_0000_0000) % 256 && (w >> 40) as u8 == (w
        / 0x100_0000_0000) % 256 && (w >> 32) as u8 == (w / 0x1_0000_0000) % 256) by (bit_vector);
    assert((w >> 24) as u8 == (w / 0x100_0000) % 256 && (w >> 16) as u8 == (w / 0x1_0000) % 256
        && (w >> 8) as u8 == (w / 0x100) % 256 && w as u8 == w % 256) by (bit_vector);
    let q1 = w as int / 256;
    let q2 = q1 / 256;
    let q3 = q2 / 256;
    let q4 = q3 / 256;
    let q5 = q4 / 256;
    let q6 = q5 / 256;
    let q7 = q6 / 256;
    assert(q2 == w / 0x1_0000 && q3 == w / 0x100_0000);
    assert(q4 == w / 0x1_0000_0000);
    assert(q5 == w / 0x100_0000_0000);
    assert(q6 == w / 0x1_0000_0000_0000);
    assert(q7 == w / 0x100_0000_0000_0000);
    lemma_be_val_8(limb_bytes(w));
}

/// The value of eight bytes, written out.
pub proof fn lemma_be_val_8(s: Seq<u8>)
    requires
        s.len() == 8,
    ensures
        be_val(s) == s[0] * 0x100_0000_0000_0000 + s[1] * 0x1_0000_0000_0000 + s[2] * 0x100_0000_0000
            + s[3] * 0x1_0000_0000 + s[4] * 0x100_0000 + s[5] * 0x1_0000 + s[6] * 0x100 + s[7],
{
    reveal_with_fuel(be_val, 9);
}

/// Appending eight bytes shifts the value up by one limb.
pub proof fn lemma_be_val_append_limb(a: Seq<u8>, b: Seq<u8>)
    requires
        b.len() == 8,
    ensures
        be_val(a + b) == be_val(a) * 0x1_0000_0000_0000_0000int + be_val(b),
{
    lemma_be_val_concat(a, b);
    lemma_pow256_8();
    let n = be_val(a);
    let p = pow(256, 8);
    assert(n * p == n * 0x1_0000_0000_0000_0000int) by (nonlinear_arith)
        requires
            p == 0x1_0000_0000_0000_0000int,
    ;
}

/// The 32 bytes of a word, most significant first.
pub open spec fn word_bytes(x: U256) -> Seq<u8> {
    limb_bytes(x.l3) + limb_bytes(x.l2) + limb_bytes(x.l1) + limb_bytes(x.l0)
}

/// `word_bytes` spells the word, and is the 32-byte spelling of its value.
pub proof fn lemma_word_bytes(x: U256)
    ensures
        word_bytes(x).len() == 32,
        be_val(word_bytes(x)) == x.val(),
        be_bytes(x.val(), 32) == word_bytes(x),
{
    lemma_limb_bytes(x.l0);
    lemma_limb_bytes(x.l1);
    lemma_limb_bytes(x.l2);
    lemma_limb_bytes(x.l3);
    let a = limb_bytes(x.l3);
    let b = limb_bytes(x.l2);
    let c = limb_bytes(x.l1);
    let d = limb_bytes(x.l0);
    lemma_be_val_append_limb(a, b);
    lemma_be_val_append_limb(a + b, c);
    lemma_be_val_append_limb(a + b + c, d);
    lemma_be_bytes_of_val(word_bytes(x));
}

} // verus!
