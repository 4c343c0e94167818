//! The order of the forks, and what words, addresses and their bytes stand for.

use crate::primitives::address;
use crate::primitives::be;
use crate::primitives::u256;
use crate::primitives::{Address, SpecId, U256};
use vstd::arithmetic::power2::*;
use vstd::prelude::*;

verus! {

/// The forks, the first one first.
pub open spec fn forks() -> Seq<SpecId> {
    seq![
        SpecId::FRONTIER,
        SpecId::FRONTIER_THAWING,
        SpecId::HOMESTEAD,
        SpecId::DAO_FORK,
        SpecId::TANGERINE,
        SpecId::SPURIOUS_DRAGON,
        SpecId::BYZANTIUM,
        SpecId::CONSTANTINOPLE,
        SpecId::PETERSBURG,
        SpecId::ISTANBUL,
        SpecId::MUIR_GLACIER,
        SpecId::BERLIN,
        SpecId::LONDON,
        SpecId::ARROW_GLACIER,
        SpecId::GRAY_GLACIER,
        SpecId::MERGE,
        SpecId::SHANGHAI,
        SpecId::CANCUN,
        SpecId::PRAGUE,
        SpecId::OSAKA,
        SpecId::AMSTERDAM,
    ]
}

/// A fork has what every fork up to it brought, and nothing of a later one.
pub proof fn forks_follow_each_other(i: int, j: int)
    requires
        0 <= i < 21,
        0 <= j < 21,
    ensures
        forks().len() == 21,
        forks()[i].rank() == i,
        forks()[i].enabled(forks()[j]) <==> j <= i,
{
}

/// A word is a number of 64-bit digits, the least significant one first, below `2^256`, and each
/// number stands for its residue.
pub proof fn a_word_is_a_number_below_2_to_the_256(x: U256, n: int)
    ensures
        u256::word_count() == pow2(256),
        x.val() == x.l0 + x.l1 * pow2(64) + x.l2 * pow2(128) + x.l3 * pow2(192),
        0 <= x.val() < pow2(256),
        u256::word(n).val() == n % (pow2(256) as int),
        x.signed() == (if x.l3 >= 0x8000_0000_0000_0000 {
            x.val() - pow2(256)
        } else {
            x.val()
        }),
{
    crate::primitives::bits::lemma_pow2_limbs();
    u256::lemma_val_bounds(x);
    u256::lemma_val_of_word(n);
}

/// An address is a number below `2^160`: the residue of the word that it was taken from. As a
/// word it is the same number.
pub proof fn an_address_is_a_number_below_2_to_the_160(x: U256, a: Address)
    ensures
        address::address_of(x).val() == x.val() % (pow2(160) as int),
        a.val() == a.lo + a.mid * pow2(64) + a.hi * pow2(128),
        0 <= a.val() < pow2(160),
        a.spec_word().val() == a.val(),
        address::address_of(a.spec_word()) == a,
{
    crate::primitives::bits::lemma_pow2_limbs();
    lemma_pow2_adds(128, 32);
    lemma2_to64();
    crate::instructions::laws::control::lemma_address_of(x);
    let low = a.hi as u64;
    assert(low as u32 == a.hi);
}

/// A word is spelled by 32 bytes, the most significant one first.
pub proof fn a_word_is_spelled_from_its_top(x: U256)
    ensures
        be::word_bytes(x).len() == 32,
        crate::instructions::laws::bytes_of(x.val(), be::word_bytes(x)),
{
    be::lemma_word_bytes(x);
    crate::instructions::laws::lemma_be_val_bytes(be::word_bytes(x));
}

} // verus!
