//! Keccak-256.

use crate::primitives::address::B256;
use crate::primitives::u256;
use crate::primitives::u256::U256;
use vstd::prelude::*;

verus! {

/// The big-endian number that the 32 bytes of the Keccak-256 hash of `data` spell.
pub uninterp spec fn keccak_val(data: Seq<u8>) -> int;

/// The Keccak-256 hash of the empty string.
pub open spec fn spec_keccak_empty() -> B256 {
    B256 {
        word: U256 {
            l0: 0x7bfa_d804_5d85_a470,
            l1: 0xe500_b653_ca82_273b,
            l2: 0x927e_7db2_dcc7_03c0,
            l3: 0xc5d2_4601_86f7_233c,
        },
    }
}

/// The Keccak-256 hash of the empty string.
pub fn keccak_empty() -> (r: B256)
    ensures
        r == spec_keccak_empty(),
{
    B256 {
        word: U256 {
            l0: 0x7bfa_d804_5d85_a470,
            l1: 0xe500_b653_ca82_273b,
            l2: 0x927e_7db2_dcc7_03c0,
            l3: 0xc5d2_4601_86f7_233c,
        },
    }
}

/// `alloy_primitives::keccak256`: the Keccak-256 hash of `data`, which is a function of the
/// bytes alone. The hash is handed back as the word that its bytes spell. Of its value one
/// case is claimed, the hash of the empty string, which is `alloy_primitives`'s
/// `KECCAK256_EMPTY`.
#[verifier::external_body]
fn keccak256_word(data: &[u8]) -> (r: U256)
    ensures
        r.val() == keccak_val(data@),
        data@.len() == 0 ==> r == spec_keccak_empty().word,
{
    let hash = alloy_primitives::keccak256(data);
    let limbs = ruint::Uint::<256, 4>::from_be_bytes(hash.0).into_limbs();
    U256::from_limbs(limbs)
}

/// The Keccak-256 hash of `data`.
pub fn keccak256(data: &[u8]) -> (r: B256)
    ensures
        r.word.val() == keccak_val(data@),
        r.word == u256::word(keccak_val(data@)),
        data@.len() == 0 ==> r == spec_keccak_empty(),
{
    let word = keccak256_word(data);
    proof {
        u256::lemma_word_of_val(word);
    }
    B256 { word }
}

} // verus!
