//! The gas counter and its prices.

use revm::gas::{
    copy_cost, exp_cost, keccak256_cost, log_cost, memory_gas, static_selfdestruct_cost, Gas,
    MemoryGas,
};
use revm::primitives::{SpecId, U256};

#[test]
fn memory_gas_rejects_a_limit_no_expansion_could_produce() {
    for words in [0usize, 1, 2, 3, 1024, 1 << 20] {
        let mut g = MemoryGas::new();
        if words > 0 {
            let _ = g.record_new_len(words);
        }
        assert_eq!(g.words_num(), words);
        let limit = g.word_limit();
        let back = MemoryGas::try_from_limit(limit).unwrap();
        assert_eq!(back, g);
        assert_eq!(back.words_num(), words);
    }
    // Wrong residue: `limit` is `words_num * 32 - 31`, so `limit % 32 == 1` or zero.
    for bad in [2usize, 32, 64, usize::MAX, usize::MAX - 1] {
        assert!(
            MemoryGas::try_from_limit(bad).is_err(),
            "accepted limit {bad}"
        );
    }
    // Right residue, but a word count at or above `2^32`.
    let over = (1usize << 32) * 32 - 31;
    assert!(
        MemoryGas::try_from_limit(over).is_err(),
        "accepted a limit implying 2^32 words"
    );
    let just_under = ((1usize << 32) - 1) * 32 - 31;
    assert!(MemoryGas::try_from_limit(just_under).is_ok());
}

#[test]
fn gas_is_counted() {
    let mut gas = Gas::new(100);
    assert!(gas.record_cost(30));
    assert_eq!((gas.remaining(), gas.spent()), (70, 30));
    assert!(!gas.record_cost(71));
    assert_eq!(gas.remaining(), 70);
    assert_eq!(gas.remaining_63_of_64_parts(), 69);
    gas.erase_cost(10);
    assert_eq!(gas.remaining(), 80);
    gas.record_refund(15);
    gas.set_final_refund(true);
    assert_eq!(gas.refunded(), 4);
    assert_eq!(gas.spent_sub_refunded(), 16);
    gas.spend_all();
    assert_eq!(gas.remaining(), 0);
    assert_eq!(Gas::new_spent(9).spent(), 9);
    let mut gas = Gas::new(50);
    assert!(!gas.record_cost_unsafe(20));
    let stash = gas.poison();
    assert_eq!((stash, gas.remaining()), (30, u64::MAX));
    gas.unpoison(stash);
    assert_eq!(gas.remaining(), 30);
}

#[test]
fn prices_are_exact() {
    assert_eq!(memory_gas(0), 0);
    assert_eq!(memory_gas(1), 3);
    assert_eq!(memory_gas(1024), 3 * 1024 + 1024 * 1024 / 512);
    assert_eq!(exp_cost(SpecId::PRAGUE, U256::zero()), Some(10));
    assert_eq!(exp_cost(SpecId::PRAGUE, U256::from_u64(256)), Some(110));
    assert_eq!(exp_cost(SpecId::FRONTIER, U256::from_u64(256)), Some(30));
    assert_eq!(keccak256_cost(33), Some(42));
    assert_eq!(copy_cost(3, 33), Some(9));
    assert_eq!(log_cost(2, 10), Some(375 + 2 * 375 + 80));
    assert_eq!(static_selfdestruct_cost(SpecId::FRONTIER), 0);
    assert_eq!(static_selfdestruct_cost(SpecId::TANGERINE), 5000);
}

#[test]
fn growth_costs_add_up_whatever_the_steps() {
    let cost = |words: u64| 3 * words + words * words / 512;
    for lengths in [&[7usize][..], &[1, 2, 3, 7], &[5, 2, 700, 700, 24, 1_000], &[0, 0, 1]] {
        let mut memory = MemoryGas::new();
        let total: u64 = lengths
            .iter()
            .filter_map(|n| memory.record_new_len(*n))
            .sum();
        let largest = *lengths.iter().max().unwrap();
        assert_eq!(memory.words_num(), largest);
        assert_eq!(total, cost(largest as u64));
    }
}
