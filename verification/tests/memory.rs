//! The memory that frames share.

use revm::gas::Gas;
use revm::interpreter::interpreter_types::MemoryTr;
use revm::interpreter::shared_memory::{
    grow_memory_word, grow_memory_word_written, resize_memory, resize_memory_written,
    SharedMemoryError,
};
use revm::interpreter::{num_words, SharedMemory};
use revm::primitives::{B256, U256};

/// The whole buffer, the parts of suspended frames as well.
fn whole(m: &SharedMemory) -> &[u8] {
    m.global_slice_range(0..m.full_len())
}

#[test]
fn test_num_words() {
    assert_eq!(num_words(0), 0);
    assert_eq!(num_words(1), 1);
    assert_eq!(num_words(31), 1);
    assert_eq!(num_words(32), 1);
    assert_eq!(num_words(33), 2);
    assert_eq!(num_words(63), 2);
    assert_eq!(num_words(64), 2);
    assert_eq!(num_words(65), 3);
    assert_eq!(num_words(usize::MAX), usize::MAX / 32);
}

#[test]
fn new_free_child_context() {
    let mut sm1 = SharedMemory::new();

    assert_eq!(sm1.full_len(), 0);
    assert_eq!(sm1.local_memory_offset(), 0);

    sm1.resize(32);
    assert_eq!(sm1.len(), 32);
    let mut sm2 = sm1.new_child_context();

    assert_eq!(sm2.full_len(), 32);
    assert_eq!(sm2.local_memory_offset(), 32);
    assert_eq!(sm2.len(), 0);

    sm2.resize(64);
    assert_eq!(sm2.len(), 64);
    let mut sm3 = sm2.new_child_context();

    assert_eq!(sm3.full_len(), 96);
    assert_eq!(sm3.local_memory_offset(), 96);
    assert_eq!(sm3.len(), 0);

    sm3.resize(32);
    let sm4 = sm3.new_child_context();
    assert_eq!(sm4.full_len(), 128);
    assert_eq!(sm4.local_memory_offset(), 128);
    assert_eq!(sm4.len(), 0);

    sm3.restore_buffer(sm4);
    sm3.free_child_context();
    assert_eq!(sm3.full_len(), 128);
    assert_eq!(sm3.local_memory_offset(), 96);
    assert_eq!(sm3.len(), 32);

    sm2.restore_buffer(sm3);
    sm2.free_child_context();
    assert_eq!(sm2.full_len(), 96);
    assert_eq!(sm2.local_memory_offset(), 32);
    assert_eq!(sm2.len(), 64);

    sm1.restore_buffer(sm2);
    sm1.free_child_context();
    assert_eq!(sm1.full_len(), 32);
    assert_eq!(sm1.local_memory_offset(), 0);
    assert_eq!(sm1.len(), 32);
}

fn xorshift(state: &mut u64) -> u64 {
    let mut x = *state;
    x ^= x << 13;
    x ^= x >> 7;
    x ^= x << 17;
    *state = x;
    x
}

/// Reads and writes go to the right place after growth past the capacity, in nested contexts,
/// after a child has grown the buffer, and after children are freed.
#[test]
fn the_cached_base_survives_reallocation_and_nesting() {
    let mut cur = SharedMemory::with_capacity(32);
    let mut parents: Vec<SharedMemory> = Vec::new();
    let mut models: Vec<Vec<U256>> = Vec::new();
    let mut model: Vec<U256> = Vec::new();
    let mut st: u64 = 0x2545_f491_4f6c_dd1d;
    let mut growths = 0usize;
    let mut nested = 0usize;

    for step in 0..2000u32 {
        match xorshift(&mut st) % 10 {
            0..=3 => {
                let words = (xorshift(&mut st) % 5) as usize + 1;
                cur.resize((model.len() + words) * 32);
                growths += 1;
                model.resize(model.len() + words, U256::zero());
            }
            4..=6 => {
                if !model.is_empty() {
                    let i = xorshift(&mut st) as usize % model.len();
                    let v = U256::from_u64(xorshift(&mut st) | 1);
                    cur.set_u256(i * 32, v);
                    model[i] = v;
                }
            }
            7 => {
                if parents.len() < 5 {
                    let child = cur.new_child_context();
                    parents.push(std::mem::replace(&mut cur, child));
                    models.push(std::mem::take(&mut model));
                    nested += 1;
                }
            }
            _ => {
                if let Some(mut parent) = parents.pop() {
                    parent.restore_buffer(std::mem::replace(&mut cur, SharedMemory::invalid()));
                    parent.free_child_context();
                    cur = parent;
                    model = models.pop().unwrap();
                }
            }
        }
        for (i, want) in model.iter().enumerate() {
            assert_eq!(cur.get_u256(i * 32), *want, "step {step}, word {i}");
        }
    }
    assert!(growths > 5, "only {growths} growths");
    assert!(nested > 20, "only {nested} child contexts");
}

#[test]
fn a_child_reallocating_refreshes_the_parents_base() {
    let mut parent = SharedMemory::with_capacity(64);
    parent.resize(32);
    parent.set_u256(0, U256::from_u64(0xDEAD_BEEFu64));

    let mut child = parent.new_child_context();
    child.resize(8192);
    child.set_u256(0, U256::from_u64(7u64));
    parent.restore_buffer(child);

    parent.free_child_context();
    assert_eq!(parent.get_u256(0), U256::from_u64(0xDEAD_BEEFu64));
    parent.set_u256(0, U256::from_u64(11u64));
    assert_eq!(parent.get_u256(0), U256::from_u64(11u64));
}

#[test]
fn resize_written_leaves_the_same_bytes_as_resize() {
    let value = U256::from_limbs([0x0102_0304_0506_0708, 0x1112, 0, 0xAABB_CCDD]);
    let mut saw_neither = 0usize;
    let mut saw_gap = 0usize;
    let mut saw_round_up = 0usize;
    let mut saw_both = 0usize;

    for checkpoint_words in [0usize, 1, 3] {
        for old_words in 0..6usize {
            for offset in [0usize, 1, 4, 31, 32, 33, 64, 96, 97, 128, 130, 160, 192] {
                let new_size = num_words(offset + 32) * 32;
                if new_size < old_words * 32 {
                    continue;
                }

                let build = || {
                    let mut parent = SharedMemory::with_capacity(4096);
                    if checkpoint_words > 0 {
                        parent.resize(checkpoint_words * 32);
                        parent.set(0, &vec![0xC7u8; checkpoint_words * 32]);
                    }
                    let mut sm = parent.new_child_context();
                    sm.resize(256);
                    sm.set(0, &[0x9Eu8; 256]);
                    parent.restore_buffer(sm);
                    parent.free_child_context();
                    let mut sm = parent.new_child_context();
                    sm.resize(old_words * 32);
                    (parent, sm)
                };

                let (_pa, mut a) = build();
                a.resize(new_size);
                a.set_u256(offset, value);

                let (_pb, mut b) = build();
                b.resize_written(new_size, offset, 32);
                b.set_u256(offset, value);

                assert_eq!(a.len(), b.len(), "offset {offset}: MSIZE diverged");
                assert_eq!(
                    whole(&a),
                    whole(&b),
                    "checkpoint {checkpoint_words}, old {old_words} words, offset {offset}: resize_written left different bytes"
                );

                let old_len = old_words * 32;
                let gap = offset > old_len;
                let round_up = new_size > offset + 32;
                match (gap, round_up) {
                    (false, false) => saw_neither += 1,
                    (true, false) => saw_gap += 1,
                    (false, true) => saw_round_up += 1,
                    (true, true) => saw_both += 1,
                }
            }
        }
    }
    assert!(
        saw_neither > 0 && saw_gap > 0 && saw_round_up > 0 && saw_both > 0,
        "sweep missed a branch: {saw_neither}/{saw_gap}/{saw_round_up}/{saw_both}"
    );
}

#[test]
fn resize() {
    let mut sm1 = SharedMemory::new();
    sm1.resize(32);
    assert_eq!(sm1.full_len(), 32);
    assert_eq!(sm1.len(), 32);
    assert_eq!(whole(&sm1).get(0..32), Some(&[0_u8; 32] as &[u8]));

    let mut sm2 = sm1.new_child_context();
    sm2.resize(96);
    assert_eq!(sm2.full_len(), 128);
    assert_eq!(sm2.len(), 96);
    assert_eq!(whole(&sm2).get(32..128), Some(&[0_u8; 96] as &[u8]));

    sm1.restore_buffer(sm2);
    sm1.free_child_context();
    assert_eq!(sm1.full_len(), 32);
    assert_eq!(sm1.len(), 32);
    assert_eq!(whole(&sm1).get(0..32), Some(&[0_u8; 32] as &[u8]));
}

#[test]
fn deserialised_shared_memory_satisfies_inv_b() {
    let mut m = SharedMemory::new();
    m.resize(64);
    m.set_u256(0, U256::from_u64(0x1122u64));

    let mut back = SharedMemory::try_from_parts(
        Some(m.global_slice_range(0..64).to_vec()),
        m.local_memory_offset(),
        None,
        u64::MAX,
    )
    .unwrap();

    assert_eq!(back.len(), 64, "the round trip carries a real buffer");
    assert_eq!(back.get_u256(0), U256::from_u64(0x1122u64));
    back.set_u256(32, U256::from_u64(7u64));
    assert_eq!(back.get_u256(32), U256::from_u64(7u64));
}

#[test]
fn stored_parts_out_of_order_are_rejected() {
    let parts = SharedMemory::try_from_parts;
    assert_eq!(
        parts(Some(vec![0; 32]), 33, None, 0).unwrap_err(),
        SharedMemoryError::Checkpoint
    );
    assert_eq!(
        parts(Some(vec![0; 32]), 16, Some(8), 0).unwrap_err(),
        SharedMemoryError::ChildCheckpoint
    );
    assert_eq!(
        parts(Some(vec![0; 32]), 16, Some(40), 0).unwrap_err(),
        SharedMemoryError::ChildCheckpoint
    );
    assert_eq!(
        parts(None, 1, None, 0).unwrap_err(),
        SharedMemoryError::NoBuffer
    );
    assert!(parts(None, 0, None, 0).is_ok());
    assert!(!SharedMemoryError::NoBuffer.message().is_empty());
}

#[test]
fn bytes_are_copied_and_padded() {
    let mut m = SharedMemory::new();
    m.resize(64);
    m.set_data(0, 2, 6, &[1, 2, 3, 4]);
    assert_eq!(m.slice_len(0, 8), &[3, 4, 0, 0, 0, 0, 0, 0]);
    m.set(32, &[9, 8, 7]);
    m.copy(33, 32, 3);
    assert_eq!(m.slice_range(32..37), &[9, 9, 8, 7, 0]);
    m.set_byte(63, 0xee);
    assert_eq!(m.get_byte(63), 0xee);
    m.set_word(0, &B256 { word: U256::max_value() });
    assert_eq!(m.get_word(0), B256 { word: U256::max_value() });
    assert_eq!(
        m.get_u256(1),
        U256::max_value().wrapping_sub(U256::from_u64(0xf6))
    );
    let mut child = m.new_child_context();
    child.resize(32);
    child.global_to_local_set_data(0, 0, 4, 30..36);
    assert_eq!(child.slice_len(0, 4), &[0xff, 0xff, 9, 9]);
    m.restore_buffer(child);
    m.free_child_context();
    assert_eq!(m.len(), 64);
}

#[test]
fn growth_is_paid_for_once() {
    let mut gas = Gas::new(100);
    let mut m = SharedMemory::new();
    assert!(resize_memory(&mut gas, &mut m, 0, 33));
    assert_eq!(gas.remaining(), 94);
    assert_eq!(m.len(), 64);
    assert!(resize_memory(&mut gas, &mut m, 10, 20));
    assert_eq!(gas.remaining(), 94);
    assert!(!resize_memory(&mut gas, &mut m, 0, 10_000));
    let small = SharedMemory::new_with_memory_limit(100);
    assert!(small.limit_reached(90, 32));
    assert!(!small.limit_reached(68, 32));
    let mut gas = Gas::new(100);
    let mut a = SharedMemory::new();
    assert!(grow_memory_word(&mut gas, &mut a, 1));
    assert_eq!((a.len(), gas.remaining()), (64, 94));
    let mut gas = Gas::new(100);
    let mut b = SharedMemory::new();
    assert!(grow_memory_word_written(&mut gas, &mut b, 1));
    b.set_u256(1, U256::zero());
    assert_eq!(whole(&a), whole(&b));
    let mut gas = Gas::new(100);
    let mut c = SharedMemory::new();
    assert!(resize_memory_written(&mut gas, &mut c, 1, 32));
    assert_eq!((c.len(), gas.remaining()), (64, 94));
}

#[test]
fn a_memory_serves_as_a_part_of_an_interpreter() {
    let mut memory = SharedMemory::new();
    assert!(MemoryTr::resize(&mut memory, 64));
    assert!(MemoryTr::resize_written(&mut memory, 96, 64, 32));
    assert_eq!(MemoryTr::size(&memory), 96);
    assert_eq!(MemoryTr::local_memory_offset(&memory), 0);
    MemoryTr::set_u256(&mut memory, 0, U256::from_u64(0x0102));
    MemoryTr::set_u256_ptr(&mut memory, 32, &U256::from_u64(0x0304));
    let mut read = U256::zero();
    MemoryTr::get_u256_to(&memory, 0, &mut read);
    assert_eq!(read, U256::from_u64(0x0102));
    assert_eq!(MemoryTr::get_u256(&memory, 32), U256::from_u64(0x0304));
    MemoryTr::set(&mut memory, 64, &[5, 6]);
    MemoryTr::copy(&mut memory, 66, 64, 2);
    MemoryTr::set_data(&mut memory, 68, 1, 3, &[7, 8]);
    assert_eq!(MemoryTr::slice(&memory, 64..71), &[5, 6, 5, 6, 8, 0, 0]);
    assert_eq!(MemoryTr::slice_len(&memory, 30, 2), &[1, 2]);
    assert_eq!(MemoryTr::global_slice(&memory, 62..64), &[3, 4]);
    assert!(!MemoryTr::limit_reached(&memory, 1, 2));
    let mut child = memory.new_child_context();
    assert!(MemoryTr::resize(&mut child, 32));
    MemoryTr::set_data_from_global(&mut child, 0, 1, 4, 63..66);
    assert_eq!(MemoryTr::slice(&child, 0..4), &[5, 6, 0, 0]);
}

#[test]
fn nothing_is_written_at_any_offset() {
    let mut memory = SharedMemory::new();
    memory.resize(32);
    memory.set(31, &[7]);
    let before = whole(&memory).to_vec();
    memory.set(32, &[]);
    memory.set(33, &[]);
    memory.set(usize::MAX, &[]);
    memory.set_data(1_000, 0, 0, &[1, 2, 3]);
    assert_eq!(whole(&memory), &before[..]);
    assert_eq!(memory.len(), 32);
}

#[test]
fn a_child_is_freed_once() {
    let mut parent = SharedMemory::new();
    parent.resize(64);
    parent.set_u256(32, U256::from_u64(9));
    let before = whole(&parent).to_vec();
    // Without a child, nothing happens.
    parent.free_child_context();
    assert_eq!(whole(&parent), &before[..]);
    let mut child = parent.new_child_context();
    child.resize(100_000);
    child.set(0, &[5; 99]);
    child.resize(32);
    child.set_u256(0, U256::from_u64(4));
    parent.restore_buffer(child);
    parent.free_child_context();
    assert_eq!(whole(&parent), &before[..]);
    parent.free_child_context();
    assert_eq!(whole(&parent), &before[..]);
    assert_eq!(parent.get_u256(32), U256::from_u64(9));
}
