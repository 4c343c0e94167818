//! Bytecode analysis, its forms, and the code that an interpreter holds.

use revm::bytecode::{
    analyze_legacy, opcode, Bytecode, Eip7702Bytecode, Eip7702DecodeError, JumpTable,
    LegacyAnalyzedBytecode, LegacyRawBytecode, GUARD_BYTES,
};
use revm::interpreter::ExtBytecode;
use revm::primitives::Address;

#[test]
fn test_bytecode_ends_with_stop_no_padding_needed() {
    let bytecode = vec![
        opcode::PUSH1,
        0x01,
        opcode::PUSH1,
        0x02,
        opcode::ADD,
        opcode::STOP,
    ];
    let (_, padded_bytecode) = analyze_legacy(bytecode.clone());
    assert_eq!(padded_bytecode.len(), bytecode.len() + GUARD_BYTES);
}

#[test]
fn test_bytecode_ends_without_stop_requires_padding() {
    let bytecode = vec![opcode::PUSH1, 0x01, opcode::PUSH1, 0x02, opcode::ADD];
    let (_, padded_bytecode) = analyze_legacy(bytecode.clone());
    assert_eq!(padded_bytecode.len(), bytecode.len() + 1 + GUARD_BYTES);
}

#[test]
fn test_bytecode_ends_with_push16_requires_17_bytes_padding() {
    let bytecode = vec![opcode::PUSH1, 0x01, opcode::PUSH16];
    let (_, padded_bytecode) = analyze_legacy(bytecode.clone());
    assert_eq!(padded_bytecode.len(), bytecode.len() + 17 + GUARD_BYTES);
}

#[test]
fn test_bytecode_ends_with_push2_requires_2_bytes_padding() {
    let bytecode = vec![opcode::PUSH1, 0x01, opcode::PUSH2, 0x02];
    let (_, padded_bytecode) = analyze_legacy(bytecode.clone());
    assert_eq!(padded_bytecode.len(), bytecode.len() + 2 + GUARD_BYTES);
}

#[test]
fn test_empty_bytecode_requires_stop() {
    let bytecode: Vec<u8> = vec![];
    let (_, padded_bytecode) = analyze_legacy(bytecode.clone());
    assert_eq!(padded_bytecode.len(), 1 + GUARD_BYTES); // STOP plus the guard byte
}

#[test]
fn test_bytecode_with_jumpdest_at_start() {
    let bytecode = vec![opcode::JUMPDEST, opcode::PUSH1, 0x01, opcode::STOP];
    let (jump_table, _) = analyze_legacy(bytecode.clone());
    assert!(jump_table.is_valid(0)); // First byte should be a valid jumpdest
}

#[test]
fn test_bytecode_with_jumpdest_after_push() {
    let bytecode = vec![opcode::PUSH1, 0x01, opcode::JUMPDEST, opcode::STOP];
    let (jump_table, _) = analyze_legacy(bytecode.clone());
    assert!(jump_table.is_valid(2)); // JUMPDEST should be at position 2
}

#[test]
fn test_bytecode_with_multiple_jumpdests() {
    let bytecode = vec![
        opcode::JUMPDEST,
        opcode::PUSH1,
        0x01,
        opcode::JUMPDEST,
        opcode::STOP,
    ];
    let (jump_table, _) = analyze_legacy(bytecode.clone());
    assert!(jump_table.is_valid(0)); // First JUMPDEST
    assert!(jump_table.is_valid(3)); // Second JUMPDEST
}

#[test]
fn test_bytecode_with_max_push32() {
    let bytecode = vec![opcode::PUSH32];
    let (_, padded_bytecode) = analyze_legacy(bytecode.clone());
    assert_eq!(padded_bytecode.len(), bytecode.len() + 33 + GUARD_BYTES); // PUSH32 + 32 bytes + STOP
}

#[test]
fn test_bytecode_with_invalid_opcode() {
    let bytecode = vec![0xFF, opcode::STOP]; // 0xFF is an invalid opcode
    let (jump_table, _) = analyze_legacy(bytecode.clone());
    assert!(!jump_table.is_valid(0)); // Invalid opcode should not be a jumpdest
}

#[test]
fn test_bytecode_with_sequential_pushes() {
    let bytecode = vec![
        opcode::PUSH1,
        0x01,
        opcode::PUSH2,
        0x02,
        0x03,
        opcode::PUSH4,
        0x04,
        0x05,
        0x06,
        0x07,
        opcode::STOP,
    ];
    let (jump_table, padded_bytecode) = analyze_legacy(bytecode.clone());
    assert_eq!(padded_bytecode.len(), bytecode.len() + GUARD_BYTES);
    assert!(!jump_table.is_valid(0)); // PUSH1
    assert!(!jump_table.is_valid(2)); // PUSH2
    assert!(!jump_table.is_valid(5)); // PUSH4
}

/// A buffer with stale spare capacity, a fresh one and one cut out of a larger one are padded
/// alike, with zeros.
#[test]
fn both_padding_arms_produce_the_same_buffer() {
    let cases: &[&[u8]] = &[
        &[opcode::STOP],
        &[opcode::PUSH1, 0x01, opcode::STOP],
        &[opcode::PUSH1, 0x01, opcode::ADD],
        &[opcode::PUSH32],
        &[opcode::JUMPDEST, opcode::PUSH2, 0x00, 0x03],
    ];
    for case in cases {
        let mut owned = Vec::with_capacity(case.len() + 64);
        owned.extend_from_slice(case);
        owned.resize(case.len() + 64, 0xff);
        owned.truncate(case.len());
        let (t_reuse, b_reuse) = analyze_legacy(owned);

        let (t_copy, b_copy) = analyze_legacy(case.to_vec());

        let mut backing = vec![0xaa_u8; 8];
        backing.extend_from_slice(case);
        backing.extend_from_slice(&[0xbb; 8]);
        let (_, b_slice) = analyze_legacy(backing[8..8 + case.len()].to_vec());

        assert_eq!(b_reuse, b_copy, "{case:?}");
        assert_eq!(b_slice, b_copy, "sliced input diverged for {case:?}");
        assert_eq!(t_reuse.len(), t_copy.len(), "{case:?}");
        assert_eq!(&b_reuse[..case.len()], *case, "{case:?}");
        assert!(
            b_reuse[case.len()..].iter().all(|&b| b == 0),
            "padding not zeroed for {case:?}: {b_reuse:?}"
        );
    }
}

#[test]
fn both_padding_arms_agree_on_random_code() {
    let mut seed = 0x2545_F491_4F6C_DD1Du64;
    let mut next = move || {
        seed ^= seed << 13;
        seed ^= seed >> 7;
        seed ^= seed << 17;
        seed
    };
    for _ in 0..512 {
        let len = (next() % 48) as usize;
        let code: Vec<u8> = (0..len).map(|_| (next() & 0xff) as u8).collect();

        let mut roomy = Vec::with_capacity(len + 128);
        roomy.extend_from_slice(&code);
        let (_, unique) = analyze_legacy(roomy);
        let (_, shared) = analyze_legacy(code.clone());

        assert_eq!(unique, shared, "{code:?}");
        assert_eq!(&unique[..len], &code[..], "{code:?}");
        assert!(unique.len() > len, "no guard byte for {code:?}");
        assert_eq!(unique[unique.len() - 1], 0, "{code:?}");
    }
}

#[test]
fn test_bytecode_with_jumpdest_in_push_data() {
    let bytecode = vec![
        opcode::PUSH2,
        opcode::JUMPDEST, // This should not be treated as a JUMPDEST
        0x02,
        opcode::STOP,
    ];
    let (jump_table, _) = analyze_legacy(bytecode.clone());
    assert!(!jump_table.is_valid(1)); // JUMPDEST in push data should not be valid
}

#[test]
fn test_bytecode_new() {
    let bytecode = LegacyRawBytecode(vec![opcode::PUSH1, 0x01]).into_analyzed();
    let rebuilt = LegacyAnalyzedBytecode::new(
        bytecode.bytecode().to_vec(),
        bytecode.original_len(),
        bytecode.jump_table().clone(),
    );
    assert_eq!(rebuilt.bytecode(), bytecode.bytecode());
    assert_eq!(rebuilt.original_bytes(), vec![opcode::PUSH1, 0x01]);
}

#[test]
fn a_bytecode_with_no_slack_is_padded_not_rejected() {
    let code: Vec<u8> = vec![0x60, 0x01, 0x00];
    let original_len = code.len();
    let analyzed = LegacyAnalyzedBytecode::new(
        code.clone(),
        original_len,
        JumpTable::new(&vec![false; original_len]),
    );
    assert_eq!(
        analyzed.original_len(),
        original_len,
        "the original length must survive"
    );
    assert_eq!(
        analyzed.original_byte_slice(),
        &code[..],
        "the code the hash covers must be untouched"
    );
    assert!(
        analyzed.bytecode().len() > original_len,
        "the slack byte must have been supplied"
    );
    assert_eq!(
        *analyzed.bytecode().last().unwrap(),
        0,
        "the slack byte must be zero"
    );
}

#[test]
fn a_bytecode_that_already_has_slack_is_left_alone() {
    let code: Vec<u8> = vec![0x60, 0x01, 0x00, 0x00];
    let analyzed =
        LegacyAnalyzedBytecode::new(code.clone(), 3, JumpTable::new(&[false, false, false]));
    assert_eq!(analyzed.bytecode(), &code[..], "must not be rebuilt");
}

#[test]
fn test_with_hash_constructor() {
    let bytecode = Bytecode::new_raw(vec![0x60, 0x00]);
    let hash = bytecode.hash_slow();
    let ext_bytecode = ExtBytecode::new_with_hash(bytecode.clone(), hash);
    assert_eq!(ext_bytecode.hash(), Some(hash));
    assert!(ext_bytecode.hash().is_some());
    assert_eq!(ExtBytecode::new(bytecode).hash(), None);
}

#[test]
fn a_jump_table_answers_for_every_position() {
    let bits = vec![true, false, false, true, false, false, false, false, true];
    let table = JumpTable::new(&bits);
    assert_eq!(table.len(), bits.len());
    for (i, b) in bits.iter().enumerate() {
        assert_eq!(table.is_valid(i), *b, "position {i}");
    }
    assert!(!table.is_valid(bits.len()));
    assert!(!table.is_valid(usize::MAX));
    let copy = table.clone();
    assert_eq!(copy.len(), bits.len());
    assert!(copy.is_valid(3) && !copy.is_valid(4));
}

#[test]
fn delegations_are_told_from_code() {
    let mut raw = vec![0xef, 0x01, 0x00];
    raw.extend_from_slice(&[0x11; 20]);
    let code = Bytecode::new_raw_checked(raw.clone()).unwrap();
    assert!(code.is_eip7702());
    assert_eq!(code.original_byte_slice(), &raw[..]);
    let parsed = Eip7702Bytecode::new_raw(raw.clone()).unwrap();
    assert_eq!(parsed.address(), Address::from_slice(&[0x11; 20]));

    assert_eq!(
        Eip7702Bytecode::new_raw(raw[..22].to_vec()).unwrap_err(),
        Eip7702DecodeError::InvalidLength
    );
    let mut other = raw.clone();
    other[1] = 0x02;
    assert_eq!(
        Eip7702Bytecode::new_raw(other).unwrap_err(),
        Eip7702DecodeError::InvalidMagic
    );
    let mut other = raw.clone();
    other[2] = 0x01;
    assert_eq!(
        Eip7702Bytecode::new_raw(other).unwrap_err(),
        Eip7702DecodeError::UnsupportedVersion
    );
    assert!(!Bytecode::new_raw(vec![0x00]).is_eip7702());
    assert!(Bytecode::default().is_empty());
}
