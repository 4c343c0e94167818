//! What code is made of raw bytes: where its instructions start, where jumps may land, what runs,
//! what is stored and what is hashed.

use crate::bytecode::analysis;
use crate::bytecode::analyzed::LegacyState;
use crate::bytecode::code;
use crate::bytecode::code::CodeState;
use crate::bytecode::opcode;
use crate::primitives::address;
use crate::primitives::be;
use crate::primitives::keccak;
use crate::primitives::u256;
use vstd::prelude::*;

verus! {

/// How many bytes the instruction at a byte takes with its immediate data: `PUSH1` to `PUSH32`
/// have one to 32 of them.
pub open spec fn width(byte: int) -> int {
    if 0x60 <= byte <= 0x7f {
        byte - 0x5e
    } else {
        1
    }
}

/// An instruction starts at the first byte, and from each instruction the next one starts
/// behind its immediate data, with none between.
pub proof fn instructions_follow_each_other(code: Seq<u8>, i: int)
    requires
        0 <= i < code.len(),
        analysis::is_boundary(code, i),
    ensures
        analysis::is_boundary(code, 0),
        analysis::is_boundary(code, i + width(code[i] as int)),
        forall|j: int|
            i < j < i + width(code[i] as int) && j <= code.len()
                ==> !#[trigger] analysis::is_boundary(code, j),
{
    analysis::lemma_reaches_next(code, 0, i);
    assert forall|j: int|
        i < j < i + width(code[i] as int) && j <= code.len() implies !#[trigger] analysis::is_boundary(
        code,
        j,
    ) by {
        if analysis::is_boundary(code, j) {
            analysis::instructions_do_not_overlap(code, i, j);
        }
    }
}

/// A place in legacy code is a place to land on if there is the byte `0x5b` and an instruction
/// starts there: no `PUSH` of a few bytes before, that an instruction starts at, holds it.
pub proof fn jumps_land_on_instructions(code: Seq<u8>, i: int)
    ensures
        ({
            let state = CodeState::Legacy(LegacyState::analyzed(code));
            &&& state.valid_jump(i) <==> 0 <= i < code.len() && code[i] == 0x5b
                && analysis::is_boundary(code, i)
            &&& state.valid_jump(i) ==> forall|p: int|
                0 <= p < i && #[trigger] analysis::is_boundary(code, p) ==> p + width(
                    code[p] as int,
                ) <= i
        }),
{
    let state = CodeState::Legacy(LegacyState::analyzed(code));
    if state.valid_jump(i) {
        assert forall|p: int|
            0 <= p < i && #[trigger] analysis::is_boundary(code, p) implies p + width(
            code[p] as int,
        ) <= i by {
            analysis::instructions_do_not_overlap(code, p, i);
        }
    }
}

/// Legacy code runs with zeros behind it, of which there is at least one, and is stored as it is.
pub proof fn legacy_code_is_padded_with_zeros(code: Seq<u8>)
    ensures
        ({
            let state = CodeState::Legacy(LegacyState::analyzed(code));
            &&& state.original() == code
            &&& code.len() < state.bytes().len()
            &&& forall|i: int|
                0 <= i < state.bytes().len() ==> #[trigger] state.bytes()[i] == (if i < code.len() {
                    code[i]
                } else {
                    0u8
                })
        }),
{
    analysis::padding_is_exact(code);
    let state = CodeState::Legacy(LegacyState::analyzed(code));
    assert(state.original() =~= code);
    assert forall|i: int| 0 <= i < state.bytes().len() implies #[trigger] state.bytes()[i] == (
    if i < code.len() {
        code[i]
    } else {
        0u8
    }) by {
        if i < code.len() {
            assert(analysis::padded(code).subrange(0, code.len() as int)[i] == code[i]);
        }
    }
}

/// Padding ends where the last instruction does, with a `STOP` behind it unless that is one, and
/// one byte more. Code of no bytes becomes two zeros.
pub proof fn padding_reaches_behind_the_last_instruction(code: Seq<u8>, last: int)
    requires
        0 <= last < code.len(),
        analysis::is_boundary(code, last),
        last + width(code[last] as int) >= code.len(),
    ensures
        analysis::padded(code).len() == last + width(code[last] as int) + (if code[last] == 0 {
            1int
        } else {
            2int
        }),
        analysis::padded(Seq::<u8>::empty()) == seq![0u8, 0u8],
{
    analysis::padding_is_exact(code);
    analysis::padding_is_exact(Seq::empty());
    analysis::lemma_scan(code, 0, 0);
    let (end, op) = analysis::scan(code, 0, 0);
    let q = choose|q: int|
        0 <= q < code.len() && analysis::is_boundary(code, q) && #[trigger] analysis::next_pos(
            code,
            q,
        ) == end && code[q] == op;
    if q < last {
        analysis::instructions_do_not_overlap(code, q, last);
    } else if last < q {
        analysis::instructions_do_not_overlap(code, last, q);
    }
}

/// Bytes are a delegation if there are 23 of them and they start with `ef0100`; the last 20 spell
/// the account that is delegated to.
pub proof fn a_delegation_names_an_account(bytes: Seq<u8>)
    ensures
        code::is_delegation(bytes) <==> bytes.len() == 23 && bytes[0] == 0xef && bytes[1] == 0x01
            && bytes[2] == 0x00,
        code::is_delegation(bytes) ==> code::delegate_of(bytes).val() == be::be_val(
            bytes.subrange(3, 23),
        ),
{
    if code::is_delegation(bytes) {
        let tail = bytes.subrange(3, 23);
        be::lemma_be_val_bounds(tail);
        be::lemma_pow256_values();
        address::lemma_be_val_20(tail);
        let n = be::be_val(tail);
        assert(vstd::arithmetic::power::pow(256, 20)
            == 0x1_0000_0000_0000_0000_0000_0000_0000_0000_0000_0000int) by {
            be::lemma_pow256_values();
            reveal_with_fuel(vstd::arithmetic::power::pow, 21);
        }
        u256::lemma_val_of_word(n);
        crate::instructions::laws::control::lemma_address_of(u256::word(n));
    }
}

/// Raw bytes that start with `ef01` are taken as a delegation, which neither has jump
/// destinations nor padding, and other bytes as legacy code.
pub proof fn raw_bytes_are_told_apart_by_their_start(bytes: Seq<u8>)
    ensures
        ({
            let state = CodeState::from_raw(bytes);
            if bytes.len() >= 2 && bytes[0] == 0xef && bytes[1] == 0x01 {
                &&& state == CodeState::Eip7702(bytes)
                &&& state.bytes() == bytes
                &&& state.original() == bytes
                &&& forall|i: int| !#[trigger] state.valid_jump(i)
            } else {
                &&& state == CodeState::Legacy(LegacyState::analyzed(bytes))
                &&& state.original() == bytes
            }
        }),
{
    legacy_code_is_padded_with_zeros(bytes);
}

/// Code is hashed as it is stored; the hash of no code is a constant.
pub proof fn stored_code_is_hashed(state: CodeState)
    ensures
        state.original().len() > 0 ==> state.hash().word.val() == keccak::keccak_val(
            state.original(),
        ) % u256::word_count(),
        state.original().len() == 0 ==> state.hash().word.val()
            == 0xc5d2_4601_86f7_233c_927e_7db2_dcc7_03c0_e500_b653_ca82_273b_7bfa_d804_5d85_a470int,
{
    u256::lemma_val_of_word(keccak::keccak_val(state.original()));
}

/// These bytes are opcodes, and no others.
pub proof fn opcodes_are_these_bytes(byte: u8)
    ensures
        opcode::is_opcode(byte) <==> !(0x0c <= byte <= 0x0f || byte == 0x1f || 0x21 <= byte <= 0x2f
            || 0x4b <= byte <= 0x4f || 0xa5 <= byte <= 0xef || 0xf6 <= byte <= 0xf9 || byte == 0xfb
            || byte == 0xfc),
        opcode::immediate_len(byte) + 1 == width(byte as int),
{
}

} // verus!
