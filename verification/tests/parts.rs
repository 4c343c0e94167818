//! The smaller parts of the machine.

use revm::bytecode::Bytecode;
use revm::gas::Gas;
use revm::handler::{Context, EvmTr, MainBuilder, MainContext};
use revm::instructions::instruction_table;
use revm::interpreter::be_word::{bswap64_halves_masked, bswap64_masked, bswap_masks};
use revm::interpreter::interpreter_types::Jumps;
use revm::interpreter::{
    ExtBytecode, InputsImpl, InstructionResult, Interpreter, InterpreterAction, SharedMemory, Stack,
};
use revm::journal::{EmptyDB, JournalInner};
use revm::primitives::keccak::keccak256;
use revm::primitives::{SpecId, B256, U256};

fn interpreter(code: &[u8]) -> Interpreter {
    Interpreter::new(
        SharedMemory::new(),
        ExtBytecode::new(Bytecode::new_raw(code.to_vec())),
        InputsImpl::default(),
        false,
        SpecId::default(),
        1_000,
    )
}

#[test]
fn counters_are_set() {
    let mut gas = Gas::new(100);
    gas.set_spent(30);
    assert_eq!(gas.remaining(), 70);
    gas.set_spent(300);
    assert_eq!(gas.remaining(), 0);
    gas.set_refund(-5);
    assert_eq!(gas.refunded(), -5);
    gas.set_remaining(8);
    assert_eq!(gas.remaining(), 8);
}

#[test]
fn bytes_are_swapped() {
    let (m1, m2) = bswap_masks();
    assert_eq!(
        bswap64_masked(0x0102_0304_0506_0708, m1, m2),
        0x0807_0605_0403_0201
    );
    assert_eq!(
        bswap64_halves_masked(0x0102_0304_0506_0708, m1, m2),
        0x0403_0201_0807_0605
    );
}

#[test]
fn code_under_way_is_replaced() {
    let mut code = ExtBytecode::new(Bytecode::new_raw(vec![0x00]));
    assert_eq!(code.hash(), None);
    assert_eq!(code.get_or_calculate_hash(), keccak256(&[0x00]));
    assert_eq!(code.hash(), Some(keccak256(&[0x00])));
    let made_up = B256 {
        word: U256::from_u64(9),
    };
    code.absolute_jump(1);
    ExtBytecode::replace_with_hash(&mut code, Bytecode::new_raw(vec![0x5b]), made_up);
    assert_eq!(code.pc(), 0);
    assert_eq!(code.get_or_calculate_hash(), made_up);
    assert_eq!(code.base().original_byte_slice(), &[0x5b]);
    ExtBytecode::replace_with_optional_hash(&mut code, Bytecode::new_raw(vec![0x5c]), None);
    assert_eq!(code.get_or_calculate_hash(), keccak256(&[0x5c]));
}

#[test]
fn one_instruction_runs() {
    let mut interpreter = interpreter(&[0x00]).with_bytecode(Bytecode::new_raw(vec![0x60, 7]));
    interpreter.step_dummy(&instruction_table());
    assert_eq!(interpreter.stack.data(), &[U256::from_u64(7)]);
    assert_eq!(interpreter.bytecode.pc(), 2);
    assert_eq!(interpreter.gas.spent(), 3);
}

#[test]
fn a_frame_returns_its_output() {
    let mut interpreter = interpreter(&[0x00]);
    interpreter.return_with_output(vec![4, 5]);
    match interpreter.take_next_action() {
        InterpreterAction::Return(result) => {
            assert_eq!(result.result, InstructionResult::Return);
            assert_eq!(result.output, vec![4, 5]);
            assert_eq!(result.gas.remaining(), 1_000);
        }
        InterpreterAction::NewFrame(_) => panic!("the frame should have ended"),
    }
}

#[test]
fn words_are_written_in_place() {
    let mut stack = Stack::new();
    assert!(stack.is_allocated());
    assert!(stack.push(U256::from_u64(1)));
    assert!(stack.push(U256::from_u64(2)));
    stack.data_mut()[0] = U256::from_u64(3);
    let sp = stack.sp();
    *stack.top_at(sp) = U256::from_u64(4);
    stack.push_slice_const_at(sp, &[1, 0]);
    stack.set_sp(sp + 32);
    assert_eq!(
        stack.data(),
        &[U256::from_u64(3), U256::from_u64(4), U256::from_u64(256)]
    );
}

#[test]
fn bytes_are_written_in_place() {
    let mut memory = SharedMemory::new();
    memory.set_memory_limit(64);
    memory.resize(32);
    assert!(!memory.limit_reached(0, 64));
    assert!(memory.limit_reached(0, 65));
    memory.slice_mut(4, 2).copy_from_slice(&[6, 7]);
    memory.context_memory_mut()[0] = 5;
    assert_eq!(&memory.context_memory()[..6], &[5, 0, 0, 0, 6, 7]);
}

#[test]
fn a_subroutine_is_left_with_its_changes() {
    let mut journal = JournalInner::new();
    journal.checkpoint();
    journal.checkpoint();
    journal.checkpoint_commit();
    assert_eq!(journal.depth, 1);
    journal.checkpoint_commit();
    journal.checkpoint_commit();
    assert_eq!(journal.depth, 0);
}

#[test]
fn a_machine_hands_out_its_parts() {
    let mut evm = Context::<EmptyDB>::mainnet().build_mainnet();
    let mut journal = evm.ctx_mut().journaled_state.take();
    journal.checkpoint();
    evm.ctx_mut().journaled_state.put(journal);
    assert_eq!(evm.ctx_ref().journaled_state.inner().depth, 1);
    let (context, instructions) = evm.ctx_instructions();
    context.env.gas_limit = U256::from_u64(4);
    assert_eq!(instructions.instruction_table.len(), 256);
    let (context, precompiles) = evm.ctx_precompiles();
    assert_eq!(context.env.gas_limit, U256::from_u64(4));
    precompiles.spec = SpecId::CANCUN;
    assert_eq!(evm.precompiles.spec, SpecId::CANCUN);
}

#[test]
fn interpreters_start_from_nothing() {
    for blank in [Interpreter::invalid(), Interpreter::default_ext(), Interpreter::default()] {
        assert_eq!(blank.runtime_flag.spec_id, SpecId::default());
        assert!(!blank.runtime_flag.is_static);
        assert_eq!(blank.stack.len(), 0);
        assert_eq!(blank.gas.remaining(), blank.gas.limit());
        assert_eq!(blank.input.call_value, InputsImpl::default().call_value);
        assert_eq!(blank.input.target_address, InputsImpl::default().target_address);
    }
}
