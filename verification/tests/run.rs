//! Whole programs.

use revm::bytecode::opcode::OpCode;
use revm::bytecode::Bytecode;
use revm::host::DummyHost;
use revm::instructions::instruction_table;
use revm::interpreter::interpreter_types::{Jumps, LoopControl};
use revm::interpreter::{
    CallOperands, CreateOperands, ExtBytecode, FrameRequest, InputsImpl, InstructionResult, Interpreter, InterpreterAction, SharedMemory,
};
use revm::primitives::{Address, SpecId, U256};

fn interpreter(code: &[u8], memory: SharedMemory, gas_limit: u64) -> Interpreter {
    Interpreter::new(
        memory,
        ExtBytecode::new(Bytecode::new_raw(code.to_vec())),
        InputsImpl::default(),
        false,
        SpecId::default(),
        gas_limit,
    )
}

fn run(code: &[u8]) -> InstructionResult {
    let mut interpreter = interpreter(code, SharedMemory::new(), 1_000_000);
    let table = instruction_table();
    let mut host = DummyHost;
    let action = interpreter.run_plain(&table, &mut host);
    action
        .instruction_result()
        .expect("run_plain returns a result")
}

#[test]
fn all_instructions_and_opcodes_used() {
    let unknown_instruction = 0x0C_usize;
    let instr_table = instruction_table();

    let unknown_istr = instr_table[unknown_instruction];
    assert!(unknown_istr.is_unknown());
    for (i, instr) in instr_table.iter().enumerate() {
        let is_opcode_unknown = OpCode::new(i as u8).is_none();
        let is_instr_unknown = instr.is_unknown();
        assert_eq!(
            is_instr_unknown, is_opcode_unknown,
            "Opcode 0x{i:X?} is not handled",
        );
    }
}

#[test]
fn single_stop_reaches_the_end() {
    assert_eq!(run(&[0x00]), InstructionResult::Stop);
}

#[test]
fn push_then_stop_reaches_the_end() {
    assert_eq!(run(&[0x60, 0x01, 0x00]), InstructionResult::Stop);
}

#[test]
fn early_stop_does_not_reach_the_end() {
    assert_eq!(run(&[0x00, 0x60, 0x01, 0x00]), InstructionResult::Stop);
}

#[test]
fn test_mstore_big_offset_memory_oog() {
    let code = [
        0x60, 0x00, // PUSH1 0x00
        0x61, 0x27, 0x10, // PUSH2 0x2710  (10,000)
        0x52, // MSTORE
        0x00, // STOP
    ];
    let mut interpreter = interpreter(&code, SharedMemory::new(), 1000);

    let table = instruction_table();
    let mut host = DummyHost;
    let action = interpreter.run_plain(&table, &mut host);

    assert!(action.is_return());
    assert_eq!(
        action.instruction_result(),
        Some(InstructionResult::MemoryOOG)
    );
}

#[test]
fn test_mstore_big_offset_memory_limit_oog() {
    let code = [
        0x60, 0x00, // PUSH1 0x00
        0x61, 0x27, 0x10, // PUSH2 0x2710  (10,000)
        0x52, // MSTORE
        0x00, // STOP
    ];
    let mut interpreter = interpreter(&code, SharedMemory::new_with_memory_limit(1000), 100000);

    let table = instruction_table();
    let mut host = DummyHost;
    let action = interpreter.run_plain(&table, &mut host);

    assert!(action.is_return());
    assert_eq!(
        action.instruction_result(),
        Some(InstructionResult::MemoryLimitOOG)
    );
}

/// Runs code that returns one word.
fn returned(code: &[u8]) -> U256 {
    let mut interpreter = interpreter(code, SharedMemory::new(), 1_000_000);
    let action = interpreter.run_plain(&instruction_table(), &mut DummyHost);
    let result = action.into_result_return().expect("a returning action");
    assert_eq!(result.result, InstructionResult::Return);
    assert_eq!(result.output.len(), 32);
    let mut m = SharedMemory::new();
    m.resize(32);
    m.set(0, &result.output);
    m.get_u256(0)
}

#[test]
fn a_program_computes_and_returns() {
    // PUSH1 7; PUSH1 5; MUL; PUSH1 0; MSTORE; PUSH1 32; PUSH1 0; RETURN
    let code = [
        0x60, 0x07, 0x60, 0x05, 0x02, 0x60, 0x00, 0x52, 0x60, 0x20, 0x60, 0x00, 0xf3,
    ];
    assert_eq!(returned(&code), U256::from_u64(35));
}

#[test]
fn a_stored_word_survives_the_fused_store() {
    let code = [
        0x60, 0x2a, // PUSH1 42
        0x60, 0x00, // PUSH1 0
        0x81, // DUP2
        0x90, // SWAP1
        0x52, // MSTORE
        0x60, 0x20, 0x60, 0x00, 0xf3,
    ];
    assert_eq!(returned(&code), U256::from_u64(42));
    let fused = [
        0x60, 0x00, // PUSH1 0, the offset
        0x60, 0x2a, // PUSH1 42, the value
        0x90, // SWAP1: value below, offset on top
        0x81, // DUP2: the value again
        0x52, // MSTORE at offset 42
        0x60, 0x20, 0x60, 0x2a, 0xf3,
    ];
    assert_eq!(returned(&fused), U256::zero());
}

#[test]
fn a_run_stops_for_a_frame_and_goes_on_in_place() {
    // PUSH1 0 seven times; CALL; STOP
    let mut code = Vec::new();
    for _ in 0..7 {
        code.extend_from_slice(&[0x60, 0x00]);
    }
    code.extend_from_slice(&[0xf1, 0x00]);
    let mut interpreter = interpreter(&code, SharedMemory::new(), 1_000_000);
    let table = instruction_table();
    let action = interpreter.run_plain(&table, &mut DummyHost);
    assert!(matches!(
        action,
        InterpreterAction::NewFrame(FrameRequest::Call(_))
    ));
    assert_eq!(interpreter.bytecode.pc(), 15);
    assert_eq!(interpreter.stack.len(), 0);
    let action = interpreter.run_plain(&table, &mut DummyHost);
    assert_eq!(action.instruction_result(), Some(InstructionResult::Stop));
}

#[test]
fn a_step_runs_one_instruction() {
    let mut interpreter = interpreter(&[0x60, 0x03, 0x00], SharedMemory::new(), 100);
    let table = instruction_table();
    interpreter.step(&table, &mut DummyHost);
    assert_eq!(interpreter.bytecode.pc(), 2);
    assert_eq!(interpreter.stack.peek(0), Ok(U256::from_u64(3)));
    assert_eq!(interpreter.gas.remaining(), 97);
}

#[test]
fn unknown_and_invalid_opcodes_halt() {
    assert_eq!(run(&[0x0c]), InstructionResult::OpcodeNotFound);
    assert_eq!(run(&[0xfe]), InstructionResult::InvalidFEOpcode);
    assert_eq!(run(&[0x50]), InstructionResult::StackUnderflow);
    assert_eq!(run(&[0x60, 0x00, 0x56]), InstructionResult::InvalidJump);
    assert_eq!(
        run(&[0x60, 0x00, 0x60, 0x00, 0xfd]),
        InstructionResult::Revert
    );
}

#[test]
fn a_run_ends_with_its_output() {
    let table = instruction_table();
    let mut first = interpreter(&[0x60, 0x01, 0x00], SharedMemory::new(), 100);
    let output = first.run_plain_as_output(&table, &mut DummyHost);
    assert_eq!(output.instruction_result(), Some(InstructionResult::Stop));
    assert_eq!(first.stack.data(), &[U256::from_u64(1)]);
    let mut second = interpreter(&[0x00], SharedMemory::new(), 100);
    second.halt(InstructionResult::Revert);
    assert_eq!(second.gas.remaining(), u64::MAX);
    let output = second.take_next_action_as_output();
    assert_eq!(output.instruction_result(), Some(InstructionResult::Revert));
    assert_eq!(second.gas.remaining(), 100);
}

#[test]
fn a_frame_is_asked_for_with_its_operands() {
    let u = U256::from_u64;
    let table = instruction_table();
    let mut requests = Vec::new();
    for op in [0xf0u8, 0xf5, 0xf1, 0xf2, 0xf4, 0xfa] {
        // PUSH1 7, 6, 5, 4, 3, 2, 1, so that 1 is on top.
        let mut code = Vec::new();
        for n in (1..=7u8).rev() {
            code.extend_from_slice(&[0x60, n]);
        }
        code.push(op);
        let mut interpreter = interpreter(&code, SharedMemory::new(), 1_000);
        match interpreter.run_plain(&table, &mut DummyHost) {
            InterpreterAction::NewFrame(request) => requests.push((request, interpreter.stack.len())),
            InterpreterAction::Return(_) => panic!("a frame should have been asked for"),
        }
    }
    let create = CreateOperands {
        value: u(1),
        offset: u(2),
        len: u(3),
    };
    let valued = CallOperands {
        gas_limit: u(1),
        to: Address::from_word(u(2)),
        value: Some(u(3)),
        input_offset: u(4),
        input_len: u(5),
        return_offset: u(6),
        return_len: u(7),
    };
    let plain = CallOperands {
        gas_limit: u(1),
        to: Address::from_word(u(2)),
        value: None,
        input_offset: u(3),
        input_len: u(4),
        return_offset: u(5),
        return_len: u(6),
    };
    assert_eq!(
        requests,
        vec![
            (FrameRequest::Create(create), 4),
            (FrameRequest::Create2(create, u(4)), 3),
            (FrameRequest::Call(valued), 0),
            (FrameRequest::CallCode(valued), 0),
            (FrameRequest::DelegateCall(plain), 1),
            (FrameRequest::StaticCall(plain), 1),
        ]
    );
    for op in [0xf0u8, 0xf5, 0xf1, 0xf2, 0xf4, 0xfa] {
        assert_eq!(
            run(&[0x60, 1, 0x60, 2, op]),
            InstructionResult::StackUnderflow
        );
    }
}

/// A program by its run, and by steps through the table: how it ends, the gas that is left, and
/// the size of the memory.
fn both_ways(code: &[u8], gas: u64) -> [(InstructionResult, u64, usize); 2] {
    let table = instruction_table();
    let mut whole = interpreter(code, SharedMemory::new(), gas);
    let result = whole
        .run_plain(&table, &mut DummyHost)
        .into_result_return()
        .unwrap();
    let run = (result.result, result.gas.remaining(), whole.memory.len());
    let mut stepped = interpreter(code, SharedMemory::new(), gas);
    while stepped.bytecode.is_not_end() {
        stepped.step(&table, &mut DummyHost);
    }
    let size = stepped.memory.len();
    let result = stepped.take_next_action().into_result_return().unwrap();
    [run, (result.result, result.gas.remaining(), size)]
}

#[test]
fn a_run_is_steps_through_the_table() {
    // PUSH1 1; PUSH2 7; JUMPI (taken); INVALID; JUMPDEST; PUSH1 64; PUSH1 5; DUP2; MSTORE;
    // PUSH2 19; JUMP; INVALID; JUMPDEST; STOP
    let code = [
        0x60, 0x01, 0x61, 0x00, 0x07, 0x57, 0xfe, 0x5b, 0x60, 0x40, 0x60, 0x05, 0x81, 0x52, 0x61,
        0x00, 0x13, 0x56, 0xfe, 0x5b, 0x00,
    ];
    let [run, stepped] = both_ways(&code, 1_000);
    assert_eq!(run, stepped);
    // 3 + 3 + 10 + 1, then 3 + 3 + 3 + 3 and three words of memory, then 3 + 8 + 1.
    assert_eq!(run, (InstructionResult::Stop, 1_000 - 17 - 12 - 9 - 12, 96));
    // A revert leaves the gas as well.
    let [run, stepped] = both_ways(&[0x5f, 0x5f, 0xfd], 100);
    assert_eq!(run, stepped);
    assert_eq!(run.0, InstructionResult::Revert);
    // Without the gas for a jump and its landing, both end with an error.
    let [run, stepped] = both_ways(&code, 16);
    assert_eq!((run.0, run.1), (stepped.0, stepped.1));
    assert_eq!(run.0, InstructionResult::OutOfGas);
}

#[test]
fn a_frame_that_fails_fails_as_by_the_table() {
    // A taken JUMPI to no JUMPDEST, alone and behind a PUSH2; one without gas for its landing;
    // one without gas for itself.
    let jumpi = [0x60, 0x01, 0x60, 0x06, 0x57, 0x00, 0x00];
    let push2_jumpi = [0x60, 0x01, 0x61, 0x00, 0x06, 0x57, 0x00];
    let landing = [0x60, 0x01, 0x61, 0x00, 0x06, 0x57, 0x5b, 0x00];
    // PUSH4 0xffffffff; PUSH1 5; DUP2; MSTORE, which cannot be paid for.
    let dup2_mstore = [0x63, 0xff, 0xff, 0xff, 0xff, 0x60, 0x05, 0x81, 0x52];
    for (code, gas, result, left) in [
        (&jumpi[..], 100, InstructionResult::InvalidJump, 84),
        (&push2_jumpi, 100, InstructionResult::InvalidJump, 84),
        (&landing, 16, InstructionResult::OutOfGas, 0),
        (&landing, 15, InstructionResult::OutOfGas, 0),
        (&[0x57][..], 100, InstructionResult::StackUnderflow, 90),
        (&[0x61, 0x00, 0x00, 0x57][..], 100, InstructionResult::StackUnderflow, 87),
        (&dup2_mstore, 1_000, InstructionResult::MemoryOOG, 988),
        (&dup2_mstore, 11, InstructionResult::OutOfGas, 0),
        (&[0x01][..], 10, InstructionResult::StackUnderflow, 7),
    ] {
        let [run, stepped] = both_ways(code, gas);
        assert_eq!((run.0, run.1), (stepped.0, stepped.1));
        assert_eq!((run.0, run.1), (result, left));
    }
    // A JUMP with gas for itself and its landing: the same result, and the landing is spent in
    // a run.
    for code in [&[0x60, 0x04, 0x56, 0x00, 0x00][..], &[0x61, 0x00, 0x05, 0x56, 0x00, 0x00]] {
        let [run, stepped] = both_ways(code, 20);
        assert_eq!((run.0, run.1), (InstructionResult::InvalidJump, 8));
        assert_eq!((stepped.0, stepped.1), (InstructionResult::InvalidJump, 9));
        // With gas for the JUMP alone, a run is out of gas.
        let [run, stepped] = both_ways(code, 11);
        assert_eq!((run.0, run.1), (InstructionResult::OutOfGas, 0));
        assert_eq!((stepped.0, stepped.1), (InstructionResult::InvalidJump, 0));
        // Without gas for the JUMP, both are.
        let [run, stepped] = both_ways(code, 10);
        assert_eq!((run.0, run.1), (stepped.0, stepped.1));
        assert_eq!((run.0, run.1), (InstructionResult::OutOfGas, 0));
    }
}
