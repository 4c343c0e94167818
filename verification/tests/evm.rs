//! Programs over a journal, and the frames of a machine.

use revm::bytecode::opcode::{
    LOG0, LOG1, LOG2, LOG3, LOG4, MSTORE, PUSH1, PUSH32, SSTORE, STOP,
};
use revm::bytecode::Bytecode;
use revm::gas::Gas;
use revm::handler::{
    Context, EthFrame, EvmTr, FrameTr, ItemOrResult, MainBuilder, MainContext,
};
use revm::host::{Host, LoadError, Log};
use revm::instructions::instruction_table;
use revm::interpreter::{
    ExtBytecode, FrameRequest, InputsImpl, InstructionResult, Interpreter, InterpreterAction,
    InterpreterResult, SharedMemory,
};
use revm::journal::database::{DbCall, DbReply};
use revm::journal::{AccountInfo, Database, EmptyDB};
use revm::primitives::keccak::keccak_empty;
use revm::primitives::{Address, SpecId, B256, U256};

/// A database with one contract and one storage slot that has a value.
struct OneSlotDb {
    contract: Address,
    code: Bytecode,
    slot: U256,
    value: U256,
}

impl Database for OneSlotDb {
    type Error = u8;

    fn replies(_: &Self, _: DbCall, _: DbReply<u8>, _: &Self) -> bool {
        true
    }

    fn basic(&mut self, address: Address) -> Result<Option<AccountInfo>, u8> {
        let code = (address == self.contract).then_some(self.code.clone());
        Ok(Some(AccountInfo {
            balance: U256::from_u64(1_000_000_000_000_000_000u64),
            nonce: 0,
            code_hash: code.as_ref().map(|c| c.hash_slow()).unwrap_or(keccak_empty()),
            code,
        }))
    }

    fn code_by_hash(&mut self, _code_hash: B256) -> Result<Bytecode, u8> {
        Ok(self.code.clone())
    }

    fn storage(&mut self, address: Address, index: U256) -> Result<U256, u8> {
        Ok(if address == self.contract && index == self.slot {
            self.value
        } else {
            U256::zero()
        })
    }

    fn block_hash(&mut self, _number: u64) -> Result<B256, u8> {
        Ok(B256::zero())
    }
}

/// What a transaction costs before its code runs.
const BASE_GAS: u64 = 21_000;

/// Calls the contract of a database with a million gas for the transaction; tells how the call
/// ended, its gas with the refund settled, and the host as it is left.
fn call(db: OneSlotDb) -> (InstructionResult, Gas, Context<OneSlotDb>) {
    let contract = db.contract;
    let mut host = Context::new(db, SpecId::PRAGUE);
    let load = host
        .load_account_info_skip_cold_load(contract, true, false)
        .unwrap();
    let code = load.code.unwrap();
    let mut input = InputsImpl::default();
    input.target_address = contract;
    let mut interpreter = Interpreter::new(
        SharedMemory::new(),
        ExtBytecode::new(code),
        input,
        false,
        SpecId::PRAGUE,
        1_000_000 - BASE_GAS,
    );
    let action = interpreter.run_plain(&instruction_table(), &mut host);
    let result = action.into_result_return().unwrap();
    (result.result, result.gas, host)
}

fn address_ff() -> Address {
    Address::from_word(U256::from_u64(0xff))
}

#[test]
fn sstore_gas_matches_the_eip_numbers() {
    let contract = address_ff();
    let slot = U256::from_u64(7);

    // PUSH1 <new>; PUSH1 7; SSTORE; STOP
    let code =
        |new_value: u8| Bytecode::new_legacy(vec![PUSH1, new_value, PUSH1, 0x07, SSTORE, STOP]);

    // (original, new, expected gas_used)
    let cases: [(u64, u8, u64); 4] = [
        // Clean zero slot set to non-zero: cold 2,100 + SSTORE_SET 20,000.
        (0, 1, 21_006 + 2_100 + 20_000),
        // Clean non-zero slot changed: cold 2,100 + SSTORE_RESET 2,900.
        (1, 2, 21_006 + 2_100 + 2_900),
        // Clean non-zero slot cleared: the same 5,000, then a 4,800 refund, which is
        // under the one-fifth cap of 26,006 / 5 = 5,201 and so applies in full.
        (1, 0, 21_006 + 2_100 + 2_900 - 4_800),
        // No-op write of the value already there: cold 2,100 + a warm read, 100.
        (3, 3, 21_006 + 2_100 + 100),
    ];

    for (original, new, expected) in cases {
        let (result, gas, host) = call(OneSlotDb {
            contract,
            code: code(new),
            slot,
            value: U256::from_u64(original),
        });
        assert!(
            result.is_ok(),
            "SSTORE {original} -> {new} reverted: {:?}",
            result
        );
        // The gas of the transaction: the base gas and the gas of the call.
        let mut total = Gas::new(1_000_000);
        assert!(total.record_cost(BASE_GAS + gas.spent()));
        total.record_refund(gas.refunded());
        total.set_final_refund(true);
        assert_eq!(
            total.spent_sub_refunded(),
            expected,
            "SSTORE {original} -> {new}"
        );
        let stored = host
            .journaled_state
            .inner()
            .state_ref()
            .get(&contract)
            .and_then(|a| a.storage.get(&slot))
            .map(|s| s.present_value)
            .unwrap_or(U256::zero());
        assert_eq!(
            stored,
            U256::from_u64(new as u64),
            "SSTORE {original} -> {new} value"
        );
    }
}

fn word_bytes(x: &U256) -> Vec<u8> {
    x.as_limbs()
        .iter()
        .rev()
        .flat_map(|l| l.to_be_bytes())
        .collect()
}

#[test]
fn log_topics_are_emitted_in_order() {
    let topics: [U256; 4] = [
        U256::from_limbs([0x0102_0304_0506_0708, 0, 0, 0]),
        U256::from_limbs([0x1112_1314_1516_1718, 0x2122_2324_2526_2728, 1, 0]),
        U256::from_limbs([
            0x3132_3334_3536_3738,
            0x4142_4344_4546_4748,
            0x5152_5354_5556_5758,
            0x6162_6364_6566_6768,
        ]),
        U256::zero(),
    ];
    let data = U256::from_limbs([0x7172_7374_7576_7778, 0, 0, 0x8182_8384_8586_8788]);

    for n in 0..=4usize {
        let mut code = Vec::new();
        // mem[0..32] = data
        code.push(PUSH32);
        code.extend_from_slice(&word_bytes(&data));
        code.extend_from_slice(&[PUSH1, 0x00, MSTORE]);
        // Topics, deepest first: `LOG<n>` reads topic 0 from the top of the stack.
        for i in (0..n).rev() {
            code.push(PUSH32);
            code.extend_from_slice(&word_bytes(&topics[i]));
        }
        // len, then offset -- offset is popped first.
        code.extend_from_slice(&[PUSH1, 0x20, PUSH1, 0x00]);
        code.push([LOG0, LOG1, LOG2, LOG3, LOG4][n]);
        code.push(STOP);

        let (result, _, host) = call(OneSlotDb {
            contract: address_ff(),
            code: Bytecode::new_legacy(code),
            slot: U256::zero(),
            value: U256::zero(),
        });
        assert!(result.is_ok(), "LOG{n} reverted: {result:?}");

        let logs = &host.journaled_state.inner().logs;
        assert_eq!(logs.len(), 1, "LOG{n}");
        let log = &logs[0];
        assert_eq!(log.address, address_ff(), "LOG{n} address");
        assert_eq!(log.topics.len(), n, "LOG{n} topic count");
        for (i, topic) in log.topics.iter().enumerate() {
            assert_eq!(word_bytes(&topic.word), word_bytes(&topics[i]), "LOG{n} topic {i}");
        }
        assert_eq!(&log.data[..], &word_bytes(&data)[..], "LOG{n} data");
    }
}

fn frame(code: &[u8]) -> EthFrame {
    EthFrame {
        interpreter: Interpreter::new(
            SharedMemory::new(),
            ExtBytecode::new(Bytecode::new_raw(code.to_vec())),
            InputsImpl::default(),
            false,
            SpecId::default(),
            1_000,
        ),
        is_finished: false,
    }
}

#[test]
fn a_machine_goes_from_frame_to_frame() {
    let mut evm = Context::<EmptyDB>::mainnet().build_mainnet_with_inspector(5u8);
    assert_eq!(evm.inspector, 5);
    assert_eq!(evm.instruction.instruction_table.len(), 256);
    assert!(evm.frame_stack().index().is_none());
    assert_eq!(evm.ctx().journaled_state.inner().depth, 0);

    let failed: Result<ItemOrResult<EthFrame, InterpreterResult>, u8> = Err(3);
    assert!(matches!(evm.frame_init(failed), Err(3)));
    let done: Result<ItemOrResult<EthFrame, InterpreterResult>, u8> =
        Ok(ItemOrResult::Result(InterpreterResult::new(
            InstructionResult::Stop,
            vec![1],
            Gas::new(1),
        )));
    assert!(matches!(evm.frame_init(done), Ok(ItemOrResult::Result(_))));
    assert!(evm.frame_stack().index().is_none());
    for _ in 0..2 {
        let made: Result<ItemOrResult<EthFrame, InterpreterResult>, u8> =
            Ok(ItemOrResult::Item(frame(&[0x00])));
        assert!(matches!(evm.frame_init(made), Ok(ItemOrResult::Item(_))));
    }
    assert_eq!(evm.frame_stack().index(), Some(1));
    // A frame that has not ended stays.
    assert!(evm.frame_return_result().is_some());
    assert_eq!(evm.frame_stack().index(), Some(1));
    evm.frame_stack().get().is_finished = true;
    assert!(evm.frame_return_result().is_some());
    assert_eq!(evm.frame_stack().index(), Some(0));
    evm.frame_stack().get().is_finished = true;
    assert!(evm.frame_return_result().is_none());
    assert!(evm.frame_stack().index().is_none());
    let (_, _, precompiles, _) = evm.all();
    assert_eq!(precompiles.spec, SpecId::default());
}

#[test]
fn the_innermost_frame_runs() {
    let mut evm = Context::<EmptyDB>::mainnet().build_mainnet();
    let mut call = Vec::new();
    for _ in 0..7 {
        call.extend_from_slice(&[0x60, 0x00]);
    }
    call.extend_from_slice(&[0xf1, 0x00]);
    evm.frame_stack().push(frame(&call));
    assert!(matches!(
        evm.frame_run(),
        ItemOrResult::Item(FrameRequest::Call(_))
    ));
    assert!(!evm.frame_stack().get().is_finished());
    match evm.frame_run() {
        ItemOrResult::Result(result) => assert_eq!(result.result, InstructionResult::Stop),
        ItemOrResult::Item(_) => panic!("the frame should have ended"),
    }
    assert!(evm.frame_stack().get().is_finished());
    let mut ended = frame(&[]);
    let action = InterpreterAction::new_halt(InstructionResult::Revert, Gas::new(1));
    assert!(matches!(
        ended.process_next_action(action),
        ItemOrResult::Result(_)
    ));
    assert!(ended.is_finished);
}

#[test]
fn a_machine_runs_frames_over_its_journal() {
    let contract = address_ff();
    // PUSH1 5; PUSH1 7; SSTORE; CHAINID; PUSH1 7; SLOAD; PUSH1 9; TSTORE; STOP
    let code = vec![
        0x60, 0x05, 0x60, 0x07, 0x55, 0x46, 0x60, 0x07, 0x54, 0x60, 0x09, 0x5d, 0x00,
    ];
    let mut ctx = Context::new(
        OneSlotDb {
            contract,
            code: Bytecode::new_legacy(code.clone()),
            slot: U256::from_u64(7),
            value: U256::from_u64(3),
        },
        SpecId::PRAGUE,
    );
    assert!(ctx.balance(contract).unwrap().is_cold);
    let mut evm = ctx.build_mainnet();
    let mut input = InputsImpl::default();
    input.target_address = contract;
    evm.frame_stack().push(EthFrame {
        interpreter: Interpreter::new(
            SharedMemory::new(),
            ExtBytecode::new(Bytecode::new_raw(code)),
            input,
            false,
            SpecId::PRAGUE,
            100_000,
        ),
        is_finished: false,
    });
    match evm.frame_run() {
        ItemOrResult::Result(result) => assert_eq!(result.result, InstructionResult::Stop),
        ItemOrResult::Item(_) => panic!("the frame should have ended"),
    }
    let ctx = evm.ctx();
    assert_eq!(ctx.tload(contract, U256::from_u64(9)), U256::from_u64(5));
    let slot = ctx.sload(contract, U256::from_u64(7)).unwrap();
    assert_eq!(slot.data, U256::from_u64(5));
    assert!(!slot.is_cold);
    let write = ctx.sstore(contract, U256::from_u64(7), U256::from_u64(6)).unwrap();
    assert_eq!(write.data.original_value, U256::from_u64(3));
    assert_eq!(write.data.present_value, U256::from_u64(5));
    assert_eq!(write.data.new_value, U256::from_u64(6));
    assert!(ctx.journaled_state.inner().journal.len() > 2);
}

#[test]
fn a_context_answers_from_its_journal() {
    let contract = address_ff();
    let code = vec![PUSH1, 0x01, STOP];
    let mut ctx = Context::new(
        OneSlotDb {
            contract,
            code: Bytecode::new_legacy(code.clone()),
            slot: U256::zero(),
            value: U256::from_u64(4),
        },
        SpecId::PRAGUE,
    );
    // A slot of an account that is not there cannot be read, written or destroyed.
    let other = Address::from_word(U256::from_u64(0xee));
    assert!(matches!(
        ctx.sload_skip_cold_load(other, U256::zero(), false),
        Err(LoadError::DBError)
    ));
    assert!(ctx.sload(other, U256::zero()).is_none());
    assert!(matches!(
        ctx.sstore_skip_cold_load(other, U256::zero(), U256::one(), false),
        Err(LoadError::DBError)
    ));
    assert!(ctx.sstore(other, U256::zero(), U256::one()).is_none());
    assert!(ctx.selfdestruct(other, contract).is_none());
    // A cold account is skipped if asked, and warm once it was loaded.
    assert!(matches!(
        ctx.load_account_info_skip_cold_load(contract, false, true),
        Err(LoadError::ColdLoadSkipped)
    ));
    let load = ctx
        .load_account_info_skip_cold_load(contract, false, false)
        .unwrap();
    assert!(load.is_cold && load.code.is_none());
    assert!(!ctx.balance(contract).unwrap().is_cold);
    assert_eq!(ctx.load_account_code(contract).unwrap(), code);
    assert!(matches!(
        ctx.sload_skip_cold_load(contract, U256::zero(), true),
        Err(LoadError::ColdLoadSkipped)
    ));
    assert_eq!(
        ctx.sload(contract, U256::zero()).unwrap().data,
        U256::from_u64(4)
    );
    assert_eq!(ctx.block_hash(3), Some(B256::zero()));
    ctx.tstore(contract, U256::one(), U256::from_u64(8));
    assert_eq!(ctx.tload(contract, U256::one()), U256::from_u64(8));
    ctx.log(Log {
        address: contract,
        topics: Vec::new(),
        data: vec![1, 2],
    });
    assert_eq!(ctx.journaled_state.inner().logs[0].data, vec![1, 2]);
    let met = ctx.selfdestruct(contract, other).unwrap();
    assert!(met.is_cold && met.data.had_value && !met.data.previously_destroyed);
    assert!(ctx.balance(contract).unwrap().data.is_zero());
    // The block and the transaction.
    ctx.env.block_number = U256::from_u64(12);
    ctx.env.blob_hashes = vec![U256::from_u64(6)];
    assert_eq!(ctx.block_number(), U256::from_u64(12));
    assert_eq!(ctx.blob_hash(0), Some(U256::from_u64(6)));
    assert_eq!(ctx.blob_hash(1), None);
    assert_eq!(ctx.chain_id(), U256::one());
    assert_eq!(ctx.prevrandao(), Some(U256::zero()));
    assert!(ctx.basefee().is_zero() && ctx.blob_gasprice().is_zero());
    assert!(ctx.gas_limit().is_zero() && ctx.difficulty().is_zero());
    assert!(ctx.timestamp().is_zero() && ctx.effective_gas_price().is_zero());
    assert_eq!(ctx.beneficiary(), Address::zero());
    assert_eq!(ctx.caller(), Address::zero());
}

#[test]
fn a_frame_that_is_reverted_leaves_nothing_behind() {
    let contract = address_ff();
    // PUSH1 5; PUSH1 7; SSTORE; PUSH1 6; PUSH1 9; TSTORE; PUSH0; PUSH0; LOG0; PUSH1 0xee;
    // SELFDESTRUCT
    let code = vec![
        0x60, 0x05, 0x60, 0x07, 0x55, 0x60, 0x06, 0x60, 0x09, 0x5d, 0x5f, 0x5f, 0xa0, 0x60, 0xee,
        0xff,
    ];
    let mut ctx = Context::new(
        OneSlotDb {
            contract,
            code: Bytecode::new_legacy(code.clone()),
            slot: U256::from_u64(7),
            value: U256::from_u64(3),
        },
        SpecId::PRAGUE,
    );
    let balance = ctx.balance(contract).unwrap().data;
    let mut journal = ctx.journaled_state.take();
    let checkpoint = journal.checkpoint();
    ctx.journaled_state.put(journal);
    let mut input = InputsImpl::default();
    input.target_address = contract;
    let mut evm = ctx.build_mainnet();
    evm.frame_stack().push(EthFrame {
        interpreter: Interpreter::new(
            SharedMemory::new(),
            ExtBytecode::new(Bytecode::new_raw(code)),
            input,
            false,
            SpecId::PRAGUE,
            100_000,
        ),
        is_finished: false,
    });
    match evm.frame_run() {
        ItemOrResult::Result(result) => {
            assert_eq!(result.result, InstructionResult::SelfDestruct)
        }
        ItemOrResult::Item(_) => panic!("the frame should have ended"),
    }
    let ctx = evm.ctx();
    assert!(ctx.balance(contract).unwrap().data.is_zero());
    assert_eq!(ctx.tload(contract, U256::from_u64(9)), U256::from_u64(6));
    assert_eq!(ctx.journaled_state.inner().logs.len(), 1);
    let mut journal = ctx.journaled_state.take();
    journal.checkpoint_revert(checkpoint);
    ctx.journaled_state.put(journal);
    assert_eq!(ctx.balance(contract).unwrap().data, balance);
    assert!(ctx.tload(contract, U256::from_u64(9)).is_zero());
    assert_eq!(ctx.journaled_state.inner().logs.len(), 0);
    assert_eq!(ctx.journaled_state.inner().depth, 0);
    let slot = ctx.sload(contract, U256::from_u64(7)).unwrap();
    assert_eq!(slot.data, U256::from_u64(3));
    assert!(slot.is_cold);
}
