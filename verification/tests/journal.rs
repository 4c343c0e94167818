//! The journal.

use revm::bytecode::Bytecode;
use revm::host::Log;
use revm::journal::database::{DbCall, DbReply};
use revm::journal::{
    Account, AccountInfo, Database, EmptyDB, JournalEntry, JournalInner, JournalLoadError, KeyedMap,
    TransferError,
};
use revm::primitives::keccak::{keccak256, keccak_empty};
use revm::primitives::{Address, SpecId, B256, U256};

fn addr(n: u64) -> Address {
    Address::from_word(U256::from_u64(n))
}

fn u(n: u64) -> U256 {
    U256::from_u64(n)
}

fn info(balance: u64) -> AccountInfo {
    AccountInfo {
        balance: u(balance),
        nonce: 0,
        code_hash: keccak_empty(),
        code: Some(Bytecode::default()),
    }
}

/// A database with a balance of 1000 for every address below 100, a storage value of twice the
/// key, and a failure for address 99.
struct Numbers;

impl Database for Numbers {
    type Error = u8;

    fn replies(_: &Self, _: DbCall, _: DbReply<u8>, _: &Self) -> bool {
        true
    }

    fn basic(&mut self, address: Address) -> Result<Option<AccountInfo>, u8> {
        let n = address.into_word().as_limbs()[0];
        if n == 99 {
            Err(7)
        } else if n < 100 {
            Ok(Some(info(1000)))
        } else {
            Ok(None)
        }
    }

    fn code_by_hash(&mut self, _code_hash: B256) -> Result<Bytecode, u8> {
        Ok(Bytecode::new_raw(vec![0x5b]))
    }

    fn storage(&mut self, _address: Address, index: U256) -> Result<U256, u8> {
        Ok(index.wrapping_add(index))
    }

    fn block_hash(&mut self, number: u64) -> Result<B256, u8> {
        Ok(B256 { word: u(number) })
    }
}

#[test]
fn test_sload_skip_cold_load() {
    let mut journal = JournalInner::new();
    let mut bytes = [0u8; 20];
    bytes[0] = 0x10;
    let test_address = Address::from_slice(&bytes);
    let test_key = u(1);

    // Insert account into state
    let account_info = AccountInfo {
        balance: u(1000),
        nonce: 1,
        code_hash: keccak_empty(),
        code: Some(Bytecode::default()),
    };
    journal
        .state()
        .insert(test_address, Account::from_info(account_info));

    // Add storage slot to access list (make it warm)
    let mut access_list = KeyedMap::new();
    access_list.insert(test_address, vec![test_key]);
    journal.warm_addresses.set_access_list(access_list);

    // Try to sload with skip_cold_load=true - should succeed because slot is in access list
    let mut db = EmptyDB::new();
    let result = journal.sload(&mut db, test_address, test_key, true);

    // Should succeed and return as warm
    assert!(result.is_ok());
    let state_load = result.unwrap();
    assert!(!state_load.is_cold); // Should be warm
    assert_eq!(state_load.data, U256::zero()); // Empty slot
}

#[test]
fn loads_are_cold_once() {
    let mut journal = JournalInner::new();
    let mut db = Numbers;
    let load = journal.load_account(&mut db, addr(1)).unwrap();
    assert!(load.is_cold);
    assert_eq!(load.data.info.balance, u(1000));
    assert!(!journal.load_account(&mut db, addr(1)).unwrap().is_cold);
    assert!(journal.load_account(&mut db, addr(200)).unwrap().is_cold);
    assert_eq!(journal.load_account(&mut db, addr(99)).unwrap_err(), 7);
    assert!(matches!(
        journal.load_account_optional(&mut db, addr(2), false, true),
        Err(JournalLoadError::ColdLoadSkipped)
    ));
    journal.warm_addresses.set_coinbase(addr(3));
    journal
        .warm_addresses
        .set_precompile_addresses(vec![addr(4)]);
    assert!(!journal.load_account(&mut db, addr(3)).unwrap().is_cold);
    assert!(!journal.load_account(&mut db, addr(4)).unwrap().is_cold);
}

#[test]
fn a_return_to_a_checkpoint_brings_the_state_back() {
    let mut journal = JournalInner::new();
    let mut db = Numbers;
    journal.load_account(&mut db, addr(1)).unwrap();
    journal.load_account(&mut db, addr(2)).unwrap();
    journal.sload(&mut db, addr(1), u(5), false).unwrap();
    journal.tstore(addr(1), u(1), u(11));
    let checkpoint = journal.checkpoint();

    assert_eq!(journal.transfer_loaded(addr(1), addr(2), u(300)), None);
    let written = journal
        .sstore(&mut db, addr(1), u(5), u(77), false)
        .unwrap();
    assert!(!written.is_cold);
    assert_eq!(written.data.original_value, u(10));
    assert_eq!(written.data.present_value, u(10));
    assert_eq!(written.data.new_value, u(77));
    assert!(
        journal
            .sstore(&mut db, addr(1), u(6), u(1), false)
            .unwrap()
            .is_cold
    );
    journal.tstore(addr(1), u(1), u(12));
    journal.tstore(addr(1), u(2), u(13));
    assert!(journal.load_account(&mut db, addr(8)).unwrap().is_cold);
    journal.log(Log {
        address: addr(1),
        topics: vec![],
        data: vec![1],
    });
    journal
        .selfdestruct(&mut db, addr(2), addr(1))
        .unwrap();
    assert_eq!(journal.account(addr(1)).info.balance, u(2000));
    assert_eq!(journal.account(addr(2)).info.balance, u(0));

    journal.checkpoint_revert(checkpoint);

    assert_eq!(journal.account(addr(1)).info.balance, u(1000));
    assert_eq!(journal.account(addr(2)).info.balance, u(1000));
    assert!(!journal.account(addr(1)).is_touched());
    assert!(!journal.account(addr(2)).is_selfdestructed());
    assert_eq!(
        journal.sload(&mut db, addr(1), u(5), true).unwrap().data,
        u(10)
    );
    assert!(matches!(
        journal.sload(&mut db, addr(1), u(6), true),
        Err(JournalLoadError::ColdLoadSkipped)
    ));
    assert_eq!(journal.tload(addr(1), u(1)), u(11));
    assert_eq!(journal.tload(addr(1), u(2)), u(0));
    assert!(journal.load_account(&mut db, addr(8)).unwrap().is_cold);
    assert!(journal.logs.is_empty());
    assert_eq!(journal.depth, 0);
}

#[test]
fn transfers_can_fail() {
    let mut journal = JournalInner::new();
    let mut db = Numbers;
    assert_eq!(
        journal.transfer(&mut db, addr(1), addr(2), u(1001)),
        Ok(Some(TransferError::OutOfFunds))
    );
    assert_eq!(
        journal.transfer(&mut db, addr(1), addr(1), u(1001)),
        Ok(Some(TransferError::OutOfFunds))
    );
    assert_eq!(journal.transfer(&mut db, addr(1), addr(99), u(1)), Err(7));
    journal.state().get_mut(&addr(2)).unwrap().info.balance = U256::max_value();
    assert_eq!(
        journal.transfer(&mut db, addr(1), addr(2), u(1)),
        Ok(Some(TransferError::OverflowPayment))
    );
    // What was taken from the sender is not given back.
    assert_eq!(journal.account(addr(1)).info.balance, u(999));
    assert_eq!(journal.transfer(&mut db, addr(3), addr(4), u(10)), Ok(None));
    assert_eq!(journal.account(addr(3)).info.balance, u(990));
    assert_eq!(journal.account(addr(4)).info.balance, u(1010));
}

#[test]
fn accounts_are_created() {
    let mut journal = JournalInner::new();
    let mut db = Numbers;
    journal.load_account(&mut db, addr(1)).unwrap();
    journal.load_account(&mut db, addr(2)).unwrap();
    let checkpoint = journal
        .create_account_checkpoint(addr(1), addr(2), u(5), SpecId::PRAGUE)
        .unwrap();
    assert_eq!(journal.account(addr(2)).info.nonce, 1);
    assert_eq!(journal.account(addr(2)).info.balance, u(1005));
    assert_eq!(journal.account(addr(1)).info.balance, u(995));
    assert!(journal.account(addr(2)).is_created_locally());
    journal.checkpoint_revert(checkpoint);
    assert_eq!(journal.account(addr(2)).info.nonce, 0);
    assert_eq!(journal.account(addr(2)).info.balance, u(1000));
    assert!(!journal.account(addr(2)).is_created());

    journal.state().get_mut(&addr(2)).unwrap().info.nonce = 3;
    assert_eq!(
        journal.create_account_checkpoint(addr(1), addr(2), u(5), SpecId::PRAGUE),
        Err(TransferError::CreateCollision)
    );
    assert_eq!(journal.depth, 0);
    journal.load_account(&mut db, addr(5)).unwrap();
    journal.state().get_mut(&addr(5)).unwrap().info.balance = U256::max_value();
    assert_eq!(
        journal.create_account_checkpoint(addr(1), addr(5), u(5), SpecId::PRAGUE),
        Err(TransferError::OverflowPayment)
    );
    assert_eq!(journal.account(addr(5)).info.nonce, 0);
    assert!(!journal.account(addr(5)).is_created());
}

#[test]
fn code_is_set_and_loaded() {
    let mut journal = JournalInner::new();
    let mut db = Numbers;
    journal.load_account(&mut db, addr(1)).unwrap();
    let code = Bytecode::new_raw(vec![0x60, 0x01]);
    let hash = code.hash_slow();
    assert_eq!(hash, keccak256(&[0x60, 0x01]));
    journal.set_code(addr(1), code);
    assert_eq!(journal.account(addr(1)).info.code_hash, hash);

    // A delegation to the zero address erases the code.
    let mut raw = vec![0xef, 0x01, 0x00];
    raw.extend_from_slice(&[0; 20]);
    journal.set_code(addr(1), Bytecode::new_raw(raw));
    assert_eq!(journal.account(addr(1)).info.code_hash, keccak_empty());

    // A delegation to another account loads that account as well.
    let mut raw = vec![0xef, 0x01, 0x00];
    raw.extend_from_slice(&[0; 19]);
    raw.push(42);
    journal.set_code(addr(1), Bytecode::new_raw(raw));
    let load = journal.load_account_delegated(&mut db, addr(1)).unwrap();
    assert_eq!(load.data.is_delegate_account_cold, Some(true));
    assert!(!load.is_cold);
    let load = journal.load_account_delegated(&mut db, addr(1)).unwrap();
    assert_eq!(load.data.is_delegate_account_cold, Some(false));
    let load = journal.load_account_delegated(&mut db, addr(300)).unwrap();
    assert_eq!(load.data.is_delegate_account_cold, None);
    assert!(load.data.is_empty);

    // Code that is not loaded comes from the database.
    let account = journal.state().get_mut(&addr(42)).unwrap();
    account.info.code = None;
    account.info.code_hash = keccak256(&[0x5b]);
    let load = journal.load_code(&mut db, addr(42)).unwrap();
    assert_eq!(
        load.data.info.code.as_ref().unwrap().original_byte_slice(),
        &[0x5b]
    );
}

#[test]
fn balances_rise() {
    let mut journal = JournalInner::new();
    let mut db = Numbers;
    assert_eq!(journal.balance_incr(&mut db, addr(1), u(5)), Ok(()));
    assert_eq!(journal.account(addr(1)).info.balance, u(1005));
    assert_eq!(
        journal.balance_incr(&mut db, addr(1), U256::max_value()),
        Ok(())
    );
    assert_eq!(journal.account(addr(1)).info.balance, u(1005));
    assert_eq!(journal.balance_incr(&mut db, addr(99), u(5)), Err(7));
    assert!(journal.account(addr(1)).is_touched());
    let load = journal.load_account_mut(&mut db, addr(2)).unwrap();
    assert!(load.data.incr_balance(u(1)));
    assert_eq!(journal.account(addr(2)).info.balance, u(1001));
    assert_eq!(
        journal.journal.last(),
        Some(&JournalEntry::BalanceChange {
            address: addr(2),
            old_balance: u(1000)
        })
    );
}

#[test]
fn destruction_depends_on_the_fork() {
    // Before Cancun the account is destroyed.
    let mut journal = JournalInner::new();
    journal.set_spec_id(SpecId::SHANGHAI);
    let mut db = Numbers;
    journal.load_account(&mut db, addr(1)).unwrap();
    let load = journal.selfdestruct(&mut db, addr(1), addr(2)).unwrap();
    assert!(load.is_cold);
    assert!(load.data.had_value && load.data.target_exists && !load.data.previously_destroyed);
    assert!(journal.account(addr(1)).is_selfdestructed());
    assert_eq!(journal.account(addr(2)).info.balance, u(2000));
    let again = journal.selfdestruct(&mut db, addr(1), addr(2)).unwrap();
    assert!(!again.data.had_value && again.data.previously_destroyed);

    // From Cancun on an older account only gives its balance away.
    let mut journal = JournalInner::new();
    journal.set_spec_id(SpecId::CANCUN);
    journal.load_account(&mut db, addr(1)).unwrap();
    journal.selfdestruct(&mut db, addr(1), addr(2)).unwrap();
    assert!(!journal.account(addr(1)).is_selfdestructed());
    assert_eq!(journal.account(addr(1)).info.balance, u(0));
    // To itself, it keeps it.
    journal.load_account(&mut db, addr(3)).unwrap();
    journal.selfdestruct(&mut db, addr(3), addr(3)).unwrap();
    assert_eq!(journal.account(addr(3)).info.balance, u(1000));
}

#[test]
fn transactions_end() {
    let mut db = Numbers;
    let mut journal = JournalInner::new();
    journal.load_account(&mut db, addr(1)).unwrap();
    journal.load_account(&mut db, addr(2)).unwrap();
    journal.transfer_loaded(addr(1), addr(2), u(1));
    journal.tstore(addr(1), u(1), u(1));
    journal.commit_tx();
    assert_eq!(journal.transaction_id, 1);
    assert_eq!(journal.tload(addr(1), u(1)), u(0));
    assert_eq!(journal.account(addr(2)).info.balance, u(1001));
    // What the last transaction used is cold again.
    assert!(journal.load_account(&mut db, addr(1)).unwrap().is_cold);
    assert!(journal.load_account(&mut db, addr(2)).unwrap().is_cold);
    journal.transfer_loaded(addr(1), addr(2), u(1));
    journal.discard_tx();
    assert_eq!(journal.transaction_id, 2);
    assert_eq!(journal.account(addr(2)).info.balance, u(1001));
    let state = journal.finalize();
    assert_eq!(state.get(&addr(2)).unwrap().info.balance, u(1001));
    assert!(journal.state_ref().get(&addr(2)).is_none());
    assert_eq!(journal.transaction_id, 0);
}

#[test]
fn entries_without_changes_are_kept() {
    let mut journal = JournalInner::new();
    journal.caller_accounting_journal_entry(addr(1), u(9), true);
    assert_eq!(
        journal.journal,
        vec![
            JournalEntry::BalanceChange {
                address: addr(1),
                old_balance: u(9)
            },
            JournalEntry::AccountTouched { address: addr(1) },
            JournalEntry::NonceChange { address: addr(1) },
        ]
    );
    journal.nonce_bump_journal_entry(addr(2));
    assert_eq!(journal.journal.len(), 4);
    journal.log(Log {
        address: addr(1),
        topics: vec![],
        data: vec![],
    });
    assert_eq!(journal.take_logs().len(), 1);
    assert!(journal.logs.is_empty());
}

#[test]
fn a_map_keeps_one_value_for_a_key() {
    let mut map: KeyedMap<U256, u8> = KeyedMap::new();
    assert_eq!(map.insert(u(1), 10), None);
    assert_eq!(map.insert(u(2), 20), None);
    assert_eq!(map.insert(u(1), 11), Some(10));
    assert_eq!(map.get(&u(1)), Some(&11));
    *map.get_mut(&u(2)).unwrap() += 1;
    assert_eq!(map.remove(&u(2)), Some(21));
    assert_eq!(map.remove(&u(2)), None);
    assert!(map.contains_key(&u(1)) && !map.contains_key(&u(2)));
    map.clear();
    assert_eq!(map.get(&u(1)), None);
}

#[test]
fn what_is_warm_from_the_start_is_set() {
    let mut journal = JournalInner::new();
    let mut db = Numbers;
    journal.warm_addresses_mut().set_coinbase(addr(7));
    let mut access_list = KeyedMap::new();
    access_list.insert(addr(8), vec![u(5)]);
    journal.warm_addresses_mut().set_access_list(access_list);
    assert!(!journal.load_account(&mut db, addr(7)).unwrap().is_cold);
    assert!(!journal.load_account(&mut db, addr(8)).unwrap().is_cold);
    assert!(!journal.sload(&mut db, addr(8), u(5), false).unwrap().is_cold);
    assert!(journal.sload(&mut db, addr(8), u(6), false).unwrap().is_cold);
    assert!(journal.load_account(&mut db, addr(9)).unwrap().is_cold);
}

#[test]
fn changes_of_a_later_transaction_are_taken_back() {
    let mut journal = JournalInner::new();
    let mut db = Numbers;
    journal.set_spec_id(SpecId::PRAGUE);
    journal.commit_tx();
    journal.load_account(&mut db, addr(1)).unwrap();
    let checkpoint = journal.checkpoint();
    // An account that a later transaction got from the database counts as cold once more.
    assert_eq!(journal.transfer(&mut db, addr(1), addr(2), u(10)), Ok(None));
    journal.sstore(&mut db, addr(1), u(5), u(77), false).unwrap();
    let met = journal.selfdestruct(&mut db, addr(1), addr(4)).unwrap();
    assert!(met.data.had_value && !met.data.previously_destroyed);
    assert_eq!(
        journal.load_account(&mut db, addr(4)).unwrap().data.info.balance,
        u(1_990)
    );
    journal.checkpoint_revert(checkpoint);
    for n in [1, 2, 4] {
        let load = journal.load_account(&mut db, addr(n)).unwrap();
        assert_eq!(load.data.info.balance, u(1_000));
        assert!(load.is_cold);
        assert!(!load.data.is_touched());
    }
    let slot = journal.sload(&mut db, addr(1), u(5), false).unwrap();
    assert_eq!(slot.data, u(10));
    assert!(slot.is_cold);
}
