//! What each change does to the accounts, to the transient storage and to the journal, and what
//! it leaves alone.

use crate::bytecode::code::CodeState;
use crate::journal::account::{AccountState, AccountStatus, EvmStorageSlot, InfoState};
use crate::journal::entry::{JournalEntry, SelfdestructionRevertStatus};
use crate::journal::laws;
use crate::journal::model::{JournalState, TransferError};
use crate::primitives::u256;
use crate::primitives::{Address, SpecId, B256, U256};
use vstd::prelude::*;

verus! {

/// The accounts are the same, but for one or two of them.
pub open spec fn same_but(s: JournalState, end: JournalState, a: Address, b: Address) -> bool {
    forall|x: Address|
        x != a && x != b ==> (#[trigger] end.state.contains_key(x) <==> s.state.contains_key(x))
            && end.state[x] == s.state[x]
}

/// Nothing but the accounts and the journal has changed.
pub open spec fn same_apart(s: JournalState, end: JournalState) -> bool {
    &&& end.transient == s.transient
    &&& end.logs == s.logs
    &&& end.depth == s.depth
    &&& end.transaction_id == s.transaction_id
    &&& end.spec == s.spec
    &&& end.warm == s.warm
}

/// An account with another balance, and touched.
pub open spec fn paid(account: AccountState, balance: U256) -> AccountState {
    AccountState {
        info: InfoState { balance, ..account.info },
        status: AccountStatus { touched: true, ..account.status },
        ..account
    }
}

/// The journal after a touch of an account.
pub open spec fn touch_entry(s: JournalState, address: Address) -> Seq<JournalEntry> {
    if s.state[address].status.touched {
        Seq::empty()
    } else {
        seq![JournalEntry::AccountTouched { address }]
    }
}

/// A touch marks the account, and is written down the first time.
pub proof fn a_touch_marks_the_account(s: JournalState, address: Address)
    requires
        s.state.contains_key(address),
    ensures
        ({
            let end = s.touched(address);
            &&& same_but(s, end, address, address)
            &&& same_apart(s, end)
            &&& end.state.contains_key(address)
            &&& end.state[address] == paid(s.state[address], s.state[address].info.balance)
            &&& end.journal == s.journal + touch_entry(s, address)
        }),
{
    let end = s.touched(address);
    assert(end.journal =~= s.journal + touch_entry(s, address));
    assert(end.state[address] == paid(s.state[address], s.state[address].info.balance));
}

/// A slot of an account that holds a value.
pub open spec fn slot_is(
    s: JournalState,
    address: Address,
    key: U256,
    slot: EvmStorageSlot,
) -> bool {
    s.state.contains_key(address) && s.state[address].storage.contains_key(key)
        && s.state[address].storage[key] == slot
}

/// Nothing of an account has changed but one slot.
pub open spec fn same_slots_but(
    before: AccountState,
    after: AccountState,
    key: U256,
) -> bool {
    &&& after.info == before.info
    &&& after.status == before.status
    &&& after.transaction_id == before.transaction_id
    &&& forall|k: U256|
        k != key ==> (#[trigger] after.storage.contains_key(k) <==> before.storage.contains_key(k))
            && after.storage[k] == before.storage[k]
}

/// A write leaves the new value in the slot, with the value that the transaction began with. The
/// value before the write is written down if it was another. The answer tells all three.
pub proof fn a_write_changes_one_slot(s: JournalState, address: Address, key: U256, new: U256)
    requires
        s.state.contains_key(address),
        s.state[address].storage.contains_key(key),
    ensures
        ({
            let end = s.stored(address, key, new);
            let slot = s.state[address].storage[key];
            let answer = s.store_result(address, key, new);
            &&& same_but(s, end, address, address)
            &&& same_apart(s, end)
            &&& same_slots_but(s.state[address], end.state[address], key)
            &&& slot_is(
                end,
                address,
                key,
                EvmStorageSlot {
                    original_value: slot.original_value,
                    present_value: new,
                    transaction_id: slot.transaction_id,
                    is_cold: slot.is_cold,
                },
            )
            &&& end.journal == s.journal + (if slot.present_value == new {
                Seq::empty()
            } else {
                seq![
                    JournalEntry::StorageChanged { address, key, had_value: slot.present_value },
                ]
            })
            &&& answer.original_value == slot.original_value
            &&& answer.present_value == slot.present_value
            &&& answer.new_value == new
        }),
{
    let end = s.stored(address, key, new);
    let slot = s.state[address].storage[key];
    assert(end.journal =~= s.journal + (if slot.present_value == new {
        Seq::empty()
    } else {
        seq![JournalEntry::StorageChanged { address, key, had_value: slot.present_value }]
    }));
}

/// A transient slot that was not written is zero. A write changes one slot and no account; the
/// value before it is written down if it was another.
pub proof fn a_transient_write_changes_one_slot(
    s: JournalState,
    address: Address,
    key: U256,
    new: U256,
    other: (Address, U256),
)
    ensures
        ({
            let end = s.tstored(address, key, new);
            &&& end.state == s.state && end.logs == s.logs && end.depth == s.depth && end.warm
                == s.warm && end.spec == s.spec && end.transaction_id == s.transaction_id
            &&& end.transient.contains_key((address, key)) <==> new.val() != 0
            &&& new.val() != 0 ==> end.transient[(address, key)] == new
            &&& other != (address, key) ==> (end.transient.contains_key(other)
                <==> s.transient.contains_key(other)) && end.transient[other] == s.transient[other]
            &&& !s.transient.contains_key(other) ==> s.transient_value(other.0, other.1).val() == 0
            &&& s.transient.contains_key(other) ==> s.transient_value(other.0, other.1)
                == s.transient[other]
            &&& s.transient_value(address, key) != new ==> end.journal == s.journal.push(
                JournalEntry::TransientStorageChange {
                    address,
                    key,
                    had_value: s.transient_value(address, key),
                },
            )
            &&& new.val() != 0 && s.transient_value(address, key) == new ==> end.journal
                == s.journal
        }),
{
    u256::lemma_val_of_word(0);
    if new.val() == 0 {
        u256::lemma_word_of_val(new);
    }
    if s.transient.contains_key(other) {
        assert((other.0, other.1) == other);
    }
}

/// Code is set with its hash, and the account is touched.
pub proof fn setting_code_changes_code_and_hash(
    s: JournalState,
    address: Address,
    code: CodeState,
    hash: B256,
)
    requires
        s.state.contains_key(address),
    ensures
        ({
            let end = s.code_set(address, code, hash);
            let before = s.state[address];
            &&& same_but(s, end, address, address)
            &&& same_apart(s, end)
            &&& end.state.contains_key(address)
            &&& end.state[address] == (AccountState {
                info: InfoState { code_hash: hash, code: Some(code), ..before.info },
                status: AccountStatus { touched: true, ..before.status },
                ..before
            })
            &&& end.journal == (s.journal + touch_entry(s, address)).push(
                JournalEntry::CodeChange { address },
            )
        }),
{
    a_touch_marks_the_account(s, address);
}

/// How a transfer between two accounts ends: a transfer of nothing touches the receiver; else
/// the sender is touched, and if it has as much, pays it, and the receiver is touched and gets it
/// unless that is too much for a balance. A transfer to the sender itself changes nothing.
pub proof fn a_transfer_is_paid_by_one_and_received_by_the_other(
    s: JournalState,
    from: Address,
    to: Address,
    balance: U256,
)
    requires
        s.state.contains_key(from),
        s.state.contains_key(to),
    ensures
        ({
            let (end, error) = s.transferred(from, to, balance);
            let amount = balance.val();
            let had = s.state[from].info.balance;
            let got = s.state[to].info.balance;
            &&& same_but(s, end, from, to)
            &&& same_apart(s, end)
            &&& if from == to {
                end == s && error == (if amount > had.val() {
                    Some(TransferError::OutOfFunds)
                } else {
                    None
                })
            } else if amount == 0 {
                error is None && end.state[from] == s.state[from] && end.state[to] == paid(
                    s.state[to],
                    got,
                ) && end.journal == s.journal + touch_entry(s, to)
            } else if amount > had.val() {
                error == Some(TransferError::OutOfFunds) && end.state[to] == s.state[to]
                    && end.state[from] == paid(s.state[from], had) && end.journal == s.journal
                    + touch_entry(s, from)
            } else if got.val() + amount >= u256::word_count() {
                &&& error == Some(TransferError::OverflowPayment)
                &&& end.state[from] == paid(s.state[from], end.state[from].info.balance)
                &&& end.state[from].info.balance.val() == had.val() - amount
                &&& end.state[to] == paid(s.state[to], got)
                &&& end.journal == s.journal + touch_entry(s, from) + touch_entry(s, to)
            } else {
                &&& error is None
                &&& end.state[from] == paid(s.state[from], end.state[from].info.balance)
                &&& end.state[to] == paid(s.state[to], end.state[to].info.balance)
                &&& end.state[from].info.balance.val() == had.val() - amount
                &&& end.state[to].info.balance.val() == got.val() + amount
                &&& end.journal == (s.journal + touch_entry(s, from) + touch_entry(s, to)).push(
                    JournalEntry::BalanceTransfer { from, to, balance },
                )
            }
        }),
{
    let amount = balance.val();
    let had = s.state[from].info.balance;
    let got = s.state[to].info.balance;
    a_touch_marks_the_account(s, from);
    a_touch_marks_the_account(s, to);
    if amount <= had.val() {
        laws::lemma_less_val(had, balance);
    }
    if got.val() + amount < u256::word_count() {
        laws::lemma_more_val(got, balance);
    }
    if from != to && amount != 0 && amount <= had.val() {
        let s1 = s.touched(from);
        let s2 = s1.with_account(
            from,
            s1.state[from].with_balance(
                crate::journal::entry::less(s1.state[from].info.balance, balance),
            ),
        );
        a_touch_marks_the_account(s2, to);
        assert(s2.journal == s.journal + touch_entry(s, from));
        assert(s2.state[to] == s.state[to]);
    }
}

/// A balance is raised, and the account touched, unless that is too much for a balance: then it
/// is touched alone. The balance before is written down if it was another.
pub proof fn a_rise_adds_to_the_balance(s: JournalState, address: Address, balance: U256)
    requires
        s.state.contains_key(address),
    ensures
        ({
            let end = s.balance_raised(address, balance);
            let had = s.state[address].info.balance;
            &&& same_but(s, end, address, address)
            &&& same_apart(s, end)
            &&& end.state[address] == paid(s.state[address], end.state[address].info.balance)
            &&& if had.val() + balance.val() >= u256::word_count() {
                end.state[address].info.balance == had && end.journal == s.journal + touch_entry(
                    s,
                    address,
                )
            } else {
                &&& end.state[address].info.balance.val() == had.val() + balance.val()
                &&& balance.val() != 0 ==> end.journal == (s.journal + touch_entry(s, address)).push(
                    JournalEntry::BalanceChange { address, old_balance: had },
                )
                &&& balance.val() == 0 ==> end.journal == s.journal + touch_entry(s, address)
            }
        }),
{
    let had = s.state[address].info.balance;
    let end = s.balance_raised(address, balance);
    a_touch_marks_the_account(s, address);
    if had.val() + balance.val() < u256::word_count() {
        laws::lemma_more_val(had, balance);
        if balance.val() == 0 {
            u256::lemma_val_injective(crate::journal::entry::more(had, balance), had);
        }
    }
    assert(s.journal + touch_entry(s, address) =~= s.touched(address).journal);
}

/// A checkpoint counts the logs and the entries, and a frame is one deeper than its caller.
pub proof fn a_checkpoint_counts(s: JournalState)
    requires
        s.logs.len() <= usize::MAX,
        s.journal.len() <= usize::MAX,
        s.depth < usize::MAX,
    ensures
        s.here().log_i == s.logs.len(),
        s.here().journal_i == s.journal.len(),
        s.entered().depth == s.depth + 1,
        s.entered() == (JournalState { depth: s.entered().depth, ..s }),
{
}

/// An account can be created where there is neither code nor a transaction.
pub proof fn an_account_in_use_is_not_created(s: JournalState, target: Address)
    ensures
        s.creatable(target) <==> s.state[target].info.nonce == 0
            && s.state[target].info.code_hash.word.val()
            == 0xc5d2_4601_86f7_233c_927e_7db2_dcc7_03c0_e500_b653_ca82_273b_7bfa_d804_5d85_a470int,
{
    let empty = crate::primitives::keccak::spec_keccak_empty();
    let hash = s.state[target].info.code_hash;
    if hash.word.val() == empty.word.val() {
        u256::lemma_val_injective(hash.word, empty.word);
    }
}

/// A creation marks the account as created and touched, takes its code away, and from Spurious
/// Dragon on sets its nonce to one. Its balance and its storage stay.
pub proof fn a_creation_marks_the_account(s: JournalState, target: Address, spec_id: SpecId)
    requires
        s.state.contains_key(target),
    ensures
        ({
            let end = s.created(target, spec_id);
            let before = s.state[target];
            &&& same_but(s, end, target, target)
            &&& same_apart(s, end)
            &&& end.state.contains_key(target)
            &&& end.state[target] == (AccountState {
                info: InfoState {
                    nonce: if spec_id.enabled(SpecId::SPURIOUS_DRAGON) {
                        1
                    } else {
                        before.info.nonce
                    },
                    code: None,
                    ..before.info
                },
                status: AccountStatus {
                    created: true,
                    created_local: true,
                    touched: true,
                    ..before.status
                },
                ..before
            })
            &&& end.journal == s.journal.push(
                JournalEntry::AccountCreated {
                    address: target,
                    is_created_globally: !before.status.created,
                },
            ) + touch_entry(s, target)
        }),
{
    let end = s.created(target, spec_id);
    assert(end.journal =~= s.journal.push(
        JournalEntry::AccountCreated {
            address: target,
            is_created_globally: !s.state[target].status.created,
        },
    ) + touch_entry(s, target));
}

/// A creation with an endowment moves it from the caller to the new account.
pub proof fn an_endowment_is_paid_by_the_caller(
    s: JournalState,
    caller: Address,
    target: Address,
    balance: U256,
)
    requires
        s.state.contains_key(caller),
        s.state.contains_key(target),
        caller != target,
    ensures
        ({
            let end = s.endowed(caller, target, balance);
            &&& same_but(s, end, caller, target)
            &&& same_apart(s, end)
            &&& end.state[caller] == (AccountState {
                info: InfoState {
                    balance: end.state[caller].info.balance,
                    ..s.state[caller].info
                },
                ..s.state[caller]
            })
            &&& end.state[target] == (AccountState {
                info: InfoState {
                    balance: end.state[target].info.balance,
                    ..s.state[target].info
                },
                ..s.state[target]
            })
            &&& end.state[caller].info.balance.val() == (s.state[caller].info.balance.val()
                - balance.val()) % u256::word_count()
            &&& end.state[target].info.balance.val() == (s.state[target].info.balance.val()
                + balance.val()) % u256::word_count()
            &&& end.journal == s.journal.push(
                JournalEntry::BalanceTransfer { from: caller, to: target, balance },
            )
        }),
{
    lemma_wraps(s.state[caller].info.balance, balance);
    lemma_wraps(s.state[target].info.balance, balance);
}

/// Whether an account counts as empty: from Spurious Dragon on without code, balance and
/// transactions, before that as one that the database did not know and nothing touched.
pub open spec fn counts_as_empty(account: AccountState, spec: SpecId) -> bool {
    let hash = account.info.code_hash.word.val();
    if spec.enabled(SpecId::SPURIOUS_DRAGON) {
        account.info.nonce == 0 && account.info.balance.val() == 0 && (hash == 0 || hash
            == 0xc5d2_4601_86f7_233c_927e_7db2_dcc7_03c0_e500_b653_ca82_273b_7bfa_d804_5d85_a470int)
    } else {
        account.status.loaded_as_not_existing && !account.status.touched
    }
}

/// An account is empty as that says.
pub proof fn an_account_is_empty_by_the_fork(account: AccountState, spec: SpecId)
    ensures
        account.clear_aware_empty(spec) == counts_as_empty(account, spec),
{
    let empty = crate::primitives::keccak::spec_keccak_empty();
    let hash = account.info.code_hash;
    if hash.word.val() == empty.word.val() {
        u256::lemma_val_injective(hash.word, empty.word);
    }
}

/// A destruction marks an account as destroyed before Cancun, or if it was created in this
/// transaction; from Cancun on other accounts only lose their balance. The balance goes to the
/// target, which is touched. Destroyed to itself, it vanishes with the account.
pub proof fn a_destruction_marks_the_account(s: JournalState, address: Address, target: Address)
    requires
        s.state.contains_key(address),
        s.state.contains_key(target),
    ensures
        ({
            let end = s.destroyed(address, target);
            let before = s.state[address];
            let goes = before.status.created_local || !s.spec.enabled(SpecId::CANCUN);
            let touches = if address == target {
                Seq::empty()
            } else {
                touch_entry(s, target)
            };
            &&& same_but(s, end, address, target)
            &&& same_apart(s, end)
            &&& address != target ==> end.state[target] == paid(
                s.state[target],
                end.state[target].info.balance,
            ) && end.state[target].info.balance.val() == (s.state[target].info.balance.val()
                + before.info.balance.val()) % u256::word_count()
            &&& end.state[address] == (AccountState {
                info: InfoState { balance: end.state[address].info.balance, ..before.info },
                status: if goes {
                    AccountStatus {
                        selfdestructed: true,
                        selfdestructed_local: true,
                        ..before.status
                    }
                } else {
                    before.status
                },
                ..before
            })
            &&& if goes || address != target {
                end.state[address].info.balance.val() == 0
            } else {
                end.state[address].info.balance == before.info.balance
            }
            &&& if goes {
                end.journal == (s.journal + touches).push(
                    JournalEntry::AccountDestroyed {
                        address,
                        target,
                        destroyed_status: if !before.status.selfdestructed {
                            SelfdestructionRevertStatus::GloballySelfdestroyed
                        } else if !before.status.selfdestructed_local {
                            SelfdestructionRevertStatus::LocallySelfdestroyed
                        } else {
                            SelfdestructionRevertStatus::RepeatedSelfdestruction
                        },
                        had_balance: before.info.balance,
                    },
                )
            } else if address != target {
                end.journal == (s.journal + touches).push(
                    JournalEntry::BalanceTransfer {
                        from: address,
                        to: target,
                        balance: before.info.balance,
                    },
                )
            } else {
                end.journal == s.journal
            }
        }),
{
    a_touch_marks_the_account(s, target);
    u256::lemma_val_of_word(0);
    if address != target {
        lemma_wraps(s.state[target].info.balance, s.state[address].info.balance);
    } else {
        assert(s.journal + Seq::<JournalEntry>::empty() =~= s.journal);
    }
}

/// The answer to a destruction: whether the account had a balance, whether the target was there,
/// and whether the account was destroyed in this transaction before.
pub proof fn a_destruction_tells_what_was_there(
    s: JournalState,
    address: Address,
    target: Address,
    is_cold: bool,
)
    ensures
        ({
            let answer = s.destruction(address, target, is_cold);
            &&& answer.is_cold == is_cold
            &&& answer.data.had_value == (s.state[address].info.balance.val() != 0)
            &&& answer.data.target_exists == !counts_as_empty(s.state[target], s.spec)
            &&& answer.data.previously_destroyed == (s.state[address].status.selfdestructed
                && s.state[address].status.selfdestructed_local)
        }),
{
    an_account_is_empty_by_the_fork(s.state[target], s.spec);
}

/// The accounts are the same, but for one or two of them.
pub open spec fn accounts_same_but(
    m: Map<Address, AccountState>,
    end: Map<Address, AccountState>,
    a: Address,
    b: Address,
) -> bool {
    forall|x: Address|
        x != a && x != b ==> (#[trigger] end.contains_key(x) <==> m.contains_key(x)) && end[x]
            == m[x]
}

/// What undoing an entry does to the accounts: the account of a load is cold again, a touch is
/// taken away, but from Spurious Dragon on not that of the third precompile, a balance is what it
/// was or goes back to where it came from, a nonce is one less, a created account is none and has
/// no nonce, a slot has its value or is cold again, and code is gone.
pub proof fn an_entry_is_undone(
    e: JournalEntry,
    m: Map<Address, AccountState>,
    dragon: bool,
)
    requires
        e.grounded(m),
    ensures
        ({
            let end = e.undone(m, dragon);
            match e {
                JournalEntry::AccountWarmed { address } => accounts_same_but(
                    m,
                    end,
                    address,
                    address,
                ) && end[address] == (AccountState {
                    status: AccountStatus { cold: true, ..m[address].status },
                    ..m[address]
                }),
                JournalEntry::AccountTouched { address } => accounts_same_but(
                    m,
                    end,
                    address,
                    address,
                ) && end[address] == (AccountState {
                    status: AccountStatus {
                        touched: m[address].status.touched && dragon && address.val() == 3,
                        ..m[address].status
                    },
                    ..m[address]
                }),
                JournalEntry::BalanceChange { address, old_balance } => accounts_same_but(
                    m,
                    end,
                    address,
                    address,
                ) && end[address] == (AccountState {
                    info: InfoState { balance: old_balance, ..m[address].info },
                    ..m[address]
                }),
                JournalEntry::NonceChange { address } => accounts_same_but(
                    m,
                    end,
                    address,
                    address,
                ) && end[address] == (AccountState {
                    info: InfoState {
                        nonce: (m[address].info.nonce - 1) as u64,
                        ..m[address].info
                    },
                    ..m[address]
                }),
                JournalEntry::AccountCreated { address, is_created_globally } => accounts_same_but(
                    m,
                    end,
                    address,
                    address,
                ) && end[address] == (AccountState {
                    info: InfoState { nonce: 0, ..m[address].info },
                    status: AccountStatus {
                        created_local: false,
                        created: m[address].status.created && !is_created_globally,
                        ..m[address].status
                    },
                    ..m[address]
                }),
                JournalEntry::CodeChange { address } => accounts_same_but(m, end, address, address)
                    && end[address] == (AccountState {
                    info: InfoState {
                        code: None,
                        code_hash: end[address].info.code_hash,
                        ..m[address].info
                    },
                    ..m[address]
                }) && end[address].info.code_hash.word.val()
                    == 0xc5d2_4601_86f7_233c_927e_7db2_dcc7_03c0_e500_b653_ca82_273b_7bfa_d804_5d85_a470int,
                JournalEntry::StorageChanged { address, key, had_value } => accounts_same_but(
                    m,
                    end,
                    address,
                    address,
                ) && same_slots_but(m[address], end[address], key) && end[address].storage[key] == (
                EvmStorageSlot { present_value: had_value, ..m[address].storage[key] }),
                JournalEntry::StorageWarmed { address, key } => accounts_same_but(
                    m,
                    end,
                    address,
                    address,
                ) && same_slots_but(m[address], end[address], key) && end[address].storage[key] == (
                EvmStorageSlot { is_cold: true, ..m[address].storage[key] }),
                JournalEntry::TransientStorageChange { .. } => end == m,
                JournalEntry::BalanceTransfer { from, to, balance } => {
                    let amount = balance.val();
                    let paid = m[from].info.balance.val();
                    let got = m[to].info.balance.val();
                    &&& accounts_same_but(m, end, from, to)
                    &&& from != to ==> {
                        &&& end[from] == (AccountState {
                            info: InfoState { balance: end[from].info.balance, ..m[from].info },
                            ..m[from]
                        })
                        &&& end[to] == (AccountState {
                            info: InfoState { balance: end[to].info.balance, ..m[to].info },
                            ..m[to]
                        })
                        &&& end[from].info.balance.val() == (paid + amount) % u256::word_count()
                        &&& end[to].info.balance.val() == (got - amount) % u256::word_count()
                    }
                },
                JournalEntry::AccountDestroyed { address, target, destroyed_status, had_balance } =>
                    {
                    let amount = had_balance.val();
                    let left = m[address].info.balance.val();
                    let got = m[target].info.balance.val();
                    let status = m[address].status;
                    &&& accounts_same_but(m, end, address, target)
                    &&& end[address] == (AccountState {
                        info: InfoState { balance: end[address].info.balance, ..m[address].info },
                        status: AccountStatus {
                            selfdestructed: status.selfdestructed && destroyed_status
                                != SelfdestructionRevertStatus::GloballySelfdestroyed,
                            selfdestructed_local: status.selfdestructed_local && destroyed_status
                                == SelfdestructionRevertStatus::RepeatedSelfdestruction,
                            ..status
                        },
                        ..m[address]
                    })
                    &&& end[address].info.balance.val() == (left + amount) % u256::word_count()
                    &&& address != target ==> end[target] == (AccountState {
                        info: InfoState { balance: end[target].info.balance, ..m[target].info },
                        ..m[target]
                    }) && end[target].info.balance.val() == (got - amount) % u256::word_count()
                },
            }
        }),
{
    match e {
        JournalEntry::AccountTouched { address } => {
            if address.val() == 3 {
                let third = crate::journal::entry::spec_precompile3();
                assert(third.val() == 3);
                assert(address == third);
            }
        },
        JournalEntry::BalanceTransfer { from, to, balance } => {
            lemma_wraps(m[from].info.balance, balance);
            lemma_wraps(m[to].info.balance, balance);
        },
        JournalEntry::AccountDestroyed { address, target, had_balance, .. } => {
            lemma_wraps(m[address].info.balance, had_balance);
            lemma_wraps(m[target].info.balance, had_balance);
        },
        _ => {},
    }
}

/// Undoing an entry puts a transient slot back, and no other entry touches the transient storage.
pub proof fn a_transient_entry_is_undone(e: JournalEntry, t: Map<(Address, U256), U256>)
    ensures
        match e {
            JournalEntry::TransientStorageChange { address, key, had_value } => e.undone_transient(
                t,
            ) == (if had_value.val() == 0 {
                t.remove((address, key))
            } else {
                t.insert((address, key), had_value)
            }),
            _ => e.undone_transient(t) == t,
        },
{
}

/// Balances wrap around.
proof fn lemma_wraps(x: U256, y: U256)
    ensures
        crate::journal::entry::more(x, y).val() == (x.val() + y.val()) % u256::word_count(),
        crate::journal::entry::less(x, y).val() == (x.val() - y.val()) % u256::word_count(),
{
    reveal(crate::journal::entry::more);
    reveal(crate::journal::entry::less);
    u256::lemma_val_of_word(x.val() + y.val());
    u256::lemma_val_of_word(x.val() - y.val());
}

/// A journal starts with nothing, in the Prague fork.
pub proof fn a_journal_starts_with_nothing()
    ensures
        ({
            let s = JournalState::fresh();
            &&& s.state == Map::<Address, AccountState>::empty()
            &&& s.transient == Map::<(Address, U256), U256>::empty()
            &&& s.logs.len() == 0
            &&& s.journal.len() == 0
            &&& s.depth == 0
            &&& s.transaction_id == 0
            &&& s.spec == SpecId::PRAGUE
            &&& s.warm.precompiles.len() == 0
            &&& s.warm.coinbase is None
            &&& s.warm.access_list == Map::<Address, Seq<U256>>::empty()
        }),
{
}

/// A return to a checkpoint undoes the entries behind it, the last one first, cuts the logs, and
/// leaves the frame. What is warm from the start, the fork and the transaction stay.
pub proof fn a_return_undoes_the_last_entry_first(
    s: JournalState,
    checkpoint: crate::journal::model::JournalCheckpoint,
)
    requires
        checkpoint.journal_i <= s.journal.len(),
        checkpoint.log_i <= s.logs.len(),
    ensures
        ({
            let end = s.reverted(checkpoint);
            let n = checkpoint.journal_i as int;
            &&& end.journal == s.journal.subrange(0, n)
            &&& end.logs == s.logs.subrange(0, checkpoint.log_i as int)
            &&& end.depth == (if s.depth > 0 {
                s.depth - 1
            } else {
                0
            })
            &&& end.spec == s.spec
            &&& end.warm == s.warm
            &&& end.transaction_id == s.transaction_id
            &&& s.journal.len() == n ==> end.state == s.state && end.transient == s.transient
            &&& s.journal.len() > n ==> {
                let e = s.journal.last();
                let before = JournalState {
                    state: e.undone(s.state, s.spec.enabled(SpecId::SPURIOUS_DRAGON)),
                    transient: e.undone_transient(s.transient),
                    journal: s.journal.drop_last(),
                    ..s
                };
                end == before.reverted(checkpoint)
            }
        }),
    decreases s.journal.len(),
{
    let n = checkpoint.journal_i as int;
    if s.journal.len() > n {
        let before = s.undone();
        a_return_undoes_the_last_entry_first(before, checkpoint);
        assert(before.journal.subrange(0, n) =~= s.journal.subrange(0, n));
    } else {
        assert(s.journal.subrange(0, n) =~= s.journal);
    }
}

/// An account that was lent is touched, gets a balance, or a higher one. The first touch and a
/// balance that is another one are written down.
pub proof fn an_account_that_was_lent_is_changed(
    account: AccountState,
    journal: Seq<JournalEntry>,
    address: Address,
    balance: U256,
)
    ensures
        ({
            let touches = if account.status.touched {
                journal
            } else {
                journal.push(JournalEntry::AccountTouched { address })
            };
            let had = account.info.balance;
            let (a, j) = crate::journal::model::account_touched(account, journal, address);
            let (b, k) = crate::journal::model::balance_set(account, journal, address, balance);
            let (c, l) = crate::journal::model::raised(account, journal, address, balance);
            &&& a == paid(account, had)
            &&& j == touches
            &&& b == paid(account, balance)
            &&& k == (if had == balance {
                touches
            } else {
                touches.push(JournalEntry::BalanceChange { address, old_balance: had })
            })
            &&& c == paid(account, c.info.balance)
            &&& had.val() + balance.val() >= u256::word_count() ==> c.info.balance == had && l
                == touches
            &&& had.val() + balance.val() < u256::word_count() ==> c.info.balance.val()
                == had.val() + balance.val()
            &&& had.val() + balance.val() < u256::word_count() && balance.val() != 0 ==> l
                == touches.push(JournalEntry::BalanceChange { address, old_balance: had })
        }),
{
    let had = account.info.balance;
    if had.val() + balance.val() < u256::word_count() {
        laws::lemma_more_val(had, balance);
    }
}

/// A journal's accounts, logs and access list are what is kept of each.
pub proof fn what_is_kept_is_told_for_each(
    m: Map<Address, crate::journal::account::Account>,
    address: Address,
    logs: Seq<crate::host::Log>,
    i: int,
    keys: Map<Address, Vec<U256>>,
)
    requires
        0 <= i < logs.len(),
    ensures
        crate::journal::account::accounts(m).contains_key(address) <==> m.contains_key(address),
        m.contains_key(address) ==> crate::journal::account::accounts(m)[address]
            == m[address]@,
        crate::journal::model::log_views(logs).len() == logs.len(),
        crate::journal::model::log_views(logs)[i] == logs[i]@,
        crate::journal::warm_addresses::key_lists(keys).contains_key(address)
            <==> keys.contains_key(address),
        keys.contains_key(address) ==> crate::journal::warm_addresses::key_lists(keys)[address]
            == keys[address]@,
{
}

/// An account and its info are told field by field.
pub proof fn an_account_is_told_as_it_is(
    account: crate::journal::account::Account,
    info: crate::journal::account::AccountInfo,
)
    ensures
        info@.balance == info.balance,
        info@.nonce == info.nonce,
        info@.code_hash == info.code_hash,
        info@.code is Some <==> info.code is Some,
        info.code matches Some(code) ==> info@.code->0 == code@,
        account@.info == account.info@,
        account@.transaction_id == account.transaction_id,
        account@.storage == account.storage@,
        account@.status == account.status,
{
}

/// A list of entries maps a key to the value of the first entry under it.
pub proof fn the_first_entry_under_a_key_counts<K, V>(entries: Seq<(K, V)>, i: int)
    requires
        0 <= i < entries.len(),
        forall|j: int| 0 <= j < i ==> (#[trigger] entries[j]).0 != entries[i].0,
    ensures
        crate::journal::keyed_map::mapped(entries).contains_key(entries[i].0),
        crate::journal::keyed_map::mapped(entries)[entries[i].0] == entries[i].1,
        forall|key: K|
            #[trigger] crate::journal::keyed_map::mapped(entries).contains_key(key)
                ==> exists|k: int| 0 <= k < entries.len() && (#[trigger] entries[k]).0 == key,
{
    assert(crate::journal::keyed_map::first_at(entries, entries[i].0, i));
    crate::journal::keyed_map::lemma_mapped(entries, entries[i].0, i);
    assert forall|key: K|
        #[trigger] crate::journal::keyed_map::mapped(entries).contains_key(key) implies exists|
        k: int,
    | 0 <= k < entries.len() && (#[trigger] entries[k]).0 == key by {
        let k = choose|k: int| crate::journal::keyed_map::first_at(entries, key, k);
        assert(entries[k].0 == key);
    }
}

/// A delegation to the address zero takes the code away.
pub proof fn a_delegation_to_zero_erases(code: CodeState)
    requires
        code is Eip7702 ==> crate::bytecode::code::is_delegation(code->Eip7702_0),
    ensures
        crate::journal::model::erases(code) <==> code is Eip7702 && forall|i: int|
            3 <= i < 23 ==> code->Eip7702_0[i] == 0,
{
    if code is Eip7702 {
        let raw = code->Eip7702_0;
        let tail = raw.subrange(3, 23);
        let to = crate::bytecode::code::delegate_of(raw);
        crate::bytecode::laws::a_delegation_names_an_account(raw);
        crate::precompile::laws::lemma_zero(tail);
        assert(to.val() == crate::primitives::be::be_val(tail));
        if forall|i: int| 3 <= i < 23 ==> raw[i] == 0 {
            assert(crate::precompile::laws::zeros(tail, 20));
        }
        if crate::precompile::laws::zeros(tail, 20) {
            assert forall|i: int| 3 <= i < 23 implies raw[i] == 0 by {
                assert(tail[i - 3] == 0);
            }
        }
    }
}

/// The places of the last two accounts are remembered; looking one up forgets none of them.
pub proof fn the_last_two_places_are_remembered(
    cache: crate::journal::inner::CacheState,
    a: Address,
    i: usize,
    b: Address,
    j: usize,
)
    ensures
        crate::journal::inner::CacheState::none().place_of(a) is None,
        cache.recorded(a, i).place_of(a) == Some(i),
        a != b ==> cache.recorded(a, i).recorded(b, j).place_of(a) == Some(i),
        cache.recorded(a, i).recorded(b, j).place_of(b) == Some(j),
        a != b ==> cache.recorded(a, i).recorded(b, j).looked_up(a).place_of(b) == Some(j),
        a != b ==> cache.recorded(a, i).recorded(b, j).looked_up(a).place_of(a) == Some(i),
{
}

/// The next transaction begins without transient storage, logs, entries and an access list; the
/// precompiles stay warm.
pub proof fn a_transaction_begins_afresh(s: JournalState, state: Map<Address, AccountState>)
    requires
        s.transaction_id < usize::MAX,
    ensures
        ({
            let next = s.next_transaction(state);
            &&& next.state == state
            &&& next.transient == Map::<(Address, U256), U256>::empty()
            &&& next.logs.len() == 0
            &&& next.journal.len() == 0
            &&& next.depth == 0
            &&& next.transaction_id == s.transaction_id + 1
            &&& next.spec == s.spec
            &&& next.warm.precompiles == s.warm.precompiles
            &&& next.warm.coinbase is None
            &&& next.warm.access_list == Map::<Address, Seq<U256>>::empty()
        }),
{
}

} // verus!
