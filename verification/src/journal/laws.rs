//! What a return to a checkpoint brings back, and what the operations keep.

use crate::bytecode::code::CodeState;
use crate::host::{LogState, SStoreResult, StateLoad};
use crate::journal::account::{AccountState, AccountStatus, InfoState};
use crate::journal::database::{Database, DbCall, DbReply};
use crate::journal::entry;
use crate::journal::entry::JournalEntry;
use crate::journal::model;
use crate::journal::model::{JournalLoadError, JournalState, TransferError};
use crate::primitives::keccak;
use crate::primitives::u256;
use crate::primitives::{Address, SpecId, B256, U256};
use vstd::arithmetic::div_mod::*;
use vstd::prelude::*;

verus! {

/// An account as the transaction sees it: one that is cold for the transaction is opened by
/// the access that looks.
pub open spec fn seen(account: AccountState, transaction_id: usize) -> AccountState {
    if account.cold_in(transaction_id) {
        account.opened(transaction_id)
    } else {
        account
    }
}

/// Whether the next access to a slot of an account is a cold one.
pub open spec fn slot_cold(s: JournalState, address: Address, key: U256) -> bool {
    let account = seen(s.state[address], s.transaction_id);
    if account.storage.contains_key(key) {
        account.storage[key].cold_in(s.transaction_id)
    } else {
        !s.warm.slot_warm(address, key)
    }
}

/// A slot that one state has loaded has the same values in the other.
pub open spec fn slot_alike(s: JournalState, t: JournalState, address: Address, key: U256) -> bool {
    let a = seen(s.state[address], s.transaction_id);
    let b = seen(t.state[address], s.transaction_id);
    &&& slot_cold(s, address, key) == slot_cold(t, address, key)
    &&& a.storage.contains_key(key) ==> {
        &&& b.storage.contains_key(key)
        &&& b.storage[key].original_value == a.storage[key].original_value
        &&& b.storage[key].present_value == a.storage[key].present_value
    }
}

/// A touch that no return to a checkpoint takes back.
pub open spec fn keeps_touch(s: JournalState, address: Address) -> bool {
    s.dragon() && address == entry::spec_precompile3()
}

/// An account that one state has is the same in the other, as far as a transaction can tell:
/// balance, nonce, code hash, what happened to it, its slots, and what is cold. Loaded code
/// does not count, and neither do accounts and slots that only the other has, unless they are
/// warm.
pub open spec fn alike(s: JournalState, t: JournalState, address: Address) -> bool {
    &&& s.cold_load(address) == t.cold_load(address)
    &&& s.state.contains_key(address) ==> {
        let a = seen(s.state[address], s.transaction_id);
        let b = seen(t.state[address], s.transaction_id);
        &&& t.state.contains_key(address)
        &&& a.info.balance == b.info.balance
        &&& a.info.nonce == b.info.nonce
        &&& a.info.code_hash == b.info.code_hash
        &&& a.status.created == b.status.created
        &&& a.status.created_local == b.status.created_local
        &&& a.status.selfdestructed == b.status.selfdestructed
        &&& a.status.selfdestructed_local == b.status.selfdestructed_local
        &&& a.status.loaded_as_not_existing == b.status.loaded_as_not_existing
        &&& keeps_touch(s, address) || a.status.touched == b.status.touched
        &&& s.state[address].cold_in(s.transaction_id) || !t.state[address].cold_in(
            s.transaction_id,
        )
        &&& settled(s, address) ==> !t.state[address].cold_in(s.transaction_id)
            || !t.state[address].status.selfdestructed_local
        &&& forall|key: U256| #[trigger] slot_alike(s, t, address, key)
    }
}

/// A state shows everything that another one shows.
pub open spec fn restores(s: JournalState, t: JournalState) -> bool {
    &&& t.journal == s.journal
    &&& t.transaction_id == s.transaction_id
    &&& t.spec == s.spec
    &&& t.warm == s.warm
    &&& forall|address: Address| #[trigger] alike(s, t, address)
    &&& forall|address: Address, key: U256| #[trigger]
        t.transient_value(address, key) == s.transient_value(address, key)
}

/// A state shows everything that it shows.
pub proof fn lemma_restores_self(s: JournalState)
    ensures
        restores(s, s),
{
    assert forall|address: Address| #[trigger] alike(s, s, address) by {
        assert forall|key: U256| #[trigger] slot_alike(s, s, address, key) by {}
    }
}

/// What one state restores of a second, and the second of a third, the first restores of the
/// third.
pub proof fn lemma_restores_chain(s: JournalState, t: JournalState, u: JournalState)
    requires
        restores(s, t),
        restores(t, u),
    ensures
        restores(s, u),
{
    assert forall|address: Address| #[trigger] alike(s, u, address) by {
        assert(alike(s, t, address));
        assert(alike(t, u, address));
        if s.state.contains_key(address) {
            assert forall|key: U256| #[trigger] slot_alike(s, u, address, key) by {
                assert(slot_alike(s, t, address, key));
                assert(slot_alike(t, u, address, key));
            }
        }
    }
    assert forall|address: Address, key: U256| #[trigger]
        u.transient_value(address, key) == s.transient_value(address, key) by {
        assert(t.transient_value(address, key) == s.transient_value(address, key));
    }
}

/// The next access to an account finds it as it is: the transaction uses the account, or the
/// account was not destroyed before. An account that came from the database is so, even
/// where it still counts as cold.
pub open spec fn settled(s: JournalState, address: Address) -> bool {
    s.state.contains_key(address) && (!s.state[address].cold_in(s.transaction_id)
        || !s.state[address].status.selfdestructed_local)
}

/// The account of an entry was used by the transaction.
pub open spec fn live(s: JournalState, address: Address) -> bool {
    s.state.contains_key(address) && !s.state[address].cold_in(s.transaction_id)
}

/// The entry speaks of accounts that are settled and of slots that are there, and a destruction
/// of an account that the transaction uses, so that undoing it takes back what it notes and
/// nothing else.
pub open spec fn lively(e: JournalEntry, s: JournalState) -> bool {
    match e {
        JournalEntry::AccountWarmed { address } => s.state.contains_key(address),
        JournalEntry::AccountDestroyed { address, target, .. } => live(s, address) && settled(
            s,
            target,
        ),
        JournalEntry::AccountTouched { address } => settled(s, address),
        JournalEntry::BalanceChange { address, .. } => settled(s, address),
        JournalEntry::BalanceTransfer { from, to, .. } => settled(s, from) && settled(s, to),
        JournalEntry::NonceChange { address } => settled(s, address)
            && s.state[address].info.nonce > 0,
        JournalEntry::AccountCreated { address, .. } => settled(s, address),
        JournalEntry::StorageChanged { address, key, .. } => settled(s, address)
            && s.state[address].storage.contains_key(key),
        JournalEntry::StorageWarmed { address, key } => settled(s, address)
            && s.state[address].storage.contains_key(key),
        JournalEntry::TransientStorageChange { .. } => true,
        JournalEntry::CodeChange { address } => settled(s, address),
    }
}

/// The entries from the `n`th on speak of what is settled.
pub open spec fn sound_to(s: JournalState, n: int) -> bool
    decreases s.journal.len(),
{
    s.journal.len() <= n || s.journal.len() == 0 || (lively(s.journal.last(), s) && sound_to(
        s.undone(),
        n,
    ))
}

/// Entries that speak of what is settled can be undone.
pub proof fn lemma_sound_revertible(s: JournalState, n: int)
    requires
        sound_to(s, n),
    ensures
        s.revertible_to(n),
    decreases s.journal.len(),
{
    if s.journal.len() > n && s.journal.len() > 0 {
        lemma_sound_revertible(s.undone(), n);
    }
}

/// Opening an account twice is opening it once.
proof fn lemma_opened_again(account: AccountState, transaction_id: usize)
    ensures
        ({
            let open = account.opened(transaction_id);
            let cold = open.with_status(AccountStatus { cold: true, ..open.status });
            &&& open.opened(transaction_id) == open
            &&& cold.opened(transaction_id) == open
            &&& !open.cold_in(transaction_id)
        }),
{
}

/// Two states keep the same parts, apart from their accounts.
spec fn same_frame(s: JournalState, t: JournalState, s2: JournalState, t2: JournalState) -> bool {
    &&& t.transaction_id == s.transaction_id
    &&& t.spec == s.spec
    &&& t.warm == s.warm
    &&& s2.transaction_id == s.transaction_id
    &&& s2.spec == s.spec
    &&& s2.warm == s.warm
    &&& t2.transaction_id == s.transaction_id
    &&& t2.spec == s.spec
    &&& t2.warm == s.warm
}

/// An account that does not change stays alike.
proof fn lemma_alike_kept(
    s: JournalState,
    t: JournalState,
    s2: JournalState,
    t2: JournalState,
    address: Address,
)
    requires
        same_frame(s, t, s2, t2),
        alike(s, t, address),
        s2.state.contains_key(address) == s.state.contains_key(address),
        t2.state.contains_key(address) == t.state.contains_key(address),
        s.state.contains_key(address) ==> s2.state[address] == s.state[address],
        t.state.contains_key(address) ==> t2.state[address] == t.state[address],
    ensures
        alike(s2, t2, address),
{
    if s2.state.contains_key(address) {
        assert forall|key: U256| #[trigger] slot_alike(s2, t2, address, key) by {
            assert(slot_alike(s, t, address, key));
        }
    }
}

/// An account that changes in the same way in two states, and neither in its storage nor in
/// whether it is cold, stays alike.
proof fn lemma_alike_changed(
    s: JournalState,
    t: JournalState,
    s2: JournalState,
    t2: JournalState,
    address: Address,
)
    requires
        same_frame(s, t, s2, t2),
        alike(s, t, address),
        live(s, address),
        s2.state.contains_key(address),
        t2.state.contains_key(address),
        ({
            let a = s2.state[address];
            let b = t2.state[address];
            &&& a.storage == s.state[address].storage
            &&& b.storage == t.state[address].storage
            &&& a.transaction_id == s.state[address].transaction_id
            &&& b.transaction_id == t.state[address].transaction_id
            &&& a.status.cold == s.state[address].status.cold
            &&& b.status.cold == t.state[address].status.cold
            &&& a.info.balance == b.info.balance
            &&& a.info.nonce == b.info.nonce
            &&& a.info.code_hash == b.info.code_hash
            &&& a.status.created == b.status.created
            &&& a.status.created_local == b.status.created_local
            &&& a.status.selfdestructed == b.status.selfdestructed
            &&& a.status.selfdestructed_local == b.status.selfdestructed_local
            &&& a.status.loaded_as_not_existing == b.status.loaded_as_not_existing
            &&& keeps_touch(s, address) || a.status.touched == b.status.touched
        }),
    ensures
        alike(s2, t2, address),
{
    assert forall|key: U256| #[trigger] slot_alike(s2, t2, address, key) by {
        assert(slot_alike(s, t, address, key));
    }
}

/// A settled account whose balance, nonce, code or touch changes in the same way in two states,
/// or whose creation is undone in both, stays alike.
proof fn lemma_alike_paid(
    s: JournalState,
    t: JournalState,
    s2: JournalState,
    t2: JournalState,
    address: Address,
)
    requires
        same_frame(s, t, s2, t2),
        alike(s, t, address),
        settled(s, address),
        s2.state.contains_key(address),
        t2.state.contains_key(address),
        ({
            let a = s2.state[address];
            let b = t2.state[address];
            let c = s.state[address];
            let d = t.state[address];
            &&& a == (AccountState {
                info: a.info,
                status: AccountStatus {
                    touched: a.status.touched,
                    created: a.status.created,
                    created_local: a.status.created_local,
                    ..c.status
                },
                ..c
            })
            &&& b == (AccountState {
                info: b.info,
                status: AccountStatus {
                    touched: b.status.touched,
                    created: b.status.created,
                    created_local: b.status.created_local,
                    ..d.status
                },
                ..d
            })
            &&& a.status.created == b.status.created
            &&& a.status.created_local == c.status.created_local && b.status.created_local
                == d.status.created_local || !a.status.created_local && !b.status.created_local
            &&& a.info.balance == b.info.balance
            &&& a.info.nonce == b.info.nonce
            &&& a.info.code_hash == b.info.code_hash
            &&& keeps_touch(s, address) || a.status.touched == b.status.touched
        }),
    ensures
        alike(s2, t2, address),
{
    assert forall|key: U256| #[trigger] slot_alike(s2, t2, address, key) by {
        assert(slot_alike(s, t, address, key));
    }
}

/// An account that is set back to cold in two states stays alike.
proof fn lemma_alike_cooled(s: JournalState, t: JournalState, address: Address)
    requires
        restores(s, t),
        s.journal.len() > 0,
        s.journal.last() == (JournalEntry::AccountWarmed { address }),
        s.state.contains_key(address),
    ensures
        alike(s.undone(), t.undone(), address),
{
    let s2 = s.undone();
    let t2 = t.undone();
    assert(alike(s, t, address));
    lemma_opened_again(s.state[address], s.transaction_id);
    lemma_opened_again(t.state[address], s.transaction_id);
    assert forall|key: U256| #[trigger] slot_alike(s2, t2, address, key) by {
        assert(slot_alike(s, t, address, key));
    }
}

/// An account whose slot changes in the same way in two states stays alike.
proof fn lemma_alike_slot(s: JournalState, t: JournalState, address: Address, key: U256)
    requires
        restores(s, t),
        s.journal.len() > 0,
        s.journal.last() == (JournalEntry::StorageWarmed { address, key }) || (s.journal.last()
            is StorageChanged && s.journal.last()->StorageChanged_address == address
            && s.journal.last()->StorageChanged_key == key),
        settled(s, address),
        s.state[address].storage.contains_key(key),
    ensures
        alike(s.undone(), t.undone(), address),
{
    let s2 = s.undone();
    let t2 = t.undone();
    assert(alike(s, t, address));
    assert(slot_alike(s, t, address, key));
    assert forall|k: U256| #[trigger] slot_alike(s2, t2, address, k) by {
        assert(slot_alike(s, t, address, k));
    }
}

/// Undoing an entry does not tell two states apart that show the same: one account.
#[verifier::rlimit(30)]
proof fn lemma_undo_alike(s: JournalState, t: JournalState, address: Address)
    requires
        restores(s, t),
        s.journal.len() > 0,
        lively(s.journal.last(), s),
    ensures
        alike(s.undone(), t.undone(), address),
{
    let s2 = s.undone();
    let t2 = t.undone();
    assert(alike(s, t, address));
    match s.journal.last() {
        JournalEntry::AccountWarmed { address: a } => {
            assert(alike(s, t, a));
            if address == a {
                lemma_alike_cooled(s, t, address);
            } else {
                lemma_alike_kept(s, t, s2, t2, address);
            }
        },
        JournalEntry::AccountDestroyed { address: a, target: b, .. } => {
            assert(alike(s, t, a));
            assert(alike(s, t, b));
            if address == a {
                lemma_alike_changed(s, t, s2, t2, address);
            } else if address == b {
                lemma_alike_paid(s, t, s2, t2, address);
            } else {
                lemma_alike_kept(s, t, s2, t2, address);
            }
        },
        JournalEntry::BalanceTransfer { from: a, to: b, .. } => {
            assert(alike(s, t, a));
            assert(alike(s, t, b));
            if address == a || address == b {
                lemma_alike_paid(s, t, s2, t2, address);
            } else {
                lemma_alike_kept(s, t, s2, t2, address);
            }
        },
        JournalEntry::StorageChanged { address: a, key, .. } => {
            assert(alike(s, t, a));
            if address == a {
                lemma_alike_slot(s, t, address, key);
            } else {
                lemma_alike_kept(s, t, s2, t2, address);
            }
        },
        JournalEntry::StorageWarmed { address: a, key } => {
            assert(alike(s, t, a));
            if address == a {
                lemma_alike_slot(s, t, address, key);
            } else {
                lemma_alike_kept(s, t, s2, t2, address);
            }
        },
        JournalEntry::TransientStorageChange { .. } => {
            lemma_alike_kept(s, t, s2, t2, address);
        },
        JournalEntry::AccountTouched { address: a } => {
            assert(alike(s, t, a));
            if address == a {
                lemma_alike_paid(s, t, s2, t2, address);
            } else {
                lemma_alike_kept(s, t, s2, t2, address);
            }
        },
        JournalEntry::BalanceChange { address: a, .. } => {
            assert(alike(s, t, a));
            if address == a {
                lemma_alike_paid(s, t, s2, t2, address);
            } else {
                lemma_alike_kept(s, t, s2, t2, address);
            }
        },
        JournalEntry::NonceChange { address: a } => {
            assert(alike(s, t, a));
            if address == a {
                lemma_alike_paid(s, t, s2, t2, address);
            } else {
                lemma_alike_kept(s, t, s2, t2, address);
            }
        },
        JournalEntry::AccountCreated { address: a, .. } => {
            assert(alike(s, t, a));
            if address == a {
                lemma_alike_paid(s, t, s2, t2, address);
            } else {
                lemma_alike_kept(s, t, s2, t2, address);
            }
        },
        JournalEntry::CodeChange { address: a } => {
            assert(alike(s, t, a));
            if address == a {
                lemma_alike_paid(s, t, s2, t2, address);
            } else {
                lemma_alike_kept(s, t, s2, t2, address);
            }
        },
    }
}

/// Undoing an entry does not tell two states apart that show the same.
proof fn lemma_undo_restores(s: JournalState, t: JournalState)
    requires
        restores(s, t),
        s.journal.len() > 0,
        lively(s.journal.last(), s),
    ensures
        lively(t.journal.last(), t),
        restores(s.undone(), t.undone()),
{
    let e = s.journal.last();
    assert forall|address: Address| #[trigger] alike(s.undone(), t.undone(), address) by {
        lemma_undo_alike(s, t, address);
    }
    assert forall|address: Address, key: U256| #[trigger]
        t.undone().transient_value(address, key) == s.undone().transient_value(address, key) by {
        assert(t.transient_value(address, key) == s.transient_value(address, key));
    }
    match e {
        JournalEntry::AccountWarmed { address: a } => {
            assert(alike(s, t, a));
        },
        JournalEntry::AccountDestroyed { address: a, target: b, .. } => {
            assert(alike(s, t, a));
            assert(alike(s, t, b));
        },
        JournalEntry::AccountTouched { address: a } => {
            assert(alike(s, t, a));
        },
        JournalEntry::BalanceChange { address: a, .. } => {
            assert(alike(s, t, a));
        },
        JournalEntry::BalanceTransfer { from: a, to: b, .. } => {
            assert(alike(s, t, a));
            assert(alike(s, t, b));
        },
        JournalEntry::NonceChange { address: a } => {
            assert(alike(s, t, a));
        },
        JournalEntry::AccountCreated { address: a, .. } => {
            assert(alike(s, t, a));
        },
        JournalEntry::StorageChanged { address: a, key, .. } => {
            assert(alike(s, t, a));
            assert(slot_alike(s, t, a, key));
        },
        JournalEntry::StorageWarmed { address: a, key } => {
            assert(alike(s, t, a));
            assert(slot_alike(s, t, a, key));
        },
        JournalEntry::TransientStorageChange { .. } => {},
        JournalEntry::CodeChange { address: a } => {
            assert(alike(s, t, a));
        },
    }
}

/// Undoing entries does not tell two states apart that show the same.
proof fn lemma_undone_to_restores(s: JournalState, t: JournalState, n: int)
    requires
        restores(s, t),
        sound_to(s, n),
    ensures
        sound_to(t, n),
        restores(s.undone_to(n), t.undone_to(n)),
    decreases s.journal.len(),
{
    if s.journal.len() > n && s.journal.len() > 0 {
        lemma_undo_restores(s, t);
        lemma_undone_to_restores(s.undone(), t.undone(), n);
    }
}

/// Entries are undone in two goes as in one.
proof fn lemma_undone_in_parts(s: JournalState, m: int, n: int)
    requires
        0 <= n <= m,
    ensures
        s.undone_to(m).undone_to(n) == s.undone_to(n),
        sound_to(s, m) && sound_to(s.undone_to(m), n) ==> sound_to(s, n),
    decreases s.journal.len(),
{
    if s.journal.len() > m {
        lemma_undone_in_parts(s.undone(), m, n);
    }
}

/// A state comes from another by changes that a return to the first takes back: the journal
/// grew, and undoing what it grew by shows what the first state showed.
pub open spec fn extends(s: JournalState, t: JournalState) -> bool {
    let n = s.journal.len() as int;
    &&& t.journal.len() >= n
    &&& t.journal.subrange(0, n) == s.journal
    &&& sound_to(t, n)
    &&& restores(s, t.undone_to(n))
}

/// Changes that a return takes back can follow each other.
pub proof fn changes_follow_each_other(s: JournalState, t: JournalState, u: JournalState)
    requires
        extends(s, t),
        extends(t, u),
    ensures
        extends(s, u),
{
    let n = s.journal.len() as int;
    let m = t.journal.len() as int;
    lemma_undone_to_restores(t, u.undone_to(m), n);
    lemma_undone_in_parts(u, m, n);
    lemma_restores_chain(s, t.undone_to(n), u.undone_to(n));
    assert(u.journal.subrange(0, n) =~= u.journal.subrange(0, m).subrange(0, n));
}

/// A return to a checkpoint brings back what the state showed when the checkpoint was made,
/// and the logs and the depth, whatever changes followed.
pub proof fn a_return_brings_back_the_checkpoint(s: JournalState, t: JournalState)
    requires
        extends(s.entered(), t),
        s.logs.len() <= t.logs.len() <= usize::MAX,
        s.journal.len() <= usize::MAX,
        t.logs.subrange(0, s.logs.len() as int) == s.logs,
        s.depth < usize::MAX,
        t.depth == s.depth + 1,
    ensures
        t.revertible_to(s.here().journal_i as int),
        restores(s, t.reverted(s.here())),
        t.reverted(s.here()).logs == s.logs,
        t.reverted(s.here()).depth == s.depth,
{
    let n = s.journal.len() as int;
    let back = t.undone_to(n);
    let r = t.reverted(s.here());
    lemma_sound_revertible(t, n);
    model::lemma_undone_to(t, n);
    assert forall|address: Address| #[trigger] alike(s, r, address) by {
        assert(alike(s.entered(), back, address));
        if s.state.contains_key(address) {
            assert forall|key: U256| #[trigger] slot_alike(s, r, address, key) by {
                assert(slot_alike(s.entered(), back, address, key));
            }
        }
    }
    assert forall|address: Address, key: U256| #[trigger]
        r.transient_value(address, key) == s.transient_value(address, key) by {
        assert(back.transient_value(address, key) == s.entered().transient_value(address, key));
    }
}

/// A return to an inner checkpoint is a change like others: a return to an outer checkpoint
/// takes back what it left.
pub proof fn an_inner_return_is_taken_back(s: JournalState, t: JournalState)
    requires
        extends(s.entered(), t),
        s.logs.len() <= t.logs.len() <= usize::MAX,
        s.journal.len() <= usize::MAX,
        t.logs.subrange(0, s.logs.len() as int) == s.logs,
        s.depth < usize::MAX,
        t.depth == s.depth + 1,
    ensures
        extends(s, t.reverted(s.here())),
{
    a_return_brings_back_the_checkpoint(s, t);
    let r = t.reverted(s.here());
    assert(r.journal.subrange(0, s.journal.len() as int) =~= s.journal);
}

/// Adding logs, and entering or leaving a subroutine, are changes that a return takes back.
pub proof fn logs_and_depth_are_taken_back(s: JournalState, logs: Seq<LogState>, depth: usize)
    ensures
        extends(s, (JournalState { logs, depth, ..s })),
{
    let t = JournalState { logs, depth, ..s };
    lemma_restores_self(s);
    assert forall|address: Address| #[trigger] alike(s, t, address) by {
        assert(alike(s, s, address));
        lemma_alike_kept(s, s, s, t, address);
    }
    assert forall|address: Address, key: U256| #[trigger]
        t.transient_value(address, key) == s.transient_value(address, key) by {}
    assert(t.journal.subrange(0, s.journal.len() as int) =~= s.journal);
}

/// Nothing is a change that a return takes back.
pub proof fn lemma_extends_self(s: JournalState)
    ensures
        extends(s, s),
{
    lemma_restores_self(s);
    assert(s.journal.subrange(0, s.journal.len() as int) =~= s.journal);
}

/// A state that differs in one account, which is alike, shows what the other shows.
proof fn lemma_restores_but(s: JournalState, t: JournalState, address: Address)
    requires
        t.journal == s.journal,
        t.transaction_id == s.transaction_id,
        t.spec == s.spec,
        t.warm == s.warm,
        t.transient == s.transient,
        alike(s, t, address),
        forall|a: Address|
            a != address ==> #[trigger] t.state.contains_key(a) == s.state.contains_key(a),
        forall|a: Address|
            a != address && #[trigger] s.state.contains_key(a) ==> t.state[a] == s.state[a],
    ensures
        restores(s, t),
{
    lemma_restores_self(s);
    assert forall|a: Address| #[trigger] alike(s, t, a) by {
        if a != address {
            assert(alike(s, s, a));
            assert(t.state.contains_key(a) == s.state.contains_key(a));
            lemma_alike_kept(s, s, s, t, a);
        }
    }
}

/// Numbers that differ by a multiple of the word count are the same word.
proof fn lemma_word_same(n: int, k: int)
    requires
        n % u256::word_count() == k % u256::word_count(),
    ensures
        u256::word(n) == u256::word(k),
{
    u256::lemma_val_of_word(n);
    u256::lemma_val_of_word(k);
    u256::lemma_val_injective(u256::word(n), u256::word(k));
}

proof fn lemma_wrap(a: int, b: int)
    ensures
        ((a + b) % u256::word_count() - b) % u256::word_count() == a % u256::word_count(),
        ((a - b) % u256::word_count() + b) % u256::word_count() == a % u256::word_count(),
{
    let m = u256::word_count();
    lemma_add_mod_noop_right(-b, a + b, m);
    lemma_add_mod_noop_right(b, a - b, m);
}

/// Adding and taking away the same amount gives the balance back.
proof fn lemma_more_less(x: U256, y: U256)
    ensures
        entry::less(entry::more(x, y), y) == x,
        entry::more(entry::less(x, y), y) == x,
{
    let a = x.val();
    let b = y.val();
    lemma_wrap(a, b);
    let up = u256::word(a + b).val();
    let down = u256::word(a - b).val();
    assert(up == (a + b) % u256::word_count()) by {
        u256::lemma_val_of_word(a + b);
    }
    assert(down == (a - b) % u256::word_count()) by {
        u256::lemma_val_of_word(a - b);
    }
    lemma_word_same(up - b, a);
    lemma_word_same(down + b, a);
    u256::lemma_word_of_val(x);
    assert(entry::less(entry::more(x, y), y) == u256::word(up - b)) by {
        reveal(entry::more);
        reveal(entry::less);
    }
    assert(entry::more(entry::less(x, y), y) == u256::word(down + b)) by {
        reveal(entry::more);
        reveal(entry::less);
    }
}

/// A return takes back a touch, except of the precompile at address 3 from EIP-161 on.
pub proof fn a_touch_is_taken_back(s: JournalState, address: Address)
    requires
        settled(s, address),
    ensures
        extends(s, s.touched(address)),
{
    let t = s.touched(address);
    let n = s.journal.len() as int;
    if s.state[address].status.touched {
        lemma_extends_self(s);
    } else {
        reveal_with_fuel(JournalState::undone_to, 2);
        reveal_with_fuel(sound_to, 2);
        let u = t.undone();
        assert(t.journal.drop_last() =~= s.journal);
        assert(t.journal.subrange(0, n) =~= s.journal);
        lemma_restores_self(s);
        assert(alike(s, s, address));
        lemma_alike_paid(s, s, s, u, address);
        lemma_restores_but(s, u, address);
    }
}

/// A return takes back a write of the transient storage.
pub proof fn a_transient_write_is_taken_back(
    s: JournalState,
    address: Address,
    key: U256,
    new: U256,
)
    ensures
        extends(s, s.tstored(address, key, new)),
{
    let t = s.tstored(address, key, new);
    let n = s.journal.len() as int;
    reveal_with_fuel(JournalState::undone_to, 2);
    reveal_with_fuel(sound_to, 2);
    let u = t.undone_to(n);
    assert(t.journal.subrange(0, n) =~= s.journal);
    assert(u.journal =~= s.journal);
    u256::lemma_val_of_word(0);
    u256::lemma_word_of_val(s.transient_value(address, key));
    u256::lemma_word_of_val(new);
    lemma_restores_self(s);
    assert forall|a: Address| #[trigger] alike(s, u, a) by {
        assert(alike(s, s, a));
        lemma_alike_kept(s, s, s, u, a);
    }
    assert forall|a: Address, k: U256| #[trigger]
        u.transient_value(a, k) == s.transient_value(a, k) by {}
}

/// A return takes back a load of an account, whatever the database answers: what was cold is
/// cold again.
pub proof fn a_load_is_taken_back<DB: Database>(
    s: JournalState,
    address: Address,
    load_code: bool,
    skip_cold_load: bool,
    pre: &DB,
    r: Result<bool, JournalLoadError<DB::Error>>,
    end: JournalState,
    post: &DB,
)
    requires
        model::account_loaded(s, address, load_code, skip_cold_load, pre, r, end, post),
    ensures
        extends(s, end),
{
    let cold = s.cold_load(address);
    if cold && skip_cold_load {
        lemma_extends_self(s);
    } else if s.state.contains_key(address) {
        let mid = s.opened(address).noted(address, cold);
        lemma_opened_again(s.state[address], s.transaction_id);
        lemma_code_loaded(s, address, load_code, cold, mid, pre, r, end, post);
    } else {
        let (reply, between) = choose|reply: Result<Option<InfoState>, DB::Error>, mid: DB| #[trigger]
            DB::replies(pre, DbCall::Basic(address), DbReply::Basic(reply), &mid) && match reply {
                Ok(info) => model::code_loaded(
                    s.arrived(address, info).noted(address, cold),
                    address,
                    load_code,
                    cold,
                    &mid,
                    r,
                    end,
                    post,
                ),
                Err(e) => r == Err::<bool, _>(JournalLoadError::DBError(e)) && end == s && *post
                    == mid,
            };
        match reply {
            Ok(info) => {
                let mid = s.arrived(address, info).noted(address, cold);
                lemma_code_loaded(s, address, load_code, cold, mid, &between, r, end, post);
            },
            Err(e) => {
                lemma_extends_self(s);
            },
        }
    }
}

/// An account was opened or has arrived; its code may be loaded.
proof fn lemma_code_loaded<DB: Database>(
    s: JournalState,
    address: Address,
    load_code: bool,
    cold: bool,
    mid: JournalState,
    pre: &DB,
    r: Result<bool, JournalLoadError<DB::Error>>,
    end: JournalState,
    post: &DB,
)
    requires
        cold == s.cold_load(address),
        model::code_loaded(mid, address, load_code, cold, pre, r, end, post),
        s.state.contains_key(address) ==> mid == s.opened(address).noted(address, cold),
        !s.state.contains_key(address) ==> exists|info: Option<InfoState>|
            mid == #[trigger] s.arrived(address, info).noted(address, cold),
    ensures
        extends(s, end),
{
    let n = s.journal.len() as int;
    reveal_with_fuel(JournalState::undone_to, 2);
    reveal_with_fuel(sound_to, 2);
    assert(end == mid || exists|code: CodeState| end == #[trigger] mid.coded(address, code));
    let u = end.undone_to(n);
    assert(end.journal == mid.journal);
    assert(end.journal.subrange(0, n) =~= s.journal);
    assert(u.journal =~= s.journal);
    lemma_restores_self(s);
    if s.state.contains_key(address) {
        lemma_opened_again(s.state[address], s.transaction_id);
        assert(alike(s, s, address));
        assert forall|key: U256| #[trigger] slot_alike(s, u, address, key) by {}
        assert(alike(s, u, address));
    }
    lemma_restores_but(s, u, address);
}

/// A return takes back a load of a storage slot of an account that is settled,
/// whatever the database answers: what was cold is cold again.
pub proof fn a_slot_load_is_taken_back<DB: Database>(
    s: JournalState,
    address: Address,
    key: U256,
    skip_cold_load: bool,
    pre: &DB,
    r: Result<bool, JournalLoadError<DB::Error>>,
    end: JournalState,
    post: &DB,
)
    requires
        settled(s, address),
        model::slot_loaded(s, address, key, skip_cold_load, pre, r, end, post),
    ensures
        extends(s, end),
        r is Ok ==> settled(end, address) && end.state[address].storage.contains_key(key),
{
    let acc = s.state[address];
    let cold = if acc.storage.contains_key(key) {
        acc.storage[key].cold_in(s.transaction_id)
    } else {
        !s.warm.slot_warm(address, key)
    };
    let n = s.journal.len() as int;
    if r is Err {
        lemma_extends_self(s);
    } else {
        reveal_with_fuel(JournalState::undone_to, 2);
        reveal_with_fuel(sound_to, 2);
        let u = end.undone_to(n);
        assert(end.journal.subrange(0, n) =~= s.journal);
        assert(u.journal =~= s.journal);
        lemma_restores_self(s);
        assert(alike(s, s, address));
        assert forall|k: U256| #[trigger] slot_alike(s, u, address, k) by {
            assert(slot_alike(s, s, address, k));
        }
        assert(alike(s, u, address));
        lemma_restores_but(s, u, address);
    }
}

/// A return takes back a write of a loaded storage slot.
pub proof fn a_write_is_taken_back(s: JournalState, address: Address, key: U256, new: U256)
    requires
        settled(s, address),
        s.state[address].storage.contains_key(key),
    ensures
        extends(s, s.stored(address, key, new)),
{
    let t = s.stored(address, key, new);
    let n = s.journal.len() as int;
    if s.state[address].storage[key].present_value == new {
        lemma_extends_self(s);
    } else {
        reveal_with_fuel(JournalState::undone_to, 2);
        reveal_with_fuel(sound_to, 2);
        let u = t.undone();
        assert(t.journal.subrange(0, n) =~= s.journal);
        assert(u.journal =~= s.journal);
        lemma_restores_self(s);
        assert(alike(s, s, address));
        assert forall|k: U256| #[trigger] slot_alike(s, u, address, k) by {
            assert(slot_alike(s, s, address, k));
        }
        lemma_restores_but(s, u, address);
    }
}

/// A return takes back the setting of code on an account that had none.
pub proof fn a_code_change_is_taken_back(
    s: JournalState,
    address: Address,
    code: CodeState,
    hash: B256,
)
    requires
        settled(s, address),
        s.state[address].info.code_hash == keccak::spec_keccak_empty(),
    ensures
        extends(s, s.code_set(address, code, hash)),
{
    let m = s.touched(address);
    a_touch_is_taken_back(s, address);
    let t = s.code_set(address, code, hash);
    let n = m.journal.len() as int;
    reveal_with_fuel(JournalState::undone_to, 2);
    reveal_with_fuel(sound_to, 2);
    let u = t.undone();
    assert(t.journal.subrange(0, n) =~= m.journal);
    assert(u.journal =~= m.journal);
    lemma_restores_self(m);
    assert(alike(m, m, address));
    lemma_alike_paid(m, m, m, u, address);
    lemma_restores_but(m, u, address);
    changes_follow_each_other(s, m, t);
}

/// A return takes back a rise of a balance.
pub proof fn a_rise_is_taken_back(s: JournalState, address: Address, balance: U256)
    requires
        settled(s, address),
    ensures
        extends(s, s.balance_raised(address, balance)),
{
    let m = s.touched(address);
    a_touch_is_taken_back(s, address);
    let t = s.balance_raised(address, balance);
    let n = m.journal.len() as int;
    reveal_with_fuel(JournalState::undone_to, 2);
    reveal_with_fuel(sound_to, 2);
    if t.journal.len() == n {
        assert(t.state =~= m.state);
        assert(t == m);
    } else {
        let u = t.undone();
        assert(t.journal.subrange(0, n) =~= m.journal);
        assert(u.journal =~= m.journal);
        lemma_restores_self(m);
        assert(alike(m, m, address));
        lemma_alike_paid(m, m, m, u, address);
        lemma_restores_but(m, u, address);
        changes_follow_each_other(s, m, t);
    }
}

/// A return takes back a transfer, made or refused for want of funds. One that is refused
/// because the receiver would have too much has taken the amount from the sender without an
/// entry, and is not taken back.
pub proof fn a_transfer_is_taken_back(s: JournalState, from: Address, to: Address, balance: U256)
    requires
        settled(s, from),
        settled(s, to),
        s.transferred(from, to, balance).1 != Some(TransferError::OverflowPayment),
    ensures
        extends(s, s.transferred(from, to, balance).0),
{
    let t = s.transferred(from, to, balance).0;
    if from == to {
        lemma_extends_self(s);
    } else if balance.val() == 0 {
        a_touch_is_taken_back(s, to);
    } else {
        a_touch_is_taken_back(s, from);
        let s1 = s.touched(from);
        if s.transferred(from, to, balance).1 is None {
            let n = s1.journal.len() as int;
            let paid = s1.with_account(
                from,
                s1.state[from].with_balance(entry::less(s1.state[from].info.balance, balance)),
            );
            let s2 = paid.touched(to);
            lemma_more_less(s1.state[from].info.balance, balance);
            lemma_more_less(s1.state[to].info.balance, balance);
            assert(settled(s1, from) && settled(s1, to));
            assert(settled(s2, from) && settled(s2, to));
            assert(t.journal.drop_last() =~= s2.journal);
            let u1 = t.undone();
            assert(u1.state[from] == s1.state[from]);
            assert(u1.state[to] == s2.state[to]);
            if s1.state[to].status.touched {
                reveal_with_fuel(JournalState::undone_to, 2);
                reveal_with_fuel(sound_to, 2);
                assert(t.journal.subrange(0, n) =~= s1.journal);
                assert(u1.state =~= s1.state);
                lemma_restores_self(s1);
                assert(u1 == s1);
            } else {
                reveal_with_fuel(JournalState::undone_to, 3);
                reveal_with_fuel(sound_to, 3);
                let u = u1.undone();
                assert(t.journal.subrange(0, n) =~= s1.journal);
                assert(u.journal =~= s1.journal);
                assert(lively(u1.journal.last(), u1));
                lemma_restores_self(s1);
                assert(alike(s1, s1, to));
                lemma_alike_paid(s1, s1, s1, u, to);
                lemma_restores_but(s1, u, to);
                assert(t.undone_to(n) == u);
                assert(sound_to(t, n));
            }
            changes_follow_each_other(s, s1, t);
        }
    }
}

/// A return takes back the creation of an account that was not created before in the same
/// transaction.
pub proof fn a_creation_is_taken_back(
    s: JournalState,
    caller: Address,
    target: Address,
    balance: U256,
    spec_id: SpecId,
)
    requires
        settled(s, caller),
        settled(s, target),
        s.creatable(target),
        !s.state[target].status.created_local,
    ensures
        extends(s, s.created(target, spec_id)),
        extends(s, s.created(target, spec_id).endowed(caller, target, balance)),
{
    let acc = s.state[target];
    let entry = JournalEntry::AccountCreated {
        address: target,
        is_created_globally: !acc.status.created,
    };
    let marked = AccountState {
        info: InfoState {
            code: None,
            nonce: if spec_id.enabled(SpecId::SPURIOUS_DRAGON) {
                1
            } else {
                acc.info.nonce
            },
            ..acc.info
        },
        status: AccountStatus { created: true, created_local: true, ..acc.status },
        ..acc
    };
    let m = s.journaled(entry).with_account(target, marked);
    let n = s.journal.len() as int;
    reveal_with_fuel(JournalState::undone_to, 2);
    reveal_with_fuel(sound_to, 2);
    let u = m.undone();
    assert(m.journal.subrange(0, n) =~= s.journal);
    assert(u.journal =~= s.journal);
    lemma_restores_self(s);
    assert(alike(s, s, target));
    lemma_alike_paid(s, s, s, u, target);
    lemma_restores_but(s, u, target);
    assert(extends(s, m));
    a_touch_is_taken_back(m, target);
    let c = s.created(target, spec_id);
    assert(c == m.touched(target));
    changes_follow_each_other(s, m, c);
    lemma_endowment(c, caller, target, balance);
    changes_follow_each_other(s, c, c.endowed(caller, target, balance));
}

/// A return takes back an endowment.
proof fn lemma_endowment(s: JournalState, caller: Address, target: Address, balance: U256)
    requires
        settled(s, caller),
        settled(s, target),
    ensures
        extends(s, s.endowed(caller, target, balance)),
{
    let t = s.endowed(caller, target, balance);
    let n = s.journal.len() as int;
    reveal_with_fuel(JournalState::undone_to, 2);
    reveal_with_fuel(sound_to, 2);
    lemma_more_less(s.state[caller].info.balance, balance);
    lemma_more_less(s.state[target].info.balance, balance);
    let u = t.undone();
    assert(t.journal.subrange(0, n) =~= s.journal);
    assert(u.journal =~= s.journal);
    assert(u.state[caller] == s.state[caller]);
    assert(u.state[target] == s.state[target]);
    assert(u.state =~= s.state);
    lemma_restores_self(s);
    assert(u == s);
}

/// What happened in this transaction happened.
pub open spec fn consistent(status: AccountStatus) -> bool {
    &&& status.selfdestructed_local ==> status.selfdestructed
    &&& status.created_local ==> status.created
}

/// The next access to an account finds a destruction that is made now: the transaction uses the
/// account, or a destruction only moves its balance, as it does from Cancun on unless the
/// account was created by the transaction.
pub open spec fn free_to_end(s: JournalState, address: Address) -> bool {
    settled(s, address) && (live(s, address) || s.spec.enabled(SpecId::CANCUN)
        && !s.state[address].status.created_local)
}

/// A return takes back a destruction.
#[verifier::rlimit(30)]
pub proof fn a_destruction_is_taken_back(s: JournalState, address: Address, target: Address)
    requires
        free_to_end(s, address),
        settled(s, target),
        consistent(s.state[address].status),
    ensures
        extends(s, s.destroyed(address, target)),
{
    if address == target {
        lemma_destruction_at_home(s, address);
    } else {
        let t = s.destroyed(address, target);
        let s1 = s.touched(target);
        a_touch_is_taken_back(s, target);
        let n = s1.journal.len() as int;
        let balance = s.state[address].info.balance;
        lemma_more_less(s1.state[target].info.balance, balance);
        lemma_more_zero(balance);
        reveal_with_fuel(JournalState::undone_to, 2);
        reveal_with_fuel(sound_to, 2);
        let u = t.undone();
        assert(t.journal.drop_last() =~= s1.journal);
        assert(t.journal.subrange(0, n) =~= s1.journal);
        assert(u.state[target] == s1.state[target]);
        assert(u.state[address].info == s1.state[address].info);
        assert(u.state[address].status == s1.state[address].status);
        assert(u.state =~= s1.state);
        lemma_restores_self(s1);
        assert(u == s1);
        changes_follow_each_other(s, s1, t);
    }
}

/// A return takes back a destruction in favour of the account itself.
proof fn lemma_destruction_at_home(s: JournalState, address: Address)
    requires
        free_to_end(s, address),
        consistent(s.state[address].status),
    ensures
        extends(s, s.destroyed(address, address)),
{
    let t = s.destroyed(address, address);
    let n = s.journal.len() as int;
    lemma_more_zero(s.state[address].info.balance);
    if t.journal.len() == n {
        lemma_extends_self(s);
    } else {
        reveal_with_fuel(JournalState::undone_to, 2);
        reveal_with_fuel(sound_to, 2);
        let u = t.undone();
        assert(t.journal.drop_last() =~= s.journal);
        assert(t.journal.subrange(0, n) =~= s.journal);
        assert(u.state[address].info == s.state[address].info);
        assert(u.state[address].status == s.state[address].status);
        assert(u.state =~= s.state);
        lemma_restores_self(s);
        assert(u == s);
    }
}

/// Adding to nothing gives the amount.
proof fn lemma_more_zero(x: U256)
    ensures
        entry::more(u256::word(0), x) == x,
{
    assert(u256::word(0).val() == 0) by {
        u256::lemma_val_of_word(0);
    }
    assert(entry::more(u256::word(0), x) == u256::word(x.val())) by {
        reveal(entry::more);
    }
    u256::lemma_word_of_val(x);
}

/// A value that was written is read back, and the slot is warm by then.
pub proof fn a_written_slot_is_read_back<DB: Database>(
    s: JournalState,
    address: Address,
    key: U256,
    new: U256,
    skip_cold_load: bool,
    pre: &DB,
    written: Result<StateLoad<SStoreResult>, JournalLoadError<DB::Error>>,
    mid: JournalState,
    between: &DB,
    skip_again: bool,
    read: Result<StateLoad<U256>, JournalLoadError<DB::Error>>,
    end: JournalState,
    post: &DB,
)
    requires
        s.state.contains_key(address),
        model::slot_written(s, address, key, new, skip_cold_load, pre, written, mid, between),
        written is Ok,
        model::slot_read(mid, address, key, skip_again, between, read, end, post),
    ensures
        read == Ok::<_, JournalLoadError<DB::Error>>(StateLoad { data: new, is_cold: false }),
        end == mid,
        *post == *between,
{
    let loaded = choose|loaded: JournalState| #[trigger]
        model::slot_loaded(
            s,
            address,
            key,
            skip_cold_load,
            pre,
            model::coldness(written),
            loaded,
            between,
        ) && mid == loaded.stored(address, key, new);
    assert(loaded.state[address].storage.contains_key(key));
    assert(!loaded.state[address].storage[key].cold_in(s.transaction_id));
    assert(mid.present(address, key) == new);
    model::lemma_warm_slot(mid, address, key);
}

/// A value that was written to the transient storage is read back.
pub proof fn a_transient_write_is_read_back(
    s: JournalState,
    address: Address,
    key: U256,
    new: U256,
)
    ensures
        s.tstored(address, key, new).transient_value(address, key) == new,
        forall|a: Address, k: U256|
            (a, k) != (address, key) ==> #[trigger] s.tstored(address, key, new).transient_value(
                a,
                k,
            ) == s.transient_value(a, k),
{
    u256::lemma_word_of_val(new);
}

/// The second access to an account in a transaction is a warm one. An account that a later
/// transaction than the first got from the database is an exception.
pub proof fn a_second_access_is_warm<DB: Database>(
    s: JournalState,
    address: Address,
    load_code: bool,
    skip_cold_load: bool,
    pre: &DB,
    cold: bool,
    end: JournalState,
    post: &DB,
)
    requires
        model::account_loaded(
            s,
            address,
            load_code,
            skip_cold_load,
            pre,
            Ok(cold),
            end,
            post,
        ),
        s.state.contains_key(address) || s.transaction_id == 0,
    ensures
        end.state.contains_key(address),
        !end.cold_load(address),
{
}

/// A transfer that is made keeps the sum of the two balances, and one that is refused for want
/// of funds keeps both.
pub proof fn a_transfer_keeps_the_sum(s: JournalState, from: Address, to: Address, balance: U256)
    requires
        s.state.contains_key(from),
        s.state.contains_key(to),
        from != to,
    ensures
        ({
            let (t, error) = s.transferred(from, to, balance);
            let before = (s.state[from].info.balance.val(), s.state[to].info.balance.val());
            let after = (t.state[from].info.balance.val(), t.state[to].info.balance.val());
            match error {
                None => after.0 == before.0 - balance.val() && after.1 == before.1
                    + balance.val(),
                Some(TransferError::OutOfFunds) => after == before && balance.val() > before.0,
                Some(_) => before.1 + balance.val() >= u256::word_count(),
            }
        }),
{
    let a = s.state[from].info.balance;
    let b = s.state[to].info.balance;
    if balance.val() <= a.val() {
        lemma_less_val(a, balance);
    }
    if b.val() + balance.val() < u256::word_count() {
        lemma_more_val(b, balance);
    }
}

/// A destruction moves the whole balance to the target, if that is another account. To itself,
/// an account loses its balance before Cancun, and from Cancun on only if it was created in the
/// same transaction; otherwise nothing changes.
pub proof fn a_destruction_moves_the_balance(s: JournalState, address: Address, target: Address)
    requires
        s.state.contains_key(address),
        s.state.contains_key(target),
        address != target ==> s.state[address].info.balance.val()
            + s.state[target].info.balance.val() < u256::word_count(),
    ensures
        ({
            let t = s.destroyed(address, target);
            let balance = s.state[address].info.balance.val();
            if address != target {
                t.state[address].info.balance.val() == 0 && t.state[target].info.balance.val()
                    == s.state[target].info.balance.val() + balance
            } else if s.state[address].status.created_local || !s.spec.enabled(SpecId::CANCUN) {
                t.state[address].info.balance.val() == 0
            } else {
                t == s
            }
        }),
{
    if address != target {
        lemma_more_val(s.state[target].info.balance, s.state[address].info.balance);
    }
    u256::lemma_val_of_word(0);
    lemma_small_mod(0, u256::word_count() as nat);
}

/// A balance that is large enough goes down by what is taken.
pub proof fn lemma_less_val(x: U256, y: U256)
    requires
        y.val() <= x.val(),
    ensures
        entry::less(x, y).val() == x.val() - y.val(),
{
    reveal(entry::less);
    let n = x.val() - y.val();
    assert(0 <= n < u256::word_count());
    u256::lemma_val_of_word(n);
    lemma_small_mod(n as nat, u256::word_count() as nat);
}

/// A balance that does not wrap around goes up by what is added.
pub proof fn lemma_more_val(x: U256, y: U256)
    requires
        x.val() + y.val() < u256::word_count(),
    ensures
        entry::more(x, y).val() == x.val() + y.val(),
{
    reveal(entry::more);
    let n = x.val() + y.val();
    assert(0 <= n < u256::word_count());
    u256::lemma_val_of_word(n);
    lemma_small_mod(n as nat, u256::word_count() as nat);
}

} // verus!
