//! The journal: the accounts of the transactions that run, and what changed.

use crate::bytecode::code::CodeState;
use crate::bytecode::Bytecode;
use crate::host::{Log, SStoreResult, SelfDestructResult, StateLoad};
use crate::journal::account;
use crate::journal::account::{Account, EvmState, EvmStorageSlot, TransientStorage};
use crate::journal::database::Database;
use crate::journal::entry;
use crate::journal::entry::{JournalEntry, SelfdestructionRevertStatus};
use crate::journal::keyed_map::KeyedMap;
use crate::journal::model;
use crate::journal::model::{
    AccountLoad, JournalCheckpoint, JournalLoadError, JournalState, TransferError,
};
use crate::journal::warm_addresses::WarmAddresses;
use crate::primitives::keccak;
use crate::primitives::keccak::keccak_empty;
use crate::primitives::u256;
use crate::primitives::{Address, SpecId, B256, U256};
use vstd::prelude::*;

verus! {

/// One way of the [`AccountCache`]: an address, and the place of its account.
#[derive(Clone, Copy, Debug, PartialEq, Eq, Structural)]
struct CachedAccount {
    address: Address,
    place: Option<usize>,
}

impl CachedAccount {
    /// A place is the one where the account is kept.
    spec fn points_into(self, state: EvmState) -> bool {
        self.place matches Some(i) ==> i < state.places() && state.kept_at(self.address, i as int)
    }

    /// The address and the place, where there is one.
    spec fn held(self) -> Option<(Address, usize)> {
        match self.place {
            Some(i) => Some((self.address, i)),
            None => None,
        }
    }

    /// Whether this way has the account's place.
    fn matches(&self, address: &Address) -> (r: bool)
        ensures
            r == (self.place is Some && self.address == *address),
    {
        self.place.is_some() && self.address.same(address)
    }
}

/// The places of the two accounts that were used last, the latest one first.
///
/// The accesses of a call frame are to one account, so that most lookups find it here; the
/// second way keeps the caller's account while the callee runs. A place is good as long as no
/// account is added or taken out, so the cache is emptied wherever that may happen.
#[derive(Debug)]
pub struct AccountCache {
    a: CachedAccount,
    b: CachedAccount,
}

/// What an [`AccountCache`] holds: addresses, and the places of their accounts.
pub struct CacheState {
    /// The account that was used last.
    pub latest: Option<(Address, usize)>,
    /// The account that was used before it.
    pub earlier: Option<(Address, usize)>,
}

impl CacheState {
    /// No account.
    pub open spec fn none() -> CacheState {
        CacheState { latest: None, earlier: None }
    }

    /// The place of an account, if the cache holds it; the latest one counts first.
    pub open spec fn place_of(self, address: Address) -> Option<usize> {
        match (self.latest, self.earlier) {
            (Some((x, i)), _) if x == address => Some(i),
            (_, Some((x, i))) if x == address => Some(i),
            _ => None,
        }
    }

    /// An account is looked up: the earlier one, if it is that, becomes the latest.
    pub open spec fn looked_up(self, address: Address) -> CacheState {
        match (self.latest, self.earlier) {
            (Some((x, _)), _) if x == address => self,
            (_, Some((x, _))) if x == address => CacheState {
                latest: self.earlier,
                earlier: self.latest,
            },
            _ => self,
        }
    }

    /// An account is recorded as the latest one; the earlier one is forgotten.
    pub open spec fn recorded(self, address: Address, place: usize) -> CacheState {
        CacheState { latest: Some((address, place)), earlier: self.latest }
    }
}

impl View for AccountCache {
    type V = CacheState;

    closed spec fn view(&self) -> CacheState {
        CacheState { latest: self.a.held(), earlier: self.b.held() }
    }
}

impl Default for AccountCache {
    fn default() -> (r: AccountCache)
        ensures
            r@ == CacheState::none(),
            forall|state: EvmState| #[trigger] r.points_into(state),
    {
        let none = CachedAccount { address: Address::zero(), place: None };
        AccountCache { a: none, b: none }
    }
}

impl Clone for AccountCache {
    /// An empty cache: a copy of the accounts has places of its own.
    fn clone(&self) -> (r: AccountCache)
        ensures
            r@ == CacheState::none(),
            forall|state: EvmState| #[trigger] r.points_into(state),
    {
        AccountCache::default()
    }
}

impl AccountCache {
    /// Both ways hold places where accounts are kept.
    pub closed spec fn points_into(&self, state: EvmState) -> bool {
        self.a.points_into(state) && self.b.points_into(state)
    }

    /// Empties the cache.
    fn clear(&mut self)
        ensures
            final(self)@ == CacheState::none(),
            forall|state: EvmState| #[trigger] final(self).points_into(state),
    {
        self.a.place = None;
        self.b.place = None;
    }

    /// The place of an account, if either way holds it. It becomes the latest one.
    fn get(&mut self, address: &Address) -> (r: Option<usize>)
        ensures
            r == old(self)@.place_of(*address),
            final(self)@ == old(self)@.looked_up(*address),
            forall|state: EvmState| #[trigger]
                old(self).points_into(state) ==> final(self).points_into(state) && match r {
                    Some(i) => i < state.places() && state.kept_at(*address, i as int),
                    None => true,
                },
    {
        if self.a.matches(address) {
            return self.a.place;
        }
        if self.b.matches(address) {
            let hit = self.b;
            self.b = self.a;
            self.a = hit;
            return hit.place;
        }
        None
    }

    /// Records the place of an account as the latest one.
    fn put(&mut self, address: &Address, place: usize)
        ensures
            final(self)@ == old(self)@.recorded(*address, place),
            forall|state: EvmState| #[trigger]
                old(self).points_into(state) && place < state.places() && state.kept_at(
                    *address,
                    place as int,
                ) ==> final(self).points_into(state),
    {
        self.b = self.a;
        self.a = CachedAccount { address: *address, place: Some(place) };
    }
}

/// The journal.
#[derive(Debug)]
pub struct JournalInner {
    state: EvmState,
    /// Storage that lives as long as the transaction.
    pub transient_storage: TransientStorage,
    /// The logs of the transaction.
    pub logs: Vec<Log>,
    /// The depth of the call stack.
    pub depth: usize,
    /// The changes of the transaction.
    pub journal: Vec<JournalEntry>,
    /// The number of transactions before this one.
    pub transaction_id: usize,
    /// The fork.
    pub spec: SpecId,
    /// What is warm from the start.
    pub warm_addresses: WarmAddresses,
    account_cache: AccountCache,
}

impl View for JournalInner {
    type V = JournalState;

    closed spec fn view(&self) -> JournalState {
        JournalState {
            state: account::accounts(self.state@),
            transient: self.transient_storage@,
            logs: model::log_views(self.logs@),
            depth: self.depth,
            journal: self.journal@,
            transaction_id: self.transaction_id,
            spec: self.spec,
            warm: self.warm_addresses@,
        }
    }
}

impl Default for JournalInner {
    fn default() -> (r: JournalInner)
        ensures
            r.wf(),
            r@ == JournalState::fresh(),
    {
        JournalInner::new()
    }
}

impl JournalInner {
    /// The cache holds places where accounts are kept.
    pub closed spec fn wf(&self) -> bool {
        self.account_cache.points_into(self.state)
    }

    /// A journal of nothing.
    pub fn new() -> (r: JournalInner)
        ensures
            r.wf(),
            r@ == JournalState::fresh(),
    {
        let r = JournalInner {
            state: KeyedMap::new(),
            transient_storage: KeyedMap::new(),
            logs: Vec::new(),
            depth: 0,
            journal: Vec::new(),
            transaction_id: 0,
            spec: SpecId::default(),
            warm_addresses: WarmAddresses::new(),
            account_cache: AccountCache::default(),
        };
        assert(r@.state =~= Map::empty());
        assert(r@.logs =~= Seq::empty());
        r
    }

    /// Hands out the logs.
    pub fn take_logs(&mut self) -> (r: Vec<Log>)
        requires
            old(self).wf(),
        ensures
            final(self).wf(),
            model::log_views(r@) == old(self)@.logs,
            final(self)@ == (JournalState { logs: Seq::empty(), ..old(self)@ }),
    {
        let mut logs: Vec<Log> = Vec::new();
        std::mem::swap(&mut logs, &mut self.logs);
        assert(self@.logs =~= Seq::empty());
        logs
    }

    /// Ends the transaction and keeps its changes.
    pub fn commit_tx(&mut self)
        requires
            old(self).wf(),
            old(self)@.transaction_id < usize::MAX,
        ensures
            final(self).wf(),
            final(self)@ == old(self)@.next_transaction(old(self)@.state),
    {
        self.account_cache.clear();
        self.transient_storage.clear();
        self.depth = 0;
        self.journal.clear();
        self.warm_addresses.clear_coinbase_and_access_list();
        self.transaction_id = self.transaction_id + 1;
        self.logs.clear();
        assert(self@.logs =~= Seq::empty());
        assert(self@ =~= old(self)@.next_transaction(old(self)@.state));
    }

    /// Undoes the last entry of the journal.
    fn undo_last(&mut self)
        requires
            old(self).wf(),
            old(self)@.journal.len() > 0,
            old(self)@.journal.last().grounded(old(self)@.state),
        ensures
            final(self).wf(),
            final(self)@ == old(self)@.undone(),
    {
        self.account_cache.clear();
        let is_spurious_dragon_enabled: bool = self.spec.is_enabled_in(SpecId::SPURIOUS_DRAGON);
        let entry = self.journal.pop().unwrap();
        entry.revert(&mut self.state, is_spurious_dragon_enabled);
        entry.revert_transient(&mut self.transient_storage);
        assert(self@ =~= old(self)@.undone());
    }

    /// Undoes the entries of the journal from the `n`th on.
    fn undo_to(&mut self, n: usize)
        requires
            old(self).wf(),
            old(self)@.revertible_to(n as int),
        ensures
            final(self).wf(),
            final(self)@ == old(self)@.undone_to(n as int),
    {
        while self.journal.len() > n
            invariant
                self.wf(),
                self@.journal == self.journal@,
                self@.revertible_to(n as int),
                self@.undone_to(n as int) == old(self)@.undone_to(n as int),
            decreases self.journal@.len(),
        {
            self.undo_last();
        }
    }

    /// Ends the transaction and undoes its changes.
    pub fn discard_tx(&mut self)
        requires
            old(self).wf(),
            old(self)@.revertible_to(0),
            old(self)@.transaction_id < usize::MAX,
        ensures
            final(self).wf(),
            final(self)@ == old(self)@.next_transaction(old(self)@.undone_to(0).state),
    {
        proof {
            model::lemma_undone_to(self@, 0);
        }
        self.undo_to(0);
        self.transient_storage.clear();
        self.depth = 0;
        self.logs.clear();
        self.transaction_id = self.transaction_id + 1;
        self.warm_addresses.clear_coinbase_and_access_list();
        assert(self@.logs =~= Seq::empty());
        assert(self@ =~= old(self)@.next_transaction(old(self)@.undone_to(0).state));
    }

    /// Hands out the accounts and starts afresh; the fork and the precompiles stay.
    pub fn finalize(&mut self) -> (r: EvmState)
        requires
            old(self).wf(),
        ensures
            final(self).wf(),
            account::accounts(r@) == old(self)@.state,
            final(self)@ == (JournalState {
                spec: old(self)@.spec,
                warm: old(self)@.warm.cleared(),
                ..JournalState::fresh()
            }),
    {
        self.account_cache.clear();
        self.warm_addresses.clear_coinbase_and_access_list();
        let mut state: EvmState = KeyedMap::new();
        std::mem::swap(&mut state, &mut self.state);
        self.logs.clear();
        self.transient_storage.clear();
        self.journal.clear();
        self.depth = 0;
        self.transaction_id = 0;
        assert(self@.logs =~= Seq::empty());
        assert(self@.state =~= Map::empty());
        state
    }

    /// The accounts, for any change.
    pub fn state(&mut self) -> (r: &mut EvmState)
        requires
            old(self).wf(),
        ensures
            final(self).wf(),
            account::accounts(r@) == old(self)@.state,
            final(self)@ == (JournalState {
                state: account::accounts(final(r)@),
                ..old(self)@
            }),
    {
        self.account_cache.clear();
        &mut self.state
    }

    /// The accounts.
    pub fn state_ref(&self) -> (r: &EvmState)
        ensures
            account::accounts(r@) == self@.state,
    {
        &self.state
    }

    /// What is warm from the start, for any change.
    pub fn warm_addresses_mut(&mut self) -> (r: &mut WarmAddresses)
        requires
            old(self).wf(),
        ensures
            final(self).wf(),
            r@ == old(self)@.warm,
            final(self)@ == (JournalState { warm: final(r)@, ..old(self)@ }),
    {
        &mut self.warm_addresses
    }

    /// Sets the fork.
    pub fn set_spec_id(&mut self, spec: SpecId)
        requires
            old(self).wf(),
        ensures
            final(self).wf(),
            final(self)@ == (JournalState { spec, ..old(self)@ }),
    {
        self.spec = spec;
    }

    /// Adds an entry.
    fn note(&mut self, entry: JournalEntry)
        requires
            old(self).wf(),
        ensures
            final(self).wf(),
            final(self)@ == old(self)@.journaled(entry),
            final(self).state == old(self).state,
    {
        self.journal.push(entry);
    }

    /// The place of an account that is there, from the cache if it holds it.
    fn place_of(&mut self, address: &Address) -> (r: Option<usize>)
        requires
            old(self).wf(),
        ensures
            final(self).wf(),
            final(self)@ == old(self)@,
            final(self).state == old(self).state,
            match r {
                Some(i) => final(self)@.state.contains_key(*address) && i
                    < final(self).state.places() && final(self).state.kept_at(*address, i as int),
                None => !final(self)@.state.contains_key(*address),
            },
    {
        match self.account_cache.get(address) {
            Some(i) => {
                proof {
                    self.state.lemma_kept(*address, i as int);
                }
                Some(i)
            },
            None => {
                match self.state.place_of(address) {
                    Some(i) => {
                        self.account_cache.put(address, i);
                        Some(i)
                    },
                    None => None,
                }
            },
        }
    }

    /// The account at a place, for writing.
    fn account_at(&mut self, address: &Address, i: usize) -> (r: &mut Account)
        requires
            old(self).wf(),
            i < old(self).state.places(),
            old(self).state.kept_at(*address, i as int),
        ensures
            final(self).wf(),
            old(self)@.state.contains_key(*address),
            r@ == old(self)@.state[*address],
            final(self)@ == old(self)@.with_account(*address, final(r)@),
            final(self).state.places() == old(self).state.places(),
            forall|key: Address, j: int| #[trigger]
                final(self).state.kept_at(key, j) == old(self).state.kept_at(key, j),
    {
        proof {
            let m = self.state@;
            assert forall|acc: Account| #[trigger]
                account::accounts(m.insert(*address, acc)) == account::accounts(m).insert(
                    *address,
                    acc@,
                ) by {
                account::lemma_accounts_insert(m, *address, acc);
            }
        }
        self.state.value_at_mut(i)
    }

    /// Touches the account at a place.
    fn touch_at(&mut self, address: &Address, i: usize)
        requires
            old(self).wf(),
            i < old(self).state.places(),
            old(self).state.kept_at(*address, i as int),
        ensures
            final(self).wf(),
            final(self)@ == old(self)@.touched(*address),
            final(self).state.places() == old(self).state.places(),
            forall|key: Address, j: int| #[trigger]
                final(self).state.kept_at(key, j) == old(self).state.kept_at(key, j),
    {
        let account = self.account_at(address, i);
        if !account.is_touched() {
            account.mark_touch();
            self.note(JournalEntry::AccountTouched { address: *address });
            assert(self@ =~= old(self)@.touched(*address));
        } else {
            assert(self@ =~= old(self)@.touched(*address));
        }
    }

    /// Touches an account, if it is there.
    pub fn touch(&mut self, address: Address)
        requires
            old(self).wf(),
        ensures
            final(self).wf(),
            final(self)@ == (if old(self)@.state.contains_key(address) {
                old(self)@.touched(address)
            } else {
                old(self)@
            }),
    {
        if let Some(i) = self.state.place_of(&address) {
            self.touch_at(&address, i);
        }
    }

    /// An account that is there.
    pub fn account(&self, address: Address) -> (r: &Account)
        requires
            self@.state.contains_key(address),
        ensures
            r@ == self@.state[address],
    {
        self.state.get(&address).unwrap()
    }

    /// Sets the code of an account that is there, with its hash.
    pub fn set_code_with_hash(&mut self, address: Address, code: Bytecode, hash: B256)
        requires
            old(self).wf(),
            old(self)@.state.contains_key(address),
        ensures
            final(self).wf(),
            final(self)@ == old(self)@.code_set(address, code@, hash),
    {
        let i: usize = self.state.place_of(&address).unwrap();
        self.touch_at(&address, i);
        self.note(JournalEntry::CodeChange { address });
        let account = self.account_at(&address, i);
        account.info.code_hash = hash;
        account.info.code = Some(code);
        assert(self@ =~= old(self)@.code_set(address, code@, hash));
    }

    /// Sets the code of an account that is there. A delegation to the zero address erases the
    /// code.
    pub fn set_code(&mut self, address: Address, code: Bytecode)
        requires
            old(self).wf(),
            old(self)@.state.contains_key(address),
            code@.wf(),
        ensures
            final(self).wf(),
            final(self)@ == (if model::erases(code@) {
                old(self)@.code_set(
                    address,
                    CodeState::from_raw(Seq::empty()),
                    keccak::spec_keccak_empty(),
                )
            } else {
                old(self)@.code_set(address, code@, code@.hash())
            }),
    {
        if let Bytecode::Eip7702(delegation) = &code {
            if delegation.address().is_zero() {
                self.set_code_with_hash(address, Bytecode::default(), keccak_empty());
                return ;
            }
        }
        let hash = code.hash_slow();
        self.set_code_with_hash(address, code, hash)
    }

    /// Adds the entries for what a transaction takes from its caller.
    pub fn caller_accounting_journal_entry(
        &mut self,
        address: Address,
        old_balance: U256,
        bump_nonce: bool,
    )
        requires
            old(self).wf(),
        ensures
            final(self).wf(),
            final(self)@ == ({
                let s = old(self)@.journaled(
                    JournalEntry::BalanceChange { address, old_balance },
                ).journaled(JournalEntry::AccountTouched { address });
                if bump_nonce {
                    s.journaled(JournalEntry::NonceChange { address })
                } else {
                    s
                }
            }),
    {
        self.note(JournalEntry::BalanceChange { address, old_balance });
        self.note(JournalEntry::AccountTouched { address });
        if bump_nonce {
            self.note(JournalEntry::NonceChange { address });
        }
    }

    /// Adds the entry for a nonce that went up.
    pub fn nonce_bump_journal_entry(&mut self, address: Address)
        requires
            old(self).wf(),
        ensures
            final(self).wf(),
            final(self)@ == old(self)@.journaled(JournalEntry::NonceChange { address }),
    {
        self.note(JournalEntry::NonceChange { address });
    }

    /// Moves balance between two accounts that are there; tells why it failed.
    pub fn transfer_loaded(&mut self, from: Address, to: Address, balance: U256) -> (r: Option<
        TransferError,
    >)
        requires
            old(self).wf(),
            old(self)@.state.contains_key(from),
            old(self)@.state.contains_key(to),
        ensures
            final(self).wf(),
            (final(self)@, r) == old(self)@.transferred(from, to, balance),
    {
        reveal(entry::more);
        reveal(entry::less);
        let to_place: usize = self.place_of(&to).unwrap();
        if from.same(&to) {
            let from_balance: U256 = self.state.value_at(to_place).info.balance;
            if from_balance.less_than(&balance) {
                return Some(TransferError::OutOfFunds);
            }
            return None;
        }
        if balance.is_zero() {
            self.touch_at(&to, to_place);
            return None;
        }
        let from_place: usize = self.state.place_of(&from).unwrap();
        self.touch_at(&from, from_place);
        let ghost s1 = self@;
        let from_account = self.account_at(&from, from_place);
        let from_balance_decr = match from_account.info.balance.checked_sub(balance) {
            Some(b) => b,
            None => {
                assert(self@ =~= s1);
                return Some(TransferError::OutOfFunds);
            },
        };
        from_account.info.balance = from_balance_decr;
        self.touch_at(&to, to_place);
        let ghost s2 = self@;
        let to_account = self.account_at(&to, to_place);
        let to_balance_incr = match to_account.info.balance.checked_add(balance) {
            Some(b) => b,
            None => {
                assert(self@ =~= s2);
                return Some(TransferError::OverflowPayment);
            },
        };
        to_account.info.balance = to_balance_incr;
        self.note(JournalEntry::BalanceTransfer { from, to, balance });
        None
    }

    /// Enters a subroutine; the checkpoint leads back here.
    pub fn checkpoint(&mut self) -> (r: JournalCheckpoint)
        requires
            old(self).wf(),
            old(self)@.depth < usize::MAX,
        ensures
            final(self).wf(),
            r == old(self)@.here(),
            r.journal_i == old(self)@.journal.len(),
            r.log_i == old(self)@.logs.len(),
            final(self)@ == old(self)@.entered(),
    {
        let checkpoint = JournalCheckpoint {
            log_i: self.logs.len(),
            journal_i: self.journal.len(),
        };
        self.depth = self.depth + 1;
        checkpoint
    }

    /// Leaves a subroutine and keeps its changes.
    pub fn checkpoint_commit(&mut self)
        requires
            old(self).wf(),
        ensures
            final(self).wf(),
            final(self)@ == (JournalState {
                depth: if old(self)@.depth > 0 {
                    (old(self)@.depth - 1) as usize
                } else {
                    0
                },
                ..old(self)@
            }),
    {
        self.depth = self.depth.saturating_sub(1);
    }

    /// Leaves a subroutine and undoes what happened since its checkpoint.
    pub fn checkpoint_revert(&mut self, checkpoint: JournalCheckpoint)
        requires
            old(self).wf(),
            old(self)@.revertible_to(checkpoint.journal_i as int),
        ensures
            final(self).wf(),
            final(self)@ == old(self)@.reverted(checkpoint),
    {
        proof {
            model::lemma_undone_to(self@, checkpoint.journal_i as int);
        }
        self.undo_to(checkpoint.journal_i);
        self.depth = self.depth.saturating_sub(1);
        let ghost logs = self.logs@;
        if checkpoint.log_i < self.logs.len() {
            self.logs.truncate(checkpoint.log_i);
            assert(model::log_views(self.logs@) =~= model::log_views(logs).subrange(
                0,
                checkpoint.log_i as int,
            ));
        } else {
            assert(checkpoint.log_i == logs.len() ==> model::log_views(logs).subrange(
                0,
                checkpoint.log_i as int,
            ) =~= model::log_views(logs));
        }
        assert(self@ =~= old(self)@.reverted(checkpoint));
    }

    /// Creates an account that is loaded: enters a subroutine, marks the account as created and
    /// moves the balance to it, from a caller that has it. If the account is in use or would
    /// have too much, the subroutine is left again.
    pub fn create_account_checkpoint(
        &mut self,
        caller: Address,
        target_address: Address,
        balance: U256,
        spec_id: SpecId,
    ) -> (r: Result<JournalCheckpoint, TransferError>)
        requires
            old(self).wf(),
            old(self)@.depth < usize::MAX,
            old(self)@.state.contains_key(caller),
            old(self)@.state.contains_key(target_address),
        ensures
            final(self).wf(),
            ({
                let s = old(self)@;
                let made = s.entered().created(target_address, spec_id);
                if !s.creatable(target_address) {
                    r == Err::<JournalCheckpoint, _>(TransferError::CreateCollision)
                        && final(self)@ == s
                } else if s.state[target_address].info.balance.val() + balance.val()
                    >= u256::word_count() {
                    r == Err::<JournalCheckpoint, _>(TransferError::OverflowPayment)
                        && final(self)@ == made.reverted(s.here())
                } else {
                    r == Ok::<_, TransferError>(s.here()) && final(self)@ == made.endowed(
                        caller,
                        target_address,
                        balance,
                    )
                }
            }),
    {
        let checkpoint = self.checkpoint();
        let target_place: usize = self.state.place_of(&target_address).unwrap();
        let target = self.state.value_at(target_place);
        if !target.info.code_hash.same(&keccak_empty()) || target.info.nonce != 0 {
            self.checkpoint_revert(checkpoint);
            assert(self@.logs =~= old(self)@.logs);
            assert(self@ =~= old(self)@);
            return Err(TransferError::CreateCollision);
        }
        let ghost s1 = self@;
        self.create_at(&target_address, target_place, spec_id);
        proof {
            model::lemma_created(s1, target_address, spec_id);
        }
        let target_balance: U256 = self.state.value_at(target_place).info.balance;
        assert(self.state.kept_at(target_address, target_place as int));
        if target_balance.checked_add(balance).is_none() {
            self.checkpoint_revert(checkpoint);
            return Err(TransferError::OverflowPayment);
        }
        self.endow_at(&caller, &target_address, target_place, balance);
        Ok(checkpoint)
    }

    /// Marks the account at a place as created.
    fn create_at(&mut self, target: &Address, i: usize, spec_id: SpecId)
        requires
            old(self).wf(),
            i < old(self).state.places(),
            old(self).state.kept_at(*target, i as int),
        ensures
            final(self).wf(),
            final(self)@ == old(self)@.created(*target, spec_id),
            final(self).state.places() == old(self).state.places(),
            forall|key: Address, j: int| #[trigger]
                final(self).state.kept_at(key, j) == old(self).state.kept_at(key, j),
    {
        let ghost s = self@;
        let account = self.account_at(target, i);
        let is_created_globally: bool = account.mark_created_locally();
        account.info.code = None;
        if spec_id.is_enabled_in(SpecId::SPURIOUS_DRAGON) {
            account.info.nonce = 1;
        }
        let ghost marked = account@;
        self.note(JournalEntry::AccountCreated { address: *target, is_created_globally });
        assert(self@ =~= s.journaled(
            JournalEntry::AccountCreated { address: *target, is_created_globally },
        ).with_account(*target, marked));
        self.touch_at(target, i);
    }

    /// Moves balance from a caller that has it to the account at a place.
    fn endow_at(&mut self, caller: &Address, target: &Address, i: usize, balance: U256)
        requires
            old(self).wf(),
            old(self)@.state.contains_key(*caller),
            i < old(self).state.places(),
            old(self).state.kept_at(*target, i as int),
        ensures
            final(self).wf(),
            final(self)@ == old(self)@.endowed(*caller, *target, balance),
    {
        self.raise_at(target, i, balance);
        assert(self@.state.contains_key(*caller));
        let caller_place: usize = self.state.place_of(caller).unwrap();
        self.lower_at(caller, caller_place, balance);
        self.note(
            JournalEntry::BalanceTransfer { from: *caller, to: *target, balance },
        );
    }

    /// Adds to the balance of the account at a place.
    fn raise_at(&mut self, address: &Address, i: usize, balance: U256)
        requires
            old(self).wf(),
            i < old(self).state.places(),
            old(self).state.kept_at(*address, i as int),
        ensures
            final(self).wf(),
            final(self)@ == old(self)@.with_account(
                *address,
                old(self)@.state[*address].with_balance(
                    entry::more(old(self)@.state[*address].info.balance, balance),
                ),
            ),
            final(self).state.places() == old(self).state.places(),
            forall|key: Address, j: int| #[trigger]
                final(self).state.kept_at(key, j) == old(self).state.kept_at(key, j),
    {
        reveal(entry::more);
        let account = self.account_at(address, i);
        account.info.balance = account.info.balance.wrapping_add(balance);
    }

    /// Takes from the balance of the account at a place.
    fn lower_at(&mut self, address: &Address, i: usize, balance: U256)
        requires
            old(self).wf(),
            i < old(self).state.places(),
            old(self).state.kept_at(*address, i as int),
        ensures
            final(self).wf(),
            final(self)@ == old(self)@.with_account(
                *address,
                old(self)@.state[*address].with_balance(
                    entry::less(old(self)@.state[*address].info.balance, balance),
                ),
            ),
            final(self).state.places() == old(self).state.places(),
            forall|key: Address, j: int| #[trigger]
                final(self).state.kept_at(key, j) == old(self).state.kept_at(key, j),
    {
        reveal(entry::less);
        let account = self.account_at(address, i);
        account.info.balance = account.info.balance.wrapping_sub(balance);
    }

    /// What is in the transient storage.
    pub fn tload(&mut self, address: Address, key: U256) -> (r: U256)
        requires
            old(self).wf(),
        ensures
            final(self).wf(),
            r == old(self)@.transient_value(address, key),
            final(self)@ == old(self)@,
    {
        match self.transient_storage.get(&(address, key)) {
            Some(v) => *v,
            None => U256::zero(),
        }
    }

    /// Writes the transient storage.
    pub fn tstore(&mut self, address: Address, key: U256, new: U256)
        requires
            old(self).wf(),
        ensures
            final(self).wf(),
            final(self)@ == old(self)@.tstored(address, key, new),
    {
        let had_value: Option<U256> = if new.is_zero() {
            self.transient_storage.remove(&(address, key))
        } else {
            let previous: U256 = match self.transient_storage.insert((address, key), new) {
                Some(v) => v,
                None => U256::zero(),
            };
            if previous.same(&new) {
                None
            } else {
                Some(previous)
            }
        };
        if let Some(had_value) = had_value {
            self.note(JournalEntry::TransientStorageChange { address, key, had_value });
        }
    }

    /// Adds a log.
    pub fn log(&mut self, log: Log)
        requires
            old(self).wf(),
        ensures
            final(self).wf(),
            final(self)@ == (JournalState { logs: old(self)@.logs.push(log@), ..old(self)@ }),
    {
        self.logs.push(log);
        assert(self@.logs =~= old(self)@.logs.push(log@));
    }

    /// Marks the account at a place, which is cold, as used by the transaction.
    fn open_at(&mut self, address: &Address, i: usize)
        requires
            old(self).wf(),
            i < old(self).state.places(),
            old(self).state.kept_at(*address, i as int),
            old(self)@.state[*address].cold_in(old(self)@.transaction_id),
        ensures
            final(self).wf(),
            final(self)@ == old(self)@.opened(*address),
            final(self).state.places() == old(self).state.places(),
            forall|key: Address, j: int| #[trigger]
                final(self).state.kept_at(key, j) == old(self).state.kept_at(key, j),
    {
        let transaction_id: usize = self.transaction_id;
        let account = self.account_at(address, i);
        let _ = account.mark_warm_with_transaction_id(transaction_id);
        if account.is_selfdestructed_locally() {
            account.selfdestruct();
            account.unmark_selfdestructed_locally();
        }
        account.unmark_created_locally();
    }

    /// Loads the code of the account at a place, if it is to be loaded and is not yet.
    fn load_code_at<DB: Database>(
        &mut self,
        db: &mut DB,
        address: &Address,
        i: usize,
        load_code: bool,
        is_cold: bool,
    ) -> (r: Result<(usize, bool), JournalLoadError<DB::Error>>)
        requires
            old(self).wf(),
            i < old(self).state.places(),
            old(self).state.kept_at(*address, i as int),
        ensures
            final(self).wf(),
            model::code_loaded(
                old(self)@,
                *address,
                load_code,
                is_cold,
                old(db),
                model::load_view(r),
                final(self)@,
                final(db),
            ),
            r matches Ok((place, _)) ==> place == i,
            final(self).state.places() == old(self).state.places(),
            forall|key: Address, j: int| #[trigger]
                final(self).state.kept_at(key, j) == old(self).state.kept_at(key, j),
    {
        let info = &self.state.value_at(i).info;
        if !load_code || info.code.is_some() {
            return Ok((i, is_cold));
        }
        let code_hash: B256 = info.code_hash;
        let code = if code_hash.same(&keccak_empty()) {
            Bytecode::default()
        } else {
            match db.code_by_hash(code_hash) {
                Ok(code) => code,
                Err(e) => {
                    return Err(JournalLoadError::DBError(e));
                },
            }
        };
        let account = self.account_at(address, i);
        account.info.code = Some(code);
        Ok((i, is_cold))
    }

    /// Loads an account; tells where it is kept and whether it was cold.
    fn load_place<DB: Database>(
        &mut self,
        db: &mut DB,
        address: &Address,
        load_code: bool,
        skip_cold_load: bool,
    ) -> (r: Result<(usize, bool), JournalLoadError<DB::Error>>)
        requires
            old(self).wf(),
        ensures
            final(self).wf(),
            model::account_loaded(
                old(self)@,
                *address,
                load_code,
                skip_cold_load,
                old(db),
                model::load_view(r),
                final(self)@,
                final(db),
            ),
            r matches Ok((i, _)) ==> i < final(self).state.places() && final(self).state.kept_at(
                *address,
                i as int,
            ),
    {
        let ghost s = self@;
        match self.place_of(address) {
            Some(i) => {
                let mut is_cold: bool = self.state.value_at(i).is_cold_transaction_id(
                    self.transaction_id,
                );
                if is_cold {
                    let should_be_cold: bool = self.warm_addresses.is_cold(address);
                    if should_be_cold && skip_cold_load {
                        return Err(JournalLoadError::ColdLoadSkipped);
                    }
                    is_cold = should_be_cold;
                    self.open_at(address, i);
                }
                assert(self@ == s.opened(*address));
                assert(is_cold == s.cold_load(*address));
                if is_cold {
                    self.note(JournalEntry::AccountWarmed { address: *address });
                }
                assert(self.state.kept_at(*address, i as int));
                self.load_code_at(db, address, i, load_code, is_cold)
            },
            None => {
                self.account_cache.clear();
                let is_cold: bool = self.warm_addresses.is_cold(address);
                if is_cold && skip_cold_load {
                    return Err(JournalLoadError::ColdLoadSkipped);
                }
                let account = match db.basic(*address) {
                    Ok(Some(info)) => Account::from_info(info),
                    Ok(None) => Account::new_not_existing(self.transaction_id),
                    Err(e) => {
                        return Err(JournalLoadError::DBError(e));
                    },
                };
                proof {
                    account::lemma_accounts_insert(self.state@, *address, account);
                }
                let i: usize = self.state.insert_new(*address, account);
                if is_cold {
                    self.note(JournalEntry::AccountWarmed { address: *address });
                }
                self.load_code_at(db, address, i, load_code, is_cold)
            },
        }
    }

    /// Loads an account, perhaps with its code; a cold one may be skipped.
    pub fn load_account_optional<DB: Database>(
        &mut self,
        db: &mut DB,
        address: Address,
        load_code: bool,
        skip_cold_load: bool,
    ) -> (r: Result<StateLoad<&Account>, JournalLoadError<DB::Error>>)
        requires
            old(self).wf(),
        ensures
            final(self).wf(),
            model::account_loaded(
                old(self)@,
                address,
                load_code,
                skip_cold_load,
                old(db),
                model::coldness(r),
                final(self)@,
                final(db),
            ),
            r matches Ok(load) ==> final(self)@.state.contains_key(address) && load.data@
                == final(self)@.state[address],
    {
        match self.load_place(db, &address, load_code, skip_cold_load) {
            Ok((i, is_cold)) => {
                let account = self.state.value_at(i);
                Ok(StateLoad { data: account, is_cold })
            },
            Err(e) => Err(e),
        }
    }

    /// Loads an account.
    pub fn load_account<DB: Database>(&mut self, db: &mut DB, address: Address) -> (r: Result<
        StateLoad<&Account>,
        DB::Error,
    >)
        requires
            old(self).wf(),
        ensures
            final(self).wf(),
            model::account_loaded(
                old(self)@,
                address,
                false,
                false,
                old(db),
                model::coldness(model::as_load(r)),
                final(self)@,
                final(db),
            ),
            r matches Ok(load) ==> final(self)@.state.contains_key(address) && load.data@
                == final(self)@.state[address],
    {
        match self.load_account_optional(db, address, false, false) {
            Ok(load) => Ok(load),
            Err(e) => Err(e.unwrap_db_error()),
        }
    }

    /// Loads an account with its code.
    pub fn load_code<DB: Database>(&mut self, db: &mut DB, address: Address) -> (r: Result<
        StateLoad<&Account>,
        DB::Error,
    >)
        requires
            old(self).wf(),
        ensures
            final(self).wf(),
            model::account_loaded(
                old(self)@,
                address,
                true,
                false,
                old(db),
                model::coldness(model::as_load(r)),
                final(self)@,
                final(db),
            ),
            r matches Ok(load) ==> final(self)@.state.contains_key(address) && load.data@
                == final(self)@.state[address],
    {
        match self.load_account_optional(db, address, true, false) {
            Ok(load) => Ok(load),
            Err(e) => Err(e.unwrap_db_error()),
        }
    }

    /// Loads an account for changes, perhaps with its code; a cold one may be skipped.
    pub fn load_account_mut_optional_code<DB: Database>(
        &mut self,
        db: &mut DB,
        address: Address,
        load_code: bool,
        skip_cold_load: bool,
    ) -> (r: Result<StateLoad<JournaledAccount<'_>>, JournalLoadError<DB::Error>>)
        requires
            old(self).wf(),
        ensures
            final(self).wf(),
            match r {
                Ok(load) => load.data.address == address && model::account_lent(
                    old(self)@,
                    address,
                    load_code,
                    skip_cold_load,
                    old(db),
                    load.is_cold,
                    load.data.account@,
                    load.data.journal_entries@,
                    final(load.data.account)@,
                    final(load.data.journal_entries)@,
                    final(self)@,
                    final(db),
                ),
                Err(e) => model::account_loaded(
                    old(self)@,
                    address,
                    load_code,
                    skip_cold_load,
                    old(db),
                    Err(e),
                    final(self)@,
                    final(db),
                ),
            },
    {
        match self.load_place(db, &address, load_code, skip_cold_load) {
            Ok((i, is_cold)) => {
                let data = self.journaled_at(address, i);
                Ok(StateLoad { data, is_cold })
            },
            Err(e) => Err(e),
        }
    }

    /// Loads an account for changes.
    pub fn load_account_mut<DB: Database>(&mut self, db: &mut DB, address: Address) -> (r: Result<
        StateLoad<JournaledAccount<'_>>,
        DB::Error,
    >)
        requires
            old(self).wf(),
        ensures
            final(self).wf(),
            match r {
                Ok(load) => load.data.address == address && model::account_lent(
                    old(self)@,
                    address,
                    false,
                    false,
                    old(db),
                    load.is_cold,
                    load.data.account@,
                    load.data.journal_entries@,
                    final(load.data.account)@,
                    final(load.data.journal_entries)@,
                    final(self)@,
                    final(db),
                ),
                Err(e) => model::account_loaded(
                    old(self)@,
                    address,
                    false,
                    false,
                    old(db),
                    Err(JournalLoadError::DBError(e)),
                    final(self)@,
                    final(db),
                ),
            },
    {
        match self.load_account_mut_optional_code(db, address, false, false) {
            Ok(load) => Ok(load),
            Err(e) => Err(e.unwrap_db_error()),
        }
    }

    /// Adds to the balance of an account.
    pub fn balance_incr<DB: Database>(
        &mut self,
        db: &mut DB,
        address: Address,
        balance: U256,
    ) -> (r: Result<(), DB::Error>)
        requires
            old(self).wf(),
        ensures
            final(self).wf(),
            model::balance_incremented(
                old(self)@,
                address,
                balance,
                old(db),
                r,
                final(self)@,
                final(db),
            ),
    {
        match self.load_account_mut(db, address) {
            Ok(load) => {
                let _ = load.data.incr_balance(balance);
                Ok(())
            },
            Err(e) => Err(e),
        }
    }

    /// Moves balance between two accounts; tells why it failed.
    pub fn transfer<DB: Database>(
        &mut self,
        db: &mut DB,
        from: Address,
        to: Address,
        balance: U256,
    ) -> (r: Result<Option<TransferError>, DB::Error>)
        requires
            old(self).wf(),
        ensures
            final(self).wf(),
            model::transfer_made(
                old(self)@,
                from,
                to,
                balance,
                old(db),
                r,
                final(self)@,
                final(db),
            ),
    {
        let first = self.load_place(db, &from, false, false);
        if let Err(e) = first {
            return Err(e.unwrap_db_error());
        }
        let ghost mid = self@;
        let ghost between = *db;
        assert(model::account_loaded(
            old(self)@,
            from,
            false,
            false,
            old(db),
            model::load_view(first),
            mid,
            &between,
        ));
        let second = self.load_place(db, &to, false, false);
        assert(model::account_loaded(
            mid,
            to,
            false,
            false,
            &between,
            model::load_view(second),
            self@,
            db,
        ));
        if let Err(e) = second {
            return Err(e.unwrap_db_error());
        }
        proof {
            model::lemma_loaded(mid, to, false, false, &between, model::load_view(second), self@, db);
        }
        assert(model::both_loaded(old(self)@, from, to, old(db), None::<DB::Error>, self@, db));
        Ok(self.transfer_loaded(from, to, balance))
    }

    /// Destroys an account that is there and gives its balance to another; tells what the
    /// destruction met.
    pub fn selfdestruct<DB: Database>(
        &mut self,
        db: &mut DB,
        address: Address,
        target: Address,
    ) -> (r: Result<StateLoad<SelfDestructResult>, DB::Error>)
        requires
            old(self).wf(),
            old(self)@.state.contains_key(address),
        ensures
            final(self).wf(),
            model::destruction_made(
                old(self)@,
                address,
                target,
                old(db),
                r,
                final(self)@,
                final(db),
            ),
    {
        let (target_place, is_cold) = match self.load_place(db, &target, false, false) {
            Ok(load) => load,
            Err(e) => {
                return Err(e.unwrap_db_error());
            },
        };
        proof {
            model::lemma_loaded(
                old(self)@,
                target,
                false,
                false,
                old(db),
                Ok(is_cold),
                self@,
                db,
            );
        }
        let ghost mid = self@;
        let is_empty: bool = self.state.value_at(target_place).state_clear_aware_is_empty(
            self.spec,
        );
        assert(model::account_loaded(
            old(self)@,
            target,
            false,
            false,
            old(db),
            Ok(is_cold),
            mid,
            db,
        ));
        let (balance, destroyed_status) = self.destroy(&address, &target, target_place);
        let load = StateLoad {
            data: SelfDestructResult {
                had_value: !balance.is_zero(),
                target_exists: !is_empty,
                previously_destroyed: destroyed_status
                    == SelfdestructionRevertStatus::RepeatedSelfdestruction,
            },
            is_cold,
        };
        Ok(load)
    }

    /// Destroys an account that is there, whose target is at a place; tells the balance that it
    /// had and whether it had been destroyed before.
    fn destroy(&mut self, address: &Address, target: &Address, target_place: usize) -> (r: (
        U256,
        SelfdestructionRevertStatus,
    ))
        requires
            old(self).wf(),
            old(self)@.state.contains_key(*address),
            target_place < old(self).state.places(),
            old(self).state.kept_at(*target, target_place as int),
        ensures
            final(self).wf(),
            final(self)@ == old(self)@.destroyed(*address, *target),
            r.0 == old(self)@.state[*address].info.balance,
            r.1 == old(self)@.destroyed_status(*address),
    {
        let place: usize = self.state.place_of(address).unwrap();
        if !address.same(target) {
            let acc_balance: U256 = self.state.value_at(place).info.balance;
            self.touch_at(target, target_place);
            assert(self.state.kept_at(*target, target_place as int));
            self.raise_at(target, target_place, acc_balance);
        }
        assert(self.state.kept_at(*address, place as int));
        let ghost s = self@;
        let is_cancun_enabled: bool = self.spec.is_enabled_in(SpecId::CANCUN);
        let acc = self.account_at(address, place);
        let balance: U256 = acc.info.balance;
        let destroyed_status = if !acc.is_selfdestructed() {
            SelfdestructionRevertStatus::GloballySelfdestroyed
        } else if !acc.is_selfdestructed_locally() {
            SelfdestructionRevertStatus::LocallySelfdestroyed
        } else {
            SelfdestructionRevertStatus::RepeatedSelfdestruction
        };
        if acc.is_created_locally() || !is_cancun_enabled {
            let _ = acc.mark_selfdestructed_locally();
            acc.info.balance = U256::zero();
            self.note(
                JournalEntry::AccountDestroyed {
                    address: *address,
                    target: *target,
                    destroyed_status,
                    had_balance: balance,
                },
            );
        } else if !address.same(target) {
            acc.info.balance = U256::zero();
            self.note(
                JournalEntry::BalanceTransfer { from: *address, to: *target, balance },
            );
        } else {
            assert(self@ =~= s);
        }
        (balance, destroyed_status)
    }

    /// Loads an account for a call; tells whether it is empty, and whether it and the account
    /// that it delegates to were cold.
    pub fn load_account_delegated<DB: Database>(&mut self, db: &mut DB, address: Address) -> (r:
        Result<StateLoad<AccountLoad>, DB::Error>)
        requires
            old(self).wf(),
        ensures
            final(self).wf(),
            model::delegated_loaded(
                old(self)@,
                address,
                old(db),
                r,
                final(self)@,
                final(db),
            ),
    {
        let spec = self.spec;
        let is_eip7702_enabled: bool = spec.is_enabled_in(SpecId::PRAGUE);
        let (i, is_cold) = match self.load_place(db, &address, is_eip7702_enabled, false) {
            Ok(load) => load,
            Err(e) => {
                return Err(e.unwrap_db_error());
            },
        };
        let account = self.state.value_at(i);
        let is_empty: bool = account.state_clear_aware_is_empty(spec);
        let other: Option<Address> = match &account.info.code {
            Some(Bytecode::Eip7702(code)) => Some(code.address()),
            _ => None,
        };
        assert(other == model::delegate(self@.state[address]));
        let mut is_delegate_account_cold: Option<bool> = None;
        if let Some(other) = other {
            match self.load_place(db, &other, true, false) {
                Ok((_, other_cold)) => {
                    is_delegate_account_cold = Some(other_cold);
                },
                Err(e) => {
                    return Err(e.unwrap_db_error());
                },
            }
        }
        Ok(StateLoad { data: AccountLoad { is_delegate_account_cold, is_empty }, is_cold })
    }

    /// The place of an account that has a slot which is warm.
    fn sload_slot_warm(&mut self, address: &Address, key: &U256) -> (r: Option<usize>)
        requires
            old(self).wf(),
        ensures
            final(self).wf(),
            final(self)@ == old(self)@,
            r is Some <==> old(self)@.state.contains_key(*address)
                && old(self)@.state[*address].storage.contains_key(*key)
                && !old(self)@.state[*address].storage[*key].cold_in(old(self)@.transaction_id),
            r matches Some(i) ==> i < final(self).state.places() && final(self).state.kept_at(
                *address,
                i as int,
            ),
    {
        let i: usize = match self.place_of(address) {
            Some(i) => i,
            None => {
                return None;
            },
        };
        match self.state.value_at(i).storage.get(key) {
            Some(slot) => {
                if slot.is_cold_transaction_id(self.transaction_id) {
                    None
                } else {
                    Some(i)
                }
            },
            None => None,
        }
    }

    /// Loads a slot of an account that is there; tells where the account is kept and whether
    /// the slot was cold.
    fn sload_slot_cold<DB: Database>(
        &mut self,
        db: &mut DB,
        address: &Address,
        key: &U256,
        skip_cold_load: bool,
    ) -> (r: Result<(usize, bool), JournalLoadError<DB::Error>>)
        requires
            old(self).wf(),
            old(self)@.state.contains_key(*address),
        ensures
            final(self).wf(),
            model::slot_loaded(
                old(self)@,
                *address,
                *key,
                skip_cold_load,
                old(db),
                model::load_view(r),
                final(self)@,
                final(db),
            ),
            r matches Ok((i, _)) ==> i < final(self).state.places() && final(self).state.kept_at(
                *address,
                i as int,
            ) && final(self)@.state.contains_key(*address)
                && final(self)@.state[*address].storage.contains_key(*key),
    {
        let i: usize = self.place_of(address).unwrap();
        let transaction_id: usize = self.transaction_id;
        let is_cold: bool = match self.state.value_at(i).storage.get(key) {
            Some(slot) => slot.is_cold_transaction_id(transaction_id),
            None => {
                return self.sload_slot_miss(db, address, i, key, skip_cold_load);
            },
        };
        if is_cold {
            if skip_cold_load {
                return Err(JournalLoadError::ColdLoadSkipped);
            }
            self.note(JournalEntry::StorageWarmed { address: *address, key: *key });
        }
        let slot = self.account_at(address, i).storage.get_mut(key).unwrap();
        slot.transaction_id = transaction_id;
        slot.is_cold = false;
        assert(self.state.kept_at(*address, i as int));
        Ok((i, is_cold))
    }

    /// Loads a slot that is not there, of the account at a place.
    fn sload_slot_miss<DB: Database>(
        &mut self,
        db: &mut DB,
        address: &Address,
        i: usize,
        key: &U256,
        skip_cold_load: bool,
    ) -> (r: Result<(usize, bool), JournalLoadError<DB::Error>>)
        requires
            old(self).wf(),
            i < old(self).state.places(),
            old(self).state.kept_at(*address, i as int),
            old(self)@.state.contains_key(*address),
            !old(self)@.state[*address].storage.contains_key(*key),
        ensures
            final(self).wf(),
            model::slot_loaded(
                old(self)@,
                *address,
                *key,
                skip_cold_load,
                old(db),
                model::load_view(r),
                final(self)@,
                final(db),
            ),
            r matches Ok((place, _)) ==> place == i && i < final(self).state.places()
                && final(self).state.kept_at(*address, i as int)
                && final(self)@.state.contains_key(*address)
                && final(self)@.state[*address].storage.contains_key(*key),
    {
        let is_cold: bool = !self.warm_addresses.is_storage_warm(address, key);
        if is_cold && skip_cold_load {
            return Err(JournalLoadError::ColdLoadSkipped);
        }
        let value: U256 = if self.state.value_at(i).is_created() {
            U256::zero()
        } else {
            match db.storage(*address, *key) {
                Ok(value) => value,
                Err(e) => {
                    return Err(JournalLoadError::DBError(e));
                },
            }
        };
        let transaction_id: usize = self.transaction_id;
        if is_cold {
            self.note(JournalEntry::StorageWarmed { address: *address, key: *key });
        }
        let account = self.account_at(address, i);
        let _ = account.storage.insert(*key, EvmStorageSlot::new(value, transaction_id));
        assert(self.state.kept_at(*address, i as int));
        Ok((i, is_cold))
    }

    /// Reads a storage slot of an account that is there; a cold one may be skipped.
    pub fn sload<DB: Database>(
        &mut self,
        db: &mut DB,
        address: Address,
        key: U256,
        skip_cold_load: bool,
    ) -> (r: Result<StateLoad<U256>, JournalLoadError<DB::Error>>)
        requires
            old(self).wf(),
            old(self)@.state.contains_key(address),
        ensures
            final(self).wf(),
            model::slot_read(
                old(self)@,
                address,
                key,
                skip_cold_load,
                old(db),
                r,
                final(self)@,
                final(db),
            ),
    {
        let i: usize = match self.sload_slot_warm(&address, &key) {
            Some(i) => i,
            None => {
                return self.sload_cold(db, address, key, skip_cold_load);
            },
        };
        proof {
            model::lemma_warm_slot(self@, address, key);
        }
        let slot = self.state.value_at(i).storage.get(&key).unwrap();
        Ok(StateLoad { data: slot.present_value, is_cold: false })
    }

    /// [`Self::sload`], for a slot that is not warm.
    fn sload_cold<DB: Database>(
        &mut self,
        db: &mut DB,
        address: Address,
        key: U256,
        skip_cold_load: bool,
    ) -> (r: Result<StateLoad<U256>, JournalLoadError<DB::Error>>)
        requires
            old(self).wf(),
            old(self)@.state.contains_key(address),
        ensures
            final(self).wf(),
            model::slot_read(
                old(self)@,
                address,
                key,
                skip_cold_load,
                old(db),
                r,
                final(self)@,
                final(db),
            ),
    {
        match self.sload_slot_cold(db, &address, &key, skip_cold_load) {
            Ok((i, is_cold)) => {
                let slot = self.state.value_at(i).storage.get(&key).unwrap();
                Ok(StateLoad { data: slot.present_value, is_cold })
            },
            Err(e) => Err(e),
        }
    }

    /// Writes a loaded slot of the account at a place.
    fn store_at(&mut self, address: &Address, i: usize, key: &U256, new: U256) -> (r: SStoreResult)
        requires
            old(self).wf(),
            i < old(self).state.places(),
            old(self).state.kept_at(*address, i as int),
            old(self)@.state[*address].storage.contains_key(*key),
        ensures
            final(self).wf(),
            final(self)@ == old(self)@.stored(*address, *key, new),
            r == old(self)@.store_result(*address, *key, new),
    {
        let slot = self.state.value_at(i).storage.get(key).unwrap();
        let present: U256 = slot.present_value;
        let original: U256 = slot.original_value();
        if !present.same(&new) {
            self.note(
                JournalEntry::StorageChanged { address: *address, key: *key, had_value: present },
            );
            let slot = self.account_at(address, i).storage.get_mut(key).unwrap();
            slot.present_value = new;
        }
        SStoreResult { original_value: original, present_value: present, new_value: new }
    }

    /// Writes a storage slot of an account that is there; tells the three values that meet. A
    /// cold slot may be skipped.
    pub fn sstore<DB: Database>(
        &mut self,
        db: &mut DB,
        address: Address,
        key: U256,
        new: U256,
        skip_cold_load: bool,
    ) -> (r: Result<StateLoad<SStoreResult>, JournalLoadError<DB::Error>>)
        requires
            old(self).wf(),
            old(self)@.state.contains_key(address),
        ensures
            final(self).wf(),
            model::slot_written(
                old(self)@,
                address,
                key,
                new,
                skip_cold_load,
                old(db),
                r,
                final(self)@,
                final(db),
            ),
    {
        let i: usize = match self.sload_slot_warm(&address, &key) {
            Some(i) => i,
            None => {
                return self.sstore_cold(db, address, key, new, skip_cold_load);
            },
        };
        proof {
            model::lemma_warm_slot(self@, address, key);
        }
        assert(model::slot_loaded(
            old(self)@,
            address,
            key,
            skip_cold_load,
            old(db),
            Ok(false),
            self@,
            db,
        ));
        let data = self.store_at(&address, i, &key, new);
        Ok(StateLoad { data, is_cold: false })
    }

    /// [`Self::sstore`], for a slot that is not warm.
    fn sstore_cold<DB: Database>(
        &mut self,
        db: &mut DB,
        address: Address,
        key: U256,
        new: U256,
        skip_cold_load: bool,
    ) -> (r: Result<StateLoad<SStoreResult>, JournalLoadError<DB::Error>>)
        requires
            old(self).wf(),
            old(self)@.state.contains_key(address),
        ensures
            final(self).wf(),
            model::slot_written(
                old(self)@,
                address,
                key,
                new,
                skip_cold_load,
                old(db),
                r,
                final(self)@,
                final(db),
            ),
    {
        match self.sload_slot_cold(db, &address, &key, skip_cold_load) {
            Ok((i, is_cold)) => {
                let data = self.store_at(&address, i, &key, new);
                Ok(StateLoad { data, is_cold })
            },
            Err(e) => Err(e),
        }
    }

    /// The account at a place, with the journal.
    fn journaled_at(&mut self, address: Address, i: usize) -> (r: JournaledAccount<'_>)
        requires
            old(self).wf(),
            i < old(self).state.places(),
            old(self).state.kept_at(address, i as int),
        ensures
            final(self).wf(),
            r.address == address,
            old(self)@.state.contains_key(address),
            r.account@ == old(self)@.state[address],
            r.journal_entries@ == old(self)@.journal,
            final(self)@ == old(self)@.holding(
                address,
                final(r.account)@,
                final(r.journal_entries)@,
            ),
    {
        proof {
            let m = self.state@;
            assert forall|acc: Account| #[trigger]
                account::accounts(m.insert(address, acc)) == account::accounts(m).insert(
                    address,
                    acc@,
                ) by {
                account::lemma_accounts_insert(m, address, acc);
            }
        }
        JournaledAccount {
            address,
            account: self.state.value_at_mut(i),
            journal_entries: &mut self.journal,
        }
    }
}

/// An account with the journal, so that changes of the account are noted.
pub struct JournaledAccount<'a> {
    /// The address of the account.
    pub address: Address,
    /// The account.
    pub account: &'a mut Account,
    /// The journal.
    pub journal_entries: &'a mut Vec<JournalEntry>,
}

impl<'a> JournaledAccount<'a> {
    /// Touches the account.
    pub fn touch(self)
        ensures
            (final(self.account)@, final(self.journal_entries)@) == model::account_touched(
                old(self.account)@,
                old(self.journal_entries)@,
                self.address,
            ),
    {
        if !self.account.is_touched() {
            self.account.mark_touch();
            self.journal_entries.push(JournalEntry::AccountTouched { address: self.address });
        }
    }

    /// Sets the balance.
    pub fn set_balance(self, balance: U256)
        ensures
            (final(self.account)@, final(self.journal_entries)@) == model::balance_set(
                old(self.account)@,
                old(self.journal_entries)@,
                self.address,
                balance,
            ),
    {
        if !self.account.is_touched() {
            self.account.mark_touch();
            self.journal_entries.push(JournalEntry::AccountTouched { address: self.address });
        }
        let old_balance: U256 = self.account.info.balance;
        if !old_balance.same(&balance) {
            self.journal_entries.push(
                JournalEntry::BalanceChange { address: self.address, old_balance },
            );
            self.account.info.balance = balance;
        }
    }

    /// Adds to the balance; tells whether the sum is a balance.
    pub fn incr_balance(self, balance: U256) -> (r: bool)
        ensures
            r == (old(self.account)@.info.balance.val() + balance.val() < u256::word_count()),
            (final(self.account)@, final(self.journal_entries)@) == model::raised(
                old(self.account)@,
                old(self.journal_entries)@,
                self.address,
                balance,
            ),
    {
        reveal(entry::more);
        if !self.account.is_touched() {
            self.account.mark_touch();
            self.journal_entries.push(JournalEntry::AccountTouched { address: self.address });
        }
        match self.account.info.balance.checked_add(balance) {
            Some(sum) => {
                self.set_balance(sum);
                true
            },
            None => false,
        }
    }
}

} // verus!
