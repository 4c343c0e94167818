//! What a journal holds, and what each operation makes of it.

use crate::bytecode::code;
use crate::bytecode::code::CodeState;
use crate::host::{Log, LogState, SStoreResult, SelfDestructResult, StateLoad};
use crate::journal::account::{AccountState, AccountStatus, EvmStorageSlot, InfoState};
use crate::journal::database::{Database, DbCall, DbReply};
use crate::journal::entry;
use crate::journal::entry::{JournalEntry, SelfdestructionRevertStatus};
use crate::journal::warm_addresses::WarmState;
use crate::primitives::keccak;
use crate::primitives::u256;
use crate::primitives::{Address, SpecId, B256, U256};
use vstd::prelude::*;

verus! {

/// How far the journal and the logs had come.
#[derive(Clone, Copy, Debug, PartialEq, Eq, Structural)]
pub struct JournalCheckpoint {
    /// The number of logs.
    pub log_i: usize,
    /// The number of entries of the journal.
    pub journal_i: usize,
}

/// Why a transfer failed.
#[derive(Clone, Copy, Debug, PartialEq, Eq, Structural)]
pub enum TransferError {
    /// The sender has less.
    OutOfFunds,
    /// The receiver would have too much.
    OverflowPayment,
    /// The account to create is in use.
    CreateCollision,
}

/// Why a load failed.
#[derive(Clone, Copy, Debug, PartialEq, Eq)]
pub enum JournalLoadError<E> {
    /// The database failed.
    DBError(E),
    /// The value is cold and was not to be loaded.
    ColdLoadSkipped,
}

impl<E> JournalLoadError<E> {
    /// The error of the database.
    pub fn unwrap_db_error(self) -> (r: E)
        requires
            self is DBError,
        ensures
            r == self->DBError_0,
    {
        match self {
            JournalLoadError::DBError(e) => e,
            JournalLoadError::ColdLoadSkipped => {
                proof {
                    assert(false);
                }
                vstd::pervasive::unreached()
            },
        }
    }
}

/// What a call needs to know of an account.
#[derive(Clone, Copy, Debug, PartialEq, Eq, Structural)]
pub struct AccountLoad {
    /// Whether the account that it delegates to was cold, if it delegates.
    pub is_delegate_account_cold: Option<bool>,
    /// Whether it is empty.
    pub is_empty: bool,
}

/// Logs, by what they say.
pub open spec fn log_views(logs: Seq<Log>) -> Seq<LogState> {
    Seq::new(logs.len(), |i: int| logs[i]@)
}

/// What a journal holds.
#[verifier::ext_equal]
pub struct JournalState {
    /// The accounts.
    pub state: Map<Address, AccountState>,
    /// The transient storage.
    pub transient: Map<(Address, U256), U256>,
    /// The logs.
    pub logs: Seq<LogState>,
    /// The depth of the call stack.
    pub depth: usize,
    /// The entries.
    pub journal: Seq<JournalEntry>,
    /// The number of transactions before this one.
    pub transaction_id: usize,
    /// The fork.
    pub spec: SpecId,
    /// What is warm from the start.
    pub warm: WarmState,
}

impl JournalState {
    /// A journal of nothing.
    pub open spec fn fresh() -> JournalState {
        JournalState {
            state: Map::empty(),
            transient: Map::empty(),
            logs: Seq::empty(),
            depth: 0,
            journal: Seq::empty(),
            transaction_id: 0,
            spec: SpecId::PRAGUE,
            warm: WarmState::none(),
        }
    }

    /// The state with an account.
    pub open spec fn with_account(self, address: Address, account: AccountState) -> JournalState {
        JournalState { state: self.state.insert(address, account), ..self }
    }

    /// The state with one more entry.
    pub open spec fn journaled(self, entry: JournalEntry) -> JournalState {
        JournalState { journal: self.journal.push(entry), ..self }
    }

    /// The state with another account and other entries.
    pub open spec fn holding(
        self,
        address: Address,
        account: AccountState,
        journal: Seq<JournalEntry>,
    ) -> JournalState {
        JournalState { journal, ..self.with_account(address, account) }
    }

    /// Whether EIP-161 is in force.
    pub open spec fn dragon(self) -> bool {
        self.spec.enabled(SpecId::SPURIOUS_DRAGON)
    }

    /// An account is touched; the first touch is an entry.
    pub open spec fn touched(self, address: Address) -> JournalState {
        if self.state[address].status.touched {
            self
        } else {
            self.journaled(JournalEntry::AccountTouched { address }).with_account(
                address,
                self.state[address].touched(),
            )
        }
    }

    /// The last entry is undone.
    pub open spec fn undone(self) -> JournalState {
        let entry = self.journal.last();
        JournalState {
            state: entry.undone(self.state, self.dragon()),
            transient: entry.undone_transient(self.transient),
            journal: self.journal.drop_last(),
            ..self
        }
    }

    /// The entries from the `n`th on are undone, the last one first.
    pub open spec fn undone_to(self, n: int) -> JournalState
        decreases self.journal.len(),
    {
        if self.journal.len() <= n || self.journal.len() == 0 {
            self
        } else {
            self.undone().undone_to(n)
        }
    }

    /// The accounts have what undoing the entries from the `n`th on needs.
    pub open spec fn revertible_to(self, n: int) -> bool
        decreases self.journal.len(),
    {
        self.journal.len() <= n || self.journal.len() == 0 || (self.journal.last().grounded(
            self.state,
        ) && self.undone().revertible_to(n))
    }

    /// The state after a checkpoint is returned to.
    pub open spec fn reverted(self, checkpoint: JournalCheckpoint) -> JournalState {
        let back = self.undone_to(checkpoint.journal_i as int);
        JournalState {
            depth: if self.depth > 0 {
                (self.depth - 1) as usize
            } else {
                0
            },
            logs: if checkpoint.log_i <= self.logs.len() {
                self.logs.subrange(0, checkpoint.log_i as int)
            } else {
                self.logs
            },
            ..back
        }
    }

    /// The journal for the next transaction, over given accounts.
    pub open spec fn next_transaction(self, state: Map<Address, AccountState>) -> JournalState {
        JournalState {
            state,
            transient: Map::empty(),
            logs: Seq::empty(),
            depth: 0,
            journal: Seq::empty(),
            transaction_id: (self.transaction_id + 1) as usize,
            spec: self.spec,
            warm: self.warm.cleared(),
        }
    }

    /// Whether the next access to an account is a cold one.
    pub open spec fn cold_load(self, address: Address) -> bool {
        !self.warm.warm(address) && (self.state.contains_key(address) ==> self.state[address].cold_in(
            self.transaction_id,
        ))
    }

    /// An account that is there is accessed.
    pub open spec fn opened(self, address: Address) -> JournalState {
        if self.state[address].cold_in(self.transaction_id) {
            self.with_account(address, self.state[address].opened(self.transaction_id))
        } else {
            self
        }
    }

    /// An account comes from the database.
    pub open spec fn arrived(self, address: Address, info: Option<InfoState>) -> JournalState {
        self.with_account(
            address,
            match info {
                Some(i) => AccountState::from_info(i),
                None => AccountState::not_existing(self.transaction_id),
            },
        )
    }

    /// A cold load is an entry.
    pub open spec fn noted(self, address: Address, cold: bool) -> JournalState {
        if cold {
            self.journaled(JournalEntry::AccountWarmed { address })
        } else {
            self
        }
    }

    /// The code of an account comes from the database.
    pub open spec fn coded(self, address: Address, code: CodeState) -> JournalState {
        self.with_account(address, self.state[address].with_code(Some(code)))
    }

    /// The state with a slot of an account.
    pub open spec fn with_slot(self, address: Address, key: U256, slot: EvmStorageSlot) -> JournalState {
        self.with_account(address, self.state[address].with_slot(key, slot))
    }

    /// A cold load of a slot is an entry.
    pub open spec fn slot_noted(self, address: Address, key: U256, cold: bool) -> JournalState {
        if cold {
            self.journaled(JournalEntry::StorageWarmed { address, key })
        } else {
            self
        }
    }

    /// The value of a slot.
    pub open spec fn present(self, address: Address, key: U256) -> U256 {
        self.state[address].storage[key].present_value
    }

    /// A loaded slot is written; a write of the value that is there changes nothing.
    pub open spec fn stored(self, address: Address, key: U256, new: U256) -> JournalState {
        let slot = self.state[address].storage[key];
        if slot.present_value == new {
            self
        } else {
            self.journaled(
                JournalEntry::StorageChanged { address, key, had_value: slot.present_value },
            ).with_slot(address, key, slot.holding(new))
        }
    }

    /// The three values that meet in a write of a loaded slot.
    pub open spec fn store_result(self, address: Address, key: U256, new: U256) -> SStoreResult {
        SStoreResult {
            original_value: self.state[address].storage[key].original_value,
            present_value: self.present(address, key),
            new_value: new,
        }
    }

    /// What is in the transient storage.
    pub open spec fn transient_value(self, address: Address, key: U256) -> U256 {
        if self.transient.contains_key((address, key)) {
            self.transient[(address, key)]
        } else {
            u256::word(0)
        }
    }

    /// The transient storage is written. A zero is not kept.
    pub open spec fn tstored(self, address: Address, key: U256, new: U256) -> JournalState {
        let had = self.transient_value(address, key);
        let at = (address, key);
        let written = JournalState {
            transient: if new.val() == 0 {
                self.transient.remove(at)
            } else {
                self.transient.insert(at, new)
            },
            ..self
        };
        let changed = if new.val() == 0 {
            self.transient.contains_key(at)
        } else {
            had != new
        };
        if changed {
            written.journaled(
                JournalEntry::TransientStorageChange { address, key, had_value: had },
            )
        } else {
            written
        }
    }

    /// Code is set.
    pub open spec fn code_set(self, address: Address, code: CodeState, hash: B256) -> JournalState {
        let s = self.touched(address);
        s.journaled(JournalEntry::CodeChange { address }).with_account(
            address,
            s.state[address].with_code_hash(hash).with_code(Some(code)),
        )
    }

    /// A transfer between loaded accounts, and why it failed.
    pub open spec fn transferred(self, from: Address, to: Address, balance: U256) -> (
        JournalState,
        Option<TransferError>,
    ) {
        if from == to {
            (
                self,
                if balance.val() > self.state[to].info.balance.val() {
                    Some(TransferError::OutOfFunds)
                } else {
                    None
                },
            )
        } else if balance.val() == 0 {
            (self.touched(to), None)
        } else {
            let s1 = self.touched(from);
            if balance.val() > s1.state[from].info.balance.val() {
                (s1, Some(TransferError::OutOfFunds))
            } else {
                let s2 = s1.with_account(
                    from,
                    s1.state[from].with_balance(
                        entry::less(s1.state[from].info.balance, balance),
                    ),
                ).touched(to);
                if s2.state[to].info.balance.val() + balance.val() >= u256::word_count() {
                    (s2, Some(TransferError::OverflowPayment))
                } else {
                    (
                        s2.with_account(
                            to,
                            s2.state[to].with_balance(
                                entry::more(s2.state[to].info.balance, balance),
                            ),
                        ).journaled(JournalEntry::BalanceTransfer { from, to, balance }),
                        None,
                    )
                }
            }
        }
    }

    /// A balance goes up through a loaded account.
    pub open spec fn balance_raised(self, address: Address, balance: U256) -> JournalState {
        let (account, journal) = raised(self.state[address], self.journal, address, balance);
        self.holding(address, account, journal)
    }

    /// A subroutine is entered.
    pub open spec fn entered(self) -> JournalState {
        JournalState { depth: (self.depth + 1) as usize, ..self }
    }

    /// Where the journal and the logs are.
    pub open spec fn here(self) -> JournalCheckpoint {
        JournalCheckpoint { log_i: self.logs.len() as usize, journal_i: self.journal.len() as usize }
    }

    /// Whether an account can be created at an address.
    pub open spec fn creatable(self, target: Address) -> bool {
        self.state[target].info.code_hash == keccak::spec_keccak_empty()
            && self.state[target].info.nonce == 0
    }

    /// The account is marked as created, before it gets its balance.
    pub open spec fn created(self, target: Address, spec_id: SpecId) -> JournalState {
        let acc = self.state[target];
        self.journaled(
            JournalEntry::AccountCreated {
                address: target,
                is_created_globally: !acc.status.created,
            },
        ).with_account(
            target,
            AccountState {
                info: InfoState {
                    code: None,
                    nonce: if spec_id.enabled(SpecId::SPURIOUS_DRAGON) {
                        1
                    } else {
                        acc.info.nonce
                    },
                    ..acc.info
                },
                status: AccountStatus { created: true, created_local: true, ..acc.status },
                ..acc
            },
        ).touched(target)
    }

    /// The created account gets its balance from the caller.
    pub open spec fn endowed(self, caller: Address, target: Address, balance: U256) -> JournalState {
        let s = self.with_account(
            target,
            self.state[target].with_balance(entry::more(self.state[target].info.balance, balance)),
        );
        s.with_account(
            caller,
            s.state[caller].with_balance(entry::less(s.state[caller].info.balance, balance)),
        ).journaled(JournalEntry::BalanceTransfer { from: caller, to: target, balance })
    }

    /// What a destruction finds.
    pub open spec fn destroyed_status(self, address: Address) -> SelfdestructionRevertStatus {
        let status = self.state[address].status;
        if !status.selfdestructed {
            SelfdestructionRevertStatus::GloballySelfdestroyed
        } else if !status.selfdestructed_local {
            SelfdestructionRevertStatus::LocallySelfdestroyed
        } else {
            SelfdestructionRevertStatus::RepeatedSelfdestruction
        }
    }

    /// An account whose target is loaded is destroyed. From Cancun on only an account that was
    /// created in the same transaction is; another gives its balance away.
    pub open spec fn destroyed(self, address: Address, target: Address) -> JournalState {
        let s = if address == target {
            self
        } else {
            let t = self.touched(target);
            t.with_account(
                target,
                t.state[target].with_balance(
                    entry::more(t.state[target].info.balance, self.state[address].info.balance),
                ),
            )
        };
        let acc = s.state[address];
        let balance = acc.info.balance;
        if acc.status.created_local || !s.spec.enabled(SpecId::CANCUN) {
            s.with_account(
                address,
                acc.with_status(
                    AccountStatus {
                        selfdestructed: true,
                        selfdestructed_local: true,
                        ..acc.status
                    },
                ).with_balance(u256::word(0)),
            ).journaled(
                JournalEntry::AccountDestroyed {
                    address,
                    target,
                    destroyed_status: s.destroyed_status(address),
                    had_balance: balance,
                },
            )
        } else if address != target {
            s.with_account(address, acc.with_balance(u256::word(0))).journaled(
                JournalEntry::BalanceTransfer { from: address, to: target, balance },
            )
        } else {
            s
        }
    }

    /// What a destruction reports, of a target that is loaded and was cold or not.
    pub open spec fn destruction(self, address: Address, target: Address, is_cold: bool) -> StateLoad<
        SelfDestructResult,
    > {
        StateLoad {
            data: SelfDestructResult {
                had_value: self.state[address].info.balance.val() != 0,
                target_exists: !self.state[target].clear_aware_empty(self.spec),
                previously_destroyed: self.destroyed_status(address)
                    == SelfdestructionRevertStatus::RepeatedSelfdestruction,
            },
            is_cold,
        }
    }
}

/// An account is touched; the first touch is an entry.
pub open spec fn account_touched(
    account: AccountState,
    journal: Seq<JournalEntry>,
    address: Address,
) -> (AccountState, Seq<JournalEntry>) {
    if account.status.touched {
        (account, journal)
    } else {
        (account.touched(), journal.push(JournalEntry::AccountTouched { address }))
    }
}

/// A balance is set on an account.
pub open spec fn balance_set(
    account: AccountState,
    journal: Seq<JournalEntry>,
    address: Address,
    balance: U256,
) -> (AccountState, Seq<JournalEntry>) {
    let (a, j) = account_touched(account, journal, address);
    if a.info.balance == balance {
        (a, j)
    } else {
        (
            a.with_balance(balance),
            j.push(JournalEntry::BalanceChange { address, old_balance: a.info.balance }),
        )
    }
}

/// A balance goes up on an account, unless it would be too much.
pub open spec fn raised(
    account: AccountState,
    journal: Seq<JournalEntry>,
    address: Address,
    balance: U256,
) -> (AccountState, Seq<JournalEntry>) {
    let (a, j) = account_touched(account, journal, address);
    if a.info.balance.val() + balance.val() >= u256::word_count() {
        (a, j)
    } else {
        balance_set(a, j, address, entry::more(a.info.balance, balance))
    }
}

/// What a load tells, without the place of the account.
pub open spec fn load_view<E>(r: Result<(usize, bool), JournalLoadError<E>>) -> Result<
    bool,
    JournalLoadError<E>,
> {
    match r {
        Ok((_, cold)) => Ok(cold),
        Err(e) => Err(e),
    }
}

/// Whether what was loaded was cold.
pub open spec fn coldness<T, E>(r: Result<StateLoad<T>, JournalLoadError<E>>) -> Result<
    bool,
    JournalLoadError<E>,
> {
    match r {
        Ok(load) => Ok(load.is_cold),
        Err(e) => Err(e),
    }
}

/// A load that skips nothing, as one that might.
pub open spec fn as_load<T, E>(r: Result<T, E>) -> Result<T, JournalLoadError<E>> {
    match r {
        Ok(load) => Ok(load),
        Err(e) => Err(JournalLoadError::DBError(e)),
    }
}

/// Undoing entries leaves the rest alone.
pub proof fn lemma_undone_to(s: JournalState, n: int)
    requires
        n >= 0,
    ensures
        s.journal.len() >= n ==> s.undone_to(n).journal == s.journal.subrange(0, n),
        s.undone_to(n).logs == s.logs,
        s.undone_to(n).depth == s.depth,
        s.undone_to(n).transaction_id == s.transaction_id,
        s.undone_to(n).spec == s.spec,
        s.undone_to(n).warm == s.warm,
    decreases s.journal.len(),
{
    if s.journal.len() > n {
        lemma_undone_to(s.undone(), n);
        assert(s.journal.drop_last().subrange(0, n) =~= s.journal.subrange(0, n));
    } else if s.journal.len() == n {
        assert(s.journal.subrange(0, n) =~= s.journal);
    }
}

/// A delegation to the zero address, which stands for no code.
pub open spec fn erases(c: CodeState) -> bool {
    c is Eip7702 && code::delegate_of(c->Eip7702_0) == (Address { hi: 0, mid: 0, lo: 0 })
}

/// A creation changes no balance, and its entries can be undone.
pub proof fn lemma_created(s: JournalState, target: Address, spec_id: SpecId)
    requires
        s.state.contains_key(target),
    ensures
        s.created(target, spec_id).revertible_to(s.journal.len() as int),
        s.created(target, spec_id).state.dom() =~= s.state.dom(),
        s.created(target, spec_id).state[target].info.balance == s.state[target].info.balance,
{
    let made = s.created(target, spec_id);
    let n = s.journal.len() as int;
    reveal_with_fuel(JournalState::revertible_to, 3);
    assert(made.journal.last().grounded(made.state));
    if made.journal.len() == n + 2 {
        assert(made.undone().journal.last().grounded(made.undone().state));
    }
}

/// The code of an account that is there is loaded, if it is to be and is not yet: the last step
/// of a load that was cold or not.
pub open spec fn code_loaded<DB: Database>(
    s: JournalState,
    address: Address,
    load_code: bool,
    cold: bool,
    pre: &DB,
    r: Result<bool, JournalLoadError<DB::Error>>,
    end: JournalState,
    post: &DB,
) -> bool {
    let info = s.state[address].info;
    if !load_code || info.code is Some {
        r == Ok::<bool, JournalLoadError<DB::Error>>(cold) && end == s && *post == *pre
    } else if info.code_hash == keccak::spec_keccak_empty() {
        r == Ok::<bool, JournalLoadError<DB::Error>>(cold) && end == s.coded(
            address,
            CodeState::from_raw(Seq::empty()),
        ) && *post == *pre
    } else {
        exists|reply: Result<CodeState, DB::Error>| #[trigger]
            DB::replies(pre, DbCall::CodeByHash(info.code_hash), DbReply::CodeByHash(reply), post)
                && match reply {
                Ok(code) => r == Ok::<bool, JournalLoadError<DB::Error>>(cold) && end == s.coded(
                    address,
                    code,
                ),
                Err(e) => r == Err::<bool, _>(JournalLoadError::DBError(e)) && end == s,
            }
    }
}

/// An account is loaded: `r` tells whether it was cold. A cold account is not loaded if it is
/// to be skipped; one that is not there comes from the database.
pub open spec fn account_loaded<DB: Database>(
    s: JournalState,
    address: Address,
    load_code: bool,
    skip_cold_load: bool,
    pre: &DB,
    r: Result<bool, JournalLoadError<DB::Error>>,
    end: JournalState,
    post: &DB,
) -> bool {
    let cold = s.cold_load(address);
    if cold && skip_cold_load {
        r == Err::<bool, _>(JournalLoadError::<DB::Error>::ColdLoadSkipped) && end == s && *post
            == *pre
    } else if s.state.contains_key(address) {
        code_loaded(
            s.opened(address).noted(address, cold),
            address,
            load_code,
            cold,
            pre,
            r,
            end,
            post,
        )
    } else {
        exists|reply: Result<Option<InfoState>, DB::Error>, mid: DB| #[trigger]
            DB::replies(pre, DbCall::Basic(address), DbReply::Basic(reply), &mid) && match reply {
                Ok(info) => code_loaded(
                    s.arrived(address, info).noted(address, cold),
                    address,
                    load_code,
                    cold,
                    &mid,
                    r,
                    end,
                    post,
                ),
                Err(e) => r == Err::<bool, _>(JournalLoadError::DBError(e)) && end == s && *post
                    == mid,
            }
    }
}

/// An account is loaded and lent together with the journal: `account` and `journal` are what is
/// lent, and `account_back` and `journal_back` what comes back.
pub open spec fn account_lent<DB: Database>(
    s: JournalState,
    address: Address,
    load_code: bool,
    skip_cold_load: bool,
    pre: &DB,
    cold: bool,
    account: AccountState,
    journal: Seq<JournalEntry>,
    account_back: AccountState,
    journal_back: Seq<JournalEntry>,
    end: JournalState,
    post: &DB,
) -> bool {
    exists|mid: JournalState| #[trigger]
        account_loaded(s, address, load_code, skip_cold_load, pre, Ok(cold), mid, post)
            && mid.state.contains_key(address) && account == mid.state[address] && journal
            == mid.journal && end == mid.holding(address, account_back, journal_back)
}

/// A slot of an account that is there is loaded: `r` tells whether it was cold. A slot that is
/// not there comes from the database, unless the account was created and so has none.
pub open spec fn slot_loaded<DB: Database>(
    s: JournalState,
    address: Address,
    key: U256,
    skip_cold_load: bool,
    pre: &DB,
    r: Result<bool, JournalLoadError<DB::Error>>,
    end: JournalState,
    post: &DB,
) -> bool {
    let acc = s.state[address];
    let cold = if acc.storage.contains_key(key) {
        acc.storage[key].cold_in(s.transaction_id)
    } else {
        !s.warm.slot_warm(address, key)
    };
    if cold && skip_cold_load {
        r == Err::<bool, _>(JournalLoadError::<DB::Error>::ColdLoadSkipped) && end == s && *post
            == *pre
    } else if acc.storage.contains_key(key) {
        r == Ok::<bool, JournalLoadError<DB::Error>>(cold) && end == s.slot_noted(
            address,
            key,
            cold,
        ).with_slot(address, key, acc.storage[key].warmed(s.transaction_id)) && *post == *pre
    } else if acc.status.created {
        r == Ok::<bool, JournalLoadError<DB::Error>>(cold) && end == s.slot_noted(
            address,
            key,
            cold,
        ).with_slot(address, key, EvmStorageSlot::loaded(u256::word(0), s.transaction_id)) && *post
            == *pre
    } else {
        exists|reply: Result<U256, DB::Error>| #[trigger]
            DB::replies(pre, DbCall::Storage(address, key), DbReply::Storage(reply), post)
                && match reply {
                Ok(value) => r == Ok::<bool, JournalLoadError<DB::Error>>(cold) && end
                    == s.slot_noted(address, key, cold).with_slot(
                    address,
                    key,
                    EvmStorageSlot::loaded(value, s.transaction_id),
                ),
                Err(e) => r == Err::<bool, _>(JournalLoadError::DBError(e)) && end == s,
            }
    }
}

/// A slot is read.
pub open spec fn slot_read<DB: Database>(
    s: JournalState,
    address: Address,
    key: U256,
    skip_cold_load: bool,
    pre: &DB,
    r: Result<StateLoad<U256>, JournalLoadError<DB::Error>>,
    end: JournalState,
    post: &DB,
) -> bool {
    slot_loaded(s, address, key, skip_cold_load, pre, coldness(r), end, post) && (r is Ok
        ==> r->Ok_0.data == end.present(address, key))
}

/// A slot is written.
pub open spec fn slot_written<DB: Database>(
    s: JournalState,
    address: Address,
    key: U256,
    new: U256,
    skip_cold_load: bool,
    pre: &DB,
    r: Result<StateLoad<SStoreResult>, JournalLoadError<DB::Error>>,
    end: JournalState,
    post: &DB,
) -> bool {
    exists|mid: JournalState| #[trigger]
        slot_loaded(s, address, key, skip_cold_load, pre, coldness(r), mid, post) && match r {
            Ok(load) => end == mid.stored(address, key, new) && load.data == mid.store_result(
                address,
                key,
                new,
            ),
            Err(_) => end == mid,
        }
}

/// An access to a slot that is warm changes nothing.
pub proof fn lemma_warm_slot(s: JournalState, address: Address, key: U256)
    requires
        s.state.contains_key(address),
        s.state[address].storage.contains_key(key),
        !s.state[address].storage[key].cold_in(s.transaction_id),
    ensures
        s.with_slot(address, key, s.state[address].storage[key].warmed(s.transaction_id)) == s,
{
    let acc = s.state[address];
    assert(acc.with_slot(key, acc.storage[key]).storage =~= acc.storage);
    assert(s.state.insert(address, acc) =~= s.state);
}

/// A load keeps the accounts that were there, and a load that succeeds has the account.
pub proof fn lemma_loaded<DB: Database>(
    s: JournalState,
    address: Address,
    load_code: bool,
    skip_cold_load: bool,
    pre: &DB,
    r: Result<bool, JournalLoadError<DB::Error>>,
    end: JournalState,
    post: &DB,
)
    requires
        account_loaded(s, address, load_code, skip_cold_load, pre, r, end, post),
    ensures
        s.state.dom().subset_of(end.state.dom()),
        r is Ok ==> end.state.contains_key(address),
        end.spec == s.spec,
        end.transaction_id == s.transaction_id,
        end.warm == s.warm,
        end.depth == s.depth,
        end.logs == s.logs,
        end.transient == s.transient,
        !skip_cold_load && r is Err ==> r->Err_0 is DBError,
{
}

/// A balance goes up on an account that is loaded for it.
pub open spec fn balance_incremented<DB: Database>(
    s: JournalState,
    address: Address,
    balance: U256,
    pre: &DB,
    r: Result<(), DB::Error>,
    end: JournalState,
    post: &DB,
) -> bool {
    match r {
        Ok(_) => exists|cold: bool, mid: JournalState| #[trigger]
            account_loaded(s, address, false, false, pre, Ok(cold), mid, post) && end
                == mid.balance_raised(address, balance),
        Err(e) => account_loaded(
            s,
            address,
            false,
            false,
            pre,
            Err(JournalLoadError::DBError(e)),
            end,
            post,
        ),
    }
}

/// Two accounts are loaded, one after the other; `r` is the error of the database, or `None`.
pub open spec fn both_loaded<DB: Database>(
    s: JournalState,
    from: Address,
    to: Address,
    pre: &DB,
    r: Option<DB::Error>,
    end: JournalState,
    post: &DB,
) -> bool {
    exists|first: Result<bool, JournalLoadError<DB::Error>>, mid: JournalState, between: DB|
        #[trigger]
        account_loaded(s, from, false, false, pre, first, mid, &between) && match first {
            Err(e) => r is Some && e == JournalLoadError::DBError(r->0) && end == mid && *post
                == between,
            Ok(_) => exists|second: Result<bool, JournalLoadError<DB::Error>>| #[trigger]
                account_loaded(mid, to, false, false, &between, second, end, post)
                    && match second {
                    Err(e) => r is Some && e == JournalLoadError::DBError(r->0),
                    Ok(_) => r is None,
                },
        }
}

/// A transfer between two accounts that are loaded for it.
pub open spec fn transfer_made<DB: Database>(
    s: JournalState,
    from: Address,
    to: Address,
    balance: U256,
    pre: &DB,
    r: Result<Option<TransferError>, DB::Error>,
    end: JournalState,
    post: &DB,
) -> bool {
    match r {
        Ok(error) => exists|mid: JournalState| #[trigger]
            both_loaded(s, from, to, pre, None::<DB::Error>, mid, post) && (end, error)
                == mid.transferred(from, to, balance),
        Err(e) => both_loaded(s, from, to, pre, Some(e), end, post),
    }
}

/// An account is destroyed, after its target is loaded.
pub open spec fn destruction_made<DB: Database>(
    s: JournalState,
    address: Address,
    target: Address,
    pre: &DB,
    r: Result<StateLoad<SelfDestructResult>, DB::Error>,
    end: JournalState,
    post: &DB,
) -> bool {
    exists|mid: JournalState| #[trigger]
        account_loaded(s, target, false, false, pre, coldness(as_load(r)), mid, post) && match r {
            Ok(load) => end == mid.destroyed(address, target) && load == mid.destruction(
                address,
                target,
                load.is_cold,
            ),
            Err(_) => end == mid,
        }
}

/// The account that a loaded account delegates to.
pub open spec fn delegate(account: AccountState) -> Option<Address> {
    match account.info.code {
        Some(CodeState::Eip7702(raw)) => Some(code::delegate_of(raw)),
        _ => None,
    }
}

/// An account is loaded for a call: with its code from EIP-7702 on, and with the account that
/// it delegates to.
pub open spec fn delegated_loaded<DB: Database>(
    s: JournalState,
    address: Address,
    pre: &DB,
    r: Result<StateLoad<AccountLoad>, DB::Error>,
    end: JournalState,
    post: &DB,
) -> bool {
    let load_code = s.spec.enabled(SpecId::PRAGUE);
    exists|first: Result<bool, JournalLoadError<DB::Error>>, mid: JournalState, between: DB|
        #[trigger]
        account_loaded(s, address, load_code, false, pre, first, mid, &between) && match first {
            Err(e) => r is Err && e == JournalLoadError::DBError(r->Err_0) && end == mid && *post
                == between,
            Ok(cold) => {
                let is_empty = mid.state[address].clear_aware_empty(s.spec);
                match delegate(mid.state[address]) {
                    None => r == Ok::<_, DB::Error>(
                        StateLoad {
                            data: AccountLoad { is_delegate_account_cold: None, is_empty },
                            is_cold: cold,
                        },
                    ) && end == mid && *post == between,
                    Some(other) => exists|second: Result<bool, JournalLoadError<DB::Error>>|
                        #[trigger]
                        account_loaded(mid, other, true, false, &between, second, end, post)
                            && match second {
                            Err(e) => r is Err && e == JournalLoadError::DBError(r->Err_0),
                            Ok(other_cold) => r == Ok::<_, DB::Error>(
                                StateLoad {
                                    data: AccountLoad {
                                        is_delegate_account_cold: Some(other_cold),
                                        is_empty,
                                    },
                                    is_cold: cold,
                                },
                            ),
                        },
                }
            },
        }
}

} // verus!
