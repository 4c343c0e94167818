//! Gas accounting.

pub mod calc;
pub mod constants;

pub use calc::{
    copy_cost, copy_cost_verylow, dyn_selfdestruct_cost, exp_cost, keccak256_cost, log_cost,
    memory_gas, sstore_entry, sstore_spec, sstore_status, static_selfdestruct_cost, SStoreEntry,
    SStoreSpec, SStoreStatus, SSTORE_STATUS_COUNT,
};
pub use constants::{
    BASE, BLOCKHASH, CALL_STIPEND, COLD_ACCOUNT_ACCESS_COST, COLD_ACCOUNT_ACCESS_COST_ADDITIONAL,
    COLD_SLOAD_COST, COLD_SLOAD_COST_ADDITIONAL, COPY, EXP, HIGH, ISTANBUL_SLOAD_GAS, JUMPDEST,
    KECCAK256, KECCAK256WORD, LOG, LOGDATA, LOGTOPIC, LOW, MEMORY, MID, REFUND_SSTORE_CLEARS,
    SELFDESTRUCT_REFUND, SSTORE_RESET, SSTORE_SET, VERYLOW, WARM_SSTORE_RESET,
    WARM_STORAGE_READ_COST, ZERO,
};

use crate::interpreter::shared_memory;
use vstd::prelude::*;

verus! {

/// What a [`Gas`] value records.
#[verifier::ext_equal]
pub struct GasState {
    /// The gas that the frame started with.
    pub limit: u64,
    /// The gas that is left, or `u64::MAX` while the counter is poisoned.
    pub remaining: u64,
    /// The refund so far; it may be negative in between.
    pub refunded: i64,
    /// The number of 32-byte words of memory that are paid for.
    pub words: nat,
}

impl GasState {
    /// The same record with another counter.
    pub open spec fn with_remaining(self, remaining: u64) -> GasState {
        GasState { remaining, ..self }
    }

    /// The gas spent so far.
    pub open spec fn spent(self) -> int {
        self.limit - self.remaining
    }
}

/// A signed refund read as an unsigned number.
pub open spec fn refund_as_u64(refunded: i64) -> int {
    if refunded < 0 {
        refunded + 0x1_0000_0000_0000_0000
    } else {
        refunded as int
    }
}

/// An unsigned number read as a signed refund.
pub open spec fn refund_from_u64(n: int) -> int {
    if n <= i64::MAX {
        n
    } else {
        n - 0x1_0000_0000_0000_0000
    }
}

/// The state of gas during execution.
#[derive(Clone, Copy, Debug, PartialEq, Eq, Structural, Hash)]
pub struct Gas {
    limit: u64,
    remaining: u64,
    refunded: i64,
    memory: MemoryGas,
}

impl View for Gas {
    type V = GasState;

    closed spec fn view(&self) -> GasState {
        GasState {
            limit: self.limit,
            remaining: self.remaining,
            refunded: self.refunded,
            words: self.memory@,
        }
    }
}

impl Default for Gas {
    fn default() -> (r: Gas)
        ensures
            r@ == (GasState { limit: 0, remaining: 0, refunded: 0, words: 0 }),
    {
        Gas { limit: 0, remaining: 0, refunded: 0, memory: MemoryGas::new() }
    }
}

impl Gas {
    /// A gas record with the given limit. The limit is capped at `i64::MAX`, because
    /// [`Gas::record_cost_unsafe`] decides out-of-gas from the sign bit of the difference and
    /// `u64::MAX` is reserved as the poison marker.
    pub fn new(limit: u64) -> (r: Gas)
        ensures
            ({
                let l: u64 = if limit > i64::MAX { i64::MAX as u64 } else { limit };
                r@ == (GasState { limit: l, remaining: l, refunded: 0, words: 0 })
            }),
    {
        let limit: u64 = if limit > i64::MAX as u64 {
            i64::MAX as u64
        } else {
            limit
        };
        Gas { limit, remaining: limit, refunded: 0, memory: MemoryGas::new() }
    }

    /// A gas record with the given limit and nothing left of it.
    pub fn new_spent(limit: u64) -> (r: Gas)
        ensures
            r@ == (GasState { limit, remaining: 0, refunded: 0, words: 0 }),
    {
        Gas { limit, remaining: 0, refunded: 0, memory: MemoryGas::new() }
    }

    /// The gas limit.
    pub fn limit(&self) -> (r: u64)
        ensures
            r == self@.limit,
    {
        self.limit
    }

    /// The memory gas.
    pub fn memory(&self) -> (r: &MemoryGas)
        ensures
            r@ == self@.words,
    {
        &self.memory
    }

    /// The memory gas, for writing.
    pub fn memory_mut(&mut self) -> (r: &mut MemoryGas)
        ensures
            r@ == old(self)@.words,
            final(self)@ == (GasState { words: final(r)@, ..old(self)@ }),
    {
        &mut self.memory
    }

    /// The refund so far.
    pub fn refunded(&self) -> (r: i64)
        ensures
            r == self@.refunded,
    {
        self.refunded
    }

    /// The gas spent.
    pub fn spent(&self) -> (r: u64)
        requires
            self@.remaining <= self@.limit,
        ensures
            r == self@.spent(),
    {
        self.limit - self.remaining
    }

    /// The gas spent less the refund; zero where the refund, read as an unsigned number, is
    /// larger.
    pub fn used(&self) -> (r: u64)
        requires
            self@.remaining <= self@.limit,
        ensures
            r == (if self@.spent() >= refund_as_u64(self@.refunded) {
                self@.spent() - refund_as_u64(self@.refunded)
            } else {
                0
            }),
    {
        proof {
            lemma_refund_cast(self.refunded);
        }
        self.spent().saturating_sub(self.refunded() as u64)
    }

    /// The gas spent less the refund. See [`Gas::used`].
    pub fn spent_sub_refunded(&self) -> (r: u64)
        requires
            self@.remaining <= self@.limit,
        ensures
            r == (if self@.spent() >= refund_as_u64(self@.refunded) {
                self@.spent() - refund_as_u64(self@.refunded)
            } else {
                0
            }),
    {
        proof {
            lemma_refund_cast(self.refunded);
        }
        self.spent().saturating_sub(self.refunded as u64)
    }

    /// The gas left.
    pub fn remaining(&self) -> (r: u64)
        ensures
            r == self@.remaining,
    {
        self.remaining
    }

    /// The gas left less a 64th of it.
    pub fn remaining_63_of_64_parts(&self) -> (r: u64)
        ensures
            r == self@.remaining - self@.remaining / 64,
    {
        self.remaining - self.remaining / 64
    }

    /// Gives gas back.
    pub fn erase_cost(&mut self, returned: u64)
        requires
            old(self)@.remaining + returned <= u64::MAX,
        ensures
            final(self)@ == old(self)@.with_remaining((old(self)@.remaining + returned) as u64),
    {
        self.remaining = self.remaining + returned;
    }

    /// Spends all the gas that is left.
    pub fn spend_all(&mut self)
        ensures
            final(self)@ == old(self)@.with_remaining(0),
    {
        self.remaining = 0;
    }

    /// Records a refund, which may be negative. The sum wraps around at the bounds of `i64`,
    /// which no chain of refunds comes near.
    pub fn record_refund(&mut self, refund: i64)
        ensures
            final(self)@ == (GasState {
                refunded: old(self)@.refunded.wrapping_add(refund),
                ..old(self)@
            }),
    {
        self.refunded = self.refunded.wrapping_add(refund);
    }

    /// Caps the refund at the Nth part of the gas spent: a fifth from London on (EIP-3529), a
    /// half before. The refund is read as an unsigned number.
    pub fn set_final_refund(&mut self, is_london: bool)
        requires
            old(self)@.remaining <= old(self)@.limit,
        ensures
            ({
                let refund = refund_as_u64(old(self)@.refunded);
                let cap = old(self)@.spent() / (if is_london {
                    5int
                } else {
                    2int
                });
                final(self)@ == (GasState {
                    refunded: refund_from_u64(
                        if refund < cap {
                            refund
                        } else {
                            cap
                        },
                    ) as i64,
                    ..old(self)@
                })
            }),
    {
        let max_refund_quotient: u64 = if is_london {
            5
        } else {
            2
        };
        let refund: u64 = self.refunded() as u64;
        let cap: u64 = self.spent() / max_refund_quotient;
        let capped: u64 = if refund < cap {
            refund
        } else {
            cap
        };
        proof {
            lemma_refund_cast(self.refunded);
            lemma_refund_cast_back(capped);
        }
        self.refunded = capped as i64;
    }

    /// Sets the refund.
    pub fn set_refund(&mut self, refund: i64)
        ensures
            final(self)@ == (GasState { refunded: refund, ..old(self)@ }),
    {
        self.refunded = refund;
    }

    /// Sets the gas spent; more than the limit counts as the limit.
    pub fn set_spent(&mut self, spent: u64)
        ensures
            final(self)@ == old(self)@.with_remaining(
                if spent <= old(self)@.limit {
                    (old(self)@.limit - spent) as u64
                } else {
                    0
                },
            ),
    {
        self.remaining = self.limit.saturating_sub(spent);
    }

    /// Charges `cost`. Returns `false`, and charges nothing, if less than that is left.
    #[must_use]
    pub fn record_cost(&mut self, cost: u64) -> (r: bool)
        ensures
            r == (cost <= old(self)@.remaining),
            r ==> final(self)@ == old(self)@.with_remaining((old(self)@.remaining - cost) as u64),
            !r ==> final(self)@ == old(self)@,
    {
        if let Some(new_remaining) = self.remaining.checked_sub(cost) {
            self.remaining = new_remaining;
            return true;
        }
        false
    }

    /// Charges `cost`, wrapping around if less than that is left. Returns `true` if less was
    /// left or the counter is poisoned.
    ///
    /// The test is on the sign bit of the wrapped difference, which is what lets a poisoned
    /// counter trip it for every cost, zero included.
    #[must_use]
    pub fn record_cost_unsafe(&mut self, cost: u64) -> (r: bool)
        requires
            old(self)@.remaining <= i64::MAX || old(self)@.remaining == u64::MAX,
            cost <= i64::MAX,
        ensures
            r == (old(self)@.remaining < cost || old(self)@.remaining == u64::MAX),
            final(self)@ == old(self)@.with_remaining(old(self)@.remaining.wrapping_sub(cost)),
    {
        let new_remaining: u64 = self.remaining.wrapping_sub(cost);
        proof {
            lemma_sign_bit(new_remaining);
        }
        self.remaining = new_remaining;
        (new_remaining as i64) < 0
    }

    /// Poisons the counter, so that the next [`Gas::record_cost_unsafe`] reports "stop"
    /// whatever the cost, and returns the value to [`Gas::unpoison`] with.
    pub fn poison(&mut self) -> (r: u64)
        ensures
            r == old(self)@.remaining,
            final(self)@ == old(self)@.with_remaining(u64::MAX),
    {
        let stash: u64 = self.remaining;
        self.remaining = u64::MAX;
        stash
    }

    /// Overwrites the counter.
    pub fn set_remaining(&mut self, remaining: u64)
        ensures
            final(self)@ == old(self)@.with_remaining(remaining),
    {
        self.remaining = remaining;
    }

    /// Restores the value that [`Gas::poison`] returned.
    pub fn unpoison(&mut self, stash: u64)
        ensures
            final(self)@ == old(self)@.with_remaining(stash),
    {
        self.remaining = stash;
    }
}

/// A counter that is poisoned and then restored is what it was.
pub proof fn a_poisoned_counter_is_restored(gas: GasState)
    ensures
        gas.with_remaining(u64::MAX).with_remaining(gas.remaining) == gas,
{
}

proof fn lemma_refund_cast(refunded: i64)
    ensures
        refunded as u64 == refund_as_u64(refunded),
{
    if refunded < 0 {
        assert(refunded < 0 ==> refunded as u64 == refunded + 0x1_0000_0000_0000_0000) by (bit_vector);
    }
}

proof fn lemma_refund_cast_back(n: u64)
    ensures
        n as i64 == refund_from_u64(n as int),
{
    if n > i64::MAX {
        assert(n > 0x7fff_ffff_ffff_ffff ==> n as i64 == n - 0x1_0000_0000_0000_0000) by (bit_vector);
    }
}

/// The sign bit of a counter: set exactly above `i64::MAX`.
pub proof fn lemma_sign_bit(n: u64)
    ensures
        ((n as i64) < 0) == (n > i64::MAX),
{
    lemma_refund_cast_back(n);
}

/// The result of trying to extend memory.
#[derive(Debug)]
pub enum MemoryExtensionResult {
    /// Memory was extended.
    Extended,
    /// Memory kept its size.
    Same,
    /// There was not enough gas to extend memory.
    OutOfGas,
}

/// The number of words of memory that are paid for.
///
/// It is kept as the exclusive bound on the offset of a word access that needs no expansion:
/// `words * 32 - 31`, and `0` where there is no memory.
#[derive(Clone, Copy, Debug, PartialEq, Eq, Structural, Hash)]
pub struct MemoryGas {
    limit: usize,
}

impl View for MemoryGas {
    type V = nat;

    closed spec fn view(&self) -> nat {
        ((self.limit + 31) / 32) as nat
    }
}

/// The bound kept for a number of words.
pub open spec fn limit_of_words(words: nat) -> int {
    if words == 0 {
        0
    } else {
        words * 32 - 31
    }
}

/// What recording a length leaves: the number of words that are paid for, and the cost of the
/// expansion, if there is one. More than `2^32 - 1` words cannot be paid for.
pub open spec fn recorded(words: nat, new_num: int) -> (nat, Option<int>) {
    if new_num <= words {
        (words, None)
    } else if new_num > u32::MAX {
        (words, Some(u64::MAX as int))
    } else {
        (new_num as nat, Some(calc::memory_cost(new_num) - calc::memory_cost(words as int)))
    }
}

/// What recording one length after the other leaves: the number of words, and what the
/// expansions cost together.
pub open spec fn all_recorded(words: nat, lengths: Seq<int>) -> (nat, int)
    decreases lengths.len(),
{
    if lengths.len() == 0 {
        (words, 0)
    } else {
        let (before, cost) = all_recorded(words, lengths.drop_last());
        let (after, last) = recorded(before, lengths.last());
        (after, match last {
            Some(c) => cost + c,
            None => cost,
        })
    }
}

/// The largest of some lengths and a number of words.
pub open spec fn largest(words: nat, lengths: Seq<int>) -> int
    decreases lengths.len(),
{
    if lengths.len() == 0 {
        words as int
    } else {
        let before = largest(words, lengths.drop_last());
        if lengths.last() > before {
            lengths.last()
        } else {
            before
        }
    }
}

/// The costs along any sequence of growths add up to the cost of the largest memory, less that
/// of the memory that was there: it does not matter by which steps a memory grows.
pub proof fn growth_costs_add_up(words: nat, lengths: Seq<int>)
    requires
        words <= u32::MAX,
        forall|i: int| 0 <= i < lengths.len() ==> #[trigger] lengths[i] <= u32::MAX,
    ensures
        all_recorded(words, lengths).0 == largest(words, lengths),
        all_recorded(words, lengths).0 <= u32::MAX,
        all_recorded(words, lengths).1 == calc::memory_cost(largest(words, lengths))
            - calc::memory_cost(words as int),
    decreases lengths.len(),
{
    if lengths.len() > 0 {
        let shorter = lengths.drop_last();
        assert forall|i: int| 0 <= i < shorter.len() implies #[trigger] shorter[i]
            <= u32::MAX by {
            assert(shorter[i] == lengths[i]);
        }
        growth_costs_add_up(words, shorter);
        assert(lengths.last() == lengths[lengths.len() - 1]);
    }
}

/// The stored bound gives back the number of words that was recorded.
pub proof fn words_num_inverts_the_stored_limit(words: nat)
    requires
        words <= u32::MAX,
    ensures
        recorded(0, words as int).0 == words,
        (limit_of_words(words) + 31) / 32 == words,
{
}

/// The stored bound decides a word access as the word count would: an offset is below the
/// bound exactly where the words that reach 32 bytes past it, with the sum saturating, are
/// paid for already. This holds of every offset, for every memory that leaves a word of the
/// address space; where the memory ends with the address space, the saturated sum no longer
/// tells the last word from one that does not fit.
pub proof fn word_limit_is_exact(words: nat, offset: usize)
    requires
        words * 32 + 32 <= usize::MAX,
    ensures
        (offset < limit_of_words(words)) <==> shared_memory::spec_num_words(
            if offset + 32 <= usize::MAX {
                offset + 32
            } else {
                usize::MAX as int
            },
        ) <= words,
{
}

impl MemoryGas {
    #[verifier::type_invariant]
    spec fn shaped(self) -> bool {
        &&& self.limit == limit_of_words(((self.limit + 31) / 32) as nat)
        &&& (self.limit + 31) / 32 <= u32::MAX
        &&& self.limit + 31 <= usize::MAX
    }

    /// No memory.
    pub fn new() -> (r: MemoryGas)
        ensures
            r@ == 0,
    {
        MemoryGas { limit: 0 }
    }

    /// The number of words that a bound stands for, where it stands for one: it is `0` or
    /// `words * 32 - 31`, with fewer than `2^32` words.
    pub fn try_from_limit(limit: usize) -> (r: Result<MemoryGas, MemoryGasError>)
        ensures
            limit != 0 && limit % 32 != 1 ==> r == Err::<MemoryGas, _>(MemoryGasError::Residue),
            (limit == 0 || limit % 32 == 1) && (limit + 31) / 32 > u32::MAX ==> r == Err::<
                MemoryGas,
                _,
            >(MemoryGasError::WordCount),
            (limit == 0 || limit % 32 == 1) && (limit + 31) / 32 <= u32::MAX && limit + 31
                <= usize::MAX ==> r is Ok && limit_of_words(r->Ok_0@) == limit,
            limit + 31 > usize::MAX ==> r is Err,
    {
        if limit != 0 && limit % 32 != 1 {
            return Err(MemoryGasError::Residue);
        }
        let words: usize = match limit.checked_add(31) {
            Some(n) => n / 32,
            None => usize::MAX,
        };
        if words as u64 > u32::MAX as u64 || limit > usize::MAX - 31 {
            return Err(MemoryGasError::WordCount);
        }
        Ok(MemoryGas { limit })
    }

    /// The number of words that are paid for.
    pub fn words_num(&self) -> (r: usize)
        ensures
            r == self@,
            r <= u32::MAX,
    {
        proof {
            use_type_invariant(self);
        }
        (self.limit + 31) / 32
    }

    /// The exclusive bound on the offset of a 32-byte access that needs no expansion.
    pub fn word_limit(&self) -> (r: usize)
        ensures
            r == limit_of_words(self@),
    {
        proof {
            use_type_invariant(self);
        }
        self.limit
    }

    /// Records a new length in words, and returns what the expansion costs: `None` if there is
    /// none, and `u64::MAX`, with nothing recorded, for `2^32` words and more.
    pub fn record_new_len(&mut self, new_num: usize) -> (r: Option<u64>)
        requires
            new_num <= u32::MAX ==> new_num * 32 <= usize::MAX,
        ensures
            final(self)@ == recorded(old(self)@, new_num as int).0,
            match recorded(old(self)@, new_num as int).1 {
                Some(cost) => r is Some && r->0 == cost,
                None => r is None,
            },
    {
        let words_num: usize = self.words_num();
        if new_num <= words_num {
            return None;
        }
        if new_num as u64 > u32::MAX as u64 {
            return Some(u64::MAX);
        }
        self.limit = new_num * 32 - 31;
        let old_cost: u64 = memory_gas(words_num);
        let new_cost: u64 = memory_gas(new_num);
        proof {
            calc::lemma_memory_cost_monotonic(words_num as int, new_num as int);
        }
        Some(new_cost - old_cost)
    }
}

/// Why a stored bound stands for no number of words.
#[derive(Clone, Copy, Debug, PartialEq, Eq, Structural)]
pub enum MemoryGasError {
    /// The bound is neither `0` nor `words * 32 - 31`.
    Residue,
    /// The bound stands for `2^32` words or more.
    WordCount,
}

impl MemoryGasError {
    /// The error in words.
    pub fn message(&self) -> (r: &'static str)
        ensures
            r@ == (match *self {
                MemoryGasError::Residue => "MemoryGas::limit must be 0 or words_num * 32 - 31"@,
                MemoryGasError::WordCount =>
                    "MemoryGas::limit implies a word count at or above 2^32"@,
            }),
    {
        match self {
            MemoryGasError::Residue => "MemoryGas::limit must be 0 or words_num * 32 - 31",
            MemoryGasError::WordCount => "MemoryGas::limit implies a word count at or above 2^32",
        }
    }
}

impl Default for MemoryGas {
    fn default() -> (r: MemoryGas)
        ensures
            r@ == 0,
    {
        MemoryGas::new()
    }
}

} // verus!
