//! What operations cost.

use crate::gas::constants::{
    COLD_ACCOUNT_ACCESS_COST, COLD_SLOAD_COST, COPY, EXP, ISTANBUL_SLOAD_GAS, KECCAK256,
    KECCAK256WORD, LOG, LOGDATA, LOGTOPIC, MEMORY, REFUND_SSTORE_CLEARS, SSTORE_RESET, SSTORE_SET,
    VERYLOW, WARM_SSTORE_RESET, WARM_STORAGE_READ_COST,
};
use crate::host::{SStoreResult, SelfDestructResult, StateLoad};
use crate::interpreter::shared_memory;
use crate::interpreter::shared_memory::num_words;
use crate::primitives::{SpecId, U256};
use vstd::arithmetic::div_mod::*;
use vstd::arithmetic::mul::*;
use vstd::arithmetic::power2::*;
use vstd::prelude::*;

verus! {

/// The gas of `words` words of memory: a linear and a quadratic part.
pub open spec fn memory_cost(words: int) -> int {
    3 * words + words * words / 512
}

/// More memory costs more.
pub proof fn lemma_memory_cost_monotonic(a: int, b: int)
    requires
        0 <= a <= b,
    ensures
        0 <= memory_cost(a) <= memory_cost(b),
{
    assert(0 <= a * a <= b * b) by (nonlinear_arith)
        requires
            0 <= a <= b,
    ;
}

/// The product of two numbers, or `u64::MAX` if it is larger.
fn saturating_mul(a: u64, b: u64) -> (r: u64)
    ensures
        r == (if a * b <= u64::MAX {
            a * b
        } else {
            u64::MAX as int
        }),
{
    match a.checked_mul(b) {
        Some(product) => product,
        None => u64::MAX,
    }
}

/// The gas of `num_words` words of memory, saturating.
pub fn memory_gas(num_words: usize) -> (r: u64)
    ensures
        num_words <= u32::MAX ==> r == memory_cost(num_words as int),
        r == ({
            let linear = if 3 * num_words <= u64::MAX { 3 * num_words } else { u64::MAX as int };
            let square = if num_words * num_words <= u64::MAX {
                num_words * num_words
            } else {
                u64::MAX as int
            };
            if linear + square / 512 <= u64::MAX {
                linear + square / 512
            } else {
                u64::MAX as int
            }
        }),
{
    let n: u64 = num_words as u64;
    let linear: u64 = saturating_mul(MEMORY, n);
    let square: u64 = saturating_mul(n, n);
    proof {
        assert(num_words <= u32::MAX ==> num_words * num_words <= 0xffff_ffff * 0xffff_ffff)
            by (nonlinear_arith);
    }
    linear.saturating_add(square / 512)
}

/// The number of bytes that it takes to write `n`.
pub open spec fn byte_len(n: int) -> nat
    decreases n,
{
    if n <= 0 {
        0
    } else {
        1 + byte_len(n / 256)
    }
}

/// A number between two neighbouring powers of 256 has the length of the upper one.
pub proof fn lemma_byte_len(n: int, k: nat)
    requires
        k > 0,
        pow2((8 * (k - 1)) as nat) <= n < pow2(8 * k),
    ensures
        byte_len(n) == k,
    decreases k,
{
    lemma2_to64();
    if k == 1 {
        assert(byte_len(n / 256) == 0);
    } else {
        let j = (k - 1) as nat;
        lemma_pow2_adds((8 * (j - 1)) as nat, 8);
        lemma_pow2_adds(8 * j, 8);
        lemma_pow2_pos((8 * (j - 1)) as nat);
        lemma_pow2_pos(8 * j);
        lemma_byte_len(n / 256, j);
    }
}

/// The gas of one significant byte of an exponent.
pub open spec fn exp_byte_gas(spec_id: SpecId) -> int {
    if spec_id.enabled(SpecId::SPURIOUS_DRAGON) {
        50
    } else {
        10
    }
}

/// The gas of `EXP`: a base, and a price for each significant byte of the exponent, raised by
/// EIP-160.
pub open spec fn spec_exp_cost(spec_id: SpecId, power: U256) -> int {
    10 + exp_byte_gas(spec_id) * byte_len(power.val())
}

/// The gas of `EXP`.
pub fn exp_cost(spec_id: SpecId, power: U256) -> (r: Option<u64>)
    ensures
        r is Some,
        r->0 == spec_exp_cost(spec_id, power),
{
    if power.is_zero() {
        return Some(EXP);
    }
    let gas_byte: u64 = if spec_id.is_enabled_in(SpecId::SPURIOUS_DRAGON) {
        50
    } else {
        10
    };
    let zeros: usize = power.leading_zeros();
    proof {
        lemma_exponent_bits(power, zeros as nat);
    }
    let top_bit: u64 = (255 - zeros) as u64;
    let bytes: u64 = top_bit / 8 + 1;
    proof {
        let k = bytes as nat;
        if (8 * (k - 1)) < top_bit {
            lemma_pow2_strictly_increases((8 * (k - 1)) as nat, top_bit as nat);
        }
        if top_bit + 1 < 8 * k {
            lemma_pow2_strictly_increases((top_bit + 1) as nat, 8 * k);
        }
        lemma_byte_len(power.val(), k);
    }
    Some(EXP + gas_byte * bytes)
}

proof fn lemma_exponent_bits(power: U256, zeros: nat)
    requires
        power.val() != 0,
        zeros <= 256,
        power.val() < pow2((256 - zeros) as nat),
    ensures
        zeros < 256,
{
    if zeros == 256 {
        lemma2_to64();
    }
}

/// The gas of copying `len` bytes on top of a base price.
pub open spec fn spec_copy_cost(base: int, len: int) -> int {
    base + 3 * shared_memory::spec_num_words(len)
}

/// The gas of `len` bytes at `multiple` a word.
pub fn cost_per_word(len: usize, multiple: u64) -> (r: Option<u64>)
    ensures
        r == (if multiple * shared_memory::spec_num_words(len as int) <= u64::MAX {
            Some((multiple * shared_memory::spec_num_words(len as int)) as u64)
        } else {
            None
        }),
{
    multiple.checked_mul(num_words(len) as u64)
}

/// The gas of copying `len` bytes on top of a base price.
pub fn copy_cost(base_cost: u64, len: usize) -> (r: Option<u64>)
    ensures
        r == (if spec_copy_cost(base_cost as int, len as int) <= u64::MAX {
            Some(spec_copy_cost(base_cost as int, len as int) as u64)
        } else {
            None
        }),
{
    match cost_per_word(len, COPY) {
        Some(cost) => base_cost.checked_add(cost),
        None => None,
    }
}

/// The gas of an instruction that copies `len` bytes to memory.
pub fn copy_cost_verylow(len: usize) -> (r: Option<u64>)
    ensures
        r is Some,
        r->0 == spec_copy_cost(3, len as int),
{
    copy_cost(VERYLOW, len)
}

/// The gas of `KECCAK256` over `len` bytes.
pub open spec fn spec_keccak256_cost(len: int) -> int {
    30 + 6 * shared_memory::spec_num_words(len)
}

/// The gas of `KECCAK256` over `len` bytes.
pub fn keccak256_cost(len: usize) -> (r: Option<u64>)
    ensures
        r is Some,
        r->0 == spec_keccak256_cost(len as int),
{
    match cost_per_word(len, KECCAK256WORD) {
        Some(cost) => KECCAK256.checked_add(cost),
        None => None,
    }
}

/// The gas of a log record with `n` topics and `len` bytes of data.
pub open spec fn spec_log_cost(n: int, len: int) -> int {
    375 + 8 * len + 375 * n
}

/// The gas of a log record with `n` topics and `len` bytes of data.
pub fn log_cost(n: u8, len: u64) -> (r: Option<u64>)
    ensures
        r == (if spec_log_cost(n as int, len as int) <= u64::MAX {
            Some(spec_log_cost(n as int, len as int) as u64)
        } else {
            None
        }),
{
    match LOGDATA.checked_mul(len) {
        Some(data) => match LOG.checked_add(data) {
            Some(cost) => cost.checked_add(LOGTOPIC * (n as u64)),
            None => None,
        },
        None => None,
    }
}

/// The static gas of `SELFDESTRUCT`, introduced by EIP-150.
pub fn static_selfdestruct_cost(spec_id: SpecId) -> (r: u64)
    ensures
        r == (if spec_id.enabled(SpecId::TANGERINE) {
            5000int
        } else {
            0
        }),
{
    if spec_id.is_enabled_in(SpecId::TANGERINE) {
        5000
    } else {
        0
    }
}

/// The gas of `SELFDESTRUCT` that depends on its target: a new account (EIP-150, and from
/// EIP-161 on only where value moves), and a cold target (EIP-2929).
pub open spec fn spec_dyn_selfdestruct_cost(
    spec_id: SpecId,
    load: StateLoad<SelfDestructResult>,
) -> int {
    let topup = !load.data.target_exists && (spec_id.enabled(SpecId::SPURIOUS_DRAGON)
        ==> load.data.had_value);
    (if spec_id.enabled(SpecId::TANGERINE) && topup {
        25000int
    } else {
        0
    }) + (if spec_id.enabled(SpecId::BERLIN) && load.is_cold {
        2600int
    } else {
        0
    })
}

/// The gas of `SELFDESTRUCT` that depends on its target.
pub fn dyn_selfdestruct_cost(spec_id: SpecId, load: &StateLoad<SelfDestructResult>) -> (r: u64)
    ensures
        r == spec_dyn_selfdestruct_cost(spec_id, *load),
{
    let topup: bool = if spec_id.is_enabled_in(SpecId::SPURIOUS_DRAGON) {
        load.data.had_value && !load.data.target_exists
    } else {
        !load.data.target_exists
    };
    let mut gas: u64 = 0;
    if spec_id.is_enabled_in(SpecId::TANGERINE) && topup {
        gas = gas + 25000;
    }
    if spec_id.is_enabled_in(SpecId::BERLIN) && load.is_cold {
        gas = gas + COLD_ACCOUNT_ACCESS_COST;
    }
    gas
}

/// The shape of a storage write: original value, value before the write, value after it.
/// `X`, `Y` and `Z` are distinct and not zero.
#[derive(Clone, Copy, Debug, PartialEq, Eq, Structural)]
pub enum SStoreStatus {
    /// The value is assigned again, or no other shape applies.
    Assigned,
    /// `0 -> 0 -> Z`
    Added,
    /// `X -> X -> 0`
    Deleted,
    /// `X -> X -> Z`
    Modified,
    /// `X -> 0 -> Z`
    DeletedAdded,
    /// `X -> Y -> 0`
    ModifiedDeleted,
    /// `X -> 0 -> X`
    DeletedRestored,
    /// `0 -> Y -> 0`
    AddedDeleted,
    /// `X -> Y -> X`
    ModifiedRestored,
}

/// The number of shapes.
pub const SSTORE_STATUS_COUNT: usize = 9;

/// The shape of a storage write.
pub open spec fn spec_sstore_status(vals: SStoreResult) -> SStoreStatus {
    let o = vals.original_value.val();
    let p = vals.present_value.val();
    let n = vals.new_value.val();
    if n == p {
        SStoreStatus::Assigned
    } else if o == p {
        if o == 0 {
            SStoreStatus::Added
        } else if n == 0 {
            SStoreStatus::Deleted
        } else {
            SStoreStatus::Modified
        }
    } else if o == 0 {
        if n == 0 {
            SStoreStatus::AddedDeleted
        } else {
            SStoreStatus::Assigned
        }
    } else if p == 0 {
        if o == n {
            SStoreStatus::DeletedRestored
        } else {
            SStoreStatus::DeletedAdded
        }
    } else if n == 0 {
        SStoreStatus::ModifiedDeleted
    } else if o == n {
        SStoreStatus::ModifiedRestored
    } else {
        SStoreStatus::Assigned
    }
}

/// Classifies a storage write.
pub fn sstore_status(vals: &SStoreResult) -> (r: SStoreStatus)
    ensures
        r == spec_sstore_status(*vals),
{
    let original = vals.original_value;
    let present = vals.present_value;
    let new = vals.new_value;
    if new.same(&present) {
        return SStoreStatus::Assigned;
    }
    if original.same(&present) {
        if original.is_zero() {
            return SStoreStatus::Added;
        }
        if new.is_zero() {
            return SStoreStatus::Deleted;
        }
        return SStoreStatus::Modified;
    }
    if original.is_zero() {
        if new.is_zero() {
            return SStoreStatus::AddedDeleted;
        }
        return SStoreStatus::Assigned;
    }
    if present.is_zero() {
        if original.same(&new) {
            return SStoreStatus::DeletedRestored;
        }
        return SStoreStatus::DeletedAdded;
    }
    if new.is_zero() {
        return SStoreStatus::ModifiedDeleted;
    }
    if original.same(&new) {
        return SStoreStatus::ModifiedRestored;
    }
    SStoreStatus::Assigned
}

/// The part of the `SSTORE` price that depends on the fork alone.
#[derive(Clone, Copy, Debug, PartialEq, Eq, Structural)]
pub struct SStoreSpec {
    /// Charged before the slot is loaded.
    pub static_cost: u64,
    /// Charged for a cold slot.
    pub cold_extra: u64,
}

/// The part of the `SSTORE` price that depends on the shape of the write.
#[derive(Clone, Copy, Debug, PartialEq, Eq, Structural)]
pub struct SStoreEntry {
    /// Charged on top of the static cost.
    pub dyn_cost: u64,
    /// The refund, which may be negative.
    pub refund: i64,
}

/// The part of the `SSTORE` price that depends on the fork alone.
pub open spec fn spec_sstore_spec(spec_id: SpecId) -> SStoreSpec {
    if spec_id.enabled(SpecId::BERLIN) {
        SStoreSpec { static_cost: 100, cold_extra: 2100 }
    } else if spec_id.enabled(SpecId::ISTANBUL) {
        SStoreSpec { static_cost: 800, cold_extra: 0 }
    } else {
        SStoreSpec { static_cost: 5000, cold_extra: 0 }
    }
}

/// The row of a fork in the `SSTORE` schedule.
pub fn sstore_spec(spec_id: SpecId) -> (r: SStoreSpec)
    ensures
        r == spec_sstore_spec(spec_id),
{
    if spec_id.is_enabled_in(SpecId::BERLIN) {
        SStoreSpec { static_cost: WARM_STORAGE_READ_COST, cold_extra: COLD_SLOAD_COST }
    } else if spec_id.is_enabled_in(SpecId::ISTANBUL) {
        SStoreSpec { static_cost: ISTANBUL_SLOAD_GAS, cold_extra: 0 }
    } else {
        SStoreSpec { static_cost: SSTORE_RESET, cold_extra: 0 }
    }
}

/// What `SSTORE` refunds for clearing a slot.
pub open spec fn clears_schedule(spec_id: SpecId) -> int {
    if spec_id.enabled(SpecId::LONDON) {
        4800
    } else {
        15000
    }
}

/// The gas of an `SSTORE` and its refund, as the EIPs put it: two cases before Istanbul; net
/// metering from EIP-2200 on, with the prices of EIP-2929 and EIP-3529 substituted.
pub open spec fn eip_sstore(spec_id: SpecId, vals: SStoreResult, is_cold: bool) -> (int, int) {
    let original = vals.original_value.val();
    let present = vals.present_value.val();
    let new = vals.new_value.val();
    if !spec_id.enabled(SpecId::ISTANBUL) {
        (
            if present == 0 && new != 0 {
                20000
            } else {
                5000
            },
            if present != 0 && new == 0 {
                15000
            } else {
                0
            },
        )
    } else {
        let berlin = spec_id.enabled(SpecId::BERLIN);
        let sload_gas: int = if berlin {
            100
        } else {
            800
        };
        let reset_gas: int = if berlin {
            2900
        } else {
            5000
        };
        let clears = clears_schedule(spec_id);
        let cold: int = if berlin && is_cold {
            2100
        } else {
            0
        };
        if present == new {
            (sload_gas + cold, 0)
        } else if original == present {
            if original == 0 {
                (20000 + cold, 0)
            } else {
                (
                    reset_gas + cold,
                    if new == 0 {
                        clears
                    } else {
                        0
                    },
                )
            }
        } else {
            let clearing: int = if original == 0 {
                0
            } else if present == 0 {
                -clears
            } else if new == 0 {
                clears
            } else {
                0
            };
            let restoring: int = if original != new {
                0
            } else if original == 0 {
                20000 - sload_gas
            } else {
                reset_gas - sload_gas
            };
            (sload_gas + cold, clearing + restoring)
        }
    }
}

/// The entry of a shape under a fork in the `SSTORE` schedule.
pub open spec fn spec_sstore_entry(spec_id: SpecId, status: SStoreStatus) -> SStoreEntry {
    if !spec_id.enabled(SpecId::ISTANBUL) {
        match status {
            SStoreStatus::Added => SStoreEntry { dyn_cost: 15000, refund: 0 },
            SStoreStatus::Deleted => SStoreEntry { dyn_cost: 0, refund: 15000 },
            SStoreStatus::ModifiedDeleted => SStoreEntry { dyn_cost: 0, refund: 15000 },
            SStoreStatus::AddedDeleted => SStoreEntry { dyn_cost: 0, refund: 15000 },
            SStoreStatus::DeletedAdded => SStoreEntry { dyn_cost: 15000, refund: 0 },
            SStoreStatus::DeletedRestored => SStoreEntry { dyn_cost: 15000, refund: 0 },
            _ => SStoreEntry { dyn_cost: 0, refund: 0 },
        }
    } else {
        let berlin = spec_id.enabled(SpecId::BERLIN);
        let sload_gas: int = if berlin {
            100
        } else {
            800
        };
        let reset_gas: int = if berlin {
            2900
        } else {
            5000
        };
        let clears = clears_schedule(spec_id);
        match status {
            SStoreStatus::Assigned => SStoreEntry { dyn_cost: 0, refund: 0 },
            SStoreStatus::Added => SStoreEntry { dyn_cost: (20000 - sload_gas) as u64, refund: 0 },
            SStoreStatus::Deleted => SStoreEntry {
                dyn_cost: (reset_gas - sload_gas) as u64,
                refund: clears as i64,
            },
            SStoreStatus::Modified => SStoreEntry {
                dyn_cost: (reset_gas - sload_gas) as u64,
                refund: 0,
            },
            SStoreStatus::DeletedAdded => SStoreEntry { dyn_cost: 0, refund: (-clears) as i64 },
            SStoreStatus::ModifiedDeleted => SStoreEntry { dyn_cost: 0, refund: clears as i64 },
            SStoreStatus::DeletedRestored => SStoreEntry {
                dyn_cost: 0,
                refund: (reset_gas - sload_gas - clears) as i64,
            },
            SStoreStatus::AddedDeleted => SStoreEntry {
                dyn_cost: 0,
                refund: (20000 - sload_gas) as i64,
            },
            SStoreStatus::ModifiedRestored => SStoreEntry {
                dyn_cost: 0,
                refund: (reset_gas - sload_gas) as i64,
            },
        }
    }
}

/// The entry of a shape under a fork in the `SSTORE` schedule.
pub fn sstore_entry(spec_id: SpecId, status: SStoreStatus) -> (r: SStoreEntry)
    ensures
        r == spec_sstore_entry(spec_id, status),
{
    if !spec_id.is_enabled_in(SpecId::ISTANBUL) {
        let set: u64 = SSTORE_SET - SSTORE_RESET;
        return match status {
            SStoreStatus::Added => SStoreEntry { dyn_cost: set, refund: 0 },
            SStoreStatus::DeletedAdded => SStoreEntry { dyn_cost: set, refund: 0 },
            SStoreStatus::DeletedRestored => SStoreEntry { dyn_cost: set, refund: 0 },
            SStoreStatus::Deleted => SStoreEntry { dyn_cost: 0, refund: REFUND_SSTORE_CLEARS },
            SStoreStatus::ModifiedDeleted => SStoreEntry {
                dyn_cost: 0,
                refund: REFUND_SSTORE_CLEARS,
            },
            SStoreStatus::AddedDeleted => SStoreEntry {
                dyn_cost: 0,
                refund: REFUND_SSTORE_CLEARS,
            },
            _ => SStoreEntry { dyn_cost: 0, refund: 0 },
        };
    }
    let (sload_gas, reset_gas): (u64, u64) = if spec_id.is_enabled_in(SpecId::BERLIN) {
        (WARM_STORAGE_READ_COST, WARM_SSTORE_RESET)
    } else {
        (ISTANBUL_SLOAD_GAS, SSTORE_RESET)
    };
    let clears: i64 = if spec_id.is_enabled_in(SpecId::LONDON) {
        4800
    } else {
        REFUND_SSTORE_CLEARS
    };
    let reset: u64 = reset_gas - sload_gas;
    let set: u64 = SSTORE_SET - sload_gas;
    match status {
        SStoreStatus::Assigned => SStoreEntry { dyn_cost: 0, refund: 0 },
        SStoreStatus::Added => SStoreEntry { dyn_cost: set, refund: 0 },
        SStoreStatus::Deleted => SStoreEntry { dyn_cost: reset, refund: clears },
        SStoreStatus::Modified => SStoreEntry { dyn_cost: reset, refund: 0 },
        SStoreStatus::DeletedAdded => SStoreEntry { dyn_cost: 0, refund: -clears },
        SStoreStatus::ModifiedDeleted => SStoreEntry { dyn_cost: 0, refund: clears },
        SStoreStatus::DeletedRestored => SStoreEntry {
            dyn_cost: 0,
            refund: reset as i64 - clears,
        },
        SStoreStatus::AddedDeleted => SStoreEntry { dyn_cost: 0, refund: set as i64 },
        SStoreStatus::ModifiedRestored => SStoreEntry { dyn_cost: 0, refund: reset as i64 },
    }
}

/// The schedule is the EIPs': for every fork, every storage write and both a cold and a warm
/// slot, the static cost, the entry's dynamic cost and the cold surcharge add up to the EIP
/// price, and the entry's refund is the EIP refund.
pub proof fn sstore_schedule_matches_the_eips(spec_id: SpecId, vals: SStoreResult, is_cold: bool)
    ensures
        ({
            let row = spec_sstore_spec(spec_id);
            let entry = spec_sstore_entry(spec_id, spec_sstore_status(vals));
            let cold = if is_cold {
                row.cold_extra as int
            } else {
                0
            };
            eip_sstore(spec_id, vals, is_cold) == (
                row.static_cost + entry.dyn_cost + cold,
                entry.refund as int,
            )
        }),
{
}

} // verus!
