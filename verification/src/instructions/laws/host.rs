//! Storage, accounts, logs and destruction: what is asked of the host, what it costs, and what
//! is done with the answer.

use crate::gas::GasState;
use crate::host::{
    AccountLoadState, Host, HostCall, HostReply, LoadError, LogState, SStoreResult,
    SelfDestructResult, StateLoad,
};
use crate::instructions::host as host_instructions;
use crate::instructions::host::HostStep;
use crate::instructions::laws;
use crate::instructions::table;
use crate::interpreter::action::ActionState;
use crate::interpreter::instruction_result::InstructionResult;
use crate::interpreter::interpreter_types::ExtState;
use crate::interpreter::shared_memory;
use crate::interpreter::state::InterpreterState;
use crate::primitives::u256;
use crate::primitives::{Address, SpecId, U256};
use vstd::prelude::*;

verus! {

/// The account that a number stands for: its least 20 bytes.
pub open spec fn account_of(address: Address, number: int) -> bool {
    address.val() == number % 0x1_0000_0000_0000_0000_0000_0000_0000_0000_0000_0000int
}

/// The topmost word.
pub open spec fn first(s: InterpreterState) -> U256 {
    s.stack[s.stack.len() - 1]
}

/// The word below the topmost one.
pub open spec fn second(s: InterpreterState) -> U256 {
    s.stack[s.stack.len() - 2]
}

/// An instruction of one byte spent some gas, if there was so much, and left a number in the
/// place of the topmost word.
pub open spec fn spent_for(
    s: InterpreterState,
    end: InterpreterState,
    cost: int,
    number: int,
) -> bool {
    if s.gas.remaining < cost {
        laws::ended(s, end, InstructionResult::OutOfGas, 0)
    } else {
        laws::went_on(s, end, 1, cost) && laws::left(s.stack, end.stack, 1, number)
    }
}

/// What a read of a slot costs before Berlin.
pub open spec fn old_read_price(spec: SpecId) -> int {
    if spec.enabled(SpecId::ISTANBUL) {
        800
    } else if spec.enabled(SpecId::TANGERINE) {
        200
    } else {
        50
    }
}

/// The answer to a read of a slot, from Berlin on: a cold slot costs 2100, a warm one 100.
pub open spec fn slot_answer(s: InterpreterState, end: InterpreterState, reply: HostReply) -> bool {
    match reply {
        HostReply::Slot(Ok(load)) => spent_for(
            s,
            end,
            if load.is_cold {
                2100
            } else {
                100
            },
            load.data.val(),
        ),
        HostReply::Slot(Err(LoadError::ColdLoadSkipped)) => laws::ended(
            s,
            end,
            InstructionResult::OutOfGas,
            0,
        ),
        HostReply::Slot(Err(LoadError::DBError)) => laws::ended(
            s,
            end,
            InstructionResult::FatalExternalError,
            s.gas.remaining - 100,
        ),
        _ => true,
    }
}

/// The answer to a read of a slot, before Berlin.
pub open spec fn old_slot_answer(
    s: InterpreterState,
    end: InterpreterState,
    reply: HostReply,
) -> bool {
    let price = old_read_price(s.flags.spec_id);
    match reply {
        HostReply::SlotOr(Some(load)) => spent_for(s, end, price, load.data.val()),
        HostReply::SlotOr(None) => laws::ended(
            s,
            end,
            InstructionResult::FatalExternalError,
            s.gas.remaining - price,
        ),
        _ => true,
    }
}

/// A slot was read: the frame's own account was asked for the slot of the topmost word. A cold
/// one is not to be loaded where the gas would not pay for it.
pub open spec fn slot_was_read<H: Host>(
    s: InterpreterState,
    pre: &H,
    end: InterpreterState,
    post: &H,
) -> bool {
    let gas = s.gas.remaining as int;
    let scarce = gas - 100 < 2000;
    if s.stack.len() < 1 {
        *post == *pre && laws::ended(s, end, InstructionResult::StackUnderflow, gas)
    } else if s.flags.spec_id.enabled(SpecId::BERLIN) {
        if gas < 100 {
            *post == *pre && laws::ended(s, end, InstructionResult::OutOfGas, 0)
        } else {
            exists|reply: HostReply| #[trigger]
                H::replies(
                    pre,
                    HostCall::SLoadSkipCold(s.input.target, first(s), scarce),
                    reply,
                    post,
                ) && slot_answer(s, end, reply)
        }
    } else if gas < old_read_price(s.flags.spec_id) {
        *post == *pre && laws::ended(s, end, InstructionResult::OutOfGas, 0)
    } else {
        exists|reply: HostReply| #[trigger]
            H::replies(pre, HostCall::SLoad(s.input.target, first(s)), reply, post)
                && old_slot_answer(s, end, reply)
    }
}

/// `SLOAD` reads a slot of the frame's account. From Berlin on the first read of a slot costs
/// 2100 and a later one 100.
pub proof fn an_sload_pays_for_a_cold_slot<H: Host>(
    s: InterpreterState,
    pre: &H,
    end: InterpreterState,
    post: &H,
)
    requires
        laws::at(0x54, s, pre, end, post),
    ensures
        slot_was_read(s, pre, end, post),
{
    reveal(table::flow_effect);
    let t = s.with_ip(s.ext.ip + 1).with_remaining((s.gas.remaining - 0) as u64);
    assert(t == s.with_ip(s.ext.ip + 1));
    if host_instructions::sload_ask(t) is Ask {
        let call = host_instructions::sload_ask(t)->Ask_0;
        let u = host_instructions::sload_ask(t)->Ask_1;
        let reply = choose|reply: HostReply| #[trigger]
            H::replies(pre, call, reply, post) && end == host_instructions::sload_resume(u, reply);
        if s.flags.spec_id.enabled(SpecId::BERLIN) {
            assert(slot_answer(s, end, reply));
        } else {
            assert(old_slot_answer(s, end, reply));
        }
    }
}

/// What a write to a slot costs and what it gives back, by the value at the start of the
/// transaction, the value before the write and the value written.
///
/// Before Istanbul a write that sets a zero slot costs 20000 and any other 5000, and clearing a
/// slot gives back 15000. From Istanbul on only the first change of a slot costs that much, or
/// less by the price of a cold slot from Berlin on; every other write costs what a read does.
/// What a later change undoes is given back. From London on clearing gives back 4800.
pub open spec fn write_price(
    spec: SpecId,
    original: int,
    present: int,
    new: int,
    cold: bool,
) -> (int, int) {
    if !spec.enabled(SpecId::ISTANBUL) {
        if present == 0 && new != 0 {
            (20000, 0)
        } else if present != 0 && new == 0 {
            (5000, 15000)
        } else {
            (5000, 0)
        }
    } else {
        let read: int = if spec.enabled(SpecId::BERLIN) {
            100
        } else {
            800
        };
        let change: int = if spec.enabled(SpecId::BERLIN) {
            2900
        } else {
            5000
        };
        let first_access: int = if spec.enabled(SpecId::BERLIN) && cold {
            2100
        } else {
            0
        };
        let clearing: int = if spec.enabled(SpecId::LONDON) {
            4800
        } else {
            15000
        };
        let gone: int = if original != 0 && present != 0 && new == 0 {
            clearing
        } else if original != 0 && present == 0 && new != 0 {
            -clearing
        } else {
            0
        };
        if new == present {
            (read + first_access, 0)
        } else if present == original {
            if original == 0 {
                (20000 + first_access, 0)
            } else {
                (change + first_access, gone)
            }
        } else if new != original {
            (read + first_access, gone)
        } else if original == 0 {
            (read + first_access, 20000 - read)
        } else {
            (read + first_access, gone + change - read)
        }
    }
}

/// What a write costs before the host is asked.
pub open spec fn write_deposit(spec: SpecId) -> int {
    if spec.enabled(SpecId::BERLIN) {
        100
    } else if spec.enabled(SpecId::ISTANBUL) {
        800
    } else {
        5000
    }
}

/// A write was made: it was paid for, and what it gives back was noted.
pub open spec fn write_answer(
    s: InterpreterState,
    end: InterpreterState,
    load: StateLoad<SStoreResult>,
) -> bool {
    let (cost, refund) = write_price(
        s.flags.spec_id,
        load.data.original_value.val(),
        load.data.present_value.val(),
        load.data.new_value.val(),
        load.is_cold,
    );
    if s.gas.remaining < cost {
        laws::ended(s, end, InstructionResult::OutOfGas, 0)
    } else {
        &&& end == (InterpreterState {
            ext: ExtState { ip: s.ext.ip + 1, ..s.ext },
            gas: GasState {
                remaining: (s.gas.remaining - cost) as u64,
                refunded: end.gas.refunded,
                ..s.gas
            },
            stack: s.stack.subrange(0, s.stack.len() - 2),
            ..s
        })
        &&& i64::MIN <= s.gas.refunded + refund <= i64::MAX ==> end.gas.refunded
            == s.gas.refunded + refund
    }
}

/// A slot was written: the slot of the topmost word of the frame's own account, with the word
/// below it.
pub open spec fn slot_was_written<H: Host>(
    s: InterpreterState,
    pre: &H,
    end: InterpreterState,
    post: &H,
) -> bool {
    let gas = s.gas.remaining as int;
    let deposit = write_deposit(s.flags.spec_id);
    let scarce = gas - 100 < 2000;
    if s.flags.is_static {
        *post == *pre && laws::ended(s, end, InstructionResult::StateChangeDuringStaticCall, gas)
    } else if s.stack.len() < 2 {
        *post == *pre && laws::ended(s, end, InstructionResult::StackUnderflow, gas)
    } else if s.flags.spec_id.enabled(SpecId::ISTANBUL) && gas <= 2300 {
        *post == *pre && laws::ended(s, end, InstructionResult::ReentrancySentryOOG, gas)
    } else if gas < deposit {
        *post == *pre && laws::ended(s, end, InstructionResult::OutOfGas, 0)
    } else if s.flags.spec_id.enabled(SpecId::BERLIN) {
        exists|reply: HostReply| #[trigger]
            H::replies(
                pre,
                HostCall::SStoreSkipCold(s.input.target, first(s), second(s), scarce),
                reply,
                post,
            ) && match reply {
                HostReply::Write(Ok(load)) => write_answer(s, end, load),
                HostReply::Write(Err(LoadError::ColdLoadSkipped)) => laws::ended(
                    s,
                    end,
                    InstructionResult::OutOfGas,
                    0,
                ),
                HostReply::Write(Err(LoadError::DBError)) => laws::ended(
                    s,
                    end,
                    InstructionResult::FatalExternalError,
                    gas - 100,
                ),
                _ => true,
            }
    } else {
        exists|reply: HostReply| #[trigger]
            H::replies(pre, HostCall::SStore(s.input.target, first(s), second(s)), reply, post)
                && match reply {
                HostReply::WriteOr(Some(load)) => write_answer(s, end, load),
                HostReply::WriteOr(None) => laws::ended(
                    s,
                    end,
                    InstructionResult::FatalExternalError,
                    gas - deposit,
                ),
                _ => true,
            }
    }
}

/// What is paid for a write, in two parts, is its price.
proof fn lemma_write_answer(s: InterpreterState, load: StateLoad<SStoreResult>)
    requires
        s.stack.len() >= 2,
        s.gas.remaining >= write_deposit(s.flags.spec_id),
    ensures
        ({
            let t = s.with_ip(s.ext.ip + 1).popped(2).with_remaining(
                (s.gas.remaining - write_deposit(s.flags.spec_id)) as u64,
            );
            write_answer(s, host_instructions::sstore_charged(t, load), load)
        }),
{
    let t = s.with_ip(s.ext.ip + 1).popped(2).with_remaining(
        (s.gas.remaining - write_deposit(s.flags.spec_id)) as u64,
    );
    let spec = s.flags.spec_id;
    let entry = crate::gas::calc::spec_sstore_entry(
        spec,
        crate::gas::calc::spec_sstore_status(load.data),
    );
    let (cost, refund) = write_price(
        spec,
        load.data.original_value.val(),
        load.data.present_value.val(),
        load.data.new_value.val(),
        load.is_cold,
    );
    lemma_write_price(spec, load);
    let end = host_instructions::sstore_charged(t, load);
    assert(end.ext.running == (s.gas.remaining >= cost && s.ext.running));
}

proof fn lemma_write_price(spec: SpecId, load: StateLoad<SStoreResult>)
    ensures
        ({
            let row = crate::gas::calc::spec_sstore_spec(spec);
            let entry = crate::gas::calc::spec_sstore_entry(
                spec,
                crate::gas::calc::spec_sstore_status(load.data),
            );
            let cold = if load.is_cold {
                row.cold_extra as int
            } else {
                0
            };
            &&& row.static_cost == write_deposit(spec)
            &&& write_price(
                spec,
                load.data.original_value.val(),
                load.data.present_value.val(),
                load.data.new_value.val(),
                load.is_cold,
            ) == (row.static_cost + entry.dyn_cost + cold, entry.refund as int)
        }),
{
}

/// `SSTORE` writes a slot of the frame's account, for the price of the fork.
pub proof fn an_sstore_costs_what_it_changes<H: Host>(
    s: InterpreterState,
    pre: &H,
    end: InterpreterState,
    post: &H,
)
    requires
        laws::at(0x55, s, pre, end, post),
    ensures
        slot_was_written(s, pre, end, post),
{
    reveal(table::flow_effect);
    let t = s.with_ip(s.ext.ip + 1).with_remaining((s.gas.remaining - 0) as u64);
    assert(t == s.with_ip(s.ext.ip + 1));
    if host_instructions::sstore_ask(t) is Ask {
        let call = host_instructions::sstore_ask(t)->Ask_0;
        let u = host_instructions::sstore_ask(t)->Ask_1;
        let reply = choose|reply: HostReply| #[trigger]
            H::replies(pre, call, reply, post) && end == host_instructions::sstore_resume(u, reply);
        match reply {
            HostReply::Write(Ok(load)) => {
                lemma_write_answer(s, load);
            },
            HostReply::WriteOr(Some(load)) => {
                lemma_write_answer(s, load);
            },
            _ => {},
        }
        assert(H::replies(pre, call, reply, post));
    }
}

/// `TLOAD` reads a transient slot of the frame's account, for 100 gas.
pub proof fn a_tload_reads_a_transient_slot<H: Host>(
    s: InterpreterState,
    pre: &H,
    end: InterpreterState,
    post: &H,
)
    requires
        laws::at(0x5c, s, pre, end, post),
    ensures
        transient_was_read(s, pre, end, post),
{
    reveal(table::flow_effect);
}

/// A transient slot was read.
pub open spec fn transient_was_read<H: Host>(
    s: InterpreterState,
    pre: &H,
    end: InterpreterState,
    post: &H,
) -> bool {
    let gas = s.gas.remaining - 100;
    if gas < 0 {
        *post == *pre && laws::ended(s, end, InstructionResult::OutOfGas, 0)
    } else if !s.flags.spec_id.enabled(SpecId::CANCUN) {
        *post == *pre && laws::ended(s, end, InstructionResult::NotActivated, gas)
    } else if s.stack.len() < 1 {
        *post == *pre && laws::ended(s, end, InstructionResult::StackUnderflow, gas)
    } else {
        exists|reply: HostReply| #[trigger]
            H::replies(pre, HostCall::TLoad(s.input.target, first(s)), reply, post) && (
            reply matches HostReply::Word(value) ==> spent_for(s, end, 100, value.val()))
    }
}

/// A transient slot was written.
pub open spec fn transient_was_written<H: Host>(
    s: InterpreterState,
    pre: &H,
    end: InterpreterState,
    post: &H,
) -> bool {
    let gas = s.gas.remaining - 100;
    if gas < 0 {
        *post == *pre && laws::ended(s, end, InstructionResult::OutOfGas, 0)
    } else if !s.flags.spec_id.enabled(SpecId::CANCUN) {
        *post == *pre && laws::ended(s, end, InstructionResult::NotActivated, gas)
    } else if s.flags.is_static {
        *post == *pre && laws::ended(s, end, InstructionResult::StateChangeDuringStaticCall, gas)
    } else if s.stack.len() < 2 {
        *post == *pre && laws::ended(s, end, InstructionResult::StackUnderflow, gas)
    } else {
        &&& exists|reply: HostReply| #[trigger]
            H::replies(pre, HostCall::TStore(s.input.target, first(s), second(s)), reply, post)
        &&& laws::went_on(s, end, 1, 100)
        &&& end.stack == s.stack.subrange(0, s.stack.len() - 2)
    }
}

/// `TSTORE` writes a transient slot of the frame's account, for 100 gas.
pub proof fn a_tstore_writes_a_transient_slot<H: Host>(
    s: InterpreterState,
    pre: &H,
    end: InterpreterState,
    post: &H,
)
    requires
        laws::at(0x5d, s, pre, end, post),
    ensures
        transient_was_written(s, pre, end, post),
{
    reveal(table::flow_effect);
}

/// Whether the gas that is left would not pay for a cold account, from Berlin on.
pub open spec fn short(berlin: bool, gas: int, reserve: int) -> bool {
    berlin && gas < reserve
}

/// What an instruction leaves of an account: its balance, the length of its code, or the hash of
/// its code, which is zero for an account without code, balance and transactions.
pub open spec fn number_of(byte: int, account: AccountLoadState) -> int {
    let hash = account.code_hash.word.val();
    if byte == 0x31 {
        account.balance.val()
    } else if byte == 0x3b {
        (account.code->0.original().len() as int) % u256::word_count()
    } else if account.nonce == 0 && account.balance.val() == 0 && (hash == 0 || hash
        == 0xc5d2_4601_86f7_233c_927e_7db2_dcc7_03c0_e500_b653_ca82_273b_7bfa_d804_5d85_a470int) {
        0
    } else {
        hash
    }
}

/// An account was loaded for its address in the topmost word, and a number that belongs to it
/// left there. From Berlin on the first access costs 2600 and a later one 100; before, the price
/// is `old_price`.
pub open spec fn account_was_loaded<H: Host>(
    s: InterpreterState,
    pre: &H,
    end: InterpreterState,
    post: &H,
    byte: int,
    with_code: bool,
    old_price: int,
) -> bool {
    let gas = s.gas.remaining as int;
    let berlin = s.flags.spec_id.enabled(SpecId::BERLIN);
    let deposit = if berlin {
        100
    } else {
        old_price
    };
    if s.stack.len() < 1 {
        *post == *pre && laws::ended(s, end, InstructionResult::StackUnderflow, gas)
    } else if gas < deposit {
        *post == *pre && laws::ended(s, end, InstructionResult::OutOfGas, 0)
    } else {
        exists|address: Address, reply: HostReply|
            {
                &&& #[trigger] H::replies(
                    pre,
                    HostCall::LoadAccount(address, with_code, short(berlin, gas - 100, 2500)),
                    reply,
                    post,
                )
                &&& account_of(address, laws::top(s, 0))
                &&& account_answer(s, end, reply, deposit, byte)
            }
    }
}

/// What is done with an account that was loaded.
pub open spec fn account_answer(
    s: InterpreterState,
    end: InterpreterState,
    reply: HostReply,
    deposit: int,
    byte: int,
) -> bool {
    let gas = s.gas.remaining as int;
    let berlin = s.flags.spec_id.enabled(SpecId::BERLIN);
    match reply {
        HostReply::Account(Ok(account)) => spent_for(
            s,
            end,
            if berlin && account.is_cold {
                2600
            } else {
                deposit
            },
            number_of(byte, account),
        ),
        HostReply::Account(Err(LoadError::ColdLoadSkipped)) => if berlin {
            laws::ended(s, end, InstructionResult::OutOfGas, 0)
        } else {
            laws::ended(s, end, InstructionResult::FatalExternalError, gas - deposit)
        },
        HostReply::Account(Err(LoadError::DBError)) => laws::ended(
            s,
            end,
            InstructionResult::FatalExternalError,
            gas - deposit,
        ),
        _ => true,
    }
}

/// The account was asked for, and its answer was used.
proof fn lemma_was_loaded<H: Host>(
    s: InterpreterState,
    pre: &H,
    end: InterpreterState,
    post: &H,
    byte: int,
    with_code: bool,
    old_price: int,
    reply: HostReply,
)
    requires
        s.stack.len() >= 1,
        ({
            let gas = s.gas.remaining as int;
            let berlin = s.flags.spec_id.enabled(SpecId::BERLIN);
            let deposit = if berlin {
                100
            } else {
                old_price
            };
            &&& gas >= deposit
            &&& H::replies(
                pre,
                HostCall::LoadAccount(
                    crate::primitives::address::address_of(first(s)),
                    with_code,
                    berlin && gas - 100 < 2500,
                ),
                reply,
                post,
            )
            &&& account_answer(s, end, reply, deposit, byte)
        }),
    ensures
        account_was_loaded(s, pre, end, post, byte, with_code, old_price),
{
    laws::control::lemma_address_of(first(s));
    let gas = s.gas.remaining as int;
    let berlin = s.flags.spec_id.enabled(SpecId::BERLIN);
    let address = crate::primitives::address::address_of(first(s));
    assert(H::replies(
        pre,
        HostCall::LoadAccount(address, with_code, short(berlin, gas - 100, 2500)),
        reply,
        post,
    ));
}

/// How an account is asked for.
proof fn lemma_load_account(s: InterpreterState, address: Address, with_code: bool, old_price: int)
    requires
        s.ext.running,
        old_price >= 0,
    ensures
        ({
            let t = s.with_ip(s.ext.ip + 1);
            let gas = s.gas.remaining as int;
            let berlin = s.flags.spec_id.enabled(SpecId::BERLIN);
            let deposit = if berlin {
                100
            } else {
                old_price
            };
            let ask = host_instructions::load_account_ask(t, address, with_code, old_price);
            if gas < deposit {
                ask is Done && laws::ended(s, ask->Done_0, InstructionResult::OutOfGas, 0)
            } else {
                ask == HostStep::Ask(
                    HostCall::LoadAccount(address, with_code, berlin && gas - 100 < 2500),
                    t.with_remaining((gas - deposit) as u64),
                )
            }
        }),
{
}

/// What is done with the answer.
proof fn lemma_account_answer(
    s: InterpreterState,
    reply: HostReply,
    deposit: int,
    byte: int,
    word: U256,
)
    requires
        s.ext.running,
        s.stack.len() >= 1,
        0 <= deposit <= s.gas.remaining,
        s.flags.spec_id.enabled(SpecId::BERLIN) ==> deposit == 100,
        reply matches HostReply::Account(Ok(account)) ==> word.val() == number_of(byte, account),
    ensures
        ({
            let t = s.with_ip(s.ext.ip + 1).with_remaining((s.gas.remaining - deposit) as u64);
            match host_instructions::loaded_account(t, reply) {
                Err(end) => account_answer(s, end, reply, deposit, byte),
                Ok((u, account)) => account_answer(s, u.replaced(1, word), reply, deposit, byte)
                    && reply == HostReply::Account(Ok(account)),
            }
        }),
{
}

/// `BALANCE` leaves the balance of an account.
pub proof fn a_balance_is_that_of_the_account<H: Host>(
    s: InterpreterState,
    pre: &H,
    end: InterpreterState,
    post: &H,
)
    requires
        laws::at(0x31, s, pre, end, post),
    ensures
        account_was_loaded(
            s,
            pre,
            end,
            post,
            0x31,
            false,
            if s.flags.spec_id.enabled(SpecId::ISTANBUL) {
                700
            } else if s.flags.spec_id.enabled(SpecId::TANGERINE) {
                400
            } else {
                20
            },
        ),
{
    let t = s.with_ip(s.ext.ip + 1);
    let ask = host_instructions::balance_ask(t);
    assert((ask is Done ==> end == ask->Done_0 && *post == *pre) && (ask is Ask ==> exists|
        reply: HostReply,
    | #[trigger]
        H::replies(pre, ask->Ask_0, reply, post) && end == host_instructions::balance_resume(
            ask->Ask_1,
            reply,
        ))) by {
        reveal(table::environment_effect);
        assert(t.with_remaining((s.gas.remaining - 0) as u64) == t);
    }
    let old_price: int =
        if s.flags.spec_id.enabled(SpecId::ISTANBUL) {
            700
        } else if s.flags.spec_id.enabled(SpecId::TANGERINE) {
            400
        } else {
            20
        };
    let deposit = if s.flags.spec_id.enabled(SpecId::BERLIN) {
        100
    } else {
        old_price
    };
    if s.stack.len() >= 1 {
        let address = crate::primitives::address::address_of(first(s));
        lemma_load_account(s, address, false, old_price);
        if ask is Ask {
            let reply = choose|reply: HostReply| #[trigger]
                H::replies(pre, ask->Ask_0, reply, post) && end
                    == host_instructions::balance_resume(ask->Ask_1, reply);
            let account = reply->Account_0->Ok_0;
            lemma_account_answer(s, reply, deposit, 0x31, account.balance);
            lemma_was_loaded(s, pre, end, post, 0x31, false, old_price, reply);
        }
    }
}

/// `EXTCODESIZE` leaves the length of an account's code.
pub proof fn a_code_size_is_that_of_the_account<H: Host>(
    s: InterpreterState,
    pre: &H,
    end: InterpreterState,
    post: &H,
)
    requires
        laws::at(0x3b, s, pre, end, post),
    ensures
        account_was_loaded(
            s,
            pre,
            end,
            post,
            0x3b,
            true,
            if s.flags.spec_id.enabled(SpecId::TANGERINE) {
                700
            } else {
                20
            },
        ),
{
    let t = s.with_ip(s.ext.ip + 1);
    let ask = host_instructions::extcodesize_ask(t);
    assert((ask is Done ==> end == ask->Done_0 && *post == *pre) && (ask is Ask ==> exists|
        reply: HostReply,
    | #[trigger]
        H::replies(pre, ask->Ask_0, reply, post) && end == host_instructions::extcodesize_resume(
            ask->Ask_1,
            reply,
        ))) by {
        reveal(table::environment_effect);
        assert(t.with_remaining((s.gas.remaining - 0) as u64) == t);
    }
    let old_price: int =
        if s.flags.spec_id.enabled(SpecId::TANGERINE) {
            700
        } else {
            20
        };
    let deposit = if s.flags.spec_id.enabled(SpecId::BERLIN) {
        100
    } else {
        old_price
    };
    if s.stack.len() >= 1 {
        let address = crate::primitives::address::address_of(first(s));
        lemma_load_account(s, address, true, old_price);
        if ask is Ask {
            let reply = choose|reply: HostReply| #[trigger]
                H::replies(pre, ask->Ask_0, reply, post) && end
                    == host_instructions::extcodesize_resume(ask->Ask_1, reply);
            let account = reply->Account_0->Ok_0;
            u256::lemma_val_of_word(account.code->0.original().len() as int);
            lemma_account_answer(
                s,
                reply,
                deposit,
                0x3b,
                u256::word(account.code->0.original().len() as int),
            );
            lemma_was_loaded(s, pre, end, post, 0x3b, true, old_price, reply);
        }
    }
}

/// `EXTCODEHASH` leaves the hash of an account's code.
pub proof fn a_code_hash_is_that_of_the_account<H: Host>(
    s: InterpreterState,
    pre: &H,
    end: InterpreterState,
    post: &H,
)
    requires
        laws::at(0x3f, s, pre, end, post),
    ensures
        if !s.flags.spec_id.enabled(SpecId::CONSTANTINOPLE) {
            *post == *pre && laws::ended(
                s,
                end,
                InstructionResult::NotActivated,
                s.gas.remaining as int,
            )
        } else {
            account_was_loaded(
                s,
                pre,
                end,
                post,
                0x3f,
                true,
                if s.flags.spec_id.enabled(SpecId::ISTANBUL) {
                    700
                } else {
                    400
                },
            )
        },
{
    let t = s.with_ip(s.ext.ip + 1);
    let ask = host_instructions::extcodehash_ask(t);
    assert((ask is Done ==> end == ask->Done_0 && *post == *pre) && (ask is Ask ==> exists|
        reply: HostReply,
    | #[trigger]
        H::replies(pre, ask->Ask_0, reply, post) && end == host_instructions::extcodehash_resume(
            ask->Ask_1,
            reply,
        ))) by {
        reveal(table::environment_effect);
        assert(t.with_remaining((s.gas.remaining - 0) as u64) == t);
    }
    let old_price: int =
        if s.flags.spec_id.enabled(SpecId::ISTANBUL) {
            700
        } else {
            400
        };
    let deposit = if s.flags.spec_id.enabled(SpecId::BERLIN) {
        100
    } else {
        old_price
    };
    if s.stack.len() >= 1 {
        let address = crate::primitives::address::address_of(first(s));
        lemma_load_account(s, address, true, old_price);
        if ask is Ask {
            let reply = choose|reply: HostReply| #[trigger]
                H::replies(pre, ask->Ask_0, reply, post) && end
                    == host_instructions::extcodehash_resume(ask->Ask_1, reply);
            let account = reply->Account_0->Ok_0;
            lemma_empty_hash(account);
            u256::lemma_val_of_word(0);
            let word = if account.empty() {
                u256::word(0)
            } else {
                account.code_hash.word
            };
            lemma_account_answer(s, reply, deposit, 0x3f, word);
            lemma_was_loaded(s, pre, end, post, 0x3f, true, old_price, reply);
        }
    }
}

/// The hash of no bytes as a number.
proof fn lemma_empty_hash(account: AccountLoadState)
    ensures
        account.empty() == (account.nonce == 0 && account.balance.val() == 0 && (
        account.code_hash.word.val() == 0 || account.code_hash.word.val()
            == 0xc5d2_4601_86f7_233c_927e_7db2_dcc7_03c0_e500_b653_ca82_273b_7bfa_d804_5d85_a470int)),
{
    let empty = crate::primitives::keccak::spec_keccak_empty();
    if account.code_hash.word.val() == empty.word.val() {
        u256::lemma_val_injective(account.code_hash.word, empty.word);
    }
}

/// `SELFBALANCE` pushes the balance of the frame's own account, for 5 gas.
pub proof fn a_selfbalance_is_that_of_the_frame<H: Host>(
    s: InterpreterState,
    pre: &H,
    end: InterpreterState,
    post: &H,
)
    requires
        laws::at(0x47, s, pre, end, post),
    ensures
        own_balance_was_pushed(s, pre, end, post),
{
    reveal(table::block_effect);
}

/// The balance of the frame's own account was pushed.
pub open spec fn own_balance_was_pushed<H: Host>(
    s: InterpreterState,
    pre: &H,
    end: InterpreterState,
    post: &H,
) -> bool {
    let gas = s.gas.remaining - 5;
    if gas < 0 {
        *post == *pre && laws::ended(s, end, InstructionResult::OutOfGas, 0)
    } else if !s.flags.spec_id.enabled(SpecId::ISTANBUL) {
        *post == *pre && laws::ended(s, end, InstructionResult::NotActivated, gas)
    } else {
        exists|reply: HostReply| #[trigger]
            H::replies(pre, HostCall::Balance(s.input.target), reply, post) && match reply {
                HostReply::Balance(Some(load)) => if s.stack.len() >= 1024 {
                    laws::ended(s, end, InstructionResult::StackOverflow, gas)
                } else {
                    laws::went_on(s, end, 1, 5) && laws::left(s.stack, end.stack, 0, load.data.val())
                },
                HostReply::Balance(None) => laws::ended(
                    s,
                    end,
                    InstructionResult::FatalExternalError,
                    gas,
                ),
                _ => true,
            }
    }
}

/// The hash of a block was left: of one of the 256 blocks before this one, and zero for others.
pub open spec fn block_hash_was_left<H: Host>(
    s: InterpreterState,
    pre: &H,
    end: InterpreterState,
    post: &H,
) -> bool {
    let gas = s.gas.remaining - 20;
    let now = pre.env().block_number.val();
    if gas < 0 {
        *post == *pre && laws::ended(s, end, InstructionResult::OutOfGas, 0)
    } else if s.stack.len() < 1 {
        *post == *pre && laws::ended(s, end, InstructionResult::StackUnderflow, gas)
    } else if laws::top(s, 0) < now <= laws::top(s, 0) + 256 {
        exists|reply: HostReply, number: u64|
            {
                &&& #[trigger] H::replies(pre, HostCall::BlockHash(number), reply, post)
                &&& laws::top(s, 0) <= u64::MAX ==> number == laws::top(s, 0)
                &&& laws::top(s, 0) > u64::MAX ==> number == u64::MAX
                &&& match reply {
                    HostReply::Hash(Some(hash)) => spent_for(s, end, 20, hash.word.val()),
                    HostReply::Hash(None) => laws::ended(
                        s,
                        end,
                        InstructionResult::FatalExternalError,
                        gas,
                    ),
                    _ => true,
                }
            }
    } else {
        *post == *pre && spent_for(s, end, 20, 0)
    }
}

/// `BLOCKHASH` leaves the hash of one of the 256 blocks before this one, for 20 gas.
pub proof fn a_block_hash_is_of_the_last_blocks<H: Host>(
    s: InterpreterState,
    pre: &H,
    end: InterpreterState,
    post: &H,
)
    requires
        laws::at(0x40, s, pre, end, post),
    ensures
        block_hash_was_left(s, pre, end, post),
{
    reveal(table::block_effect);
    u256::lemma_val_of_word(0);
    if s.gas.remaining >= 20 {
        let t = s.with_ip(s.ext.ip + 1).with_remaining((s.gas.remaining - 20) as u64);
        if host_instructions::blockhash_ask(t, pre.env()) is Ask {
            let call = host_instructions::blockhash_ask(t, pre.env())->Ask_0;
            let reply = choose|reply: HostReply| #[trigger]
                H::replies(pre, call, reply, post) && end == host_instructions::blockhash_resume(
                    t,
                    reply,
                );
            assert(H::replies(pre, HostCall::BlockHash(call->BlockHash_0), reply, post));
        }
    }
}

/// A frame destroyed its account. From Tangerine Whistle on that costs 5000, and 25000 more if
/// the account that gets the balance is not there; from Spurious Dragon on only if there is a
/// balance to get. From Berlin on a cold account costs 2600 more. Before London 24000 are given
/// back, once for each account.
pub open spec fn was_destroyed<H: Host>(
    s: InterpreterState,
    pre: &H,
    end: InterpreterState,
    post: &H,
) -> bool {
    let gas = s.gas.remaining as int;
    let spec = s.flags.spec_id;
    let deposit: int = if spec.enabled(SpecId::TANGERINE) {
        5000
    } else {
        0
    };
    if s.flags.is_static {
        *post == *pre && laws::ended(s, end, InstructionResult::StateChangeDuringStaticCall, gas)
    } else if s.stack.len() < 1 {
        *post == *pre && laws::ended(s, end, InstructionResult::StackUnderflow, gas)
    } else if gas < deposit {
        *post == *pre && laws::ended(s, end, InstructionResult::OutOfGas, 0)
    } else {
        exists|address: Address, reply: HostReply|
            {
                &&& #[trigger] H::replies(
                    pre,
                    HostCall::SelfDestruct(s.input.target, address),
                    reply,
                    post,
                )
                &&& account_of(address, laws::top(s, 0))
                &&& match reply {
                    HostReply::SelfDestruct(Some(load)) => destruction_answer(
                        s,
                        end,
                        deposit,
                        load,
                    ),
                    HostReply::SelfDestruct(None) => laws::ended(
                        s,
                        end,
                        InstructionResult::FatalExternalError,
                        gas - deposit,
                    ),
                    _ => true,
                }
            }
    }
}

/// What is done with the answer to a destruction.
pub open spec fn destruction_answer(
    s: InterpreterState,
    end: InterpreterState,
    deposit: int,
    load: StateLoad<SelfDestructResult>,
) -> bool {
    let spec = s.flags.spec_id;
    let made: int = if load.data.target_exists || !spec.enabled(SpecId::TANGERINE) {
        0
    } else if spec.enabled(SpecId::SPURIOUS_DRAGON) && !load.data.had_value {
        0
    } else {
        25000
    };
    let first_access: int = if spec.enabled(SpecId::BERLIN) && load.is_cold {
        2600
    } else {
        0
    };
    let cost = deposit + made + first_access;
    let refund: int = if spec.enabled(SpecId::LONDON) || load.data.previously_destroyed {
        0
    } else {
        24000
    };
    if s.gas.remaining < cost {
        laws::ended(s, end, InstructionResult::OutOfGas, 0)
    } else {
        &&& !end.ext.running
        &&& end.ext.action matches Some(ActionState::Return(r)) && r.result
            == InstructionResult::SelfDestruct && r.output.len() == 0 && r.gas.remaining
            == s.gas.remaining - cost && (s.gas.refunded + refund <= i64::MAX ==> r.gas.refunded
            == s.gas.refunded + refund)
        &&& end.stash == s.gas.remaining - cost
    }
}

/// `SELFDESTRUCT` destroys the frame's account and ends the frame.
pub proof fn a_selfdestruct_ends_the_frame<H: Host>(
    s: InterpreterState,
    pre: &H,
    end: InterpreterState,
    post: &H,
)
    requires
        laws::at(0xff, s, pre, end, post),
    ensures
        was_destroyed(s, pre, end, post),
{
    reveal(table::ending_effect);
    let t = s.with_ip(s.ext.ip + 1).with_remaining((s.gas.remaining - 0) as u64);
    assert(t == s.with_ip(s.ext.ip + 1));
    if host_instructions::selfdestruct_ask(t) is Ask {
        let call = host_instructions::selfdestruct_ask(t)->Ask_0;
        let u = host_instructions::selfdestruct_ask(t)->Ask_1;
        let reply = choose|reply: HostReply| #[trigger]
            H::replies(pre, call, reply, post) && end == host_instructions::selfdestruct_resume(
                u,
                reply,
            );
        laws::control::lemma_address_of(first(s));
        assert(H::replies(
            pre,
            HostCall::SelfDestruct(s.input.target, call->SelfDestruct_1),
            reply,
            post,
        ));
    }
}

/// A record was handed to the host: the frame's account, the topics in the order in which they
/// come from the stack, and the bytes of memory from an offset on. It costs 375, as much for each
/// topic, and 8 for each byte.
pub open spec fn was_logged<H: Host>(
    n: int,
    s: InterpreterState,
    pre: &H,
    end: InterpreterState,
    post: &H,
) -> bool {
    let gas = s.gas.remaining as int;
    let len = laws::top(s, 1);
    let cost = 375 + 375 * n + 8 * len;
    let offset = laws::top(s, 0);
    if s.flags.is_static {
        *post == *pre && laws::ended(s, end, InstructionResult::StateChangeDuringStaticCall, gas)
    } else if s.stack.len() < 2 {
        *post == *pre && laws::ended(s, end, InstructionResult::StackUnderflow, gas)
    } else if len > usize::MAX {
        *post == *pre && laws::ended(s, end, InstructionResult::InvalidOperandOOG, gas)
    } else if gas < cost {
        *post == *pre && laws::ended(s, end, InstructionResult::OutOfGas, 0)
    } else if len > 0 && offset > usize::MAX {
        *post == *pre && laws::ended(s, end, InstructionResult::InvalidOperandOOG, gas - cost)
    } else if len > 0 && laws::access_error(s, offset, len, gas - cost) is Some {
        *post == *pre && laws::ended(
            s,
            end,
            laws::access_error(s, offset, len, gas - cost)->0,
            gas - cost,
        )
    } else if s.stack.len() < n + 2 {
        *post == *pre && laws::ended(
            s,
            end,
            InstructionResult::StackUnderflow,
            if len > 0 {
                gas - cost - laws::growth(s, offset, len)
            } else {
                gas - cost
            },
        )
    } else {
        &&& record_was_asked(n, s, pre, post)
        &&& if len > 0 {
            laws::accessed(s, end, 1, cost, offset, len) && laws::same_cells(s, end)
        } else {
            laws::went_on(s, end, 1, cost)
        }
        &&& end.stack == s.stack.subrange(0, s.stack.len() - 2 - n)
    }
}

/// The record of a log.
pub open spec fn record_was_asked<H: Host>(
    n: int,
    s: InterpreterState,
    pre: &H,
    post: &H,
) -> bool {
    exists|record: LogState, reply: HostReply|
        {
            &&& #[trigger] H::replies(pre, HostCall::Log(record), reply, post)
            &&& record.address == s.input.target
            &&& record.topics.len() == n
            &&& forall|i: int|
                0 <= i < n ==> (#[trigger] record.topics[i]).word == s.stack[s.stack.len() - 3 - i]
            &&& record.data == laws::cells(s, laws::top(s, 0), laws::top(s, 1))
        }
}

/// `LOG0` to `LOG4` hand a record to the host.
pub proof fn a_log_records_topics_and_memory<H: Host>(
    n: int,
    s: InterpreterState,
    pre: &H,
    end: InterpreterState,
    post: &H,
)
    requires
        0 <= n <= 4,
        laws::at(0xa0 + n, s, pre, end, post),
        s.ok(),
    ensures
        was_logged(n, s, pre, end, post),
{
    reveal(table::log_effect);
    let t = s.with_ip(s.ext.ip + 1).with_remaining((s.gas.remaining - 0) as u64);
    assert(t == s.with_ip(s.ext.ip + 1));
    let ask = host_instructions::log_ask(t, n);
    assert(host_instructions::log_ask(t, s.ext.code.bytes()[s.ext.ip] - 0xa0) == ask);
    lemma_log_ask(n, s);
    if ask is Ask {
        let reply = choose|reply: HostReply| #[trigger] H::replies(pre, ask->Ask_0, reply, post);
        assert(H::replies(pre, HostCall::Log(ask->Ask_0->Log_0), reply, post));
    }
}

/// How `LOG0` to `LOG4` ask.
proof fn lemma_log_ask(n: int, s: InterpreterState)
    requires
        0 <= n <= 4,
        s.ok(),
        s.ext.running,
    ensures
        ({
            let ask = host_instructions::log_ask(s.with_ip(s.ext.ip + 1), n);
            let gas = s.gas.remaining as int;
            let len = laws::top(s, 1);
            let cost = 375 + 375 * n + 8 * len;
            let offset = laws::top(s, 0);
            if s.flags.is_static {
                ask is Done && laws::ended(
                    s,
                    ask->Done_0,
                    InstructionResult::StateChangeDuringStaticCall,
                    gas,
                )
            } else if s.stack.len() < 2 {
                ask is Done && laws::ended(s, ask->Done_0, InstructionResult::StackUnderflow, gas)
            } else if len > usize::MAX {
                ask is Done && laws::ended(s, ask->Done_0, InstructionResult::InvalidOperandOOG, gas)
            } else if gas < cost {
                ask is Done && laws::ended(s, ask->Done_0, InstructionResult::OutOfGas, 0)
            } else if len > 0 && offset > usize::MAX {
                ask is Done && laws::ended(
                    s,
                    ask->Done_0,
                    InstructionResult::InvalidOperandOOG,
                    gas - cost,
                )
            } else if len > 0 && laws::access_error(s, offset, len, gas - cost) is Some {
                ask is Done && laws::ended(
                    s,
                    ask->Done_0,
                    laws::access_error(s, offset, len, gas - cost)->0,
                    gas - cost,
                )
            } else if s.stack.len() < n + 2 {
                ask is Done && laws::ended(
                    s,
                    ask->Done_0,
                    InstructionResult::StackUnderflow,
                    if len > 0 {
                        gas - cost - laws::growth(s, offset, len)
                    } else {
                        gas - cost
                    },
                )
            } else {
                let end = ask->Ask_1;
                let record = ask->Ask_0->Log_0;
                &&& ask is Ask
                &&& ask->Ask_0 is Log
                &&& record.address == s.input.target
                &&& record.topics.len() == n
                &&& forall|i: int|
                    0 <= i < n ==> (#[trigger] record.topics[i]).word == s.stack[s.stack.len() - 3
                        - i]
                &&& record.data == laws::cells(s, offset, len)
                &&& if len > 0 {
                    laws::accessed(s, end, 1, cost, offset, len) && laws::same_cells(s, end)
                } else {
                    laws::went_on(s, end, 1, cost)
                }
                &&& end.stack == s.stack.subrange(0, s.stack.len() - 2 - n)
            }
        }),
{
    let t = s.with_ip(s.ext.ip + 1);
    if !s.flags.is_static && s.stack.len() >= 2 {
        let gas = s.gas.remaining as int;
        let len = laws::top(s, 1);
        let cost = 375 + 375 * n + 8 * len;
        let offset = laws::top(s, 0);
        let u = laws::memory::reduced(s, 2, cost);
        if len <= usize::MAX && cost <= gas {
            assert(t.popped(2).charged_or_fail(
                crate::gas::calc::spec_log_cost(n, len),
            ) == Ok::<InterpreterState, InterpreterState>(u));
            if len == 0 {
                lemma_log_record(n, s, u, Seq::empty());
                assert(Seq::<u8>::empty() =~= laws::cells(s, offset, len));
            } else if offset <= usize::MAX {
                laws::memory::lemma_reduced(s, 2, cost, offset, len);
                if laws::access_error(s, offset, len, gas - cost) is None {
                    lemma_log_record(
                        n,
                        s,
                        u.roomy(offset, len)->Ok_0,
                        laws::cells(s, offset, len),
                    );
                }
            }
        }
    }
}

/// How the record is made, once room for it is.
proof fn lemma_log_record(n: int, s: InterpreterState, u: InterpreterState, data: Seq<u8>)
    requires
        0 <= n <= 4,
        s.stack.len() >= 2,
        s.ext.running,
        u.ext.running,
        u.stack == s.stack.subrange(0, s.stack.len() - 2),
        u.input == s.input,
        u.gas.limit == s.gas.limit,
        u.gas.refunded == s.gas.refunded,
    ensures
        ({
            let ask = host_instructions::log_record(u, n, data);
            if s.stack.len() < n + 2 {
                ask is Done && laws::ended(
                    s,
                    ask->Done_0,
                    InstructionResult::StackUnderflow,
                    u.gas.remaining as int,
                )
            } else {
                let record = ask->Ask_0->Log_0;
                &&& ask is Ask
                &&& ask->Ask_0 is Log
                &&& record.address == s.input.target
                &&& record.topics.len() == n
                &&& forall|i: int|
                    0 <= i < n ==> (#[trigger] record.topics[i]).word == s.stack[s.stack.len() - 3
                        - i]
                &&& record.data == data
                &&& ask->Ask_1 == (InterpreterState {
                    stack: s.stack.subrange(0, s.stack.len() - 2 - n),
                    ..u
                })
            }
        }),
{
    let ask = host_instructions::log_record(u, n, data);
    if s.stack.len() >= n + 2 {
        assert(ask->Ask_1.stack =~= s.stack.subrange(0, s.stack.len() - 2 - n));
    }
}

/// What is left for the access to an account once its code has room.
pub open spec fn gas_for_code(s: InterpreterState) -> int {
    let len = laws::top(s, 3);
    s.gas.remaining - 3 * laws::words_for(len) - (if len > 0 {
        laws::growth(s, laws::top(s, 1), len)
    } else {
        0
    })
}

/// Whether that does not pay for a cold account.
pub open spec fn short_of_cold(gas: int) -> bool {
    gas - 100 < 2500
}

/// The code of an account was copied to memory: 3 gas for each word and the growth of memory
/// first, then the access to the account, which costs 2600 the first time and 100 later from
/// Berlin on; before, it costs 700, and 20 before Tangerine Whistle.
pub open spec fn code_was_copied<H: Host>(
    s: InterpreterState,
    pre: &H,
    end: InterpreterState,
    post: &H,
) -> bool {
    let gas = s.gas.remaining as int;
    let len = laws::top(s, 3);
    let offset = laws::top(s, 1);
    let words = 3 * laws::words_for(len);
    let berlin = s.flags.spec_id.enabled(SpecId::BERLIN);
    let deposit: int = if berlin {
        100
    } else if s.flags.spec_id.enabled(SpecId::TANGERINE) {
        700
    } else {
        20
    };
    let room = if len > 0 {
        laws::growth(s, offset, len)
    } else {
        0
    };
    if s.stack.len() < 4 {
        *post == *pre && laws::ended(s, end, InstructionResult::StackUnderflow, gas)
    } else if len > usize::MAX {
        *post == *pre && laws::ended(s, end, InstructionResult::InvalidOperandOOG, gas)
    } else if gas < words {
        *post == *pre && laws::ended(s, end, InstructionResult::OutOfGas, 0)
    } else if len > 0 && offset > usize::MAX {
        *post == *pre && laws::ended(s, end, InstructionResult::InvalidOperandOOG, gas - words)
    } else if len > 0 && laws::access_error(s, offset, len, gas - words) is Some {
        *post == *pre && laws::ended(
            s,
            end,
            laws::access_error(s, offset, len, gas - words)->0,
            gas - words,
        )
    } else if gas < words + room + deposit {
        *post == *pre && laws::ended(s, end, InstructionResult::OutOfGas, 0)
    } else if berlin {
        exists|address: Address, reply: HostReply|
            {
                &&& #[trigger] H::replies(
                    pre,
                    HostCall::LoadAccount(address, true, short_of_cold(gas_for_code(s))),
                    reply,
                    post,
                )
                &&& account_of(address, laws::top(s, 0))
                &&& match reply {
                    HostReply::Account(Ok(account)) => code_answer(
                        s,
                        end,
                        words + (if account.is_cold {
                            2600int
                        } else {
                            100
                        }),
                        room,
                        account.code->0.original(),
                    ),
                    HostReply::Account(Err(LoadError::ColdLoadSkipped)) => laws::ended(
                        s,
                        end,
                        InstructionResult::OutOfGas,
                        0,
                    ),
                    HostReply::Account(Err(LoadError::DBError)) => laws::ended(
                        s,
                        end,
                        InstructionResult::FatalExternalError,
                        gas - words - room - 100,
                    ),
                    _ => true,
                }
            }
    } else {
        exists|address: Address, reply: HostReply|
            {
                &&& #[trigger] H::replies(pre, HostCall::Code(address), reply, post)
                &&& account_of(address, laws::top(s, 0))
                &&& match reply {
                    HostReply::Code(Some(code)) => code_answer(
                        s,
                        end,
                        words + deposit,
                        room,
                        code,
                    ),
                    HostReply::Code(None) => laws::ended(
                        s,
                        end,
                        InstructionResult::FatalExternalError,
                        gas - words - room - deposit,
                    ),
                    _ => true,
                }
            }
    }
}

/// What is done with the code.
pub open spec fn code_answer(
    s: InterpreterState,
    end: InterpreterState,
    cost: int,
    room: int,
    code: Seq<u8>,
) -> bool {
    let len = laws::top(s, 3);
    let offset = laws::top(s, 1);
    if s.gas.remaining < cost + room {
        laws::ended(s, end, InstructionResult::OutOfGas, 0)
    } else {
        &&& end.stack == s.stack.subrange(0, s.stack.len() - 4)
        &&& if len > 0 {
            laws::accessed(s, end, 1, cost, offset, len) && (code.len() <= usize::MAX ==> laws::cells_written(
                s,
                end,
                offset,
                laws::memory::piece(code, laws::top(s, 2), len),
            ))
        } else {
            laws::went_on(s, end, 1, cost)
        }
    }
}

/// What room for the code costs.
proof fn lemma_extcode_room(s: InterpreterState)
    requires
        s.ok(),
        s.ext.running,
        s.stack.len() >= 4,
        laws::top(s, 3) <= usize::MAX,
    ensures
        ({
            let gas = s.gas.remaining as int;
            let len = laws::top(s, 3);
            let offset = laws::top(s, 1);
            let words = 3 * laws::words_for(len);
            let room = host_instructions::extcode_room(
                s.with_ip(s.ext.ip + 1).popped(4),
                s.stack[s.stack.len() - 2],
                len,
            );
            if gas < words {
                room is Err && laws::ended(s, room->Err_0, InstructionResult::OutOfGas, 0)
            } else if len == 0 {
                room == Ok::<InterpreterState, InterpreterState>(laws::memory::reduced(s, 4, words))
            } else if offset > usize::MAX {
                room is Err && laws::ended(
                    s,
                    room->Err_0,
                    InstructionResult::InvalidOperandOOG,
                    gas - words,
                )
            } else {
                match laws::access_error(s, offset, len, gas - words) {
                    Some(error) => room is Err && laws::ended(s, room->Err_0, error, gas - words),
                    None => {
                        let u = room->Ok_0;
                        &&& room is Ok
                        &&& laws::accessed(s, u, 1, words, offset, len)
                        &&& laws::same_cells(s, u)
                        &&& u.stack == s.stack.subrange(0, s.stack.len() - 4)
                        &&& 0 <= laws::growth(s, offset, len) <= gas - words
                    },
                }
            }
        }),
{
    reveal(host_instructions::extcode_room);
    let gas = s.gas.remaining as int;
    let len = laws::top(s, 3);
    let offset = laws::top(s, 1);
    let words = 3 * laws::words_for(len);
    let t = s.with_ip(s.ext.ip + 1).popped(4);
    assert(crate::gas::calc::spec_copy_cost(0, len) == words);
    if gas >= words {
        assert(t.charged(words) == Ok::<InterpreterState, InterpreterState>(
            laws::memory::reduced(s, 4, words),
        ));
        if len > 0 && offset <= usize::MAX {
            laws::memory::lemma_reduced(s, 4, words, offset, len);
        }
    }
}

/// How the code is asked for, and what is done with the answer.
proof fn lemma_extcode(s: InterpreterState, u: InterpreterState, address: Address, reply: HostReply)
    requires
        u.ext.running,
        u.flags == s.flags,
        u.gas.limit == s.gas.limit,
        u.gas.refunded == s.gas.refunded,
    ensures
        ({
            let gas = u.gas.remaining as int;
            let berlin = s.flags.spec_id.enabled(SpecId::BERLIN);
            let deposit: int = if berlin {
                100
            } else if s.flags.spec_id.enabled(SpecId::TANGERINE) {
                700
            } else {
                20
            };
            let ask = host_instructions::extcode_ask(u, address);
            let done = host_instructions::loaded_code(ask->Ask_1, reply);
            if gas < deposit {
                ask is Done && laws::ended(s, ask->Done_0, InstructionResult::OutOfGas, 0)
            } else if berlin {
                &&& ask is Ask
                &&& ask->Ask_0 == HostCall::LoadAccount(address, true, gas - 100 < 2500)
                &&& match reply {
                    HostReply::Account(Ok(account)) => {
                        let cost: int = if account.is_cold {
                            2600
                        } else {
                            100
                        };
                        if gas < cost {
                            done is Err && laws::ended(
                                s,
                                done->Err_0,
                                InstructionResult::OutOfGas,
                                0,
                            )
                        } else {
                            done == Ok::<(InterpreterState, Seq<u8>), InterpreterState>(
                                (u.with_remaining((gas - cost) as u64), account.code->0.original()),
                            )
                        }
                    },
                    HostReply::Account(Err(LoadError::ColdLoadSkipped)) => done is Err && laws::ended(
                        s,
                        done->Err_0,
                        InstructionResult::OutOfGas,
                        0,
                    ),
                    _ => done is Err && laws::ended(
                        s,
                        done->Err_0,
                        InstructionResult::FatalExternalError,
                        gas - deposit,
                    ),
                }
            } else {
                &&& ask is Ask
                &&& ask->Ask_0 == HostCall::Code(address)
                &&& match reply {
                    HostReply::Code(Some(code)) => done == Ok::<
                        (InterpreterState, Seq<u8>),
                        InterpreterState,
                    >((u.with_remaining((gas - deposit) as u64), code)),
                    _ => done is Err && laws::ended(
                        s,
                        done->Err_0,
                        InstructionResult::FatalExternalError,
                        gas - deposit,
                    ),
                }
            }
        }),
{
    reveal(host_instructions::extcode_ask);
    reveal(host_instructions::loaded_code);
}

/// The code is written once it is there.
proof fn lemma_extcode_written(
    s: InterpreterState,
    u: InterpreterState,
    paid: int,
    cost: int,
    code: Seq<u8>,
)
    requires
        s.stack.len() >= 4,
        laws::top(s, 3) <= usize::MAX,
        ({
            let len = laws::top(s, 3);
            let offset = laws::top(s, 1);
            if len == 0 {
                u == laws::memory::reduced(s, 4, paid) && paid + cost <= s.gas.remaining
            } else {
                &&& laws::accessed(s, u, 1, paid, offset, len)
                &&& laws::same_cells(s, u)
                &&& u.stack == s.stack.subrange(0, s.stack.len() - 4)
                &&& paid + cost + laws::growth(s, offset, len) <= s.gas.remaining
                &&& laws::growth(s, offset, len) >= 0
            }
        }),
        0 <= paid,
        0 <= cost,
    ensures
        code_answer(
            s,
            host_instructions::extcode_written(
                s.with_ip(s.ext.ip + 1),
                u.with_remaining((u.gas.remaining - cost) as u64),
                code,
            ),
            paid + cost,
            if laws::top(s, 3) > 0 {
                laws::growth(s, laws::top(s, 1), laws::top(s, 3))
            } else {
                0
            },
            code,
        ),
{
    let len = laws::top(s, 3);
    let offset = laws::top(s, 1);
    let v = u.with_remaining((u.gas.remaining - cost) as u64);
    if len > 0 {
        assert(laws::accessed(s, v, 1, paid + cost, offset, len));
        assert forall|i: int| 0 <= i implies #[trigger] laws::cell(v, i) == laws::cell(s, i) by {
            assert(laws::cell(u, i) == laws::cell(s, i));
        }
        let t = s.with_ip(s.ext.ip + 1);
        let from = if crate::instructions::system::saturated(t.nth(2)) < code.len() {
            crate::instructions::system::saturated(t.nth(2))
        } else {
            code.len() as int
        };
        let data = shared_memory::padded_slice(code, from, len as nat);
        laws::memory::lemma_written(s, v, paid + cost, offset, data, offset);
        if code.len() <= usize::MAX {
            assert(data =~= laws::memory::piece(code, laws::top(s, 2), len));
        }
    }
}

/// `EXTCODECOPY` copies the code of an account to memory.
pub proof fn an_extcodecopy_copies_the_code_of_the_account<H: Host>(
    s: InterpreterState,
    pre: &H,
    end: InterpreterState,
    post: &H,
)
    requires
        laws::at(0x3c, s, pre, end, post),
        s.ok(),
    ensures
        code_was_copied(s, pre, end, post),
{
    let t = s.with_ip(s.ext.ip + 1);
    let ask = host_instructions::extcodecopy_ask(t);
    assert((ask is Done ==> end == ask->Done_0 && *post == *pre) && (ask is Ask ==> exists|
        reply: HostReply,
    | #[trigger]
        H::replies(pre, ask->Ask_0, reply, post) && end == host_instructions::extcodecopy_resume(
            t,
            ask->Ask_1,
            reply,
        ))) by {
        reveal(table::environment_effect);
        assert(t.with_remaining((s.gas.remaining - 0) as u64) == t);
    }
    if s.stack.len() >= 4 && laws::top(s, 3) <= usize::MAX {
        lemma_extcode_room(s);
        let room = host_instructions::extcode_room(
            t.popped(4),
            s.stack[s.stack.len() - 2],
            laws::top(s, 3),
        );
        if room is Ok {
            let u = room->Ok_0;
            let address = crate::primitives::address::address_of(first(s));
            assert(ask == host_instructions::extcode_ask(u, address));
            lemma_extcode(s, u, address, arbitrary());
            if ask is Ask {
                let reply = choose|reply: HostReply| #[trigger]
                    H::replies(pre, ask->Ask_0, reply, post) && end
                        == host_instructions::extcodecopy_resume(t, ask->Ask_1, reply);
                lemma_code_was_copied(s, pre, end, post, u, reply);
            }
        }
    }
}

/// The code was asked for, and what came was copied.
proof fn lemma_code_was_copied<H: Host>(
    s: InterpreterState,
    pre: &H,
    end: InterpreterState,
    post: &H,
    u: InterpreterState,
    reply: HostReply,
)
    requires
        s.ok(),
        s.ext.running,
        s.stack.len() >= 4,
        laws::top(s, 3) <= usize::MAX,
        host_instructions::extcode_room(
            s.with_ip(s.ext.ip + 1).popped(4),
            s.stack[s.stack.len() - 2],
            laws::top(s, 3),
        ) == Ok::<InterpreterState, InterpreterState>(u),
        ({
            let ask = host_instructions::extcode_ask(
                u,
                crate::primitives::address::address_of(first(s)),
            );
            &&& ask is Ask
            &&& H::replies(pre, ask->Ask_0, reply, post)
            &&& end == host_instructions::extcodecopy_resume(
                s.with_ip(s.ext.ip + 1),
                ask->Ask_1,
                reply,
            )
        }),
    ensures
        code_was_copied(s, pre, end, post),
{
    let address = crate::primitives::address::address_of(first(s));
    let words = 3 * laws::words_for(laws::top(s, 3));
    let room = if laws::top(s, 3) > 0 {
        laws::growth(s, laws::top(s, 1), laws::top(s, 3))
    } else {
        0
    };
    laws::control::lemma_address_of(first(s));
    lemma_extcode_room(s);
    lemma_extcode(s, u, address, reply);
    if s.flags.spec_id.enabled(SpecId::BERLIN) {
        if reply is Account && reply->Account_0 is Ok {
            let account = reply->Account_0->Ok_0;
            let cost: int = if account.is_cold {
                2600
            } else {
                100
            };
            if u.gas.remaining >= cost {
                lemma_extcode_written(s, u, words, cost, account.code->0.original());
            }
            assert(code_answer(s, end, words + cost, room, account.code->0.original()));
        }
        assert(H::replies(
            pre,
            HostCall::LoadAccount(address, true, short_of_cold(gas_for_code(s))),
            reply,
            post,
        ));
    } else {
        if reply is Code && reply->Code_0 is Some {
            let cost: int = if s.flags.spec_id.enabled(SpecId::TANGERINE) {
                700
            } else {
                20
            };
            lemma_extcode_written(s, u, words, cost, reply->Code_0->0);
            assert(code_answer(s, end, words + cost, room, reply->Code_0->0));
        }
        assert(H::replies(pre, HostCall::Code(address), reply, post));
    }
}

} // verus!
