//! The instruction table: which instruction a byte stands for and what it costs.

use crate::bytecode::opcode;
use crate::host::{EnvState, Host, HostReply};
use crate::instructions::arithmetic;
use crate::instructions::bitwise;
use crate::instructions::block_info;
use crate::instructions::context::InstructionContext;
use crate::instructions::contract;
use crate::instructions::control;
use crate::instructions::host::HostStep;
use crate::instructions::host;
use crate::instructions::memory;
use crate::instructions::stack;
use crate::instructions::system;
use crate::instructions::tx_info;
use crate::interpreter::instruction_result::InstructionResult;
use crate::interpreter::interpreter_types::Jumps;
use crate::interpreter::state::InterpreterState;
use crate::primitives::SpecId;
use vstd::prelude::*;

verus! {

/// What an instruction makes of a state: another state, or one that depends on the host.
#[verifier::ext_equal]
pub enum Effect {
    /// Another state; the host stays what it is.
    Becomes(InterpreterState),
    /// A question to the host, and what is done with the answer.
    Asks(HostStep, spec_fn(InterpreterState, HostReply) -> InterpreterState),
}

/// Whether an effect can end in `end` while the host goes from `pre` to `post`.
pub open spec fn effected<H: Host>(effect: Effect, pre: &H, end: InterpreterState, post: &H) -> bool {
    match effect {
        Effect::Becomes(t) => end == t && *post == *pre,
        Effect::Asks(step, finish) => host::answered(step, finish, pre, end, post),
    }
}

/// Whether the instruction of an opcode can be executed: its immediate data is inside the code,
/// and from the merge on the block has its randomness.
pub open spec fn executable(op: u8, s: InterpreterState, env: EnvState) -> bool {
    &&& s.ext.ip > 0
    &&& s.ext.readable(0, opcode::immediate_len(op) as int)
    &&& s.enabled(SpecId::MERGE) ==> env.prevrandao is Some
}

/// The static gas of an opcode.
pub open spec fn spec_static_gas(op: u8) -> u64 {
    if op == 0x5b {
        1
    } else if op == 0x30
        || 0x32 <= op <= 0x34
        || op == 0x36
        || op == 0x38
        || op == 0x3a
        || op == 0x3d
        || 0x41 <= op <= 0x46
        || op == 0x48
        || op == 0x4a
        || op == 0x50
        || 0x58 <= op <= 0x5a
        || op == 0x5f {
        2
    } else if op == 0x01
        || op == 0x03
        || 0x10 <= op <= 0x1d
        || op == 0x35
        || op == 0x49
        || 0x51 <= op <= 0x53
        || 0x60 <= op <= 0x9f {
        3
    } else if op == 0x02
        || 0x04 <= op <= 0x07
        || op == 0x0b
        || op == 0x1e
        || op == 0x47 {
        5
    } else if 0x08 <= op <= 0x09
        || op == 0x56 {
        8
    } else if op == 0x57 {
        10
    } else if op == 0x40 {
        20
    } else if 0x5c <= op <= 0x5d {
        100
    } else {
        0
    }
}

/// The static gas of an opcode.
pub fn static_gas(op: u8) -> (r: u64)
    ensures
        r == spec_static_gas(op),
{
    if op == 0x5b {
        1
    } else if op == 0x30
        || (op >= 0x32 && op <= 0x34)
        || op == 0x36
        || op == 0x38
        || op == 0x3a
        || op == 0x3d
        || (op >= 0x41 && op <= 0x46)
        || op == 0x48
        || op == 0x4a
        || op == 0x50
        || (op >= 0x58 && op <= 0x5a)
        || op == 0x5f {
        2
    } else if op == 0x01
        || op == 0x03
        || (op >= 0x10 && op <= 0x1d)
        || op == 0x35
        || op == 0x49
        || (op >= 0x51 && op <= 0x53)
        || (op >= 0x60 && op <= 0x9f) {
        3
    } else if op == 0x02
        || (op >= 0x04 && op <= 0x07)
        || op == 0x0b
        || op == 0x1e
        || op == 0x47 {
        5
    } else if (op >= 0x08 && op <= 0x09)
        || op == 0x56 {
        8
    } else if op == 0x57 {
        10
    } else if op == 0x40 {
        20
    } else if (op >= 0x5c && op <= 0x5d) {
        100
    } else {
        0
    }
}

/// Where an instruction that did not end the frame has gone, and that it was paid for: past its
/// immediate data, or for a jump perhaps to a valid destination. Instructions without static
/// gas have charged something.
pub open spec fn moved(op: u8, s: InterpreterState, end: InterpreterState) -> bool {
    &&& end.ext.code == s.ext.code
    &&& end.flags == s.flags
    &&& end.input == s.input
    &&& op == opcode::STOP || !opcode::is_opcode(op) ==> !end.running()
    &&& end.running() ==> {
        &&& end.gas.remaining <= s.gas.remaining
        &&& spec_static_gas(op) == 0 ==> end.gas.remaining < s.gas.remaining
        &&& end.ext.ip == s.ext.ip + opcode::immediate_len(op) || (is_jump(op)
            && s.ext.code.valid_jump(end.ext.ip))
    }
    &&& !end.running() ==> {
        &&& end.ext.ip == s.ext.ip
        &&& end.stash <= s.gas.remaining
        &&& end.ext.action->0 is NewFrame ==> op >= 0xf0 && end.memory == s.memory
            && end.gas.words == s.gas.words
    }
}

/// Whether an opcode is that of a jump.
pub open spec fn is_jump(op: u8) -> bool {
    op == opcode::JUMP || op == opcode::JUMPI
}

/// What `STOP` and the arithmetic instructions do.
#[verifier::opaque]
pub open spec fn arithmetic_effect(op: u8, s: InterpreterState, env: EnvState) -> Effect {
    if op == opcode::STOP {
        Effect::Becomes(s.halted(InstructionResult::Stop))
    } else if op == opcode::ADD {
        Effect::Becomes(arithmetic::add_step(s))
    } else if op == opcode::MUL {
        Effect::Becomes(arithmetic::mul_step(s))
    } else if op == opcode::SUB {
        Effect::Becomes(arithmetic::sub_step(s))
    } else if op == opcode::DIV {
        Effect::Becomes(arithmetic::div_step(s))
    } else if op == opcode::SDIV {
        Effect::Becomes(arithmetic::sdiv_step(s))
    } else if op == opcode::MOD {
        Effect::Becomes(arithmetic::rem_step(s))
    } else if op == opcode::SMOD {
        Effect::Becomes(arithmetic::smod_step(s))
    } else if op == opcode::ADDMOD {
        Effect::Becomes(arithmetic::addmod_step(s))
    } else if op == opcode::MULMOD {
        Effect::Becomes(arithmetic::mulmod_step(s))
    } else if op == opcode::EXP {
        Effect::Becomes(arithmetic::exp_step(s))
    } else if op == opcode::SIGNEXTEND {
        Effect::Becomes(arithmetic::signextend_step(s))
    } else {
        Effect::Becomes(s.halted(InstructionResult::OpcodeNotFound))
    }
}

/// Executes `STOP` and the arithmetic instructions.
fn arithmetic_at<H: Host>(op: u8, context: InstructionContext<'_, H>, sp: usize, rem: u64) -> (r: (
    usize,
    u64,
))
    requires
        old(context.interpreter).ready_at(sp, rem),
        executable(op, old(context.interpreter)@, old(context.host).env()),
        op < 0x10,
    ensures
        final(context.interpreter).settled_at(r.0, r.1),
        effected(
            arithmetic_effect(op, old(context.interpreter).at(sp, rem), old(context.host).env()),
            old(context.host),
            final(context.interpreter).at(r.0, r.1),
            final(context.host),
        ),
        final(context.host).env() == old(context.host).env(),
        moved(
            op,
            old(context.interpreter).at(sp, rem),
            final(context.interpreter).at(r.0, r.1),
        ),
{
    proof {
        reveal(arithmetic_effect);
    }
    let InstructionContext { interpreter, host } = context;
    if op == opcode::STOP {
        interpreter.store_at(sp, rem);
        control::stop(
            InstructionContext { interpreter: &mut *interpreter, host: &mut *host },
        );
        interpreter.load_at()
    } else if op == opcode::ADD {
        arithmetic::add_at(
            InstructionContext { interpreter: &mut *interpreter, host: &mut *host },
            sp,
            rem,
        )
    } else if op == opcode::MUL {
        arithmetic::mul_at(
            InstructionContext { interpreter: &mut *interpreter, host: &mut *host },
            sp,
            rem,
        )
    } else if op == opcode::SUB {
        arithmetic::sub_at(
            InstructionContext { interpreter: &mut *interpreter, host: &mut *host },
            sp,
            rem,
        )
    } else if op == opcode::DIV {
        arithmetic::div_at(
            InstructionContext { interpreter: &mut *interpreter, host: &mut *host },
            sp,
            rem,
        )
    } else if op == opcode::SDIV {
        arithmetic::sdiv_at(
            InstructionContext { interpreter: &mut *interpreter, host: &mut *host },
            sp,
            rem,
        )
    } else if op == opcode::MOD {
        arithmetic::rem_at(
            InstructionContext { interpreter: &mut *interpreter, host: &mut *host },
            sp,
            rem,
        )
    } else if op == opcode::SMOD {
        arithmetic::smod_at(
            InstructionContext { interpreter: &mut *interpreter, host: &mut *host },
            sp,
            rem,
        )
    } else if op == opcode::ADDMOD {
        arithmetic::addmod_at(
            InstructionContext { interpreter: &mut *interpreter, host: &mut *host },
            sp,
            rem,
        )
    } else if op == opcode::MULMOD {
        arithmetic::mulmod_at(
            InstructionContext { interpreter: &mut *interpreter, host: &mut *host },
            sp,
            rem,
        )
    } else if op == opcode::EXP {
        interpreter.store_at(sp, rem);
        arithmetic::exp(
            InstructionContext { interpreter: &mut *interpreter, host: &mut *host },
        );
        interpreter.load_at()
    } else if op == opcode::SIGNEXTEND {
        arithmetic::signextend_at(
            InstructionContext { interpreter: &mut *interpreter, host: &mut *host },
            sp,
            rem,
        )
    } else {
        interpreter.store_at(sp, rem);
        control::unknown(InstructionContext { interpreter: &mut *interpreter, host: &mut *host });
        interpreter.load_at()
    }
}

/// What the comparisons and the bitwise instructions do.
#[verifier::opaque]
pub open spec fn bitwise_effect(op: u8, s: InterpreterState, env: EnvState) -> Effect {
    if op == opcode::LT {
        Effect::Becomes(bitwise::lt_step(s))
    } else if op == opcode::GT {
        Effect::Becomes(bitwise::gt_step(s))
    } else if op == opcode::SLT {
        Effect::Becomes(bitwise::slt_step(s))
    } else if op == opcode::SGT {
        Effect::Becomes(bitwise::sgt_step(s))
    } else if op == opcode::EQ {
        Effect::Becomes(bitwise::eq_step(s))
    } else if op == opcode::ISZERO {
        Effect::Becomes(bitwise::iszero_step(s))
    } else if op == opcode::AND {
        Effect::Becomes(bitwise::bitand_step(s))
    } else if op == opcode::OR {
        Effect::Becomes(bitwise::bitor_step(s))
    } else if op == opcode::XOR {
        Effect::Becomes(bitwise::bitxor_step(s))
    } else if op == opcode::NOT {
        Effect::Becomes(bitwise::not_step(s))
    } else if op == opcode::BYTE {
        Effect::Becomes(bitwise::byte_step(s))
    } else if op == opcode::SHL {
        Effect::Becomes(bitwise::shl_step(s))
    } else if op == opcode::SHR {
        Effect::Becomes(bitwise::shr_step(s))
    } else if op == opcode::SAR {
        Effect::Becomes(bitwise::sar_step(s))
    } else if op == opcode::CLZ {
        Effect::Becomes(bitwise::clz_step(s))
    } else {
        Effect::Becomes(s.halted(InstructionResult::OpcodeNotFound))
    }
}

/// Executes the comparisons and the bitwise instructions.
fn bitwise_at<H: Host>(op: u8, context: InstructionContext<'_, H>, sp: usize, rem: u64) -> (r: (
    usize,
    u64,
))
    requires
        old(context.interpreter).ready_at(sp, rem),
        executable(op, old(context.interpreter)@, old(context.host).env()),
        0x10 <= op < 0x20,
    ensures
        final(context.interpreter).settled_at(r.0, r.1),
        effected(
            bitwise_effect(op, old(context.interpreter).at(sp, rem), old(context.host).env()),
            old(context.host),
            final(context.interpreter).at(r.0, r.1),
            final(context.host),
        ),
        final(context.host).env() == old(context.host).env(),
        moved(
            op,
            old(context.interpreter).at(sp, rem),
            final(context.interpreter).at(r.0, r.1),
        ),
{
    proof {
        reveal(bitwise_effect);
    }
    let InstructionContext { interpreter, host } = context;
    if op == opcode::LT {
        bitwise::lt_at(
            InstructionContext { interpreter: &mut *interpreter, host: &mut *host },
            sp,
            rem,
        )
    } else if op == opcode::GT {
        bitwise::gt_at(
            InstructionContext { interpreter: &mut *interpreter, host: &mut *host },
            sp,
            rem,
        )
    } else if op == opcode::SLT {
        bitwise::slt_at(
            InstructionContext { interpreter: &mut *interpreter, host: &mut *host },
            sp,
            rem,
        )
    } else if op == opcode::SGT {
        bitwise::sgt_at(
            InstructionContext { interpreter: &mut *interpreter, host: &mut *host },
            sp,
            rem,
        )
    } else if op == opcode::EQ {
        bitwise::eq_at(
            InstructionContext { interpreter: &mut *interpreter, host: &mut *host },
            sp,
            rem,
        )
    } else if op == opcode::ISZERO {
        bitwise::iszero_at(
            InstructionContext { interpreter: &mut *interpreter, host: &mut *host },
            sp,
            rem,
        )
    } else if op == opcode::AND {
        bitwise::bitand_at(
            InstructionContext { interpreter: &mut *interpreter, host: &mut *host },
            sp,
            rem,
        )
    } else if op == opcode::OR {
        bitwise::bitor_at(
            InstructionContext { interpreter: &mut *interpreter, host: &mut *host },
            sp,
            rem,
        )
    } else if op == opcode::XOR {
        bitwise::bitxor_at(
            InstructionContext { interpreter: &mut *interpreter, host: &mut *host },
            sp,
            rem,
        )
    } else if op == opcode::NOT {
        bitwise::not_at(
            InstructionContext { interpreter: &mut *interpreter, host: &mut *host },
            sp,
            rem,
        )
    } else if op == opcode::BYTE {
        bitwise::byte_at(
            InstructionContext { interpreter: &mut *interpreter, host: &mut *host },
            sp,
            rem,
        )
    } else if op == opcode::SHL {
        bitwise::shl_at(
            InstructionContext { interpreter: &mut *interpreter, host: &mut *host },
            sp,
            rem,
        )
    } else if op == opcode::SHR {
        bitwise::shr_at(
            InstructionContext { interpreter: &mut *interpreter, host: &mut *host },
            sp,
            rem,
        )
    } else if op == opcode::SAR {
        bitwise::sar_at(
            InstructionContext { interpreter: &mut *interpreter, host: &mut *host },
            sp,
            rem,
        )
    } else if op == opcode::CLZ {
        bitwise::clz_at(
            InstructionContext { interpreter: &mut *interpreter, host: &mut *host },
            sp,
            rem,
        )
    } else {
        interpreter.store_at(sp, rem);
        control::unknown(InstructionContext { interpreter: &mut *interpreter, host: &mut *host });
        interpreter.load_at()
    }
}

/// What the instructions on the call and on accounts do.
#[verifier::opaque]
pub open spec fn environment_effect(op: u8, s: InterpreterState, env: EnvState) -> Effect {
    if op == opcode::KECCAK256 {
        Effect::Becomes(system::keccak256_step(s))
    } else if op == opcode::ADDRESS {
        Effect::Becomes(system::address_step(s))
    } else if op == opcode::BALANCE {
        Effect::Asks(
            host::balance_ask(s),
            |t: InterpreterState, reply: HostReply| host::balance_resume(t, reply),
        )
    } else if op == opcode::ORIGIN {
        Effect::Becomes(tx_info::origin_step(s, env))
    } else if op == opcode::CALLER {
        Effect::Becomes(system::caller_step(s))
    } else if op == opcode::CALLVALUE {
        Effect::Becomes(system::callvalue_step(s))
    } else if op == opcode::CALLDATALOAD {
        Effect::Becomes(system::calldataload_step(s))
    } else if op == opcode::CALLDATASIZE {
        Effect::Becomes(system::calldatasize_step(s))
    } else if op == opcode::CALLDATACOPY {
        Effect::Becomes(system::calldatacopy_step(s))
    } else if op == opcode::CODESIZE {
        Effect::Becomes(system::codesize_step(s))
    } else if op == opcode::CODECOPY {
        Effect::Becomes(system::codecopy_step(s))
    } else if op == opcode::GASPRICE {
        Effect::Becomes(tx_info::gasprice_step(s, env))
    } else if op == opcode::EXTCODESIZE {
        Effect::Asks(
            host::extcodesize_ask(s),
            |t: InterpreterState, reply: HostReply| host::extcodesize_resume(t, reply),
        )
    } else if op == opcode::EXTCODECOPY {
        Effect::Asks(
            host::extcodecopy_ask(s),
            |t: InterpreterState, reply: HostReply| host::extcodecopy_resume(s, t, reply),
        )
    } else if op == opcode::RETURNDATASIZE {
        Effect::Becomes(system::returndatasize_step(s))
    } else if op == opcode::RETURNDATACOPY {
        Effect::Becomes(system::returndatacopy_step(s))
    } else if op == opcode::EXTCODEHASH {
        Effect::Asks(
            host::extcodehash_ask(s),
            |t: InterpreterState, reply: HostReply| host::extcodehash_resume(t, reply),
        )
    } else {
        Effect::Becomes(s.halted(InstructionResult::OpcodeNotFound))
    }
}

/// Executes the instructions on the call and on accounts.
fn environment_at<H: Host>(op: u8, context: InstructionContext<'_, H>, sp: usize, rem: u64) -> (r: (
    usize,
    u64,
))
    requires
        old(context.interpreter).ready_at(sp, rem),
        executable(op, old(context.interpreter)@, old(context.host).env()),
        0x20 <= op < 0x40,
    ensures
        final(context.interpreter).settled_at(r.0, r.1),
        effected(
            environment_effect(op, old(context.interpreter).at(sp, rem), old(context.host).env()),
            old(context.host),
            final(context.interpreter).at(r.0, r.1),
            final(context.host),
        ),
        final(context.host).env() == old(context.host).env(),
        moved(
            op,
            old(context.interpreter).at(sp, rem),
            final(context.interpreter).at(r.0, r.1),
        ),
{
    proof {
        reveal(environment_effect);
    }
    let InstructionContext { interpreter, host } = context;
    if op == opcode::KECCAK256 {
        system::keccak256_at(
            InstructionContext { interpreter: &mut *interpreter, host: &mut *host },
            sp,
            rem,
        )
    } else if op == opcode::ADDRESS {
        system::address_at(
            InstructionContext { interpreter: &mut *interpreter, host: &mut *host },
            sp,
            rem,
        )
    } else if op == opcode::BALANCE {
        host::balance_at(
            InstructionContext { interpreter: &mut *interpreter, host: &mut *host },
            sp,
            rem,
        )
    } else if op == opcode::ORIGIN {
        tx_info::origin_at(
            InstructionContext { interpreter: &mut *interpreter, host: &mut *host },
            sp,
            rem,
        )
    } else if op == opcode::CALLER {
        system::caller_at(
            InstructionContext { interpreter: &mut *interpreter, host: &mut *host },
            sp,
            rem,
        )
    } else if op == opcode::CALLVALUE {
        system::callvalue_at(
            InstructionContext { interpreter: &mut *interpreter, host: &mut *host },
            sp,
            rem,
        )
    } else if op == opcode::CALLDATALOAD {
        system::calldataload_at(
            InstructionContext { interpreter: &mut *interpreter, host: &mut *host },
            sp,
            rem,
        )
    } else if op == opcode::CALLDATASIZE {
        system::calldatasize_at(
            InstructionContext { interpreter: &mut *interpreter, host: &mut *host },
            sp,
            rem,
        )
    } else if op == opcode::CALLDATACOPY {
        interpreter.store_at(sp, rem);
        system::calldatacopy(
            InstructionContext { interpreter: &mut *interpreter, host: &mut *host },
        );
        interpreter.load_at()
    } else if op == opcode::CODESIZE {
        system::codesize_at(
            InstructionContext { interpreter: &mut *interpreter, host: &mut *host },
            sp,
            rem,
        )
    } else if op == opcode::CODECOPY {
        interpreter.store_at(sp, rem);
        system::codecopy(
            InstructionContext { interpreter: &mut *interpreter, host: &mut *host },
        );
        interpreter.load_at()
    } else if op == opcode::GASPRICE {
        tx_info::gasprice_at(
            InstructionContext { interpreter: &mut *interpreter, host: &mut *host },
            sp,
            rem,
        )
    } else if op == opcode::EXTCODESIZE {
        host::extcodesize_at(
            InstructionContext { interpreter: &mut *interpreter, host: &mut *host },
            sp,
            rem,
        )
    } else if op == opcode::EXTCODECOPY {
        interpreter.store_at(sp, rem);
        host::extcodecopy(
            InstructionContext { interpreter: &mut *interpreter, host: &mut *host },
        );
        interpreter.load_at()
    } else if op == opcode::RETURNDATASIZE {
        system::returndatasize_at(
            InstructionContext { interpreter: &mut *interpreter, host: &mut *host },
            sp,
            rem,
        )
    } else if op == opcode::RETURNDATACOPY {
        interpreter.store_at(sp, rem);
        system::returndatacopy(
            InstructionContext { interpreter: &mut *interpreter, host: &mut *host },
        );
        interpreter.load_at()
    } else if op == opcode::EXTCODEHASH {
        host::extcodehash_at(
            InstructionContext { interpreter: &mut *interpreter, host: &mut *host },
            sp,
            rem,
        )
    } else {
        interpreter.store_at(sp, rem);
        control::unknown(InstructionContext { interpreter: &mut *interpreter, host: &mut *host });
        interpreter.load_at()
    }
}

/// What the instructions on the block do.
#[verifier::opaque]
pub open spec fn block_effect(op: u8, s: InterpreterState, env: EnvState) -> Effect {
    if op == opcode::BLOCKHASH {
        Effect::Asks(
            host::blockhash_ask(s, env),
            |t: InterpreterState, reply: HostReply| host::blockhash_resume(t, reply),
        )
    } else if op == opcode::COINBASE {
        Effect::Becomes(block_info::coinbase_step(s, env))
    } else if op == opcode::TIMESTAMP {
        Effect::Becomes(block_info::timestamp_step(s, env))
    } else if op == opcode::NUMBER {
        Effect::Becomes(block_info::block_number_step(s, env))
    } else if op == opcode::DIFFICULTY {
        Effect::Becomes(block_info::difficulty_step(s, env))
    } else if op == opcode::GASLIMIT {
        Effect::Becomes(block_info::gaslimit_step(s, env))
    } else if op == opcode::CHAINID {
        Effect::Becomes(block_info::chainid_step(s, env))
    } else if op == opcode::SELFBALANCE {
        Effect::Asks(
            host::selfbalance_ask(s),
            |t: InterpreterState, reply: HostReply| host::selfbalance_resume(t, reply),
        )
    } else if op == opcode::BASEFEE {
        Effect::Becomes(block_info::basefee_step(s, env))
    } else if op == opcode::BLOBHASH {
        Effect::Becomes(tx_info::blob_hash_step(s, env))
    } else if op == opcode::BLOBBASEFEE {
        Effect::Becomes(block_info::blob_basefee_step(s, env))
    } else {
        Effect::Becomes(s.halted(InstructionResult::OpcodeNotFound))
    }
}

/// Executes the instructions on the block.
fn block_at<H: Host>(op: u8, context: InstructionContext<'_, H>, sp: usize, rem: u64) -> (r: (
    usize,
    u64,
))
    requires
        old(context.interpreter).ready_at(sp, rem),
        executable(op, old(context.interpreter)@, old(context.host).env()),
        0x40 <= op < 0x50,
    ensures
        final(context.interpreter).settled_at(r.0, r.1),
        effected(
            block_effect(op, old(context.interpreter).at(sp, rem), old(context.host).env()),
            old(context.host),
            final(context.interpreter).at(r.0, r.1),
            final(context.host),
        ),
        final(context.host).env() == old(context.host).env(),
        moved(
            op,
            old(context.interpreter).at(sp, rem),
            final(context.interpreter).at(r.0, r.1),
        ),
{
    proof {
        reveal(block_effect);
    }
    let InstructionContext { interpreter, host } = context;
    if op == opcode::BLOCKHASH {
        host::blockhash_at(
            InstructionContext { interpreter: &mut *interpreter, host: &mut *host },
            sp,
            rem,
        )
    } else if op == opcode::COINBASE {
        block_info::coinbase_at(
            InstructionContext { interpreter: &mut *interpreter, host: &mut *host },
            sp,
            rem,
        )
    } else if op == opcode::TIMESTAMP {
        block_info::timestamp_at(
            InstructionContext { interpreter: &mut *interpreter, host: &mut *host },
            sp,
            rem,
        )
    } else if op == opcode::NUMBER {
        block_info::block_number_at(
            InstructionContext { interpreter: &mut *interpreter, host: &mut *host },
            sp,
            rem,
        )
    } else if op == opcode::DIFFICULTY {
        block_info::difficulty_at(
            InstructionContext { interpreter: &mut *interpreter, host: &mut *host },
            sp,
            rem,
        )
    } else if op == opcode::GASLIMIT {
        block_info::gaslimit_at(
            InstructionContext { interpreter: &mut *interpreter, host: &mut *host },
            sp,
            rem,
        )
    } else if op == opcode::CHAINID {
        block_info::chainid_at(
            InstructionContext { interpreter: &mut *interpreter, host: &mut *host },
            sp,
            rem,
        )
    } else if op == opcode::SELFBALANCE {
        host::selfbalance_at(
            InstructionContext { interpreter: &mut *interpreter, host: &mut *host },
            sp,
            rem,
        )
    } else if op == opcode::BASEFEE {
        block_info::basefee_at(
            InstructionContext { interpreter: &mut *interpreter, host: &mut *host },
            sp,
            rem,
        )
    } else if op == opcode::BLOBHASH {
        tx_info::blob_hash_at(
            InstructionContext { interpreter: &mut *interpreter, host: &mut *host },
            sp,
            rem,
        )
    } else if op == opcode::BLOBBASEFEE {
        block_info::blob_basefee_at(
            InstructionContext { interpreter: &mut *interpreter, host: &mut *host },
            sp,
            rem,
        )
    } else {
        interpreter.store_at(sp, rem);
        control::unknown(InstructionContext { interpreter: &mut *interpreter, host: &mut *host });
        interpreter.load_at()
    }
}

/// What the instructions on the stack, the memory and the storage do.
#[verifier::opaque]
pub open spec fn flow_effect(op: u8, s: InterpreterState, env: EnvState) -> Effect {
    if op == opcode::POP {
        Effect::Becomes(stack::pop_step(s))
    } else if op == opcode::MLOAD {
        Effect::Becomes(memory::mload_step(s))
    } else if op == opcode::MSTORE {
        Effect::Becomes(memory::mstore_step(s))
    } else if op == opcode::MSTORE8 {
        Effect::Becomes(memory::mstore8_step(s))
    } else if op == opcode::SLOAD {
        Effect::Asks(
            host::sload_ask(s),
            |t: InterpreterState, reply: HostReply| host::sload_resume(t, reply),
        )
    } else if op == opcode::SSTORE {
        Effect::Asks(
            host::sstore_ask(s),
            |t: InterpreterState, reply: HostReply| host::sstore_resume(t, reply),
        )
    } else if op == opcode::PC {
        Effect::Becomes(control::pc_step(s))
    } else if op == opcode::MSIZE {
        Effect::Becomes(memory::msize_step(s))
    } else if op == opcode::GAS {
        Effect::Becomes(system::gas_step(s))
    } else if op == opcode::JUMPDEST {
        Effect::Becomes(s)
    } else if op == opcode::TLOAD {
        Effect::Asks(
            host::tload_ask(s),
            |t: InterpreterState, reply: HostReply| host::tload_resume(t, reply),
        )
    } else if op == opcode::TSTORE {
        Effect::Asks(
            host::tstore_ask(s),
            |t: InterpreterState, reply: HostReply| t,
        )
    } else if op == opcode::MCOPY {
        Effect::Becomes(memory::mcopy_step(s))
    } else if op == opcode::PUSH0 {
        Effect::Becomes(stack::push0_step(s))
    } else {
        Effect::Becomes(s.halted(InstructionResult::OpcodeNotFound))
    }
}

/// Executes the instructions on the stack, the memory and the storage.
fn flow_at<H: Host>(op: u8, context: InstructionContext<'_, H>, sp: usize, rem: u64) -> (r: (
    usize,
    u64,
))
    requires
        old(context.interpreter).ready_at(sp, rem),
        executable(op, old(context.interpreter)@, old(context.host).env()),
        0x50 <= op < 0x60,
        !is_jump(op),
    ensures
        final(context.interpreter).settled_at(r.0, r.1),
        effected(
            flow_effect(op, old(context.interpreter).at(sp, rem), old(context.host).env()),
            old(context.host),
            final(context.interpreter).at(r.0, r.1),
            final(context.host),
        ),
        final(context.host).env() == old(context.host).env(),
        moved(
            op,
            old(context.interpreter).at(sp, rem),
            final(context.interpreter).at(r.0, r.1),
        ),
{
    proof {
        reveal(flow_effect);
    }
    let InstructionContext { interpreter, host } = context;
    if op == opcode::POP {
        stack::pop_at(
            InstructionContext { interpreter: &mut *interpreter, host: &mut *host },
            sp,
            rem,
        )
    } else if op == opcode::MLOAD {
        memory::mload_at(
            InstructionContext { interpreter: &mut *interpreter, host: &mut *host },
            sp,
            rem,
        )
    } else if op == opcode::MSTORE {
        memory::mstore_at(
            InstructionContext { interpreter: &mut *interpreter, host: &mut *host },
            sp,
            rem,
        )
    } else if op == opcode::MSTORE8 {
        memory::mstore8_at(
            InstructionContext { interpreter: &mut *interpreter, host: &mut *host },
            sp,
            rem,
        )
    } else if op == opcode::SLOAD {
        host::sload_at(
            InstructionContext { interpreter: &mut *interpreter, host: &mut *host },
            sp,
            rem,
        )
    } else if op == opcode::SSTORE {
        host::sstore_at(
            InstructionContext { interpreter: &mut *interpreter, host: &mut *host },
            sp,
            rem,
        )
    } else if op == opcode::PC {
        interpreter.store_at(sp, rem);
        control::pc(
            InstructionContext { interpreter: &mut *interpreter, host: &mut *host },
        );
        interpreter.load_at()
    } else if op == opcode::MSIZE {
        memory::msize_at(
            InstructionContext { interpreter: &mut *interpreter, host: &mut *host },
            sp,
            rem,
        )
    } else if op == opcode::GAS {
        system::gas_at(
            InstructionContext { interpreter: &mut *interpreter, host: &mut *host },
            sp,
            rem,
        )
    } else if op == opcode::JUMPDEST {
        control::jumpdest(InstructionContext { interpreter: &mut *interpreter, host: &mut *host });
        (sp, rem)
    } else if op == opcode::TLOAD {
        host::tload_at(
            InstructionContext { interpreter: &mut *interpreter, host: &mut *host },
            sp,
            rem,
        )
    } else if op == opcode::TSTORE {
        host::tstore_at(
            InstructionContext { interpreter: &mut *interpreter, host: &mut *host },
            sp,
            rem,
        )
    } else if op == opcode::MCOPY {
        interpreter.store_at(sp, rem);
        memory::mcopy(
            InstructionContext { interpreter: &mut *interpreter, host: &mut *host },
        );
        interpreter.load_at()
    } else if op == opcode::PUSH0 {
        stack::push0_at(
            InstructionContext { interpreter: &mut *interpreter, host: &mut *host },
            sp,
            rem,
        )
    } else {
        interpreter.store_at(sp, rem);
        control::unknown(InstructionContext { interpreter: &mut *interpreter, host: &mut *host });
        interpreter.load_at()
    }
}

/// What the instructions that end or leave the frame do.
#[verifier::opaque]
pub open spec fn ending_effect(op: u8, s: InterpreterState, env: EnvState) -> Effect {
    if op == opcode::RETURN {
        Effect::Becomes(control::return_step(s, InstructionResult::Return))
    } else if op == opcode::REVERT {
        Effect::Becomes(control::revert_step(s))
    } else if op == opcode::INVALID {
        Effect::Becomes(s.halted(InstructionResult::InvalidFEOpcode))
    } else if op == opcode::SELFDESTRUCT {
        Effect::Asks(
            host::selfdestruct_ask(s),
            |t: InterpreterState, reply: HostReply| host::selfdestruct_resume(t, reply),
        )
    } else if op == opcode::CREATE {
        Effect::Becomes(contract::create_step(s, false))
    } else if op == opcode::CALL {
        Effect::Becomes(contract::call_step(s))
    } else if op == opcode::CALLCODE {
        Effect::Becomes(contract::call_code_step(s))
    } else if op == opcode::DELEGATECALL {
        Effect::Becomes(contract::delegate_call_step(s))
    } else if op == opcode::CREATE2 {
        Effect::Becomes(contract::create_step(s, true))
    } else if op == opcode::STATICCALL {
        Effect::Becomes(contract::static_call_step(s))
    } else {
        Effect::Becomes(s.halted(InstructionResult::OpcodeNotFound))
    }
}

/// Executes the instructions that end or leave the frame.
fn ending_at<H: Host>(op: u8, context: InstructionContext<'_, H>, sp: usize, rem: u64) -> (r: (
    usize,
    u64,
))
    requires
        old(context.interpreter).ready_at(sp, rem),
        executable(op, old(context.interpreter)@, old(context.host).env()),
        0xf0 <= op,
    ensures
        final(context.interpreter).settled_at(r.0, r.1),
        effected(
            ending_effect(op, old(context.interpreter).at(sp, rem), old(context.host).env()),
            old(context.host),
            final(context.interpreter).at(r.0, r.1),
            final(context.host),
        ),
        final(context.host).env() == old(context.host).env(),
        moved(
            op,
            old(context.interpreter).at(sp, rem),
            final(context.interpreter).at(r.0, r.1),
        ),
{
    proof {
        reveal(ending_effect);
    }
    let InstructionContext { interpreter, host } = context;
    if op == opcode::RETURN {
        interpreter.store_at(sp, rem);
        control::ret(
            InstructionContext { interpreter: &mut *interpreter, host: &mut *host },
        );
        interpreter.load_at()
    } else if op == opcode::REVERT {
        interpreter.store_at(sp, rem);
        control::revert(
            InstructionContext { interpreter: &mut *interpreter, host: &mut *host },
        );
        interpreter.load_at()
    } else if op == opcode::INVALID {
        interpreter.store_at(sp, rem);
        control::invalid(
            InstructionContext { interpreter: &mut *interpreter, host: &mut *host },
        );
        interpreter.load_at()
    } else if op == opcode::SELFDESTRUCT {
        interpreter.store_at(sp, rem);
        host::selfdestruct(
            InstructionContext { interpreter: &mut *interpreter, host: &mut *host },
        );
        interpreter.load_at()
    } else if op == opcode::CREATE {
        interpreter.store_at(sp, rem);
        contract::create::<false, H>(
            InstructionContext { interpreter: &mut *interpreter, host: &mut *host },
        );
        interpreter.load_at()
    } else if op == opcode::CALL {
        interpreter.store_at(sp, rem);
        contract::call(
            InstructionContext { interpreter: &mut *interpreter, host: &mut *host },
        );
        interpreter.load_at()
    } else if op == opcode::CALLCODE {
        interpreter.store_at(sp, rem);
        contract::call_code(
            InstructionContext { interpreter: &mut *interpreter, host: &mut *host },
        );
        interpreter.load_at()
    } else if op == opcode::DELEGATECALL {
        interpreter.store_at(sp, rem);
        contract::delegate_call(
            InstructionContext { interpreter: &mut *interpreter, host: &mut *host },
        );
        interpreter.load_at()
    } else if op == opcode::CREATE2 {
        interpreter.store_at(sp, rem);
        contract::create::<true, H>(
            InstructionContext { interpreter: &mut *interpreter, host: &mut *host },
        );
        interpreter.load_at()
    } else if op == opcode::STATICCALL {
        interpreter.store_at(sp, rem);
        contract::static_call(
            InstructionContext { interpreter: &mut *interpreter, host: &mut *host },
        );
        interpreter.load_at()
    } else {
        interpreter.store_at(sp, rem);
        control::unknown(InstructionContext { interpreter: &mut *interpreter, host: &mut *host });
        interpreter.load_at()
    }
}

/// What `LOG0` to `LOG4` do.
#[verifier::opaque]
pub open spec fn log_effect(op: u8, s: InterpreterState) -> Effect {
    Effect::Asks(
        host::log_ask(s, op - opcode::LOG0),
        |t: InterpreterState, reply: HostReply| t,
    )
}

/// Executes `LOG0` to `LOG4`.
fn log_at<H: Host>(op: u8, context: InstructionContext<'_, H>, sp: usize, rem: u64) -> (r: (
    usize,
    u64,
))
    requires
        old(context.interpreter).ready_at(sp, rem),
        opcode::LOG0 <= op <= opcode::LOG4,
    ensures
        final(context.interpreter).settled_at(r.0, r.1),
        effected(
            log_effect(op, old(context.interpreter).at(sp, rem)),
            old(context.host),
            final(context.interpreter).at(r.0, r.1),
            final(context.host),
        ),
        final(context.host).env() == old(context.host).env(),
        moved(
            op,
            old(context.interpreter).at(sp, rem),
            final(context.interpreter).at(r.0, r.1),
        ),
{
    proof {
        reveal(log_effect);
    }
    let InstructionContext { interpreter, host } = context;
    interpreter.store_at(sp, rem);
    if op == opcode::LOG0 {
        host::log::<0, H>(InstructionContext { interpreter: &mut *interpreter, host: &mut *host });
    } else if op == opcode::LOG1 {
        host::log::<1, H>(InstructionContext { interpreter: &mut *interpreter, host: &mut *host });
    } else if op == opcode::LOG2 {
        host::log::<2, H>(InstructionContext { interpreter: &mut *interpreter, host: &mut *host });
    } else if op == opcode::LOG3 {
        host::log::<3, H>(InstructionContext { interpreter: &mut *interpreter, host: &mut *host });
    } else {
        host::log::<4, H>(InstructionContext { interpreter: &mut *interpreter, host: &mut *host });
    }
    interpreter.load_at()
}

/// What an opcode does. A jump takes the `JUMPDEST` with it if `fuse` is set.
pub open spec fn effect_of(op: u8, fuse: bool, s: InterpreterState, env: EnvState) -> Effect {
    if op < 0x10 {
        arithmetic_effect(op, s, env)
    } else if op < 0x20 {
        bitwise_effect(op, s, env)
    } else if op < 0x40 {
        environment_effect(op, s, env)
    } else if op < 0x50 {
        block_effect(op, s, env)
    } else if op == opcode::JUMP {
        Effect::Becomes(control::jump_step(s, fuse))
    } else if op == opcode::JUMPI {
        Effect::Becomes(control::jumpi_step(s, fuse))
    } else if op < 0x60 {
        flow_effect(op, s, env)
    } else if op < 0x80 {
        Effect::Becomes(stack::push_step(s, opcode::immediate_len(op) as int))
    } else if op < 0x90 {
        Effect::Becomes(stack::dup_step(s, op - opcode::DUP1 + 1))
    } else if op < 0xa0 {
        Effect::Becomes(stack::swap_step(s, op - opcode::SWAP1 + 1))
    } else if op <= opcode::LOG4 {
        log_effect(op, s)
    } else if op < 0xf0 {
        Effect::Becomes(s.halted(InstructionResult::OpcodeNotFound))
    } else {
        ending_effect(op, s, env)
    }
}

/// Executes an instruction other than a jump or a `PUSH` with immediate data.
pub fn execute_at<H: Host>(op: u8, context: InstructionContext<'_, H>, sp: usize, rem: u64) -> (r: (
    usize,
    u64,
))
    requires
        old(context.interpreter).ready_at(sp, rem),
        executable(op, old(context.interpreter)@, old(context.host).env()),
        !is_jump(op),
        opcode::immediate_len(op) == 0,
    ensures
        final(context.interpreter).settled_at(r.0, r.1),
        effected(
            effect_of(op, false, old(context.interpreter).at(sp, rem), old(context.host).env()),
            old(context.host),
            final(context.interpreter).at(r.0, r.1),
            final(context.host),
        ),
        final(context.host).env() == old(context.host).env(),
        moved(
            op,
            old(context.interpreter).at(sp, rem),
            final(context.interpreter).at(r.0, r.1),
        ),
{
    if op < 0x10 {
        arithmetic_at(op, context, sp, rem)
    } else if op < 0x20 {
        bitwise_at(op, context, sp, rem)
    } else if op < 0x40 {
        environment_at(op, context, sp, rem)
    } else if op < 0x50 {
        block_at(op, context, sp, rem)
    } else if op < 0x60 {
        flow_at(op, context, sp, rem)
    } else if op < 0x90 {
        stack::dup_n_at((op - opcode::DUP1 + 1) as usize, context, sp, rem)
    } else if op < 0xa0 {
        stack::swap_n_at((op - opcode::SWAP1 + 1) as usize, context, sp, rem)
    } else if op <= opcode::LOG4 {
        log_at(op, context, sp, rem)
    } else if op < 0xf0 {
        let InstructionContext { interpreter, host } = context;
        interpreter.store_at(sp, rem);
        control::unknown(InstructionContext { interpreter: &mut *interpreter, host: &mut *host });
        interpreter.load_at()
    } else {
        ending_at(op, context, sp, rem)
    }
}

/// An entry of the instruction table: the opcode whose instruction runs, and its static gas.
#[derive(Clone, Copy, Debug, PartialEq, Eq, Structural)]
pub struct Instruction {
    op: u8,
    static_gas: u64,
}

/// The byte that stands for instructions that are not known.
pub const UNKNOWN: u8 = 0x0c;

impl Instruction {
    /// The opcode whose instruction runs.
    pub closed spec fn spec_op(self) -> u8 {
        self.op
    }

    /// The static gas.
    pub closed spec fn spec_cost(self) -> u64 {
        self.static_gas
    }

    /// An entry that runs the instruction of an opcode.
    pub fn new(op: u8, static_gas: u64) -> (r: Instruction)
        ensures
            r.spec_op() == op,
            r.spec_cost() == static_gas,
    {
        Instruction { op, static_gas }
    }

    /// An entry for a byte that is no opcode.
    pub fn unknown() -> (r: Instruction)
        ensures
            r.spec_op() == UNKNOWN,
            r.spec_cost() == 0,
    {
        Instruction { op: UNKNOWN, static_gas: 0 }
    }

    /// Whether the entry is for a byte that is no opcode.
    pub fn is_unknown(&self) -> (r: bool)
        ensures
            r == !opcode::is_opcode(self.spec_op()),
    {
        opcode::OpCode::new(self.op).is_none()
    }

    /// The static gas.
    pub fn static_gas(&self) -> (r: u64)
        ensures
            r == self.spec_cost(),
    {
        self.static_gas
    }

    /// Executes the instruction. A jump lands on its `JUMPDEST`.
    pub fn execute<H: Host>(self, context: InstructionContext<'_, H>)
        requires
            old(context.interpreter).ready(),
            executable(self.spec_op(), old(context.interpreter)@, old(context.host).env()),
        ensures
            final(context.interpreter).settled(),
            effected(
                effect_of(
                    self.spec_op(),
                    false,
                    old(context.interpreter)@,
                    old(context.host).env(),
                ),
                old(context.host),
                final(context.interpreter)@,
                final(context.host),
            ),
            final(context.host).env() == old(context.host).env(),
            moved(self.spec_op(), old(context.interpreter)@, final(context.interpreter)@),
    {
        let op: u8 = self.op;
        if op == opcode::JUMP {
            control::jump::<false, H>(context);
        } else if op == opcode::JUMPI {
            control::jumpi::<false, H>(context);
        } else if op >= opcode::PUSH1 && op <= opcode::PUSH32 {
            stack::push_n((op - opcode::PUSH1 + 1) as usize, context);
        } else {
            let InstructionContext { interpreter, host } = context;
            let (sp, rem) = interpreter.load_at();
            let (sp, rem) = execute_at(
                op,
                InstructionContext { interpreter: &mut *interpreter, host: &mut *host },
                sp,
                rem,
            );
            interpreter.store_at(sp, rem);
        }
    }
}

/// The entry of a byte in the default table.
pub open spec fn is_default_entry(i: Instruction, byte: u8) -> bool {
    i.spec_cost() == spec_static_gas(byte) && i.spec_op() == (if opcode::is_opcode(byte) {
        byte
    } else {
        UNKNOWN
    })
}

/// The default instruction table: an entry for each byte.
pub fn instruction_table() -> (r: Vec<Instruction>)
    ensures
        r@.len() == 256,
        forall|byte: u8| is_default_entry(#[trigger] r@[byte as int], byte),
{
    let mut table: Vec<Instruction> = Vec::with_capacity(256);
    let mut i: usize = 0;
    while i < 256
        invariant
            i <= 256,
            table@.len() == i,
            forall|byte: u8| byte < i ==> is_default_entry(#[trigger] table@[byte as int], byte),
        decreases 256 - i,
    {
        let byte: u8 = i as u8;
        match opcode::OpCode::new(byte) {
            Some(op) => {
                table.push(Instruction::new(op.get(), self::static_gas(byte)));
            },
            None => {
                table.push(Instruction::unknown());
            },
        }
        i = i + 1;
    }
    table
}

} // verus!
