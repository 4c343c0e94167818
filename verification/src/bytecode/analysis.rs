//! The analysis of legacy code: where its instructions start, and the padding it needs.

use crate::bytecode::jump_table::{bits_repeat, bits_set};
use crate::bytecode::jump_table;
use crate::bytecode::opcode;
use crate::bytecode::JumpTable;
use crate::interpreter::be_word;
use vstd::prelude::*;

verus! {

/// Analyzed code has at least this many readable bytes past its last `STOP`: the dispatch
/// loop reads one opcode further than the instruction that ended the run.
pub const GUARD_BYTES: usize = 1;

/// Where the instruction after the one at `i` starts.
pub open spec fn next_pos(code: Seq<u8>, i: int) -> int {
    i + 1 + opcode::immediate_len(code[i])
}

/// Whether going from instruction to instruction, starting at `i`, comes to `target`.
pub open spec fn reaches(code: Seq<u8>, i: int, target: int) -> bool
    decreases (if i < target {
        target - i
    } else {
        0
    }),
{
    if i >= target {
        i == target
    } else if i < 0 || i >= code.len() {
        false
    } else {
        reaches(code, next_pos(code, i), target)
    }
}

/// Whether an instruction of the code starts at `i`. The end of a code whose last instruction
/// is complete counts.
pub open spec fn is_boundary(code: Seq<u8>, i: int) -> bool {
    reaches(code, 0, i)
}

/// Whether a jump may land on `i`: there is a `JUMPDEST`, and it is no immediate data.
pub open spec fn is_jumpdest(code: Seq<u8>, i: int) -> bool {
    0 <= i < code.len() && code[i] == opcode::JUMPDEST && is_boundary(code, i)
}

/// Where the scan over the instructions from `i` on ends, with the last opcode that it saw.
pub open spec fn scan(code: Seq<u8>, i: int, last: u8) -> (int, u8)
    decreases (if i < code.len() {
        code.len() - i
    } else {
        0
    }),
{
    if i < 0 || i >= code.len() {
        (i, last)
    } else {
        scan(code, next_pos(code, i), code[i])
    }
}

/// How many zero bytes make a code ready to run: what its last immediate lacks, a `STOP`
/// unless it ends in one, and the guard.
pub open spec fn spec_padding(code: Seq<u8>) -> int {
    if code.len() == 0 {
        1 + GUARD_BYTES
    } else {
        let (end, last) = scan(code, 0, 0);
        end - code.len() + (if last != opcode::STOP {
            1int
        } else {
            0int
        }) + GUARD_BYTES
    }
}

/// The code with its padding.
pub open spec fn padded(code: Seq<u8>) -> Seq<u8> {
    code + be_word::zeros(spec_padding(code) as nat)
}

/// From a boundary, one instruction further is a boundary too.
pub proof fn lemma_reaches_next(code: Seq<u8>, i: int, t: int)
    requires
        0 <= i,
        reaches(code, i, t),
        t < code.len(),
    ensures
        reaches(code, i, next_pos(code, t)),
    decreases (if i < t {
        t - i
    } else {
        0
    }),
{
    if i < t {
        lemma_reaches_next(code, next_pos(code, i), t);
    } else {
        reveal_with_fuel(reaches, 2);
    }
}

/// The instructions form one chain: what lies further on it is reached from what lies before.
pub proof fn lemma_reaches_chain(code: Seq<u8>, i: int, a: int, b: int)
    requires
        0 <= i,
        reaches(code, i, a),
        reaches(code, i, b),
        a <= b,
    ensures
        reaches(code, a, b),
    decreases (if i < a {
        a - i
    } else {
        0
    }),
{
    if i < a {
        lemma_reaches_chain(code, next_pos(code, i), a, b);
    }
}

/// Whether `t` is reached depends on the bytes before it alone.
pub proof fn lemma_reaches_prefix(code: Seq<u8>, longer: Seq<u8>, i: int, t: int)
    requires
        0 <= i,
        t <= code.len() <= longer.len(),
        longer.subrange(0, code.len() as int) == code,
    ensures
        reaches(code, i, t) == reaches(longer, i, t),
    decreases (if i < t {
        t - i
    } else {
        0
    }),
{
    if i < t {
        assert(longer[i] == longer.subrange(0, code.len() as int)[i]);
        lemma_reaches_prefix(code, longer, next_pos(code, i), t);
    }
}

/// Every instruction of a code that starts before a boundary ends at or before it.
pub proof fn instructions_do_not_overlap(code: Seq<u8>, a: int, b: int)
    requires
        is_boundary(code, a),
        is_boundary(code, b),
        0 <= a < b <= code.len(),
    ensures
        next_pos(code, a) <= b,
        is_boundary(code, next_pos(code, a)),
{
    lemma_reaches_chain(code, 0, a, b);
    assert(reaches(code, next_pos(code, a), b));
    lemma_reaches_next(code, 0, a);
}

/// The scan ends behind the code, less than an instruction away, at the end of the last
/// instruction.
pub proof fn lemma_scan(code: Seq<u8>, i: int, last: u8)
    requires
        0 <= i < code.len(),
        is_boundary(code, i),
    ensures
        ({
            let (end, op) = scan(code, i, last);
            &&& code.len() <= end <= code.len() + 32
            &&& end == code.len() || op != opcode::STOP
            &&& exists|p: int|
                0 <= p < code.len() && is_boundary(code, p) && #[trigger] next_pos(code, p) == end
                    && code[p] == op
        }),
    decreases (if i < code.len() {
        code.len() - i
    } else {
        0
    }),
{
    let n = next_pos(code, i);
    lemma_reaches_next(code, 0, i);
    if n < code.len() {
        lemma_scan(code, n, code[i]);
    } else {
        reveal_with_fuel(scan, 2);
    }
}

/// Analyzed code ends in a `STOP` that an instruction starts at, followed by the guard: no
/// instruction is truncated, and a run that goes on from instruction to instruction stops
/// inside the code.
pub proof fn padded_code_ends_in_stop(code: Seq<u8>)
    ensures
        ({
            let p = padded(code);
            let stop = p.len() - 1 - GUARD_BYTES;
            &&& p.len() >= code.len() + GUARD_BYTES
            &&& p.len() <= code.len() + 34
            &&& p.subrange(0, code.len() as int) == code
            &&& stop >= 0
            &&& stop + 1 >= code.len()
            &&& p[stop] == opcode::STOP
            &&& is_boundary(p, stop)
        }),
{
    let p = padded(code);
    if code.len() == 0 {
        assert(p.subrange(0, 0) =~= code);
        return;
    }
    lemma_scan(code, 0, 0);
    let (end, op) = scan(code, 0, 0);
    let q = choose|q: int|
        0 <= q < code.len() && is_boundary(code, q) && #[trigger] next_pos(code, q) == end && code[q]
            == op;
    assert(p.subrange(0, code.len() as int) =~= code);
    lemma_reaches_prefix(code, p, 0, q);
    assert(p[q] == code[q]);
    if op == opcode::STOP {
        assert(p.len() - 2 == q);
    } else {
        lemma_reaches_next(p, 0, q);
        assert(p.len() - 2 == end);
    }
}

/// Analyzed code is the code and zeros behind it: up to the end of the last instruction, for a
/// `STOP` unless the code ends in one, and for the guard. Empty code becomes two zeros.
pub proof fn padding_is_exact(code: Seq<u8>)
    ensures
        ({
            let p = padded(code);
            let (end, last) = scan(code, 0, 0);
            &&& p.subrange(0, code.len() as int) == code
            &&& forall|i: int| code.len() <= i < p.len() ==> #[trigger] p[i] == 0
            &&& code.len() == 0 ==> p == seq![0u8, 0u8]
            &&& code.len() > 0 ==> p.len() == end + (if last == opcode::STOP {
                0int
            } else {
                1int
            }) + 1
            &&& code.len() < p.len() <= code.len() + 34
        }),
{
    padded_code_ends_in_stop(code);
    if code.len() == 0 {
        assert(padded(code) =~= seq![0u8, 0u8]);
    } else {
        lemma_scan(code, 0, 0);
    }
}

/// How many bytes of padding a scan that ended at `scan_end` asks for.
fn padding_len(scan_end: usize, len: usize, last_opcode: u8) -> (r: usize)
    requires
        len <= scan_end,
        scan_end <= usize::MAX - 2,
    ensures
        r == scan_end - len + (if last_opcode != opcode::STOP {
            1int
        } else {
            0int
        }) + GUARD_BYTES,
{
    scan_end - len + (if last_opcode != opcode::STOP {
        1
    } else {
        0
    }) + GUARD_BYTES
}

/// Analyzes legacy code: finds the valid jump destinations, one bit for each byte, and pads
/// the code so that it can run without bounds checks.
pub fn analyze_legacy(bytecode: Vec<u8>) -> (r: (JumpTable, Vec<u8>))
    requires
        bytecode.len() <= usize::MAX / 8,
    ensures
        r.0@ == Seq::new(bytecode@.len(), |i: int| is_jumpdest(bytecode@, i)),
        r.1@ == padded(bytecode@),
{
    let ghost code = bytecode@;
    if bytecode.len() == 0 {
        let r = (JumpTable::default(), vec![opcode::STOP, opcode::STOP]);
        assert(r.0@ =~= Seq::new(bytecode@.len(), |i: int| is_jumpdest(bytecode@, i)));
        assert(r.1@ =~= padded(bytecode@));
        return r;
    }
    let len: usize = bytecode.len();
    let mut jumps = bits_repeat(false, len);
    let mut i: usize = 0;
    let mut op: u8 = 0;
    while i < len
        invariant
            code == bytecode@,
            len == code.len(),
            len <= usize::MAX / 8,
            0 < len,
            is_boundary(code, i as int),
            i <= len + 32,
            scan(code, 0, 0) == scan(code, i as int, op),
            jump_table::bits_of(jumps).len() == len,
            forall|j: int|
                0 <= j < len ==> #[trigger] jump_table::bits_of(jumps)[j] == (j < i && is_jumpdest(
                    code,
                    j,
                )),
        decreases len + 32 - i,
    {
        op = bytecode[i];
        let ghost before = i as int;
        proof {
            lemma_reaches_next(code, 0, before);
        }
        if op == opcode::JUMPDEST {
            bits_set(&mut jumps, i, true);
            i = i + 1;
        } else {
            let push_offset: u8 = op.wrapping_sub(opcode::PUSH1);
            if push_offset < 32 {
                i = i + (push_offset as usize + 2);
            } else {
                i = i + 1;
            }
        }
        assert(i == next_pos(code, before));
        assert forall|j: int| 0 <= j < len implies #[trigger] jump_table::bits_of(jumps)[j] == (j < i
            && is_jumpdest(code, j)) by {
            if before < j < i && is_jumpdest(code, j) {
                instructions_do_not_overlap(code, before, j);
            }
        }
    }
    proof {
        lemma_scan(code, 0, 0);
    }
    let total: usize = len + padding_len(i, len, op);
    let mut buf = bytecode;
    buf.resize(total, 0);
    assert(buf@ =~= padded(code)) by {
        assert(buf@.subrange(0, len as int) == code);
    }
    let r = (JumpTable::from_bits(jumps), buf);
    assert(r.0@ =~= Seq::new(code.len(), |i: int| is_jumpdest(code, i)));
    r
}

} // verus!
