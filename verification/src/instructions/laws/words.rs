//! Arithmetic, comparisons and bits.


use crate::host::Host;
use crate::instructions::arithmetic;
use crate::instructions::laws;
use crate::instructions::table;
use crate::interpreter::instruction_result::InstructionResult;
use crate::interpreter::state::InterpreterState;
use crate::primitives::bits;
use crate::primitives::u256;
use crate::primitives::{SpecId, U256};
use vstd::arithmetic::power::*;
use vstd::arithmetic::power2::*;
use vstd::prelude::*;

verus! {

/// `STOP` ends the frame, costs nothing and leaves the gas.
pub proof fn a_stop_ends_the_frame<H: Host>(
    s: InterpreterState,
    pre: &H,
    end: InterpreterState,
    post: &H,
)
    requires
        laws::at(0x00, s, pre, end, post),
    ensures
        laws::ended(s, end, InstructionResult::Stop, s.gas.remaining as int),
        *post == *pre,
{
    reveal(table::arithmetic_effect);
}

/// `ADD` leaves the sum, without what a word cannot hold.
pub proof fn an_add_leaves_the_sum<H: Host>(
    s: InterpreterState,
    pre: &H,
    end: InterpreterState,
    post: &H,
)
    requires
        laws::at(0x01, s, pre, end, post),
    ensures
        laws::computed(
            s,
            pre,
            end,
            post,
            3,
            2,
            (laws::top(s, 0) + laws::top(s, 1)) % u256::word_count(),
        ),
{
    reveal(table::arithmetic_effect);
    u256::lemma_val_of_word(laws::top(s, 0) + laws::top(s, 1));
}

/// `MUL` leaves the product, without what a word cannot hold.
pub proof fn a_mul_leaves_the_product<H: Host>(
    s: InterpreterState,
    pre: &H,
    end: InterpreterState,
    post: &H,
)
    requires
        laws::at(0x02, s, pre, end, post),
    ensures
        laws::computed(
            s,
            pre,
            end,
            post,
            5,
            2,
            (laws::top(s, 0) * laws::top(s, 1)) % u256::word_count(),
        ),
{
    reveal(table::arithmetic_effect);
    u256::lemma_val_of_word(laws::top(s, 0) * laws::top(s, 1));
}

/// `SUB` leaves the topmost word less the one below it.
pub proof fn a_sub_leaves_the_difference<H: Host>(
    s: InterpreterState,
    pre: &H,
    end: InterpreterState,
    post: &H,
)
    requires
        laws::at(0x03, s, pre, end, post),
    ensures
        laws::computed(
            s,
            pre,
            end,
            post,
            3,
            2,
            (laws::top(s, 0) - laws::top(s, 1)) % u256::word_count(),
        ),
{
    reveal(table::arithmetic_effect);
    u256::lemma_val_of_word(laws::top(s, 0) - laws::top(s, 1));
}

/// A quotient and a remainder are no larger than what is divided.
proof fn lemma_quotient(a: int, b: int)
    requires
        a >= 0,
        b > 0,
    ensures
        0 <= a / b <= a,
        0 <= a % b <= a,
        a % b < b,
{
    assert(0 <= a / b <= a && 0 <= a % b <= a && a % b < b) by (nonlinear_arith)
        requires
            a >= 0,
            b > 0,
    ;
}

/// Division and remainder as numbers.
proof fn lemma_division(x: U256, y: U256)
    ensures
        arithmetic::word_div(x, y).val() == (if y.val() == 0 {
            0
        } else {
            x.val() / y.val()
        }),
        arithmetic::word_rem(x, y).val() == (if y.val() == 0 {
            0
        } else {
            x.val() % y.val()
        }),
{
    let a = x.val();
    let b = y.val();
    u256::lemma_val_bounds(x);
    u256::lemma_val_bounds(y);
    if b != 0 {
        lemma_quotient(a, b);
        u256::lemma_val_of_word(a / b);
        u256::lemma_val_of_word(a % b);
    }
}

/// A remainder as a number.
proof fn lemma_residue(n: int, m: U256)
    ensures
        arithmetic::residue(n, m).val() == (if m.val() == 0 {
            0
        } else {
            n % m.val()
        }),
{
    let b = m.val();
    u256::lemma_val_bounds(m);
    u256::lemma_val_of_word(0);
    if b != 0 {
        assert(0 <= n % b < b) by (nonlinear_arith)
            requires
                b > 0,
        ;
        u256::lemma_val_of_word(n % b);
    }
}

/// The sign bit of a part of a word, copied upwards.
proof fn lemma_signextend(ext: U256, x: U256)
    ensures
        arithmetic::word_signextend(ext, x).val() == ({
            let m = pow2((8 * ext.val() + 8) as nat) as int;
            let low = x.val() % m;
            if ext.val() >= 31 {
                x.val()
            } else if 2 * low < m {
                low
            } else {
                u256::word_count() - m + low
            }
        }),
{
    u256::lemma_val_bounds(ext);
    let e = ext.val();
    if e < 31 {
        let n = (8 * e + 8) as nat;
        let m = pow2(n) as int;
        let v = x.val();
        let low = v % m;
        lemma_pow2_pos(n);
        lemma_pow2_unfold(n);
        bits::lemma_pow2_limbs();
        lemma_pow2_strictly_increases(n, 256);
        assert(0 <= low < m) by (nonlinear_arith)
            requires
                m > 0,
                low == v % m,
        ;
        u256::lemma_val_of_word(low);
        u256::lemma_val_of_word(low - m);
        if 2 * low >= m {
            vstd::arithmetic::div_mod::lemma_fundamental_div_mod_converse(
                low - m,
                u256::word_count(),
                -1,
                u256::word_count() - m + low,
            );
        }
    }
}

/// `DIV` divides the topmost word by the one below it, and leaves zero for a division by zero.
pub proof fn a_div_leaves_the_quotient<H: Host>(
    s: InterpreterState,
    pre: &H,
    end: InterpreterState,
    post: &H,
)
    requires
        laws::at(0x04, s, pre, end, post),
    ensures
        laws::computed(
            s,
            pre,
            end,
            post,
            5,
            2,
            if laws::top(s, 1) == 0 {
                0
            } else {
                laws::top(s, 0) / laws::top(s, 1)
            },
        ),
{
    reveal(table::arithmetic_effect);
    if s.stack.len() >= 2 {
        lemma_division(s.stack[s.stack.len() - 1], s.stack[s.stack.len() - 2]);
    }
}

/// `MOD` leaves the remainder of the topmost word divided by the one below it, and zero for a
/// division by zero.
pub proof fn a_mod_leaves_the_remainder<H: Host>(
    s: InterpreterState,
    pre: &H,
    end: InterpreterState,
    post: &H,
)
    requires
        laws::at(0x06, s, pre, end, post),
    ensures
        laws::computed(
            s,
            pre,
            end,
            post,
            5,
            2,
            if laws::top(s, 1) == 0 {
                0
            } else {
                laws::top(s, 0) % laws::top(s, 1)
            },
        ),
{
    reveal(table::arithmetic_effect);
    if s.stack.len() >= 2 {
        lemma_division(s.stack[s.stack.len() - 1], s.stack[s.stack.len() - 2]);
    }
}

/// `SDIV` divides two signed words and rounds towards zero; a division by zero leaves zero.
pub proof fn an_sdiv_rounds_towards_zero<H: Host>(
    s: InterpreterState,
    pre: &H,
    end: InterpreterState,
    post: &H,
)
    requires
        laws::at(0x05, s, pre, end, post),
    ensures
        laws::computed(
            s,
            pre,
            end,
            post,
            5,
            2,
            ({
                let x = laws::signed(laws::top(s, 0));
                let y = laws::signed(laws::top(s, 1));
                let q = laws::magnitude(x) / laws::magnitude(y);
                if y == 0 {
                    0
                } else if (x < 0) == (y < 0) {
                    q % u256::word_count()
                } else {
                    (-q) % u256::word_count()
                }
            }),
        ),
{
    reveal(table::arithmetic_effect);
    u256::lemma_val_of_word(0);
    let q = laws::magnitude(laws::signed(laws::top(s, 0))) / laws::magnitude(
        laws::signed(laws::top(s, 1)),
    );
    let r = laws::magnitude(laws::signed(laws::top(s, 0))) % laws::magnitude(
        laws::signed(laws::top(s, 1)),
    );
    u256::lemma_val_of_word(q);
    u256::lemma_val_of_word(-q);
    u256::lemma_val_of_word(r);
    u256::lemma_val_of_word(-r);
}

/// `SMOD` leaves the remainder of two signed words, with the sign of what is divided; a
/// division by zero leaves zero.
pub proof fn an_smod_has_the_sign_of_the_dividend<H: Host>(
    s: InterpreterState,
    pre: &H,
    end: InterpreterState,
    post: &H,
)
    requires
        laws::at(0x07, s, pre, end, post),
    ensures
        laws::computed(
            s,
            pre,
            end,
            post,
            5,
            2,
            ({
                let x = laws::signed(laws::top(s, 0));
                let y = laws::signed(laws::top(s, 1));
                let r = laws::magnitude(x) % laws::magnitude(y);
                if y == 0 {
                    0
                } else if x < 0 {
                    (-r) % u256::word_count()
                } else {
                    r % u256::word_count()
                }
            }),
        ),
{
    reveal(table::arithmetic_effect);
    u256::lemma_val_of_word(0);
    let q = laws::magnitude(laws::signed(laws::top(s, 0))) / laws::magnitude(
        laws::signed(laws::top(s, 1)),
    );
    let r = laws::magnitude(laws::signed(laws::top(s, 0))) % laws::magnitude(
        laws::signed(laws::top(s, 1)),
    );
    u256::lemma_val_of_word(q);
    u256::lemma_val_of_word(-q);
    u256::lemma_val_of_word(r);
    u256::lemma_val_of_word(-r);
}

/// `ADDMOD` leaves the remainder of the whole sum, and zero for a division by zero.
pub proof fn an_addmod_reduces_the_whole_sum<H: Host>(
    s: InterpreterState,
    pre: &H,
    end: InterpreterState,
    post: &H,
)
    requires
        laws::at(0x08, s, pre, end, post),
    ensures
        laws::computed(
            s,
            pre,
            end,
            post,
            8,
            3,
            if laws::top(s, 2) == 0 {
                0
            } else {
                (laws::top(s, 0) + laws::top(s, 1)) % laws::top(s, 2)
            },
        ),
{
    reveal(table::arithmetic_effect);
    if s.stack.len() >= 3 {
        lemma_residue(laws::top(s, 0) + laws::top(s, 1), s.stack[s.stack.len() - 3]);
    }
}

/// `MULMOD` leaves the remainder of the whole product, and zero for a division by zero.
pub proof fn a_mulmod_reduces_the_whole_product<H: Host>(
    s: InterpreterState,
    pre: &H,
    end: InterpreterState,
    post: &H,
)
    requires
        laws::at(0x09, s, pre, end, post),
    ensures
        laws::computed(
            s,
            pre,
            end,
            post,
            8,
            3,
            if laws::top(s, 2) == 0 {
                0
            } else {
                (laws::top(s, 0) * laws::top(s, 1)) % laws::top(s, 2)
            },
        ),
{
    reveal(table::arithmetic_effect);
    if s.stack.len() >= 3 {
        lemma_residue(laws::top(s, 0) * laws::top(s, 1), s.stack[s.stack.len() - 3]);
    }
}

/// What an exponent of some bytes costs.
proof fn lemma_exp_cost(spec_id: SpecId, power: U256, bytes: nat)
    requires
        power.val() < pow2(8 * bytes),
        bytes > 0 ==> pow2((8 * bytes - 8) as nat) <= power.val(),
    ensures
        crate::gas::calc::spec_exp_cost(spec_id, power) == (if spec_id.enabled(
            SpecId::SPURIOUS_DRAGON,
        ) {
            10 + 50 * bytes
        } else {
            10 + 10 * bytes
        }),
{
    u256::lemma_val_bounds(power);
    if bytes > 0 {
        crate::gas::calc::lemma_byte_len(power.val(), bytes);
    } else {
        lemma2_to64();
    }
    let len = crate::gas::calc::byte_len(power.val());
    assert(len == bytes);
}

/// What `EXP` does at a cost.
proof fn lemma_exp_step(s: InterpreterState, cost: int)
    requires
        s.stack.len() >= 2,
        cost == crate::gas::calc::spec_exp_cost(s.flags.spec_id, s.stack[s.stack.len() - 2]),
        cost >= 0,
    ensures
        ({
            let t = s.with_ip(s.ext.ip + 1);
            let end = arithmetic::exp_step(t);
            let word = u256::word(pow(laws::top(s, 0), laws::top(s, 1) as nat));
            if s.gas.remaining < cost {
                laws::ended(s, end, InstructionResult::OutOfGas, 0)
            } else {
                laws::went_on(s, end, 1, cost) && laws::left(s.stack, end.stack, 2, word.val())
            }
        }),
{
}

/// `EXP` leaves the topmost word raised to the one below it. It costs 10, and for each byte of
/// the exponent 50 more, or 10 more before Spurious Dragon.
pub proof fn an_exp_leaves_the_power<H: Host>(
    s: InterpreterState,
    pre: &H,
    end: InterpreterState,
    post: &H,
    bytes: nat,
)
    requires
        laws::at(0x0a, s, pre, end, post),
        s.stack.len() >= 2 ==> laws::top(s, 1) < pow2(8 * bytes),
        s.stack.len() >= 2 && bytes > 0 ==> pow2((8 * bytes - 8) as nat) <= laws::top(s, 1),
    ensures
        ({
            let cost: int = if s.flags.spec_id.enabled(SpecId::SPURIOUS_DRAGON) {
                10 + 50 * bytes as int
            } else {
                10 + 10 * bytes as int
            };
            &&& *post == *pre
            &&& if s.stack.len() < 2 {
                laws::ended(s, end, InstructionResult::StackUnderflow, s.gas.remaining as int)
            } else if s.gas.remaining < cost {
                laws::ended(s, end, InstructionResult::OutOfGas, 0)
            } else {
                laws::went_on(s, end, 1, cost) && laws::left(
                    s.stack,
                    end.stack,
                    2,
                    pow(laws::top(s, 0), laws::top(s, 1) as nat) % u256::word_count(),
                )
            }
        }),
{
    reveal(table::arithmetic_effect);
    if s.stack.len() >= 2 {
        let cost = crate::gas::calc::spec_exp_cost(s.flags.spec_id, s.stack[s.stack.len() - 2]);
        let number = pow(laws::top(s, 0), laws::top(s, 1) as nat);
        u256::lemma_val_of_word(number);
        lemma_exp_cost(s.flags.spec_id, s.stack[s.stack.len() - 2], bytes);
        lemma_exp_step(s, cost);
    }
}

/// `SIGNEXTEND` takes the topmost word as the place of a byte, counted from the least one, and
/// extends the sign of the word below it from that byte on.
pub proof fn a_signextend_copies_the_sign_bit<H: Host>(
    s: InterpreterState,
    pre: &H,
    end: InterpreterState,
    post: &H,
)
    requires
        laws::at(0x0b, s, pre, end, post),
    ensures
        laws::computed(
            s,
            pre,
            end,
            post,
            5,
            2,
            ({
                let m = pow2((8 * laws::top(s, 0) + 8) as nat) as int;
                let low = laws::top(s, 1) % m;
                if laws::top(s, 0) >= 31 {
                    laws::top(s, 1)
                } else if 2 * low < m {
                    low
                } else {
                    u256::word_count() - m + low
                }
            }),
        ),
{
    reveal(table::arithmetic_effect);
    if s.stack.len() >= 2 {
        lemma_signextend(s.stack[s.stack.len() - 1], s.stack[s.stack.len() - 2]);
    }
}

/// `LT` tells whether the topmost word is less than the one below it.
pub proof fn an_lt_compares<H: Host>(
    s: InterpreterState,
    pre: &H,
    end: InterpreterState,
    post: &H,
)
    requires
        laws::at(0x10, s, pre, end, post),
    ensures
        laws::computed(
            s,
            pre,
            end,
            post,
            3,
            2,
            if laws::top(s, 0) < laws::top(s, 1) {
                1
            } else {
                0
            },
        ),
{
    reveal(table::bitwise_effect);
    u256::lemma_val_of_word(0);
    u256::lemma_val_of_word(1);
}

/// `GT` tells whether the topmost word is greater than the one below it.
pub proof fn a_gt_compares<H: Host>(
    s: InterpreterState,
    pre: &H,
    end: InterpreterState,
    post: &H,
)
    requires
        laws::at(0x11, s, pre, end, post),
    ensures
        laws::computed(
            s,
            pre,
            end,
            post,
            3,
            2,
            if laws::top(s, 0) > laws::top(s, 1) {
                1
            } else {
                0
            },
        ),
{
    reveal(table::bitwise_effect);
    u256::lemma_val_of_word(0);
    u256::lemma_val_of_word(1);
}

/// `SLT` tells whether the topmost word, taken as signed, is less than the one below it.
pub proof fn an_slt_compares_signed<H: Host>(
    s: InterpreterState,
    pre: &H,
    end: InterpreterState,
    post: &H,
)
    requires
        laws::at(0x12, s, pre, end, post),
    ensures
        laws::computed(
            s,
            pre,
            end,
            post,
            3,
            2,
            if laws::signed(laws::top(s, 0)) < laws::signed(laws::top(s, 1)) {
                1
            } else {
                0
            },
        ),
{
    reveal(table::bitwise_effect);
    u256::lemma_val_of_word(0);
    u256::lemma_val_of_word(1);
}

/// `SGT` tells whether the topmost word, taken as signed, is greater than the one below it.
pub proof fn an_sgt_compares_signed<H: Host>(
    s: InterpreterState,
    pre: &H,
    end: InterpreterState,
    post: &H,
)
    requires
        laws::at(0x13, s, pre, end, post),
    ensures
        laws::computed(
            s,
            pre,
            end,
            post,
            3,
            2,
            if laws::signed(laws::top(s, 0)) > laws::signed(laws::top(s, 1)) {
                1
            } else {
                0
            },
        ),
{
    reveal(table::bitwise_effect);
    u256::lemma_val_of_word(0);
    u256::lemma_val_of_word(1);
}

/// `EQ` tells whether two words are the same number.
pub proof fn an_eq_compares<H: Host>(
    s: InterpreterState,
    pre: &H,
    end: InterpreterState,
    post: &H,
)
    requires
        laws::at(0x14, s, pre, end, post),
    ensures
        laws::computed(
            s,
            pre,
            end,
            post,
            3,
            2,
            if laws::top(s, 0) == laws::top(s, 1) {
                1
            } else {
                0
            },
        ),
{
    reveal(table::bitwise_effect);
    u256::lemma_val_of_word(0);
    u256::lemma_val_of_word(1);
    if s.stack.len() >= 2 && laws::top(s, 0) == laws::top(s, 1) {
        u256::lemma_val_injective(s.stack[s.stack.len() - 1], s.stack[s.stack.len() - 2]);
    }
}

/// `ISZERO` tells whether a word is zero.
pub proof fn an_iszero_finds_zero<H: Host>(
    s: InterpreterState,
    pre: &H,
    end: InterpreterState,
    post: &H,
)
    requires
        laws::at(0x15, s, pre, end, post),
    ensures
        laws::computed(
            s,
            pre,
            end,
            post,
            3,
            1,
            if laws::top(s, 0) == 0 {
                1
            } else {
                0
            },
        ),
{
    reveal(table::bitwise_effect);
    u256::lemma_val_of_word(0);
    u256::lemma_val_of_word(1);
}

/// `AND` leaves the bits that both words have.
pub proof fn an_and_keeps_common_bits<H: Host>(
    s: InterpreterState,
    pre: &H,
    end: InterpreterState,
    post: &H,
)
    requires
        laws::at(0x16, s, pre, end, post),
    ensures
        laws::computed(
            s,
            pre,
            end,
            post,
            3,
            2,
            ({
                let x = s.stack[s.stack.len() - 1];
                let y = s.stack[s.stack.len() - 2];
                (U256 {
                    l0: x.l0 & y.l0,
                    l1: x.l1 & y.l1,
                    l2: x.l2 & y.l2,
                    l3: x.l3 & y.l3,
                }).val()
            }),
        ),
{
    reveal(table::bitwise_effect);
}

/// `OR` leaves the bits that either word has.
pub proof fn an_or_joins_bits<H: Host>(
    s: InterpreterState,
    pre: &H,
    end: InterpreterState,
    post: &H,
)
    requires
        laws::at(0x17, s, pre, end, post),
    ensures
        laws::computed(
            s,
            pre,
            end,
            post,
            3,
            2,
            ({
                let x = s.stack[s.stack.len() - 1];
                let y = s.stack[s.stack.len() - 2];
                (U256 {
                    l0: x.l0 | y.l0,
                    l1: x.l1 | y.l1,
                    l2: x.l2 | y.l2,
                    l3: x.l3 | y.l3,
                }).val()
            }),
        ),
{
    reveal(table::bitwise_effect);
}

/// `XOR` leaves the bits that one of the words has.
pub proof fn an_xor_leaves_differing_bits<H: Host>(
    s: InterpreterState,
    pre: &H,
    end: InterpreterState,
    post: &H,
)
    requires
        laws::at(0x18, s, pre, end, post),
    ensures
        laws::computed(
            s,
            pre,
            end,
            post,
            3,
            2,
            ({
                let x = s.stack[s.stack.len() - 1];
                let y = s.stack[s.stack.len() - 2];
                (U256 {
                    l0: x.l0 ^ y.l0,
                    l1: x.l1 ^ y.l1,
                    l2: x.l2 ^ y.l2,
                    l3: x.l3 ^ y.l3,
                }).val()
            }),
        ),
{
    reveal(table::bitwise_effect);
}

/// `NOT` leaves the other bits.
pub proof fn a_not_leaves_the_other_bits<H: Host>(
    s: InterpreterState,
    pre: &H,
    end: InterpreterState,
    post: &H,
)
    requires
        laws::at(0x19, s, pre, end, post),
    ensures
        laws::computed(
            s,
            pre,
            end,
            post,
            3,
            1,
            u256::word_count() - 1 - laws::top(s, 0),
        ),
{
    reveal(table::bitwise_effect);
    u256::lemma_val_of_word(u256::word_count() - 1 - laws::top(s, 0));
}

/// `BYTE` takes the topmost word as the place of a byte of the word below it, counted from the
/// most significant one; there is none from the 32nd place on.
pub proof fn a_byte_counts_from_the_most_significant<H: Host>(
    s: InterpreterState,
    pre: &H,
    end: InterpreterState,
    post: &H,
)
    requires
        laws::at(0x1a, s, pre, end, post),
    ensures
        laws::computed(
            s,
            pre,
            end,
            post,
            3,
            2,
            if laws::top(s, 0) < 32 {
                (laws::top(s, 1) / pow2((8 * (31 - laws::top(s, 0))) as nat) as int) % 256
            } else {
                0
            },
        ),
{
    reveal(table::bitwise_effect);
    u256::lemma_val_of_word(0);
    if s.stack.len() >= 2 && laws::top(s, 0) < 32 {
        u256::lemma_val_of_word(
            (laws::top(s, 1) / pow2((8 * (31 - laws::top(s, 0))) as nat) as int) % 256,
        );
    }
}

/// `SHL` shifts the word below the topmost one up by as many bits as the topmost one says.
pub proof fn a_shl_multiplies<H: Host>(
    s: InterpreterState,
    pre: &H,
    end: InterpreterState,
    post: &H,
)
    requires
        laws::at(0x1b, s, pre, end, post),
    ensures
        laws::computed_from(
            s,
            pre,
            end,
            post,
            SpecId::CONSTANTINOPLE,
            3,
            2,
            if laws::top(s, 0) < 256 {
                (laws::top(s, 1) * pow2(laws::top(s, 0) as nat)) % u256::word_count()
            } else {
                0
            },
        ),
{
    reveal(table::bitwise_effect);
    u256::lemma_val_of_word(0);
    u256::lemma_val_of_word(laws::top(s, 1) * pow2(laws::top(s, 0) as nat));
}

/// `SHR` shifts the word below the topmost one down by as many bits as the topmost one says.
pub proof fn a_shr_divides<H: Host>(
    s: InterpreterState,
    pre: &H,
    end: InterpreterState,
    post: &H,
)
    requires
        laws::at(0x1c, s, pre, end, post),
    ensures
        laws::computed_from(
            s,
            pre,
            end,
            post,
            SpecId::CONSTANTINOPLE,
            3,
            2,
            if laws::top(s, 0) < 256 {
                laws::top(s, 1) / pow2(laws::top(s, 0) as nat) as int
            } else {
                0
            },
        ),
{
    reveal(table::bitwise_effect);
    u256::lemma_val_of_word(0);
    if s.stack.len() >= 2 && laws::top(s, 0) < 256 {
        lemma_pow2_pos(laws::top(s, 0) as nat);
        lemma_quotient(laws::top(s, 1), pow2(laws::top(s, 0) as nat) as int);
        u256::lemma_val_of_word(laws::top(s, 1) / pow2(laws::top(s, 0) as nat) as int);
    }
}

/// `SAR` shifts a signed word down and rounds towards the smaller number; where no bit is
/// left, its sign is.
pub proof fn a_sar_keeps_the_sign<H: Host>(
    s: InterpreterState,
    pre: &H,
    end: InterpreterState,
    post: &H,
)
    requires
        laws::at(0x1d, s, pre, end, post),
    ensures
        laws::computed_from(
            s,
            pre,
            end,
            post,
            SpecId::CONSTANTINOPLE,
            3,
            2,
            ({
                let x = laws::signed(laws::top(s, 1));
                if laws::top(s, 0) < 256 {
                    (x / pow2(laws::top(s, 0) as nat) as int) % u256::word_count()
                } else if x < 0 {
                    u256::word_count() - 1
                } else {
                    0
                }
            }),
        ),
{
    reveal(table::bitwise_effect);
    u256::lemma_val_of_word(0);
    u256::lemma_val_of_word(-1);
    u256::lemma_val_of_word(laws::signed(laws::top(s, 1)) / pow2(laws::top(s, 0) as nat) as int);
}

/// `CLZ` leaves the number of zero bits before the first one: a number of `bits` bits is at
/// least `2^(bits - 1)` and below `2^bits`.
pub proof fn a_clz_counts_leading_zeros<H: Host>(
    s: InterpreterState,
    pre: &H,
    end: InterpreterState,
    post: &H,
    bits: nat,
)
    requires
        laws::at(0x1e, s, pre, end, post),
        bits <= 256,
        s.stack.len() >= 1 ==> laws::top(s, 0) < pow2(bits),
        s.stack.len() >= 1 && bits > 0 ==> pow2((bits - 1) as nat) <= laws::top(s, 0),
    ensures
        laws::computed_from(
            s,
            pre,
            end,
            post,
            SpecId::OSAKA,
            5,
            1,
            256 - bits,
        ),
{
    reveal(table::bitwise_effect);
    if s.stack.len() >= 1 {
        if bits > 0 {
            bits::lemma_bit_length(laws::top(s, 0), bits);
        } else {
            lemma2_to64();
            assert(bits::bit_length(laws::top(s, 0)) == 0);
        }
        u256::lemma_val_of_word(256 - bits);
    }
}

} // verus!
