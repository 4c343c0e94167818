//! Two's complement arithmetic on words.

use crate::primitives::bits;
use crate::primitives::u256;
use crate::primitives::u256::U256;
use vstd::arithmetic::div_mod::*;
use vstd::arithmetic::mul::*;
use vstd::arithmetic::power2::*;
use vstd::prelude::*;

verus! {

/// The absolute value of a number.
pub open spec fn magnitude(n: int) -> int {
    if n < 0 {
        -n
    } else {
        n
    }
}

/// Division of `a` by `b`, rounding towards zero.
pub open spec fn truncated_div(a: int, b: int) -> int {
    if (a < 0) == (b < 0) {
        magnitude(a) / magnitude(b)
    } else {
        -(magnitude(a) / magnitude(b))
    }
}

/// The remainder of [`truncated_div`]: it has the sign of `a`.
pub open spec fn truncated_rem(a: int, b: int) -> int {
    if a < 0 {
        -(magnitude(a) % magnitude(b))
    } else {
        magnitude(a) % magnitude(b)
    }
}

/// The negation of a word, modulo `2^256`.
pub fn two_compl(x: U256) -> (r: U256)
    ensures
        r == u256::word(-x.val()),
{
    U256::zero().wrapping_sub(x)
}

/// The absolute value of a word that is read as two's complement.
fn i256_magnitude(x: U256) -> (r: U256)
    ensures
        r.val() == magnitude(x.signed()),
{
    if x.is_negative() {
        let r = two_compl(x);
        proof {
            let m = u256::word_count();
            u256::lemma_val_of_word(-x.val());
            lemma_fundamental_div_mod_converse(-x.val(), m, -1, m - x.val());
        }
        r
    } else {
        x
    }
}

/// Signed division, rounding towards zero. The divisor zero gives zero, and the one quotient
/// that does not fit, `-2^255 / -1`, wraps around to `-2^255`.
pub fn i256_div(first: U256, second: U256) -> (r: U256)
    ensures
        r == u256::word(
            if second.val() == 0 {
                0
            } else {
                truncated_div(first.signed(), second.signed())
            },
        ),
{
    if second.is_zero() {
        return U256::zero();
    }
    let d = i256_magnitude(first).wrapping_div(i256_magnitude(second));
    if first.is_negative() != second.is_negative() {
        two_compl(d)
    } else {
        proof {
            u256::lemma_word_of_val(d);
        }
        d
    }
}

/// Signed remainder with the sign of the dividend. The divisor zero gives zero.
pub fn i256_mod(first: U256, second: U256) -> (r: U256)
    ensures
        r == u256::word(
            if second.val() == 0 {
                0
            } else {
                truncated_rem(first.signed(), second.signed())
            },
        ),
{
    if second.is_zero() {
        return U256::zero();
    }
    let d = i256_magnitude(first).wrapping_rem(i256_magnitude(second));
    if first.is_negative() {
        two_compl(d)
    } else {
        proof {
            u256::lemma_word_of_val(d);
        }
        d
    }
}

/// Whether `first` is below `second` when both are read as two's complement.
pub fn i256_less_than(first: &U256, second: &U256) -> (r: bool)
    ensures
        r == (first.signed() < second.signed()),
{
    let a = first.is_negative();
    let b = second.is_negative();
    proof {
        u256::lemma_val_bounds(*first);
        u256::lemma_val_bounds(*second);
    }
    if a != b {
        a
    } else {
        first.less_than(second)
    }
}

/// The number that the low `n` bits of `v` spell in two's complement.
pub open spec fn low_signed(v: int, n: nat) -> int
    recommends
        n > 0,
{
    let low = v % pow2(n) as int;
    if low < pow2((n - 1) as nat) {
        low
    } else {
        low - pow2(n)
    }
}

/// Sign extension of `x` from its byte `ext`, counted from the least significant; a word
/// already that long is left alone.
pub fn sign_extend(ext: &U256, x: &U256) -> (r: U256)
    ensures
        r == (if ext.val() < 31 {
            u256::word(low_signed(x.val(), (8 * ext.val() + 8) as nat))
        } else {
            *x
        }),
{
    let limit = U256::from_u64(31);
    if ext.less_than(&limit) {
        let n: usize = (8 * ext.l0 + 8) as usize;
        let k: usize = 256 - n;
        let y = bits::u256_shl(x, k);
        let r = y.arithmetic_shr(k);
        proof {
            assert(ext.l0 == ext.val());
            lemma_sign_extend(x.val(), n as nat, k as nat);
        }
        r
    } else {
        *x
    }
}

/// Shifting a word up and back down, copying the sign, keeps its low bits.
proof fn lemma_sign_extend(v: int, n: nat, k: nat)
    requires
        n + k == 256,
        0 < n < 256,
        0 <= v,
    ensures
        u256::word(v * pow2(k)).signed() / pow2(k) as int == low_signed(v, n),
{
    let pn = pow2(n) as int;
    let pk = pow2(k) as int;
    let m = u256::word_count();
    lemma_pow2_pos(n);
    lemma_pow2_pos(k);
    lemma_pow2_pos((n - 1) as nat);
    lemma_pow2_adds(n, k);
    lemma_pow2_unfold(n);
    bits::lemma_pow2_limbs();
    let low = v % pn;
    let q = v / pn;
    lemma_fundamental_div_mod(v, pn);
    lemma_mod_pos_bound(v, pn);
    assert(v * pk == q * m + low * pk) by (nonlinear_arith)
        requires
            v == pn * q + low,
            pn * pk == m,
    ;
    assert(0 <= low * pk < m) by (nonlinear_arith)
        requires
            0 <= low < pn,
            pn * pk == m,
            pk > 0,
    ;
    lemma_fundamental_div_mod_converse(v * pk, m, q, low * pk);
    u256::lemma_val_of_word(v * pk);
    let y = u256::word(v * pk);
    assert(y.val() == low * pk);
    let half = pow2((n - 1) as nat) as int;
    assert(half * pk == u256::sign_bound()) by (nonlinear_arith)
        requires
            pn == 2 * half,
            pn * pk == m,
            m == 2 * u256::sign_bound(),
    ;
    if low < half {
        assert(low * pk < half * pk) by (nonlinear_arith)
            requires
                low < half,
                pk > 0,
        ;
        lemma_div_by_multiple(low, pk);
    } else {
        assert(low * pk >= half * pk) by (nonlinear_arith)
            requires
                low >= half,
                pk > 0,
        ;
        assert(low * pk - m == (low - pn) * pk) by (nonlinear_arith)
            requires
                pn * pk == m,
        ;
        lemma_fundamental_div_mod_converse((low - pn) * pk, pk, low - pn, 0);
    }
}

} // verus!
