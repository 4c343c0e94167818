//! Shifts and bitwise operations on words.

use crate::primitives::u256;
use crate::primitives::u256::U256;
use vstd::arithmetic::div_mod::*;
use vstd::arithmetic::mul::*;
use vstd::arithmetic::power2::*;
use vstd::bits::*;
use vstd::prelude::*;

verus! {

/// `2^64`, `2^128`, `2^192` and `2^256` as powers of two.
pub proof fn lemma_pow2_limbs()
    ensures
        pow2(64) == u256::limb_radix(),
        pow2(128) == 0x1_0000_0000_0000_0000_0000_0000_0000_0000int,
        pow2(192) == 0x1_0000_0000_0000_0000_0000_0000_0000_0000_0000_0000_0000_0000int,
        pow2(256) == u256::word_count(),
{
    lemma2_to64_rest();
    lemma_pow2_adds(64, 64);
    lemma_pow2_adds(128, 64);
    lemma_pow2_adds(192, 64);
}

/// A left shift splits a limb into the part that stays and the part that moves up.
proof fn lemma_limb_shl(a: u64, b: u64)
    requires
        0 < b < 64,
    ensures
        a * pow2(b as nat) == (a >> ((64 - b) as u64)) * u256::limb_radix() + (a << b),
        (a >> ((64 - b) as u64)) < pow2(b as nat),
{
    let c: u64 = (64 - b) as u64;
    let q: u64 = a >> c;
    assert((a >> c) << c <= a) by (bit_vector);
    let m: u64 = (a - (q << c)) as u64;
    assert(m < (1u64 << c) && (a << b) == (m << b) && (a >> c) < (1u64 << b)) by (bit_vector)
        requires
            0 < b < 64,
            c == 64 - b,
            m == a - ((a >> c) << c),
    ;
    let pb = pow2(b as nat);
    let pc = pow2(c as nat);
    lemma_pow2_pos(b as nat);
    lemma_pow2_pos(c as nat);
    lemma_u64_pow2_no_overflow(b as nat);
    lemma_u64_pow2_no_overflow(c as nat);
    lemma_u64_shl_is_mul(1, b);
    lemma_u64_shl_is_mul(1, c);
    lemma_u64_shr_is_div(a, c);
    lemma_fundamental_div_mod(a as int, pc as int);
    lemma_mul_is_commutative(pc as int, q as int);
    lemma_u64_shl_is_mul(q, c);
    lemma_pow2_adds(c as nat, b as nat);
    lemma_pow2_limbs();
    assert(m * pb < pc * pb) by (nonlinear_arith)
        requires
            0 <= m < pc,
            pb > 0,
    ;
    lemma_u64_shl_is_mul(m, b);
    assert(a == q * pc + m);
    assert(a * pb == q * (pc * pb) + m * pb) by (nonlinear_arith)
        requires
            a == q * pc + m,
    ;
}

/// A right shift splits a limb into the part that stays and the part that moves down.
proof fn lemma_limb_shr(a: u64, b: u64) -> (low: int)
    requires
        0 < b < 64,
    ensures
        0 <= low < pow2(b as nat),
        a == (a >> b) * pow2(b as nat) + low,
        (a << ((64 - b) as u64)) == low * pow2((64 - b) as nat),
{
    let c: u64 = (64 - b) as u64;
    let q: u64 = a >> b;
    assert((a >> b) << b <= a) by (bit_vector);
    let m: u64 = (a - (q << b)) as u64;
    assert(m < (1u64 << b) && (a << c) == (m << c)) by (bit_vector)
        requires
            0 < b < 64,
            c == 64 - b,
            m == a - ((a >> b) << b),
    ;
    let pb = pow2(b as nat);
    let pc = pow2(c as nat);
    lemma_pow2_pos(b as nat);
    lemma_pow2_pos(c as nat);
    lemma_u64_pow2_no_overflow(b as nat);
    lemma_u64_shl_is_mul(1, b);
    lemma_u64_shr_is_div(a, b);
    lemma_fundamental_div_mod(a as int, pb as int);
    lemma_mul_is_commutative(pb as int, q as int);
    lemma_u64_shl_is_mul(q, b);
    lemma_pow2_adds(b as nat, c as nat);
    lemma_pow2_limbs();
    assert(m * pc < pb * pc) by (nonlinear_arith)
        requires
            0 <= m < pb,
            pc > 0,
    ;
    lemma_u64_shl_is_mul(m, c);
    m as int
}

/// Scaling a sum of four limbs.
proof fn lemma_scale_sum(x0: int, x1: int, x2: int, x3: int, p: int)
    ensures
        (x0 + x1 + x2 + x3) * p == x0 * p + x1 * p + x2 * p + x3 * p,
{
    lemma_mul_is_distributive_add_other_way(p, x0 + x1 + x2, x3);
    lemma_mul_is_distributive_add_other_way(p, x0 + x1, x2);
    lemma_mul_is_distributive_add_other_way(p, x0, x1);
}

/// Scaling one limb in its place.
proof fn lemma_scale_limb(x: int, r: int, p: int)
    ensures
        (x * r) * p == (x * p) * r,
{
    assert((x * r) * p == (x * p) * r) by (nonlinear_arith);
}

/// The two parts of a funnelled limb do not overlap.
proof fn lemma_funnel(x: u64, y: u64, b: u64, c: u64)
    requires
        0 < b < 64,
        c == 64 - b,
    ensures
        ((x << b) | (y >> c)) == (x << b) + (y >> c),
        ((x >> b) | (y << c)) == (x >> b) + (y << c),
{
    assert(((x << b) | (y >> c)) == (x << b) + (y >> c)) by (bit_vector)
        requires
            0 < b < 64,
            c == 64 - b,
    ;
    assert(((x >> b) | (y << c)) == (x >> b) + (y << c)) by (bit_vector)
        requires
            0 < b < 64,
            c == 64 - b,
    ;
}

/// The masks of the bit stage: an empty funnel for a shift by whole limbs.
proof fn lemma_funnel_mask(y: u64)
    ensures
        y & 0u64 == 0,
        y & 0xffff_ffff_ffff_ffffu64 == y,
        y << 0u64 == y,
        y >> 0u64 == y,
        y | 0u64 == y,
{
    assert(y & 0u64 == 0 && y & 0xffff_ffff_ffff_ffffu64 == y && y << 0u64 == y && y >> 0u64 == y
        && y | 0u64 == y) by (bit_vector);
}

/// Shifting by two amounts one after the other.
proof fn lemma_shl_compose(n: int, p: nat, q: nat)
    requires
        0 <= n,
    ensures
        u256::word(u256::word(n * pow2(p)).val() * pow2(q)) == u256::word(n * pow2(p + q)),
{
    let m = u256::word_count();
    u256::lemma_val_of_word(n * pow2(p));
    lemma_mul_mod_noop_left(n * pow2(p), pow2(q) as int, m);
    lemma_pow2_adds(p, q);
    lemma_mul_is_associative(n, pow2(p) as int, pow2(q) as int);
    u256::lemma_word_mod((n * pow2(p)) % m * pow2(q));
    u256::lemma_word_mod(n * pow2(p + q));
}

/// `x << shift` for a shift below 256: two stages of selects move whole limbs, then one
/// funnel stage moves bits.
pub fn u256_shl(x: &U256, shift: usize) -> (r: U256)
    requires
        shift < 256,
    ensures
        r == u256::word(x.val() * pow2(shift as nat)),
{
    let w: usize = shift / 64;
    let (b0, b1, b2, b3): (u64, u64, u64, u64) = if w >= 2 {
        (0, 0, x.l0, x.l1)
    } else {
        (x.l0, x.l1, x.l2, x.l3)
    };
    let (a0, a1, a2, a3): (u64, u64, u64, u64) = if w % 2 != 0 {
        (0, b0, b1, b2)
    } else {
        (b0, b1, b2, b3)
    };
    let b: u64 = (shift % 64) as u64;
    let c: u64 = (64 - b) % 64;
    let m: u64 = if b == 0 { 0 } else { 0xffff_ffff_ffff_ffff };
    let r = U256 {
        l0: a0 << b,
        l1: (a1 << b) | ((a0 >> c) & m),
        l2: (a2 << b) | ((a1 >> c) & m),
        l3: (a3 << b) | ((a2 >> c) & m),
    };
    proof {
        let a = U256 { l0: a0, l1: a1, l2: a2, l3: a3 };
        lemma_shl_limbs(*x, a, w as nat);
        if b == 0 {
            lemma_funnel_mask(a0);
            lemma_funnel_mask(a1);
            lemma_funnel_mask(a2);
            lemma_funnel_mask(a3);
            lemma_funnel_mask(a0 >> c);
            lemma_funnel_mask(a1 >> c);
            lemma_funnel_mask(a2 >> c);
            assert(r == a);
        } else {
            lemma_funnel_mask(a0 >> c);
            lemma_funnel_mask(a1 >> c);
            lemma_funnel_mask(a2 >> c);
            lemma_shl_bits(a, r, b);
            lemma_shl_compose(x.val(), (64 * w) as nat, b as nat);
        }
    }
    r
}

/// Moving limbs up multiplies by a power of the radix.
proof fn lemma_shl_limbs(x: U256, a: U256, w: nat)
    requires
        w < 4,
        w == 0 ==> a == x,
        w == 1 ==> a == (U256 { l0: 0, l1: x.l0, l2: x.l1, l3: x.l2 }),
        w == 2 ==> a == (U256 { l0: 0, l1: 0, l2: x.l0, l3: x.l1 }),
        w == 3 ==> a == (U256 { l0: 0, l1: 0, l2: 0, l3: x.l0 }),
    ensures
        a == u256::word(x.val() * pow2(64 * w)),
{
    lemma_pow2_limbs();
    lemma2_to64();
    let m = u256::word_count();
    let r = u256::limb_radix();
    let p = pow2(64 * w) as int;
    let k: int = if w == 0 {
        0
    } else if w == 1 {
        x.l3 as int
    } else if w == 2 {
        x.l2 + x.l3 * r
    } else {
        x.l1 + x.l2 * r + x.l3 * 0x1_0000_0000_0000_0000_0000_0000_0000_0000int
    };
    let v = x.val();
    if w == 0 {
        assert(v * p == v) by (nonlinear_arith)
            requires
                p == 1,
        ;
    } else if w == 1 {
        assert(v * p == v * 0x1_0000_0000_0000_0000int) by (nonlinear_arith)
            requires
                p == 0x1_0000_0000_0000_0000int,
        ;
    } else if w == 2 {
        assert(v * p == v * 0x1_0000_0000_0000_0000_0000_0000_0000_0000int) by (nonlinear_arith)
            requires
                p == 0x1_0000_0000_0000_0000_0000_0000_0000_0000int,
        ;
    } else {
        assert(v * p == v * 0x1_0000_0000_0000_0000_0000_0000_0000_0000_0000_0000_0000_0000int)
            by (nonlinear_arith)
            requires
                p == 0x1_0000_0000_0000_0000_0000_0000_0000_0000_0000_0000_0000_0000int,
        ;
    }
    assert(v * p == k * m + a.val());
    lemma_fundamental_div_mod_converse(v * p, m, k, a.val());
    u256::lemma_word_mod(v * p);
    u256::lemma_word_of_val(a);
}

/// Moving bits up, with each limb's overflow funnelled into the next.
proof fn lemma_shl_bits(a: U256, r: U256, b: u64)
    requires
        0 < b < 64,
        r.l0 == a.l0 << b,
        r.l1 == ((a.l1 << b) | (a.l0 >> ((64 - b) as u64))),
        r.l2 == ((a.l2 << b) | (a.l1 >> ((64 - b) as u64))),
        r.l3 == ((a.l3 << b) | (a.l2 >> ((64 - b) as u64))),
    ensures
        r == u256::word(a.val() * pow2(b as nat)),
{
    let c: u64 = (64 - b) as u64;
    let p = pow2(b as nat) as int;
    lemma_limb_shl(a.l0, b);
    lemma_limb_shl(a.l1, b);
    lemma_limb_shl(a.l2, b);
    lemma_limb_shl(a.l3, b);
    lemma_funnel(a.l1, a.l0, b, c);
    lemma_funnel(a.l2, a.l1, b, c);
    lemma_funnel(a.l3, a.l2, b, c);
    let r1 = u256::limb_radix();
    let r2 = 0x1_0000_0000_0000_0000_0000_0000_0000_0000int;
    let r3 = 0x1_0000_0000_0000_0000_0000_0000_0000_0000_0000_0000_0000_0000int;
    let (x0, x1, x2, x3) = (a.l0 as int, a.l1 as int, a.l2 as int, a.l3 as int);
    lemma_scale_sum(x0, x1 * r1, x2 * r2, x3 * r3, p);
    lemma_scale_limb(x1, r1, p);
    lemma_scale_limb(x2, r2, p);
    lemma_scale_limb(x3, r3, p);
    let k = (a.l3 >> c) as int;
    assert(a.val() * p == k * u256::word_count() + r.val());
    lemma_fundamental_div_mod_converse(a.val() * p, u256::word_count(), k, r.val());
    u256::lemma_word_mod(a.val() * p);
    u256::lemma_word_of_val(r);
}

/// `x >> shift` for a shift below 256. See [`u256_shl`].
pub fn u256_shr(x: &U256, shift: usize) -> (r: U256)
    requires
        shift < 256,
    ensures
        r == u256::word(x.val() / pow2(shift as nat) as int),
        r.val() == x.val() / pow2(shift as nat) as int,
{
    let w: usize = shift / 64;
    let (b0, b1, b2, b3): (u64, u64, u64, u64) = if w >= 2 {
        (x.l2, x.l3, 0, 0)
    } else {
        (x.l0, x.l1, x.l2, x.l3)
    };
    let (a0, a1, a2, a3): (u64, u64, u64, u64) = if w % 2 != 0 {
        (b1, b2, b3, 0)
    } else {
        (b0, b1, b2, b3)
    };
    let b: u64 = (shift % 64) as u64;
    let c: u64 = (64 - b) % 64;
    let m: u64 = if b == 0 { 0 } else { 0xffff_ffff_ffff_ffff };
    let r = U256 {
        l0: (a0 >> b) | ((a1 << c) & m),
        l1: (a1 >> b) | ((a2 << c) & m),
        l2: (a2 >> b) | ((a3 << c) & m),
        l3: a3 >> b,
    };
    proof {
        let a = U256 { l0: a0, l1: a1, l2: a2, l3: a3 };
        lemma_shr_limbs(*x, a, w as nat);
        if b == 0 {
            lemma_funnel_mask(a0);
            lemma_funnel_mask(a1);
            lemma_funnel_mask(a2);
            lemma_funnel_mask(a3);
            lemma_funnel_mask(a1 << c);
            lemma_funnel_mask(a2 << c);
            lemma_funnel_mask(a3 << c);
            assert(r == a);
        } else {
            lemma_funnel_mask(a1 << c);
            lemma_funnel_mask(a2 << c);
            lemma_funnel_mask(a3 << c);
            lemma_shr_bits(a, r, b);
            lemma_pow2_pos((64 * w) as nat);
            lemma_pow2_pos(b as nat);
            lemma_pow2_adds((64 * w) as nat, b as nat);
            lemma_div_denominator(x.val(), pow2((64 * w) as nat) as int, pow2(b as nat) as int);
        }
        u256::lemma_word_of_val(r);
    }
    r
}

/// Moving limbs down divides by a power of the radix.
proof fn lemma_shr_limbs(x: U256, a: U256, w: nat)
    requires
        w < 4,
        w == 0 ==> a == x,
        w == 1 ==> a == (U256 { l0: x.l1, l1: x.l2, l2: x.l3, l3: 0 }),
        w == 2 ==> a == (U256 { l0: x.l2, l1: x.l3, l2: 0, l3: 0 }),
        w == 3 ==> a == (U256 { l0: x.l3, l1: 0, l2: 0, l3: 0 }),
    ensures
        a.val() == x.val() / pow2(64 * w) as int,
{
    lemma_pow2_limbs();
    lemma2_to64();
    let r = u256::limb_radix();
    let low: int = if w == 0 {
        0
    } else if w == 1 {
        x.l0 as int
    } else if w == 2 {
        x.l0 + x.l1 * r
    } else {
        x.l0 + x.l1 * r + x.l2 * 0x1_0000_0000_0000_0000_0000_0000_0000_0000int
    };
    if w == 0 {
        lemma_fundamental_div_mod_converse(x.val(), 1, a.val(), low);
    } else if w == 1 {
        lemma_fundamental_div_mod_converse(x.val(), 0x1_0000_0000_0000_0000int, a.val(), low);
    } else if w == 2 {
        lemma_fundamental_div_mod_converse(
            x.val(),
            0x1_0000_0000_0000_0000_0000_0000_0000_0000int,
            a.val(),
            low,
        );
    } else {
        lemma_fundamental_div_mod_converse(
            x.val(),
            0x1_0000_0000_0000_0000_0000_0000_0000_0000_0000_0000_0000_0000int,
            a.val(),
            low,
        );
    }
}

/// Scaling a limb together with the bits funnelled into it.
proof fn lemma_scale_carry(q: int, m: int, s: int, p: int)
    requires
        p * s == u256::limb_radix(),
    ensures
        (q + m * s) * p == q * p + m * u256::limb_radix(),
{
    let r = u256::limb_radix();
    assert((q + m * s) * p == q * p + m * r) by (nonlinear_arith)
        requires
            p * s == r,
    ;
}

/// Moving bits down, with each limb's low bits funnelled into the one below.
proof fn lemma_shr_bits(a: U256, r: U256, b: u64)
    requires
        0 < b < 64,
        r.l0 == ((a.l0 >> b) | (a.l1 << ((64 - b) as u64))),
        r.l1 == ((a.l1 >> b) | (a.l2 << ((64 - b) as u64))),
        r.l2 == ((a.l2 >> b) | (a.l3 << ((64 - b) as u64))),
        r.l3 == a.l3 >> b,
    ensures
        r.val() == a.val() / pow2(b as nat) as int,
{
    let c: u64 = (64 - b) as u64;
    let p = pow2(b as nat) as int;
    let s = pow2(c as nat) as int;
    let m0 = lemma_limb_shr(a.l0, b);
    let m1 = lemma_limb_shr(a.l1, b);
    let m2 = lemma_limb_shr(a.l2, b);
    let m3 = lemma_limb_shr(a.l3, b);
    lemma_funnel(a.l0, a.l1, b, c);
    lemma_funnel(a.l1, a.l2, b, c);
    lemma_funnel(a.l2, a.l3, b, c);
    lemma_pow2_adds(b as nat, c as nat);
    lemma_pow2_limbs();
    let r1 = u256::limb_radix();
    let r2 = 0x1_0000_0000_0000_0000_0000_0000_0000_0000int;
    let r3 = 0x1_0000_0000_0000_0000_0000_0000_0000_0000_0000_0000_0000_0000int;
    let (q0, q1, q2, q3) = (
        (a.l0 >> b) as int,
        (a.l1 >> b) as int,
        (a.l2 >> b) as int,
        (a.l3 >> b) as int,
    );
    let (t0, t1, t2) = (q0 + m1 * s, q1 + m2 * s, q2 + m3 * s);
    assert(r.val() == t0 + t1 * r1 + t2 * r2 + q3 * r3);
    lemma_scale_sum(t0, t1 * r1, t2 * r2, q3 * r3, p);
    lemma_scale_limb(t1, r1, p);
    lemma_scale_limb(t2, r2, p);
    lemma_scale_limb(q3, r3, p);
    lemma_scale_carry(q0, m1, s, p);
    lemma_scale_carry(q1, m2, s, p);
    lemma_scale_carry(q2, m3, s, p);
    assert(a.val() == r.val() * p + m0);
    lemma_pow2_pos(b as nat);
    lemma_fundamental_div_mod_converse(a.val(), p, r.val(), m0);
}

impl U256 {
    /// The bitwise conjunction of two words.
    pub open spec fn spec_and(self, other: U256) -> U256 {
        U256 {
            l0: self.l0 & other.l0,
            l1: self.l1 & other.l1,
            l2: self.l2 & other.l2,
            l3: self.l3 & other.l3,
        }
    }

    /// The bitwise disjunction of two words.
    pub open spec fn spec_or(self, other: U256) -> U256 {
        U256 {
            l0: self.l0 | other.l0,
            l1: self.l1 | other.l1,
            l2: self.l2 | other.l2,
            l3: self.l3 | other.l3,
        }
    }

    /// The bitwise exclusive disjunction of two words.
    pub open spec fn spec_xor(self, other: U256) -> U256 {
        U256 {
            l0: self.l0 ^ other.l0,
            l1: self.l1 ^ other.l1,
            l2: self.l2 ^ other.l2,
            l3: self.l3 ^ other.l3,
        }
    }

    /// `self & other`.
    pub fn and(self, other: U256) -> (r: U256)
        ensures
            r == self.spec_and(other),
    {
        U256 {
            l0: self.l0 & other.l0,
            l1: self.l1 & other.l1,
            l2: self.l2 & other.l2,
            l3: self.l3 & other.l3,
        }
    }

    /// `self | other`.
    pub fn or(self, other: U256) -> (r: U256)
        ensures
            r == self.spec_or(other),
    {
        U256 {
            l0: self.l0 | other.l0,
            l1: self.l1 | other.l1,
            l2: self.l2 | other.l2,
            l3: self.l3 | other.l3,
        }
    }

    /// `self ^ other`.
    pub fn xor(self, other: U256) -> (r: U256)
        ensures
            r == self.spec_xor(other),
    {
        U256 {
            l0: self.l0 ^ other.l0,
            l1: self.l1 ^ other.l1,
            l2: self.l2 ^ other.l2,
            l3: self.l3 ^ other.l3,
        }
    }

    /// The complement of a word: every bit flipped.
    pub fn not(self) -> (r: U256)
        ensures
            r == u256::word(u256::word_count() - 1 - self.val()),
    {
        let r = U256 { l0: !self.l0, l1: !self.l1, l2: !self.l2, l3: !self.l3 };
        proof {
            lemma_limb_not(self.l0);
            lemma_limb_not(self.l1);
            lemma_limb_not(self.l2);
            lemma_limb_not(self.l3);
            u256::lemma_word_of_val(r);
        }
        r
    }
}

/// The complement of a limb.
proof fn lemma_limb_not(a: u64)
    ensures
        !a == 0xffff_ffff_ffff_ffff - a,
{
    assert(!a == 0xffff_ffff_ffff_ffff - a) by (bit_vector);
}

/// The number of bits that it takes to write `n`.
pub open spec fn bit_length(n: int) -> nat
    decreases n,
{
    if n <= 0 {
        0
    } else {
        1 + bit_length(n / 2)
    }
}

/// A number between two neighbouring powers of two has the length of the upper one.
pub proof fn lemma_bit_length(n: int, k: nat)
    requires
        k > 0,
        pow2((k - 1) as nat) <= n < pow2(k),
    ensures
        bit_length(n) == k,
    decreases k,
{
    lemma2_to64();
    if k == 1 {
        assert(bit_length(n / 2) == 0);
    } else {
        let j = (k - 1) as nat;
        lemma_pow2_unfold(k);
        lemma_pow2_unfold(j);
        lemma_pow2_pos((j - 1) as nat);
        lemma_bit_length(n / 2, j);
    }
}

/// The least significant byte of a word is that of its lowest limb.
proof fn lemma_low_byte(x: U256)
    ensures
        x.l0 as u8 == x.val() % 256,
{
    let l0 = x.l0;
    assert(l0 as u8 == l0 % 256) by (bit_vector);
    let above = x.l1 * 0x100_0000_0000_0000int + x.l2
        * 0x100_0000_0000_0000_0000_0000_0000_0000int + x.l3
        * 0x100_0000_0000_0000_0000_0000_0000_0000_0000_0000_0000_0000int;
    assert(x.val() == 256 * above + l0);
    lemma_mod_multiples_vanish(above, l0 as int, 256);
}

impl U256 {
    /// The number of zero bits above the topmost bit that is set.
    pub open spec fn spec_leading_zeros(self) -> int {
        256 - bit_length(self.val())
    }

    /// The byte at an index that counts from the least significant one.
    pub open spec fn spec_byte(self, index: nat) -> int {
        (self.val() / pow2(8 * index) as int) % 256
    }

    /// The byte at an index that counts from the least significant one.
    pub fn byte(&self, index: usize) -> (r: u8)
        requires
            index < 32,
        ensures
            r == self.spec_byte(index as nat),
    {
        let shifted = u256_shr(self, 8 * index);
        proof {
            lemma_low_byte(shifted);
        }
        shifted.l0 as u8
    }

    /// The number of zero bits above the topmost bit that is set.
    pub fn count_leading_zeros(self) -> (r: usize)
        ensures
            r == self.spec_leading_zeros(),
            r <= 256,
    {
        let r: usize = self.leading_zeros();
        proof {
            u256::lemma_val_bounds(self);
            lemma2_to64();
            if r < 256 {
                lemma_bit_length(self.val(), (256 - r) as nat);
            } else {
                assert(self.val() == 0);
            }
        }
        r
    }
}

} // verus!
