//! 256-bit words, held as four little-endian 64-bit limbs.

use ruint::Uint;
use vstd::arithmetic::div_mod::*;
use vstd::arithmetic::power::pow;
use vstd::arithmetic::power2::pow2;
use vstd::prelude::*;

verus! {

/// The radix of a limb, `2^64`.
pub open spec fn limb_radix() -> int {
    0x1_0000_0000_0000_0000int
}

/// The number of distinct words, `2^256`.
pub open spec fn word_count() -> int {
    0x1_0000_0000_0000_0000_0000_0000_0000_0000_0000_0000_0000_0000_0000_0000_0000_0000int
}

/// Half of [`word_count`]: the first word that is negative when read as two's complement.
pub open spec fn sign_bound() -> int {
    0x8000_0000_0000_0000_0000_0000_0000_0000_0000_0000_0000_0000_0000_0000_0000_0000int
}

/// A 256-bit unsigned word. Limb 0 is the least significant.
#[derive(Clone, Copy, Debug, PartialEq, Eq, Structural, Hash)]
pub struct U256 {
    pub l0: u64,
    pub l1: u64,
    pub l2: u64,
    pub l3: u64,
}

/// The word that represents `n` modulo `2^256`.
pub open spec fn word(n: int) -> U256 {
    U256 {
        l0: (n % limb_radix()) as u64,
        l1: ((n / limb_radix()) % limb_radix()) as u64,
        l2: ((n / 0x1_0000_0000_0000_0000_0000_0000_0000_0000int) % limb_radix()) as u64,
        l3: ((n / 0x1_0000_0000_0000_0000_0000_0000_0000_0000_0000_0000_0000_0000int)
            % limb_radix()) as u64,
    }
}

impl U256 {
    /// The number this word represents, in `0 .. 2^256`.
    pub open spec fn val(self) -> int {
        self.l0 + self.l1 * limb_radix()
            + self.l2 * 0x1_0000_0000_0000_0000_0000_0000_0000_0000int
            + self.l3 * 0x1_0000_0000_0000_0000_0000_0000_0000_0000_0000_0000_0000_0000int
    }

    /// The number this word represents when it is read as two's complement.
    pub open spec fn signed(self) -> int {
        if self.val() < sign_bound() {
            self.val()
        } else {
            self.val() - word_count()
        }
    }
}

/// A word's value is below `2^256`.
pub proof fn lemma_val_bounds(x: U256)
    ensures
        0 <= x.val() < word_count(),
{
}

/// Every word is the representation of its own value.
pub proof fn lemma_word_of_val(x: U256)
    ensures
        word(x.val()) == x,
{
    let r = limb_radix();
    let n = x.val();
    let q3 = x.l3 as int;
    let q2 = x.l2 + q3 * r;
    let q1 = x.l1 + q2 * r;
    lemma_fundamental_div_mod_converse(n, r, q1, x.l0 as int);
    lemma_fundamental_div_mod_converse(q1, r, q2, x.l1 as int);
    lemma_fundamental_div_mod_converse(q2, r, q3, x.l2 as int);
    lemma_fundamental_div_mod_converse(
        n,
        0x1_0000_0000_0000_0000_0000_0000_0000_0000int,
        q2,
        x.l0 + x.l1 * r,
    );
    lemma_fundamental_div_mod_converse(
        n,
        0x1_0000_0000_0000_0000_0000_0000_0000_0000_0000_0000_0000_0000int,
        q3,
        x.l0 + x.l1 * r + x.l2 * 0x1_0000_0000_0000_0000_0000_0000_0000_0000int,
    );
    lemma_small_mod(x.l3 as nat, r as nat);
}

/// The representation of a number has that number's value, modulo `2^256`.
pub proof fn lemma_val_of_word(n: int)
    ensures
        word(n).val() == n % word_count(),
{
    let r = limb_radix();
    let q1 = n / r;
    let q2 = n / 0x1_0000_0000_0000_0000_0000_0000_0000_0000int;
    let q3 = n / 0x1_0000_0000_0000_0000_0000_0000_0000_0000_0000_0000_0000_0000int;
    let q4 = n / word_count();
    assert(q2 == q1 / r);
    assert(q3 == q2 / r);
    assert(q4 == q3 / r);
}

/// Two words with the same value are the same word.
pub proof fn lemma_val_injective(x: U256, y: U256)
    requires
        x.val() == y.val(),
    ensures
        x == y,
{
    lemma_word_of_val(x);
    lemma_word_of_val(y);
}

/// The least non-negative number below `2^256` congruent to `n` has the same representation.
pub proof fn lemma_word_mod(n: int)
    ensures
        word(n % word_count()) == word(n),
{
    lemma_val_of_word(n);
    lemma_word_of_val(word(n));
}

impl U256 {
    /// The word one or zero.
    pub fn from_bool(b: bool) -> (r: U256)
        ensures
            r == word(if b {
                1
            } else {
                0
            }),
    {
        if b {
            U256::one()
        } else {
            U256::zero()
        }
    }

    /// The word zero.
    pub fn zero() -> (r: U256)
        ensures
            r == word(0),
            r.val() == 0,
    {
        U256::from_u64(0)
    }

    /// The word one.
    pub fn one() -> (r: U256)
        ensures
            r == word(1),
            r.val() == 1,
    {
        U256::from_u64(1)
    }

    /// The largest word, `2^256 - 1`.
    pub fn max_value() -> (r: U256)
        ensures
            r == word(-1),
            r.val() == word_count() - 1,
    {
        let r = U256 { l0: u64::MAX, l1: u64::MAX, l2: u64::MAX, l3: u64::MAX };
        proof {
            lemma_word_of_val(r);
            lemma_word_mod(-1);
        }
        r
    }

    /// Builds a word from its limbs, least significant first.
    pub fn from_limbs(limbs: [u64; 4]) -> (r: U256)
        ensures
            r == (U256 { l0: limbs[0], l1: limbs[1], l2: limbs[2], l3: limbs[3] }),
    {
        U256 { l0: limbs[0], l1: limbs[1], l2: limbs[2], l3: limbs[3] }
    }

    /// The limbs of a word, least significant first.
    pub fn as_limbs(&self) -> (r: [u64; 4])
        ensures
            r@ == seq![self.l0, self.l1, self.l2, self.l3],
    {
        [self.l0, self.l1, self.l2, self.l3]
    }

    /// The word with the value of `n`.
    pub fn from_u64(n: u64) -> (r: U256)
        ensures
            r == (U256 { l0: n, l1: 0, l2: 0, l3: 0 }),
            r == word(n as int),
            r.val() == n,
    {
        let r = U256 { l0: n, l1: 0, l2: 0, l3: 0 };
        proof {
            lemma_word_of_val(r);
        }
        r
    }

    /// Whether the word is zero.
    pub fn is_zero(&self) -> (r: bool)
        ensures
            r == (self.val() == 0),
            r == (*self == word(0)),
    {
        proof {
            lemma_word_of_val(*self);
            lemma_val_of_word(0);
        }
        self.l0 == 0 && self.l1 == 0 && self.l2 == 0 && self.l3 == 0
    }

    /// Whether two words are equal.
    pub fn same(&self, other: &U256) -> (r: bool)
        ensures
            r == (*self == *other),
            r == (self.val() == other.val()),
    {
        proof {
            if self.val() == other.val() {
                lemma_val_injective(*self, *other);
            }
        }
        self.l0 == other.l0 && self.l1 == other.l1 && self.l2 == other.l2 && self.l3 == other.l3
    }

    /// Whether the number `self` is below the number `other`.
    pub fn less_than(&self, other: &U256) -> (r: bool)
        ensures
            r == (self.val() < other.val()),
    {
        if self.l3 != other.l3 {
            self.l3 < other.l3
        } else if self.l2 != other.l2 {
            self.l2 < other.l2
        } else if self.l1 != other.l1 {
            self.l1 < other.l1
        } else {
            self.l0 < other.l0
        }
    }

    /// Whether the word is negative when it is read as two's complement.
    pub fn is_negative(&self) -> (r: bool)
        ensures
            r == (self.signed() < 0),
            r == (self.val() >= sign_bound()),
    {
        self.l3 >= 0x8000_0000_0000_0000
    }

    /// The word as a `u64`, or `u64::MAX` if it is too large.
    pub fn as_u64_saturated(&self) -> (r: u64)
        ensures
            r == (if self.val() <= u64::MAX { self.val() } else { u64::MAX as int }),
    {
        if self.l1 == 0 && self.l2 == 0 && self.l3 == 0 {
            self.l0
        } else {
            u64::MAX
        }
    }

    /// The word as a `usize`, or `usize::MAX` if it is too large.
    pub fn as_usize_saturated(&self) -> (r: usize)
        ensures
            r == (if self.val() <= usize::MAX { self.val() } else { usize::MAX as int }),
    {
        let n: u64 = self.as_u64_saturated();
        if n > usize::MAX as u64 {
            usize::MAX
        } else {
            n as usize
        }
    }

    /// The word as a `usize`, if it fits.
    pub fn try_usize(&self) -> (r: Option<usize>)
        ensures
            r == self.spec_usize(),
    {
        if self.l0 > usize::MAX as u64 || self.l1 != 0 || self.l2 != 0 || self.l3 != 0 {
            None
        } else {
            Some(self.l0 as usize)
        }
    }

    /// The word as a `usize`, if it fits.
    pub open spec fn spec_usize(self) -> Option<usize> {
        if self.val() <= usize::MAX {
            Some(self.val() as usize)
        } else {
            None
        }
    }

    /// `self + rhs` modulo `2^256`.
    pub fn wrapping_add(self, rhs: U256) -> (r: U256)
        ensures
            r == word(self.val() + rhs.val()),
    {
        let r = ruint_wrapping_add(self, rhs);
        proof {
            lemma_word_of_val(r);
            lemma_word_mod(self.val() + rhs.val());
        }
        r
    }

    /// `self - rhs` modulo `2^256`.
    pub fn wrapping_sub(self, rhs: U256) -> (r: U256)
        ensures
            r == word(self.val() - rhs.val()),
    {
        let r = ruint_wrapping_sub(self, rhs);
        proof {
            lemma_word_of_val(r);
            lemma_word_mod(self.val() - rhs.val());
        }
        r
    }

    /// `self * rhs` modulo `2^256`.
    pub fn wrapping_mul(self, rhs: U256) -> (r: U256)
        ensures
            r == word(self.val() * rhs.val()),
    {
        let r = ruint_wrapping_mul(self, rhs);
        proof {
            lemma_word_of_val(r);
            lemma_word_mod(self.val() * rhs.val());
        }
        r
    }

    /// `self / rhs`, rounding down.
    pub fn wrapping_div(self, rhs: U256) -> (r: U256)
        requires
            rhs.val() != 0,
        ensures
            r == word(self.val() / rhs.val()),
            r.val() == self.val() / rhs.val(),
    {
        let r = ruint_wrapping_div(self, rhs);
        proof {
            lemma_word_of_val(r);
        }
        r
    }

    /// `self % rhs`.
    pub fn wrapping_rem(self, rhs: U256) -> (r: U256)
        requires
            rhs.val() != 0,
        ensures
            r == word(self.val() % rhs.val()),
            r.val() == self.val() % rhs.val(),
    {
        let r = ruint_wrapping_rem(self, rhs);
        proof {
            lemma_word_of_val(r);
        }
        r
    }

    /// `(self + rhs) % modulus`, and zero for a zero modulus.
    pub fn add_mod(self, rhs: U256, modulus: U256) -> (r: U256)
        ensures
            r == word(
                if modulus.val() == 0 {
                    0
                } else {
                    (self.val() + rhs.val()) % modulus.val()
                },
            ),
    {
        let r = ruint_add_mod(self, rhs, modulus);
        proof {
            lemma_word_of_val(r);
        }
        r
    }

    /// `(self * rhs) % modulus`, and zero for a zero modulus.
    pub fn mul_mod(self, rhs: U256, modulus: U256) -> (r: U256)
        ensures
            r == word(
                if modulus.val() == 0 {
                    0
                } else {
                    (self.val() * rhs.val()) % modulus.val()
                },
            ),
    {
        let r = ruint_mul_mod(self, rhs, modulus);
        proof {
            lemma_word_of_val(r);
        }
        r
    }

    /// `self` to the power of `exp`, modulo `2^256`.
    pub fn pow(self, exp: U256) -> (r: U256)
        ensures
            r == word(pow(self.val(), exp.val() as nat)),
    {
        let r = ruint_pow(self, exp);
        proof {
            lemma_word_of_val(r);
            lemma_word_mod(pow(self.val(), exp.val() as nat));
        }
        r
    }

    /// `self + rhs`, or `None` if the sum is not a word.
    pub fn checked_add(self, rhs: U256) -> (r: Option<U256>)
        ensures
            r == (if self.val() + rhs.val() < word_count() {
                Some(word(self.val() + rhs.val()))
            } else {
                None
            }),
    {
        let r = ruint_checked_add(self, rhs);
        proof {
            if r is Some {
                lemma_word_of_val(r->0);
            }
        }
        r
    }

    /// `self - rhs`, or `None` if the difference is negative.
    pub fn checked_sub(self, rhs: U256) -> (r: Option<U256>)
        ensures
            r == (if self.val() >= rhs.val() {
                Some(word(self.val() - rhs.val()))
            } else {
                None
            }),
    {
        let r = ruint_checked_sub(self, rhs);
        proof {
            if r is Some {
                lemma_word_of_val(r->0);
            }
        }
        r
    }

    /// `self` shifted right by `shift` bits, filling with copies of the sign bit: the signed
    /// value divided by `2^shift`, rounding down.
    pub fn arithmetic_shr(self, shift: usize) -> (r: U256)
        requires
            shift < 256,
        ensures
            r == word(self.signed() / pow2(shift as nat) as int),
    {
        let r = ruint_arithmetic_shr(self, shift);
        proof {
            lemma_word_of_val(r);
            lemma_word_mod(self.signed() / pow2(shift as nat) as int);
        }
        r
    }

    /// The number of zero bits above the most significant one bit; 256 for zero.
    pub fn leading_zeros(self) -> (r: usize)
        ensures
            r <= 256,
            self.val() < pow2((256 - r) as nat),
            r < 256 ==> self.val() >= pow2((255 - r) as nat),
    {
        ruint_leading_zeros(self)
    }
}

/// `Uint::wrapping_add` of `ruint`: the sum modulo `2^256`.
#[verifier::external_body]
fn ruint_wrapping_add(a: U256, b: U256) -> (r: U256)
    ensures
        r.val() == (a.val() + b.val()) % word_count(),
{
    let x = Uint::<256, 4>::from_limbs(a.as_limbs());
    let y = Uint::<256, 4>::from_limbs(b.as_limbs());
    U256::from_limbs(x.wrapping_add(y).into_limbs())
}

/// `Uint::wrapping_sub` of `ruint`: the difference modulo `2^256`.
#[verifier::external_body]
fn ruint_wrapping_sub(a: U256, b: U256) -> (r: U256)
    ensures
        r.val() == (a.val() - b.val()) % word_count(),
{
    let x = Uint::<256, 4>::from_limbs(a.as_limbs());
    let y = Uint::<256, 4>::from_limbs(b.as_limbs());
    U256::from_limbs(x.wrapping_sub(y).into_limbs())
}

/// `Uint::wrapping_mul` of `ruint`: the product modulo `2^256`.
#[verifier::external_body]
fn ruint_wrapping_mul(a: U256, b: U256) -> (r: U256)
    ensures
        r.val() == (a.val() * b.val()) % word_count(),
{
    let x = Uint::<256, 4>::from_limbs(a.as_limbs());
    let y = Uint::<256, 4>::from_limbs(b.as_limbs());
    U256::from_limbs(x.wrapping_mul(y).into_limbs())
}

/// `Uint::wrapping_div` of `ruint`: the quotient rounded down. It panics on a zero divisor.
#[verifier::external_body]
fn ruint_wrapping_div(a: U256, b: U256) -> (r: U256)
    requires
        b.val() != 0,
    ensures
        r.val() == a.val() / b.val(),
{
    let x = Uint::<256, 4>::from_limbs(a.as_limbs());
    let y = Uint::<256, 4>::from_limbs(b.as_limbs());
    U256::from_limbs(x.wrapping_div(y).into_limbs())
}

/// `Uint::wrapping_rem` of `ruint`: the remainder. It panics on a zero divisor.
#[verifier::external_body]
fn ruint_wrapping_rem(a: U256, b: U256) -> (r: U256)
    requires
        b.val() != 0,
    ensures
        r.val() == a.val() % b.val(),
{
    let x = Uint::<256, 4>::from_limbs(a.as_limbs());
    let y = Uint::<256, 4>::from_limbs(b.as_limbs());
    U256::from_limbs(x.wrapping_rem(y).into_limbs())
}

/// `Uint::add_mod` of `ruint`: the sum, not wrapped, reduced by the modulus; zero for a zero
/// modulus.
#[verifier::external_body]
fn ruint_add_mod(a: U256, b: U256, m: U256) -> (r: U256)
    ensures
        r.val() == (if m.val() == 0 {
            0
        } else {
            (a.val() + b.val()) % m.val()
        }),
{
    let x = Uint::<256, 4>::from_limbs(a.as_limbs());
    let y = Uint::<256, 4>::from_limbs(b.as_limbs());
    let z = Uint::<256, 4>::from_limbs(m.as_limbs());
    U256::from_limbs(x.add_mod(y, z).into_limbs())
}

/// `Uint::mul_mod` of `ruint`: the product, not wrapped, reduced by the modulus; zero for a
/// zero modulus.
#[verifier::external_body]
fn ruint_mul_mod(a: U256, b: U256, m: U256) -> (r: U256)
    ensures
        r.val() == (if m.val() == 0 {
            0
        } else {
            (a.val() * b.val()) % m.val()
        }),
{
    let x = Uint::<256, 4>::from_limbs(a.as_limbs());
    let y = Uint::<256, 4>::from_limbs(b.as_limbs());
    let z = Uint::<256, 4>::from_limbs(m.as_limbs());
    U256::from_limbs(x.mul_mod(y, z).into_limbs())
}

/// `Uint::pow` of `ruint`: the power modulo `2^256`, with `0^0 == 1`.
#[verifier::external_body]
fn ruint_pow(a: U256, e: U256) -> (r: U256)
    ensures
        r.val() == pow(a.val(), e.val() as nat) % word_count(),
{
    let x = Uint::<256, 4>::from_limbs(a.as_limbs());
    let y = Uint::<256, 4>::from_limbs(e.as_limbs());
    U256::from_limbs(x.pow(y).into_limbs())
}

/// `Uint::checked_add` of `ruint`: the sum, or `None` where it would not fit 256 bits.
#[verifier::external_body]
fn ruint_checked_add(a: U256, b: U256) -> (r: Option<U256>)
    ensures
        r is Some <==> a.val() + b.val() < word_count(),
        r is Some ==> r->0.val() == a.val() + b.val(),
{
    let x = Uint::<256, 4>::from_limbs(a.as_limbs());
    let y = Uint::<256, 4>::from_limbs(b.as_limbs());
    x.checked_add(y).map(|z| U256::from_limbs(z.into_limbs()))
}

/// `Uint::checked_sub` of `ruint`: the difference, or `None` where it would be negative.
#[verifier::external_body]
fn ruint_checked_sub(a: U256, b: U256) -> (r: Option<U256>)
    ensures
        r is Some <==> a.val() >= b.val(),
        r is Some ==> r->0.val() == a.val() - b.val(),
{
    let x = Uint::<256, 4>::from_limbs(a.as_limbs());
    let y = Uint::<256, 4>::from_limbs(b.as_limbs());
    x.checked_sub(y).map(|z| U256::from_limbs(z.into_limbs()))
}

/// `Uint::arithmetic_shr` of `ruint`: a right shift that copies the sign bit down, which
/// divides the two's complement value by a power of two, rounding down.
#[verifier::external_body]
fn ruint_arithmetic_shr(a: U256, shift: usize) -> (r: U256)
    requires
        shift < 256,
    ensures
        r.val() == (a.signed() / pow2(shift as nat) as int) % word_count(),
{
    let x = Uint::<256, 4>::from_limbs(a.as_limbs());
    U256::from_limbs(x.arithmetic_shr(shift).into_limbs())
}

/// `Uint::leading_zeros` of `ruint`: the number of zero bits above the most significant one.
#[verifier::external_body]
fn ruint_leading_zeros(a: U256) -> (r: usize)
    ensures
        r <= 256,
        a.val() < pow2((256 - r) as nat),
        r < 256 ==> a.val() >= pow2((255 - r) as nat),
{
    Uint::<256, 4>::from_limbs(a.as_limbs()).leading_zeros()
}

} // verus!
