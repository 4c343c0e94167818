//! Arithmetic instructions and the division fast path.

use revm::host::DummyHost;
use revm::instructions::arithmetic::{
    self, div, div_rem_128_by_32, div_small_eligible, rem, u256_div_nonzero, u256_rem_nonzero,
};
use revm::instructions::InstructionContext;
use revm::interpreter::interpreter_types::LoopControl;
use revm::interpreter::{InstructionResult, Interpreter};
use revm::primitives::U256;

type Wide = ruint::Uint<256, 4>;

fn wide(x: &U256) -> Wide {
    Wide::from_limbs(x.as_limbs())
}

fn narrow(x: Wide) -> U256 {
    U256::from_limbs(*x.as_limbs())
}

/// A generator with a fixed seed, so that a failure can be repeated.
struct Rng(u64);

impl Rng {
    fn next(&mut self) -> u64 {
        self.0 = self.0.wrapping_add(0x9E37_79B9_7F4A_7C15);
        let mut z = self.0;
        z = (z ^ (z >> 30)).wrapping_mul(0xBF58_476D_1CE4_E5B9);
        z = (z ^ (z >> 27)).wrapping_mul(0x94D0_49BB_1331_11EB);
        z ^ (z >> 31)
    }
}

fn rand_uint(rng: &mut Rng, limbs: usize, topbits: u32) -> U256 {
    assert!(limbs <= 4 && (1..=64).contains(&topbits));
    let mut l = [0u64; 4];
    for x in l.iter_mut().take(limbs) {
        *x = rng.next();
    }
    if limbs > 0 {
        let top = l[limbs - 1];
        l[limbs - 1] = if topbits == 64 {
            top | (1u64 << 63)
        } else {
            (top & ((1u64 << topbits) - 1)) | (1u64 << (topbits - 1))
        };
    }
    U256::from_limbs(l)
}

fn significant_limbs(v: &U256) -> usize {
    let l = v.as_limbs();
    if l[3] != 0 {
        4
    } else if l[2] != 0 {
        3
    } else if l[1] != 0 {
        2
    } else if l[0] != 0 {
        1
    } else {
        0
    }
}

#[derive(Default)]
struct Stats {
    compared: u64,
    fast: u64,
    slow: u64,
    cells: [[u64; 4]; 4],
    zero_numerator: u64,
    fast_rem_zero: u64,
    fast_rem_nonzero: u64,
    fast_q_two_limbs: u64,
    fast_q_zero: u64,
    n_lt_d: u64,
    n_eq_d: u64,
    d_is_one: u64,
    d_is_u32_max: u64,
    d_just_over_u32: u64,
    n_is_u128_max: u64,
    n_is_u256_max: u64,
}

fn check(n: U256, d: U256, st: &mut Stats) {
    assert!(!d.is_zero(), "check() called with a zero divisor");

    let q_ref = narrow(wide(&n).wrapping_div(wide(&d)));
    let r_ref = narrow(wide(&n).wrapping_rem(wide(&d)));
    let q_got = u256_div_nonzero(n, d);
    let r_got = u256_rem_nonzero(n, d);
    assert_eq!(q_got, q_ref, "quotient mismatch: {n:?} / {d:?}");
    assert_eq!(r_got, r_ref, "remainder mismatch: {n:?} % {d:?}");
    assert_eq!(
        q_ref.wrapping_mul(d).wrapping_add(r_ref),
        n,
        "reference is inconsistent: {n:?} / {d:?}"
    );

    let want_fast = wide(&d) <= Wide::from(u32::MAX) && wide(&n) <= Wide::from(u128::MAX);
    let got_fast = div_small_eligible(&n, &d);
    assert_eq!(got_fast, want_fast, "eligibility mismatch: {n:?} / {d:?}");

    if got_fast {
        st.fast += 1;
        let (q, r) = div_rem_128_by_32(&n, d.as_limbs()[0]);
        assert_eq!(q, q_ref, "fast quotient mismatch: {n:?} / {d:?}");
        assert_eq!(
            U256::from_u64(r),
            r_ref,
            "fast remainder mismatch: {n:?} % {d:?}"
        );
        if r == 0 {
            st.fast_rem_zero += 1;
        } else {
            st.fast_rem_nonzero += 1;
        }
        if q.as_limbs()[1] != 0 {
            st.fast_q_two_limbs += 1;
        }
        if q.is_zero() {
            st.fast_q_zero += 1;
        }
    } else {
        st.slow += 1;
    }

    let nl = significant_limbs(&n);
    let dl = significant_limbs(&d);
    if nl == 0 {
        st.zero_numerator += 1;
    } else {
        st.cells[nl - 1][dl - 1] += 1;
    }
    if n.less_than(&d) {
        st.n_lt_d += 1;
    }
    if n == d {
        st.n_eq_d += 1;
    }
    if d == U256::from_u64(1u64) {
        st.d_is_one += 1;
    }
    if d == U256::from_u64(u32::MAX as u64) {
        st.d_is_u32_max += 1;
    }
    if d == U256::from_u64(1u64 << 32) {
        st.d_just_over_u32 += 1;
    }
    if n == U256::from_limbs([u64::MAX, u64::MAX, 0, 0]) {
        st.n_is_u128_max += 1;
    }
    if n == U256::max_value() {
        st.n_is_u256_max += 1;
    }
    st.compared += 1;
}

#[test]
fn zero_divisor_is_untouched() {
    let mut interpreter = Interpreter::default();

    for n in [
        U256::zero(),
        U256::from_u64(1u64),
        U256::from_limbs([u64::MAX, u64::MAX, 0, 0]),
        U256::max_value(),
    ] {
        assert!(interpreter.stack.push(U256::zero()));
        assert!(interpreter.stack.push(n));
        div(InstructionContext {
            host: &mut DummyHost,
            interpreter: &mut interpreter,
        });
        assert_eq!(
            interpreter.stack.pop().unwrap(),
            U256::zero(),
            "{n:?} through DIV by zero"
        );

        assert!(interpreter.stack.push(U256::zero()));
        assert!(interpreter.stack.push(n));
        rem(InstructionContext {
            host: &mut DummyHost,
            interpreter: &mut interpreter,
        });
        assert_eq!(
            interpreter.stack.pop().unwrap(),
            U256::zero(),
            "{n:?} through MOD by zero"
        );
    }
}

#[test]
fn the_fast_path_accepts_a_zero_divisor() {
    let zero = [0u64; 4];
    for n in [[0u64; 4], [u64::MAX, u64::MAX, 0, 0]] {
        assert!(
            div_small_eligible(&U256::from_limbs(n), &U256::from_limbs(zero)),
            "the predicate must not be relied on to reject d == 0"
        );
    }
    let small_n = [1u64, 0, 0, 0];
    for (n, d, why) in [
        (
            [0u64, 0, 1, 0],
            [1u64, 0, 0, 0],
            "numerator >= 2^128 (limb 2)",
        ),
        (
            [0u64, 0, 0, 1],
            [1u64, 0, 0, 0],
            "numerator >= 2^128 (limb 3)",
        ),
        (small_n, [1u64 << 32, 0, 0, 0], "divisor >= 2^32"),
        (small_n, [0u64, 1, 0, 0], "divisor >= 2^64 (limb 1)"),
        (small_n, [0u64, 0, 1, 0], "divisor >= 2^128 (limb 2)"),
        (small_n, [0u64, 0, 0, 1], "divisor >= 2^192 (limb 3)"),
    ] {
        assert!(
            !div_small_eligible(&U256::from_limbs(n), &U256::from_limbs(d)),
            "should have been rejected: {why}"
        );
    }
}

/// One number for a pair of operands.
fn mix(n: &U256, d: &U256) -> u64 {
    let mut h = 0xcbf2_9ce4_8422_2325u64;
    for w in n.as_limbs().iter().chain(d.as_limbs().iter()).copied() {
        h = (h ^ w).wrapping_mul(0x100_0000_01b3);
    }
    h
}

#[test]
fn differential_against_ruint() {
    let mut st = Stats::default();
    let mut expected: u64 = 0;
    let mut rng = Rng(0x0DDB_A11D_EADB_EEF5u64);

    for n in 0u64..=255 {
        for d in 1u64..=255 {
            check(U256::from_u64(n), U256::from_u64(d), &mut st);
            expected += 1;
        }
    }

    const WIDTHS: [u32; 9] = [1, 2, 16, 31, 32, 33, 48, 63, 64];
    for nl in 1..=4usize {
        for dl in 1..=4usize {
            for ntb in WIDTHS {
                for dtb in WIDTHS {
                    for _ in 0..4 {
                        let n = rand_uint(&mut rng, nl, ntb);
                        let d = rand_uint(&mut rng, dl, dtb);
                        check(n, d, &mut st);
                        expected += 1;
                    }
                }
            }
        }
    }

    let pow2 = |k: usize| narrow(Wide::from(1u64) << k);
    let numerators = [
        U256::zero(),
        U256::from_u64(1u64),
        U256::from_u64(2u64),
        U256::from_u64(u32::MAX as u64),
        pow2(32),
        pow2(32).wrapping_add(U256::from_u64(1u64)),
        U256::from_u64(u64::MAX),
        pow2(64),
        pow2(96),
        pow2(127),
        U256::from_limbs([u64::MAX, u64::MAX, 0, 0]),
        pow2(128),
        pow2(128).wrapping_add(U256::from_u64(1u64)),
        pow2(192),
        pow2(255),
        U256::max_value(),
        U256::max_value().wrapping_sub(U256::from_u64(1u64)),
        U256::from_u64(1_000_000_000_000_000_000u64),
    ];
    let divisors = [
        U256::from_u64(1u64),
        U256::from_u64(2u64),
        U256::from_u64(3u64),
        U256::from_u64(u32::MAX as u64 - 1),
        U256::from_u64(u32::MAX as u64),
        pow2(32),
        pow2(32).wrapping_add(U256::from_u64(1u64)),
        U256::from_u64(u64::MAX),
        pow2(64),
        pow2(96),
        U256::from_limbs([u64::MAX, u64::MAX, 0, 0]),
        pow2(128),
        pow2(255),
        U256::max_value(),
        U256::from_u64(1_000_000_000_000_000_000u64),
    ];
    for n in numerators {
        for d in divisors {
            check(n, d, &mut st);
            expected += 1;
        }
    }
    for v in numerators {
        for d in [
            v,
            v.wrapping_add(U256::from_u64(1u64)),
            v.wrapping_sub(U256::from_u64(1u64)),
        ] {
            if d.is_zero() {
                continue;
            }
            check(v, d, &mut st);
            expected += 1;
        }
    }

    let fast_before = st.fast;
    let mut sampled: Vec<u64> = Vec::new();
    for _ in 0..40_000 {
        let nl = (rng.next() % 5) as usize;
        let dl = 1 + (rng.next() % 4) as usize;
        let ntb = 1 + (rng.next() % 64) as u32;
        let dtb = 1 + (rng.next() % 64) as u32;
        let n = rand_uint(&mut rng, nl, ntb);
        let d = rand_uint(&mut rng, dl, dtb);
        sampled.push(mix(&n, &d));
        check(n, d, &mut st);
        expected += 1;
    }
    for _ in 0..20_000 {
        let nl = 1 + (rng.next() % 2) as usize;
        let ntb = 1 + (rng.next() % 64) as u32;
        let n = rand_uint(&mut rng, nl, ntb);
        let d = U256::from_u64(1 + rng.next() % (u32::MAX as u64));
        sampled.push(mix(&n, &d));
        check(n, d, &mut st);
        expected += 1;
    }

    assert_eq!(
        st.compared, expected,
        "some pairs were not actually compared"
    );
    let mut distinct = sampled;
    distinct.sort_unstable();
    distinct.dedup();
    assert!(
        distinct.len() > 50_000,
        "the randomised sweep produced only {} distinct operand pairs out of 60,000",
        distinct.len()
    );
    assert!(
        st.fast - fast_before > 15_000,
        "the randomised sweep drove the fast path only {} times",
        st.fast - fast_before
    );
    assert_eq!(st.compared, 130_785, "the sweep changed size");
    assert!(st.compared >= 100_000, "sweep too small: {}", st.compared);
    assert!(st.fast >= 20_000, "fast path barely exercised: {}", st.fast);
    assert!(st.slow >= 20_000, "slow path barely exercised: {}", st.slow);
    assert_eq!(
        st.fast + st.slow,
        st.compared,
        "every pair must take one path or the other"
    );
    for nl in 0..4 {
        for dl in 0..4 {
            assert!(
                st.cells[nl][dl] > 0,
                "shape cell n={} limbs, d={} limbs never generated",
                nl + 1,
                dl + 1
            );
        }
    }
    assert!(st.zero_numerator > 0);
    assert!(
        st.fast_rem_zero > 0,
        "fast path never produced an exact division"
    );
    assert!(
        st.fast_rem_nonzero > 0,
        "fast path never produced a remainder"
    );
    assert!(
        st.fast_q_two_limbs > 0,
        "fast path never produced a quotient above 2^64"
    );
    assert!(
        st.fast_q_zero > 0,
        "fast path never produced a zero quotient"
    );
    assert!(st.n_lt_d > 0 && st.n_eq_d > 0);
    assert!(st.d_is_one > 0 && st.d_is_u32_max > 0 && st.d_just_over_u32 > 0);
    assert!(st.n_is_u128_max > 0 && st.n_is_u256_max > 0);
}

#[test]
fn digit_invariants_hold() {
    let mut rng = Rng(0xC0FF_EE00_1234_5678u64);
    let mut checked = 0u64;
    for d in [
        1u64,
        2,
        3,
        0xffff,
        0x1_0000,
        0x7fff_ffff,
        0xffff_fffe,
        0xffff_ffff,
    ] {
        for _ in 0..2_000 {
            let n = U256::from_limbs([rng.next(), rng.next(), 0, 0]);
            let (q, rem) = div_rem_128_by_32(&n, d);
            assert!(rem < d, "remainder {rem} escaped divisor {d}");
            let ql = q.as_limbs();
            assert!(
                ql[2] == 0 && ql[3] == 0,
                "quotient of a sub-2^128 numerator overflowed two limbs"
            );
            let dd = Wide::from(d);
            assert_eq!(wide(&q), wide(&n).wrapping_div(dd));
            assert_eq!(Wide::from(rem), wide(&n).wrapping_rem(dd));
            checked += 1;
        }
    }
    assert_eq!(checked, 8 * 2_000, "the sweep changed size");
}

/// What an instruction makes of operands, the last of which is on top.
fn apply(op: u8, operands: &[U256]) -> U256 {
    let mut interpreter = Interpreter::default();
    for x in operands {
        assert!(interpreter.stack.push(*x));
    }
    let context = InstructionContext {
        host: &mut DummyHost,
        interpreter: &mut interpreter,
    };
    match op {
        0x01 => arithmetic::add(context),
        0x02 => arithmetic::mul(context),
        0x03 => arithmetic::sub(context),
        0x05 => arithmetic::sdiv(context),
        0x07 => arithmetic::smod(context),
        0x08 => arithmetic::addmod(context),
        0x09 => arithmetic::mulmod(context),
        0x0a => arithmetic::exp(context),
        _ => arithmetic::signextend(context),
    }
    interpreter.stack.pop().unwrap()
}

#[test]
fn arithmetic_wraps_around() {
    let u = U256::from_u64;
    let max = U256::max_value();
    let minus = |n: u64| U256::zero().wrapping_sub(u(n));
    assert_eq!(apply(0x01, &[u(1), max]), u(0));
    assert_eq!(apply(0x02, &[u(2), max]), minus(2));
    assert_eq!(apply(0x03, &[u(1), u(0)]), max);
    assert_eq!(apply(0x05, &[u(2), minus(7)]), minus(3));
    assert_eq!(apply(0x05, &[u(0), minus(7)]), u(0));
    let lowest = U256::from_limbs([0, 0, 0, 1 << 63]);
    assert_eq!(apply(0x05, &[max, lowest]), lowest);
    assert_eq!(apply(0x07, &[u(5), minus(7)]), minus(2));
    assert_eq!(apply(0x07, &[minus(5), u(7)]), u(2));
    assert_eq!(apply(0x08, &[u(10), max, max]), narrow(wide(&max).add_mod(wide(&max), Wide::from(10u64))));
    assert_eq!(apply(0x08, &[u(0), u(3), u(4)]), u(0));
    assert_eq!(apply(0x09, &[u(8), max, max]), u(1));
    assert_eq!(apply(0x09, &[u(0), u(3), u(4)]), u(0));
    assert_eq!(apply(0x0a, &[u(10), u(3)]), u(59049));
    assert_eq!(apply(0x0a, &[u(0), u(0)]), u(1));
    assert_eq!(apply(0x0b, &[u(0xff), u(0)]), max);
    assert_eq!(apply(0x0b, &[u(0x7f), u(0)]), u(0x7f));
    assert_eq!(apply(0x0b, &[u(0xff), u(31)]), u(0xff));
}

#[test]
fn a_short_stack_underflows() {
    let mut interpreter = Interpreter::default();
    assert!(interpreter.stack.push(U256::one()));
    arithmetic::add(InstructionContext {
        host: &mut DummyHost,
        interpreter: &mut interpreter,
    });
    assert_eq!(
        interpreter.bytecode.instruction_result(),
        Some(InstructionResult::StackUnderflow)
    );
}
