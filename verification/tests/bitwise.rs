//! Comparison and bitwise instructions.

use revm::host::DummyHost;
use revm::instructions::bitwise::{
    bitand, bitor, bitxor, byte, clz, eq, gt, iszero, lt, not, sar, sgt, shl, shr, slt,
};
use revm::instructions::InstructionContext;
use revm::interpreter::interpreter_types::LoopControl;
use revm::interpreter::{InstructionResult, Interpreter};
use revm::primitives::bits::{u256_shl, u256_shr};
use revm::primitives::{SpecId, U256};

type Wide = ruint::Uint<256, 4>;

struct Case {
    value: U256,
    shift: U256,
    expected: U256,
}

struct ClzCase {
    value: U256,
    expected: U256,
}

/// The word that hexadecimal digits spell, after `0x`.
fn hex(digits: &str) -> U256 {
    let mut limbs = [0u64; 4];
    for c in digits.trim_start_matches("0x").chars() {
        let d = c.to_digit(16).unwrap() as u64;
        for i in (1..4).rev() {
            limbs[i] = (limbs[i] << 4) | (limbs[i - 1] >> 60);
        }
        limbs[0] = (limbs[0] << 4) | d;
    }
    U256::from_limbs(limbs)
}

fn wide(x: &U256) -> Wide {
    Wide::from_limbs(x.as_limbs())
}

fn push(interpreter: &mut Interpreter, value: U256) {
    assert!(interpreter.stack.push(value));
}

#[test]
fn shl_shr_match_ruint_for_every_shift() {
    let cases = [
        U256::zero(),
        U256::max_value(),
        U256::from_u64(1),
        U256::from_u64(u64::MAX),
        U256::from_limbs([1, 0, 0, 0]),
        U256::from_limbs([0, 0, 0, 1]),
        U256::from_limbs([0x0123_4567_89ab_cdef, 0xfedc_ba98_7654_3210, 1, u64::MAX]),
        U256::from_limbs([u64::MAX, 0, u64::MAX, 0]),
        U256::from_limbs([0, u64::MAX, 0, u64::MAX]),
        U256::from_limbs([0x8000_0000_0000_0000, 0, 0, 0x8000_0000_0000_0000]),
    ];
    for x in cases {
        for shift in 0..256usize {
            assert_eq!(
                wide(&u256_shl(&x, shift)),
                wide(&x) << shift,
                "shl {x:?} by {shift}"
            );
            assert_eq!(
                wide(&u256_shr(&x, shift)),
                wide(&x) >> shift,
                "shr {x:?} by {shift}"
            );
        }
    }
}

#[test]
fn test_shift_left() {
    let mut interpreter = Interpreter::default();

    let test_cases = [
            Case {
                value: hex("0x0000000000000000000000000000000000000000000000000000000000000001"),
                shift: hex("0x00"),
                expected: hex("0x0000000000000000000000000000000000000000000000000000000000000001"),
            },
            Case {
                value: hex("0x0000000000000000000000000000000000000000000000000000000000000001"),
                shift: hex("0x01"),
                expected: hex("0x0000000000000000000000000000000000000000000000000000000000000002"),
            },
            Case {
                value: hex("0x0000000000000000000000000000000000000000000000000000000000000001"),
                shift: hex("0xff"),
                expected: hex("0x8000000000000000000000000000000000000000000000000000000000000000"),
            },
            Case {
                value: hex("0x0000000000000000000000000000000000000000000000000000000000000001"),
                shift: hex("0x0100"),
                expected: hex("0x0000000000000000000000000000000000000000000000000000000000000000"),
            },
            Case {
                value: hex("0x0000000000000000000000000000000000000000000000000000000000000001"),
                shift: hex("0x0101"),
                expected: hex("0x0000000000000000000000000000000000000000000000000000000000000000"),
            },
            Case {
                value: hex("0xffffffffffffffffffffffffffffffffffffffffffffffffffffffffffffffff"),
                shift: hex("0x00"),
                expected: hex("0xffffffffffffffffffffffffffffffffffffffffffffffffffffffffffffffff"),
            },
            Case {
                value: hex("0xffffffffffffffffffffffffffffffffffffffffffffffffffffffffffffffff"),
                shift: hex("0x01"),
                expected: hex("0xfffffffffffffffffffffffffffffffffffffffffffffffffffffffffffffffe"),
            },
            Case {
                value: hex("0xffffffffffffffffffffffffffffffffffffffffffffffffffffffffffffffff"),
                shift: hex("0xff"),
                expected: hex("0x8000000000000000000000000000000000000000000000000000000000000000"),
            },
            Case {
                value: hex("0xffffffffffffffffffffffffffffffffffffffffffffffffffffffffffffffff"),
                shift: hex("0x0100"),
                expected: hex("0x0000000000000000000000000000000000000000000000000000000000000000"),
            },
            Case {
                value: hex("0x0000000000000000000000000000000000000000000000000000000000000000"),
                shift: hex("0x01"),
                expected: hex("0x0000000000000000000000000000000000000000000000000000000000000000"),
            },
            Case {
                value: hex("0x7fffffffffffffffffffffffffffffffffffffffffffffffffffffffffffffff"),
                shift: hex("0x01"),
                expected: hex("0xfffffffffffffffffffffffffffffffffffffffffffffffffffffffffffffffe"),
            },
        ];

    for test in test_cases {
        push(&mut interpreter, test.value);
        push(&mut interpreter, test.shift);
        let context = InstructionContext {
            host: &mut DummyHost,
            interpreter: &mut interpreter,
        };
        shl(context);
        let res = interpreter.stack.pop().unwrap();
        assert_eq!(res, test.expected);
    }
}

#[test]
fn test_logical_shift_right() {
    let mut interpreter = Interpreter::default();

    let test_cases = [
            Case {
                value: hex("0x0000000000000000000000000000000000000000000000000000000000000001"),
                shift: hex("0x00"),
                expected: hex("0x0000000000000000000000000000000000000000000000000000000000000001"),
            },
            Case {
                value: hex("0x0000000000000000000000000000000000000000000000000000000000000001"),
                shift: hex("0x01"),
                expected: hex("0x0000000000000000000000000000000000000000000000000000000000000000"),
            },
            Case {
                value: hex("0x8000000000000000000000000000000000000000000000000000000000000000"),
                shift: hex("0x01"),
                expected: hex("0x4000000000000000000000000000000000000000000000000000000000000000"),
            },
            Case {
                value: hex("0x8000000000000000000000000000000000000000000000000000000000000000"),
                shift: hex("0xff"),
                expected: hex("0x0000000000000000000000000000000000000000000000000000000000000001"),
            },
            Case {
                value: hex("0x8000000000000000000000000000000000000000000000000000000000000000"),
                shift: hex("0x0100"),
                expected: hex("0x0000000000000000000000000000000000000000000000000000000000000000"),
            },
            Case {
                value: hex("0x8000000000000000000000000000000000000000000000000000000000000000"),
                shift: hex("0x0101"),
                expected: hex("0x0000000000000000000000000000000000000000000000000000000000000000"),
            },
            Case {
                value: hex("0xffffffffffffffffffffffffffffffffffffffffffffffffffffffffffffffff"),
                shift: hex("0x00"),
                expected: hex("0xffffffffffffffffffffffffffffffffffffffffffffffffffffffffffffffff"),
            },
            Case {
                value: hex("0xffffffffffffffffffffffffffffffffffffffffffffffffffffffffffffffff"),
                shift: hex("0x01"),
                expected: hex("0x7fffffffffffffffffffffffffffffffffffffffffffffffffffffffffffffff"),
            },
            Case {
                value: hex("0xffffffffffffffffffffffffffffffffffffffffffffffffffffffffffffffff"),
                shift: hex("0xff"),
                expected: hex("0x0000000000000000000000000000000000000000000000000000000000000001"),
            },
            Case {
                value: hex("0xffffffffffffffffffffffffffffffffffffffffffffffffffffffffffffffff"),
                shift: hex("0x0100"),
                expected: hex("0x0000000000000000000000000000000000000000000000000000000000000000"),
            },
            Case {
                value: hex("0x0000000000000000000000000000000000000000000000000000000000000000"),
                shift: hex("0x01"),
                expected: hex("0x0000000000000000000000000000000000000000000000000000000000000000"),
            },
        ];

    for test in test_cases {
        push(&mut interpreter, test.value);
        push(&mut interpreter, test.shift);
        let context = InstructionContext {
            host: &mut DummyHost,
            interpreter: &mut interpreter,
        };
        shr(context);
        let res = interpreter.stack.pop().unwrap();
        assert_eq!(res, test.expected);
    }
}

#[test]
fn test_arithmetic_shift_right() {
    let mut interpreter = Interpreter::default();

    let test_cases = [
        Case {
            value: hex("0x0000000000000000000000000000000000000000000000000000000000000001"),
            shift: hex("0x00"),
            expected: hex("0x0000000000000000000000000000000000000000000000000000000000000001"),
        },
        Case {
            value: hex("0x0000000000000000000000000000000000000000000000000000000000000001"),
            shift: hex("0x01"),
            expected: hex("0x0000000000000000000000000000000000000000000000000000000000000000"),
        },
        Case {
            value: hex("0x8000000000000000000000000000000000000000000000000000000000000000"),
            shift: hex("0x01"),
            expected: hex("0xc000000000000000000000000000000000000000000000000000000000000000"),
        },
        Case {
            value: hex("0x8000000000000000000000000000000000000000000000000000000000000000"),
            shift: hex("0xff"),
            expected: hex("0xffffffffffffffffffffffffffffffffffffffffffffffffffffffffffffffff"),
        },
        Case {
            value: hex("0x8000000000000000000000000000000000000000000000000000000000000000"),
            shift: hex("0x0100"),
            expected: hex("0xffffffffffffffffffffffffffffffffffffffffffffffffffffffffffffffff"),
        },
        Case {
            value: hex("0x8000000000000000000000000000000000000000000000000000000000000000"),
            shift: hex("0x0101"),
            expected: hex("0xffffffffffffffffffffffffffffffffffffffffffffffffffffffffffffffff"),
        },
        Case {
            value: hex("0xffffffffffffffffffffffffffffffffffffffffffffffffffffffffffffffff"),
            shift: hex("0x00"),
            expected: hex("0xffffffffffffffffffffffffffffffffffffffffffffffffffffffffffffffff"),
        },
        Case {
            value: hex("0xffffffffffffffffffffffffffffffffffffffffffffffffffffffffffffffff"),
            shift: hex("0x01"),
            expected: hex("0xffffffffffffffffffffffffffffffffffffffffffffffffffffffffffffffff"),
        },
        Case {
            value: hex("0xffffffffffffffffffffffffffffffffffffffffffffffffffffffffffffffff"),
            shift: hex("0xff"),
            expected: hex("0xffffffffffffffffffffffffffffffffffffffffffffffffffffffffffffffff"),
        },
        Case {
            value: hex("0xffffffffffffffffffffffffffffffffffffffffffffffffffffffffffffffff"),
            shift: hex("0x0100"),
            expected: hex("0xffffffffffffffffffffffffffffffffffffffffffffffffffffffffffffffff"),
        },
        Case {
            value: hex("0x0000000000000000000000000000000000000000000000000000000000000000"),
            shift: hex("0x01"),
            expected: hex("0x0000000000000000000000000000000000000000000000000000000000000000"),
        },
        Case {
            value: hex("0x4000000000000000000000000000000000000000000000000000000000000000"),
            shift: hex("0xfe"),
            expected: hex("0x0000000000000000000000000000000000000000000000000000000000000001"),
        },
        Case {
            value: hex("0x7fffffffffffffffffffffffffffffffffffffffffffffffffffffffffffffff"),
            shift: hex("0xf8"),
            expected: hex("0x000000000000000000000000000000000000000000000000000000000000007f"),
        },
        Case {
            value: hex("0x7fffffffffffffffffffffffffffffffffffffffffffffffffffffffffffffff"),
            shift: hex("0xfe"),
            expected: hex("0x0000000000000000000000000000000000000000000000000000000000000001"),
        },
        Case {
            value: hex("0x7fffffffffffffffffffffffffffffffffffffffffffffffffffffffffffffff"),
            shift: hex("0xff"),
            expected: hex("0x0000000000000000000000000000000000000000000000000000000000000000"),
        },
        Case {
            value: hex("0x7fffffffffffffffffffffffffffffffffffffffffffffffffffffffffffffff"),
            shift: hex("0x0100"),
            expected: hex("0x0000000000000000000000000000000000000000000000000000000000000000"),
        },
    ];

    for test in test_cases {
        push(&mut interpreter, test.value);
        push(&mut interpreter, test.shift);
        let context = InstructionContext {
            host: &mut DummyHost,
            interpreter: &mut interpreter,
        };
        sar(context);
        let res = interpreter.stack.pop().unwrap();
        assert_eq!(res, test.expected);
    }
}

#[test]
fn test_byte() {
    let mut interpreter = Interpreter::default();

    let input_value = hex("0x1234567890abcdef1234567890abcdef");
    for index in 0..32usize {
        let shift_amount = (31 - index) * 8;
        let expected = (wide(&input_value) >> shift_amount) & Wide::from(0xFFu64);
        push(&mut interpreter, input_value);
        push(&mut interpreter, U256::from_u64(index as u64));
        byte(InstructionContext {
            host: &mut DummyHost,
            interpreter: &mut interpreter,
        });
        let res = interpreter.stack.pop().unwrap();
        assert_eq!(wide(&res), expected, "Failed at index: {}", index);
    }
}

#[test]
fn test_clz() {
    let mut interpreter = Interpreter::default();
    interpreter.set_spec_id(SpecId::OSAKA);

    let test_cases = [
            ClzCase { value: hex("0x0"), expected: U256::from_u64(256) },
            ClzCase { value: hex("0x1"), expected: U256::from_u64(255) },
            ClzCase { value: hex("0x2"), expected: U256::from_u64(254) },
            ClzCase { value: hex("0x3"), expected: U256::from_u64(254) },
            ClzCase { value: hex("0x4"), expected: U256::from_u64(253) },
            ClzCase { value: hex("0x7"), expected: U256::from_u64(253) },
            ClzCase { value: hex("0x8"), expected: U256::from_u64(252) },
            ClzCase { value: hex("0xff"), expected: U256::from_u64(248) },
            ClzCase { value: hex("0x100"), expected: U256::from_u64(247) },
            ClzCase { value: hex("0xffff"), expected: U256::from_u64(240) },
            ClzCase {
                value: hex("0xffffffffffffffffffffffffffffffffffffffffffffffffffffffffffffffff"), // U256::MAX
                expected: U256::from_u64(0),
            },
            ClzCase {
                value: hex("0x8000000000000000000000000000000000000000000000000000000000000000"), // 1 << 255
                expected: U256::from_u64(0),
            },
            ClzCase { // Smallest value with 1 leading zero
                value: hex("0x4000000000000000000000000000000000000000000000000000000000000000"), // 1 << 254
                expected: U256::from_u64(1),
            },
            ClzCase { // Value just below 1 << 255
                value: hex("0x7fffffffffffffffffffffffffffffffffffffffffffffffffffffffffffffff"),
                expected: U256::from_u64(1),
            },
        ];

    for test in test_cases {
        push(&mut interpreter, test.value);
        let context = InstructionContext {
            host: &mut DummyHost,
            interpreter: &mut interpreter,
        };
        clz(context);
        let res = interpreter.stack.pop().unwrap();
        assert_eq!(
            res, test.expected,
            "CLZ for value {:?} failed. Expected: {:?}, Got: {:?}",
            test.value, test.expected, res
        );
    }
}

#[test]
fn clz_needs_osaka() {
    let mut interpreter = Interpreter::default();
    interpreter.set_spec_id(SpecId::PRAGUE);
    push(&mut interpreter, U256::one());
    clz(InstructionContext {
        host: &mut DummyHost,
        interpreter: &mut interpreter,
    });
    assert_eq!(
        interpreter.bytecode.instruction_result(),
        Some(InstructionResult::NotActivated)
    );
}

/// What an instruction of two operands makes of `b` and, on top of it, `a`.
fn binary(op: u8, a: U256, b: U256) -> U256 {
    let mut interpreter = Interpreter::default();
    push(&mut interpreter, b);
    push(&mut interpreter, a);
    let context = InstructionContext {
        host: &mut DummyHost,
        interpreter: &mut interpreter,
    };
    match op {
        0x10 => lt(context),
        0x11 => gt(context),
        0x12 => slt(context),
        0x13 => sgt(context),
        0x14 => eq(context),
        0x16 => bitand(context),
        0x17 => bitor(context),
        _ => bitxor(context),
    }
    interpreter.stack.pop().unwrap()
}

#[test]
fn comparisons_and_bitwise_operations() {
    let one = U256::one();
    let two = U256::from_u64(2);
    let minus_one = U256::max_value();
    let yes = U256::one();
    let no = U256::zero();
    assert_eq!(binary(0x10, one, two), yes);
    assert_eq!(binary(0x10, two, two), no);
    assert_eq!(binary(0x11, two, one), yes);
    assert_eq!(binary(0x11, minus_one, one), yes);
    assert_eq!(binary(0x12, minus_one, one), yes);
    assert_eq!(binary(0x13, minus_one, one), no);
    assert_eq!(binary(0x14, two, two), yes);
    assert_eq!(binary(0x14, one, two), no);
    let a = hex("0xff00ff00");
    let b = hex("0x0ff00ff0");
    assert_eq!(binary(0x16, a, b), hex("0x0f000f00"));
    assert_eq!(binary(0x17, a, b), hex("0xfff0fff0"));
    assert_eq!(binary(0x18, a, b), hex("0xf0f0f0f0"));

    let mut interpreter = Interpreter::default();
    push(&mut interpreter, U256::zero());
    not(InstructionContext {
        host: &mut DummyHost,
        interpreter: &mut interpreter,
    });
    assert_eq!(interpreter.stack.peek(0), Ok(U256::max_value()));
    iszero(InstructionContext {
        host: &mut DummyHost,
        interpreter: &mut interpreter,
    });
    assert_eq!(interpreter.stack.pop(), Ok(U256::zero()));
}
