//! The stack, and the cursors that the threaded instructions work on.

use revm::host::DummyHost;
use revm::instructions::stack::{dup_at, push0_at};
use revm::instructions::InstructionContext;
use revm::interpreter::interpreter_types::{LoopControl, StackTr};
use revm::interpreter::{
    no_room_to_push, too_shallow_for, InstructionResult, Interpreter, Stack, BYTE_LIMIT,
    STACK_LIMIT, WORD,
};
use revm::primitives::{Address, B256, U256};

fn run(f: impl FnOnce(&mut Stack)) {
    let mut stack = Stack::new();
    // Words above the live ones are not zero.
    for _ in 0..STACK_LIMIT {
        assert!(stack.push(U256::max_value()));
    }
    stack.clear();
    f(&mut stack);
}

fn wide(n: u128) -> U256 {
    U256::from_limbs([n as u64, (n >> 64) as u64, 0, 0])
}

fn word_bytes(n: u128) -> [u8; 32] {
    let mut b = [0u8; 32];
    b[16..].copy_from_slice(&n.to_be_bytes());
    b
}

#[test]
fn push_slices() {
    run(|stack| {
        stack.push_slice(b"").unwrap();
        assert!(stack.data().is_empty());
    });

    run(|stack| {
        stack.push_slice(&[42]).unwrap();
        assert_eq!(stack.data(), &[U256::from_u64(42)]);
    });

    let n = 0x1111_2222_3333_4444_5555_6666_7777_8888_u128;
    run(|stack| {
        stack.push_slice(&n.to_be_bytes()).unwrap();
        assert_eq!(stack.data(), &[wide(n)]);
    });

    run(|stack| {
        let b = [word_bytes(n), word_bytes(n)].concat();
        stack.push_slice(&b).unwrap();
        assert_eq!(stack.data(), &[wide(n); 2]);
    });

    run(|stack| {
        let b = [&[0; 32][..], &[42u8]].concat();
        stack.push_slice(&b).unwrap();
        assert_eq!(stack.data(), &[U256::zero(), U256::from_u64(42)]);
    });

    run(|stack| {
        let b = [&[0; 32][..], &n.to_be_bytes()].concat();
        stack.push_slice(&b).unwrap();
        assert_eq!(stack.data(), &[U256::zero(), wide(n)]);
    });

    run(|stack| {
        let b = [&[0; 64][..], &n.to_be_bytes()].concat();
        stack.push_slice(&b).unwrap();
        assert_eq!(stack.data(), &[U256::zero(), U256::zero(), wide(n)]);
    });
}

#[test]
fn limits() {
    let mut stack = Stack::new();

    assert_eq!(stack.pop(), Err(InstructionResult::StackUnderflow));
    assert!(stack.popn(1).is_none());
    assert!(stack.popn_top(0).is_none());
    assert!(!stack.dup(1));
    assert!(!stack.exchange(0, 1));
    assert_eq!(stack.peek(0), Err(InstructionResult::StackUnderflow));
    assert_eq!(stack.len(), 0);

    assert!(stack.push(U256::from_u64(1)));
    assert!(stack.popn(2).is_none());
    assert!(stack.popn_top(1).is_none());
    assert!(!stack.dup(2));
    assert!(!stack.exchange(0, 1));
    assert!(stack.dup(1));
    assert_eq!(stack.len(), 2);
    assert!(stack.exchange(0, 1));
    let _ = stack.pop().unwrap();
    let _ = stack.pop().unwrap();
    assert_eq!(stack.len(), 0);

    for i in 0..STACK_LIMIT {
        assert!(stack.push(U256::from_u64(i as u64)), "push {i} below the limit");
    }
    assert_eq!(stack.len(), STACK_LIMIT);
    assert_eq!(stack.peek(0), Ok(U256::from_u64(STACK_LIMIT as u64 - 1)));
    assert_eq!(stack.peek(STACK_LIMIT - 1), Ok(U256::zero()));
    assert_eq!(
        stack.peek(STACK_LIMIT),
        Err(InstructionResult::StackUnderflow)
    );

    assert!(!stack.push(U256::from_u64(7)));
    assert!(!stack.dup(1));
    assert!(!stack.dup(16));
    assert_eq!(
        stack.push_slice(&[1]),
        Err(InstructionResult::StackOverflow)
    );
    assert!(!stack.push_slice_const(&[1u8]));
    assert_eq!(stack.len(), STACK_LIMIT);
    assert_eq!(stack.peek(0), Ok(U256::from_u64(STACK_LIMIT as u64 - 1)));

    assert!(stack.exchange(0, 1));
    assert_eq!(stack.peek(0), Ok(U256::from_u64(STACK_LIMIT as u64 - 2)));
    assert_eq!(stack.peek(1), Ok(U256::from_u64(STACK_LIMIT as u64 - 1)));
    assert!(!stack.exchange(0, STACK_LIMIT));

    assert_eq!(stack.pop(), Ok(U256::from_u64(STACK_LIMIT as u64 - 2)));
    assert!(stack.push(U256::from_u64(7)));
    assert!(!stack.push(U256::from_u64(8)));
    assert_eq!(stack.len(), STACK_LIMIT);
}

#[test]
fn popn_order() {
    let mut stack = Stack::new();
    for i in 0..4 {
        assert!(stack.push(U256::from_u64(i as u64)));
    }
    let popped = stack.popn(3).unwrap();
    assert_eq!((popped[0], popped[1], popped[2]), (U256::from_u64(3), U256::from_u64(2), U256::from_u64(1)));
    assert_eq!(stack.len(), 1);
    let mut s = Stack::new();
    for i in 0..3 {
        assert!(s.push(U256::from_u64(i as u64)));
    }
    let (words, top) = s.popn_top(1).unwrap();
    let (x, top) = (words[0], *top);
    assert_eq!(x, U256::from_u64(2));
    assert_eq!(top, U256::from_u64(1));
}

#[test]
fn stack_clone() {
    let empty_stack = Stack::new();
    let cloned_empty = empty_stack.clone();
    assert_eq!(empty_stack.data(), cloned_empty.data());
    assert_eq!(cloned_empty.len(), 0);

    let mut partial_stack = Stack::new();
    for i in 0..10 {
        assert!(partial_stack.push(U256::from_u64(i as u64)));
    }
    let mut cloned_partial = partial_stack.clone();
    assert_eq!(partial_stack.data(), cloned_partial.data());
    assert_eq!(cloned_partial.len(), 10);

    assert!(cloned_partial.push(U256::from_u64(100)));
    assert_ne!(partial_stack.data(), cloned_partial.data());
    assert_eq!(partial_stack.len(), 10);
    assert_eq!(cloned_partial.len(), 11);

    let mut full_stack = Stack::new();
    for i in 0..STACK_LIMIT {
        assert!(full_stack.push(U256::from_u64(i as u64)));
    }
    let mut cloned_full = full_stack.clone();
    assert_eq!(full_stack.data(), cloned_full.data());
    assert_eq!(cloned_full.len(), STACK_LIMIT);

    assert!(!full_stack.push(U256::from_u64(100)));
    assert!(!cloned_full.push(U256::from_u64(100)));
}

#[test]
fn room_checks_reject_every_out_of_range_cursor() {
    let refused = [
        BYTE_LIMIT - WORD,
        BYTE_LIMIT,
        BYTE_LIMIT + WORD,
        BYTE_LIMIT * 2,
        32800,
        usize::MAX / 2,
        usize::MAX / 2 + 1,
        isize::MAX as usize + WORD,
        1usize << 63,
        usize::MAX - BYTE_LIMIT,
        usize::MAX - 64,
        usize::MAX - WORD,
    ];
    for sp in refused {
        let mut interpreter = Interpreter::default();
        let mut host = DummyHost;
        let (out_sp, out_rem) = push0_at(
            InstructionContext {
                interpreter: &mut interpreter,
                host: &mut host,
            },
            sp,
            1_000,
        );
        assert_eq!(out_sp, sp, "push0_at moved the cursor for sp {sp}");
        assert_eq!(out_rem, u64::MAX, "push0_at accepted sp {sp}");
        assert_eq!(
            interpreter.bytecode.instruction_result(),
            Some(InstructionResult::StackOverflow),
            "push0_at did not halt for sp {sp}"
        );

        let mut interpreter = Interpreter::default();
        let mut host = DummyHost;
        let (out_sp, out_rem) = dup_at::<1, DummyHost>(
            InstructionContext {
                interpreter: &mut interpreter,
                host: &mut host,
            },
            sp,
            1_000,
        );
        assert_eq!(out_sp, sp, "dup_at moved the cursor for sp {sp}");
        assert_eq!(out_rem, u64::MAX, "dup_at accepted sp {sp}");
    }

    let empty_sp = 0usize.wrapping_sub(WORD);
    let mut interpreter = Interpreter::default();
    let mut host = DummyHost;
    let (out_sp, out_rem) = push0_at(
        InstructionContext {
            interpreter: &mut interpreter,
            host: &mut host,
        },
        empty_sp,
        1_000,
    );
    assert_eq!(out_sp, 0, "push0_at refused the empty cursor");
    assert_eq!(out_rem, 1_000);
    assert_eq!(interpreter.bytecode.instruction_result(), None);
}

#[test]
fn no_room_to_push_accepts_exactly_the_live_non_full_cursors() {
    for words in 0..=STACK_LIMIT {
        let sp = (words * WORD).wrapping_sub(WORD);
        assert_eq!(
            no_room_to_push(sp),
            words == STACK_LIMIT,
            "words {words}, sp {sp}"
        );
    }
    for sp in [
        BYTE_LIMIT,
        BYTE_LIMIT + WORD,
        BYTE_LIMIT * 2,
        usize::MAX / 2,
        usize::MAX / 2 + 1,
        1usize << 63,
        usize::MAX - BYTE_LIMIT,
        usize::MAX - 64,
        usize::MAX - WORD,
    ] {
        assert!(no_room_to_push(sp), "accepted sp {sp}");
    }
    for sp in [usize::MAX - 30, usize::MAX - 1, usize::MAX] {
        assert!(!no_room_to_push(sp));
        assert!(
            sp.wrapping_add(WORD) < BYTE_LIMIT,
            "still inside the buffer"
        );
    }
}

#[test]
fn a_push_is_undone_by_a_pop_and_a_swap_by_itself() {
    let mut stack = Stack::new();
    for i in 0..5 {
        assert!(stack.push(U256::from_u64(i)));
    }
    let before = stack.data().to_vec();
    assert!(stack.push(U256::max_value()));
    assert_eq!(stack.pop(), Ok(U256::max_value()));
    assert_eq!(stack.data(), &before[..]);
    assert!(stack.swap(3));
    assert_eq!(stack.peek(0), Ok(U256::from_u64(1)));
    assert_eq!(stack.peek(3), Ok(U256::from_u64(4)));
    assert!(stack.swap(3));
    assert_eq!(stack.data(), &before[..]);
}

#[test]
fn words_are_set_and_turned_into_addresses() {
    let mut stack = Stack::new();
    assert_eq!(
        stack.set(0, U256::one()),
        Err(InstructionResult::StackUnderflow)
    );
    assert!(stack.push(U256::zero()));
    assert_eq!(stack.set(0, U256::max_value()), Ok(()));
    assert_eq!(stack.pop_address(), Some(Address::from_slice(&[0xff; 20])));
    assert_eq!(stack.pop_address(), None);
    let back = Stack::try_from_data(&[U256::one(), U256::zero()]).unwrap();
    assert_eq!(back.into_data(), vec![U256::one(), U256::zero()]);
    assert!(Stack::try_from_data(&vec![U256::one(); STACK_LIMIT + 1]).is_none());
    assert!(Stack::invalid().is_empty());
}

#[test]
fn the_cursor_is_one_word_below_the_length() {
    let mut stack = Stack::new();
    assert_eq!(stack.sp(), 0usize.wrapping_sub(WORD));
    assert!(stack.push(U256::one()));
    assert_eq!(stack.sp(), 0);
    assert_eq!(too_shallow_for(1), -32);
    assert_eq!(too_shallow_for(3), 32);
}

#[test]
fn a_stack_serves_as_a_part_of_an_interpreter() {
    let mut stack = Stack::new();
    assert!(StackTr::is_empty(&stack));
    assert_eq!(StackTr::sp(&stack), 0usize.wrapping_sub(32));
    assert!(StackTr::push(&mut stack, U256::from_u64(1)));
    assert!(StackTr::push_slice(&mut stack, &[1, 2]));
    assert!(StackTr::push_slice_const(&mut stack, &[9]));
    assert!(StackTr::push_b256(
        &mut stack,
        B256 {
            word: U256::from_u64(7)
        }
    ));
    assert_eq!(StackTr::len(&stack), 4);
    assert_eq!(StackTr::sp(&stack), 96);
    *StackTr::top(&mut stack).unwrap() = U256::from_u64(8);
    assert_eq!(StackTr::pop(&mut stack), Some(U256::from_u64(8)));
    assert!(StackTr::exchange(&mut stack, 0, 1));
    assert!(StackTr::dup(&mut stack, 3));
    assert_eq!(
        StackTr::popn(&mut stack, 2),
        Some(vec![U256::from_u64(1), U256::from_u64(258)])
    );
    let (words, top) = StackTr::popn_top(&mut stack, 1).unwrap();
    assert_eq!(words, vec![U256::from_u64(9)]);
    *top = U256::from_u64(5);
    assert_eq!(StackTr::data(&stack), &[U256::from_u64(5)]);
    assert_eq!(
        StackTr::pop_address(&mut stack),
        Some(Address::from_word(U256::from_u64(5)))
    );
    assert_eq!(StackTr::pop(&mut stack), None);
    assert!(StackTr::push(&mut stack, U256::from_u64(1)));
    StackTr::popn_discard(&mut stack, 1, 1);
    assert!(StackTr::top(&mut stack).is_none());
    assert!(StackTr::push(&mut stack, U256::from_u64(1)));
    StackTr::clear(&mut stack);
    assert!(StackTr::is_empty(&stack));
}
