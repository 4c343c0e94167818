//! What a frame is called with.

use crate::interpreter::interpreter_types::{InputsTr, ReturnData, RuntimeFlag};
use crate::primitives::u256;
use crate::primitives::{Address, SpecId, U256};
use std::ops::Range;
use vstd::prelude::*;
use vstd::slice::slice_to_vec;

verus! {

/// The input data of a call: a range of the shared memory, or bytes.
#[derive(Debug)]
pub enum CallInput {
    /// A range of the memory of the frames below.
    SharedBuffer(Range<usize>),
    /// Bytes.
    Bytes(Vec<u8>),
}

/// What a [`CallInput`] says.
#[verifier::ext_equal]
pub enum CallInputState {
    /// A range of the memory of the frames below.
    SharedBuffer(int, int),
    /// Bytes.
    Bytes(Seq<u8>),
}

impl View for CallInput {
    type V = CallInputState;

    open spec fn view(&self) -> CallInputState {
        match self {
            CallInput::SharedBuffer(range) => CallInputState::SharedBuffer(
                range.start as int,
                range.end as int,
            ),
            CallInput::Bytes(bytes) => CallInputState::Bytes(bytes@),
        }
    }
}

impl CallInputState {
    /// The number of bytes; an inverted range has none.
    pub open spec fn size(self) -> int {
        match self {
            CallInputState::SharedBuffer(start, end) => if start < end {
                end - start
            } else {
                0
            },
            CallInputState::Bytes(bytes) => bytes.len() as int,
        }
    }
}

impl Clone for CallInput {
    fn clone(&self) -> (r: CallInput)
        ensures
            r@ == self@,
    {
        match self {
            CallInput::SharedBuffer(range) => CallInput::SharedBuffer(range.start..range.end),
            CallInput::Bytes(bytes) => CallInput::Bytes(slice_to_vec(bytes.as_slice())),
        }
    }
}

impl Default for CallInput {
    fn default() -> (r: CallInput)
        ensures
            r@ == CallInputState::SharedBuffer(0, 0),
    {
        CallInput::SharedBuffer(0..0)
    }
}

impl CallInput {
    /// The number of bytes.
    pub fn len(&self) -> (r: usize)
        ensures
            r == self@.size(),
    {
        match self {
            CallInput::SharedBuffer(range) => if range.start < range.end {
                range.end - range.start
            } else {
                0
            },
            CallInput::Bytes(bytes) => bytes.len(),
        }
    }

    /// Whether there are no bytes.
    pub fn is_empty(&self) -> (r: bool)
        ensures
            r == (self@.size() == 0),
    {
        self.len() == 0
    }
}

/// What a frame is called with.
#[derive(Debug)]
pub struct InputsImpl {
    /// The account whose storage is used.
    pub target_address: Address,
    /// The account whose code runs. Initcode has none.
    pub bytecode_address: Option<Address>,
    /// The caller.
    pub caller_address: Address,
    /// The input data.
    pub input: CallInput,
    /// The value of the call.
    pub call_value: U256,
}

/// What an [`InputsImpl`] says.
#[verifier::ext_equal]
pub struct InputState {
    /// The account whose storage is used.
    pub target: Address,
    /// The account whose code runs.
    pub bytecode_address: Option<Address>,
    /// The caller.
    pub caller: Address,
    /// The input data.
    pub input: CallInputState,
    /// The value of the call.
    pub call_value: U256,
}

impl InputState {
    /// No accounts, no data and no value.
    pub open spec fn blank() -> InputState {
        InputState {
            target: Address { hi: 0, mid: 0, lo: 0 },
            bytecode_address: None,
            caller: Address { hi: 0, mid: 0, lo: 0 },
            input: CallInputState::SharedBuffer(0, 0),
            call_value: u256::word(0),
        }
    }
}

impl View for InputsImpl {
    type V = InputState;

    open spec fn view(&self) -> InputState {
        InputState {
            target: self.target_address,
            bytecode_address: self.bytecode_address,
            caller: self.caller_address,
            input: self.input@,
            call_value: self.call_value,
        }
    }
}

impl Clone for InputsImpl {
    fn clone(&self) -> (r: InputsImpl)
        ensures
            r@ == self@,
    {
        InputsImpl {
            target_address: self.target_address,
            bytecode_address: self.bytecode_address,
            caller_address: self.caller_address,
            input: self.input.clone(),
            call_value: self.call_value,
        }
    }
}

impl Default for InputsImpl {
    fn default() -> (r: InputsImpl)
        ensures
            r@ == InputState::blank(),
    {
        InputsImpl {
            target_address: Address::zero(),
            bytecode_address: None,
            caller_address: Address::zero(),
            input: CallInput::default(),
            call_value: U256::zero(),
        }
    }
}

impl InputsTr for InputsImpl {
    fn target_address(&self) -> (r: Address) {
        self.target_address
    }

    fn bytecode_address(&self) -> (r: Option<&Address>) {
        match &self.bytecode_address {
            Some(a) => Some(a),
            None => None,
        }
    }

    fn caller_address(&self) -> (r: Address) {
        self.caller_address
    }

    fn input(&self) -> (r: &CallInput) {
        &self.input
    }

    fn call_value(&self) -> (r: U256) {
        self.call_value
    }
}

/// The flags of a run.
#[derive(Clone, Copy, Debug, PartialEq, Eq, Structural)]
pub struct RuntimeFlags {
    /// Whether the state may not change.
    pub is_static: bool,
    /// The hard fork whose rules hold.
    pub spec_id: SpecId,
}

impl RuntimeFlag for RuntimeFlags {
    open spec fn flags(&self) -> RuntimeFlags {
        *self
    }

    fn is_static(&self) -> (r: bool) {
        self.is_static
    }

    fn spec_id(&self) -> (r: SpecId) {
        self.spec_id
    }
}

/// The data that the last call returned.
#[derive(Debug)]
pub struct ReturnDataImpl(pub Vec<u8>);

impl View for ReturnDataImpl {
    type V = Seq<u8>;

    open spec fn view(&self) -> Seq<u8> {
        self.0@
    }
}

impl Default for ReturnDataImpl {
    fn default() -> (r: ReturnDataImpl)
        ensures
            r@ == Seq::<u8>::empty(),
    {
        ReturnDataImpl(Vec::new())
    }
}

impl ReturnData for ReturnDataImpl {
    fn buffer(&self) -> (r: &[u8]) {
        self.0.as_slice()
    }

    fn set_buffer(&mut self, bytes: Vec<u8>) {
        self.0 = bytes;
    }
}

} // verus!
