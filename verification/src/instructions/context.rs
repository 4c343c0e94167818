//! What an instruction works on.

use crate::interpreter::Interpreter;
use vstd::prelude::*;

verus! {

/// The interpreter and the host that an instruction works on.
pub struct InstructionContext<'a, H> {
    /// The interpreter.
    pub interpreter: &'a mut Interpreter,
    /// The host.
    pub host: &'a mut H,
}

} // verus!
