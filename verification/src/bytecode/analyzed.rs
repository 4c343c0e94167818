//! Legacy code together with its analysis.

use crate::bytecode::analysis::analyze_legacy;
use crate::bytecode::analysis;
use crate::bytecode::JumpTable;
use vstd::prelude::*;
use vstd::slice::{slice_subrange, slice_to_vec};

verus! {

/// What a [`LegacyAnalyzedBytecode`] holds.
#[verifier::ext_equal]
pub struct LegacyState {
    /// The code with its padding.
    pub bytes: Seq<u8>,
    /// The length of the code without its padding.
    pub original_len: nat,
    /// The valid jump destinations.
    pub table: Seq<bool>,
}

impl LegacyState {
    /// The code without its padding.
    pub open spec fn original(self) -> Seq<u8> {
        self.bytes.subrange(0, self.original_len as int)
    }

    /// The code has a byte behind its original bytes, and a bit for each of those.
    pub open spec fn wf(self) -> bool {
        &&& self.original_len < self.bytes.len() <= usize::MAX
        &&& self.original_len <= self.table.len() <= usize::MAX
    }

    /// What the analysis of a code gives.
    pub open spec fn analyzed(code: Seq<u8>) -> LegacyState {
        LegacyState {
            bytes: analysis::padded(code),
            original_len: code.len(),
            table: Seq::new(code.len(), |i: int| analysis::is_jumpdest(code, i)),
        }
    }
}

/// Legacy code: the code padded so that it ends in a `STOP` and no immediate is truncated, its
/// length without the padding, and its valid jump destinations.
#[derive(Debug)]
pub struct LegacyAnalyzedBytecode {
    bytecode: Vec<u8>,
    original_len: usize,
    jump_table: JumpTable,
}

impl View for LegacyAnalyzedBytecode {
    type V = LegacyState;

    closed spec fn view(&self) -> LegacyState {
        LegacyState {
            bytes: self.bytecode@,
            original_len: self.original_len as nat,
            table: self.jump_table@,
        }
    }
}

impl Clone for LegacyAnalyzedBytecode {
    fn clone(&self) -> (r: LegacyAnalyzedBytecode)
        ensures
            r@ == self@,
            r@.wf(),
    {
        proof {
            use_type_invariant(self);
        }
        let n: usize = self.bytecode.len();
        let bits: usize = self.jump_table.len();
        LegacyAnalyzedBytecode {
            bytecode: slice_to_vec(self.bytecode.as_slice()),
            original_len: self.original_len,
            jump_table: self.jump_table.clone(),
        }
    }
}

impl Default for LegacyAnalyzedBytecode {
    fn default() -> (r: LegacyAnalyzedBytecode)
        ensures
            r@ == (LegacyState { bytes: seq![0u8, 0u8], original_len: 0, table: Seq::empty() }),
            r@ == LegacyState::analyzed(Seq::empty()),
            r@.wf(),
    {
        let r = LegacyAnalyzedBytecode {
            bytecode: vec![0u8, 0u8],
            original_len: 0,
            jump_table: JumpTable::default(),
        };
        assert(r@.bytes =~= seq![0u8, 0u8]);
        assert(r@ =~= LegacyState::analyzed(Seq::empty()));
        r
    }
}

impl LegacyAnalyzedBytecode {
    #[verifier::type_invariant]
    closed spec fn inv(self) -> bool {
        &&& self.original_len < self.bytecode@.len()
        &&& self.original_len <= self.jump_table@.len()
    }

    /// Analyzes a code.
    pub fn analyze(bytecode: Vec<u8>) -> (r: LegacyAnalyzedBytecode)
        requires
            bytecode.len() <= usize::MAX / 8,
        ensures
            r@ == LegacyState::analyzed(bytecode@),
            r@.wf(),
    {
        let ghost code = bytecode@;
        let original_len: usize = bytecode.len();
        proof {
            analysis::padded_code_ends_in_stop(code);
        }
        let (jump_table, padded_bytecode) = analyze_legacy(bytecode);
        LegacyAnalyzedBytecode::new(padded_bytecode, original_len, jump_table)
    }

    /// Puts analyzed code together from its parts. If nothing follows the original bytes, a
    /// zero byte is appended.
    pub fn new(bytecode: Vec<u8>, original_len: usize, jump_table: JumpTable) -> (r:
        LegacyAnalyzedBytecode)
        requires
            original_len <= bytecode@.len(),
            original_len <= jump_table@.len(),
            bytecode@.len() != 0,
            bytecode.len() < usize::MAX,
        ensures
            r@ == (LegacyState {
                bytes: if bytecode@.len() > original_len {
                    bytecode@
                } else {
                    bytecode@.push(0)
                },
                original_len: original_len as nat,
                table: jump_table@,
            }),
            r@.wf(),
    {
        let mut padded = bytecode;
        if padded.len() <= original_len {
            padded.push(0);
        }
        let n: usize = padded.len();
        let bits: usize = jump_table.len();
        LegacyAnalyzedBytecode { bytecode: padded, original_len, jump_table }
    }

    /// The code with its padding.
    pub fn bytecode(&self) -> (r: &[u8])
        ensures
            r@ == self@.bytes,
    {
        self.bytecode.as_slice()
    }

    /// The length of the code without its padding.
    pub fn original_len(&self) -> (r: usize)
        ensures
            r == self@.original_len,
    {
        self.original_len
    }

    /// The code without its padding, as a value of its own.
    pub fn original_bytes(&self) -> (r: Vec<u8>)
        ensures
            r@ == self@.original(),
    {
        slice_to_vec(self.original_byte_slice())
    }

    /// The code without its padding.
    pub fn original_byte_slice(&self) -> (r: &[u8])
        ensures
            r@ == self@.original(),
    {
        proof {
            use_type_invariant(self);
        }
        slice_subrange(self.bytecode.as_slice(), 0, self.original_len)
    }

    /// The valid jump destinations.
    pub fn jump_table(&self) -> (r: &JumpTable)
        ensures
            r@ == self@.table,
    {
        &self.jump_table
    }
}

/// Legacy code that has not been analyzed.
#[derive(Debug)]
pub struct LegacyRawBytecode(pub Vec<u8>);

impl LegacyRawBytecode {
    /// Analyzes the code.
    pub fn into_analyzed(self) -> (r: LegacyAnalyzedBytecode)
        requires
            self.0.len() <= usize::MAX / 8,
        ensures
            r@ == LegacyState::analyzed(self.0@),
            r@.wf(),
    {
        LegacyAnalyzedBytecode::analyze(self.0)
    }
}

} // verus!
