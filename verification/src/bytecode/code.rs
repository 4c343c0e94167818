//! The two forms of bytecode.

use crate::bytecode::analysis;
use crate::bytecode::analyzed::LegacyState;
use crate::bytecode::opcode;
use crate::bytecode::{JumpTable, LegacyAnalyzedBytecode};
use crate::primitives::address;
use crate::primitives::be;
use crate::primitives::keccak::{keccak256, keccak_empty};
use crate::primitives::keccak;
use crate::primitives::u256;
use crate::primitives::{Address, B256};
use vstd::prelude::*;
use vstd::slice::{slice_subrange, slice_to_vec};

verus! {

/// The first byte of a delegation.
pub const EIP7702_MAGIC_0: u8 = 0xef;

/// The second byte of a delegation.
pub const EIP7702_MAGIC_1: u8 = 0x01;

/// The version byte of a delegation.
pub const EIP7702_VERSION: u8 = 0;

/// The length of a delegation.
pub const EIP7702_BYTECODE_LEN: usize = 23;

/// Whether a code starts as a delegation does.
pub open spec fn has_eip7702_magic(code: Seq<u8>) -> bool {
    code.len() >= 2 && code[0] == EIP7702_MAGIC_0 && code[1] == EIP7702_MAGIC_1
}

/// Why bytes are no delegation.
#[derive(Clone, Copy, Debug, PartialEq, Eq, Structural)]
pub enum Eip7702DecodeError {
    /// They do not have the length of a delegation.
    InvalidLength,
    /// They do not start as a delegation does.
    InvalidMagic,
    /// The version is not known.
    UnsupportedVersion,
}

/// The code of an account that delegates to another account.
#[derive(Debug)]
pub struct Eip7702Bytecode {
    raw: Vec<u8>,
}

impl View for Eip7702Bytecode {
    type V = Seq<u8>;

    closed spec fn view(&self) -> Seq<u8> {
        self.raw@
    }
}

impl Clone for Eip7702Bytecode {
    fn clone(&self) -> (r: Eip7702Bytecode)
        ensures
            r@ == self@,
            is_delegation(r@),
    {
        proof {
            use_type_invariant(self);
        }
        Eip7702Bytecode { raw: slice_to_vec(self.raw.as_slice()) }
    }
}

/// Whether bytes are a delegation.
pub open spec fn is_delegation(code: Seq<u8>) -> bool {
    code.len() == EIP7702_BYTECODE_LEN && has_eip7702_magic(code) && code[2] == EIP7702_VERSION
}

/// The account that a delegation names.
pub open spec fn delegate_of(code: Seq<u8>) -> Address {
    address::address_of(u256::word(be::be_val(code.subrange(3, 23))))
}

impl Eip7702Bytecode {
    /// The bytes are a delegation.
    #[verifier::type_invariant]
    closed spec fn inv(self) -> bool {
        is_delegation(self.raw@)
    }

    /// Reads a delegation.
    pub fn new_raw(raw: Vec<u8>) -> (r: Result<Eip7702Bytecode, Eip7702DecodeError>)
        ensures
            r is Ok <==> is_delegation(raw@),
            r matches Ok(d) ==> d@ == raw@,
            r == Err::<Eip7702Bytecode, _>(Eip7702DecodeError::InvalidLength) <==> raw@.len()
                != EIP7702_BYTECODE_LEN,
            r == Err::<Eip7702Bytecode, _>(Eip7702DecodeError::InvalidMagic) <==> raw@.len()
                == EIP7702_BYTECODE_LEN && !has_eip7702_magic(raw@),
            r == Err::<Eip7702Bytecode, _>(Eip7702DecodeError::UnsupportedVersion) <==> raw@.len()
                == EIP7702_BYTECODE_LEN && has_eip7702_magic(raw@) && raw@[2] != EIP7702_VERSION,
    {
        if raw.len() != EIP7702_BYTECODE_LEN {
            return Err(Eip7702DecodeError::InvalidLength);
        }
        if raw[0] != EIP7702_MAGIC_0 || raw[1] != EIP7702_MAGIC_1 {
            return Err(Eip7702DecodeError::InvalidMagic);
        }
        if raw[2] != EIP7702_VERSION {
            return Err(Eip7702DecodeError::UnsupportedVersion);
        }
        Ok(Eip7702Bytecode { raw })
    }

    /// The delegation's bytes.
    pub fn raw(&self) -> (r: &[u8])
        ensures
            r@ == self@,
    {
        self.raw.as_slice()
    }

    /// The account that it delegates to.
    pub fn address(&self) -> (r: Address)
        ensures
            is_delegation(self@),
            r == delegate_of(self@),
            r.val() == be::be_val(self@.subrange(3, 23)),
    {
        proof {
            use_type_invariant(self);
        }
        let r = Address::from_slice(slice_subrange(self.raw.as_slice(), 3, 23));
        proof {
            u256::lemma_word_of_val(r.spec_word());
        }
        r
    }
}

/// What a [`Bytecode`] holds.
#[verifier::ext_equal]
pub enum CodeState {
    /// Legacy code.
    Legacy(LegacyState),
    /// A delegation.
    Eip7702(Seq<u8>),
}

impl CodeState {
    /// The code as it runs.
    pub open spec fn bytes(self) -> Seq<u8> {
        match self {
            CodeState::Legacy(l) => l.bytes,
            CodeState::Eip7702(raw) => raw,
        }
    }

    /// The code as it is stored and hashed.
    pub open spec fn original(self) -> Seq<u8> {
        match self {
            CodeState::Legacy(l) => l.original(),
            CodeState::Eip7702(raw) => raw,
        }
    }

    /// Whether a jump may land on `pc`.
    pub open spec fn valid_jump(self, pc: int) -> bool {
        match self {
            CodeState::Legacy(l) => 0 <= pc < l.table.len() && l.table[pc],
            CodeState::Eip7702(_) => false,
        }
    }

    /// The parts fit together.
    pub open spec fn wf(self) -> bool {
        match self {
            CodeState::Legacy(l) => l.wf(),
            CodeState::Eip7702(raw) => is_delegation(raw),
        }
    }

    /// The last instruction that a run can come to: the `STOP` before the guard byte, or the
    /// first byte of a delegation, which is no opcode.
    pub open spec fn stop(self) -> int {
        match self {
            CodeState::Legacy(l) => l.bytes.len() - 1 - analysis::GUARD_BYTES,
            CodeState::Eip7702(_) => 0,
        }
    }

    /// The code can run without bounds checks: it ends in an instruction that stops the run,
    /// and jumps land on instructions.
    pub open spec fn runnable(self) -> bool {
        &&& self.wf()
        &&& 0 <= self.stop()
        &&& analysis::is_boundary(self.bytes(), self.stop())
        &&& self.bytes()[self.stop()] == opcode::STOP || self.bytes()[self.stop()]
            == EIP7702_MAGIC_0
        &&& forall|j: int| #[trigger]
            self.valid_jump(j) ==> j <= self.stop() && analysis::is_jumpdest(self.bytes(), j)
    }

    /// The code that raw bytes stand for.
    pub open spec fn from_raw(code: Seq<u8>) -> CodeState {
        if has_eip7702_magic(code) {
            CodeState::Eip7702(code)
        } else {
            CodeState::Legacy(LegacyState::analyzed(code))
        }
    }

    /// The Keccak-256 hash of the code.
    pub open spec fn hash(self) -> B256 {
        if self.original().len() == 0 {
            keccak::spec_keccak_empty()
        } else {
            B256 { word: u256::word(keccak::keccak_val(self.original())) }
        }
    }
}

/// Analyzed code can run.
pub proof fn analyzed_code_is_runnable(code: Seq<u8>)
    requires
        code.len() <= usize::MAX / 8,
    ensures
        CodeState::Legacy(LegacyState::analyzed(code)).runnable(),
{
    analysis::padded_code_ends_in_stop(code);
    let s = CodeState::Legacy(LegacyState::analyzed(code));
    let p = analysis::padded(code);
    assert forall|j: int| #[trigger] s.valid_jump(j) implies j <= s.stop() && analysis::is_jumpdest(
        s.bytes(),
        j,
    ) by {
        assert(analysis::is_jumpdest(code, j));
        analysis::lemma_reaches_prefix(code, p, 0, j);
        assert(p[j] == p.subrange(0, code.len() as int)[j]);
    }
}

/// A run that is at an instruction before the last one goes on at an instruction no further
/// than the last, whatever that instruction's immediate is.
pub proof fn running_stays_inside_the_code(code: CodeState, ip: int)
    requires
        code.runnable(),
        0 <= ip < code.stop(),
        analysis::is_boundary(code.bytes(), ip),
    ensures
        analysis::next_pos(code.bytes(), ip) <= code.stop(),
        analysis::is_boundary(code.bytes(), analysis::next_pos(code.bytes(), ip)),
        code.stop() + 1 < code.bytes().len(),
{
    analysis::instructions_do_not_overlap(code.bytes(), ip, code.stop());
}

/// The code of an account.
#[derive(Debug)]
pub enum Bytecode {
    /// Legacy code.
    LegacyAnalyzed(LegacyAnalyzedBytecode),
    /// A delegation to another account.
    Eip7702(Eip7702Bytecode),
}

impl View for Bytecode {
    type V = CodeState;

    open spec fn view(&self) -> CodeState {
        match self {
            Bytecode::LegacyAnalyzed(l) => CodeState::Legacy(l@),
            Bytecode::Eip7702(d) => CodeState::Eip7702(d@),
        }
    }
}

impl Clone for Bytecode {
    fn clone(&self) -> (r: Bytecode)
        ensures
            r@ == self@,
            r@.wf(),
    {
        match self {
            Bytecode::LegacyAnalyzed(l) => Bytecode::LegacyAnalyzed(l.clone()),
            Bytecode::Eip7702(d) => Bytecode::Eip7702(d.clone()),
        }
    }
}

impl Default for Bytecode {
    fn default() -> (r: Bytecode)
        ensures
            r@ == CodeState::from_raw(Seq::empty()),
            r@.runnable(),
    {
        proof {
            analyzed_code_is_runnable(Seq::empty());
        }
        Bytecode::LegacyAnalyzed(LegacyAnalyzedBytecode::default())
    }
}

impl Bytecode {
    /// Analyzes legacy code.
    pub fn new_legacy(raw: Vec<u8>) -> (r: Bytecode)
        requires
            raw.len() <= usize::MAX / 8,
        ensures
            r@ == CodeState::Legacy(LegacyState::analyzed(raw@)),
            r@.runnable(),
    {
        proof {
            analyzed_code_is_runnable(raw@);
        }
        Bytecode::LegacyAnalyzed(LegacyAnalyzedBytecode::analyze(raw))
    }

    /// Reads code that is known to be well formed.
    pub fn new_raw(bytecode: Vec<u8>) -> (r: Bytecode)
        requires
            bytecode.len() <= usize::MAX / 8,
            has_eip7702_magic(bytecode@) ==> is_delegation(bytecode@),
        ensures
            r@ == CodeState::from_raw(bytecode@),
            r@.runnable(),
    {
        Bytecode::new_raw_checked(bytecode).unwrap()
    }

    /// Reads code: a delegation if it starts as one, else legacy code.
    pub fn new_raw_checked(bytes: Vec<u8>) -> (r: Result<Bytecode, Eip7702DecodeError>)
        requires
            bytes.len() <= usize::MAX / 8,
        ensures
            r is Ok <==> (has_eip7702_magic(bytes@) ==> is_delegation(bytes@)),
            r matches Ok(b) ==> b@ == CodeState::from_raw(bytes@) && b@.runnable(),
            r matches Err(e) ==> e == (if bytes@.len() != EIP7702_BYTECODE_LEN {
                Eip7702DecodeError::InvalidLength
            } else {
                Eip7702DecodeError::UnsupportedVersion
            }),
    {
        if bytes.len() >= 2 && bytes[0] == EIP7702_MAGIC_0 && bytes[1] == EIP7702_MAGIC_1 {
            match Eip7702Bytecode::new_raw(bytes) {
                Ok(d) => Ok(Bytecode::Eip7702(d)),
                Err(e) => Err(e),
            }
        } else {
            Ok(Bytecode::new_legacy(bytes))
        }
    }

    /// Whether this is a delegation.
    pub fn is_eip7702(&self) -> (r: bool)
        ensures
            r == (self@ is Eip7702),
    {
        match self {
            Bytecode::LegacyAnalyzed(_) => false,
            Bytecode::Eip7702(_) => true,
        }
    }

    /// The table of valid jump destinations, which legacy code alone has.
    pub fn legacy_jump_table(&self) -> (r: Option<&JumpTable>)
        ensures
            match self@ {
                CodeState::Legacy(l) => r matches Some(t) && t@ == l.table,
                CodeState::Eip7702(_) => r is None,
            },
    {
        match self {
            Bytecode::LegacyAnalyzed(l) => Some(l.jump_table()),
            Bytecode::Eip7702(_) => None,
        }
    }

    /// The code as it runs.
    pub fn bytes_ref(&self) -> (r: &[u8])
        ensures
            r@ == self@.bytes(),
    {
        match self {
            Bytecode::LegacyAnalyzed(l) => l.bytecode(),
            Bytecode::Eip7702(d) => d.raw(),
        }
    }

    /// The code as it is stored.
    pub fn original_byte_slice(&self) -> (r: &[u8])
        ensures
            r@ == self@.original(),
    {
        match self {
            Bytecode::LegacyAnalyzed(l) => l.original_byte_slice(),
            Bytecode::Eip7702(d) => d.raw(),
        }
    }

    /// The length of the code as it is stored.
    pub fn len(&self) -> (r: usize)
        ensures
            r == self@.original().len(),
    {
        self.original_byte_slice().len()
    }

    /// Whether there is no code.
    pub fn is_empty(&self) -> (r: bool)
        ensures
            r == (self@.original().len() == 0),
    {
        self.len() == 0
    }

    /// The Keccak-256 hash of the code as it is stored.
    pub fn hash_slow(&self) -> (r: B256)
        ensures
            r == self@.hash(),
    {
        if self.is_empty() {
            keccak_empty()
        } else {
            keccak256(self.original_byte_slice())
        }
    }
}

} // verus!
