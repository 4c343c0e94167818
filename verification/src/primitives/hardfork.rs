//! The hard forks of the Ethereum main network, in the order of their activation.
#![allow(non_camel_case_types)]

use vstd::prelude::*;

verus! {

/// A hard fork. The variants are in the order of activation.
#[derive(Clone, Copy, Debug, PartialEq, Eq, Structural, Hash)]
pub enum SpecId {
    FRONTIER,
    FRONTIER_THAWING,
    HOMESTEAD,
    DAO_FORK,
    TANGERINE,
    SPURIOUS_DRAGON,
    BYZANTIUM,
    CONSTANTINOPLE,
    PETERSBURG,
    ISTANBUL,
    MUIR_GLACIER,
    BERLIN,
    LONDON,
    ARROW_GLACIER,
    GRAY_GLACIER,
    MERGE,
    SHANGHAI,
    CANCUN,
    PRAGUE,
    OSAKA,
    AMSTERDAM,
}

/// The number of hard forks.
pub const SPEC_COUNT: usize = 21;

impl SpecId {
    /// The position of the fork in the order of activation.
    pub open spec fn rank(self) -> nat {
        match self {
            SpecId::FRONTIER => 0,
            SpecId::FRONTIER_THAWING => 1,
            SpecId::HOMESTEAD => 2,
            SpecId::DAO_FORK => 3,
            SpecId::TANGERINE => 4,
            SpecId::SPURIOUS_DRAGON => 5,
            SpecId::BYZANTIUM => 6,
            SpecId::CONSTANTINOPLE => 7,
            SpecId::PETERSBURG => 8,
            SpecId::ISTANBUL => 9,
            SpecId::MUIR_GLACIER => 10,
            SpecId::BERLIN => 11,
            SpecId::LONDON => 12,
            SpecId::ARROW_GLACIER => 13,
            SpecId::GRAY_GLACIER => 14,
            SpecId::MERGE => 15,
            SpecId::SHANGHAI => 16,
            SpecId::CANCUN => 17,
            SpecId::PRAGUE => 18,
            SpecId::OSAKA => 19,
            SpecId::AMSTERDAM => 20,
        }
    }

    /// Whether this fork is `other` or a later one.
    pub open spec fn enabled(self, other: SpecId) -> bool {
        self.rank() >= other.rank()
    }

    /// The position of the fork in the order of activation.
    pub fn index(self) -> (r: usize)
        ensures
            r == self.rank(),
            r < SPEC_COUNT,
    {
        match self {
            SpecId::FRONTIER => 0,
            SpecId::FRONTIER_THAWING => 1,
            SpecId::HOMESTEAD => 2,
            SpecId::DAO_FORK => 3,
            SpecId::TANGERINE => 4,
            SpecId::SPURIOUS_DRAGON => 5,
            SpecId::BYZANTIUM => 6,
            SpecId::CONSTANTINOPLE => 7,
            SpecId::PETERSBURG => 8,
            SpecId::ISTANBUL => 9,
            SpecId::MUIR_GLACIER => 10,
            SpecId::BERLIN => 11,
            SpecId::LONDON => 12,
            SpecId::ARROW_GLACIER => 13,
            SpecId::GRAY_GLACIER => 14,
            SpecId::MERGE => 15,
            SpecId::SHANGHAI => 16,
            SpecId::CANCUN => 17,
            SpecId::PRAGUE => 18,
            SpecId::OSAKA => 19,
            SpecId::AMSTERDAM => 20,
        }
    }

    /// The fork at a position in the order of activation.
    pub fn try_from_u8(n: u8) -> (r: Option<SpecId>)
        ensures
            r is Some <==> n < SPEC_COUNT,
            r is Some ==> r->0.rank() == n,
    {
        match n {
            0 => Some(SpecId::FRONTIER),
            1 => Some(SpecId::FRONTIER_THAWING),
            2 => Some(SpecId::HOMESTEAD),
            3 => Some(SpecId::DAO_FORK),
            4 => Some(SpecId::TANGERINE),
            5 => Some(SpecId::SPURIOUS_DRAGON),
            6 => Some(SpecId::BYZANTIUM),
            7 => Some(SpecId::CONSTANTINOPLE),
            8 => Some(SpecId::PETERSBURG),
            9 => Some(SpecId::ISTANBUL),
            10 => Some(SpecId::MUIR_GLACIER),
            11 => Some(SpecId::BERLIN),
            12 => Some(SpecId::LONDON),
            13 => Some(SpecId::ARROW_GLACIER),
            14 => Some(SpecId::GRAY_GLACIER),
            15 => Some(SpecId::MERGE),
            16 => Some(SpecId::SHANGHAI),
            17 => Some(SpecId::CANCUN),
            18 => Some(SpecId::PRAGUE),
            19 => Some(SpecId::OSAKA),
            20 => Some(SpecId::AMSTERDAM),
            _ => None,
        }
    }

    /// Whether the rules of `other` apply under this fork.
    pub fn is_enabled_in(self, other: SpecId) -> (r: bool)
        ensures
            r == self.enabled(other),
    {
        self.index() >= other.index()
    }
}

impl Default for SpecId {
    fn default() -> (r: SpecId)
        ensures
            r == SpecId::PRAGUE,
    {
        SpecId::PRAGUE
    }
}

} // verus!
