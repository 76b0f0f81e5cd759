//! How far the generation of a chunk has come.

use vstd::prelude::*;

use crate::bytes::{extend_u32_le, spec_u32_at, spec_u32_le_bytes, u32_at};

verus! {

/// How far the generation of a chunk has come.
#[derive(Debug, Clone, Copy, PartialEq, Eq, Structural)]
pub enum FinalizedState {
    NeedsInstaticking,
    NeedsPopulation,
    Done,
}

impl FinalizedState {
    /// The number that stands for this state.
    pub open spec fn spec_to_u32(self) -> u32 {
        match self {
            FinalizedState::NeedsInstaticking => 0,
            FinalizedState::NeedsPopulation => 1,
            FinalizedState::Done => 2,
        }
    }

    /// The state that a number stands for, if any.
    pub open spec fn spec_from_u32(value: u32) -> Option<FinalizedState> {
        if value == 0 {
            Some(FinalizedState::NeedsInstaticking)
        } else if value == 1 {
            Some(FinalizedState::NeedsPopulation)
        } else if value == 2 {
            Some(FinalizedState::Done)
        } else {
            None
        }
    }

    /// The state that `value` holds: four bytes, a little-endian `u32` that stands for a state.
    pub open spec fn spec_parse(value: Seq<u8>) -> Option<FinalizedState> {
        if value.len() == 4 {
            Self::spec_from_u32(spec_u32_at(value, 0))
        } else {
            None
        }
    }

    pub fn parse(value: &[u8]) -> (res: Option<Self>)
        ensures
            res == Self::spec_parse(value@),
    {
        if value.len() == 4 {
            let n = u32_at(value, 0);
            if n == 0 {
                Some(FinalizedState::NeedsInstaticking)
            } else if n == 1 {
                Some(FinalizedState::NeedsPopulation)
            } else if n == 2 {
                Some(FinalizedState::Done)
            } else {
                None
            }
        } else {
            None
        }
    }

    /// The number that stands for this state.
    pub fn to_u32(self) -> (res: u32)
        ensures
            res == self.spec_to_u32(),
    {
        match self {
            FinalizedState::NeedsInstaticking => 0,
            FinalizedState::NeedsPopulation => 1,
            FinalizedState::Done => 2,
        }
    }

    /// Append the little-endian bytes of the number that stands for this state.
    pub fn extend_serialized(self, bytes: &mut Vec<u8>)
        ensures
            final(bytes)@ == old(bytes)@ + spec_u32_le_bytes(self.spec_to_u32()),
    {
        extend_u32_le(bytes, self.to_u32());
    }

    /// The little-endian bytes of the number that stands for this state.
    pub fn to_bytes(self) -> (res: Vec<u8>)
        ensures
            res@ == spec_u32_le_bytes(self.spec_to_u32()),
    {
        let mut bytes: Vec<u8> = Vec::new();
        self.extend_serialized(&mut bytes);
        bytes
    }
}

impl From<FinalizedState> for u32 {
    fn from(value: FinalizedState) -> (res: u32) {
        value.to_u32()
    }
}

impl vstd::std_specs::convert::FromSpecImpl<FinalizedState> for u32 {
    open spec fn obeys_from_spec() -> bool {
        true
    }

    open spec fn from_spec(value: FinalizedState) -> u32 {
        value.spec_to_u32()
    }
}

impl TryFrom<u32> for FinalizedState {
    type Error = ();

    fn try_from(value: u32) -> (res: Result<Self, ()>) {
        if value == 0 {
            Ok(FinalizedState::NeedsInstaticking)
        } else if value == 1 {
            Ok(FinalizedState::NeedsPopulation)
        } else if value == 2 {
            Ok(FinalizedState::Done)
        } else {
            Err(())
        }
    }
}

impl vstd::std_specs::convert::TryFromSpecImpl<u32> for FinalizedState {
    open spec fn obeys_try_from_spec() -> bool {
        true
    }

    open spec fn try_from_spec(value: u32) -> Result<FinalizedState, ()> {
        match FinalizedState::spec_from_u32(value) {
            Some(v) => Ok(v),
            None => Err(()),
        }
    }
}

/// Parsing the bytes of a state gives back that state.
pub proof fn lemma_finalized_state_roundtrip(state: FinalizedState)
    ensures
        FinalizedState::spec_parse(spec_u32_le_bytes(state.spec_to_u32())) == Some(state),
{
    crate::bytes::lemma_u32_le_roundtrip(state.spec_to_u32());
}

/// The bytes of the state parsed from `value` are `value`.
pub proof fn lemma_finalized_state_bytes_roundtrip(value: Seq<u8>)
    requires
        FinalizedState::spec_parse(value) is Some,
    ensures
        spec_u32_le_bytes(FinalizedState::spec_parse(value)->0.spec_to_u32()) == value,
{
    crate::bytes::lemma_u32_le_bytes_of_read(value[0], value[1], value[2], value[3]);
    assert(value =~= seq![value[0], value[1], value[2], value[3]]);
}


/// The finalized states are the game's numbers: 0 needs instaticking, 1 needs population,
/// 2 done; no other number is a state.
pub proof fn lemma_finalized_state_numbering()
    ensures
        FinalizedState::NeedsInstaticking.spec_to_u32() == 0u32,
        FinalizedState::NeedsPopulation.spec_to_u32() == 1u32,
        FinalizedState::Done.spec_to_u32() == 2u32,
        FinalizedState::spec_from_u32(0u32) == Some(FinalizedState::NeedsInstaticking),
        FinalizedState::spec_from_u32(1u32) == Some(FinalizedState::NeedsPopulation),
        FinalizedState::spec_from_u32(2u32) == Some(FinalizedState::Done),
        forall|v: u32| v > 2 ==> #[trigger] FinalizedState::spec_from_u32(v) is None,
{
}

} // verus!
