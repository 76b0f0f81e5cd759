//! The position of a chunk, with or without its dimension, as stored in LevelDB keys.

use vstd::prelude::*;

use crate::bytes::{
    extend_i32_le, extend_u32_le, i32_at, lemma_i32_le_roundtrip, lemma_u32_le_roundtrip,
    spec_i32_at, spec_i32_le_bytes, spec_u32_at, spec_u32_le_bytes, u32_at,
};
use crate::values::dimensions::{
    lemma_bedrock_numeric_dimension_roundtrip, NumericDimension, VanillaDimension,
};

verus! {

/// The location of a chunk in a dimension of a world.
///
/// Note that this is not the block position;
/// multiply this position by 16 to find the positions of its blocks. For example
/// `ChunkPosition { x: 1, z: 2 }` refers to the chunk from `(16, 32)` to `(31, 47)`.
#[derive(Debug, Clone, Copy, PartialEq, Eq, PartialOrd, Ord, Hash, Structural)]
pub struct ChunkPosition {
    pub x: i32,
    pub z: i32,
}

/// The location of a chunk in a world, including its dimension.
#[derive(Debug, Clone, Copy, PartialEq, Eq, PartialOrd, Ord, Hash, Structural)]
pub struct DimensionedChunkPos(ChunkPosition, NumericDimension);

impl View for DimensionedChunkPos {
    /// The position and the dimension.
    type V = (ChunkPosition, NumericDimension);

    closed spec fn view(&self) -> (ChunkPosition, NumericDimension) {
        (self.0, self.1)
    }
}

impl DimensionedChunkPos {
    /// The position and dimension that `bytes` hold: two little-endian `i32`s, x and z, and
    /// then, if there are twelve bytes rather than eight, a little-endian `u32` Bedrock Edition
    /// dimension ID; without one, the dimension is the Overworld.
    pub open spec fn spec_new_raw(bytes: Seq<u8>) -> Option<(ChunkPosition, NumericDimension)> {
        let position = ChunkPosition { x: spec_i32_at(bytes, 0), z: spec_i32_at(bytes, 4) };
        if bytes.len() == 8 {
            Some((position, NumericDimension::Vanilla(VanillaDimension::Overworld)))
        } else if bytes.len() == 12 {
            Some((position, NumericDimension::spec_from_bedrock_numeric(spec_u32_at(bytes, 8))))
        } else {
            None
        }
    }

    /// The bytes of a position and dimension: x and z, and the dimension ID where
    /// `write_overworld_id` holds or the dimension is not the Overworld's ID, zero.
    pub open spec fn spec_bytes(
        pos: (ChunkPosition, NumericDimension),
        write_overworld_id: bool,
    ) -> Seq<u8> {
        let id = pos.1.spec_to_bedrock_numeric();
        spec_i32_le_bytes(pos.0.x) + spec_i32_le_bytes(pos.0.z) + if write_overworld_id || id
            != 0 {
            spec_u32_le_bytes(id)
        } else {
            Seq::empty()
        }
    }

    /// Attempt to parse the bytes as a `ChunkPosition` followed by an optional `NumericDimension`.
    /// The dimension defaults to the Overworld if not present.
    ///
    /// Warning: the `NumericDimension` might not be a vanilla dimension, which could indicate
    /// that an unintentionally successful parse occurred.
    pub fn new_raw(bytes: &[u8]) -> (res: Option<Self>)
        ensures
            match Self::spec_new_raw(bytes@) {
                Some(v) => res matches Some(p) && p@ == v,
                None => res is None,
            },
    {
        if bytes.len() == 8 {
            let position = ChunkPosition { x: i32_at(bytes, 0), z: i32_at(bytes, 4) };
            Some(
                DimensionedChunkPos(
                    position,
                    NumericDimension::Vanilla(VanillaDimension::Overworld),
                ),
            )
        } else if bytes.len() == 12 {
            let dimension_id = u32_at(bytes, 8);
            let position = ChunkPosition { x: i32_at(bytes, 0), z: i32_at(bytes, 4) };
            Some(
                DimensionedChunkPos(position, NumericDimension::from_bedrock_numeric(dimension_id)),
            )
        } else {
            None
        }
    }

    /// The chunk position.
    pub fn position(&self) -> (res: ChunkPosition)
        ensures
            res == self@.0,
    {
        self.0
    }

    /// The dimension.
    pub fn dimension(&self) -> (res: NumericDimension)
        ensures
            res == self@.1,
    {
        self.1
    }

    /// Extend the provided bytes with the byte format of a `DimensionedChunkPos`, namely
    /// a `ChunkPosition` followed by a `NumericDimension`. If the dimension
    /// is the Overworld, its dimension ID doesn't need to be serialized, but if
    /// `write_overworld_id` is true, then it will be.
    pub fn extend_serialized(self, bytes: &mut Vec<u8>, write_overworld_id: bool)
        ensures
            final(bytes)@ == old(bytes)@ + Self::spec_bytes(self@, write_overworld_id),
    {
        extend_i32_le(bytes, self.0.x);
        extend_i32_le(bytes, self.0.z);
        let id = self.1.to_bedrock_numeric();
        if write_overworld_id || id != 0 {
            extend_u32_le(bytes, id);
        }
        assert(bytes@ =~= old(bytes)@ + Self::spec_bytes(self@, write_overworld_id));
    }

    /// Write a `DimensionedChunkPos` to bytes for a `ChunkPosition` followed by
    /// a `NumericDimension`. If the dimension is the Overworld,
    /// its dimension ID doesn't need to be serialized,
    /// but if `write_overworld_id` is true, then it will be.
    pub fn to_bytes(self, write_overworld_id: bool) -> (res: Vec<u8>)
        ensures
            res@ == Self::spec_bytes(self@, write_overworld_id),
    {
        let mut bytes: Vec<u8> = Vec::new();
        self.extend_serialized(&mut bytes, write_overworld_id);
        assert(bytes@ =~= Self::spec_bytes(self@, write_overworld_id));
        bytes
    }
}

impl<'a> TryFrom<&'a [u8]> for DimensionedChunkPos {
    type Error = ();

    fn try_from(value: &'a [u8]) -> (res: Result<Self, ()>)
        ensures
            match DimensionedChunkPos::spec_new_raw(value@) {
                Some(v) => res matches Ok(p) && p@ == v,
                None => res is Err,
            },
    {
        match DimensionedChunkPos::new_raw(value) {
            Some(p) => Ok(p),
            None => Err(()),
        }
    }
}

impl<'a> vstd::std_specs::convert::TryFromSpecImpl<&'a [u8]> for DimensionedChunkPos {
    open spec fn obeys_try_from_spec() -> bool {
        true
    }

    closed spec fn try_from_spec(value: &'a [u8]) -> Result<DimensionedChunkPos, ()> {
        match DimensionedChunkPos::spec_new_raw(value@) {
            Some(v) => Ok(DimensionedChunkPos(v.0, v.1)),
            None => Err(()),
        }
    }
}

/// Reading the bytes written for a position and dimension gives them back, unless the
/// dimension is a custom one whose number is that of a vanilla dimension.
pub proof fn lemma_chunk_pos_roundtrip(pos: (ChunkPosition, NumericDimension), write_overworld_id: bool)
    requires
        pos.1 matches NumericDimension::CustomNumeric(c) ==> !(0 <= c.0 <= 2),
    ensures
        DimensionedChunkPos::spec_new_raw(DimensionedChunkPos::spec_bytes(pos, write_overworld_id))
            == Some(pos),
{
    let b = DimensionedChunkPos::spec_bytes(pos, write_overworld_id);
    let id = pos.1.spec_to_bedrock_numeric();
    lemma_i32_le_roundtrip(pos.0.x);
    lemma_i32_le_roundtrip(pos.0.z);
    lemma_u32_le_roundtrip(id);
    lemma_bedrock_numeric_dimension_roundtrip(pos.1);
    assert(b.subrange(0, 4) =~= spec_i32_le_bytes(pos.0.x));
    assert(b.subrange(4, 8) =~= spec_i32_le_bytes(pos.0.z));
    assert(spec_i32_at(b, 0) == spec_i32_at(spec_i32_le_bytes(pos.0.x), 0));
    assert(spec_i32_at(b, 4) == spec_i32_at(spec_i32_le_bytes(pos.0.z), 0));
    if write_overworld_id || id != 0 {
        assert(b.subrange(8, 12) =~= spec_u32_le_bytes(id));
        assert(spec_u32_at(b, 8) == spec_u32_at(spec_u32_le_bytes(id), 0));
    } else {
        assert(pos.1 == NumericDimension::Vanilla(VanillaDimension::Overworld));
    }
}

} // verus!
